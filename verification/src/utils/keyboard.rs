//! Keys of the console player.
use vstd::prelude::*;

verus! {

pub const ESC_KEY: char = '\x1b';

pub const LEFT_KEY: char = '\x25';

pub const RIGHT_KEY: char = '\x27';

/// The index a number key selects: '1' to '9' give 0 to 8, '0' gives 9,
/// any other key -1.
pub open spec fn spec_num_key(key: char) -> i32 {
    if '1' <= key <= '9' {
        (key as int - '1' as int) as i32
    } else if key == '0' {
        9
    } else {
        -1i32
    }
}

pub fn convert_num_key_to_number(key: char) -> (r: i32)
    ensures
        r == spec_num_key(key),
{
    if '1' <= key && key <= '9' {
        (key as u32 - '1' as u32) as i32
    } else if key == '0' {
        9
    } else {
        -1i32
    }
}

} // verus!
