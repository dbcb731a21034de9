use vstd::prelude::*;

verus! {

pub const SID_FILE_FORMAT_VERSION_OFFSET: usize = 0x05;
pub const SID_HEADER_SIZE_OFFSET: usize = 0x07;
pub const SID_SONG_COUNT_OFFSET: usize = 0x0f;
pub const SID_DEFAULT_SONG_OFFSET: usize = 0x11;
pub const SID_TITLE_OFFSET: usize = 0x16;
pub const SID_FLAGS_OFFSET: usize = 0x77;

pub const SID_HEADER_SIZE: usize = 0x7c;

pub const FLAG_BUILTIN_MUS_PLAYER: u8 = 0x01;
pub const FLAG_NTSC: u8 = 0x08;
pub const FLAG_8580: u8 = 0x20;

/// Smallest header a PSID/RSID file can have.
pub const MIN_SID_HEADER_SIZE: usize = 0x76;

/// The four magic bytes at the start of a SID file: "RSID" or "PSID".
pub open spec fn has_sid_magic(source: Seq<u8>) -> bool {
    &&& source.len() >= 4
    &&& source[0] == 0x52 || source[0] == 0x50  // 'R' or 'P'
    &&& source[1] == 0x53  // 'S'
    &&& source[2] == 0x49  // 'I'
    &&& source[3] == 0x44  // 'D'
}

pub open spec fn spec_is_sid_file(source: Seq<u8>) -> bool {
    source.len() >= MIN_SID_HEADER_SIZE && has_sid_magic(source)
}

/// Whether `source` holds a PSID or RSID file: it is at least as long as the
/// smallest SID header and starts with "RSID" or "PSID".
pub fn is_sid_file(source: &[u8]) -> (r: bool)
    ensures
        r == spec_is_sid_file(source@),
{
    source.len() >= MIN_SID_HEADER_SIZE
        && (source[0] == 0x52 || source[0] == 0x50)
        && source[1] == 0x53
        && source[2] == 0x49
        && source[3] == 0x44
}

} // verus!
