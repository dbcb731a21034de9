pub mod sid_device;
pub mod sid_devices;
pub mod sid_info;
pub mod hardsid_usb_device;
pub mod sid_data_processor;
pub mod sidblaster_scheduler;
pub mod usbsid_scheduler;
pub mod usbsid_device;
pub mod sidblaster_usb_device;
pub mod sldb;
pub mod ultimate_device;
pub mod network_sid_device;
pub mod stil;

use vstd::prelude::*;
use std::collections::VecDeque;
use crate::player::sid_device::{DeviceResponse, SidClock, SidDevice, SidModel, DUMMY_REG};
use crate::player::sid_data_processor::{SidWrite, SidWriteLog};
use crate::utils::text::{ends_with, i64_to_string, signed_decimal, str_ends_with, str_prefix};

verus! {

pub const PAL_CYCLES_PER_SECOND: u32 = 982800;

pub const NTSC_CYCLES_PER_SECOND: u32 = 1025700;

pub const ONE_MHZ_CYCLES_PER_SECOND: u32 = 1000000;

pub const MIN_CYCLE_SID_WRITE: u32 = 8;

pub const MIN_CYCLE_SID_WRITE_FAST_FORWARD: u32 = 8;

pub const SID_MODEL_8580: i32 = 2;

pub const DEFAULT_SONG_LENGTH_IN_MILLIS: i32 = 300000;

/// How the play loop is asked to stop, shared with the threads that ask.
pub type AbortType = i32;

pub const ABORT_NO: AbortType = 0;

pub const ABORT_TO_QUIT: AbortType = 1;

pub const ABORT_FOR_COMMAND: AbortType = 2;

pub const ABORTING: AbortType = 3;

pub const ABORTED: AbortType = 4;

/// Commands the console sends to the playing thread.
#[derive(Copy, Clone, PartialEq, Eq, Structural, Debug)]
pub enum PlayerCommand {
    Play,
    Pause,
    Stop,
    EnableFastForward,
    DisableFastForward,
}

/// What the emulator did in its last step.
#[derive(Copy, Clone, PartialEq, Eq, Structural, Debug)]
pub enum SidCommand {
    Idle,
    Delay,
    Write,
    Read,
    NextPart,
    InitDone,
    SeekDone,
    SkipSilenceDone,
}

impl SidCommand {
    /// The command with number `value`, in the order of the variants.
    pub open spec fn spec_from_integer(value: int) -> SidCommand {
        if value == 0 {
            SidCommand::Idle
        } else if value == 1 {
            SidCommand::Delay
        } else if value == 2 {
            SidCommand::Write
        } else if value == 3 {
            SidCommand::Read
        } else if value == 4 {
            SidCommand::NextPart
        } else if value == 5 {
            SidCommand::InitDone
        } else if value == 6 {
            SidCommand::SeekDone
        } else {
            SidCommand::SkipSilenceDone
        }
    }

    pub fn from_integer(value: i32) -> (r: SidCommand)
        requires
            0 <= value <= 7,
        ensures
            r == Self::spec_from_integer(value as int),
    {
        match value {
            0 => SidCommand::Idle,
            1 => SidCommand::Delay,
            2 => SidCommand::Write,
            3 => SidCommand::Read,
            4 => SidCommand::NextPart,
            5 => SidCommand::InitDone,
            6 => SidCommand::SeekDone,
            _ => SidCommand::SkipSilenceDone,
        }
    }
}

/// What the playing thread shows the console.
pub struct PlayerOutput {
    pub time: u32,
    pub device_number: i32,
    pub song_number: i32,
    pub has_remote_sidplayer: bool,
    pub last_error: Option<String>,
}

impl Default for PlayerOutput {
    fn default() -> (r: Self)
        ensures
            r.time == 0,
            r.device_number == 0,
            r.song_number == 0,
            !r.has_remote_sidplayer,
            r.last_error is None,
    {
        PlayerOutput { time: 0, device_number: 0, song_number: 0, has_remote_sidplayer: false, last_error: None }
    }
}


/// Cycles per second of the C64 clock a device runs at: a PAL frame is 312
/// lines of 63 cycles at 50 Hz, an NTSC frame 263 lines of 65 cycles at
/// 60 Hz.
pub open spec fn spec_cycles_per_second(clock: SidClock) -> u32 {
    match clock {
        SidClock::Pal => PAL_CYCLES_PER_SECOND,
        SidClock::Ntsc => NTSC_CYCLES_PER_SECOND,
        SidClock::OneMhz => ONE_MHZ_CYCLES_PER_SECOND,
    }
}

pub fn cycles_per_second(clock: SidClock) -> (r: u32)
    ensures
        r == spec_cycles_per_second(clock),
{
    match clock {
        SidClock::Pal => PAL_CYCLES_PER_SECOND,
        SidClock::Ntsc => NTSC_CYCLES_PER_SECOND,
        SidClock::OneMhz => ONE_MHZ_CYCLES_PER_SECOND,
    }
}

/// Rust's `/ 10` on a signed number: rounds toward zero.
pub open spec fn div10(v: int) -> int {
    if v >= 0 {
        v / 10
    } else {
        -((-v) / 10)
    }
}

/// Rust's `% 10` on a signed number: has the sign of `v`.
pub open spec fn rem10(v: int) -> int {
    v - 10 * div10(v)
}

/// Binary coded decimal: each decimal digit of `v` in a nibble of its own,
/// the lowest digit lowest; a negative number gives negative digits.
pub open spec fn bcd(v: int) -> int
    decreases (if v >= 0 { v } else { -v }),
{
    if v == 0 {
        0
    } else {
        rem10(v) + 16 * bcd(div10(v))
    }
}

/// 10 to the power `7 - k`, for `k` from 0 to 7.
pub open spec fn digits_limit(k: int) -> int {
    if k <= 0 {
        10_000_000
    } else if k == 1 {
        1_000_000
    } else if k == 2 {
        100_000
    } else if k == 3 {
        10_000
    } else if k == 4 {
        1_000
    } else if k == 5 {
        100
    } else if k == 6 {
        10
    } else {
        1
    }
}

/// 16 to the power `k`, for `k` from 0 to 7.
pub open spec fn nibble_scale(k: int) -> int {
    if k <= 0 {
        1
    } else if k == 1 {
        16
    } else if k == 2 {
        256
    } else if k == 3 {
        4096
    } else if k == 4 {
        65536
    } else if k == 5 {
        1048576
    } else if k == 6 {
        16777216
    } else {
        268435456
    }
}

/// `value` in binary coded decimal, as the Ultimate's song length file
/// stores minutes and seconds.
pub fn int_to_bcd(value: i32) -> (r: i32)
    requires
        -10_000_000 < value < 10_000_000,
    ensures
        r == bcd(value as int),
{
    let mut rest = value;
    let mut result: i32 = 0;
    let mut scale: i32 = 1;
    let ghost mut k: int = 0;
    while rest != 0
        invariant
            0 <= k <= 7,
            scale == nibble_scale(k),
            -digits_limit(k) < rest < digits_limit(k),
            bcd(value as int) == result + scale * bcd(rest as int),
            -scale < result < scale,
        decreases (if rest >= 0 { rest as int } else { -rest as int }),
    {
        let digit = rest % 10;
        let next = rest / 10;
        proof {
            assert(digit == rem10(rest as int));
            assert(next == div10(rest as int));
            assert(-10 < digit < 10);
            assert(k < 7);
            assert(-digits_limit(k + 1) < next < digits_limit(k + 1));
            assert(-(16 * scale) < result + digit * scale < 16 * scale) by (nonlinear_arith)
                requires
                    -scale < result < scale,
                    -10 < digit < 10,
                    scale >= 1,
            ;
            assert(scale * bcd(rest as int) == digit * scale + (16 * scale) * bcd(next as int)) by (nonlinear_arith)
                requires
                    bcd(rest as int) == digit + 16 * bcd(next as int),
            ;
        }
        result = result + digit * scale;
        rest = next;
        if rest == 0 {
            proof {
                assert(bcd(next as int) == 0);
                assert((16 * scale) * bcd(next as int) == 0);
                assert(bcd(value as int) == result);
            }
            return result;
        }
        proof {
            assert(k + 1 < 7);
        }
        scale = scale * 16;
        proof {
            k = k + 1;
        }
    }
    result
}

/// The two bytes of one song length in the Ultimate's song length file:
/// the length in millis rounded to seconds, then minutes (modulo 100) and
/// seconds, each in BCD.
pub open spec fn ssl_entry(length: i32) -> (u8, u8) {
    let total = trunc_div(length + 500, 1000);
    ((bcd(trunc_rem(trunc_div(total, 60), 100)) as i32) as u8, (bcd(trunc_rem(total, 60)) as i32) as u8)
}

/// The song length file of a tune with the song lengths `lengths`.
pub open spec fn spec_song_lengths_bcd(lengths: Seq<i32>) -> Seq<u8> {
    Seq::new(
        2 * lengths.len(),
        |i: int|
            if i % 2 == 0 {
                ssl_entry(lengths[i / 2]).0
            } else {
                ssl_entry(lengths[i / 2]).1
            },
    )
}

/// The song length file the Ultimate's SID player reads, from the song
/// lengths in millis.
pub fn song_lengths_to_bcd(lengths: &Vec<i32>) -> (r: Vec<u8>)
    requires
        forall|i: int| 0 <= i < lengths.len() ==> lengths[i] <= i32::MAX - 500,
    ensures
        r@ == spec_song_lengths_bcd(lengths@),
{
    let mut song_lengths_in_bcd: Vec<u8> = Vec::new();
    let mut i: usize = 0;
    while i < lengths.len()
        invariant
            i <= lengths.len(),
            forall|j: int| 0 <= j < lengths.len() ==> lengths[j] <= i32::MAX - 500,
            song_lengths_in_bcd@ == spec_song_lengths_bcd(lengths@.take(i as int)),
        decreases lengths.len() - i,
    {
        let song_length = lengths[i];
        let seconds_total = (song_length + 500) / 1000;
        let seconds = int_to_bcd(seconds_total % 60);
        let minutes = int_to_bcd(seconds_total / 60 % 100);
        let ghost before = song_lengths_in_bcd@;
        song_lengths_in_bcd.push(minutes as u8);
        song_lengths_in_bcd.push(seconds as u8);
        proof {
            assert(seconds_total == trunc_div(song_length + 500, 1000));
            assert(spec_song_lengths_bcd(lengths@.take(i + 1)) =~= spec_song_lengths_bcd(lengths@.take(i as int)).push(
                ssl_entry(song_length).0,
            ).push(ssl_entry(song_length).1));
            assert(song_lengths_in_bcd@ =~= before.push(minutes as u8).push(seconds as u8));
        }
        i = i + 1;
    }
    proof {
        assert(lengths@.take(lengths.len() as int) =~= lengths@);
    }
    song_lengths_in_bcd
}

/// Rust's `/` on signed numbers: rounds toward zero.
pub open spec fn trunc_div(a: int, b: int) -> int {
    if a >= 0 {
        a / b
    } else {
        -((-a) / b)
    }
}

/// Rust's `%` on signed numbers: has the sign of `a`.
pub open spec fn trunc_rem(a: int, b: int) -> int {
    a - b * trunc_div(a, b)
}


/// The cycles a write waits on the device: the fastest pace in fast
/// forward (speed -1), the tune's cycles divided by a speed above 1 (but
/// not below the fastest pace), else the tune's cycles.
pub open spec fn spec_adjust_cycles(fast_forward_speed: i32, cycles: u32) -> u32 {
    if fast_forward_speed == -1 {
        MIN_CYCLE_SID_WRITE_FAST_FORWARD
    } else if fast_forward_speed > 1 && cycles > MIN_CYCLE_SID_WRITE_FAST_FORWARD {
        let ff = cycles / (fast_forward_speed as u32);
        if ff < MIN_CYCLE_SID_WRITE_FAST_FORWARD {
            MIN_CYCLE_SID_WRITE_FAST_FORWARD
        } else {
            ff as u32
        }
    } else {
        cycles
    }
}

pub fn adjust_cycles(fast_forward_speed: i32, cycles: u32) -> (r: u32)
    ensures
        r == spec_adjust_cycles(fast_forward_speed, cycles),
{
    if fast_forward_speed == -1 {
        MIN_CYCLE_SID_WRITE_FAST_FORWARD
    } else if fast_forward_speed > 1 && cycles > MIN_CYCLE_SID_WRITE_FAST_FORWARD {
        let ff_cycles = cycles / (fast_forward_speed as u32);
        if ff_cycles < MIN_CYCLE_SID_WRITE_FAST_FORWARD {
            MIN_CYCLE_SID_WRITE_FAST_FORWARD
        } else {
            ff_cycles
        }
    } else {
        cycles
    }
}

/// The song after `song_number`, the first after the last.
pub fn get_next_song(song_number: i32, number_of_songs: i32) -> (r: i32)
    requires
        number_of_songs > 0,
        -1 <= song_number < number_of_songs,
    ensures
        r == (song_number + 1) % (number_of_songs as int),
{
    let x = song_number + 1;
    proof {
        if x < number_of_songs {
            vstd::arithmetic::div_mod::lemma_small_mod(x as nat, number_of_songs as nat);
        } else {
            vstd::arithmetic::div_mod::lemma_mod_self_0(number_of_songs as int);
        }
    }
    if x < number_of_songs {
        x
    } else {
        0
    }
}

/// The song before `song_number`, the last before the first.
pub fn get_prev_song(song_number: i32, number_of_songs: i32) -> (r: i32)
    requires
        number_of_songs > 0,
        0 <= song_number < number_of_songs,
        song_number + number_of_songs <= i32::MAX,
    ensures
        r == (song_number + number_of_songs - 1) % (number_of_songs as int),
{
    let x = song_number + number_of_songs - 1;
    proof {
        if x < number_of_songs {
            vstd::arithmetic::div_mod::lemma_small_mod(x as nat, number_of_songs as nat);
        } else {
            vstd::arithmetic::div_mod::lemma_small_mod((x - number_of_songs) as nat, number_of_songs as nat);
            vstd::arithmetic::div_mod::lemma_mod_add_multiples_vanish(x - number_of_songs, number_of_songs as int);
        }
    }
    if x < number_of_songs {
        x
    } else {
        x - number_of_songs
    }
}

/// Device -1 stands for the default, the first device (number 1, index 0),
/// whatever the SID models of the tune.
pub open spec fn spec_valid_device_number(device_number: i32, sid_models: Seq<i32>) -> i32 {
    if device_number == -1 {
        0
    } else {
        device_number
    }
}

pub fn get_valid_device_number(device_number: i32, sid_models: &Vec<i32>) -> (r: i32)
    ensures
        r == spec_valid_device_number(device_number, sid_models@),
        device_number == -1 ==> r == 0,
        device_number != -1 ==> r == device_number,
{
    if device_number == -1 {
        0
    } else {
        device_number
    }
}

/// The device of each SID chip after `fix_device_numbers` looked at the
/// first `n` chips: given numbers made valid, missing ones copied from the
/// chip before (device 0 for the first).
pub open spec fn fixed_devices(numbers: Seq<i32>, n: int, sid_models: Seq<i32>) -> Seq<i32>
    decreases n,
{
    if n <= 0 {
        numbers
    } else {
        let prev = fixed_devices(numbers, n - 1, sid_models);
        if n - 1 < numbers.len() {
            prev.update(n - 1, spec_valid_device_number(numbers[n - 1], sid_models))
        } else {
            prev.push(if n - 1 == 0 { 0 } else { prev[n - 2] })
        }
    }
}

proof fn lemma_fixed_devices_rest(numbers: Seq<i32>, n: int, sid_models: Seq<i32>, j: int)
    requires
        0 <= n <= j < numbers.len(),
    ensures
        fixed_devices(numbers, n, sid_models)[j] == numbers[j],
    decreases n,
{
    if n > 0 {
        lemma_fixed_devices_rest(numbers, n - 1, sid_models, j);
        lemma_fixed_devices_len(numbers, n - 1, sid_models);
    }
}

proof fn lemma_fixed_devices_len(numbers: Seq<i32>, n: int, sid_models: Seq<i32>)
    requires
        n >= 0,
    ensures
        fixed_devices(numbers, n, sid_models).len() == if n <= numbers.len() {
            numbers.len() as int
        } else {
            n
        },
    decreases n,
{
    if n > 0 {
        lemma_fixed_devices_len(numbers, n - 1, sid_models);
    }
}

/// Gives each of the `number_of_sids` SID chips a valid device: the listed
/// numbers made valid, the missing ones the device of the chip before.
pub fn fix_device_numbers(device_numbers: &mut Vec<i32>, number_of_sids: i32, sid_models: &Vec<i32>)
    ensures
        final(device_numbers)@ == fixed_devices(old(device_numbers)@, number_of_sids as int, sid_models@),
{
    let ghost initial = device_numbers@;
    let mut device_number: i32 = 0;
    let mut i: i32 = 0;
    while i < number_of_sids
        invariant
            0 <= i,
            number_of_sids >= 0 ==> i <= number_of_sids,
            number_of_sids < 0 ==> i == 0,
            device_numbers@ == fixed_devices(initial, i as int, sid_models@),
            device_numbers@.len() == if i <= initial.len() { initial.len() as int } else { i as int },
            i > 0 ==> device_number == device_numbers@[i - 1],
            i == 0 ==> device_number == 0,
        decreases number_of_sids - i,
    {
        proof {
            lemma_fixed_devices_len(initial, i + 1, sid_models@);
        }
        if (i as usize) < device_numbers.len() {
            let found = device_numbers[i as usize];
            proof {
                lemma_fixed_devices_rest(initial, i as int, sid_models@, i as int);
            }
            device_number = get_valid_device_number(found, sid_models);
            device_numbers.set(i as usize, device_number);
        } else {
            device_numbers.push(device_number);
        }
        i = i + 1;
    }
    proof {
        if number_of_sids < 0 {
            assert(fixed_devices(initial, number_of_sids as int, sid_models@) == initial);
        }
    }
}


/// The message for device number `device_number` (counted from 0) when only
/// `device_count` devices exist.
pub open spec fn missing_device_message(device_number: i32, device_count: i32) -> Seq<char> {
    "Device number "@ + signed_decimal(device_number + 1) + " doesn't exist, there are only "@
        + signed_decimal(device_count as int) + " devices."@
}

/// The message for two devices that cannot play one tune together.
pub open spec fn unpairable_message(first: i32, second: i32) -> Seq<char> {
    "Device number "@ + signed_decimal(first + 1) + " can't be used together with device "@
        + signed_decimal(second + 1) + ". Specify a different second device with option -dX,Y"@
}

/// The first problem with the device numbers from index `i` on: a device
/// that does not exist, or a device that cannot be paired with the one
/// before it (`pairable[j]` tells of devices `j - 1` and `j`).
pub open spec fn device_numbers_error(numbers: Seq<i32>, device_count: i32, pairable: Seq<bool>, i: int) -> Option<Seq<char>>
    decreases numbers.len() - i,
{
    if i < 0 || i >= numbers.len() {
        None
    } else if numbers[i] + 1 > device_count {
        Some(missing_device_message(numbers[i], device_count))
    } else if i > 0 && !pairable[i] {
        Some(unpairable_message(numbers[i - 1], numbers[i]))
    } else {
        device_numbers_error(numbers, device_count, pairable, i + 1)
    }
}

/// Checks that each chip's device exists and can play together with the
/// device of the chip before.
pub fn validate_device_numbers(device_numbers: &Vec<i32>, device_count: i32, pairable: &Vec<bool>) -> (r: Result<(), String>)
    requires
        pairable.len() == device_numbers.len(),
        forall|i: int| 0 <= i < device_numbers.len() ==> device_numbers[i] < i32::MAX,
    ensures
        match device_numbers_error(device_numbers@, device_count, pairable@, 0) {
            Some(e) => r is Err && r->Err_0@ == e,
            None => r is Ok,
        },
{
    let mut i: usize = 0;
    while i < device_numbers.len()
        invariant
            i <= device_numbers.len(),
            pairable.len() == device_numbers.len(),
            forall|j: int| 0 <= j < device_numbers.len() ==> device_numbers[j] < i32::MAX,
            device_numbers_error(device_numbers@, device_count, pairable@, 0) == device_numbers_error(
                device_numbers@,
                device_count,
                pairable@,
                i as int,
            ),
        decreases device_numbers.len() - i,
    {
        let device_number = device_numbers[i];
        if device_number + 1 > device_count {
            let mut message = String::from_str("Device number ");
            message.append(i64_to_string(device_number as i64 + 1).as_str());
            message.append(" doesn't exist, there are only ");
            message.append(i64_to_string(device_count as i64).as_str());
            message.append(" devices.");
            return Err(message);
        }
        if i > 0 && !pairable[i] {
            let prev_device = device_numbers[i - 1];
            let mut message = String::from_str("Device number ");
            message.append(i64_to_string(prev_device as i64 + 1).as_str());
            message.append(" can't be used together with device ");
            message.append(i64_to_string(device_number as i64 + 1).as_str());
            message.append(". Specify a different second device with option -dX,Y");
            return Err(message);
        }
        i = i + 1;
    }
    Ok(())
}

/// Device `d` was asked whether chips `first` and `second` can play
/// together, and answered `answer`.
pub open spec fn answered_pairing<S: SidDevice>(d: S, first: i32, second: i32, answer: bool) -> bool {
    exists|m: &mut S| mut_ref_current(m) == d && #[trigger] call_ensures(S::can_pair_devices, (m, first, second), answer)
}

/// Whether the check of the device numbers reaches the pairing of chip `i`
/// with chip `i - 1`: every chip up to `i` has its device, and every pair
/// before was accepted.
pub open spec fn pairing_reached(numbers: Seq<i32>, device_count: i32, pairable: Seq<bool>, i: int) -> bool {
    &&& forall|j: int| 0 <= j <= i ==> #[trigger] numbers[j] + 1 <= device_count
    &&& forall|j: int| 1 <= j < i ==> #[trigger] pairable[j]
}

/// One step of asking about pairs: a pair that is reached is asked of the
/// device in `states[i]`; a pair that is not reached is taken as accepted
/// and leaves the device alone.
pub open spec fn pairing_step<S: SidDevice>(numbers: Seq<i32>, device_count: i32, states: Seq<S>, pairable: Seq<bool>, i: int) -> bool {
    if pairing_reached(numbers, device_count, pairable, i) {
        answered_pairing(states[i], numbers[i - 1], numbers[i], pairable[i])
    } else {
        pairable[i] && states[i + 1] == states[i]
    }
}

/// The device was asked, chip after chip, whether each chip's device can
/// play with the one before, as far as the check of the device numbers
/// reaches: `states[i]` is the device before chip `i`, `pairable[i]` the
/// answer for chips `i - 1` and `i`.
pub open spec fn pairing_asked<S: SidDevice>(numbers: Seq<i32>, device_count: i32, states: Seq<S>, pairable: Seq<bool>) -> bool {
    &&& pairable.len() == numbers.len()
    &&& states.len() == numbers.len() + 1
    &&& numbers.len() > 0 ==> pairable[0] && states[1] == states[0]
    &&& forall|i: int| 1 <= i < numbers.len() ==> #[trigger] pairing_step(numbers, device_count, states, pairable, i)
}

proof fn lemma_reached_prefix(numbers: Seq<i32>, device_count: i32, p1: Seq<bool>, p2: Seq<bool>, i: int)
    requires
        0 <= i <= p1.len(),
        i <= p2.len(),
        forall|j: int| 0 <= j < i ==> p1[j] == p2[j],
    ensures
        pairing_reached(numbers, device_count, p1, i) == pairing_reached(numbers, device_count, p2, i),
{
    if pairing_reached(numbers, device_count, p1, i) {
        assert forall|j: int| 1 <= j < i implies #[trigger] p2[j] by {
            assert(p1[j]);
        }
    }
    if pairing_reached(numbers, device_count, p2, i) {
        assert forall|j: int| 1 <= j < i implies #[trigger] p1[j] by {
            assert(p2[j]);
        }
    }
}

/// Checks the device numbers against `device`: each chip's device must
/// exist, and each must be able to play with the device of the chip before,
/// which only the device can tell. The answers it gave are those the result
/// is made of.
pub fn check_device_numbers<S: SidDevice>(device: &mut S, device_numbers: &Vec<i32>, device_count: i32) -> (r: Result<(), String>)
    requires
        forall|i: int| 0 <= i < device_numbers.len() ==> device_numbers[i] < i32::MAX,
    ensures
        exists|states: Seq<S>, pairable: Seq<bool>|
            #[trigger] pairing_asked(device_numbers@, device_count, states, pairable) && states[0] == *old(device)
                && states.last() == *final(device) && match device_numbers_error(device_numbers@, device_count, pairable, 0) {
                Some(e) => r is Err && r->Err_0@ == e,
                None => r is Ok,
            },
{
    let n = device_numbers.len();
    let mut pairable: Vec<bool> = Vec::new();
    let ghost mut states: Seq<S> = seq![*device];
    let mut reached = true;
    let mut i: usize = 0;
    while i < n
        invariant
            i <= n,
            n == device_numbers.len(),
            forall|j: int| 0 <= j < device_numbers.len() ==> device_numbers[j] < i32::MAX,
            pairable.len() == i,
            states.len() == i + 1,
            states[0] == *old(device),
            states[i as int] == *device,
            i > 0 ==> pairable[0] && states[1] == states[0],
            reached <==> (forall|j: int| 0 <= j < i ==> #[trigger] device_numbers@[j] + 1 <= device_count) && (forall|
                j: int,
            | 1 <= j < i ==> #[trigger] pairable@[j]),
            forall|j: int| 1 <= j < i ==> #[trigger] pairing_step(device_numbers@, device_count, states, pairable@, j),
        decreases n - i,
    {
        let ghost old_states = states;
        let ghost old_pairable = pairable@;
        let answer = if i > 0 && reached && device_numbers[i] < device_count {
            device.can_pair_devices(device_numbers[i - 1], device_numbers[i])
        } else {
            true
        };
        pairable.push(answer);
        proof {
            states = states.push(*device);
            assert(states.drop_last() =~= old_states);
            assert forall|j: int| 1 <= j < i implies #[trigger] pairing_step(device_numbers@, device_count, states, pairable@, j) by {
                lemma_reached_prefix(device_numbers@, device_count, pairable@, old_pairable, j);
                assert(pairing_step(device_numbers@, device_count, old_states, old_pairable, j));
            }
            if i > 0 {
                lemma_reached_prefix(device_numbers@, device_count, pairable@, old_pairable, i as int);
                if reached && device_numbers@[i as int] + 1 <= device_count {
                    assert(pairing_reached(device_numbers@, device_count, old_pairable, i as int));
                } else {
                    assert(!pairing_reached(device_numbers@, device_count, old_pairable, i as int));
                }
                assert(pairing_step(device_numbers@, device_count, states, pairable@, i as int));
            }
        }
        reached = reached && device_numbers[i] < device_count && answer;
        i = i + 1;
    }
    proof {
        assert(pairing_asked(device_numbers@, device_count, states, pairable@));
    }
    validate_device_numbers(device_numbers, device_count, &pairable)
}

/// The song `init_song` plays: -1 stands for the tune's default song; a
/// song the tune does not have is an error.
pub open spec fn spec_song_to_init(song_number: i32, default_song: i32, number_of_songs: i32) -> Result<i32, Seq<char>> {
    let song = if song_number == -1 { default_song } else { song_number };
    if song < 0 || song >= number_of_songs {
        Err("Song number "@ + signed_decimal(song + 1) + " doesn't exist."@)
    } else {
        Ok(song)
    }
}

pub fn song_to_init(song_number: i32, default_song: i32, number_of_songs: i32) -> (r: Result<i32, String>)
    requires
        (if song_number == -1 { default_song } else { song_number }) < i32::MAX,
    ensures
        match spec_song_to_init(song_number, default_song, number_of_songs) {
            Ok(s) => r == Ok::<i32, String>(s),
            Err(e) => r is Err && r->Err_0@ == e,
        },
{
    let song = if song_number == -1 {
        default_song
    } else {
        song_number
    };
    if song < 0 || song >= number_of_songs {
        let mut message = String::from_str("Song number ");
        message.append(i64_to_string(song as i64 + 1).as_str());
        message.append(" doesn't exist.");
        Err(message)
    } else {
        Ok(song)
    }
}

/// The clock a tune is played at: NTSC for C64 model 2, else PAL.
pub fn clock_for_c64_model(c64_model: i32) -> (r: SidClock)
    ensures
        r == (if c64_model == 2 { SidClock::Ntsc } else { SidClock::Pal }),
{
    if c64_model == 2 {
        SidClock::Ntsc
    } else {
        SidClock::Pal
    }
}

/// The chip model of a tune's SID chip: the 8580 for model 2, else the 6581.
pub fn sid_model_for_code(sid_model: i32) -> (r: SidModel)
    ensures
        r == (if sid_model == SID_MODEL_8580 { SidModel::Mos8580 } else { SidModel::Mos6581 }),
{
    if sid_model == SID_MODEL_8580 {
        SidModel::Mos8580
    } else {
        SidModel::Mos6581
    }
}

/// What the play loop does with one step of the emulator.
#[derive(Copy, Clone, PartialEq, Eq, Structural, Debug)]
pub enum EmulatorAction {
    /// Write the dummy register: the emulator only spent cycles.
    WriteDelay,
    /// Write the emulator's register and data.
    WriteRegister,
    /// Keep a device without writes busy for `cycles`.
    DummyWrite(u32),
    Nothing,
}

/// How long the emulator has been idle since the last write or read.
pub struct IdleCounter {
    pub idle_count: u32,
    pub cycles_per_second: u32,
    pub sid_written: bool,
}

impl IdleCounter {
    pub open spec fn wf(&self) -> bool {
        0 < self.cycles_per_second <= 0x7fff_ffff && self.idle_count < self.cycles_per_second
    }

    pub fn new(cycles_per_second: u32) -> (r: IdleCounter)
        requires
            0 < cycles_per_second <= 0x7fff_ffff,
        ensures
            r.wf(),
            r.idle_count == 0,
            r.cycles_per_second == cycles_per_second,
            !r.sid_written,
    {
        IdleCounter { idle_count: 0, cycles_per_second, sid_written: false }
    }

    /// A delay writes the dummy register; a write or a read resets the idle
    /// time; while idle after the tune wrote, each step adds a millisecond
    /// of cycles, and each full second of idling becomes a dummy write of a
    /// second.
    pub fn on_sid_command(&mut self, command: SidCommand) -> (r: EmulatorAction)
        requires
            old(self).wf(),
        ensures
            final(self).wf(),
            final(self).cycles_per_second == old(self).cycles_per_second,
            final(self).sid_written == old(self).sid_written,
            match command {
                SidCommand::Delay => r == EmulatorAction::WriteDelay && final(self).idle_count == old(self).idle_count,
                SidCommand::Write => r == EmulatorAction::WriteRegister && final(self).idle_count == 0,
                SidCommand::Read => r == EmulatorAction::Nothing && final(self).idle_count == 0,
                SidCommand::Idle => if old(self).sid_written {
                    let idle = old(self).idle_count + old(self).cycles_per_second / 1000;
                    if idle >= old(self).cycles_per_second {
                        r == EmulatorAction::DummyWrite(old(self).cycles_per_second)
                            && final(self).idle_count == idle - old(self).cycles_per_second
                    } else {
                        r == EmulatorAction::Nothing && final(self).idle_count == idle
                    }
                } else {
                    r == EmulatorAction::Nothing && final(self).idle_count == old(self).idle_count
                },
                _ => r == EmulatorAction::Nothing && final(self).idle_count == old(self).idle_count,
            },
    {
        match command {
            SidCommand::Delay => EmulatorAction::WriteDelay,
            SidCommand::Write => {
                self.idle_count = 0;
                EmulatorAction::WriteRegister
            },
            SidCommand::Read => {
                self.idle_count = 0;
                EmulatorAction::Nothing
            },
            SidCommand::Idle => {
                if self.sid_written {
                    self.idle_count = self.idle_count + self.cycles_per_second / 1000;
                    if self.idle_count >= self.cycles_per_second {
                        self.idle_count = self.idle_count - self.cycles_per_second;
                        return EmulatorAction::DummyWrite(self.cycles_per_second);
                    }
                }
                EmulatorAction::Nothing
            },
            _ => EmulatorAction::Nothing,
        }
    }
}

/// The play loop waits a millisecond before it retries a busy device when
/// the next write is 10 ms or more away.
pub fn should_wait_before_retry(next_event_in_millis: u64) -> (r: bool)
    ensures
        r == (next_event_in_millis >= 10),
{
    next_event_in_millis >= 10
}

/// What the player does for a command from the console.
#[derive(Copy, Clone, PartialEq, Eq, Structural, Debug)]
pub struct CommandPlan {
    /// Resume: reset the active chips, bring the voices back, flush, and
    /// replay the buffered writes.
    pub resume: bool,
    /// On resume, restart the song and upload it again to a device with
    /// its own player.
    pub restart_remote: bool,
    /// Pause: clear the device buffers, silence the chips, stop a remote
    /// player.
    pub pause: bool,
    pub enable_fast_forward: bool,
    pub disable_fast_forward: bool,
    /// Whether the player is paused afterwards.
    pub paused: bool,
}

pub fn plan_player_command(command: Option<PlayerCommand>, paused: bool, has_remote_sidplayer: bool) -> (r: CommandPlan)
    ensures
        r.resume == (command == Some(PlayerCommand::Play) && paused),
        r.restart_remote == (r.resume && has_remote_sidplayer),
        r.pause == (command == Some(PlayerCommand::Pause)),
        r.enable_fast_forward == (command == Some(PlayerCommand::EnableFastForward)),
        r.disable_fast_forward == (command == Some(PlayerCommand::DisableFastForward)),
        r.paused == match command {
            Some(PlayerCommand::Play) => false,
            Some(PlayerCommand::Pause) => true,
            _ => paused,
        },
{
    let mut plan = CommandPlan {
        resume: false,
        restart_remote: false,
        pause: false,
        enable_fast_forward: false,
        disable_fast_forward: false,
        paused,
    };
    match command {
        Some(PlayerCommand::Play) => {
            if paused {
                plan.resume = true;
                plan.restart_remote = has_remote_sidplayer;
            }
            plan.paused = false;
        },
        Some(PlayerCommand::Pause) => {
            plan.pause = true;
            plan.paused = true;
        },
        Some(PlayerCommand::EnableFastForward) => {
            plan.enable_fast_forward = true;
        },
        Some(PlayerCommand::DisableFastForward) => {
            plan.disable_fast_forward = true;
        },
        _ => {},
    }
    plan
}

/// What stopping the player does to a device with its own player.
#[derive(Copy, Clone, PartialEq, Eq, Structural, Debug)]
pub enum StopAction {
    Nothing,
    /// Pause the device's own player.
    StopRemote,
    /// The device is gone: the play loop quits.
    Quit,
}

pub fn stop_action(device_number: i32, paused: bool, has_remote_sidplayer: bool, connected: bool) -> (r: StopAction)
    ensures
        r == if device_number != -1 && !paused && has_remote_sidplayer {
            if connected {
                StopAction::StopRemote
            } else {
                StopAction::Quit
            }
        } else {
            StopAction::Nothing
        },
{
    if device_number != -1 && !paused && has_remote_sidplayer {
        if connected {
            StopAction::StopRemote
        } else {
            StopAction::Quit
        }
    } else {
        StopAction::Nothing
    }
}

/// Puts the writes still buffered for the device in front of the writes to
/// replay, in their order.
pub fn prepend_to_redo(redo_buffer: &mut VecDeque<SidWrite>, buffer: &Vec<SidWrite>)
    ensures
        final(redo_buffer)@ == buffer@ + old(redo_buffer)@,
{
    let mut i: usize = buffer.len();
    while i > 0
        invariant
            i <= buffer.len(),
            redo_buffer@ == buffer@.skip(i as int) + old(redo_buffer)@,
        decreases i,
    {
        i = i - 1;
        let w = buffer[i];
        redo_buffer.push_front(SidWrite::new(w.reg, w.data, w.cycles, w.cycles_real));
        proof {
            assert(buffer@.skip(i as int) =~= seq![w] + buffer@.skip(i + 1));
        }
    }
    proof {
        assert(buffer@.skip(0) =~= buffer@);
    }
}

/// One write that brings a paused voice back: `direct` writes wait for the
/// device, the others may find it busy.
#[derive(Copy, Clone, PartialEq, Eq, Structural, Debug)]
pub struct VoiceWrite {
    pub direct: bool,
    pub cycles: u32,
    pub reg: u8,
    pub data: u8,
}

pub open spec fn restore(reg: u8, last: Seq<u8>) -> VoiceWrite {
    VoiceWrite { direct: false, cycles: MIN_CYCLE_SID_WRITE, reg, data: last[reg as int] }
}

/// The writes that bring voice `voice_nr` of the chip at `sid_base` back
/// after a pause: pulse width and envelope as last written, then the
/// control register, whose gate is set once more while a released note
/// still sounds, then the frequency.
pub open spec fn spec_reactivate_voice(voice_nr: u8, sid_base: u8, last: Seq<u8>, ctrl: u8, note_finished: bool) -> Seq<VoiceWrite> {
    let b = (sid_base + voice_nr * 7) as u8;
    seq![
        restore((b + 3) as u8, last),
        restore((b + 2) as u8, last),
        restore((b + 5) as u8, last),
        restore((b + 6) as u8, last),
    ] + (if ctrl % 2 == 0 {
        if !note_finished {
            seq![
                VoiceWrite { direct: true, cycles: MIN_CYCLE_SID_WRITE, reg: (b + 4) as u8, data: ctrl | 1u8 },
                VoiceWrite { direct: true, cycles: 40000, reg: (b + 4) as u8, data: ctrl },
            ]
        } else {
            seq![]
        }
    } else {
        seq![VoiceWrite { direct: true, cycles: MIN_CYCLE_SID_WRITE, reg: (b + 4) as u8, data: ctrl }]
    }) + seq![restore(b, last), restore((b + 1) as u8, last)]
}

/// The writes that bring a voice back, from what the player last wrote
/// (`last_sid_write`) and what the device last heard (`log`).
pub fn reactivate_voice(voice_nr: u8, sid_base: u8, last_sid_write: &Vec<u8>, log: &SidWriteLog) -> (r: Vec<VoiceWrite>)
    requires
        voice_nr <= 2,
        sid_base + voice_nr * 7 + 6 <= 0xf9,
        last_sid_write.len() == 256,
        log.wf(),
    ensures
        r@ == spec_reactivate_voice(
            voice_nr,
            sid_base,
            last_sid_write@,
            log.last_writes()[sid_base + voice_nr * 7 + 4],
            log.is_note_finished_spec((sid_base + voice_nr * 7) as u8),
        ),
{
    let reg_base = sid_base + voice_nr * 7;
    let mut writes: Vec<VoiceWrite> = Vec::new();
    writes.push(VoiceWrite { direct: false, cycles: MIN_CYCLE_SID_WRITE, reg: reg_base + 3, data: last_sid_write[(reg_base + 3) as usize] });
    writes.push(VoiceWrite { direct: false, cycles: MIN_CYCLE_SID_WRITE, reg: reg_base + 2, data: last_sid_write[(reg_base + 2) as usize] });
    writes.push(VoiceWrite { direct: false, cycles: MIN_CYCLE_SID_WRITE, reg: reg_base + 5, data: last_sid_write[(reg_base + 5) as usize] });
    writes.push(VoiceWrite { direct: false, cycles: MIN_CYCLE_SID_WRITE, reg: reg_base + 6, data: last_sid_write[(reg_base + 6) as usize] });
    let data_ctrl_reg = log.get_last_sid_write(reg_base + 4);
    let gate_off = data_ctrl_reg & 0x01 == 0x00;
    proof {
        assert(data_ctrl_reg & 0x01 == data_ctrl_reg % 2) by (bit_vector);
    }
    if gate_off {
        if !log.is_note_finished(reg_base) {
            writes.push(VoiceWrite { direct: true, cycles: MIN_CYCLE_SID_WRITE, reg: reg_base + 4, data: data_ctrl_reg | 0x01 });
            writes.push(VoiceWrite { direct: true, cycles: 40000, reg: reg_base + 4, data: data_ctrl_reg });
        }
    } else {
        writes.push(VoiceWrite { direct: true, cycles: MIN_CYCLE_SID_WRITE, reg: reg_base + 4, data: data_ctrl_reg });
    }
    writes.push(VoiceWrite { direct: false, cycles: MIN_CYCLE_SID_WRITE, reg: reg_base, data: last_sid_write[reg_base as usize] });
    writes.push(VoiceWrite { direct: false, cycles: MIN_CYCLE_SID_WRITE, reg: reg_base + 1, data: last_sid_write[(reg_base + 1) as usize] });
    proof {
        assert(writes@ =~= spec_reactivate_voice(
            voice_nr,
            sid_base,
            last_sid_write@,
            log.last_writes()[sid_base + voice_nr * 7 + 4],
            log.is_note_finished_spec(reg_base),
        ));
    }
    writes
}


/// The previous song of the next song is the song itself.
pub proof fn lemma_prev_undoes_next(song_number: int, number_of_songs: int)
    requires
        0 <= song_number < number_of_songs,
    ensures
        ((song_number + 1) % number_of_songs + number_of_songs - 1) % number_of_songs == song_number,
{
    if song_number + 1 < number_of_songs {
        vstd::arithmetic::div_mod::lemma_small_mod((song_number + 1) as nat, number_of_songs as nat);
        vstd::arithmetic::div_mod::lemma_small_mod(song_number as nat, number_of_songs as nat);
        vstd::arithmetic::div_mod::lemma_mod_add_multiples_vanish(song_number, number_of_songs);
    } else {
        vstd::arithmetic::div_mod::lemma_mod_self_0(number_of_songs);
        vstd::arithmetic::div_mod::lemma_small_mod(song_number as nat, number_of_songs as nat);
    }
}

/// A two digit number in BCD holds its tens in the high nibble and its
/// units in the low nibble.
pub proof fn lemma_bcd_two_digits(v: int)
    requires
        0 <= v < 100,
    ensures
        bcd(v) == (v / 10) * 16 + v % 10,
{
    let t = v / 10;
    assert(div10(v) == t);
    assert(rem10(v) == v % 10);
    if t > 0 {
        assert(div10(t) == 0);
        assert(rem10(t) == t);
        assert(bcd(t) == t + 16 * bcd(0));
    }
    assert(bcd(v) == v % 10 + 16 * bcd(t));
}

/// After `fix_device_numbers` each of the tune's chips has a device, none
/// of them the default -1, and numbers beyond the tune's chips are kept.
pub proof fn lemma_fixed_devices_valid(numbers: Seq<i32>, n: int, sid_models: Seq<i32>)
    requires
        n >= 0,
    ensures
        fixed_devices(numbers, n, sid_models).len() >= n,
        forall|i: int| 0 <= i < n ==> #[trigger] fixed_devices(numbers, n, sid_models)[i] != -1,
        forall|i: int| n <= i < numbers.len() ==> #[trigger] fixed_devices(numbers, n, sid_models)[i] == numbers[i],
    decreases n,
{
    lemma_fixed_devices_len(numbers, n, sid_models);
    if n > 0 {
        lemma_fixed_devices_valid(numbers, n - 1, sid_models);
        lemma_fixed_devices_len(numbers, n - 1, sid_models);
    }
}


/// What one turn of the play loop does, after the console's command was
/// handled.
#[derive(Copy, Clone, PartialEq, Eq, Structural, Debug)]
pub enum LoopStep {
    /// Leave the loop.
    Quit,
    /// Paused: sleep and look again.
    Sleep,
    /// The device was busy: show the time, wait a millisecond first when
    /// asked, and retry the write.
    RetryBusy { wait_first: bool },
    /// Replay the writes buffered before a pause or a change of speed.
    ReplayRedo,
    /// Let the emulator run to its next event.
    RunEmulator,
}

/// The branch a turn of the play loop takes: sleep while paused; with a
/// busy device quit when asked to, else retry (first waiting when the next
/// write is 10 ms or more away); replay buffered writes first; else run the
/// emulator.
pub fn loop_step(paused: bool, device_state: DeviceResponse, should_quit: bool, redo_empty: bool, next_event_in_millis: u64) -> (r: LoopStep)
    ensures
        r == if paused {
            LoopStep::Sleep
        } else if device_state == DeviceResponse::Busy {
            if should_quit {
                LoopStep::Quit
            } else {
                LoopStep::RetryBusy { wait_first: next_event_in_millis >= 10 }
            }
        } else if !redo_empty {
            LoopStep::ReplayRedo
        } else {
            LoopStep::RunEmulator
        },
{
    if paused {
        LoopStep::Sleep
    } else if device_state == DeviceResponse::Busy {
        if should_quit {
            LoopStep::Quit
        } else {
            LoopStep::RetryBusy { wait_first: should_wait_before_retry(next_event_in_millis) }
        }
    } else if !redo_empty {
        LoopStep::ReplayRedo
    } else {
        LoopStep::RunEmulator
    }
}

/// Which file of a Sidplayer tune a file name names: the music (".mus")
/// or the lyrics (".str").
#[derive(Copy, Clone, PartialEq, Eq, Structural, Debug)]
pub enum MusPart {
    Mus,
    Str,
    Other,
}

pub open spec fn spec_mus_part(name: Seq<char>) -> MusPart {
    if ends_with(name, ".mus"@) {
        MusPart::Mus
    } else if ends_with(name, ".str"@) {
        MusPart::Str
    } else {
        MusPart::Other
    }
}

pub fn mus_part(filename: &str) -> (r: MusPart)
    ensures
        r == spec_mus_part(filename@),
{
    if str_ends_with(filename, ".mus") {
        MusPart::Mus
    } else if str_ends_with(filename, ".str") {
        MusPart::Str
    } else {
        MusPart::Other
    }
}

/// The other file of a Sidplayer tune: the same name ending in ".str" for
/// the music and in ".mus" for the lyrics.
pub open spec fn spec_companion_file(name: Seq<char>) -> Option<Seq<char>> {
    match spec_mus_part(name) {
        MusPart::Mus => Some(name.take(name.len() - 4) + ".str"@),
        MusPart::Str => Some(name.take(name.len() - 4) + ".mus"@),
        MusPart::Other => None,
    }
}

pub fn companion_file(filename: &str) -> (r: Option<String>)
    ensures
        r is None <==> spec_companion_file(filename@) is None,
        r matches Some(c) ==> spec_companion_file(filename@) == Some(c@),
{
    let part = mus_part(filename);
    proof {
        reveal_strlit(".mus");
        reveal_strlit(".str");
    }
    match part {
        MusPart::Other => None,
        _ => {
            let n = filename.unicode_len();
            let mut name = str_prefix(filename, n - 4);
            match part {
                MusPart::Mus => name.append(".str"),
                _ => name.append(".mus"),
            }
            Some(name)
        },
    }
}

/// The data of a Sidplayer tune sent to a device, from what reading the
/// named file (`data`) and its companion gave: the music followed by the
/// lyrics. Music without lyrics is sent alone; lyrics need their music.
/// Other files are sent as read.
pub fn combine_mus_data(part: MusPart, data: Result<Vec<u8>, String>, companion: Result<Vec<u8>, String>) -> (r: Result<Vec<u8>, String>)
    ensures
        part == MusPart::Other ==> r == data,
        part == MusPart::Mus ==> match data {
            Ok(m) => match companion {
                Ok(t) => r matches Ok(v) && v@ == m@ + t@,
                Err(_) => r matches Ok(v) && v@ == m@,
            },
            Err(_) => r matches Err(e) && e@ == "Error loading mus file"@,
        },
        part == MusPart::Str ==> match data {
            Ok(t) => match companion {
                Ok(m) => r matches Ok(v) && v@ == m@ + t@,
                Err(_) => r matches Err(e) && e@ == "Error loading mus file"@,
            },
            Err(_) => r matches Err(e) && e@ == "Error loading str file"@,
        },
{
    match part {
        MusPart::Other => data,
        MusPart::Mus => match data {
            Ok(mut music) => {
                match companion {
                    Ok(mut lyrics) => {
                        music.append(&mut lyrics);
                    },
                    Err(_) => {},
                }
                Ok(music)
            },
            Err(_) => Err(String::from_str("Error loading mus file")),
        },
        MusPart::Str => match data {
            Ok(mut lyrics) => match companion {
                Ok(mut music) => {
                    music.append(&mut lyrics);
                    Ok(music)
                },
                Err(_) => Err(String::from_str("Error loading mus file")),
            },
            Err(_) => Err(String::from_str("Error loading str file")),
        },
    }
}

} // verus!
