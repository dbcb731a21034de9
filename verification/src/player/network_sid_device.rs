//! The protocol of a network SID device (a SID emulator listening on TCP):
//! the frames the player sends, how answers are read, and what the player
//! decides from them.
use vstd::prelude::*;
use crate::player::sid_device::{DeviceResponse, SamplingMethod, SidClock, DUMMY_REG};
use crate::utils::text::{replace_all, str_replace};

verus! {

pub const WRITE_BUFFER_SIZE: usize = 1024;

pub const BUFFER_HEADER_SIZE: usize = 4;

/// A frame holding this many bytes is sent.
pub const MAX_SID_WRITES: usize = 1020;

/// Half a PAL frame of cycles: a frame holding this many is sent.
pub const WRITE_CYCLES_THRESHOLD: u32 = 9828;

/// After sending this many cycles the player gives the device time.
pub const CLIENT_WAIT_CYCLES_THRESHOLD: u32 = 20000;

/// A delay longer than a second of PAL cycles is sent as a delay command.
pub const MIN_CYCLES_FOR_DELAY: u32 = 982800;

pub const MIN_WAIT_TIME_BUSY_MILLIS: u64 = 3;

pub const DEFAULT_DEVICE_COUNT_INTERFACE_V1: i32 = 2;

pub const MIN_CYCLE_SID_WRITE: u32 = 8;

/// Commands of the protocol, in the order of their numbers.
#[derive(Copy, Clone, PartialEq, Eq, Structural, Debug)]
pub enum Command {
    Flush,
    TrySetSidCount,
    Mute,
    TryReset,
    TryDelay,
    TryWrite,
    TryRead,
    GetVersion,
    TrySetSampling,
    TrySetClock,
    GetConfigCount,
    GetConfigInfo,
    SetSidPosition,
    SetSidLevel,
    TrySetSidModel,
    SetDelay,
    SetFadeIn,
    SetFadeOut,
    SetSidHeader,
}

impl Command {
    pub open spec fn spec_code(self) -> u8 {
        match self {
            Command::Flush => 0,
            Command::TrySetSidCount => 1,
            Command::Mute => 2,
            Command::TryReset => 3,
            Command::TryDelay => 4,
            Command::TryWrite => 5,
            Command::TryRead => 6,
            Command::GetVersion => 7,
            Command::TrySetSampling => 8,
            Command::TrySetClock => 9,
            Command::GetConfigCount => 10,
            Command::GetConfigInfo => 11,
            Command::SetSidPosition => 12,
            Command::SetSidLevel => 13,
            Command::TrySetSidModel => 14,
            Command::SetDelay => 15,
            Command::SetFadeIn => 16,
            Command::SetFadeOut => 17,
            Command::SetSidHeader => 18,
        }
    }

    pub fn code(self) -> (r: u8)
        ensures
            r == self.spec_code(),
    {
        match self {
            Command::Flush => 0,
            Command::TrySetSidCount => 1,
            Command::Mute => 2,
            Command::TryReset => 3,
            Command::TryDelay => 4,
            Command::TryWrite => 5,
            Command::TryRead => 6,
            Command::GetVersion => 7,
            Command::TrySetSampling => 8,
            Command::TrySetClock => 9,
            Command::GetConfigCount => 10,
            Command::GetConfigInfo => 11,
            Command::SetSidPosition => 12,
            Command::SetSidLevel => 13,
            Command::TrySetSidModel => 14,
            Command::SetDelay => 15,
            Command::SetFadeIn => 16,
            Command::SetFadeOut => 17,
            Command::SetSidHeader => 18,
        }
    }
}

/// What an answer of the device says.
#[derive(Copy, Clone, PartialEq, Eq, Structural, Debug)]
pub enum CommandResponse {
    Success,
    Busy,
    Error,
    Read,
    Version,
    Count,
    Info,
}

/// The frame being built: a header of command, argument and payload
/// length, then the payload.
pub struct NetworkSidBuffer {
    pub write_buffer: Vec<u8>,
    pub buffer_index: usize,
    pub buffer_cycles: u32,
}

/// The device number a version 1 server takes: chip model, clock and
/// sampling method in its bits.
pub open spec fn spec_v1_device_number(sid_model: i32, clock: SidClock, sampling: SamplingMethod) -> i32 {
    (sid_model & 1) | ((clock.spec_code() as i32) << 1u32) | ((sampling.spec_code() as i32) << 2u32)
}

/// The device number sent for `dev_nr`.
pub open spec fn spec_convert_device_number(interface_version: i32, dev_nr: i32, sid_model: i32, clock: SidClock, sampling: SamplingMethod) -> i32 {
    if interface_version == 1 {
        spec_v1_device_number(sid_model, clock, sampling)
    } else {
        dev_nr
    }
}

pub fn convert_device_number(interface_version: i32, dev_nr: i32, sid_model: i32, clock: SidClock, sampling: SamplingMethod) -> (r: i32)
    ensures
        r == spec_convert_device_number(interface_version, dev_nr, sid_model, clock, sampling),
{
    if interface_version == 1 {
        (sid_model & 1) | ((clock.code() as i32) << 1u32) | ((sampling.code() as i32) << 2u32)
    } else {
        dev_nr
    }
}

/// The register a write goes to and the number of its SID chip: a server
/// of version 1 plays one chip, so writes to other chips of a tune with
/// several go to the dummy register.
pub open spec fn spec_target(reg: u8, multiple_chips: bool, number_of_sids: i32) -> (u8, u8) {
    let sid_reg = if !multiple_chips && reg >= 0x20 && number_of_sids > 1 { DUMMY_REG } else { reg };
    let chip: u8 = if sid_reg < 0x20 || number_of_sids < 2 {
        0
    } else if sid_reg < 0x40 || number_of_sids < 3 {
        1
    } else {
        2
    };
    (sid_reg, chip)
}

/// The four bytes of a write: cycles (high, low), chip and register, data.
pub open spec fn write_bytes(reg: u8, data: u8, cycles: u32, multiple_chips: bool, number_of_sids: i32) -> Seq<u8> {
    let (sid_reg, chip) = spec_target(reg, multiple_chips, number_of_sids);
    seq![((cycles / 256) % 256) as u8, (cycles % 256) as u8, (chip * 32 + sid_reg % 32) as u8, data]
}

impl NetworkSidBuffer {
    pub open spec fn wf(&self) -> bool {
        &&& self.write_buffer.len() == WRITE_BUFFER_SIZE
        &&& BUFFER_HEADER_SIZE <= self.buffer_index <= WRITE_BUFFER_SIZE
        &&& self.buffer_cycles <= self.buffer_index * 0x4000
    }

    /// The bytes of the frame built so far.
    pub open spec fn frame(&self) -> Seq<u8> {
        self.write_buffer@.take(self.buffer_index as int)
    }

    /// The payload built so far.
    pub open spec fn payload(&self) -> Seq<u8> {
        self.write_buffer@.subrange(BUFFER_HEADER_SIZE as int, self.buffer_index as int)
    }

    pub fn new() -> (r: NetworkSidBuffer)
        ensures
            r.wf(),
            r.payload().len() == 0,
            r.buffer_cycles == 0,
    {
        let mut write_buffer: Vec<u8> = Vec::new();
        let mut i: usize = 0;
        while i < WRITE_BUFFER_SIZE
            invariant
                i <= WRITE_BUFFER_SIZE,
                write_buffer.len() == i,
            decreases WRITE_BUFFER_SIZE - i,
        {
            write_buffer.push(0);
            i = i + 1;
        }
        NetworkSidBuffer { write_buffer, buffer_index: BUFFER_HEADER_SIZE, buffer_cycles: 0 }
    }

    /// An empty payload.
    pub fn reset_buffer(&mut self)
        requires
            old(self).write_buffer.len() == WRITE_BUFFER_SIZE,
        ensures
            final(self).wf(),
            final(self).payload().len() == 0,
            final(self).buffer_cycles == 0,
            final(self).write_buffer@ == old(self).write_buffer@,
    {
        self.buffer_index = BUFFER_HEADER_SIZE;
        self.buffer_cycles = 0;
    }

    /// There is room for one more write.
    pub open spec fn has_room(&self) -> bool {
        self.buffer_index + 4 <= WRITE_BUFFER_SIZE
    }

    /// Adds a write of `data` to `reg` after `cycles` (of which the low 16
    /// bits are sent) to the payload.
    pub fn add_to_buffer(&mut self, reg: u8, data: u8, cycles: u32, multiple_chips: bool, number_of_sids: i32)
        requires
            old(self).wf(),
            old(self).has_room(),
        ensures
            final(self).wf(),
            final(self).payload() == old(self).payload() + write_bytes(reg, data, cycles, multiple_chips, number_of_sids),
            final(self).buffer_cycles == old(self).buffer_cycles + cycles % 0x10000,
            final(self).write_buffer@.take(BUFFER_HEADER_SIZE as int) == old(self).write_buffer@.take(BUFFER_HEADER_SIZE as int),
    {
        let sid_reg = if !multiple_chips && reg >= 0x20 && number_of_sids > 1 {
            DUMMY_REG
        } else {
            reg
        };
        let sid_chip_number: u8 = if sid_reg < 0x20 || number_of_sids < 2 {
            0
        } else if sid_reg < 0x40 || number_of_sids < 3 {
            1
        } else {
            2
        };
        let i = self.buffer_index;
        let hi = (cycles >> 8) as u8;
        let lo = (cycles & 0xff) as u8;
        proof {
            assert(sid_chip_number <= 2 ==> (sid_chip_number << 5) <= 64 && (sid_reg & 0x1f) <= 31) by (bit_vector);
        }
        let target = (sid_chip_number << 5) + (sid_reg & 0x1f);
        proof {
            assert((cycles >> 8) as u8 == ((cycles / 256) % 256) as u8) by (bit_vector);
            assert((cycles & 0xff) as u8 == (cycles % 256) as u8) by (bit_vector);
            assert(sid_chip_number <= 2 ==> (sid_chip_number << 5) + (sid_reg & 0x1f) == sid_chip_number * 32 + sid_reg % 32) by (bit_vector);
            assert((cycles & 0xffff) == cycles % 0x10000) by (bit_vector);
        }
        let ghost old_payload = self.payload();
        self.write_buffer.set(i, hi);
        self.write_buffer.set(i + 1, lo);
        self.write_buffer.set(i + 2, target);
        self.write_buffer.set(i + 3, data);
        self.buffer_index = i + 4;
        self.buffer_cycles = self.buffer_cycles + (cycles & 0xffff);
        proof {
            assert(self.payload() =~= old_payload + write_bytes(reg, data, cycles, multiple_chips, number_of_sids));
            assert(self.write_buffer@.take(BUFFER_HEADER_SIZE as int) =~= old(self).write_buffer@.take(BUFFER_HEADER_SIZE as int));
        }
    }

    /// Starts a frame for `command` with `argument`. A write command keeps
    /// the writes already added; any other command starts an empty payload
    /// and carries `optional_arguments` as its payload.
    pub fn set_command(&mut self, command: Command, argument: u8, optional_arguments: &[u8])
        requires
            old(self).wf(),
            optional_arguments.len() <= WRITE_BUFFER_SIZE - BUFFER_HEADER_SIZE,
        ensures
            final(self).wf(),
            final(self).write_buffer@.take(BUFFER_HEADER_SIZE as int) == seq![command.spec_code(), argument, 0u8, 0u8],
            command == Command::TryWrite ==> final(self).payload() == old(self).payload() && final(self).buffer_cycles
                == old(self).buffer_cycles,
            command != Command::TryWrite ==> final(self).payload() == optional_arguments@ && final(self).buffer_cycles == 0,
    {
        let ghost old_payload = self.payload();
        self.write_buffer.set(0, command.code());
        self.write_buffer.set(1, argument);
        self.write_buffer.set(2, 0);
        self.write_buffer.set(3, 0);
        proof {
            assert(self.payload() =~= old_payload);
            assert(self.write_buffer@.take(BUFFER_HEADER_SIZE as int) =~= seq![command.spec_code(), argument, 0u8, 0u8]);
        }
        if command == Command::TryWrite {
            return;
        }
        self.reset_buffer();
        let mut k: usize = 0;
        while k < optional_arguments.len()
            invariant
                self.write_buffer.len() == WRITE_BUFFER_SIZE,
                k <= optional_arguments.len(),
                optional_arguments.len() <= WRITE_BUFFER_SIZE - BUFFER_HEADER_SIZE,
                self.buffer_index == BUFFER_HEADER_SIZE + k,
                self.buffer_cycles == 0,
                self.payload() == optional_arguments@.take(k as int),
                self.write_buffer@.take(BUFFER_HEADER_SIZE as int) == seq![command.spec_code(), argument, 0u8, 0u8],
            decreases optional_arguments.len() - k,
        {
            let i = self.buffer_index;
            self.write_buffer.set(i, optional_arguments[k]);
            self.buffer_index = i + 1;
            proof {
                assert(self.payload() =~= optional_arguments@.take(k + 1));
                assert(self.write_buffer@.take(BUFFER_HEADER_SIZE as int) =~= seq![command.spec_code(), argument, 0u8, 0u8]);
            }
            k = k + 1;
        }
        proof {
            assert(optional_arguments@.take(optional_arguments.len() as int) =~= optional_arguments@);
        }
    }

    /// Writes the payload length into the header.
    pub fn set_data_length(&mut self)
        requires
            old(self).wf(),
        ensures
            final(self).wf(),
            final(self).payload() == old(self).payload(),
            final(self).buffer_cycles == old(self).buffer_cycles,
            final(self).frame() == old(self).frame().update(
                2,
                ((old(self).payload().len() / 256) % 256) as u8,
            ).update(3, (old(self).payload().len() % 256) as u8),
    {
        let data_length = self.buffer_index - BUFFER_HEADER_SIZE;
        let hi = ((data_length >> 8) & 0xff) as u8;
        let lo = (data_length & 0xff) as u8;
        proof {
            assert(((data_length >> 8) & 0xff) as u8 == ((data_length / 256) % 256) as u8) by (bit_vector);
            assert((data_length & 0xff) as u8 == (data_length % 256) as u8) by (bit_vector);
        }
        let ghost old_payload = self.payload();
        let ghost old_frame = self.frame();
        self.write_buffer.set(2, hi);
        self.write_buffer.set(3, lo);
        proof {
            assert(self.payload() =~= old_payload);
            assert(self.frame() =~= old_frame.update(2, hi).update(3, lo));
        }
    }

    /// The frame to send.
    pub fn frame_bytes(&self) -> (r: Vec<u8>)
        requires
            self.wf(),
        ensures
            r@ == self.frame(),
    {
        let mut r: Vec<u8> = Vec::new();
        let mut i: usize = 0;
        while i < self.buffer_index
            invariant
                self.wf(),
                i <= self.buffer_index,
                r@ == self.write_buffer@.take(i as int),
            decreases self.buffer_index - i,
        {
            r.push(self.write_buffer[i]);
            proof {
                assert(self.write_buffer@.take(i + 1) =~= self.write_buffer@.take(i as int).push(self.write_buffer@[i as int]));
            }
            i = i + 1;
        }
        r
    }
}

/// What an answer of `answer.len()` bytes says, and the data it carries:
/// busy; done; one byte of a read, version or count; the text of an info
/// answer (without its first byte after the code and its last byte). `None`
/// for an answer the protocol does not know.
pub open spec fn spec_decode_response(answer: Seq<u8>) -> Option<(CommandResponse, Seq<u8>)> {
    let code = answer[0];
    if code == 1 {
        Some((CommandResponse::Busy, seq![0u8]))
    } else if code == 0 {
        Some((CommandResponse::Success, seq![0u8]))
    } else if (code == 3 || code == 4 || code == 5) && answer.len() == 2 {
        Some((CommandResponse::Success, seq![answer[1]]))
    } else if code == 6 && answer.len() >= 3 {
        Some((CommandResponse::Success, answer.subrange(2, answer.len() - 1)))
    } else {
        None
    }
}

/// Reads an answer of the device. Every answer but busy empties the
/// payload of the frame.
pub fn handle_response(buffer: &mut NetworkSidBuffer, answer: &[u8]) -> (r: Option<(CommandResponse, Vec<u8>)>)
    requires
        old(buffer).wf(),
        answer.len() > 0,
    ensures
        final(buffer).wf(),
        match r {
            Some((response, data)) => spec_decode_response(answer@) == Some((response, data@)),
            None => spec_decode_response(answer@) is None,
        },
        spec_decode_response(answer@) matches Some((CommandResponse::Busy, _)) ==> final(buffer).payload() == old(
            buffer,
        ).payload() && final(buffer).buffer_cycles == old(buffer).buffer_cycles,
        !(spec_decode_response(answer@) matches Some((CommandResponse::Busy, _))) ==> final(buffer).payload().len()
            == 0 && final(buffer).buffer_cycles == 0,
{
    let code = answer[0];
    if code == 1 {
        let mut zero: Vec<u8> = Vec::new();
        zero.push(0);
        return Some((CommandResponse::Busy, zero));
    }
    buffer.reset_buffer();
    if code == 0 {
        let mut zero: Vec<u8> = Vec::new();
        zero.push(0);
        return Some((CommandResponse::Success, zero));
    }
    if (code == 3 || code == 4 || code == 5) && answer.len() == 2 {
        let mut value: Vec<u8> = Vec::new();
        value.push(answer[1]);
        proof {
            assert(value@ =~= seq![answer@[1]]);
        }
        return Some((CommandResponse::Success, value));
    }
    if code == 6 && answer.len() >= 3 {
        let mut text: Vec<u8> = Vec::new();
        let mut i: usize = 2;
        while i < answer.len() - 1
            invariant
                2 <= i <= answer.len() - 1,
                answer.len() >= 3,
                text@ == answer@.subrange(2, i as int),
            decreases answer.len() - 1 - i,
        {
            text.push(answer[i]);
            proof {
                assert(answer@.subrange(2, i + 1) =~= answer@.subrange(2, i as int).push(answer@[i as int]));
            }
            i = i + 1;
        }
        return Some((CommandResponse::Success, text));
    }
    None
}

/// What the player does after one attempt to send a frame and read the
/// answer.
#[derive(Copy, Clone, PartialEq, Eq, Structural, Debug)]
pub enum FlushStep {
    /// The device is busy: wait (`sleep_millis`, 0 for a yield, `None` for
    /// neither) and send again.
    Retry { sleep_millis: Option<u64> },
    /// Aborted while the device was busy: give up.
    GiveUp,
    /// Answered: wait `sleep_millis` if some, and return the answer.
    Done { sleep_millis: Option<u64> },
}

/// The decision after one attempt of `try_flush_buffer`: a busy device is
/// retried (waiting `idle_time` ms between write commands, yielding between
/// others, not waiting in turbo mode) unless the player was aborted; after
/// an answer to a write that sent more than 20000 cycles the player waits a
/// millisecond (not in turbo mode).
pub fn flush_step(command: Command, response: CommandResponse, aborted: bool, turbo_mode: bool, cycles_sent: u32, idle_time: u64) -> (r: FlushStep)
    ensures
        r == if response == CommandResponse::Busy {
            if aborted {
                FlushStep::GiveUp
            } else if turbo_mode {
                FlushStep::Retry { sleep_millis: None }
            } else if command == Command::TryWrite {
                FlushStep::Retry { sleep_millis: Some(idle_time) }
            } else {
                FlushStep::Retry { sleep_millis: Some(0) }
            }
        } else if !turbo_mode && command == Command::TryWrite && cycles_sent > CLIENT_WAIT_CYCLES_THRESHOLD {
            FlushStep::Done { sleep_millis: Some(1) }
        } else {
            FlushStep::Done { sleep_millis: None }
        },
{
    if response == CommandResponse::Busy {
        if aborted {
            FlushStep::GiveUp
        } else if turbo_mode {
            FlushStep::Retry { sleep_millis: None }
        } else if command == Command::TryWrite {
            FlushStep::Retry { sleep_millis: Some(idle_time) }
        } else {
            FlushStep::Retry { sleep_millis: Some(0) }
        }
    } else if !turbo_mode && command == Command::TryWrite && cycles_sent > CLIENT_WAIT_CYCLES_THRESHOLD {
        FlushStep::Done { sleep_millis: Some(1) }
    } else {
        FlushStep::Done { sleep_millis: None }
    }
}

/// The answer `try_write_buffer` gives the player for the device's answer,
/// and how long it waits first.
pub fn write_response(response: CommandResponse, cycles_sent: u32) -> (r: (DeviceResponse, Option<u64>))
    ensures
        r == match response {
            CommandResponse::Success => (
                DeviceResponse::Accepted,
                if cycles_sent > CLIENT_WAIT_CYCLES_THRESHOLD { Some(MIN_WAIT_TIME_BUSY_MILLIS) } else { None },
            ),
            CommandResponse::Busy => (DeviceResponse::Busy, Some(MIN_WAIT_TIME_BUSY_MILLIS)),
            CommandResponse::Error => (DeviceResponse::Error, None),
            _ => (DeviceResponse::Accepted, None),
        },
{
    match response {
        CommandResponse::Success => (
            DeviceResponse::Accepted,
            if cycles_sent > CLIENT_WAIT_CYCLES_THRESHOLD {
                Some(MIN_WAIT_TIME_BUSY_MILLIS)
            } else {
                None
            },
        ),
        CommandResponse::Busy => (DeviceResponse::Busy, Some(MIN_WAIT_TIME_BUSY_MILLIS)),
        CommandResponse::Error => (DeviceResponse::Error, None),
        _ => (DeviceResponse::Accepted, None),
    }
}

/// How a long wait is sent: delay commands of 0xffff cycles, then one of
/// the rest when that is over a second, and the cycles that stay for the
/// next write (at least `minimum_cycles_to_remain`).
pub open spec fn spec_plan_delay(cycles: int, minimum_cycles_to_remain: int) -> (Seq<u16>, int) {
    let c = cycles - minimum_cycles_to_remain;
    let full = if c > 0xffff { (c - 1) / 0xffff } else { 0 };
    let rest = c - full * 0xffff;
    let pieces = Seq::new(full as nat, |i: int| 0xffffu16);
    if rest > MIN_CYCLES_FOR_DELAY {
        (pieces.push(rest as u16), minimum_cycles_to_remain)
    } else {
        (pieces, minimum_cycles_to_remain + rest)
    }
}

/// The delay commands for waiting `cycles`, and the cycles left for the
/// next write.
pub fn plan_delay(cycles: u32, minimum_cycles_to_remain: u32) -> (r: (Vec<u16>, u32))
    requires
        minimum_cycles_to_remain <= cycles,
    ensures
        (r.0@, r.1 as int) == spec_plan_delay(cycles as int, minimum_cycles_to_remain as int),
{
    let mut pieces: Vec<u16> = Vec::new();
    let mut c = cycles - minimum_cycles_to_remain;
    let ghost start = c as int;
    let ghost full: int = if start > 0xffff { (start - 1) / 0xffff } else { 0 };
    proof {
        if start > 0xffff {
            assert(start - full * 0xffff <= 0xffff && start - full * 0xffff > 0) by (nonlinear_arith)
                requires
                    full == (start - 1) / 0xffff,
                    start > 0xffff,
            ;
        }
    }
    let ghost mut done: int = 0;
    while c > 0xffff
        invariant
            0 <= done <= full,
            c as int == start - done * 0xffff,
            start > 0xffff ==> start - full * 0xffff <= 0xffff && start - full * 0xffff > 0,
            start <= 0xffff ==> full == 0,
            pieces@ == Seq::new(done as nat, |i: int| 0xffffu16),
        decreases c,
    {
        pieces.push(0xffff);
        c = c - 0xffff;
        proof {
            assert(done < full) by (nonlinear_arith)
                requires
                    start - done * 0xffff > 0xffff,
                    start - full * 0xffff <= 0xffff,
            ;
            assert(pieces@ =~= Seq::new((done + 1) as nat, |i: int| 0xffffu16));
            done = done + 1;
        }
    }
    proof {
        if start > 0xffff {
            assert(done == full) by (nonlinear_arith)
                requires
                    start - done * 0xffff <= 0xffff,
                    start - full * 0xffff > 0,
                    done <= full,
            ;
        }
    }
    if c > MIN_CYCLES_FOR_DELAY {
        pieces.push(c as u16);
        (pieces, minimum_cycles_to_remain)
    } else {
        (pieces, minimum_cycles_to_remain + c)
    }
}

/// The pan of each chip: `sid_position` (kept within -100 to 100) for the
/// first chip of a tune with several, its opposite for the next, and so on;
/// 0 for a single chip.
pub open spec fn spec_panning(sid_position: i8, number_of_sids: i32, k: int) -> i8 {
    let p: i8 = if number_of_sids > 1 { sid_position } else { 0 };
    let p: i8 = if p > 100 { 100i8 } else if p < -100 { -100i8 } else { p };
    if k % 2 == 0 {
        p
    } else {
        (-p) as i8
    }
}

/// The pan sent for each chip.
pub fn sid_panning(sid_position: i8, number_of_sids: i32) -> (r: Vec<i8>)
    ensures
        r@.len() == if number_of_sids > 0 { number_of_sids as int } else { 0 },
        forall|k: int| 0 <= k < r@.len() ==> r@[k] == spec_panning(sid_position, number_of_sids, k),
{
    let mut panning: i8 = if number_of_sids > 1 {
        sid_position
    } else {
        0
    };
    if panning > 100 {
        panning = 100;
    }
    if panning < -100 {
        panning = -100;
    }
    let mut r: Vec<i8> = Vec::new();
    let mut sid_number: i32 = 0;
    while sid_number < number_of_sids
        invariant
            0 <= sid_number,
            number_of_sids > 0 ==> sid_number <= number_of_sids,
            number_of_sids <= 0 ==> sid_number == 0,
            r@.len() == sid_number,
            -100 <= panning <= 100,
            panning == spec_panning(sid_position, number_of_sids, sid_number as int),
            forall|k: int| 0 <= k < r@.len() ==> r@[k] == spec_panning(sid_position, number_of_sids, k),
        decreases number_of_sids - sid_number,
    {
        r.push(panning);
        panning = -panning;
        sid_number = sid_number + 1;
    }
    r
}

/// A write of `data` to chip register `reg` after `cycles`.
#[derive(Copy, Clone, PartialEq, Eq, Structural, Debug)]
pub struct RegisterWrite {
    pub cycles: u32,
    pub reg: u8,
    pub data: u8,
}

pub open spec fn rw(cycles: u32, reg: u8, data: u8) -> RegisterWrite {
    RegisterWrite { cycles, reg, data }
}

/// The writes that silence a chip; with `write_volume` the volume last.
pub open spec fn spec_silent_sid(write_volume: bool) -> Seq<RegisterWrite> {
    seq![0x00u8, 0x01, 0x07, 0x08, 0x0e, 0x0f, 0x04, 0x0b, 0x12, 0x05, 0x06, 0x0c, 0x0d, 0x13, 0x14].map_values(
        |r: u8| rw(MIN_CYCLE_SID_WRITE, r, 0),
    ) + if write_volume {
        seq![rw(MIN_CYCLE_SID_WRITE, 0x18, 0)]
    } else {
        seq![]
    }
}

pub fn silent_sid(write_volume: bool) -> (r: Vec<RegisterWrite>)
    ensures
        r@ == spec_silent_sid(write_volume),
{
    let regs: [u8; 15] = [0x00, 0x01, 0x07, 0x08, 0x0e, 0x0f, 0x04, 0x0b, 0x12, 0x05, 0x06, 0x0c, 0x0d, 0x13, 0x14];
    let ghost spec_regs = seq![0x00u8, 0x01, 0x07, 0x08, 0x0e, 0x0f, 0x04, 0x0b, 0x12, 0x05, 0x06, 0x0c, 0x0d, 0x13, 0x14];
    proof {
        assert(regs@ =~= spec_regs);
    }
    let mut r: Vec<RegisterWrite> = Vec::new();
    let mut i: usize = 0;
    while i < 15
        invariant
            i <= 15,
            regs@ == spec_regs,
            r@ == spec_regs.take(i as int).map_values(|x: u8| rw(MIN_CYCLE_SID_WRITE, x, 0)),
        decreases 15 - i,
    {
        r.push(RegisterWrite { cycles: MIN_CYCLE_SID_WRITE, reg: regs[i], data: 0 });
        proof {
            assert(spec_regs.take(i + 1).map_values(|x: u8| rw(MIN_CYCLE_SID_WRITE, x, 0)) =~= spec_regs.take(
                i as int,
            ).map_values(|x: u8| rw(MIN_CYCLE_SID_WRITE, x, 0)).push(rw(MIN_CYCLE_SID_WRITE, regs@[i as int], 0)));
        }
        i = i + 1;
    }
    proof {
        assert(spec_regs.take(15) =~= spec_regs);
    }
    if write_volume {
        r.push(RegisterWrite { cycles: MIN_CYCLE_SID_WRITE, reg: 0x18, data: 0 });
    }
    r
}

/// Registers cycled by a reset, and the writes that cycle one.
pub open spec fn network_reset_regs() -> Seq<u8> {
    seq![
        0x02u8, 0x03, 0x04, 0x05, 0x06, 0x09, 0x0a, 0x0b, 0x0c, 0x0d, 0x10, 0x11, 0x12, 0x13,
        0x14, 0x15, 0x16, 0x17, 0x19,
    ]
}

pub open spec fn register_reset(reg: u8) -> Seq<RegisterWrite> {
    seq![rw(MIN_CYCLE_SID_WRITE, reg, 0xff), rw(MIN_CYCLE_SID_WRITE, reg, 0x08), rw(50, DUMMY_REG, 0), rw(MIN_CYCLE_SID_WRITE, reg, 0)]
}

pub open spec fn reset_cycles(n: int) -> Seq<RegisterWrite>
    decreases n,
{
    if n <= 0 {
        seq![]
    } else {
        reset_cycles(n - 1) + register_reset(network_reset_regs()[n - 1])
    }
}

/// The writes that reset a chip: frequencies and control registers cleared,
/// then the test bit cycled on each reset register.
pub open spec fn spec_reset_sid() -> Seq<RegisterWrite> {
    seq![0x00u8, 0x01, 0x07, 0x08, 0x0e, 0x0f, 0x04, 0x0b, 0x12].map_values(|r: u8| rw(MIN_CYCLE_SID_WRITE, r, 0))
        + reset_cycles(19)
}

pub fn reset_sid() -> (r: Vec<RegisterWrite>)
    ensures
        r@ == spec_reset_sid(),
{
    let clear: [u8; 9] = [0x00, 0x01, 0x07, 0x08, 0x0e, 0x0f, 0x04, 0x0b, 0x12];
    let ghost spec_clear = seq![0x00u8, 0x01, 0x07, 0x08, 0x0e, 0x0f, 0x04, 0x0b, 0x12];
    let regs: [u8; 19] = [
        0x02, 0x03, 0x04, 0x05, 0x06, 0x09, 0x0a, 0x0b, 0x0c, 0x0d, 0x10, 0x11, 0x12, 0x13, 0x14,
        0x15, 0x16, 0x17, 0x19,
    ];
    proof {
        assert(clear@ =~= spec_clear);
        assert(regs@ =~= network_reset_regs());
    }
    let mut r: Vec<RegisterWrite> = Vec::new();
    let mut i: usize = 0;
    while i < 9
        invariant
            i <= 9,
            clear@ == spec_clear,
            r@ == spec_clear.take(i as int).map_values(|x: u8| rw(MIN_CYCLE_SID_WRITE, x, 0)),
        decreases 9 - i,
    {
        r.push(RegisterWrite { cycles: MIN_CYCLE_SID_WRITE, reg: clear[i], data: 0 });
        proof {
            assert(spec_clear.take(i + 1).map_values(|x: u8| rw(MIN_CYCLE_SID_WRITE, x, 0)) =~= spec_clear.take(
                i as int,
            ).map_values(|x: u8| rw(MIN_CYCLE_SID_WRITE, x, 0)).push(rw(MIN_CYCLE_SID_WRITE, clear@[i as int], 0)));
        }
        i = i + 1;
    }
    proof {
        assert(spec_clear.take(9) =~= spec_clear);
    }
    let ghost cleared = r@;
    let mut k: usize = 0;
    while k < 19
        invariant
            k <= 19,
            regs@ == network_reset_regs(),
            r@ == cleared + reset_cycles(k as int),
        decreases 19 - k,
    {
        let reg = regs[k];
        r.push(RegisterWrite { cycles: MIN_CYCLE_SID_WRITE, reg, data: 0xff });
        r.push(RegisterWrite { cycles: MIN_CYCLE_SID_WRITE, reg, data: 0x08 });
        r.push(RegisterWrite { cycles: 50, reg: DUMMY_REG, data: 0 });
        r.push(RegisterWrite { cycles: MIN_CYCLE_SID_WRITE, reg, data: 0x00 });
        proof {
            assert(r@ =~= cleared + reset_cycles(k + 1));
        }
        k = k + 1;
    }
    r
}

/// The mute commands that unmute every voice: voices 0 to 2, and the
/// digi channel (3) from interface version 3 on.
pub fn unmute_arguments(interface_version: i32) -> (r: Vec<(u8, u8)>)
    ensures
        r@ == seq![(0u8, 0u8), (1u8, 0u8), (2u8, 0u8)] + if interface_version >= 3 {
            seq![(3u8, 0u8)]
        } else {
            seq![]
        },
{
    let mut r: Vec<(u8, u8)> = Vec::new();
    r.push((0, 0));
    r.push((1, 0));
    r.push((2, 0));
    if interface_version >= 3 {
        r.push((3, 0));
    }
    proof {
        assert(r@ =~= seq![(0u8, 0u8), (1u8, 0u8), (2u8, 0u8)] + if interface_version >= 3 {
            seq![(3u8, 0u8)]
        } else {
            seq![]
        });
    }
    r
}

/// The name of a device from an interface version 1 server, which offers a
/// 6581 as device 0 and an 8580 otherwise.
pub fn v1_device_name(dev_nr: i32) -> (r: String)
    ensures
        r@ == if dev_nr == 0 { "Default 6581"@ } else { "Default 8580"@ },
{
    if dev_nr == 0 {
        String::from_str("Default 6581")
    } else {
        String::from_str("Default 8580")
    }
}


/// The name of a device as an interface version 2 server describes it
/// ("JSidDevice10_..." and the like), made readable.
pub open spec fn spec_network_device_name(text: Seq<char>) -> Seq<char> {
    let t = replace_all(text, "JSidDevice10_"@, "Default"@);
    let t = replace_all(t, "("@, " - "@);
    let t = replace_all(t, ")"@, ""@);
    let t = replace_all(t, "_"@, " - "@);
    let t = replace_all(t, "6581"@, " 6581"@);
    let t = replace_all(t, "8580"@, " 8580"@);
    replace_all(t, "  "@, " "@)
}

pub fn network_device_name(text: &str) -> (r: String)
    ensures
        r@ == spec_network_device_name(text@),
{
    proof {
        reveal_strlit("JSidDevice10_");
        reveal_strlit("(");
        reveal_strlit(")");
        reveal_strlit("_");
        reveal_strlit("6581");
        reveal_strlit("8580");
        reveal_strlit("  ");
    }
    let t = str_replace(text, "JSidDevice10_", "Default");
    let t = str_replace(t.as_str(), "(", " - ");
    let t = str_replace(t.as_str(), ")", "");
    let t = str_replace(t.as_str(), "_", " - ");
    let t = str_replace(t.as_str(), "6581", " 6581");
    let t = str_replace(t.as_str(), "8580", " 8580");
    str_replace(t.as_str(), "  ", " ")
}


pub open spec fn sum_u16(s: Seq<u16>) -> int
    decreases s.len(),
{
    if s.len() == 0 {
        0
    } else {
        sum_u16(s.drop_last()) + s.last()
    }
}

proof fn lemma_sum_pieces(k: nat)
    ensures
        sum_u16(Seq::new(k, |i: int| 0xffffu16)) == k * 0xffff,
    decreases k,
{
    if k > 0 {
        lemma_sum_pieces((k - 1) as nat);
        assert(Seq::new(k, |i: int| 0xffffu16).drop_last() =~= Seq::new((k - 1) as nat, |i: int| 0xffffu16));
    }
}

/// A long wait loses no time: the delay commands and the cycles left for
/// the next write add up to the cycles asked for.
pub proof fn lemma_plan_delay_conserved(cycles: int, minimum_cycles_to_remain: int)
    requires
        0 <= minimum_cycles_to_remain <= cycles <= u32::MAX,
    ensures
        sum_u16(spec_plan_delay(cycles, minimum_cycles_to_remain).0) + spec_plan_delay(cycles, minimum_cycles_to_remain).1
            == cycles,
{
    let c = cycles - minimum_cycles_to_remain;
    let full = if c > 0xffff { (c - 1) / 0xffff } else { 0 };
    if c > 0xffff {
        assert(c - full * 0xffff <= 0xffff && c - full * 0xffff > 0) by (nonlinear_arith)
            requires
                full == (c - 1) / 0xffff,
                c > 0xffff,
        ;
    }
    let rest = c - full * 0xffff;
    let pieces = Seq::new(full as nat, |i: int| 0xffffu16);
    lemma_sum_pieces(full as nat);
    if rest > MIN_CYCLES_FOR_DELAY {
        assert(pieces.push(rest as u16).drop_last() =~= pieces);
    }
}

/// The bytes of a write give back its cycles (the low 16 bits) and its
/// data, and the register keeps its offset within its chip.
pub proof fn lemma_write_bytes_decode(reg: u8, data: u8, cycles: u32, multiple_chips: bool, number_of_sids: i32)
    ensures
        ({
            let b = write_bytes(reg, data, cycles, multiple_chips, number_of_sids);
            let (sid_reg, chip) = spec_target(reg, multiple_chips, number_of_sids);
            &&& b.len() == 4
            &&& b[0] * 256 + b[1] == cycles % 65536
            &&& b[2] % 32 == sid_reg % 32
            &&& b[2] / 32 == chip
            &&& b[3] == data
            &&& (multiple_chips || number_of_sids <= 1 || reg < 0x20) ==> sid_reg == reg
        }),
{
    let (sid_reg, chip) = spec_target(reg, multiple_chips, number_of_sids);
    assert(chip <= 2);
    assert((cycles / 256) % 256 * 256 + cycles % 256 == cycles % 65536) by (nonlinear_arith);
}

/// Stereo panning of a tune's chips: a tune with more than one chip sends
/// the SID position to the first chip, kept within -100 to 100 and the same
/// for any number of chips above one, and each next chip gets the opposite
/// of the chip before; a tune with a single chip is not panned.
pub proof fn lemma_panning(sid_position: i8, number_of_sids: i32, other_number_of_sids: i32, k: int)
    requires
        0 <= k,
    ensures
        number_of_sids <= 1 ==> spec_panning(sid_position, number_of_sids, k) == 0,
        number_of_sids > 1 && -100 <= sid_position <= 100 ==> spec_panning(sid_position, number_of_sids, 0)
            == sid_position,
        number_of_sids > 1 && sid_position > 100 ==> spec_panning(sid_position, number_of_sids, 0) == 100,
        number_of_sids > 1 && sid_position < -100 ==> spec_panning(sid_position, number_of_sids, 0) == -100,
        spec_panning(sid_position, number_of_sids, k + 1) == -spec_panning(sid_position, number_of_sids, k),
        -100 <= spec_panning(sid_position, number_of_sids, k) <= 100,
        number_of_sids > 1 && other_number_of_sids > 1 ==> spec_panning(sid_position, number_of_sids, k)
            == spec_panning(sid_position, other_number_of_sids, k),
{
}

} // verus!
