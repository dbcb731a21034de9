//! Commands, configuration and the bytes sent to USBSID-Pico devices: each
//! SID write travels as four bytes, packed into bulk packets of at most 60
//! bytes behind a one-byte header.
use vstd::prelude::*;
use crate::player::sid_device::{DeviceInfo, SidModel, SidWrite};
use crate::utils::armsid::{configure_armsid, spec_configure_armsid, ArmSidWrite, SidFilter};
use crate::utils::fpgasid::{configure_fpgasid, spec_configure_fpgasid};
use crate::utils::mossid::{chip_base, silent_sid_sequence, spec_silent_sid};

verus! {

pub const USBSID_DEVICE_NAME: &'static str = "USBSID-Pico";

pub const ERROR_NO_USBSID_FOUND: &'static str = "No USBSID device found.";

pub const USB_BUFFER_SIZE: usize = 64;

/// SID writes that fit in one bulk packet.
pub const MAX_SID_WRITES: usize = 15;

/// Payload bytes of one bulk packet.
pub const MAX_PAYLOAD_SIZE: usize = 60;

pub const CYCLED_WRITE: u8 = 0x02;

pub const COMMAND: u8 = 0x03;

pub const CONFIG: u8 = 0x12;

pub const CMD_GET_NUM_SIDS: u8 = 0x39;

pub const CMD_GET_PCB_VERSION: u8 = 0x81;

pub const CMD_SET_STEREO: u8 = 0x89;

pub const CMD_SET_CLOCK: u8 = 0x50;

/// Boards from this PCB version on are switched to mono output.
pub const PCB_VERSION_WITH_STEREO: u8 = 13;

/// Commands the player sends to the USBSID writer.
#[derive(Copy, Clone, PartialEq, Eq, Structural, Debug)]
pub enum UsbSidCommand {
    Abort,
    ClearBuffer,
    SetDevice,
    SetClock,
    SetModel,
    MuteAll,
    Reset,
    ResetAll,
}

/// What the USBSID writer does for a command, on the board it is switched to.
#[derive(Copy, Clone, PartialEq, Eq, Structural, Debug)]
pub enum UsbSidAction {
    /// Mute the board's chips and stop.
    Stop,
    /// Forget the queued writes.
    ClearBuffer,
    /// Mute the board's chips.
    Mute,
    /// Configure the chips of the board switched to.
    Configure,
    /// Set the board's clock.
    SetClock(SidClock),
    /// Set the model of every chip of the board.
    SetModel(SidModel),
    /// Reset the chip at this base register.
    ResetChip(u8),
    /// Reset every chip of the board.
    ResetAll,
}

/// What command `command` with `argument` asks of the writer: a clock or
/// model argument 0 means PAL or 6581, anything else NTSC or 8580; a reset
/// argument is the chip's base register.
pub open spec fn spec_usbsid_action(command: UsbSidCommand, argument: i32) -> UsbSidAction {
    match command {
        UsbSidCommand::Abort => UsbSidAction::Stop,
        UsbSidCommand::ClearBuffer => UsbSidAction::ClearBuffer,
        UsbSidCommand::MuteAll => UsbSidAction::Mute,
        UsbSidCommand::SetDevice => UsbSidAction::Configure,
        UsbSidCommand::SetClock => UsbSidAction::SetClock(if argument == 0 { SidClock::Pal } else { SidClock::Ntsc }),
        UsbSidCommand::SetModel => UsbSidAction::SetModel(
            if argument == 0 { SidModel::Mos6581 } else { SidModel::Mos8580 },
        ),
        UsbSidCommand::Reset => UsbSidAction::ResetChip(argument as u8),
        UsbSidCommand::ResetAll => UsbSidAction::ResetAll,
    }
}

/// One command of the USBSID writer: what to do, and the board the writer
/// is switched to afterwards (the argument of `SetDevice`, else the board it
/// was switched to).
pub fn usbsid_command_step(command: UsbSidCommand, argument: i32, device_index: usize, device_count: usize) -> (r: (
    UsbSidAction,
    usize,
))
    requires
        device_index < device_count,
        command == UsbSidCommand::SetDevice ==> 0 <= argument < device_count,
    ensures
        r.0 == spec_usbsid_action(command, argument),
        r.1 == if command == UsbSidCommand::SetDevice { argument as usize } else { device_index },
        r.1 < device_count,
{
    match command {
        UsbSidCommand::Abort => (UsbSidAction::Stop, device_index),
        UsbSidCommand::ClearBuffer => (UsbSidAction::ClearBuffer, device_index),
        UsbSidCommand::MuteAll => (UsbSidAction::Mute, device_index),
        UsbSidCommand::SetDevice => (UsbSidAction::Configure, argument as usize),
        UsbSidCommand::SetClock => (
            UsbSidAction::SetClock(if argument == 0 { SidClock::Pal } else { SidClock::Ntsc }),
            device_index,
        ),
        UsbSidCommand::SetModel => (
            UsbSidAction::SetModel(if argument == 0 { SidModel::Mos6581 } else { SidModel::Mos8580 }),
            device_index,
        ),
        UsbSidCommand::Reset => (UsbSidAction::ResetChip(argument as u8), device_index),
        UsbSidCommand::ResetAll => (UsbSidAction::ResetAll, device_index),
    }
}

/// Audio output mode of a USBSID-Pico.
#[derive(Copy, Clone, PartialEq, Eq, Structural, Debug)]
pub enum UsbSidOutput {
    Mono,
    Stereo,
}

impl UsbSidOutput {
    /// Mono is 0, stereo 1.
    pub open spec fn spec_code(self) -> u8 {
        match self {
            UsbSidOutput::Mono => 0,
            UsbSidOutput::Stereo => 1,
        }
    }

    pub fn code(self) -> (r: u8)
        ensures
            r == self.spec_code(),
    {
        match self {
            UsbSidOutput::Mono => 0,
            UsbSidOutput::Stereo => 1,
        }
    }
}

/// Clock a USBSID-Pico is told to run at.
#[derive(Copy, Clone, PartialEq, Eq, Structural, Debug)]
pub enum SidClock {
    Pal,
    Ntsc,
}

impl SidClock {
    /// PAL is 1, NTSC 2.
    pub open spec fn spec_code(self) -> u8 {
        match self {
            SidClock::Pal => 1,
            SidClock::Ntsc => 2,
        }
    }

    pub fn code(self) -> (r: u8)
        ensures
            r == self.spec_code(),
    {
        match self {
            SidClock::Pal => 1,
            SidClock::Ntsc => 2,
        }
    }
}

/// The USBSID-Pico devices found.
pub struct UsbSidConfig {
    pub devices: Vec<DeviceInfo>,
}

impl Default for UsbSidConfig {
    fn default() -> (r: Self)
        ensures
            r.devices@.len() == 0,
    {
        UsbSidConfig { devices: Vec::new() }
    }
}

/// The four bytes of a write: register, data, then the delay in cycles,
/// high byte first.
pub open spec fn write_bytes(w: SidWrite) -> Seq<u8> {
    seq![w.reg, w.data, (w.cycles / 256) as u8, (w.cycles % 256) as u8]
}

/// The bytes of `ws`, write by write.
pub open spec fn writes_bytes(ws: Seq<SidWrite>) -> Seq<u8>
    decreases ws.len(),
{
    if ws.len() == 0 {
        seq![]
    } else {
        writes_bytes(ws.drop_last()) + write_bytes(ws.last())
    }
}

/// Appends the four bytes of `sid_write` to `buffer`.
pub fn push_sid_write(buffer: &mut Vec<u8>, sid_write: &SidWrite)
    ensures
        final(buffer)@ == old(buffer)@ + write_bytes(*sid_write),
{
    let c = sid_write.cycles;
    buffer.push(sid_write.reg);
    buffer.push(sid_write.data);
    buffer.push((c >> 8) as u8);
    buffer.push(c as u8);
    proof {
        assert((c >> 8) as u8 == (c / 256) as u8) by (bit_vector);
        assert(c as u8 == (c % 256) as u8) by (bit_vector);
        assert(buffer@ =~= old(buffer)@ + write_bytes(*sid_write));
    }
}

/// Appends the bytes of each of `sid_writes` to `buffer`, in order.
pub fn push_sid_writes(buffer: &mut Vec<u8>, sid_writes: &Vec<SidWrite>)
    ensures
        final(buffer)@ == old(buffer)@ + writes_bytes(sid_writes@),
{
    let mut i: usize = 0;
    while i < sid_writes.len()
        invariant
            i <= sid_writes.len(),
            buffer@ == old(buffer)@ + writes_bytes(sid_writes@.take(i as int)),
        decreases sid_writes.len() - i,
    {
        let ghost before = buffer@;
        push_sid_write(buffer, &sid_writes[i]);
        proof {
            let t = sid_writes@.take(i + 1);
            assert(t.drop_last() =~= sid_writes@.take(i as int));
            assert(t.last() == sid_writes@[i as int]);
            assert(buffer@ =~= old(buffer)@ + writes_bytes(t));
        }
        i = i + 1;
    }
    proof {
        assert(sid_writes@.take(sid_writes.len() as int) =~= sid_writes@);
    }
}

/// The bytes of `sid_writes`.
pub fn sid_writes_bytes(sid_writes: &Vec<SidWrite>) -> (r: Vec<u8>)
    ensures
        r@ == writes_bytes(sid_writes@),
{
    let mut buffer: Vec<u8> = Vec::new();
    push_sid_writes(&mut buffer, sid_writes);
    proof {
        assert(buffer@ =~= writes_bytes(sid_writes@));
    }
    buffer
}

/// A write as the device times it: one cycle less, never below zero.
pub open spec fn cycled(w: SidWrite) -> SidWrite {
    SidWrite { cycles: if w.cycles > 0 { (w.cycles - 1) as u16 } else { 0 }, reg: w.reg, data: w.data }
}

/// The cycles of `ws` added up.
pub open spec fn total_cycles(ws: Seq<SidWrite>) -> int
    decreases ws.len(),
{
    if ws.len() == 0 {
        0
    } else {
        total_cycles(ws.drop_last()) + ws.last().cycles
    }
}

/// The bytes of writes taken from the queue, each timed one cycle shorter,
/// with the cycles the writes take together.
pub fn encode_cycled_writes(sid_writes: &Vec<SidWrite>) -> (r: (Vec<u8>, u32))
    requires
        sid_writes.len() <= 0x10000,
    ensures
        r.0@ == writes_bytes(sid_writes@.map_values(|w: SidWrite| cycled(w))),
        r.1 == total_cycles(sid_writes@),
{
    let mut buffer: Vec<u8> = Vec::new();
    let mut total: u32 = 0;
    let mut i: usize = 0;
    while i < sid_writes.len()
        invariant
            i <= sid_writes.len() <= 0x10000,
            buffer@ == writes_bytes(sid_writes@.take(i as int).map_values(|w: SidWrite| cycled(w))),
            total == total_cycles(sid_writes@.take(i as int)),
            total <= i * 0xffff,
        decreases sid_writes.len() - i,
    {
        let w = sid_writes[i];
        let cycles: u16 = w.cycles.saturating_sub(1);
        let timed = SidWrite { cycles, reg: w.reg, data: w.data };
        push_sid_write(&mut buffer, &timed);
        total = total + w.cycles as u32;
        proof {
            let t = sid_writes@.take(i + 1);
            assert(t.drop_last() =~= sid_writes@.take(i as int));
            assert(t.last() == w);
            assert(t.map_values(|w: SidWrite| cycled(w)).drop_last() =~= sid_writes@.take(i as int).map_values(
                |w: SidWrite| cycled(w),
            ));
            assert(timed == cycled(w));
            assert(buffer@ =~= writes_bytes(t.map_values(|w: SidWrite| cycled(w))));
        }
        i = i + 1;
    }
    proof {
        assert(sid_writes@.take(sid_writes.len() as int) =~= sid_writes@);
    }
    (buffer, total)
}

/// Bulk packets a payload of `n` bytes takes.
pub open spec fn packet_count(n: int) -> int {
    (n + 59) / 60
}

/// Payload bytes in packet `i` of a payload of `n` bytes.
pub open spec fn packet_len(n: int, i: int) -> int {
    if n - 60 * i < 60 {
        n - 60 * i
    } else {
        60
    }
}

/// Packet `i` of a bulk write of `bytes`: a header with the cycled-write
/// command in its top two bits and the payload length less one below them,
/// then the payload.
pub open spec fn spec_packet(bytes: Seq<u8>, i: int) -> Seq<u8> {
    let len = packet_len(bytes.len() as int, i);
    seq![(0x80 + len - 1) as u8] + bytes.subrange(60 * i, 60 * i + len)
}

/// Splits `bytes` into the bulk packets that carry them to the device.
pub fn bulk_packets(bytes: &Vec<u8>) -> (r: Vec<Vec<u8>>)
    ensures
        r.len() == packet_count(bytes.len() as int),
        forall|i: int| 0 <= i < r.len() ==> (#[trigger] r[i])@ == spec_packet(bytes@, i),
{
    let mut packets: Vec<Vec<u8>> = Vec::new();
    let mut offset: usize = 0;
    while offset < bytes.len()
        invariant
            offset <= bytes.len(),
            offset == 60 * packets.len() || (offset == bytes.len() && 60 * packets.len() - 60 < offset < 60
                * packets.len()),
            forall|i: int| 0 <= i < packets.len() ==> (#[trigger] packets[i])@ == spec_packet(bytes@, i),
        decreases bytes.len() - offset,
    {
        let rest = bytes.len() - offset;
        let len: usize = if rest < MAX_PAYLOAD_SIZE {
            rest
        } else {
            MAX_PAYLOAD_SIZE
        };
        let len_byte = len as u8;
        let header: u8 = CYCLED_WRITE << 6 | len_byte.saturating_sub(1);
        proof {
            assert(1 <= len_byte <= 60 ==> (2u8 << 6u8) | ((len_byte - 1) as u8) == (0x80 + len_byte - 1) as u8)
                by (bit_vector);
        }
        let mut packet: Vec<u8> = Vec::new();
        packet.push(header);
        let mut j: usize = 0;
        while j < len
            invariant
                j <= len,
                len <= 60,
                offset + len <= bytes.len(),
                packet@ == seq![header] + bytes@.subrange(offset as int, offset + j),
            decreases len - j,
        {
            packet.push(bytes[offset + j]);
            proof {
                assert(bytes@.subrange(offset as int, offset + j + 1) =~= bytes@.subrange(offset as int, offset + j).push(
                    bytes@[offset + j],
                ));
            }
            j = j + 1;
        }
        proof {
            assert(packet@ =~= spec_packet(bytes@, packets.len() as int));
        }
        packets.push(packet);
        offset = offset + len;
    }
    proof {
        assert(packets.len() == packet_count(bytes.len() as int)) by (nonlinear_arith)
            requires
                offset == bytes.len(),
                offset == 60 * packets.len() || (60 * packets.len() - 60 < offset < 60 * packets.len()),
        ;
    }
    packets
}

/// A configuration command: the command type in the top two bits of the
/// first byte, then the command and its argument, padded to six bytes.
pub open spec fn spec_config_command(cmd: u8, arg: u8) -> Seq<u8> {
    seq![0xd2u8, cmd, arg, 0u8, 0u8, 0u8]
}

fn config_command(cmd: u8, arg: u8) -> (r: Vec<u8>)
    ensures
        r@ == spec_config_command(cmd, arg),
{
    let first: u8 = COMMAND << 6 | CONFIG;
    proof {
        assert((3u8 << 6u8) | 0x12u8 == 0xd2u8) by (bit_vector);
    }
    let mut r: Vec<u8> = Vec::new();
    r.push(first);
    r.push(cmd);
    r.push(arg);
    r.push(0);
    r.push(0);
    r.push(0);
    proof {
        assert(r@ =~= spec_config_command(cmd, arg));
    }
    r
}

/// The command that sets the clock of the SID chips.
pub fn clock_command(clock: SidClock) -> (r: Vec<u8>)
    ensures
        r@ == spec_config_command(CMD_SET_CLOCK, clock.spec_code()),
{
    config_command(CMD_SET_CLOCK, clock.code())
}

/// The command that asks for the board's PCB version.
pub fn pcb_version_command() -> (r: Vec<u8>)
    ensures
        r@ == spec_config_command(CMD_GET_PCB_VERSION, 1),
{
    config_command(CMD_GET_PCB_VERSION, 1)
}

/// The command that asks for the number of SID sockets.
pub fn num_sids_command() -> (r: Vec<u8>)
    ensures
        r@ == spec_config_command(CMD_GET_NUM_SIDS, 0),
{
    config_command(CMD_GET_NUM_SIDS, 0)
}

/// The command that sets the audio output mode.
pub fn stereo_command(output: UsbSidOutput) -> (r: Vec<u8>)
    ensures
        r@ == spec_config_command(CMD_SET_STEREO, output.spec_code()),
{
    config_command(CMD_SET_STEREO, output.code())
}

/// The commands that prepare a board of PCB version `pcb_version`: mono
/// output from version 13 on, then the PAL clock.
pub fn config_commands(pcb_version: u8) -> (r: Vec<Vec<u8>>)
    ensures
        pcb_version >= PCB_VERSION_WITH_STEREO ==> r.len() == 2 && r[0]@ == spec_config_command(
            CMD_SET_STEREO,
            0,
        ) && r[1]@ == spec_config_command(CMD_SET_CLOCK, 1),
        pcb_version < PCB_VERSION_WITH_STEREO ==> r.len() == 1 && r[0]@ == spec_config_command(CMD_SET_CLOCK, 1),
{
    let mut r: Vec<Vec<u8>> = Vec::new();
    if pcb_version >= PCB_VERSION_WITH_STEREO {
        r.push(stereo_command(UsbSidOutput::Mono));
    }
    r.push(clock_command(SidClock::Pal));
    r
}

/// The bytes that silence the first `n` sockets, socket by socket.
pub open spec fn spec_mute_bytes(n: int) -> Seq<u8>
    decreases n,
{
    if n <= 0 {
        seq![]
    } else {
        spec_mute_bytes(n - 1) + writes_bytes(spec_silent_sid(chip_base(n - 1), false))
    }
}

/// The bytes that silence the first `socket_count` SID sockets.
pub fn mute_bytes(socket_count: i32) -> (r: Vec<u8>)
    requires
        socket_count < 0x400_0000,
    ensures
        r@ == spec_mute_bytes(socket_count as int),
{
    let mut buffer: Vec<u8> = Vec::new();
    let mut sid_index: i32 = 0;
    while sid_index < socket_count
        invariant
            0 <= sid_index,
            socket_count < 0x400_0000,
            socket_count >= 0 ==> sid_index <= socket_count,
            socket_count < 0 ==> sid_index == 0,
            buffer@ == spec_mute_bytes(sid_index as int),
        decreases socket_count - sid_index,
    {
        let base = (sid_index * 0x20) as u8;
        proof {
            assert(0 <= sid_index < 0x400_0000 ==> (sid_index * 0x20) as u8 == ((sid_index % 8) * 0x20) as u8)
                by (bit_vector);
            assert(base == chip_base(sid_index as int));
            assert(((sid_index % 8) * 0x20) <= 0xe0);
        }
        let sid_writes = silent_sid_sequence(base, false);
        push_sid_writes(&mut buffer, &sid_writes);
        sid_index = sid_index + 1;
    }
    buffer
}

/// The filter settings a USBSID-Pico gives the ARMSIDs in its sockets.
pub open spec fn usbsid_filter() -> SidFilter {
    SidFilter {
        filter_strength_6581: 1,
        filter_lowest_freq_6581: 3,
        filter_central_freq_8580: 3,
        filter_lowest_freq_8580: 0,
    }
}

/// The four bytes of an ARMSID write to the chip at `base`.
pub open spec fn arm_bytes(w: ArmSidWrite, base: u8) -> Seq<u8> {
    seq![(w.reg + base) as u8, w.data, ((w.cycles / 256) % 256) as u8, (w.cycles % 256) as u8]
}

/// The bytes of the ARMSID writes `ws` to the chip at `base`.
pub open spec fn arm_writes_bytes(ws: Seq<ArmSidWrite>, base: u8) -> Seq<u8>
    decreases ws.len(),
{
    if ws.len() == 0 {
        seq![]
    } else {
        arm_writes_bytes(ws.drop_last(), base) + arm_bytes(ws.last(), base)
    }
}

/// `w` moved to the chip at `base`.
pub open spec fn based(w: SidWrite, base: u8) -> SidWrite {
    SidWrite { cycles: w.cycles, reg: (w.reg + base) as u8, data: w.data }
}

/// The bytes that switch the chip at `base` to `sid_model`, whether it is an
/// ARMSID or an FPGASID: the ARMSID writes, then the FPGASID writes.
pub open spec fn spec_replacement_bytes(base: u8, sid_model: SidModel) -> Seq<u8> {
    arm_writes_bytes(spec_configure_armsid(sid_model, usbsid_filter()), base) + writes_bytes(
        spec_configure_fpgasid(sid_model).map_values(|w: SidWrite| based(w, base)),
    )
}

/// The bytes that switch the first `n` sockets to `sid_model`.
pub open spec fn spec_model_bytes(n: int, sid_model: SidModel) -> Seq<u8>
    decreases n,
{
    if n <= 0 {
        seq![]
    } else {
        spec_model_bytes(n - 1, sid_model) + spec_replacement_bytes(chip_base(n - 1), sid_model)
    }
}

proof fn lemma_replacement_regs(sid_model: SidModel)
    ensures
        forall|i: int|
            0 <= i < spec_configure_armsid(sid_model, usbsid_filter()).len() ==> (#[trigger] spec_configure_armsid(
                sid_model,
                usbsid_filter(),
            )[i]).reg <= 0x1f,
        forall|i: int|
            0 <= i < spec_configure_fpgasid(sid_model).len() ==> (#[trigger] spec_configure_fpgasid(
                sid_model,
            )[i]).reg <= 0x1f,
{
}

fn push_replacement_writes(buffer: &mut Vec<u8>, base_reg: u8, sid_model: &SidModel)
    requires
        base_reg <= 0xe0,
    ensures
        final(buffer)@ == old(buffer)@ + spec_replacement_bytes(base_reg, *sid_model),
{
    let sid_filter = SidFilter {
        filter_strength_6581: 1,
        filter_lowest_freq_6581: 3,
        filter_central_freq_8580: 3,
        filter_lowest_freq_8580: 0,
    };
    let arm_writes = configure_armsid(sid_model, &sid_filter);
    let fpga_writes = configure_fpgasid(sid_model);
    proof {
        lemma_replacement_regs(*sid_model);
    }
    let ghost start = buffer@;
    let mut i: usize = 0;
    while i < arm_writes.len()
        invariant
            i <= arm_writes.len(),
            base_reg <= 0xe0,
            forall|k: int| 0 <= k < arm_writes.len() ==> (#[trigger] arm_writes@[k]).reg <= 0x1f,
            buffer@ == start + arm_writes_bytes(arm_writes@.take(i as int), base_reg),
        decreases arm_writes.len() - i,
    {
        let w = arm_writes[i];
        let c = w.cycles;
        buffer.push(w.reg + base_reg);
        buffer.push(w.data);
        buffer.push((c >> 8) as u8);
        buffer.push(c as u8);
        proof {
            assert((c >> 8) as u8 == ((c / 256) % 256) as u8) by (bit_vector);
            assert(c as u8 == (c % 256) as u8) by (bit_vector);
            let t = arm_writes@.take(i + 1);
            assert(t.drop_last() =~= arm_writes@.take(i as int));
            assert(t.last() == w);
            assert(buffer@ =~= start + arm_writes_bytes(t, base_reg));
        }
        i = i + 1;
    }
    proof {
        assert(arm_writes@.take(arm_writes.len() as int) =~= arm_writes@);
    }
    let ghost middle = buffer@;
    let mut j: usize = 0;
    while j < fpga_writes.len()
        invariant
            j <= fpga_writes.len(),
            base_reg <= 0xe0,
            forall|k: int| 0 <= k < fpga_writes.len() ==> (#[trigger] fpga_writes@[k]).reg <= 0x1f,
            buffer@ == middle + writes_bytes(fpga_writes@.take(j as int).map_values(|w: SidWrite| based(w, base_reg))),
        decreases fpga_writes.len() - j,
    {
        let w = fpga_writes[j];
        let moved = SidWrite { cycles: w.cycles, reg: w.reg + base_reg, data: w.data };
        push_sid_write(buffer, &moved);
        proof {
            let t = fpga_writes@.take(j + 1);
            assert(t.map_values(|w: SidWrite| based(w, base_reg)).drop_last() =~= fpga_writes@.take(j as int).map_values(
                |w: SidWrite| based(w, base_reg),
            ));
            assert(moved == based(w, base_reg));
            assert(buffer@ =~= middle + writes_bytes(t.map_values(|w: SidWrite| based(w, base_reg))));
        }
        j = j + 1;
    }
    proof {
        assert(fpga_writes@.take(fpga_writes.len() as int) =~= fpga_writes@);
        assert(buffer@ =~= old(buffer)@ + spec_replacement_bytes(base_reg, *sid_model));
    }
}

/// The bytes that switch the ARMSIDs or FPGASIDs in the first
/// `socket_count` sockets to `sid_model`.
pub fn model_bytes(socket_count: i32, sid_model: &SidModel) -> (r: Vec<u8>)
    requires
        socket_count < 0x400_0000,
    ensures
        r@ == spec_model_bytes(socket_count as int, *sid_model),
{
    let mut buffer: Vec<u8> = Vec::new();
    let mut sid_index: i32 = 0;
    while sid_index < socket_count
        invariant
            0 <= sid_index,
            socket_count < 0x400_0000,
            socket_count >= 0 ==> sid_index <= socket_count,
            socket_count < 0 ==> sid_index == 0,
            buffer@ == spec_model_bytes(sid_index as int, *sid_model),
        decreases socket_count - sid_index,
    {
        let base = (sid_index * 0x20) as u8;
        proof {
            assert(0 <= sid_index < 0x400_0000 ==> (sid_index * 0x20) as u8 == ((sid_index % 8) * 0x20) as u8)
                by (bit_vector);
            assert(base == chip_base(sid_index as int));
        }
        push_replacement_writes(&mut buffer, base, sid_model);
        sid_index = sid_index + 1;
    }
    buffer
}

} // verus!
