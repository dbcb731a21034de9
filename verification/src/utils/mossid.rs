//! Register write sequences that silence and reset MOS SID chips.
use vstd::prelude::*;
use crate::player::sid_device::{SidWrite, DUMMY_REG};

verus! {

pub const MIN_CYCLE_SID_WRITE: u16 = 0x08;

pub const TIME_FOR_ADSR_TO_STABILIZE: u16 = 0x9c40;

pub const TIME_BETWEEN_TEST_BIT_FLIP: u16 = 0x32;

/// Registers, relative to a chip's base, that silencing clears: the
/// frequencies, then control and envelope of each voice.
pub open spec fn silent_regs() -> Seq<u8> {
    seq![0x01u8, 0x00, 0x08, 0x07, 0x0f, 0x0e, 0x04, 0x05, 0x06, 0x0b, 0x0c, 0x0d, 0x12, 0x13, 0x14]
}

/// Registers, relative to a chip's base, that a reset cycles through.
pub open spec fn reset_regs() -> Seq<u8> {
    seq![
        0x02u8, 0x03, 0x04, 0x05, 0x06, 0x09, 0x0a, 0x0b, 0x0c, 0x0d, 0x10, 0x11, 0x12, 0x13,
        0x14, 0x15, 0x16, 0x17, 0x19,
    ]
}

/// A write of `data` to `reg` after the shortest delay.
pub open spec fn quick_write(reg: u8, data: u8) -> SidWrite {
    SidWrite { cycles: MIN_CYCLE_SID_WRITE, reg, data }
}

/// The pause that lets the envelopes settle after a reset.
pub open spec fn stabilize_write() -> SidWrite {
    SidWrite { cycles: TIME_FOR_ADSR_TO_STABILIZE, reg: DUMMY_REG, data: 0 }
}

/// Zero writes to each of `regs` above `base`.
pub open spec fn writes_to(base: u8, regs: Seq<u8>, data: u8) -> Seq<SidWrite> {
    regs.map_values(|r: u8| quick_write((base + r) as u8, data))
}

/// The writes that silence the chip at `base`; with `write_volume` the
/// master volume is cleared last.
pub open spec fn spec_silent_sid(base: u8, write_volume: bool) -> Seq<SidWrite> {
    writes_to(base, silent_regs(), 0) + if write_volume {
        seq![quick_write((base + 0x18) as u8, 0)]
    } else {
        seq![]
    }
}

/// The test-bit cycle of a reset: each reset register gets 0xff then 0x08.
pub open spec fn test_bit_writes(base: u8) -> Seq<SidWrite> {
    Seq::new(
        2 * reset_regs().len(),
        |i: int| quick_write((base + reset_regs()[i / 2]) as u8, if i % 2 == 0 { 0xffu8 } else { 0x08u8 }),
    )
}

/// The writes that reset the chip at `base`.
pub open spec fn spec_reset_socket(base: u8) -> Seq<SidWrite> {
    spec_silent_sid(base, false) + test_bit_writes(base) + seq![
        SidWrite { cycles: TIME_BETWEEN_TEST_BIT_FLIP, reg: (base + DUMMY_REG) as u8, data: 0 },
    ] + writes_to(base, reset_regs(), 0)
}

/// Base register of chip `sid_nr`: chips lie 0x20 registers apart, counted
/// in a byte.
pub open spec fn chip_base(sid_nr: int) -> u8 {
    ((sid_nr % 8) * 0x20) as u8
}

/// The reset writes of the first `n` chips, chip by chip.
pub open spec fn spec_reset_chips(n: int) -> Seq<SidWrite>
    decreases n,
{
    if n <= 0 {
        seq![]
    } else {
        spec_reset_chips(n - 1) + spec_reset_socket(chip_base(n - 1))
    }
}

/// The writes that silence the SID chip whose registers start at
/// `base_reg`.
pub fn silent_sid_sequence(base_reg: u8, write_volume: bool) -> (r: Vec<SidWrite>)
    requires
        base_reg + (if write_volume { 0x18int } else { 0x14int }) <= 0xff,
    ensures
        r@ == spec_silent_sid(base_reg, write_volume),
{
    let target_regs: [u8; 15] = [
        0x01, 0x00, 0x08, 0x07, 0x0f, 0x0e, 0x04, 0x05, 0x06, 0x0b, 0x0c, 0x0d, 0x12, 0x13, 0x14,
    ];
    proof {
        assert(target_regs@ =~= silent_regs());
    }
    let mut writes: Vec<SidWrite> = Vec::new();
    let mut i: usize = 0;
    while i < 15
        invariant
            i <= 15,
            target_regs@ == silent_regs(),
            base_reg + 0x14 <= 0xff,
            write_volume ==> base_reg + 0x18 <= 0xff,
            writes@ =~= writes_to(base_reg, silent_regs().take(i as int), 0),
        decreases 15 - i,
    {
        push_write(&mut writes, base_reg + target_regs[i], 0);
        proof {
            assert(silent_regs().take(i + 1) =~= silent_regs().take(i as int).push(silent_regs()[i as int]));
        }
        i = i + 1;
    }
    proof {
        assert(silent_regs().take(15) =~= silent_regs());
    }
    if write_volume {
        push_write(&mut writes, base_reg + 0x18, 0);
    }
    writes
}

/// The writes that reset the first `number_of_sids` chips, with an
/// optional pause for the envelopes to settle.
pub fn reset_all_sids_sequence(number_of_sids: i32, add_time_to_stabilize: bool) -> (r: Vec<SidWrite>)
    requires
        number_of_sids <= 0x400_0000,
    ensures
        r@ == spec_reset_chips(number_of_sids as int) + if add_time_to_stabilize {
            seq![stabilize_write()]
        } else {
            seq![]
        },
{
    let mut sid_writes: Vec<SidWrite> = Vec::new();
    let mut sid_nr: i32 = 0;
    while sid_nr < number_of_sids
        invariant
            0 <= sid_nr,
            number_of_sids < 0 ==> sid_nr == 0,
            number_of_sids >= 0 ==> sid_nr <= number_of_sids,
            number_of_sids <= 0x400_0000,
            sid_writes@ == spec_reset_chips(sid_nr as int),
        decreases number_of_sids - sid_nr,
    {
        let base: u8 = ((sid_nr % 8) * 0x20) as u8;
        let mut socket = reset_sid_socket(base);
        sid_writes.append(&mut socket);
        sid_nr = sid_nr + 1;
    }
    let ghost chips = sid_writes@;
    proof {
        assert(chips == spec_reset_chips(number_of_sids as int));
    }
    if add_time_to_stabilize {
        sid_writes.push(SidWrite { cycles: TIME_FOR_ADSR_TO_STABILIZE, reg: DUMMY_REG, data: 0x00 });
    }
    proof {
        assert(sid_writes@ =~= spec_reset_chips(number_of_sids as int) + if add_time_to_stabilize {
            seq![stabilize_write()]
        } else {
            seq![]
        });
    }
    sid_writes
}

/// The writes that reset the chip at `base_reg`, with an optional pause for
/// the envelopes to settle.
pub fn reset_sid_sequence(base_reg: u8, add_time_to_stabilize: bool) -> (r: Vec<SidWrite>)
    requires
        base_reg + DUMMY_REG <= 0xff,
    ensures
        r@ == spec_reset_socket(base_reg) + if add_time_to_stabilize {
            seq![stabilize_write()]
        } else {
            seq![]
        },
{
    let mut sid_writes = reset_sid_socket(base_reg);
    if add_time_to_stabilize {
        sid_writes.push(SidWrite { cycles: TIME_FOR_ADSR_TO_STABILIZE, reg: DUMMY_REG, data: 0x00 });
    }
    proof {
        assert(sid_writes@ =~= spec_reset_socket(base_reg) + if add_time_to_stabilize {
            seq![stabilize_write()]
        } else {
            seq![]
        });
    }
    sid_writes
}

fn reset_sid_socket(base_reg: u8) -> (r: Vec<SidWrite>)
    requires
        base_reg + DUMMY_REG <= 0xff,
    ensures
        r@ == spec_reset_socket(base_reg),
{
    let reset_regs_arr: [u8; 19] = [
        0x02, 0x03, 0x04, 0x05, 0x06, 0x09, 0x0a, 0x0b, 0x0c, 0x0d, 0x10, 0x11, 0x12, 0x13, 0x14,
        0x15, 0x16, 0x17, 0x19,
    ];
    proof {
        assert(reset_regs_arr@ =~= reset_regs());
    }
    let mut writes = silent_sid_sequence(base_reg, false);
    let ghost silent = writes@;
    let mut i: usize = 0;
    while i < 19
        invariant
            i <= 19,
            reset_regs_arr@ == reset_regs(),
            base_reg + DUMMY_REG <= 0xff,
            silent == spec_silent_sid(base_reg, false),
            writes@ =~= silent + test_bit_writes(base_reg).take(2 * i),
        decreases 19 - i,
    {
        let reg = base_reg + reset_regs_arr[i];
        push_write(&mut writes, reg, 0xff);
        push_write(&mut writes, reg, 0x08);
        proof {
            assert(test_bit_writes(base_reg).take(2 * i + 2) =~= test_bit_writes(base_reg).take(
                2 * i,
            ).push(quick_write(reg, 0xff)).push(quick_write(reg, 0x08)));
        }
        i = i + 1;
    }
    proof {
        assert(test_bit_writes(base_reg).take(38) =~= test_bit_writes(base_reg));
    }
    writes.push(SidWrite { cycles: TIME_BETWEEN_TEST_BIT_FLIP, reg: base_reg + DUMMY_REG, data: 0x00 });
    let ghost before_zero = writes@;
    let mut j: usize = 0;
    while j < 19
        invariant
            j <= 19,
            reset_regs_arr@ == reset_regs(),
            base_reg + DUMMY_REG <= 0xff,
            writes@ =~= before_zero + writes_to(base_reg, reset_regs().take(j as int), 0),
        decreases 19 - j,
    {
        push_write(&mut writes, base_reg + reset_regs_arr[j], 0x00);
        proof {
            assert(reset_regs().take(j + 1) =~= reset_regs().take(j as int).push(reset_regs()[j as int]));
        }
        j = j + 1;
    }
    proof {
        assert(reset_regs().take(19) =~= reset_regs());
        assert(writes@ =~= spec_reset_socket(base_reg));
    }
    writes
}

fn push_write(writes: &mut Vec<SidWrite>, reg: u8, data: u8)
    ensures
        final(writes)@ == old(writes)@.push(quick_write(reg, data)),
{
    writes.push(SidWrite { cycles: MIN_CYCLE_SID_WRITE, reg, data });
}

} // verus!
