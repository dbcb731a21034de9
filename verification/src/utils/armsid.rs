//! The register writes that configure an ARMSID: chip model and filter.
use vstd::prelude::*;
use crate::player::sid_device::SidModel;

verus! {

pub const MIN_CYCLE_SID_WRITE: u32 = 8;

/// One register write to an ARMSID, `cycles` after the previous one.
#[derive(Copy, Clone, PartialEq, Eq, Structural, Debug)]
pub struct ArmSidWrite {
    pub cycles: u32,
    pub reg: u8,
    pub data: u8,
}

/// Filter settings of an ARMSID, each from 0 to 15 as the user sees them.
#[derive(Copy, Clone, PartialEq, Eq, Structural, Debug)]
pub struct SidFilter {
    pub filter_strength_6581: u8,
    pub filter_lowest_freq_6581: u8,
    pub filter_central_freq_8580: u8,
    pub filter_lowest_freq_8580: u8,
}

pub open spec fn arm_write(cycles: u32, reg: u8, data: u8) -> ArmSidWrite {
    ArmSidWrite { cycles, reg, data }
}

/// The low nibble of `value + offset`, the form the ARMSID stores a setting
/// in.
pub open spec fn nibble(value: u8, offset: u8) -> u8 {
    ((value + offset) % 16) as u8
}

/// Opens the configuration interface ("SID").
pub open spec fn enable_config_writes() -> Seq<ArmSidWrite> {
    seq![
        arm_write(8, 0x1d, 0x53),
        arm_write(8, 0x1e, 0x49),
        arm_write(8, 0x1f, 0x44),
        arm_write(1000, 0x1e, 0),
    ]
}

/// Closes the configuration interface.
pub open spec fn disable_config_writes() -> Seq<ArmSidWrite> {
    seq![arm_write(8, 0x1d, 0), arm_write(8, 0x1e, 0), arm_write(8, 0x1f, 0), arm_write(20000, 0x1e, 0)]
}

/// Stores the settings in the ARMSID's memory.
pub open spec fn save_writes() -> Seq<ArmSidWrite> {
    seq![arm_write(8, 0x1f, 0xc0), arm_write(8, 0x1e, 0x45), arm_write(1000, 0x1e, 0)]
}

/// Sets one setting: `data` into register 0x1f, then "E" to execute.
pub open spec fn setting_writes(data: u8) -> Seq<ArmSidWrite> {
    seq![arm_write(8, 0x1f, data), arm_write(8, 0x1e, 0x45), arm_write(1000, 0x1e, 0)]
}

/// Selects the emulated chip model ("SE6" or "SE8").
pub open spec fn model_writes(sid_model: SidModel) -> Seq<ArmSidWrite> {
    enable_config_writes() + seq![
        arm_write(8, 0x1d, 0x53),
        arm_write(8, 0x1e, 0x45),
        arm_write(8, 0x1f, if sid_model == SidModel::Mos6581 { 0x36u8 } else { 0x38u8 }),
    ]
}

/// Sets the two filter settings of `sid_model` and saves them.
pub open spec fn filter_writes(sid_model: SidModel, f: SidFilter) -> Seq<ArmSidWrite> {
    enable_config_writes() + if sid_model == SidModel::Mos6581 {
        setting_writes(nibble(f.filter_strength_6581, 0x09) | 0x80u8) + setting_writes(
            nibble(f.filter_lowest_freq_6581, 0x0f) | 0x90u8,
        )
    } else {
        setting_writes(nibble(f.filter_central_freq_8580, 0x0d) | 0xa0u8) + setting_writes(
            nibble(f.filter_lowest_freq_8580, 0x0d) | 0xb0u8,
        )
    } + save_writes()
}

pub open spec fn spec_configure_armsid(sid_model: SidModel, f: SidFilter) -> Seq<ArmSidWrite> {
    model_writes(sid_model) + filter_writes(sid_model, f) + disable_config_writes()
}

/// The writes that make an ARMSID emulate `sid_model` with the filter
/// settings of `sid_filter`.
pub fn configure_armsid(sid_model: &SidModel, sid_filter: &SidFilter) -> (r: Vec<ArmSidWrite>)
    requires
        sid_filter.filter_strength_6581 + 0x09 <= 0xff,
        sid_filter.filter_lowest_freq_6581 + 0x0f <= 0xff,
        sid_filter.filter_central_freq_8580 + 0x0d <= 0xff,
        sid_filter.filter_lowest_freq_8580 + 0x0d <= 0xff,
    ensures
        r@ == spec_configure_armsid(*sid_model, *sid_filter),
{
    let mut sid_writes: Vec<ArmSidWrite> = Vec::new();
    set_sid_model(sid_model, &mut sid_writes);
    config_filter(sid_model, sid_filter, &mut sid_writes);
    disable_config(&mut sid_writes);
    proof {
        assert(sid_writes@ =~= spec_configure_armsid(*sid_model, *sid_filter));
    }
    sid_writes
}

fn set_sid_model(sid_model: &SidModel, sid_writes: &mut Vec<ArmSidWrite>)
    ensures
        final(sid_writes)@ == old(sid_writes)@ + model_writes(*sid_model),
{
    enable_config(sid_writes);
    sid_writes.push(ArmSidWrite { cycles: MIN_CYCLE_SID_WRITE, reg: 0x1d, data: 0x53 });
    sid_writes.push(ArmSidWrite { cycles: MIN_CYCLE_SID_WRITE, reg: 0x1e, data: 0x45 });
    match sid_model {
        SidModel::Mos6581 => sid_writes.push(ArmSidWrite { cycles: MIN_CYCLE_SID_WRITE, reg: 0x1f, data: 0x36 }),
        SidModel::Mos8580 => sid_writes.push(ArmSidWrite { cycles: MIN_CYCLE_SID_WRITE, reg: 0x1f, data: 0x38 }),
    }
    proof {
        assert(final(sid_writes)@ =~= old(sid_writes)@ + model_writes(*sid_model));
    }
}

fn low_nibble(value: u8, offset: u8) -> (r: u8)
    requires
        value + offset <= 0xff,
    ensures
        r == nibble(value, offset),
{
    let sum: u8 = value + offset;
    let r = sum & 0x0f;
    assert(r == sum % 16) by (bit_vector)
        requires
            r == sum & 0x0f,
    ;
    r
}

fn push_setting(sid_writes: &mut Vec<ArmSidWrite>, data: u8)
    ensures
        final(sid_writes)@ == old(sid_writes)@ + setting_writes(data),
{
    sid_writes.push(ArmSidWrite { cycles: MIN_CYCLE_SID_WRITE, reg: 0x1f, data });
    sid_writes.push(ArmSidWrite { cycles: MIN_CYCLE_SID_WRITE, reg: 0x1e, data: 0x45 });
    sid_writes.push(ArmSidWrite { cycles: 1_000, reg: 0x1e, data: 0 });
    proof {
        assert(final(sid_writes)@ =~= old(sid_writes)@ + setting_writes(data));
    }
}

fn config_filter(sid_model: &SidModel, sid_filter: &SidFilter, sid_writes: &mut Vec<ArmSidWrite>)
    requires
        sid_filter.filter_strength_6581 + 0x09 <= 0xff,
        sid_filter.filter_lowest_freq_6581 + 0x0f <= 0xff,
        sid_filter.filter_central_freq_8580 + 0x0d <= 0xff,
        sid_filter.filter_lowest_freq_8580 + 0x0d <= 0xff,
    ensures
        final(sid_writes)@ == old(sid_writes)@ + filter_writes(*sid_model, *sid_filter),
{
    enable_config(sid_writes);
    let filter_strength_6581 = low_nibble(sid_filter.filter_strength_6581, 0x09);
    let filter_lowest_freq_6581 = low_nibble(sid_filter.filter_lowest_freq_6581, 0x0f);
    let filter_central_freq_8580 = low_nibble(sid_filter.filter_central_freq_8580, 0x0d);
    let filter_lowest_freq_8580 = low_nibble(sid_filter.filter_lowest_freq_8580, 0x0d);
    match sid_model {
        SidModel::Mos6581 => {
            push_setting(sid_writes, filter_strength_6581 | 0x80);
            push_setting(sid_writes, filter_lowest_freq_6581 | 0x90);
        },
        SidModel::Mos8580 => {
            push_setting(sid_writes, filter_central_freq_8580 | 0xa0);
            push_setting(sid_writes, filter_lowest_freq_8580 | 0xb0);
        },
    }
    save_to_ram(sid_writes);
    proof {
        assert(final(sid_writes)@ =~= old(sid_writes)@ + filter_writes(*sid_model, *sid_filter));
    }
}

fn enable_config(sid_writes: &mut Vec<ArmSidWrite>)
    ensures
        final(sid_writes)@ == old(sid_writes)@ + enable_config_writes(),
{
    sid_writes.push(ArmSidWrite { cycles: MIN_CYCLE_SID_WRITE, reg: 0x1d, data: 0x53 });
    sid_writes.push(ArmSidWrite { cycles: MIN_CYCLE_SID_WRITE, reg: 0x1e, data: 0x49 });
    sid_writes.push(ArmSidWrite { cycles: MIN_CYCLE_SID_WRITE, reg: 0x1f, data: 0x44 });
    sid_writes.push(ArmSidWrite { cycles: 1_000, reg: 0x1e, data: 0 });
    proof {
        assert(final(sid_writes)@ =~= old(sid_writes)@ + enable_config_writes());
    }
}

fn disable_config(sid_writes: &mut Vec<ArmSidWrite>)
    ensures
        final(sid_writes)@ == old(sid_writes)@ + disable_config_writes(),
{
    sid_writes.push(ArmSidWrite { cycles: MIN_CYCLE_SID_WRITE, reg: 0x1d, data: 0 });
    sid_writes.push(ArmSidWrite { cycles: MIN_CYCLE_SID_WRITE, reg: 0x1e, data: 0 });
    sid_writes.push(ArmSidWrite { cycles: MIN_CYCLE_SID_WRITE, reg: 0x1f, data: 0 });
    sid_writes.push(ArmSidWrite { cycles: 20_000, reg: 0x1e, data: 0 });
    proof {
        assert(final(sid_writes)@ =~= old(sid_writes)@ + disable_config_writes());
    }
}

fn save_to_ram(sid_writes: &mut Vec<ArmSidWrite>)
    ensures
        final(sid_writes)@ == old(sid_writes)@ + save_writes(),
{
    sid_writes.push(ArmSidWrite { cycles: MIN_CYCLE_SID_WRITE, reg: 0x1f, data: 0xc0 });
    sid_writes.push(ArmSidWrite { cycles: MIN_CYCLE_SID_WRITE, reg: 0x1e, data: 0x45 });
    sid_writes.push(ArmSidWrite { cycles: 1_000, reg: 0x1e, data: 0 });
    proof {
        assert(final(sid_writes)@ =~= old(sid_writes)@ + save_writes());
    }
}

} // verus!
