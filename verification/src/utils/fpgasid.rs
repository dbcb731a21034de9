//! The register writes that switch an FPGASID between its chip models.
use vstd::prelude::*;
use crate::player::sid_device::{SidModel, SidWrite};

verus! {

pub const MIN_CYCLE_SID_WRITE: u16 = 8;

/// A write of `data` to `reg` after the shortest delay.
pub open spec fn fpga_write(reg: u8, data: u8) -> SidWrite {
    SidWrite { cycles: MIN_CYCLE_SID_WRITE, reg, data }
}

/// Unlock configuration mode, select the model, lock it again.
pub open spec fn spec_configure_fpgasid(sid_model: SidModel) -> Seq<SidWrite> {
    seq![
        fpga_write(0x19, 0x80),
        fpga_write(0x1a, 0x65),
        fpga_write(0x1f, if sid_model == SidModel::Mos6581 { 0x40u8 } else { 0xffu8 }),
        fpga_write(0x19, 0),
        fpga_write(0x1a, 0),
    ]
}

/// The writes that make an FPGASID emulate `sid_model`.
pub fn configure_fpgasid(sid_model: &SidModel) -> (r: Vec<SidWrite>)
    ensures
        r@ == spec_configure_fpgasid(*sid_model),
{
    let mut sid_writes: Vec<SidWrite> = Vec::new();
    enable_config_mode(&mut sid_writes);
    set_sid_model(sid_model, &mut sid_writes);
    disable_config_mode(&mut sid_writes);
    proof {
        assert(sid_writes@ =~= spec_configure_fpgasid(*sid_model));
    }
    sid_writes
}

fn set_sid_model(sid_model: &SidModel, sid_writes: &mut Vec<SidWrite>)
    ensures
        final(sid_writes)@ == old(sid_writes)@.push(
            fpga_write(0x1f, if *sid_model == SidModel::Mos6581 { 0x40u8 } else { 0xffu8 }),
        ),
{
    match sid_model {
        SidModel::Mos6581 => sid_writes.push(SidWrite { cycles: MIN_CYCLE_SID_WRITE, reg: 0x1f, data: 0x40 }),
        SidModel::Mos8580 => sid_writes.push(SidWrite { cycles: MIN_CYCLE_SID_WRITE, reg: 0x1f, data: 0xff }),
    }
}

fn enable_config_mode(sid_writes: &mut Vec<SidWrite>)
    ensures
        final(sid_writes)@ == old(sid_writes)@.push(fpga_write(0x19, 0x80)).push(fpga_write(0x1a, 0x65)),
{
    sid_writes.push(SidWrite { cycles: MIN_CYCLE_SID_WRITE, reg: 0x19, data: 0x80 });
    sid_writes.push(SidWrite { cycles: MIN_CYCLE_SID_WRITE, reg: 0x1a, data: 0x65 });
}

fn disable_config_mode(sid_writes: &mut Vec<SidWrite>)
    ensures
        final(sid_writes)@ == old(sid_writes)@.push(fpga_write(0x19, 0)).push(fpga_write(0x1a, 0)),
{
    sid_writes.push(SidWrite { cycles: MIN_CYCLE_SID_WRITE, reg: 0x19, data: 0 });
    sid_writes.push(SidWrite { cycles: MIN_CYCLE_SID_WRITE, reg: 0x1a, data: 0 });
}

} // verus!
