//! SIDBlaster USB devices: how a write for a chip becomes the write queued
//! for the SIDBlaster writer. Each SIDBlaster holds one SID chip; a tune's
//! further SID chips go to the following SIDBlasters. Without the
//! SIDBlaster's own 1 MHz clock taken as is, frequencies are scaled to it.
use vstd::prelude::*;
use crate::player::hardsid_usb_device::{frequency_register, scaled, spec_frequency_register, spec_frequency_writes, FrequencyScaler};
use crate::player::sid_device::SidClock;
use crate::player::sidblaster_scheduler::SidWrite;

verus! {

pub const DUMMY_REG: u8 = 0x1e;

pub const ERROR_MSG_DEVICE_FAILURE: &'static str = "Failure occurred during interaction with device.";

/// The delay put between the high and the low byte of a scaled frequency.
pub const SB_MIN_CYCLE_SID_WRITE: u32 = 4;

/// Silencing drops what is queued beyond this many cycles.
pub const ALLOWED_CYCLES_TO_BE_IN_BUFFER: u32 = 20_000;

/// A register of a SID chip beyond the SIDBlasters goes to the dummy
/// register when the tune has several SID chips.
pub open spec fn sb_filter_reg(number_of_sids: i32, sid_count: i32, reg: u8) -> u8 {
    if number_of_sids > 1 && !(reg / 32 < (sid_count as u8)) {
        DUMMY_REG
    } else {
        reg
    }
}

/// The SIDBlaster a register of chip `dev_nr` goes to: as many further on
/// as the register's chip, counted round.
pub open spec fn sb_target(dev_nr: i32, sid_count: i32, reg: u8) -> int {
    (dev_nr + reg / 32) % (sid_count as int)
}

/// A write queued for SIDBlaster `dev`: the register within the chip, with
/// the SIDBlaster's number in the top three bits.
pub open spec fn queued(dev: int, cycles: int, reg: u8, data: u8, clock: u8) -> SidWrite {
    SidWrite { cycles: cycles as u32, reg: ((reg % 32) + (dev % 8) * 32) as u8, data, clock, stop_draining: false }
}

/// How writes for the SIDBlasters are routed and timed.
pub struct SidBlasterRouter {
    pub scaler: FrequencyScaler,
    /// Cycles the last write was played late by, taken off the next one.
    pub cycles_to_compensate: u32,
    pub use_native_device_clock: bool,
    pub number_of_sids: i32,
    pub sid_count: i32,
    pub sid_clock: SidClock,
}

impl SidBlasterRouter {
    /// The clock the queued writes are timed by: the SIDBlaster's own 1 MHz,
    /// or the tune's clock.
    pub open spec fn spec_device_clock(&self) -> SidClock {
        if self.use_native_device_clock {
            SidClock::OneMhz
        } else {
            self.sid_clock
        }
    }

    pub fn get_device_clock(&self) -> (r: SidClock)
        ensures
            r == self.spec_device_clock(),
    {
        if self.use_native_device_clock {
            SidClock::OneMhz
        } else {
            self.sid_clock
        }
    }

    pub fn new(sid_clock: SidClock) -> (r: SidBlasterRouter)
        ensures
            r.scaler.wf(),
            r.scaler.clock == sid_clock,
            r.cycles_to_compensate == 0,
            r.use_native_device_clock,
            r.number_of_sids == 0,
            r.sid_count == 0,
            r.sid_clock == sid_clock,
    {
        SidBlasterRouter {
            scaler: FrequencyScaler::new(sid_clock),
            cycles_to_compensate: 0,
            use_native_device_clock: true,
            number_of_sids: 0,
            sid_count: 0,
            sid_clock,
        }
    }

    /// The writes queued for a write of `data` to `reg` for chip `dev_nr`
    /// after `cycles`, less the cycles owed from the write before. Nothing
    /// is queued for a device that is not connected.
    pub fn route(&mut self, connected: bool, dev_nr: i32, cycles: u32, reg: u8, data: u8) -> (r: Vec<SidWrite>)
        requires
            old(self).scaler.wf(),
            old(self).sid_count > 0,
            0 <= dev_nr < i32::MAX - 8,
            old(self).cycles_to_compensate > 0 ==> cycles >= old(self).cycles_to_compensate,
        ensures
            final(self).scaler.wf(),
            final(self).scaler.clock == old(self).scaler.clock,
            final(self).use_native_device_clock == old(self).use_native_device_clock,
            final(self).number_of_sids == old(self).number_of_sids,
            final(self).sid_count == old(self).sid_count,
            final(self).sid_clock == old(self).sid_clock,
            ({
                let reg1 = sb_filter_reg(old(self).number_of_sids, old(self).sid_count, reg);
                let dev = sb_target(dev_nr, old(self).sid_count, reg1);
                let c = cycles - old(self).cycles_to_compensate;
                let clock = old(self).spec_device_clock().spec_code();
                let freq = spec_frequency_register(reg1);
                &&& !connected ==> r@.len() == 0 && final(self).cycles_to_compensate == 0 && final(self).scaler
                    == old(self).scaler
                &&& connected && (old(self).use_native_device_clock || freq is None) ==> r@ == seq![
                    queued(dev, c, reg1, data, clock),
                ] && final(self).cycles_to_compensate == 0 && final(self).scaler == old(self).scaler
                &&& connected && !old(self).use_native_device_clock && freq is Some ==> {
                    let (voice_nr, base, which) = freq->0;
                    let index = voice_nr + (base / 32) * 3;
                    let f = old(self).scaler.freq@[index];
                    let new_f = (if which == 0 {
                        (f / 256) * 256 + data
                    } else {
                        (f % 256) + data * 256
                    }) as u32;
                    let (hi, lo) = spec_frequency_writes(
                        voice_nr,
                        base,
                        old(self).scaler.last_freq@[index],
                        scaled(new_f, old(self).scaler.clock),
                    );
                    &&& final(self).scaler.freq@ == old(self).scaler.freq@.update(index, new_f)
                    &&& final(self).scaler.last_freq@ == old(self).scaler.last_freq@.update(
                        index,
                        scaled(new_f, old(self).scaler.clock),
                    )
                    &&& hi is Some ==> r@ == seq![
                        queued(dev, c, (hi->0).0, (hi->0).1, clock),
                        queued(dev, SB_MIN_CYCLE_SID_WRITE as int, lo.0, lo.1, clock),
                    ] && final(self).cycles_to_compensate == SB_MIN_CYCLE_SID_WRITE
                    &&& hi is None ==> r@ == seq![queued(dev, c, lo.0, lo.1, clock)]
                        && final(self).cycles_to_compensate == 0
                }
            }),
    {
        let ghost reg_in = reg;
        let ghost cycles_in = cycles;
        proof {
            assert(reg >> 5 == reg / 32) by (bit_vector);
        }
        let reg = if self.number_of_sids > 1 && !((reg >> 5) < self.sid_count as u8) {
            DUMMY_REG
        } else {
            reg
        };
        proof {
            let r0 = reg;
            assert(r0 >> 5 == r0 / 32) by (bit_vector);
            assert((r0 & 0xe0) >> 5 == r0 / 32) by (bit_vector);
        }
        let dev: i32 = (dev_nr + ((reg & 0xe0) >> 5) as i32) % self.sid_count;
        let mut cycles = cycles;
        if self.cycles_to_compensate > 0 {
            cycles = cycles - self.cycles_to_compensate;
            self.cycles_to_compensate = 0;
        }
        let clock = self.get_device_clock().code();
        let mut r: Vec<SidWrite> = Vec::new();
        if !connected {
            return r;
        }
        if !self.use_native_device_clock {
            match frequency_register(reg) {
                Some((voice_nr, base_reg, which)) => {
                    let (hi, lo) = self.scaler.frequency_writes(voice_nr, base_reg, which, data);
                    match hi {
                        Some((hi_reg, hi_data)) => {
                            r.push(queued_write(dev, cycles, hi_reg, hi_data, clock));
                            cycles = SB_MIN_CYCLE_SID_WRITE;
                            self.cycles_to_compensate = self.cycles_to_compensate + SB_MIN_CYCLE_SID_WRITE;
                        },
                        None => {},
                    }
                    r.push(queued_write(dev, cycles, lo.0, lo.1, clock));
                    return r;
                },
                None => {},
            }
        }
        r.push(queued_write(dev, cycles, reg, data, clock));
        proof {
            assert(reg == sb_filter_reg(old(self).number_of_sids, old(self).sid_count, reg_in));
            assert(dev == sb_target(dev_nr, old(self).sid_count, reg));
            assert(cycles == cycles_in - old(self).cycles_to_compensate);
            assert(clock == old(self).spec_device_clock().spec_code());
            assert(r@ =~= seq![queued(dev as int, cycles as int, reg, data, clock)]);
        }
        r
    }
}

fn queued_write(dev: i32, cycles: u32, reg: u8, data: u8, clock: u8) -> (r: SidWrite)
    requires
        dev >= 0,
    ensures
        r == queued(dev as int, cycles as int, reg, data, clock),
{
    let high = (dev << 5) as u8;
    proof {
        assert(dev >= 0 ==> (dev << 5) as u8 == ((dev % 8) * 32) as u8) by (bit_vector);
        assert((reg & 0x1f) | (((dev % 8) * 32) as u8) == ((reg % 32) + (dev % 8) * 32) as u8) by (bit_vector)
            requires
                dev >= 0,
        ;
    }
    SidWrite { cycles, reg: (reg & 0x1f) | high, data, clock, stop_draining: false }
}

/// Which SIDBlaster a write goes to: chip 0's registers of a chip's block
/// go to the SIDBlaster of that block, counted round the SIDBlasters; the
/// next chip's to the next SIDBlaster, and chips as many apart as there are
/// SIDBlasters to the same one. The queued register keeps the register
/// within the chip and holds the SIDBlaster's number in its top three bits:
/// register 4 of chip 1 with two SIDBlasters is queued as 0x24.
pub proof fn lemma_write_target(dev_nr: i32, sid_count: i32, reg: u8, cycles: int, data: u8, clock: u8)
    requires
        0 <= dev_nr,
        dev_nr + sid_count <= i32::MAX,
        0 < sid_count,
    ensures
        0 <= sb_target(dev_nr, sid_count, reg) < sid_count,
        sb_target(0, sid_count, reg) == ((reg / 32) as int) % (sid_count as int),
        sb_target((dev_nr + 1) as i32, sid_count, reg) == (sb_target(dev_nr, sid_count, reg) + 1) % (sid_count as int),
        sb_target((dev_nr + sid_count) as i32, sid_count, reg) == sb_target(dev_nr, sid_count, reg),
        sid_count <= 8 ==> queued(sb_target(dev_nr, sid_count, reg), cycles, reg, data, clock).reg / 32 == sb_target(
            dev_nr,
            sid_count,
            reg,
        ),
        queued(sb_target(dev_nr, sid_count, reg), cycles, reg, data, clock).reg % 32 == reg % 32,
        queued(sb_target(1, 2, 4), cycles, 4, data, clock).reg == 0x24,
{
    let a = dev_nr + reg / 32;
    let n = sid_count as int;
    vstd::arithmetic::div_mod::lemma_mod_bound(a, n);
    vstd::arithmetic::div_mod::lemma_add_mod_noop_right(1, a, n);
    vstd::arithmetic::div_mod::lemma_mod_add_multiples_vanish(a, n);
    assert(n + a == dev_nr + sid_count + reg / 32);
    let t = sb_target(dev_nr, sid_count, reg);
    assert(((reg % 32) + (t % 8) * 32) < 256) by (nonlinear_arith)
        requires
            0 <= t,
            reg % 32 < 32,
            t % 8 < 8,
    ;
    if sid_count <= 8 {
        assert(t % 8 == t);
        assert(((reg % 32) + t * 32) / 32 == t) by (nonlinear_arith)
            requires
                0 <= reg % 32 < 32,
                0 <= t,
        ;
    }
    assert(((reg % 32) + (t % 8) * 32) % 32 == reg % 32) by (nonlinear_arith)
        requires
            0 <= reg % 32 < 32,
            0 <= t % 8,
    ;
    assert(sb_target(1, 2, 4) == 1);
}

} // verus!
