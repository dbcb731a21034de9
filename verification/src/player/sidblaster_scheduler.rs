//! Writes queued for SIDBlasters, and how the writer thread gathers them
//! into the byte batches it sends: each write is two bytes, and a batch is
//! sent as soon as waiting longer would spoil the timing.
use vstd::prelude::*;

verus! {

pub const SID_WRITES_BUFFER_SIZE: usize = 65_536;

/// About two seconds of PAL frames.
pub const MAX_CYCLES_IN_BUFFER: u32 = 63 * 312 * 50 * 2;

pub const MAX_DEVICE_BUFFER_SIZE: usize = 50;

pub const MAX_DEVICE_BUFFER_CYCLES: u32 = 1000;

pub const ALLOW_DOUBLE_REG_WRITES_WITHIN_CYCLES: u32 = 20;

pub const THRESHOLD_TO_FLUSH_BUFFER_IN_CYCLES: u32 = 500;

/// Clock a SIDBlaster is told to run at.
#[derive(Copy, Clone, PartialEq, Eq, Structural, Debug)]
pub enum SidClock {
    Pal,
    Ntsc,
    OneMhz,
}

impl SidClock {
    /// 0 is PAL, 1 is NTSC, every other number 1 MHz.
    pub open spec fn spec_from_u8(value: u8) -> SidClock {
        if value == 0 {
            SidClock::Pal
        } else if value == 1 {
            SidClock::Ntsc
        } else {
            SidClock::OneMhz
        }
    }

    pub fn from_u8(value: u8) -> (r: SidClock)
        ensures
            r == Self::spec_from_u8(value),
    {
        match value {
            0 => SidClock::Pal,
            1 => SidClock::Ntsc,
            _ => SidClock::OneMhz,
        }
    }
}

/// One queued SIDBlaster write, with the clock it is timed for.
#[derive(Copy, Clone, PartialEq, Eq, Structural, Debug)]
pub struct SidWrite {
    pub cycles: u32,
    pub reg: u8,
    pub data: u8,
    pub clock: u8,
    pub stop_draining: bool,
}

/// The two bytes a write becomes for a SIDBlaster: the register within its
/// chip with the top three bits set, then the data. A write that stops the
/// draining sends nothing.
pub open spec fn blaster_bytes(w: SidWrite) -> Seq<u8> {
    if w.stop_draining {
        seq![]
    } else {
        seq![(w.reg % 32 + 0xe0) as u8, w.data]
    }
}

/// The write after the current one forces a flush: it comes late, goes to
/// another SIDBlaster, or writes a register the batch already wrote after
/// more than a few cycles.
pub open spec fn next_forces_flush(next: Option<SidWrite>, dev_nr: u8, used: Seq<bool>) -> bool {
    match next {
        Some(n) => n.cycles > THRESHOLD_TO_FLUSH_BUFFER_IN_CYCLES || n.reg / 32 != dev_nr || (used[n.reg as int]
            && n.cycles > ALLOW_DOUBLE_REG_WRITES_WITHIN_CYCLES),
        None => false,
    }
}

/// A batch handed to a SIDBlaster, with the cycles played up to its end.
pub struct BatchFlush {
    pub dev_nr: u8,
    pub bytes: Vec<u8>,
    pub cycles: u32,
}

/// The bytes gathered for a SIDBlaster between two flushes.
pub struct BlasterBatch {
    pub buffer: Vec<u8>,
    /// The registers written since the last flush.
    pub reg_used: Vec<bool>,
    pub cycles_in_batch: u32,
    /// Cycles played since the writer started timing.
    pub cycles_processed: u32,
    pub last_dev_nr: u8,
}

pub open spec fn no_regs_used() -> Seq<bool> {
    Seq::new(256, |i: int| false)
}

impl BlasterBatch {
    pub open spec fn wf(&self) -> bool {
        self.reg_used.len() == 256
    }

    /// The buffer after write `w`.
    pub open spec fn buffered(&self, w: SidWrite) -> Seq<u8> {
        self.buffer@ + blaster_bytes(w)
    }

    /// Write `w`, followed by `next`, ends the batch: the batch holds bytes
    /// and `w` goes to another SIDBlaster than the batch, stops the
    /// draining, is late itself, or fills the batch past its size or its
    /// cycles, or `next` forces a flush.
    pub open spec fn flushes(&self, w: SidWrite, next: Option<SidWrite>) -> bool {
        let dev_nr = w.reg / 32;
        &&& self.buffered(w).len() > 0
        &&& {
            ||| (self.buffer.len() > 0 && dev_nr != self.last_dev_nr)
            ||| w.stop_draining
            ||| next_forces_flush(next, dev_nr, self.reg_used@.update(w.reg as int, true))
            ||| self.buffered(w).len() > MAX_DEVICE_BUFFER_SIZE
            ||| self.cycles_in_batch + w.cycles > MAX_DEVICE_BUFFER_CYCLES
            ||| w.cycles > THRESHOLD_TO_FLUSH_BUFFER_IN_CYCLES
        }
    }

    pub fn new() -> (r: BlasterBatch)
        ensures
            r.wf(),
            r.buffer@.len() == 0,
            r.reg_used@ == no_regs_used(),
            r.cycles_in_batch == 0,
            r.cycles_processed == 0,
            r.last_dev_nr == 0,
    {
        BlasterBatch {
            buffer: Vec::new(),
            reg_used: no_regs(),
            cycles_in_batch: 0,
            cycles_processed: 0,
            last_dev_nr: 0,
        }
    }

    /// Takes write `w`, with `next` the write queued after it, and hands
    /// out the batch when `w` ends it. The batch goes to the SIDBlaster of
    /// `w`. A write that stops the draining restarts the timing.
    pub fn step(&mut self, w: &SidWrite, next: &Option<SidWrite>) -> (r: Option<BatchFlush>)
        requires
            old(self).wf(),
            old(self).cycles_processed + w.cycles <= u32::MAX,
            old(self).cycles_in_batch + w.cycles <= u32::MAX,
        ensures
            final(self).wf(),
            final(self).buffer.len() <= MAX_DEVICE_BUFFER_SIZE,
            final(self).last_dev_nr == w.reg / 32,
            final(self).cycles_processed == if w.stop_draining {
                0
            } else {
                old(self).cycles_processed + w.cycles
            },
            r is Some <==> old(self).flushes(*w, *next),
            r matches Some(f) ==> f.dev_nr == w.reg / 32 && f.bytes@ == old(self).buffered(*w) && f.cycles
                == old(self).cycles_processed + w.cycles,
            r is Some ==> final(self).buffer@.len() == 0 && final(self).reg_used@ == no_regs_used()
                && final(self).cycles_in_batch == 0,
            r is None ==> final(self).buffer@ == old(self).buffered(*w) && final(self).reg_used@ == old(
                self,
            ).reg_used@.update(w.reg as int, true) && final(self).cycles_in_batch == old(self).cycles_in_batch
                + w.cycles,
    {
        let dev_nr = w.reg >> 5;
        proof {
            let reg = w.reg;
            assert(reg >> 5 == reg / 32) by (bit_vector);
        }
        let device_change = self.buffer.len() > 0 && dev_nr != self.last_dev_nr;
        self.last_dev_nr = dev_nr;
        self.cycles_processed = self.cycles_processed + w.cycles;
        self.cycles_in_batch = self.cycles_in_batch + w.cycles;
        if !w.stop_draining {
            let reg = w.reg;
            self.buffer.push(reg & 0x1f | 0xe0);
            self.buffer.push(w.data);
            proof {
                assert(reg & 0x1f | 0xe0 == (reg % 32 + 0xe0) as u8) by (bit_vector);
            }
        }
        proof {
            assert(self.buffer@ =~= old(self).buffered(*w));
        }
        self.reg_used.set(w.reg as usize, true);
        let mut should_flush = device_change || w.stop_draining;
        match next {
            Some(n) => {
                let next_dev = n.reg >> 5;
                proof {
                    let nr = n.reg;
                    assert(nr >> 5 == nr / 32) by (bit_vector);
                }
                if n.cycles > THRESHOLD_TO_FLUSH_BUFFER_IN_CYCLES || next_dev != dev_nr || (
                self.reg_used[n.reg as usize] && n.cycles > ALLOW_DOUBLE_REG_WRITES_WITHIN_CYCLES) {
                    should_flush = true;
                }
            },
            None => {},
        }
        let flushed_cycles = self.cycles_processed;
        let mut r: Option<BatchFlush> = None;
        if self.buffer.len() > 0 && (should_flush || self.buffer.len() > MAX_DEVICE_BUFFER_SIZE
            || self.cycles_in_batch > MAX_DEVICE_BUFFER_CYCLES || w.cycles > THRESHOLD_TO_FLUSH_BUFFER_IN_CYCLES) {
            let mut bytes: Vec<u8> = Vec::new();
            std::mem::swap(&mut bytes, &mut self.buffer);
            self.cycles_in_batch = 0;
            self.reg_used = no_regs();
            r = Some(BatchFlush { dev_nr, bytes, cycles: flushed_cycles });
        }
        if w.stop_draining {
            self.cycles_processed = 0;
        }
        r
    }

    /// The queue ran dry: the timing starts again with the next write.
    pub fn restart_timing(&mut self)
        ensures
            final(self).cycles_processed == 0,
            final(self).buffer@ == old(self).buffer@,
            final(self).reg_used@ == old(self).reg_used@,
            final(self).cycles_in_batch == old(self).cycles_in_batch,
            final(self).last_dev_nr == old(self).last_dev_nr,
    {
        self.cycles_processed = 0;
    }
}

fn no_regs() -> (r: Vec<bool>)
    ensures
        r@ == no_regs_used(),
{
    let mut r: Vec<bool> = Vec::new();
    let mut i: usize = 0;
    while i < 256
        invariant
            i <= 256,
            r@ == Seq::new(i as nat, |k: int| false),
        decreases 256 - i,
    {
        r.push(false);
        proof {
            assert(r@ =~= Seq::new((i + 1) as nat, |k: int| false));
        }
        i = i + 1;
    }
    r
}

} // verus!
