//! What the player remembers of the writes it sent: the writes not yet
//! heard, the tune's time in cycles, and per register the last values
//! written and when.
use vstd::prelude::*;
use std::collections::VecDeque;

verus! {

/// A register write as the player sent it: `cycles` after the previous one
/// on the device, `cycles_real` after it in the tune.
#[derive(Copy, Clone, PartialEq, Eq, Structural, Debug)]
pub struct SidWrite {
    pub reg: u8,
    pub data: u8,
    pub cycles: u32,
    pub cycles_real: u32,
}

impl SidWrite {
    pub fn new(reg: u8, data: u8, cycles: u32, cycles_real: u32) -> (r: SidWrite)
        ensures
            r == (SidWrite { reg, data, cycles, cycles_real }),
    {
        SidWrite { reg, data, cycles, cycles_real }
    }
}

/// Cycles an envelope takes to decay or release, for each of the 16 rates.
pub open spec fn release_cycles(rate: int) -> u32 {
    if rate == 0 {
        6912
    } else if rate == 1 {
        24576
    } else if rate == 2 {
        48384
    } else if rate == 3 {
        72960
    } else if rate == 4 {
        114432
    } else if rate == 5 {
        168960
    } else if rate == 6 {
        205056
    } else if rate == 7 {
        240384
    } else if rate == 8 {
        301056
    } else if rate == 9 {
        750336
    } else if rate == 10 {
        1500672
    } else if rate == 11 {
        2401536
    } else if rate == 12 {
        3000576
    } else if rate == 13 {
        9009152
    } else if rate == 14 {
        14999808
    } else {
        24001536
    }
}

/// The sum of the `cycles` of `writes`.
pub open spec fn total_cycles(writes: Seq<SidWrite>) -> int
    decreases writes.len(),
{
    if writes.len() == 0 {
        0
    } else {
        total_cycles(writes.drop_last()) + writes.last().cycles
    }
}

/// The register side of the player's write bookkeeping. How long a write
/// waits before it is heard is timed by the caller.
pub struct SidWriteLog {
    time_in_cycles: u32,
    time_elapsed_in_cycles: u32,
    last_sid_write: Vec<u8>,
    second_last_sid_write: Vec<u8>,
    last_sid_write_times: Vec<u32>,
    sid_write_fifo: VecDeque<SidWrite>,
    cycles_in_fifo: u32,
}

impl SidWriteLog {
    /// The last value written to each of the 256 registers.
    pub closed spec fn last_writes(&self) -> Seq<u8> {
        self.last_sid_write@
    }

    /// The value each register held before its last change.
    pub closed spec fn second_last_writes(&self) -> Seq<u8> {
        self.second_last_sid_write@
    }

    /// The tune time, in cycles, of each register's last change.
    pub closed spec fn last_write_times(&self) -> Seq<u32> {
        self.last_sid_write_times@
    }

    /// The writes sent but not yet heard, oldest first.
    pub closed spec fn pending(&self) -> Seq<SidWrite> {
        self.sid_write_fifo@
    }

    /// The time of the tune heard so far, in cycles.
    pub closed spec fn time(&self) -> u32 {
        self.time_in_cycles
    }

    /// The device cycles heard since the last start or pause.
    pub closed spec fn elapsed(&self) -> u32 {
        self.time_elapsed_in_cycles
    }

    /// The device cycles the pending writes take.
    pub closed spec fn fifo_cycles(&self) -> u32 {
        self.cycles_in_fifo
    }

    pub open spec fn wf(&self) -> bool {
        &&& self.last_writes().len() == 256
        &&& self.second_last_writes().len() == 256
        &&& self.last_write_times().len() == 256
        &&& self.fifo_cycles() == total_cycles(self.pending())
    }

    pub fn new() -> (r: SidWriteLog)
        ensures
            r.wf(),
            r.pending().len() == 0,
            r.time() == 0,
            r.elapsed() == 0,
            r.last_writes() == Seq::new(256, |i: int| 0u8),
            r.second_last_writes() == Seq::new(256, |i: int| 0u8),
            r.last_write_times() == Seq::new(256, |i: int| 0u32),
    {
        let r = SidWriteLog {
            time_in_cycles: 0,
            time_elapsed_in_cycles: 0,
            last_sid_write: zeros_u8(256),
            second_last_sid_write: zeros_u8(256),
            last_sid_write_times: zeros_u32(256),
            sid_write_fifo: VecDeque::new(),
            cycles_in_fifo: 0,
        };
        proof {
            assert(r.pending() =~= Seq::<SidWrite>::empty());
        }
        r
    }

    /// Starts over at `current_time_in_cycles` with nothing pending; at the
    /// start of a tune the register history is cleared too.
    pub fn init(&mut self, current_time_in_cycles: u32)
        requires
            old(self).wf(),
        ensures
            final(self).wf(),
            final(self).pending().len() == 0,
            final(self).time() == current_time_in_cycles,
            final(self).elapsed() == 0,
            current_time_in_cycles == 0 ==> final(self).last_writes() == Seq::new(256, |i: int| 0u8)
                && final(self).second_last_writes() == Seq::new(256, |i: int| 0u8)
                && final(self).last_write_times() == Seq::new(256, |i: int| 0u32),
            current_time_in_cycles != 0 ==> final(self).last_writes() == old(self).last_writes()
                && final(self).second_last_writes() == old(self).second_last_writes()
                && final(self).last_write_times() == old(self).last_write_times(),
    {
        self.time_in_cycles = current_time_in_cycles;
        self.time_elapsed_in_cycles = 0;
        self.sid_write_fifo = VecDeque::new();
        self.cycles_in_fifo = 0;
        if current_time_in_cycles == 0 {
            self.last_sid_write = zeros_u8(256);
            self.second_last_sid_write = zeros_u8(256);
            self.last_sid_write_times = zeros_u32(256);
        }
        proof {
            assert(self.pending() =~= Seq::<SidWrite>::empty());
        }
    }

    /// Queues a write sent to the device.
    pub fn write(&mut self, cycles: u32, reg: u8, data: u8, cycles_real: u32)
        requires
            old(self).wf(),
            old(self).fifo_cycles() + cycles <= u32::MAX,
        ensures
            final(self).wf(),
            final(self).pending() == old(self).pending().push(SidWrite { reg, data, cycles, cycles_real }),
            final(self).time() == old(self).time(),
            final(self).elapsed() == old(self).elapsed(),
            final(self).last_writes() == old(self).last_writes(),
            final(self).second_last_writes() == old(self).second_last_writes(),
            final(self).last_write_times() == old(self).last_write_times(),
    {
        self.cycles_in_fifo = self.cycles_in_fifo + cycles;
        self.sid_write_fifo.push_back(SidWrite::new(reg, data, cycles, cycles_real));
        proof {
            assert(self.pending().drop_last() =~= old(self).pending());
        }
    }

    /// The pending writes, oldest first.
    pub fn get_buffer_copy(&self) -> (r: Vec<SidWrite>)
        ensures
            r@ == self.pending(),
    {
        let mut sid_writes: Vec<SidWrite> = Vec::new();
        let n = self.sid_write_fifo.len();
        let mut i: usize = 0;
        while i < n
            invariant
                n == self.pending().len(),
                i <= n,
                sid_writes@ == self.pending().take(i as int),
            decreases n - i,
        {
            sid_writes.push(self.sid_write_fifo[i]);
            proof {
                assert(self.pending().take(i + 1) =~= self.pending().take(i as int).push(self.pending()[i as int]));
            }
            i = i + 1;
        }
        proof {
            assert(self.pending().take(n as int) =~= self.pending());
        }
        sid_writes
    }

    /// Drops the pending writes, keeping the time and the register history.
    pub fn clear_buffer(&mut self)
        requires
            old(self).wf(),
        ensures
            final(self).wf(),
            final(self).pending().len() == 0,
            final(self).time() == old(self).time(),
            final(self).elapsed() == 0,
            old(self).time() != 0 ==> final(self).last_writes() == old(self).last_writes(),
    {
        let t = self.time_in_cycles;
        self.init(t);
    }

    /// The time of the tune heard so far, in cycles.
    pub fn get_time_in_cycles(&self) -> (r: u32)
        ensures
            r == self.time(),
    {
        self.time_in_cycles
    }

    /// The device cycles heard since the last start or pause.
    pub fn get_elapsed_cycles(&self) -> (r: u32)
        ensures
            r == self.elapsed(),
    {
        self.time_elapsed_in_cycles
    }

    pub fn get_cycles_in_fifo(&self) -> (r: u32)
        ensures
            r == self.fifo_cycles(),
    {
        self.cycles_in_fifo
    }

    /// The oldest pending write.
    pub fn get_sid_write(&self) -> (r: Option<SidWrite>)
        ensures
            r == (if self.pending().len() > 0 {
                Some(self.pending()[0])
            } else {
                None::<SidWrite>
            }),
    {
        if self.sid_write_fifo.len() > 0 {
            Some(self.sid_write_fifo[0])
        } else {
            None
        }
    }

    /// The oldest pending write is heard: it leaves the queue and the
    /// register history records it.
    pub fn process_next(&mut self)
        requires
            old(self).wf(),
            old(self).pending().len() > 0,
            old(self).time() + old(self).pending()[0].cycles_real <= u32::MAX,
            old(self).elapsed() + old(self).pending()[0].cycles <= u32::MAX,
        ensures
            final(self).wf(),
            final(self).pending() == old(self).pending().drop_first(),
            ({
                let w = old(self).pending()[0];
                &&& final(self).time() == old(self).time() + w.cycles_real
                &&& final(self).elapsed() == old(self).elapsed() + w.cycles
                &&& final(self).last_writes() == old(self).last_writes().update(w.reg as int, w.data)
                &&& final(self).second_last_writes() == if w.data != old(self).last_writes()[w.reg as int] {
                    old(self).second_last_writes().update(w.reg as int, old(self).last_writes()[w.reg as int])
                } else {
                    old(self).second_last_writes()
                }
                &&& final(self).last_write_times() == if w.data != old(self).last_writes()[w.reg as int] {
                    old(self).last_write_times().update(w.reg as int, final(self).time())
                } else {
                    old(self).last_write_times()
                }
            }),
    {
        let ghost old_pending = self.pending();
        proof {
            lemma_total_cycles_first(old_pending);
        }
        let w = self.sid_write_fifo.pop_front().unwrap();
        proof {
            assert(w == old_pending[0]);
            lemma_total_cycles_nonneg(old_pending.drop_first());
        }
        self.cycles_in_fifo = self.cycles_in_fifo - w.cycles;
        self.process_write(w.reg, w.data, w.cycles, w.cycles_real);
        proof {
            assert(self.pending() =~= old_pending.drop_first());
        }
    }

    fn process_write(&mut self, reg: u8, data: u8, cycles: u32, cycles_real: u32)
        requires
            old(self).last_writes().len() == 256,
            old(self).second_last_writes().len() == 256,
            old(self).last_write_times().len() == 256,
            old(self).time() + cycles_real <= u32::MAX,
            old(self).elapsed() + cycles <= u32::MAX,
        ensures
            final(self).pending() == old(self).pending(),
            final(self).fifo_cycles() == old(self).fifo_cycles(),
            final(self).time() == old(self).time() + cycles_real,
            final(self).elapsed() == old(self).elapsed() + cycles,
            final(self).last_writes() == old(self).last_writes().update(reg as int, data),
            final(self).second_last_writes() == if data != old(self).last_writes()[reg as int] {
                old(self).second_last_writes().update(reg as int, old(self).last_writes()[reg as int])
            } else {
                old(self).second_last_writes()
            },
            final(self).last_write_times() == if data != old(self).last_writes()[reg as int] {
                old(self).last_write_times().update(reg as int, final(self).time())
            } else {
                old(self).last_write_times()
            },
    {
        self.time_in_cycles = self.time_in_cycles + cycles_real;
        self.time_elapsed_in_cycles = self.time_elapsed_in_cycles + cycles;
        let r = reg as usize;
        if data != self.last_sid_write[r] {
            let previous = self.last_sid_write[r];
            self.second_last_sid_write.set(r, previous);
            let now = self.time_in_cycles;
            self.last_sid_write_times.set(r, now);
            self.last_sid_write.set(r, data);
        } else {
            proof {
                assert(self.last_writes().update(reg as int, data) =~= self.last_writes());
            }
        }
    }

    /// The note of the voice whose registers start at `reg_base` has died
    /// away: its gate is off and its release has run longer than the
    /// release rate takes.
    pub open spec fn is_note_finished_spec(&self, reg_base: u8) -> bool {
        let ctrl = self.last_writes()[reg_base + 4];
        let since = if self.time() >= self.last_write_times()[reg_base + 4] {
            self.time() - self.last_write_times()[reg_base + 4]
        } else {
            0
        };
        ctrl % 2 == 0 && release_cycles((self.last_writes()[reg_base + 6] % 16) as int) < since
    }

    pub fn is_note_finished(&self, reg_base: u8) -> (r: bool)
        requires
            self.wf(),
            reg_base <= 0xf9,
        ensures
            r == self.is_note_finished_spec(reg_base),
    {
        let env_decay_release_in_cycles: [u32; 16] = [
            6912, 24576, 48384, 72960, 114432, 168960, 205056, 240384, 301056, 750336, 1500672, 2401536,
            3000576, 9009152, 14999808, 24001536,
        ];
        let last_write_time = self.get_last_sid_write_times(0x04 + reg_base);
        let last_write_time_diff = self.time_in_cycles.saturating_sub(last_write_time);
        let ctrl = self.last_sid_write[0x04 + reg_base as usize];
        let release = self.last_sid_write[0x06 + reg_base as usize];
        let gate_cleared = ctrl & 1 == 0;
        let last_release = release & 0x0f;
        proof {
            assert(ctrl & 1 == ctrl % 2) by (bit_vector);
            assert(release & 0x0f == release % 16) by (bit_vector);
            assert(env_decay_release_in_cycles@[last_release as int] == release_cycles(last_release as int));
        }
        gate_cleared && env_decay_release_in_cycles[last_release as usize] < last_write_time_diff
    }

    pub fn get_last_sid_write(&self, reg: u8) -> (r: u8)
        requires
            self.wf(),
        ensures
            r == self.last_writes()[reg as int],
    {
        self.last_sid_write[reg as usize]
    }

    pub fn get_last_sid_write_times(&self, reg: u8) -> (r: u32)
        requires
            self.wf(),
        ensures
            r == self.last_write_times()[reg as int],
    {
        self.last_sid_write_times[reg as usize]
    }
}

proof fn lemma_total_cycles_first(writes: Seq<SidWrite>)
    requires
        writes.len() > 0,
    ensures
        total_cycles(writes) == writes[0].cycles + total_cycles(writes.drop_first()),
    decreases writes.len(),
{
    if writes.len() > 1 {
        lemma_total_cycles_first(writes.drop_last());
        assert(writes.drop_last().drop_first() =~= writes.drop_first().drop_last());
        assert(writes.drop_first().last() == writes.last());
        assert(writes.drop_last()[0] == writes[0]);
        assert(total_cycles(writes.drop_first()) == total_cycles(writes.drop_first().drop_last()) + writes.drop_first().last().cycles);
        assert(total_cycles(writes) == total_cycles(writes.drop_last()) + writes.last().cycles);
        assert(total_cycles(writes.drop_last()) == writes[0].cycles + total_cycles(writes.drop_last().drop_first()));
    } else {
        assert(writes.drop_first().len() == 0);
        assert(writes.drop_last().len() == 0);
        assert(writes.last() == writes[0]);
        assert(total_cycles(writes.drop_last()) == 0);
        assert(total_cycles(writes.drop_first()) == 0);
        assert(total_cycles(writes) == writes[0].cycles);
    }
    lemma_total_cycles_nonneg(writes.drop_first());
}

proof fn lemma_total_cycles_nonneg(writes: Seq<SidWrite>)
    ensures
        total_cycles(writes) >= 0,
    decreases writes.len(),
{
    if writes.len() > 0 {
        lemma_total_cycles_nonneg(writes.drop_last());
    }
}

fn zeros_u8(n: usize) -> (r: Vec<u8>)
    ensures
        r@ == Seq::new(n as nat, |i: int| 0u8),
{
    let mut v: Vec<u8> = Vec::new();
    let mut i: usize = 0;
    while i < n
        invariant
            i <= n,
            v@ == Seq::new(i as nat, |j: int| 0u8),
        decreases n - i,
    {
        v.push(0);
        proof {
            assert(v@ =~= Seq::new((i + 1) as nat, |j: int| 0u8));
        }
        i = i + 1;
    }
    v
}

fn zeros_u32(n: usize) -> (r: Vec<u32>)
    ensures
        r@ == Seq::new(n as nat, |i: int| 0u32),
{
    let mut v: Vec<u32> = Vec::new();
    let mut i: usize = 0;
    while i < n
        invariant
            i <= n,
            v@ == Seq::new(i as nat, |j: int| 0u32),
        decreases n - i,
    {
        v.push(0);
        proof {
            assert(v@ =~= Seq::new((i + 1) as nat, |j: int| 0u32));
        }
        i = i + 1;
    }
    v
}

impl SidWriteLog {
    /// How a voice's note ends; its registers start at `reg_base`. A note
    /// whose gate is on (the lowest bit of register `reg_base + 4`) has not
    /// ended. Once that bit is clear, it fades at the rate in the low nibble of
    /// register `reg_base + 6` (the sustain level in
    /// the high nibble plays no part); a note that has ended stays ended as
    /// time goes on; a faster rate ends no later than a slower one; release
    /// times rise with the rate, from 6,912 cycles at rate 0 to 24,001,536 at
    /// rate 15, and rate 10 takes 1,500,672 cycles.
    pub proof fn lemma_note_release(l1: &SidWriteLog, l2: &SidWriteLog, reg_base: u8)
        requires
            l1.wf(),
            l2.wf(),
            reg_base <= 0xf9,
        ensures
            l1.last_writes()[reg_base + 4] % 2 == 1 ==> !l1.is_note_finished_spec(reg_base),
            l1.last_writes()[reg_base + 4] == l2.last_writes()[reg_base + 4] && l1.last_writes()[reg_base + 6] % 16
                == l2.last_writes()[reg_base + 6] % 16 && l1.last_write_times()[reg_base + 4]
                == l2.last_write_times()[reg_base + 4] && l1.time() == l2.time() ==> l1.is_note_finished_spec(
                reg_base,
            ) == l2.is_note_finished_spec(reg_base),
            l1.last_writes()[reg_base + 4] == l2.last_writes()[reg_base + 4] && l1.last_writes()[reg_base + 6]
                == l2.last_writes()[reg_base + 6] && l1.last_write_times()[reg_base + 4]
                == l2.last_write_times()[reg_base + 4] && l1.time() <= l2.time() && l1.is_note_finished_spec(reg_base)
                ==> l2.is_note_finished_spec(reg_base),
            l1.last_writes()[reg_base + 4] == l2.last_writes()[reg_base + 4] && l1.last_writes()[reg_base + 6] % 16
                <= l2.last_writes()[reg_base + 6] % 16 && l1.last_write_times()[reg_base + 4]
                == l2.last_write_times()[reg_base + 4] && l1.time() == l2.time() && l2.is_note_finished_spec(reg_base)
                ==> l1.is_note_finished_spec(reg_base),
            l1.last_writes()[reg_base + 4] % 2 == 0 && l1.last_writes()[reg_base + 6] % 16 == 10
                && l1.last_write_times()[reg_base + 4] <= l1.time() ==> (l1.is_note_finished_spec(reg_base) <==> l1.time()
                - l1.last_write_times()[reg_base + 4] > 1_500_672),
            forall|r1: int, r2: int| 0 <= r1 < r2 < 16 ==> release_cycles(r1) < release_cycles(r2),
            release_cycles(0) == 6912,
            release_cycles(15) == 24001536,
    {
    }
}

} // verus!
