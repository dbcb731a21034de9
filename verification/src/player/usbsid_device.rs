//! USBSID-Pico boards as the player sees them: every socket of every board
//! is a device of its own, and a write for a socket is mapped onto the
//! registers of its board. Long delays are split into delays the board
//! takes, and writes wait in a queue until the USB writer takes them.
use vstd::prelude::*;
use std::collections::VecDeque;
use crate::player::MIN_CYCLE_SID_WRITE;
use crate::player::sid_device::{DeviceInfo, SidWrite, DUMMY_REG};
use crate::utils::text::{decimal, push_decimal};

verus! {

pub const ERROR_MSG_DEVICE_COUNT_CHANGED: &'static str = "Number of devices is changed.";

pub const ERROR_MSG_DEVICE_FAILURE: &'static str = "Failure occurred during interaction with device.";

pub const ERROR_MSG_NO_USBSID_FOUND: &'static str = "No USBSID device found.";

/// About 100 ms of PAL time.
pub const MAX_CYCLES_IN_BUFFER: u32 = 63 * 312 * 5;

pub const SID_WRITES_BUFFER_SIZE: usize = 2 * 1024;

/// The longest delay one write carries.
pub const MAX_CYCLES_PER_WRITE: u32 = 1000;

pub const CMD_TIMEOUT_IN_MILLIS: u64 = 500;

/// The sockets of the boards whose socket counts are the first `n` of
/// `counts`, board by board: pairs of board and socket on it.
pub open spec fn board_sockets(counts: Seq<i32>, n: int) -> Seq<(int, int)>
    decreases n,
{
    if n <= 0 {
        seq![]
    } else {
        board_sockets(counts, n - 1) + Seq::new(
            if counts[n - 1] > 0 {
                counts[n - 1] as nat
            } else {
                0
            },
            |j: int| (n - 1, j),
        )
    }
}

/// The socket counts of `devices`.
pub open spec fn socket_counts(devices: Seq<DeviceInfo>) -> Seq<i32> {
    devices.map_values(|d: DeviceInfo| d.socket_count)
}

/// The name the player gives socket `k` (counted from 0): "USBSID-Pico-"
/// and its number counted from 1.
pub open spec fn socket_name(k: int) -> Seq<char> {
    "USBSID-Pico-"@ + decimal((k + 1) as nat)
}

/// Entry `k` of `layout` is socket `s.1` of board `s.0` of `devices`:
/// named by its number, based `s.1` chips into the board's registers.
pub open spec fn socket_entry(layout: UsbsidLayout, devices: Seq<DeviceInfo>, s: (int, int), k: int) -> bool {
    &&& layout.device_names@[k].id@ == socket_name(k)
    &&& layout.device_names@[k].name@ == socket_name(k)
    &&& layout.device_names@[k].socket_count == 1
    &&& layout.device_index@[k] == k
    &&& layout.device_base_reg@[k] == ((s.1 * 32) % 256) as u8
    &&& layout.device_mappings@[k] == s.0
    &&& layout.device_socket_count@[k] == devices[s.0].socket_count
    &&& 1 <= layout.device_socket_count@[k]
}

/// Every socket of the USBSID-Pico boards found, with the board it sits
/// on.
pub struct UsbsidLayout {
    pub device_names: Vec<DeviceInfo>,
    pub device_index: Vec<u8>,
    pub device_base_reg: Vec<u8>,
    /// The board of each socket.
    pub device_mappings: Vec<i32>,
    /// The number of sockets on the board of each socket.
    pub device_socket_count: Vec<i32>,
}

impl UsbsidLayout {
    pub open spec fn wf(&self) -> bool {
        &&& self.device_index.len() == self.device_names.len()
        &&& self.device_base_reg.len() == self.device_names.len()
        &&& self.device_mappings.len() == self.device_names.len()
        &&& self.device_socket_count.len() == self.device_names.len()
    }

    /// Numbers the sockets of the boards `devices` one after another.
    pub fn from_devices(devices: &Vec<DeviceInfo>) -> (r: UsbsidLayout)
        requires
            board_sockets(socket_counts(devices@), devices.len() as int).len() <= 255,
            devices.len() < 0x8000_0000,
        ensures
            r.wf(),
            r.device_names.len() == board_sockets(socket_counts(devices@), devices.len() as int).len(),
            forall|k: int|
                0 <= k < r.device_names.len() ==> socket_entry(
                    r,
                    devices@,
                    #[trigger] board_sockets(socket_counts(devices@), devices.len() as int)[k],
                    k,
                ),
    {
        let ghost counts = socket_counts(devices@);
        let ghost all = board_sockets(counts, devices.len() as int);
        let mut layout = UsbsidLayout {
            device_names: Vec::new(),
            device_index: Vec::new(),
            device_base_reg: Vec::new(),
            device_mappings: Vec::new(),
            device_socket_count: Vec::new(),
        };
        let mut count: u8 = 0;
        let mut i: usize = 0;
        proof {
            lemma_board_sockets_grow(counts, 0, devices.len() as int);
        }
        while i < devices.len()
            invariant
                i <= devices.len() < 0x8000_0000,
                counts == socket_counts(devices@),
                all == board_sockets(counts, devices.len() as int),
                all.len() <= 255,
                layout.wf(),
                count == layout.device_names.len(),
                board_sockets(counts, i as int).len() == count,
                board_sockets(counts, i as int) == all.take(count as int),
                forall|k: int| 0 <= k < count ==> socket_entry(layout, devices@, #[trigger] all[k], k),
            decreases devices.len() - i,
        {
            let socket_count = devices[i].socket_count;
            proof {
                lemma_board_sockets_grow(counts, i as int + 1, devices.len() as int);
            }
            let ghost start = count as int;
            let mut j: i32 = 0;
            while j < socket_count
                invariant
                    i < devices.len() < 0x8000_0000,
                    socket_count == counts[i as int],
                    counts == socket_counts(devices@),
                    all == board_sockets(counts, devices.len() as int),
                    all.len() <= 255,
                    board_sockets(counts, i + 1) == all.take(board_sockets(counts, i + 1).len() as int),
                    board_sockets(counts, i + 1) == board_sockets(counts, i as int) + Seq::new(
                        if socket_count > 0 {
                            socket_count as nat
                        } else {
                            0
                        },
                        |j: int| (i as int, j),
                    ),
                    start == board_sockets(counts, i as int).len(),
                    board_sockets(counts, i + 1).len() <= all.len(),
                    0 <= j,
                    socket_count >= 0 ==> j <= socket_count,
                    socket_count < 0 ==> j == 0,
                    layout.wf(),
                    count == layout.device_names.len(),
                    count == start + j,
                    forall|k: int| 0 <= k < count ==> socket_entry(layout, devices@, #[trigger] all[k], k),
                decreases socket_count - j,
            {
                let ghost k = count as int;
                proof {
                    assert(all.take(board_sockets(counts, i + 1).len() as int)[k] == all[k]);
                    assert(all[k] == (i as int, j as int));
                }
                let ghost prev = layout;
                let mut id = String::from_str("USBSID-Pico-");
                push_decimal(&mut id, (count + 1) as u64);
                let mut name = String::from_str("USBSID-Pico-");
                push_decimal(&mut name, (count + 1) as u64);
                layout.device_names.push(DeviceInfo { id, name, socket_count: 1 });
                layout.device_index.push(count);
                let base = (j * 0x20) as u8;
                proof {
                    assert(0 <= j < 0x8000_0000 ==> (j * 0x20) as u8 == ((j * 32) % 256) as u8) by (bit_vector);
                }
                layout.device_base_reg.push(base);
                layout.device_mappings.push(i as i32);
                layout.device_socket_count.push(socket_count);
                count = count + 1;
                j = j + 1;
                proof {
                    assert forall|m: int| 0 <= m < count implies socket_entry(layout, devices@, #[trigger] all[m], m) by {
                        if m < k {
                            assert(socket_entry(prev, devices@, all[m], m));
                        }
                    }
                }
            }
            proof {
                assert(board_sockets(counts, i + 1).len() == count);
                assert(board_sockets(counts, i + 1) =~= all.take(count as int));
            }
            i = i + 1;
        }
        proof {
            assert(all.take(count as int) =~= all);
        }
        layout
    }

    /// Two sockets play one tune together when they sit on the same board.
    pub fn can_pair_devices(&self, dev1: i32, dev2: i32) -> (r: bool)
        requires
            self.wf(),
            0 <= dev1 < self.device_names.len(),
            0 <= dev2 < self.device_names.len(),
        ensures
            r == (dev1 != dev2 && self.device_mappings@[dev1 as int] == self.device_mappings@[dev2 as int]),
    {
        dev1 != dev2 && self.device_mappings[dev1 as usize] == self.device_mappings[dev2 as usize]
    }

    /// A register beyond the sockets of the board goes to the dummy
    /// register.
    pub fn filter_reg_for_unsupported_writes(&self, dev_nr: i32, reg: u8) -> (r: u8)
        requires
            self.wf(),
            0 <= dev_nr < self.device_names.len(),
            1 <= self.device_socket_count@[dev_nr as int] <= 255,
        ensures
            r == spec_filter_reg(self.device_socket_count@[dev_nr as int], reg),
    {
        let socket_count = self.device_socket_count[dev_nr as usize];
        if (reg as i32) >= socket_count * 0x20 {
            DUMMY_REG
        } else {
            reg
        }
    }

    /// The register on the board that a write of `reg` for socket `dev_nr`
    /// goes to: counted from the socket's base, round within the board's
    /// sockets.
    pub fn map_device_to_reg(&self, dev_nr: i32, reg: u8) -> (r: u8)
        requires
            self.wf(),
            0 <= dev_nr < self.device_names.len(),
            1 <= self.device_socket_count@[dev_nr as int] <= 255,
        ensures
            r == spec_map_reg(
                self.device_socket_count@[dev_nr as int],
                self.device_base_reg@[dev_nr as int],
                reg,
            ),
    {
        let reg = self.filter_reg_for_unsupported_writes(dev_nr, reg);
        let base_reg = self.device_base_reg[dev_nr as usize];
        let socket_count = self.device_socket_count[dev_nr as usize];
        let socket_wrap = ((socket_count * 0x20) - 1) as u8;
        reg.wrapping_add(base_reg) & socket_wrap
    }

    /// The board registers where the tune's SID chips start, as socket
    /// `dev_nr` sees them: one per SID chip of the tune, for resetting them.
    pub fn active_bases(&self, dev_nr: i32, number_of_sids: i32) -> (r: Vec<u8>)
        requires
            self.wf(),
            0 <= dev_nr < self.device_names.len(),
            1 <= self.device_socket_count@[dev_nr as int] <= 255,
            (number_of_sids as u8) <= 8,
        ensures
            r@ == Seq::new(
                (number_of_sids as u8) as nat,
                |k: int|
                    spec_map_reg(
                        self.device_socket_count@[dev_nr as int],
                        self.device_base_reg@[dev_nr as int],
                        (k * 32) as u8,
                    ),
            ),
    {
        let count = number_of_sids as u8;
        let mut r: Vec<u8> = Vec::new();
        let mut sid_nr: u8 = 0;
        while sid_nr < count
            invariant
                self.wf(),
                0 <= dev_nr < self.device_names.len(),
                1 <= self.device_socket_count@[dev_nr as int] <= 255,
                sid_nr <= count <= 8,
                count == (number_of_sids as u8),
                r@ == Seq::new(
                    sid_nr as nat,
                    |k: int|
                        spec_map_reg(
                            self.device_socket_count@[dev_nr as int],
                            self.device_base_reg@[dev_nr as int],
                            (k * 32) as u8,
                        ),
                ),
            decreases count - sid_nr,
        {
            let base = self.map_device_to_reg(dev_nr, sid_nr * 0x20);
            r.push(base);
            proof {
                assert(r@ =~= Seq::new(
                    (sid_nr + 1) as nat,
                    |k: int|
                        spec_map_reg(
                            self.device_socket_count@[dev_nr as int],
                            self.device_base_reg@[dev_nr as int],
                            (k * 32) as u8,
                        ),
                ));
            }
            sid_nr = sid_nr + 1;
        }
        r
    }
}

pub open spec fn spec_filter_reg(socket_count: i32, reg: u8) -> u8 {
    if reg >= socket_count * 0x20 {
        DUMMY_REG
    } else {
        reg
    }
}

pub open spec fn spec_map_reg(socket_count: i32, base_reg: u8, reg: u8) -> u8 {
    (((spec_filter_reg(socket_count, reg) + base_reg) % 256) as u8) & (((socket_count * 0x20) - 1) as u8)
}

/// Cycles of the delay split off a long one.
pub open spec fn filler_cycles() -> int {
    MAX_CYCLES_PER_WRITE - MIN_CYCLE_SID_WRITE
}

pub open spec fn filler() -> SidWrite {
    SidWrite { cycles: filler_cycles() as u16, reg: DUMMY_REG, data: 0 }
}

/// The delays split off `cycles` before the write itself.
pub open spec fn fillers(cycles: int) -> nat
    decreases cycles,
{
    if cycles > MAX_CYCLES_PER_WRITE {
        1 + fillers(cycles - filler_cycles())
    } else {
        0
    }
}

/// The cycles left for the write itself.
pub open spec fn rest_cycles(cycles: int) -> int
    decreases cycles,
{
    if cycles > MAX_CYCLES_PER_WRITE {
        rest_cycles(cycles - filler_cycles())
    } else {
        cycles
    }
}

/// The cycles of `ws` added up.
pub open spec fn queued_cycles(ws: Seq<SidWrite>) -> int
    decreases ws.len(),
{
    if ws.len() == 0 {
        0
    } else {
        queued_cycles(ws.drop_last()) + ws.last().cycles
    }
}

/// The writes for a USBSID-Pico not yet taken by its writer, and the board
/// the writer is switched to.
pub struct UsbsidWriter {
    pub temp_queue: VecDeque<SidWrite>,
    pub active_device_index: i32,
}

impl UsbsidWriter {
    pub fn new() -> (r: UsbsidWriter)
        ensures
            r.temp_queue@.len() == 0,
            r.active_device_index == 0,
    {
        UsbsidWriter { temp_queue: VecDeque::new(), active_device_index: 0 }
    }

    /// Queues a write of `data` to `reg` for socket `dev_nr` after
    /// `cycles`: first delays of 992 cycles while more than 1000 are left,
    /// then the write with what is left. Says which board to switch the
    /// writer to first, when the socket sits on another board than the one
    /// it is switched to.
    pub fn queue_write(&mut self, layout: &UsbsidLayout, dev_nr: i32, cycles: u32, reg: u8, data: u8) -> (switch_to: Option<i32>)
        requires
            layout.wf(),
            0 <= dev_nr < layout.device_names.len(),
            1 <= layout.device_socket_count@[dev_nr as int] <= 255,
        ensures
            switch_to == (if layout.device_mappings@[dev_nr as int] != old(self).active_device_index {
                Some(layout.device_mappings@[dev_nr as int])
            } else {
                None::<i32>
            }),
            final(self).active_device_index == layout.device_mappings@[dev_nr as int],
            final(self).temp_queue@ == old(self).temp_queue@ + Seq::new(fillers(cycles as int), |i: int| filler())
                + seq![
                SidWrite {
                    cycles: rest_cycles(cycles as int) as u16,
                    reg: spec_map_reg(
                        layout.device_socket_count@[dev_nr as int],
                        layout.device_base_reg@[dev_nr as int],
                        reg,
                    ),
                    data,
                },
            ],
            queued_cycles(final(self).temp_queue@) == queued_cycles(old(self).temp_queue@) + cycles,
    {
        let new_dev_index = layout.device_mappings[dev_nr as usize];
        let mut switch_to: Option<i32> = None;
        if new_dev_index != self.active_device_index {
            switch_to = Some(new_dev_index);
            self.active_device_index = new_dev_index;
        }
        let ghost start = self.temp_queue@;
        let mut cycles = cycles;
        let ghost total = cycles as int;
        let ghost mut n: nat = 0;
        while cycles > MAX_CYCLES_PER_WRITE
            invariant
                fillers(total) == n + fillers(cycles as int),
                rest_cycles(total) == rest_cycles(cycles as int),
                self.temp_queue@ == start + Seq::new(n, |i: int| filler()),
                queued_cycles(self.temp_queue@) + cycles == queued_cycles(start) + total,
                self.active_device_index == new_dev_index,
            decreases cycles,
        {
            cycles = cycles - (MAX_CYCLES_PER_WRITE - MIN_CYCLE_SID_WRITE);
            self.temp_queue.push_back(
                SidWrite { reg: DUMMY_REG, data: 0x00, cycles: (MAX_CYCLES_PER_WRITE - MIN_CYCLE_SID_WRITE) as u16 },
            );
            proof {
                n = n + 1;
                assert(self.temp_queue@ =~= start + Seq::new(n, |i: int| filler()));
                assert(self.temp_queue@.drop_last() =~= start + Seq::new((n - 1) as nat, |i: int| filler()));
            }
        }
        let reg = layout.map_device_to_reg(dev_nr, reg);
        let ghost before = self.temp_queue@;
        self.temp_queue.push_back(SidWrite { reg, data, cycles: cycles as u16 });
        proof {
            assert(self.temp_queue@.drop_last() =~= before);
            assert(self.temp_queue@ =~= start + Seq::new(fillers(total), |i: int| filler()) + seq![
                SidWrite { cycles: rest_cycles(total) as u16, reg, data },
            ]);
        }
        switch_to
    }

    /// The writer took the first `pushed` queued writes: they leave the
    /// queue. Gives the cycles they carry, and whether the queue is empty
    /// now.
    pub fn take_pushed(&mut self, pushed: usize) -> (r: (u32, bool))
        requires
            pushed <= old(self).temp_queue@.len(),
            queued_cycles(old(self).temp_queue@.take(pushed as int)) <= u32::MAX,
        ensures
            final(self).temp_queue@ == old(self).temp_queue@.skip(pushed as int),
            final(self).active_device_index == old(self).active_device_index,
            r.0 == queued_cycles(old(self).temp_queue@.take(pushed as int)),
            r.1 == (final(self).temp_queue@.len() == 0),
    {
        let ghost all = self.temp_queue@;
        let mut total: u32 = 0;
        let mut i: usize = 0;
        while i < pushed
            invariant
                i <= pushed <= all.len(),
                self.temp_queue@ == all.skip(i as int),
                total == queued_cycles(all.take(i as int)),
                queued_cycles(all.take(pushed as int)) <= u32::MAX,
                self.active_device_index == old(self).active_device_index,
            decreases pushed - i,
        {
            proof {
                lemma_queued_cycles_monotone(all, i + 1, pushed as int);
            }
            let w = self.temp_queue.pop_front().unwrap();
            proof {
                assert(w == all[i as int]);
                assert(all.take(i + 1).drop_last() =~= all.take(i as int));
                assert(self.temp_queue@ =~= all.skip(i + 1));
            }
            total = total + w.cycles as u32;
            i = i + 1;
        }
        (total, self.temp_queue.len() == 0)
    }

    /// Forgets the writes not yet taken.
    pub fn clear(&mut self)
        ensures
            final(self).temp_queue@.len() == 0,
            final(self).active_device_index == old(self).active_device_index,
    {
        self.temp_queue.clear();
    }
}

proof fn lemma_queued_cycles_monotone(ws: Seq<SidWrite>, i: int, j: int)
    requires
        0 <= i <= j <= ws.len(),
    ensures
        queued_cycles(ws.take(i)) <= queued_cycles(ws.take(j)),
    decreases j - i,
{
    if i < j {
        lemma_queued_cycles_monotone(ws, i, j - 1);
        assert(ws.take(j).drop_last() =~= ws.take(j - 1));
    }
}

proof fn lemma_board_sockets_grow(counts: Seq<i32>, i: int, n: int)
    requires
        0 <= i <= n,
    ensures
        board_sockets(counts, n).take(board_sockets(counts, i).len() as int) == board_sockets(counts, i),
        board_sockets(counts, i).len() <= board_sockets(counts, n).len(),
    decreases n - i,
{
    if i < n {
        lemma_board_sockets_grow(counts, i, n - 1);
        let a = board_sockets(counts, n - 1);
        let b = board_sockets(counts, i);
        assert(board_sockets(counts, n).take(a.len() as int) =~= a);
        assert(board_sockets(counts, n).take(b.len() as int) =~= a.take(b.len() as int));
    }
}

} // verus!
