//! The HardSID USB devices (4U, UPlay, Uno): how their SID chips are
//! numbered, how registers reach a chip, and how writes and delays are
//! queued for the device, which takes delays of at most 0xffff cycles.
use vstd::prelude::*;
use std::collections::VecDeque;
use crate::player::sid_device::{SidClock, DUMMY_REG};
use crate::utils::text::{decimal, push_decimal};

verus! {

/// The error when no HardSID USB device is attached.
pub const ERROR_MSG_NO_HARDSID_FOUND: &'static str = "No HardSID USB device found.";

pub const DEV_TYPE_HS_4U: u8 = 1;

pub const DEV_TYPE_HS_UPLAY: u8 = 2;

pub const DEV_TYPE_HS_UNO: u8 = 3;

/// The shortest delay the device takes.
pub const HS_MIN_CYCLE_SID_WRITE: u32 = 4;

/// A delay split off a long one is never shorter than this.
pub const MINIMUM_CYCLES: u32 = 100;

pub const MIN_CYCLE_SID_WRITE: u32 = 8;

pub const PAL_FREQ_SCALE: u32 = 64554;

pub const NTSC_FREQ_SCALE: u32 = 66992;

/// What a queued HardSID entry does.
#[derive(Copy, Clone, PartialEq, Eq, Structural, Debug)]
pub enum DeviceCommand {
    Write,
    Delay,
}

/// One queued HardSID entry: a register write, or a delay of `cycles`.
#[derive(Copy, Clone, PartialEq, Eq, Structural, Debug)]
pub struct SidWrite {
    pub command: DeviceCommand,
    pub reg: u8,
    pub data: u8,
    pub cycles: u16,
}

impl SidWrite {
    pub fn new(command: DeviceCommand, reg: u8, data: u8, cycles: u16) -> (r: SidWrite)
        ensures
            r == (SidWrite { command, reg, data, cycles }),
    {
        SidWrite { command, reg, data, cycles }
    }
}

/// One SID chip of the connected HardSID devices.
#[derive(Copy, Clone, PartialEq, Eq, Structural, Debug)]
pub struct HardsidChip {
    /// 4U, UPlay or Uno.
    pub device_type: u8,
    /// The physical device the chip sits in.
    pub device_id: u8,
    /// The chip's number among the chips of devices of its type.
    pub device_index: u8,
    /// The chip's first register within its device.
    pub base_reg: u8,
}

/// How many of `chips` are in devices of type `t`.
pub open spec fn type_count(chips: Seq<HardsidChip>, t: u8) -> nat
    decreases chips.len(),
{
    if chips.len() == 0 {
        0
    } else {
        type_count(chips.drop_last(), t) + if chips.last().device_type == t {
            1nat
        } else {
            0nat
        }
    }
}

/// The chips of the first `n` devices, each device given as its type and
/// its number of chips.
pub open spec fn chips_of(devices: Seq<(u8, u8)>, n: int) -> Seq<HardsidChip>
    decreases n,
{
    if n <= 0 {
        seq![]
    } else {
        chips_of(devices, n - 1) + chips_of_device(chips_of(devices, n - 1), devices[n - 1].0, (n - 1) as u8, devices[n - 1].1 as int)
    }
}

/// The chips of one device after the chips `before`: numbered on from the
/// chips of its type so far, 0x20 registers apart.
pub open spec fn chips_of_device(before: Seq<HardsidChip>, t: u8, id: u8, count: int) -> Seq<HardsidChip> {
    Seq::new(
        count as nat,
        |j: int| HardsidChip { device_type: t, device_id: id, device_index: (type_count(before, t) + j) as u8, base_reg: (j * 0x20) as u8 },
    )
}

/// The devices can be numbered: at most 255 devices of at most 8 chips each,
/// of the three known types, and fewer than 256 chips of one type.
pub open spec fn devices_fit(devices: Seq<(u8, u8)>) -> bool {
    &&& devices.len() <= 255
    &&& forall|i: int| 0 <= i < devices.len() ==> (#[trigger] devices[i]).0 < 4 && devices[i].1 <= 8
    &&& forall|t: u8| t < 4 ==> type_count(chips_of(devices, devices.len() as int), t) <= 255
}

/// Name of a chip as the player lists it.
pub open spec fn chip_name(chip: HardsidChip) -> Seq<char> {
    (if chip.device_type == DEV_TYPE_HS_4U {
        "HardSID 4U "@
    } else if chip.device_type == DEV_TYPE_HS_UPLAY {
        "HS UPlay "@
    } else if chip.device_type == DEV_TYPE_HS_UNO {
        "HardSID Uno "@
    } else {
        "Unknown HS "@
    }) + decimal((chip.device_index + 1) as nat)
}

proof fn lemma_type_count_push(chips: Seq<HardsidChip>, c: HardsidChip, t: u8)
    ensures
        type_count(chips.push(c), t) == type_count(chips, t) + if c.device_type == t {
            1nat
        } else {
            0nat
        },
{
    assert(chips.push(c).drop_last() =~= chips);
}

proof fn lemma_type_count_device(before: Seq<HardsidChip>, t0: u8, id: u8, c: int, t: u8)
    requires
        0 <= c,
    ensures
        type_count(before + chips_of_device(before, t0, id, c), t) == type_count(before, t) + if t0 == t {
            c
        } else {
            0
        },
    decreases c,
{
    if c == 0 {
        assert(before + chips_of_device(before, t0, id, c) =~= before);
    } else {
        lemma_type_count_device(before, t0, id, c - 1, t);
        assert((before + chips_of_device(before, t0, id, c)).drop_last() =~= before + chips_of_device(
            before,
            t0,
            id,
            c - 1,
        ));
    }
}

/// Whether the devices found can be numbered (`devices_fit`); the device
/// answers are checked before the chips are laid out.
pub fn devices_can_be_numbered(devices: &Vec<(u8, u8)>) -> (r: bool)
    ensures
        r == devices_fit(devices@),
{
    if devices.len() > 255 {
        return false;
    }
    let mut counts: [u32; 4] = [0u32; 4];
    let mut i: usize = 0;
    while i < devices.len()
        invariant
            i <= devices.len() <= 255,
            forall|k: int| 0 <= k < i ==> (#[trigger] devices@[k]).0 < 4 && devices@[k].1 <= 8,
            forall|t: u8| t < 4 ==> counts@[t as int] == type_count(chips_of(devices@, i as int), t),
            forall|t: u8| t < 4 ==> counts@[t as int] <= 8 * i,
        decreases devices.len() - i,
    {
        let (dev_type, sid_count) = devices[i];
        if dev_type >= 4 || sid_count > 8 {
            proof {
                assert(!((devices@[i as int]).0 < 4 && devices@[i as int].1 <= 8));
            }
            return false;
        }
        proof {
            assert forall|t: u8| t < 4 implies type_count(chips_of(devices@, i + 1), t) == type_count(
                chips_of(devices@, i as int),
                t,
            ) + if dev_type == t { sid_count as int } else { 0 } by {
                lemma_type_count_device(chips_of(devices@, i as int), dev_type, i as u8, sid_count as int, t);
            }
        }
        counts.set(dev_type as usize, counts[dev_type as usize] + sid_count as u32);
        i = i + 1;
    }
    let mut t: usize = 0;
    while t < 4
        invariant
            t <= 4,
            i == devices.len(),
            forall|k: int| 0 <= k < devices.len() ==> (#[trigger] devices@[k]).0 < 4 && devices@[k].1 <= 8,
            forall|u: u8| u < 4 ==> counts@[u as int] == type_count(chips_of(devices@, devices.len() as int), u),
            forall|u: u8| u < t ==> counts@[u as int] <= 255,
        decreases 4 - t,
    {
        if counts[t] > 255 {
            proof {
                assert(type_count(chips_of(devices@, devices.len() as int), t as u8) > 255);
            }
            return false;
        }
        t = t + 1;
    }
    proof {
        assert forall|u: u8| u < 4 implies type_count(chips_of(devices@, devices.len() as int), u) <= 255 by {
            assert(counts@[u as int] <= 255);
        }
    }
    true
}

/// Lays out the chips of the HardSID devices found; an error when none was
/// found.
pub fn layout_of_devices(devices: &Vec<(u8, u8)>) -> (r: Result<HardsidLayout, String>)
    requires
        devices_fit(devices@),
    ensures
        devices.len() == 0 ==> r is Err && r->Err_0@ == ERROR_MSG_NO_HARDSID_FOUND@,
        devices.len() > 0 ==> (r matches Ok(l) && l.chips@ == chips_of(devices@, devices.len() as int)
            && l.device_mappings@ == l.chips@.map_values(|c: HardsidChip| (c.base_reg / 0x20) as i32)
            && l.device_init_done@ == Seq::new(l.chips@.len(), |i: int| false) && l.prev_uplay_dev_nr == 0),
{
    if devices.len() == 0 {
        Err(String::from_str(ERROR_MSG_NO_HARDSID_FOUND))
    } else {
        Ok(HardsidLayout::from_devices(devices))
    }
}

proof fn lemma_type_count_prefix(chips: Seq<HardsidChip>, k: int, t: u8)
    requires
        0 <= k <= chips.len(),
    ensures
        type_count(chips.take(k), t) <= type_count(chips, t),
    decreases chips.len() - k,
{
    if k < chips.len() {
        lemma_type_count_prefix(chips, k + 1, t);
        assert(chips.take(k + 1).drop_last() =~= chips.take(k));
    } else {
        assert(chips.take(k) =~= chips);
    }
}

proof fn lemma_chips_prefix(devices: Seq<(u8, u8)>, n: int, m: int)
    requires
        0 <= n <= m,
    ensures
        chips_of(devices, m).take(chips_of(devices, n).len() as int) == chips_of(devices, n),
        chips_of(devices, n).len() <= chips_of(devices, m).len(),
    decreases m - n,
{
    if n < m {
        lemma_chips_prefix(devices, n, m - 1);
        let a = chips_of(devices, n);
        let b = chips_of(devices, m - 1);
        assert(chips_of(devices, m).take(b.len() as int) =~= b);
        assert(chips_of(devices, m).take(a.len() as int) =~= b.take(a.len() as int));
    } else {
        assert(chips_of(devices, m).take(chips_of(devices, n).len() as int) =~= chips_of(devices, m));
    }
}

/// The SID chips of the connected HardSID devices, with the device each
/// SID chip of the tune is mapped to.
pub struct HardsidLayout {
    pub chips: Vec<HardsidChip>,
    pub device_mappings: Vec<i32>,
    pub device_init_done: Vec<bool>,
    /// The UPlay chip whose relay was switched to last.
    pub prev_uplay_dev_nr: i32,
}

impl HardsidLayout {
    pub open spec fn wf(&self) -> bool {
        &&& self.device_mappings.len() == self.chips.len()
        &&& self.device_init_done.len() == self.chips.len()
        &&& forall|i: int| 0 <= i < self.device_mappings.len() ==> 0 <= #[trigger] self.device_mappings[i] < self.chips.len()
    }

    /// Numbers the chips of the devices found, device by device: each chip
    /// first mapped to its own position within its device, none of them
    /// activated yet.
    pub fn from_devices(devices: &Vec<(u8, u8)>) -> (r: HardsidLayout)
        requires
            devices_fit(devices@),
        ensures
            r.chips@ == chips_of(devices@, devices.len() as int),
            r.device_mappings@ == r.chips@.map_values(|c: HardsidChip| (c.base_reg / 0x20) as i32),
            r.device_init_done@ == Seq::new(r.chips@.len(), |i: int| false),
            r.prev_uplay_dev_nr == 0,
    {
        let ghost all = chips_of(devices@, devices.len() as int);
        let mut chips: Vec<HardsidChip> = Vec::new();
        let mut device_mappings: Vec<i32> = Vec::new();
        let mut device_init_done: Vec<bool> = Vec::new();
        let mut dev_type_count: [u8; 4] = [0u8; 4];
        let mut i: usize = 0;
        proof {
            assert forall|t: u8| t < 4 implies dev_type_count@[t as int] == type_count(chips@, t) by {}
        }
        while i < devices.len()
            invariant
                i <= devices.len(),
                devices_fit(devices@),
                all == chips_of(devices@, devices.len() as int),
                chips@ == chips_of(devices@, i as int),
                device_mappings@ == chips@.map_values(|c: HardsidChip| (c.base_reg / 0x20) as i32),
                device_init_done@ == Seq::new(chips@.len(), |k: int| false),
                forall|t: u8| t < 4 ==> dev_type_count@[t as int] == type_count(chips@, t),
            decreases devices.len() - i,
        {
            let (dev_type, dev_sid_count) = devices[i];
            let ghost before = chips@;
            proof {
                lemma_chips_prefix(devices@, i + 1, devices.len() as int);
                assert(chips_of(devices@, i + 1) == before + chips_of_device(before, dev_type, i as u8, dev_sid_count as int));
            }
            let mut j: u8 = 0;
            while j < dev_sid_count
                invariant
                    i < devices.len(),
                    devices_fit(devices@),
                    all == chips_of(devices@, devices.len() as int),
                    (dev_type, dev_sid_count) == devices@[i as int],
                    dev_type < 4,
                    dev_sid_count <= 8,
                    j <= dev_sid_count,
                    chips_of(devices@, i + 1) == before + chips_of_device(before, dev_type, i as u8, dev_sid_count as int),
                    all.take(chips_of(devices@, i + 1).len() as int) == chips_of(devices@, i + 1),
                    chips_of(devices@, i + 1).len() <= all.len(),
                    chips_of(devices@, i + 1).len() == before.len() + dev_sid_count,
                    forall|t: u8| t < 4 ==> type_count(all, t) <= 255,
                    chips@ == before + chips_of_device(before, dev_type, i as u8, dev_sid_count as int).take(j as int),
                    device_mappings@ == chips@.map_values(|c: HardsidChip| (c.base_reg / 0x20) as i32),
                    device_init_done@ == Seq::new(chips@.len(), |k: int| false),
                    forall|t: u8| t < 4 ==> dev_type_count@[t as int] == type_count(chips@, t),
                    dev_type_count@[dev_type as int] == type_count(before, dev_type) + j,
                decreases dev_sid_count - j,
            {
                let ghost cur = chips@;
                proof {
                    let k = before.len() + j;
                    assert(chips_of(devices@, i + 1)[k] == chips_of_device(before, dev_type, i as u8, dev_sid_count as int)[j as int]);
                    assert(all.take(chips_of(devices@, i + 1).len() as int)[k] == all[k]);
                    assert(all[k] == chips_of(devices@, i + 1)[k]);
                    lemma_type_count_prefix(all, k + 1, dev_type);
                    assert(all.take(k) =~= cur);
                    assert(all.take(k + 1) =~= cur.push(all[k]));
                    lemma_type_count_push(cur, all[k], dev_type);
                }
                let index = dev_type_count[dev_type as usize];
                let chip = HardsidChip { device_type: dev_type, device_id: i as u8, device_index: index, base_reg: j * 0x20 };
                chips.push(chip);
                device_mappings.push(j as i32);
                device_init_done.push(false);
                dev_type_count[dev_type as usize] = index + 1;
                proof {
                    assert(chips_of_device(before, dev_type, i as u8, dev_sid_count as int).take(j + 1) =~= chips_of_device(
                        before,
                        dev_type,
                        i as u8,
                        dev_sid_count as int,
                    ).take(j as int).push(chip));
                    assert(device_mappings@ =~= chips@.map_values(|c: HardsidChip| (c.base_reg / 0x20) as i32));
                    assert(device_init_done@ =~= Seq::new(chips@.len(), |k: int| false));
                    assert forall|t: u8| t < 4 implies dev_type_count@[t as int] == type_count(chips@, t) by {
                        lemma_type_count_push(cur, chip, t);
                    }
                }
                j = j + 1;
            }
            proof {
                assert(chips_of_device(before, dev_type, i as u8, dev_sid_count as int).take(dev_sid_count as int) =~= chips_of_device(
                    before,
                    dev_type,
                    i as u8,
                    dev_sid_count as int,
                ));
            }
            i = i + 1;
        }
        HardsidLayout { chips, device_mappings, device_init_done, prev_uplay_dev_nr: 0 }
    }

    /// The name of chip `dev_nr`.
    pub fn get_device_info(&self, dev_nr: i32) -> (r: String)
        requires
            0 <= dev_nr < self.chips.len(),
            self.chips[dev_nr as int].device_index < 255,
        ensures
            r@ == chip_name(self.chips[dev_nr as int]),
    {
        let chip = self.chips[dev_nr as usize];
        let mut name = if chip.device_type == DEV_TYPE_HS_4U {
            String::from_str("HardSID 4U ")
        } else if chip.device_type == DEV_TYPE_HS_UPLAY {
            String::from_str("HS UPlay ")
        } else if chip.device_type == DEV_TYPE_HS_UNO {
            String::from_str("HardSID Uno ")
        } else {
            String::from_str("Unknown HS ")
        };
        push_decimal(&mut name, (chip.device_index + 1) as u64);
        name
    }

    /// Two chips play one tune together only when they are different chips
    /// of one HardSID 4U.
    pub fn can_pair_devices(&self, dev1: i32, dev2: i32) -> (r: bool)
        requires
            0 <= dev1 < self.chips.len(),
            0 <= dev2 < self.chips.len(),
        ensures
            r == (dev1 != dev2 && self.chips[dev1 as int].device_id == self.chips[dev2 as int].device_id
                && self.chips[dev1 as int].device_type == DEV_TYPE_HS_4U),
    {
        dev1 != dev2 && self.chips[dev1 as usize].device_id == self.chips[dev2 as usize].device_id
            && self.chips[dev1 as usize].device_type == DEV_TYPE_HS_4U
    }
}

/// Only a HardSID 4U plays several SID chips at once.
pub open spec fn supports_multiple_chips(layout: HardsidLayout, dev_nr: i32) -> bool {
    layout.chips@[dev_nr as int].device_type == DEV_TYPE_HS_4U
}

/// A register of another SID chip than the first goes to the dummy
/// register on a device that plays one chip at a time.
pub open spec fn spec_filter_reg(layout: HardsidLayout, number_of_sids: i32, dev_nr: i32, reg: u8) -> u8 {
    if number_of_sids > 1 && !supports_multiple_chips(layout, dev_nr) && reg >= 0x20 {
        DUMMY_REG
    } else {
        reg
    }
}

/// The chip a register goes to: the chip mapped to the tune's SID chip
/// that the register's bits 5 to 7 select, or the first chip's.
pub open spec fn spec_map_reg_to_device(layout: HardsidLayout, number_of_sids: i32, sid_count: i32, reg: u8) -> i32 {
    let sid_nr = reg / 32;
    if number_of_sids > 1 && sid_nr < (sid_count as u8) {
        layout.device_mappings@[sid_nr as int]
    } else {
        layout.device_mappings@[0]
    }
}

/// The register a write of `reg` for chip `dev_nr` goes to on the device.
pub open spec fn spec_map_device_to_reg(layout: HardsidLayout, number_of_sids: i32, sid_count: i32, dev_nr: i32, reg: u8) -> u8 {
    let r = spec_filter_reg(layout, number_of_sids, dev_nr, reg);
    let d = spec_map_reg_to_device(layout, number_of_sids, sid_count, r);
    ((r % 32) + layout.chips@[d as int].base_reg) as u8
}

/// Chip bases are multiples of 0x20.
pub open spec fn bases_aligned(layout: HardsidLayout) -> bool {
    forall|i: int| 0 <= i < layout.chips.len() ==> (#[trigger] layout.chips@[i]).base_reg % 32 == 0
}

impl HardsidLayout {
    pub fn filter_reg_for_unsupported_writes(&self, number_of_sids: i32, dev_nr: i32, reg: u8) -> (r: u8)
        requires
            0 <= dev_nr < self.chips.len(),
        ensures
            r == spec_filter_reg(*self, number_of_sids, dev_nr, reg),
    {
        if number_of_sids > 1 && self.chips[dev_nr as usize].device_type != DEV_TYPE_HS_4U && reg >= 0x20 {
            DUMMY_REG
        } else {
            reg
        }
    }

    pub fn map_reg_to_device(&self, number_of_sids: i32, sid_count: i32, reg: u8) -> (r: i32)
        requires
            self.wf(),
            self.device_mappings.len() > 0,
            number_of_sids > 1 ==> (sid_count as u8) <= self.device_mappings.len(),
        ensures
            r == spec_map_reg_to_device(*self, number_of_sids, sid_count, reg),
            0 <= r < self.chips.len(),
    {
        let sid_nr = reg >> 5;
        proof {
            assert(reg >> 5 == reg / 32) by (bit_vector);
        }
        if number_of_sids > 1 && sid_nr < (sid_count as u8) {
            self.device_mappings[sid_nr as usize]
        } else {
            self.device_mappings[0]
        }
    }

    /// Where a write of `reg` for chip `dev_nr` lands on the device.
    pub fn map_device_to_reg(&self, number_of_sids: i32, sid_count: i32, dev_nr: i32, reg: u8) -> (r: u8)
        requires
            self.wf(),
            self.device_mappings.len() > 0,
            number_of_sids > 1 ==> (sid_count as u8) <= self.device_mappings.len(),
            0 <= dev_nr < self.chips.len(),
            bases_aligned(*self),
        ensures
            r == spec_map_device_to_reg(*self, number_of_sids, sid_count, dev_nr, reg),
    {
        let reg = self.filter_reg_for_unsupported_writes(number_of_sids, dev_nr, reg);
        let mapped_dev_nr = self.map_reg_to_device(number_of_sids, sid_count, reg);
        let base_reg = self.chips[mapped_dev_nr as usize].base_reg;
        proof {
            assert(base_reg % 32 == 0);
            assert((reg & 0x1f) == reg % 32) by (bit_vector);
            assert(base_reg % 32 == 0 ==> (reg & 0x1f) | base_reg == (reg % 32) + base_reg) by (bit_vector);
        }
        (reg & 0x1f) | base_reg
    }
}

/// `k` is the first chip of physical device `id`.
pub open spec fn is_first_chip(chips: Seq<HardsidChip>, id: u8, k: int) -> bool {
    &&& 0 <= k < chips.len()
    &&& chips[k].device_id == id
    &&& forall|j: int| 0 <= j < k ==> (#[trigger] chips[j]).device_id != id
}

/// `k` is the last chip of physical device `id`.
pub open spec fn is_last_chip(chips: Seq<HardsidChip>, id: u8, k: int) -> bool {
    &&& 0 <= k < chips.len()
    &&& chips[k].device_id == id
    &&& forall|j: int| k < j < chips.len() ==> (#[trigger] chips[j]).device_id != id
}

pub open spec fn first_chip(chips: Seq<HardsidChip>, id: u8) -> int {
    choose|k: int| is_first_chip(chips, id, k)
}

pub open spec fn last_chip(chips: Seq<HardsidChip>, id: u8) -> int {
    choose|k: int| is_last_chip(chips, id, k)
}

/// The chip that SID chip `sid_socket` of a tune played from chip `dev_nr`
/// goes to: `sid_socket` chips further on, where counting past the last
/// chip of the physical device of `dev_nr` goes on from its first chip.
pub open spec fn socket_chip(chips: Seq<HardsidChip>, dev_nr: int, sid_socket: int) -> int {
    let id = chips[dev_nr].device_id;
    let start = first_chip(chips, id);
    let end = last_chip(chips, id);
    if dev_nr + sid_socket > end {
        dev_nr + sid_socket - end + start - 1
    } else {
        dev_nr + sid_socket
    }
}

/// The chips, by number and base register, of physical device `id` among
/// the first `n` chips.
pub open spec fn device_chips(chips: Seq<HardsidChip>, id: u8, n: int) -> Seq<(i32, u8)>
    decreases n,
{
    if n <= 0 {
        Seq::empty()
    } else {
        let rest = device_chips(chips, id, n - 1);
        if chips[n - 1].device_id == id {
            rest.push(((n - 1) as i32, chips[n - 1].base_reg))
        } else {
            rest
        }
    }
}

/// What silencing or resetting all SID chips of chip `dev_nr` addresses:
/// on a HardSID 4U each chip of its physical device at its own base,
/// elsewhere chip `dev_nr` alone.
pub open spec fn spec_all_targets(chips: Seq<HardsidChip>, dev_nr: int) -> Seq<(i32, u8)> {
    if chips[dev_nr].device_type == DEV_TYPE_HS_4U {
        device_chips(chips, chips[dev_nr].device_id, chips.len() as int)
    } else {
        seq![(dev_nr as i32, chips[dev_nr].base_reg)]
    }
}

/// What silencing or resetting the tune's `count` SID chips addresses: on
/// a HardSID 4U chip `dev_nr` once per SID chip of the tune, at the base of
/// the chip that SID chip is mapped to; elsewhere chip `dev_nr` alone.
pub open spec fn spec_active_targets(layout: HardsidLayout, dev_nr: int, count: int) -> Seq<(i32, u8)> {
    if layout.chips@[dev_nr].device_type == DEV_TYPE_HS_4U {
        Seq::new(count as nat, |k: int| (dev_nr as i32, layout.chips@[layout.device_mappings@[k] as int].base_reg))
    } else {
        seq![(dev_nr as i32, layout.chips@[dev_nr].base_reg)]
    }
}

impl HardsidLayout {
    /// The first and the last chip of the physical device of chip `dev_nr`.
    fn physical_range(&self, dev_nr: i32) -> (r: (i32, i32))
        requires
            0 <= dev_nr < self.chips.len(),
            self.chips.len() < 0x4000_0000,
        ensures
            r.0 == first_chip(self.chips@, self.chips@[dev_nr as int].device_id),
            r.1 == last_chip(self.chips@, self.chips@[dev_nr as int].device_id),
            0 <= r.0 <= dev_nr <= r.1 < self.chips.len(),
    {
        let id = self.chips[dev_nr as usize].device_id;
        let mut start: usize = 0;
        while self.chips[start].device_id != id
            invariant
                start <= dev_nr < self.chips.len(),
                id == self.chips@[dev_nr as int].device_id,
                forall|j: int| 0 <= j < start ==> (#[trigger] self.chips@[j]).device_id != id,
            decreases dev_nr - start,
        {
            start = start + 1;
        }
        let mut end: usize = self.chips.len() - 1;
        while self.chips[end].device_id != id
            invariant
                0 <= dev_nr <= end < self.chips.len(),
                id == self.chips@[dev_nr as int].device_id,
                forall|j: int| end < j < self.chips.len() ==> (#[trigger] self.chips@[j]).device_id != id,
            decreases end - dev_nr,
        {
            end = end - 1;
        }
        proof {
            let chips = self.chips@;
            assert(is_first_chip(chips, id, start as int));
            assert(is_last_chip(chips, id, end as int));
            let s = first_chip(chips, id);
            let e = last_chip(chips, id);
            if s < start {
                assert(chips[s].device_id != id);
            }
            if start < s {
                assert(chips[start as int].device_id != id);
            }
            if e < end {
                assert(chips[end as int].device_id != id);
            }
            if end < e {
                assert(chips[e].device_id != id);
            }
        }
        (start as i32, end as i32)
    }

    /// The chip that SID chip `sid_socket` of a tune played from chip
    /// `dev_nr` goes to.
    pub fn socket_chip_of(&self, dev_nr: i32, sid_socket: i32) -> (r: i32)
        requires
            0 <= dev_nr < self.chips.len(),
            0 <= sid_socket < self.chips.len(),
            self.chips.len() < 0x4000_0000,
        ensures
            r == socket_chip(self.chips@, dev_nr as int, sid_socket as int),
            0 <= r,
    {
        let (start, end) = self.physical_range(dev_nr);
        let new_dev_nr = dev_nr + sid_socket;
        if new_dev_nr > end {
            new_dev_nr - end + start - 1
        } else {
            new_dev_nr
        }
    }

    /// Maps SID chip `sid_socket` of the tune to its chip (`socket_chip`)
    /// and says whether that chip must then be activated: when the mapping
    /// changed, or the chip was never activated. A socket beyond the chips
    /// changes nothing.
    pub fn set_sid_model(&mut self, dev_nr: i32, sid_socket: i32) -> (activate: bool)
        requires
            old(self).wf(),
            old(self).chips.len() < 0x4000_0000,
            0 <= dev_nr < old(self).chips.len(),
            0 <= sid_socket,
            sid_socket < old(self).chips.len() ==> socket_chip(old(self).chips@, dev_nr as int, sid_socket as int)
                < old(self).chips.len(),
        ensures
            final(self).wf(),
            sid_socket >= old(self).chips.len() ==> !activate && *final(self) == *old(self),
            final(self).chips@ == old(self).chips@,
            final(self).device_init_done@ == old(self).device_init_done@,
            final(self).prev_uplay_dev_nr == old(self).prev_uplay_dev_nr,
            sid_socket < old(self).chips.len() ==> final(self).device_mappings@ == old(self).device_mappings@.update(
                sid_socket as int,
                socket_chip(old(self).chips@, dev_nr as int, sid_socket as int) as i32,
            ),
            sid_socket < old(self).chips.len() ==> activate == (old(self).device_mappings@[sid_socket as int]
                != socket_chip(old(self).chips@, dev_nr as int, sid_socket as int) || !old(self).device_init_done@[socket_chip(
                old(self).chips@,
                dev_nr as int,
                sid_socket as int,
            )]),
    {
        if sid_socket as usize >= self.chips.len() {
            return false;
        }
        let new_dev_nr = self.socket_chip_of(dev_nr, sid_socket);
        let old_dev_nr = self.device_mappings[sid_socket as usize];
        self.device_mappings.set(sid_socket as usize, new_dev_nr);
        old_dev_nr != new_dev_nr || !self.device_init_done[new_dev_nr as usize]
    }

    /// Whether chip `dev_nr` is a UPlay whose relay must switch to it:
    /// one never activated, or not the UPlay chip switched to last. It is
    /// then recorded as activated and as the one switched to last.
    pub fn activate_uplay(&mut self, dev_nr: i32) -> (switch: bool)
        requires
            old(self).wf(),
            0 <= dev_nr < old(self).chips.len(),
        ensures
            final(self).wf(),
            switch == (old(self).chips@[dev_nr as int].device_type == DEV_TYPE_HS_UPLAY && !(
            old(self).device_init_done@[dev_nr as int] && old(self).prev_uplay_dev_nr == dev_nr)),
            !switch ==> *final(self) == *old(self),
            switch ==> final(self).prev_uplay_dev_nr == dev_nr,
            switch ==> final(self).device_init_done@ == old(self).device_init_done@.update(dev_nr as int, true),
            final(self).chips@ == old(self).chips@,
            final(self).device_mappings@ == old(self).device_mappings@,
    {
        if self.chips[dev_nr as usize].device_type != DEV_TYPE_HS_UPLAY {
            return false;
        }
        if self.device_init_done[dev_nr as usize] && self.prev_uplay_dev_nr == dev_nr {
            return false;
        }
        self.prev_uplay_dev_nr = dev_nr;
        self.device_init_done.set(dev_nr as usize, true);
        true
    }

    /// The chips, with their base registers, that silencing or resetting
    /// all SID chips of chip `dev_nr` addresses.
    pub fn all_targets(&self, dev_nr: i32) -> (r: Vec<(i32, u8)>)
        requires
            0 <= dev_nr < self.chips.len(),
            self.chips.len() < 0x8000_0000,
        ensures
            r@ == spec_all_targets(self.chips@, dev_nr as int),
    {
        let chip = self.chips[dev_nr as usize];
        let mut r: Vec<(i32, u8)> = Vec::new();
        if chip.device_type != DEV_TYPE_HS_4U {
            r.push((dev_nr, chip.base_reg));
            proof {
                assert(r@ =~= seq![(dev_nr, chip.base_reg)]);
            }
            return r;
        }
        let mut i: usize = 0;
        while i < self.chips.len()
            invariant
                i <= self.chips.len() < 0x8000_0000,
                r@ == device_chips(self.chips@, chip.device_id, i as int),
            decreases self.chips.len() - i,
        {
            if self.chips[i].device_id == chip.device_id {
                r.push((i as i32, self.chips[i].base_reg));
            }
            i = i + 1;
        }
        r
    }

    /// The chips, with their base registers, that silencing or resetting
    /// the tune's `number_of_sids` SID chips addresses.
    pub fn active_targets(&self, dev_nr: i32, number_of_sids: i32) -> (r: Vec<(i32, u8)>)
        requires
            self.wf(),
            0 <= dev_nr < self.chips.len(),
            self.chips@[dev_nr as int].device_type == DEV_TYPE_HS_4U ==> (number_of_sids as u8)
                <= self.device_mappings.len(),
        ensures
            r@ == spec_active_targets(*self, dev_nr as int, (number_of_sids as u8) as int),
    {
        let chip = self.chips[dev_nr as usize];
        let mut r: Vec<(i32, u8)> = Vec::new();
        if chip.device_type != DEV_TYPE_HS_4U {
            r.push((dev_nr, chip.base_reg));
            proof {
                assert(r@ =~= seq![(dev_nr, chip.base_reg)]);
            }
            return r;
        }
        let count = number_of_sids as u8;
        let mut k: u8 = 0;
        while k < count
            invariant
                self.wf(),
                k <= count <= self.device_mappings.len(),
                count == (number_of_sids as u8),
                0 <= dev_nr < self.chips.len(),
                r@ == Seq::new(k as nat, |j: int| (dev_nr, self.chips@[self.device_mappings@[j] as int].base_reg)),
            decreases count - k,
        {
            let mapped = self.device_mappings[k as usize];
            r.push((dev_nr, self.chips[mapped as usize].base_reg));
            proof {
                assert(r@ =~= Seq::new((k + 1) as nat, |j: int| (dev_nr, self.chips@[self.device_mappings@[j] as int].base_reg)));
            }
            k = k + 1;
        }
        r
    }
}

/// Entries queued for the device, and the cycles the queue still owes the
/// tune because a delay had to be lengthened to the device's minimum.
pub struct DelayQueue {
    pub sid_write_fifo: VecDeque<SidWrite>,
    pub cycles_to_compensate: u32,
}

pub open spec fn delay_entry(cycles: int) -> SidWrite {
    SidWrite { command: DeviceCommand::Delay, reg: 0, data: 0, cycles: cycles as u16 }
}

/// The sum of the delays in `entries`.
pub open spec fn delay_total(entries: Seq<SidWrite>) -> int
    decreases entries.len(),
{
    if entries.len() == 0 {
        0
    } else {
        delay_total(entries.drop_last()) + if entries.last().command == DeviceCommand::Delay {
            entries.last().cycles as int
        } else {
            0
        }
    }
}

/// The delay `create_delay` asks for after paying back what is owed: the
/// debt comes off a long enough delay; a short one is cut to the minimum and
/// what it gives up is taken off the debt.
pub open spec fn paid_delay(cycles: int, owed: int) -> (int, int) {
    if cycles > HS_MIN_CYCLE_SID_WRITE {
        if cycles > owed + HS_MIN_CYCLE_SID_WRITE {
            (cycles - owed, 0)
        } else {
            (HS_MIN_CYCLE_SID_WRITE as int, owed - (cycles - HS_MIN_CYCLE_SID_WRITE))
        }
    } else {
        (cycles, owed)
    }
}

/// A delay above 0xffff whose remainder would be too short first gives
/// off 100 cycles.
pub open spec fn splits_first(cycles: int) -> bool {
    cycles > 0xffff && cycles % 0xffff < MINIMUM_CYCLES
}

pub open spec fn after_first(cycles: int) -> int {
    if splits_first(cycles) {
        cycles - MINIMUM_CYCLES
    } else {
        cycles
    }
}

/// How many full pieces of 0xffff follow.
pub open spec fn full_pieces(cycles: int) -> int {
    if after_first(cycles) > 0xffff {
        (after_first(cycles) - 1) / 0xffff
    } else {
        0
    }
}

/// What is left for the last piece.
pub open spec fn last_piece(cycles: int) -> int {
    after_first(cycles) - full_pieces(cycles) * 0xffff
}

/// The delay entries for `cycles` (after the debt is paid): a first piece
/// of 100 when the rest would be too short, pieces of 0xffff, and a last
/// piece of at least the device's minimum.
pub open spec fn delay_entries(cycles: int) -> Seq<SidWrite> {
    (if splits_first(cycles) { seq![delay_entry(MINIMUM_CYCLES as int)] } else { seq![] }) + Seq::new(
        full_pieces(cycles) as nat,
        |i: int| delay_entry(0xffff),
    ) + seq![
        delay_entry(if last_piece(cycles) >= HS_MIN_CYCLE_SID_WRITE { last_piece(cycles) } else { HS_MIN_CYCLE_SID_WRITE as int }),
    ]
}

impl DelayQueue {
    pub fn new() -> (r: DelayQueue)
        ensures
            r.sid_write_fifo@.len() == 0,
            r.cycles_to_compensate == 0,
    {
        DelayQueue { sid_write_fifo: VecDeque::new(), cycles_to_compensate: 0 }
    }

    /// Queues a write of `data` to `reg`.
    pub fn push_write(&mut self, reg: u8, data: u8)
        ensures
            final(self).sid_write_fifo@ == old(self).sid_write_fifo@.push(
                SidWrite { command: DeviceCommand::Write, reg, data, cycles: 0 },
            ),
            final(self).cycles_to_compensate == old(self).cycles_to_compensate,
    {
        self.sid_write_fifo.push_back(SidWrite::new(DeviceCommand::Write, reg, data, 0));
    }

    /// Queues the delays that make up `cycles`, paying back first what
    /// earlier minimum delays took too much; a delay below the minimum is
    /// lengthened and the difference owed. Delay time is conserved: the
    /// queued delays less the new debt are the old ones plus `cycles` less
    /// the old debt. Each queued delay lies in [4, 0xffff]; a delay that fits
    /// 0xffff is one chunk; a long one has no chunk below 100.
    pub fn create_delay(&mut self, cycles: u32)
        requires
            cycles > HS_MIN_CYCLE_SID_WRITE ==> old(self).cycles_to_compensate + HS_MIN_CYCLE_SID_WRITE <= u32::MAX,
            cycles < HS_MIN_CYCLE_SID_WRITE ==> old(self).cycles_to_compensate + (HS_MIN_CYCLE_SID_WRITE - cycles)
                <= u32::MAX,
        ensures
            ({
                let (c, owed) = paid_delay(cycles as int, old(self).cycles_to_compensate as int);
                &&& final(self).sid_write_fifo@ == old(self).sid_write_fifo@ + delay_entries(c)
                &&& final(self).cycles_to_compensate == if last_piece(c) >= HS_MIN_CYCLE_SID_WRITE {
                    owed
                } else {
                    owed + (HS_MIN_CYCLE_SID_WRITE - last_piece(c))
                }
            }),
            delay_total(final(self).sid_write_fifo@) - final(self).cycles_to_compensate == delay_total(
                old(self).sid_write_fifo@,
            ) + cycles - old(self).cycles_to_compensate,
            forall|i: int|
                old(self).sid_write_fifo@.len() <= i < final(self).sid_write_fifo@.len() ==> (
                #[trigger] final(self).sid_write_fifo@[i]).command == DeviceCommand::Delay && HS_MIN_CYCLE_SID_WRITE
                    <= final(self).sid_write_fifo@[i].cycles <= 0xffff,
            cycles <= 0xffff ==> final(self).sid_write_fifo@.len() == old(self).sid_write_fifo@.len() + 1,
            cycles > old(self).cycles_to_compensate + 0xffff ==> forall|i: int|
                old(self).sid_write_fifo@.len() <= i < final(self).sid_write_fifo@.len() ==> (
                #[trigger] final(self).sid_write_fifo@[i]).cycles >= MINIMUM_CYCLES,
    {
        let ghost cycles_in = cycles;
        let mut cycles = cycles;
        let ghost old_fifo = self.sid_write_fifo@;
        if cycles > HS_MIN_CYCLE_SID_WRITE {
            if cycles > self.cycles_to_compensate + HS_MIN_CYCLE_SID_WRITE {
                cycles = cycles - self.cycles_to_compensate;
                self.cycles_to_compensate = 0;
            } else {
                self.cycles_to_compensate = self.cycles_to_compensate - (cycles - HS_MIN_CYCLE_SID_WRITE);
                cycles = HS_MIN_CYCLE_SID_WRITE;
            }
        }
        let ghost c = cycles as int;
        let ghost owed = self.cycles_to_compensate;
        proof {
            assert(c > HS_MIN_CYCLE_SID_WRITE ==> owed == 0);
            assert(c < HS_MIN_CYCLE_SID_WRITE ==> owed + (HS_MIN_CYCLE_SID_WRITE - c) <= u32::MAX);
        }
        if cycles > 0xffff {
            if cycles % 0xffff < MINIMUM_CYCLES {
                self.sid_write_fifo.push_back(SidWrite::new(DeviceCommand::Delay, 0, 0, MINIMUM_CYCLES as u16));
                cycles = cycles - MINIMUM_CYCLES;
            }
        }
        let ghost first: Seq<SidWrite> = if splits_first(c) { seq![delay_entry(MINIMUM_CYCLES as int)] } else { seq![] };
        let ghost full = full_pieces(c);
        proof {
            assert(self.sid_write_fifo@ =~= old_fifo + first);
            assert(cycles == after_first(c));
            if after_first(c) > 0xffff {
                assert(after_first(c) - full * 0xffff <= 0xffff && after_first(c) - full * 0xffff > 0) by (nonlinear_arith)
                    requires
                        full == (after_first(c) - 1) / 0xffff,
                        after_first(c) > 0xffff,
                ;
            }
        }
        let ghost mut done: int = 0;
        while cycles > 0xffff
            invariant
                0 <= done <= full,
                full == full_pieces(c),
                cycles as int == after_first(c) - done * 0xffff,
                after_first(c) > 0xffff ==> after_first(c) - full * 0xffff <= 0xffff && after_first(c) - full * 0xffff > 0,
                after_first(c) <= 0xffff ==> full == 0,
                self.sid_write_fifo@ == old_fifo + first + Seq::new(done as nat, |i: int| delay_entry(0xffff)),
                self.cycles_to_compensate == owed,
            decreases cycles,
        {
            self.sid_write_fifo.push_back(SidWrite::new(DeviceCommand::Delay, 0, 0, 0xffff));
            cycles = cycles - 0xffff;
            proof {
                assert(done < full) by (nonlinear_arith)
                    requires
                        after_first(c) - done * 0xffff > 0xffff,
                        after_first(c) - full * 0xffff <= 0xffff,
                ;
                assert(Seq::new((done + 1) as nat, |i: int| delay_entry(0xffff)) =~= Seq::new(done as nat, |i: int| delay_entry(0xffff)).push(
                    delay_entry(0xffff),
                ));
                done = done + 1;
            }
        }
        proof {
            if after_first(c) > 0xffff {
                assert(done == full) by (nonlinear_arith)
                    requires
                        after_first(c) - done * 0xffff <= 0xffff,
                        after_first(c) - full * 0xffff > 0,
                        done <= full,
                ;
            }
            assert(cycles == last_piece(c));
            assert(c <= 0xffff ==> last_piece(c) == c);
        }
        if cycles >= HS_MIN_CYCLE_SID_WRITE {
            self.sid_write_fifo.push_back(SidWrite::new(DeviceCommand::Delay, 0, 0, cycles as u16));
        } else {
            self.sid_write_fifo.push_back(SidWrite::new(DeviceCommand::Delay, 0, 0, HS_MIN_CYCLE_SID_WRITE as u16));
            self.cycles_to_compensate = self.cycles_to_compensate + (HS_MIN_CYCLE_SID_WRITE - cycles);
        }
        proof {
            assert(self.sid_write_fifo@ =~= old_fifo + delay_entries(c));
            lemma_delay_total_concat(old_fifo, delay_entries(c));
            lemma_delay_conserved(cycles_in as int, old(self).cycles_to_compensate as int);
            lemma_delay_chunks(c);
            assert forall|i: int|
                old_fifo.len() <= i < self.sid_write_fifo@.len() implies #[trigger] self.sid_write_fifo@[i]
                == delay_entries(c)[i - old_fifo.len()] by {}
        }
    }
}

/// A write of `data` to `reg` after `cycles`, as the device's direct writes
/// take it.
#[derive(Copy, Clone, PartialEq, Eq, Structural, Debug)]
pub struct TimedWrite {
    pub cycles: u32,
    pub reg: u8,
    pub data: u8,
}

pub open spec fn tw(cycles: u32, reg: int, data: u8) -> TimedWrite {
    TimedWrite { cycles, reg: reg as u8, data }
}

/// The writes that cycle the test bit of one register: 0xff, 0x08, a short
/// pause on the chip's dummy register, then 0.
pub open spec fn register_reset(reg: u8) -> Seq<TimedWrite> {
    seq![
        tw(MIN_CYCLE_SID_WRITE, reg as int, 0xff),
        tw(MIN_CYCLE_SID_WRITE, reg as int, 0x08),
        tw(50, (reg / 32) * 32 + DUMMY_REG, 0),
        tw(MIN_CYCLE_SID_WRITE, reg as int, 0),
    ]
}

/// Registers cycled by a reset, relative to the chip's base.
pub open spec fn reset_offsets() -> Seq<u8> {
    seq![
        0x02u8, 0x03, 0x04, 0x05, 0x06, 0x09, 0x0a, 0x0b, 0x0c, 0x0d, 0x10, 0x11, 0x12, 0x13,
        0x14, 0x15, 0x16, 0x17, 0x19,
    ]
}

/// Registers cleared first by a reset: frequencies and control registers.
pub open spec fn reset_clear_offsets() -> Seq<u8> {
    seq![0x00u8, 0x01, 0x07, 0x08, 0x0e, 0x0f, 0x04, 0x0b, 0x12]
}

/// The writes that reset the chip at `base_reg`.
pub open spec fn spec_reset_sid(base_reg: u8) -> Seq<TimedWrite> {
    reset_clear_offsets().map_values(|o: u8| tw(MIN_CYCLE_SID_WRITE, base_reg + o, 0)) + reset_cycles(base_reg, 19)
}

/// The register resets of the first `n` reset registers of the chip at
/// `base_reg`.
pub open spec fn reset_cycles(base_reg: u8, n: int) -> Seq<TimedWrite>
    decreases n,
{
    if n <= 0 {
        seq![]
    } else {
        reset_cycles(base_reg, n - 1) + register_reset((base_reg + reset_offsets()[n - 1]) as u8)
    }
}

/// The writes that reset the SID chip whose registers start at `base_reg`.
pub fn reset_sid(base_reg: u8) -> (r: Vec<TimedWrite>)
    requires
        base_reg % 32 == 0,
        base_reg <= 0xe0,
    ensures
        r@ == spec_reset_sid(base_reg),
{
    let clear: [u8; 9] = [0x00, 0x01, 0x07, 0x08, 0x0e, 0x0f, 0x04, 0x0b, 0x12];
    let offsets: [u8; 19] = [
        0x02, 0x03, 0x04, 0x05, 0x06, 0x09, 0x0a, 0x0b, 0x0c, 0x0d, 0x10, 0x11, 0x12, 0x13, 0x14,
        0x15, 0x16, 0x17, 0x19,
    ];
    proof {
        assert(clear@ =~= reset_clear_offsets());
        assert(offsets@ =~= reset_offsets());
    }
    let mut writes: Vec<TimedWrite> = Vec::new();
    let mut i: usize = 0;
    while i < 9
        invariant
            i <= 9,
            clear@ == reset_clear_offsets(),
            base_reg <= 0xe0,
            writes@ == reset_clear_offsets().take(i as int).map_values(|o: u8| tw(MIN_CYCLE_SID_WRITE, base_reg + o, 0)),
        decreases 9 - i,
    {
        writes.push(TimedWrite { cycles: MIN_CYCLE_SID_WRITE, reg: base_reg + clear[i], data: 0 });
        proof {
            assert(reset_clear_offsets().take(i + 1).map_values(|o: u8| tw(MIN_CYCLE_SID_WRITE, base_reg + o, 0)) =~= reset_clear_offsets().take(
                i as int,
            ).map_values(|o: u8| tw(MIN_CYCLE_SID_WRITE, base_reg + o, 0)).push(tw(MIN_CYCLE_SID_WRITE, base_reg + clear@[i as int], 0)));
        }
        i = i + 1;
    }
    proof {
        assert(reset_clear_offsets().take(9) =~= reset_clear_offsets());
    }
    let ghost cleared = writes@;
    let mut k: usize = 0;
    while k < 19
        invariant
            k <= 19,
            offsets@ == reset_offsets(),
            base_reg <= 0xe0,
            base_reg % 32 == 0,
            writes@ == cleared + reset_cycles(base_reg, k as int),
        decreases 19 - k,
    {
        let reg = base_reg + offsets[k];
        let chip_base = reg & 0xe0;
        proof {
            assert(reg & 0xe0 == (reg / 32) * 32) by (bit_vector);
        }
        writes.push(TimedWrite { cycles: MIN_CYCLE_SID_WRITE, reg, data: 0xff });
        writes.push(TimedWrite { cycles: MIN_CYCLE_SID_WRITE, reg, data: 0x08 });
        writes.push(TimedWrite { cycles: 50, reg: chip_base + DUMMY_REG, data: 0 });
        writes.push(TimedWrite { cycles: MIN_CYCLE_SID_WRITE, reg, data: 0x00 });
        proof {
            assert(writes@ =~= cleared + reset_cycles(base_reg, k + 1));
        }
        k = k + 1;
    }
    writes
}

/// The integer part of the frequency scaling of `ClockAdjust`: what
/// frequencies the tune wrote, and what was last sent for each voice.
pub struct FrequencyScaler {
    pub freq: Vec<u32>,
    pub last_freq: Vec<u32>,
    pub clock: SidClock,
}

/// A frequency scaled to the device's 1 MHz clock: down for PAL, up for
/// NTSC and then capped at 0xffff.
pub open spec fn scaled(freq: u32, clock: SidClock) -> u32 {
    if clock == SidClock::Ntsc {
        let p = if freq * NTSC_FREQ_SCALE <= u32::MAX { freq * NTSC_FREQ_SCALE } else { u32::MAX as int };
        let s = p / 65536;
        if s < 0xffff { s as u32 } else { 0xffff }
    } else {
        ((freq * PAL_FREQ_SCALE) / 65536) as u32
    }
}

impl FrequencyScaler {
    pub open spec fn wf(&self) -> bool {
        &&& self.freq.len() == 24
        &&& self.last_freq.len() == 24
        &&& forall|i: int| 0 <= i < 24 ==> #[trigger] self.freq[i] <= 0xffff
    }

    pub fn new(clock: SidClock) -> (r: FrequencyScaler)
        ensures
            r.wf(),
            r.clock == clock,
            r.freq@ == Seq::new(24, |i: int| 0u32),
            r.last_freq@ == Seq::new(24, |i: int| 0u32),
    {
        let mut freq: Vec<u32> = Vec::new();
        let mut last_freq: Vec<u32> = Vec::new();
        let mut i: usize = 0;
        while i < 24
            invariant
                i <= 24,
                freq@ == Seq::new(i as nat, |k: int| 0u32),
                last_freq@ == Seq::new(i as nat, |k: int| 0u32),
            decreases 24 - i,
        {
            freq.push(0);
            last_freq.push(0);
            proof {
                assert(freq@ =~= Seq::new((i + 1) as nat, |k: int| 0u32));
                assert(last_freq@ =~= Seq::new((i + 1) as nat, |k: int| 0u32));
            }
            i = i + 1;
        }
        FrequencyScaler { freq, last_freq, clock }
    }

    /// Records a write of the low (`reg` 0) or high byte of a voice's
    /// frequency.
    pub fn update_frequency(&mut self, voice_index: u8, reg: u8, data: u8)
        requires
            old(self).wf(),
            voice_index < 24,
        ensures
            final(self).wf(),
            final(self).clock == old(self).clock,
            final(self).last_freq@ == old(self).last_freq@,
            final(self).freq@ == old(self).freq@.update(
                voice_index as int,
                if reg == 0 {
                    (old(self).freq@[voice_index as int] / 256) * 256 + data
                } else {
                    (old(self).freq@[voice_index as int] % 256) + data * 256
                } as u32,
            ),
    {
        let f = self.freq[voice_index as usize];
        let v: u32 = if reg == 0 {
            (f & 0xff00) | data as u32
        } else {
            (f & 0x00ff) | ((data as u32) << 8)
        };
        proof {
            let d = data as u32;
            assert(f <= 0xffff ==> (f & 0xff00) | d == (f / 256) * 256 + d) by (bit_vector)
                requires
                    d <= 0xff,
            ;
            assert((f & 0x00ff) | (d << 8) == (f % 256) + d * 256) by (bit_vector)
                requires
                    d <= 0xff,
            ;
        }
        self.freq.set(voice_index as usize, v);
        proof {
            assert forall|i: int| 0 <= i < 24 implies #[trigger] self.freq[i] <= 0xffff by {
                if i == voice_index as int {
                    assert(v <= 0xffff);
                }
            }
        }
    }

    /// The frequency last sent for a voice.
    pub fn get_last_scaled_freq(&self, voice_index: u8) -> (r: u32)
        requires
            self.wf(),
            voice_index < 24,
        ensures
            r == self.last_freq@[voice_index as int],
    {
        self.last_freq[voice_index as usize]
    }

    /// The voice's frequency scaled to the device clock; it becomes the
    /// frequency last sent.
    pub fn scale_frequency(&mut self, voice_index: u8) -> (r: u32)
        requires
            old(self).wf(),
            voice_index < 24,
        ensures
            final(self).wf(),
            final(self).freq@ == old(self).freq@,
            final(self).clock == old(self).clock,
            r == scaled(old(self).freq@[voice_index as int], old(self).clock),
            final(self).last_freq@ == old(self).last_freq@.update(voice_index as int, r),
    {
        let freq = self.freq[voice_index as usize];
        let scaled_freq = match self.clock {
            SidClock::Ntsc => {
                let p = if freq <= u32::MAX / NTSC_FREQ_SCALE {
                    proof {
                        assert(freq * NTSC_FREQ_SCALE <= u32::MAX) by (nonlinear_arith)
                            requires
                                freq <= u32::MAX / NTSC_FREQ_SCALE,
                        ;
                    }
                    freq * NTSC_FREQ_SCALE
                } else {
                    proof {
                        assert(freq * NTSC_FREQ_SCALE > u32::MAX) by (nonlinear_arith)
                            requires
                                freq > u32::MAX / NTSC_FREQ_SCALE,
                        ;
                    }
                    u32::MAX
                };
                let s = p >> 16;
                proof {
                    assert(p >> 16 == p / 65536) by (bit_vector);
                }
                if s < 0xffff {
                    s
                } else {
                    0xffff
                }
            },
            _ => {
                proof {
                    assert(freq * PAL_FREQ_SCALE <= u32::MAX) by (nonlinear_arith)
                        requires
                            freq <= 0xffff,
                    ;
                }
                let p = freq * PAL_FREQ_SCALE;
                let s = p >> 16;
                proof {
                    assert(p >> 16 == p / 65536) by (bit_vector);
                }
                s
            },
        };
        self.last_freq.set(voice_index as usize, scaled_freq);
        scaled_freq
    }
}


proof fn lemma_delay_total_concat(a: Seq<SidWrite>, b: Seq<SidWrite>)
    ensures
        delay_total(a + b) == delay_total(a) + delay_total(b),
    decreases b.len(),
{
    if b.len() > 0 {
        lemma_delay_total_concat(a, b.drop_last());
        assert((a + b).drop_last() =~= a + b.drop_last());
    } else {
        assert(a + b =~= a);
    }
}

proof fn lemma_delay_total_pieces(k: nat)
    ensures
        delay_total(Seq::new(k, |i: int| delay_entry(0xffff))) == k * 0xffff,
    decreases k,
{
    if k > 0 {
        lemma_delay_total_pieces((k - 1) as nat);
        assert(Seq::new(k, |i: int| delay_entry(0xffff)).drop_last() =~= Seq::new((k - 1) as nat, |i: int| delay_entry(0xffff)));
    }
}

/// Queued delays keep time: what `create_delay` queues, less what the
/// queue owes afterwards, is what was asked for less what was owed before.
/// A delay stretched to the device's minimum is paid back by later ones.
pub proof fn lemma_delay_conserved(cycles: int, owed: int)
    requires
        0 <= cycles <= u32::MAX,
        0 <= owed,
    ensures
        ({
            let (c, owed_after) = paid_delay(cycles, owed);
            let owed_final = if last_piece(c) >= HS_MIN_CYCLE_SID_WRITE {
                owed_after
            } else {
                owed_after + (HS_MIN_CYCLE_SID_WRITE - last_piece(c))
            };
            delay_total(delay_entries(c)) - owed_final == cycles - owed
        }),
{
    let (c, owed_after) = paid_delay(cycles, owed);
    let a = after_first(c);
    let full = full_pieces(c);
    let last = last_piece(c);
    if a > 0xffff {
        assert(a - full * 0xffff <= 0xffff && a - full * 0xffff > 0) by (nonlinear_arith)
            requires
                full == (a - 1) / 0xffff,
                a > 0xffff,
        ;
    }
    assert(0 <= last <= 0xffff);
    assert(full >= 0);
    let first: Seq<SidWrite> = if splits_first(c) { seq![delay_entry(MINIMUM_CYCLES as int)] } else { seq![] };
    let pieces = Seq::new(full as nat, |i: int| delay_entry(0xffff));
    let tail = seq![delay_entry(if last >= HS_MIN_CYCLE_SID_WRITE { last } else { HS_MIN_CYCLE_SID_WRITE as int })];
    lemma_delay_total_concat(first + pieces, tail);
    lemma_delay_total_concat(first, pieces);
    lemma_delay_total_pieces(full as nat);
    assert(tail.drop_last() =~= Seq::<SidWrite>::empty());
    if splits_first(c) {
        assert(first.drop_last() =~= Seq::<SidWrite>::empty());
    }
    assert(delay_entries(c) == first + pieces + tail);
    let v: int = if last >= HS_MIN_CYCLE_SID_WRITE { last } else { HS_MIN_CYCLE_SID_WRITE as int };
    assert(0 <= v <= 0xffff);
    assert(delay_entry(v).cycles as int == v);
    assert(tail.last() == delay_entry(v));
    assert(delay_total(tail) == delay_total(tail.drop_last()) + delay_entry(v).cycles);
    assert(delay_total(tail) == v);
    assert(delay_total(first) == (if splits_first(c) { MINIMUM_CYCLES as int } else { 0 }));
    assert(delay_total(delay_entries(c)) == c + if last >= HS_MIN_CYCLE_SID_WRITE { 0 } else { HS_MIN_CYCLE_SID_WRITE - last });
}


/// The delay entries for `cycles` are delays of at least the device's
/// minimum and at most 0xffff cycles; one entry when `cycles` fits in
/// 0xffff, and none shorter than 100 cycles when it does not.
pub proof fn lemma_delay_chunks(c: int)
    requires
        0 <= c <= u32::MAX,
    ensures
        forall|i: int|
            0 <= i < delay_entries(c).len() ==> (#[trigger] delay_entries(c)[i]).command == DeviceCommand::Delay
                && HS_MIN_CYCLE_SID_WRITE <= delay_entries(c)[i].cycles <= 0xffff,
        c <= 0xffff ==> delay_entries(c).len() == 1,
        c > 0xffff ==> forall|i: int|
            0 <= i < delay_entries(c).len() ==> (#[trigger] delay_entries(c)[i]).cycles >= MINIMUM_CYCLES,
{
    let a = after_first(c);
    let full = full_pieces(c);
    let last = last_piece(c);
    if a > 0xffff {
        assert(a - full * 0xffff <= 0xffff && a - full * 0xffff > 0) by (nonlinear_arith)
            requires
                full == (a - 1) / 0xffff,
                a > 0xffff,
        ;
    }
    if c > 0xffff {
        if splits_first(c) {
            assert(last >= 0xffff - MINIMUM_CYCLES) by (nonlinear_arith)
                requires
                    a == c - 100,
                    c > 0xffff,
                    c % 0xffff < 100,
                    a > 0xffff ==> full == (a - 1) / 0xffff,
                    a <= 0xffff ==> full == 0,
                    last == a - full * 0xffff,
            ;
        } else {
            assert(last >= MINIMUM_CYCLES) by (nonlinear_arith)
                requires
                    a == c,
                    c > 0xffff,
                    c % 0xffff >= 100,
                    full == (a - 1) / 0xffff,
                    last == a - full * 0xffff,
            ;
        }
    }
    let first: Seq<SidWrite> = if splits_first(c) { seq![delay_entry(MINIMUM_CYCLES as int)] } else { seq![] };
    let pieces = Seq::new(full as nat, |i: int| delay_entry(0xffff));
    let v: int = if last >= HS_MIN_CYCLE_SID_WRITE { last } else { HS_MIN_CYCLE_SID_WRITE as int };
    assert(delay_entries(c) == first + pieces + seq![delay_entry(v)]);
    assert(0 <= last <= 0xffff);
    assert forall|i: int| 0 <= i < delay_entries(c).len() implies (#[trigger] delay_entries(c)[i]).command
        == DeviceCommand::Delay && HS_MIN_CYCLE_SID_WRITE <= delay_entries(c)[i].cycles <= 0xffff && (c > 0xffff
        ==> delay_entries(c)[i].cycles >= MINIMUM_CYCLES) by {
        let e = delay_entries(c);
        if i < first.len() {
            assert(e[i] == first[i]);
        } else if i < first.len() + pieces.len() {
            assert(e[i] == pieces[i - first.len()]);
        } else {
            assert(e[i] == delay_entry(v));
        }
    }
}

/// Which voice frequency register `reg` is: the voice within its chip, the
/// chip's base register and the byte (0 low, 1 high); `None` for any other
/// register.
pub open spec fn spec_frequency_register(reg: u8) -> Option<(u8, u8, u8)> {
    let offset = reg % 32;
    if offset < 0x10 && (offset % 7 == 0 || offset % 7 == 1) {
        Some(((offset / 7) as u8, ((reg / 32) * 32) as u8, (offset % 7) as u8))
    } else {
        None
    }
}

pub fn frequency_register(reg: u8) -> (r: Option<(u8, u8, u8)>)
    ensures
        r == spec_frequency_register(reg),
{
    let reg_offset = reg & 0x1f;
    let base_reg = reg & 0xe0;
    proof {
        assert(reg & 0x1f == reg % 32) by (bit_vector);
        assert(reg & 0xe0 == (reg / 32) * 32) by (bit_vector);
    }
    if reg_offset < 0x10 {
        let voice_nr = reg_offset / 7;
        let which = reg_offset % 7;
        if which == 0 || which == 1 {
            return Some((voice_nr, base_reg, which));
        }
    }
    None
}

/// The writes that set a voice's frequency on a device with a 1 MHz clock:
/// the high byte only when it changes, then the low byte.
pub open spec fn spec_frequency_writes(voice_nr: u8, base_reg: u8, last: u32, scaled: u32) -> (Option<(u8, u8)>, (u8, u8)) {
    let voice_base = voice_nr * 7;
    let hi = if (last / 256) % 256 != (scaled / 256) % 256 {
        Some(((1 + voice_base + base_reg) as u8, ((scaled / 256) % 256) as u8))
    } else {
        None
    };
    (hi, ((voice_base + base_reg) as u8, (scaled % 256) as u8))
}

impl FrequencyScaler {
    /// Records the frequency byte the tune wrote and gives the writes the
    /// device gets instead, scaled to its clock. When the high byte is
    /// written, the caller adds the device's minimum delay before the low
    /// byte and owes it to the tune.
    pub fn frequency_writes(&mut self, voice_nr: u8, base_reg: u8, which: u8, data: u8) -> (r: (Option<(u8, u8)>, (u8, u8)))
        requires
            old(self).wf(),
            voice_nr <= 2,
            base_reg % 32 == 0,
            base_reg <= 0xe0,
        ensures
            final(self).wf(),
            ({
                let index = voice_nr + (base_reg / 32) * 3;
                &&& final(self).freq@ == old(self).freq@.update(
                    index,
                    if which == 0 {
                        (old(self).freq@[index] / 256) * 256 + data
                    } else {
                        (old(self).freq@[index] % 256) + data * 256
                    } as u32,
                )
                &&& r == spec_frequency_writes(
                    voice_nr,
                    base_reg,
                    old(self).last_freq@[index],
                    scaled(final(self).freq@[index], old(self).clock),
                )
                &&& final(self).last_freq@ == old(self).last_freq@.update(
                    index,
                    scaled(final(self).freq@[index], old(self).clock),
                )
            }),
            final(self).clock == old(self).clock,
    {
        proof {
            assert(base_reg >> 5 == base_reg / 32) by (bit_vector);
        }
        let voice_index = voice_nr + (base_reg >> 5) * 3;
        self.update_frequency(voice_index, which, data);
        let last_freq = self.get_last_scaled_freq(voice_index);
        let scaled_freq = self.scale_frequency(voice_index);
        let voice_base = voice_nr * 7;
        proof {
            assert(last_freq & 0xff00 == (last_freq / 256 % 256) * 256) by (bit_vector);
            assert(scaled_freq & 0xff00 == (scaled_freq / 256 % 256) * 256) by (bit_vector);
            assert(((scaled_freq >> 8) as u8) == ((scaled_freq / 256) % 256) as u8) by (bit_vector);
            assert(((scaled_freq & 0xff) as u8) == (scaled_freq % 256) as u8) by (bit_vector);
        }
        let update_hi_freq = last_freq & 0xff00 != scaled_freq & 0xff00;
        let hi = if update_hi_freq {
            Some((1 + voice_base + base_reg, (scaled_freq >> 8) as u8))
        } else {
            None
        };
        (hi, (voice_base + base_reg, (scaled_freq & 0xff) as u8))
    }
}

} // verus!
