//! All connected SID devices seen as one: the SID chips of every device are
//! numbered one after the other, and each call is handed to the device that
//! holds the chip, with the chip's number within that device.
use vstd::prelude::*;
use std::sync::Arc;
use std::sync::atomic::AtomicI32;
use super::sid_device::{SidDevice, SidClock, SamplingMethod, DeviceResponse};

verus! {

/// The entries of `s` whose device in the parallel `mapping` is not `d`.
pub open spec fn without_device<T>(s: Seq<T>, mapping: Seq<u8>, d: u8) -> Seq<T>
    decreases s.len(),
{
    if s.len() == 0 || mapping.len() == 0 {
        seq![]
    } else {
        let rest = without_device(s.drop_first(), mapping.drop_first(), d);
        if mapping[0] == d {
            rest
        } else {
            seq![s[0]] + rest
        }
    }
}

/// The device of one chip after device `d` is removed from the list.
pub open spec fn renumbered(m: u8, d: u8) -> u8 {
    if m > d {
        (m - 1) as u8
    } else {
        m
    }
}

/// The chip-to-device mapping after device `d` is removed.
pub open spec fn renumber(mapping: Seq<u8>, d: u8) -> Seq<u8>
    decreases mapping.len(),
{
    if mapping.len() == 0 {
        seq![]
    } else {
        let rest = renumber(mapping.drop_first(), d);
        if mapping[0] == d {
            rest
        } else {
            seq![renumbered(mapping[0], d)] + rest
        }
    }
}

pub open spec fn count_other(mapping: Seq<u8>, d: u8) -> nat
    decreases mapping.len(),
{
    if mapping.len() == 0 {
        0
    } else {
        (if mapping[0] == d {
            0nat
        } else {
            1nat
        }) + count_other(mapping.drop_first(), d)
    }
}

proof fn lemma_without_device_len<T>(s: Seq<T>, mapping: Seq<u8>, d: u8)
    requires
        s.len() == mapping.len(),
    ensures
        without_device(s, mapping, d).len() == count_other(mapping, d),
    decreases s.len(),
{
    if s.len() > 0 {
        lemma_without_device_len(s.drop_first(), mapping.drop_first(), d);
    }
}

proof fn lemma_renumber(mapping: Seq<u8>, d: u8, n: int)
    requires
        forall|i: int| 0 <= i < mapping.len() ==> (mapping[i] as int) < n,
        (d as int) < n,
    ensures
        renumber(mapping, d).len() == count_other(mapping, d),
        forall|i: int| 0 <= i < renumber(mapping, d).len() ==> (renumber(mapping, d)[i] as int) < n - 1,
    decreases mapping.len(),
{
    if mapping.len() > 0 {
        let rest = mapping.drop_first();
        assert forall|i: int| 0 <= i < rest.len() implies (rest[i] as int) < n by {
            assert(rest[i] == mapping[i + 1]);
        }
        lemma_renumber(rest, d, n);
        let r = renumber(mapping, d);
        if mapping[0] != d {
            assert forall|i: int| 0 <= i < r.len() implies (r[i] as int) < n - 1 by {
                if i > 0 {
                    assert(r[i] == renumber(rest, d)[i - 1]);
                }
            }
        }
    }
}

/// How many entries of `mapping` name device `d`.
pub open spec fn chips_of(mapping: Seq<u8>, d: u8) -> nat
    decreases mapping.len(),
{
    if mapping.len() == 0 {
        0
    } else {
        (if mapping[0] == d {
            1nat
        } else {
            0nat
        }) + chips_of(mapping.drop_first(), d)
    }
}

proof fn lemma_chips_of_concat(a: Seq<u8>, b: Seq<u8>, d: u8)
    ensures
        chips_of(a + b, d) == chips_of(a, d) + chips_of(b, d),
    decreases a.len(),
{
    if a.len() == 0 {
        assert(a + b =~= b);
    } else {
        assert((a + b).drop_first() =~= a.drop_first() + b);
        lemma_chips_of_concat(a.drop_first(), b, d);
    }
}

proof fn lemma_chips_of_repeated(x: u8, n: nat, d: u8)
    ensures
        chips_of(repeated(x, n), d) == if x == d { n } else { 0 },
    decreases n,
{
    if n > 0 {
        assert(repeated(x, n).drop_first() =~= repeated(x, (n - 1) as nat));
        lemma_chips_of_repeated(x, (n - 1) as nat, d);
    }
}

proof fn lemma_chips_of_above(mapping: Seq<u8>, d: u8)
    requires
        forall|i: int| 0 <= i < mapping.len() ==> mapping[i] < d,
    ensures
        chips_of(mapping, d) == 0,
    decreases mapping.len(),
{
    if mapping.len() > 0 {
        assert forall|i: int| 0 <= i < mapping.drop_first().len() implies mapping.drop_first()[i] < d by {
            assert(mapping.drop_first()[i] == mapping[i + 1]);
        }
        lemma_chips_of_above(mapping.drop_first(), d);
    }
}

proof fn lemma_chips_of_split(mapping: Seq<u8>, d: u8)
    ensures
        chips_of(mapping, d) + count_other(mapping, d) == mapping.len(),
    decreases mapping.len(),
{
    if mapping.len() > 0 {
        lemma_chips_of_split(mapping.drop_first(), d);
    }
}

proof fn lemma_chips_of_renumber(mapping: Seq<u8>, d: u8, e: u8)
    requires
        (e as int) + 1 < 256,
    ensures
        chips_of(renumber(mapping, d), e) == chips_of(mapping, if e < d { e } else { (e + 1) as u8 }),
    decreases mapping.len(),
{
    if mapping.len() > 0 {
        lemma_chips_of_renumber(mapping.drop_first(), d, e);
        let rest = renumber(mapping.drop_first(), d);
        if mapping[0] != d {
            assert((seq![renumbered(mapping[0], d)] + rest).drop_first() =~= rest);
        }
    }
}

/// The chips of device 0 come first, then those of device 1, and so on.
pub open spec fn numbered_in_order(mapping: Seq<u8>) -> bool {
    forall|a: int, b: int| 0 <= a < b < mapping.len() ==> #[trigger] mapping[a] <= #[trigger] mapping[b]
}

/// Entry `i` left after device `d` is removed is an entry `j` of another
/// device, with its device renumbered; later entries come from later ones.
proof fn lemma_remove_index<T>(s: Seq<T>, m: Seq<u8>, d: u8, i: int) -> (j: int)
    requires
        s.len() == m.len(),
        0 <= i < without_device(s, m, d).len(),
        i < renumber(m, d).len(),
    ensures
        i <= j < m.len(),
        m[j] != d,
        without_device(s, m, d)[i] == s[j],
        renumber(m, d)[i] == renumbered(m[j], d),
    decreases m.len(),
{
    let rs = without_device(s.drop_first(), m.drop_first(), d);
    let rm = renumber(m.drop_first(), d);
    if m[0] == d {
        let k = lemma_remove_index(s.drop_first(), m.drop_first(), d, i);
        k + 1
    } else if i == 0 {
        0
    } else {
        assert((seq![s[0]] + rs)[i] == rs[i - 1]);
        assert((seq![renumbered(m[0], d)] + rm)[i] == rm[i - 1]);
        let k = lemma_remove_index(s.drop_first(), m.drop_first(), d, i - 1);
        k + 1
    }
}

proof fn lemma_renumber_in_order(m: Seq<u8>, d: u8, n: int)
    requires
        numbered_in_order(m),
        forall|i: int| 0 <= i < m.len() ==> (m[i] as int) < n,
        (d as int) < n,
    ensures
        numbered_in_order(renumber(m, d)),
    decreases m.len(),
{
    if m.len() > 0 {
        let rest = m.drop_first();
        assert forall|a: int, b: int| 0 <= a < b < rest.len() implies #[trigger] rest[a] <= #[trigger] rest[b] by {
            assert(rest[a] == m[a + 1] && rest[b] == m[b + 1]);
        }
        assert forall|i: int| 0 <= i < rest.len() implies (rest[i] as int) < n by {
            assert(rest[i] == m[i + 1]);
        }
        lemma_renumber_in_order(rest, d, n);
        lemma_renumber(rest, d, n);
        lemma_without_device_len(rest, rest, d);
        let rm = renumber(rest, d);
        if m[0] != d {
            let r = seq![renumbered(m[0], d)] + rm;
            assert forall|a: int, b: int| 0 <= a < b < r.len() implies #[trigger] r[a] <= #[trigger] r[b] by {
                if a == 0 {
                    let j = lemma_remove_index(rest, rest, d, b - 1);
                    assert(m[0] <= m[j + 1]);
                    assert(r[b] == rm[b - 1]);
                } else {
                    assert(r[a] == rm[a - 1] && r[b] == rm[b - 1]);
                }
            }
        }
    }
}

/// The chip counts in `counts` added up.
pub open spec fn count_sum(counts: Seq<u8>) -> int
    decreases counts.len(),
{
    if counts.len() == 0 {
        0
    } else {
        count_sum(counts.drop_last()) + counts.last()
    }
}

/// How many entries of `mapping` name a device below `n`.
pub open spec fn chips_below(mapping: Seq<u8>, n: int) -> nat
    decreases mapping.len(),
{
    if mapping.len() == 0 {
        0
    } else {
        (if (mapping[0] as int) < n {
            1nat
        } else {
            0nat
        }) + chips_below(mapping.drop_first(), n)
    }
}

proof fn lemma_chips_below_step(mapping: Seq<u8>, n: int)
    requires
        1 <= n <= 256,
    ensures
        chips_below(mapping, n) == chips_below(mapping, n - 1) + chips_of(mapping, (n - 1) as u8),
    decreases mapping.len(),
{
    if mapping.len() > 0 {
        lemma_chips_below_step(mapping.drop_first(), n);
    }
}

proof fn lemma_chips_below_all(mapping: Seq<u8>, n: int)
    requires
        forall|i: int| 0 <= i < mapping.len() ==> (mapping[i] as int) < n,
    ensures
        chips_below(mapping, n) == mapping.len(),
    decreases mapping.len(),
{
    if mapping.len() > 0 {
        assert forall|i: int| 0 <= i < mapping.drop_first().len() implies (mapping.drop_first()[i] as int) < n by {
            assert(mapping.drop_first()[i] == mapping[i + 1]);
        }
        lemma_chips_below_all(mapping.drop_first(), n);
    }
}

proof fn lemma_chips_below_zero(mapping: Seq<u8>)
    ensures
        chips_below(mapping, 0) == 0,
    decreases mapping.len(),
{
    if mapping.len() > 0 {
        lemma_chips_below_zero(mapping.drop_first());
    }
}

proof fn lemma_sum_prefix(counts: Seq<u8>, m: Seq<u8>, k: int)
    requires
        0 <= k <= counts.len() <= 256,
        forall|d: int| 0 <= d < counts.len() ==> chips_of(m, d as u8) == #[trigger] counts[d],
    ensures
        count_sum(counts.take(k)) == chips_below(m, k),
    decreases k,
{
    if k == 0 {
        lemma_chips_below_zero(m);
        assert(counts.take(0) =~= Seq::<u8>::empty());
    } else {
        lemma_sum_prefix(counts, m, k - 1);
        lemma_chips_below_step(m, k);
        assert(counts.take(k).drop_last() =~= counts.take(k - 1));
        assert(counts[k - 1] == chips_of(m, (k - 1) as u8));
    }
}

/// `n` copies of `x`.
pub open spec fn repeated(x: u8, n: nat) -> Seq<u8> {
    Seq::new(n, |i: int| x)
}

/// 0, 1, .., n - 1 as chip numbers within a device.
pub open spec fn chip_numbers(n: nat) -> Seq<u8> {
    Seq::new(n, |i: int| i as u8)
}

/// `Arc::clone`: another pointer to the same allocation. Claimed: the
/// clone is the same shared value.
#[verifier::external_body]
fn share_flag(flag: &Arc<AtomicI32>) -> (r: Arc<AtomicI32>)
    ensures
        r == *flag,
{
    Arc::clone(flag)
}

/// A device in state `d`, asked whether chip `chip` is connected,
/// answered `c`.
pub open spec fn answers_connected<D: SidDevice>(d: D, chip: i32, c: bool) -> bool {
    exists|m: &mut D| mut_ref_current(m) == d && #[trigger] call_ensures(D::is_connected, (m, chip), c)
}

/// `name` is what a device answered when asked for the name of chip `chip`.
pub open spec fn reports_name<D: SidDevice>(chip: i32, name: String) -> bool {
    exists|m: &mut D| #[trigger] call_ensures(D::get_device_info, (m, chip), name)
}

/// A device in state `d`, asked how many SID chips it has, answered `c`.
pub open spec fn reports_count<D: SidDevice>(d: D, c: i32) -> bool {
    exists|m: &mut D| mut_ref_current(m) == d && #[trigger] call_ensures(D::get_device_count, (m, 0i32), c)
}

/// A device, asked how many SID chips it has, answered `c`.
pub open spec fn answers_count<D: SidDevice>(c: i32) -> bool {
    exists|m: &mut D| #[trigger] call_ensures(D::get_device_count, (m, 0i32), c)
}

/// A device that connected answers the question how many SID chips it has
/// the same whenever it is asked, with a count that fits a byte.
pub open spec fn counts_agree<D: SidDevice>(device: Result<D, String>) -> bool {
    device matches Ok(d) ==> forall|c1: i32, c2: i32|
        #![trigger reports_count(d, c1), answers_count::<D>(c2)]
        reports_count(d, c1) && answers_count::<D>(c2) ==> c1 == c2 && 0 <= c1 <= 255
}

/// Chip counts of a byte each add up to at most 255 per device.
proof fn lemma_count_sum_bound(counts: Seq<u8>)
    ensures
        count_sum(counts) <= 255 * counts.len(),
    decreases counts.len(),
{
    if counts.len() > 0 {
        lemma_count_sum_bound(counts.drop_last());
    }
}

/// One step of testing every device, at device `k`: the device, tested,
/// then in state `post.0` answered `keep` when asked whether it is
/// connected; it stays when it answered yes (only it may have changed), and
/// when it answered no it is told to disconnect in state `post.1` and
/// removed with its chips.
pub open spec fn pruned_step<D: SidDevice>(after: SidDevices<D>, before: SidDevices<D>, k: int, keep: bool, post: (D, D)) -> bool {
    &&& answers_connected(post.0, 0, keep)
    &&& keep ==> after.same_layout(&before) && forall|j: int|
        0 <= j < before.devices().len() && j != k ==> #[trigger] after.devices()[j] == before.devices()[j]
    &&& !keep ==> after.removed(&before, k) && told_disconnect(post.1)
}

/// A device in state `d` was told to disconnect.
pub open spec fn told_disconnect<D: SidDevice>(d: D) -> bool {
    exists|m: &mut D| mut_ref_current(m) == d && #[trigger] call_ensures(D::disconnect, (m, 0i32), ())
}

/// Testing every device of `before`, last to first, led to `after`:
/// `states[k + 1]` is the devices before device `k` was tested and
/// `states[k]` after; `keep[k]` is its answer.
pub open spec fn pruned_chain<D: SidDevice>(
    before: SidDevices<D>,
    after: SidDevices<D>,
    states: Seq<SidDevices<D>>,
    keep: Seq<bool>,
    posts: Seq<(D, D)>,
) -> bool {
    let n = before.devices().len() as int;
    &&& states.len() == n + 1
    &&& keep.len() == n
    &&& posts.len() == n
    &&& states[n] == before
    &&& states[0] == after
    &&& forall|k: int| 0 <= k < n ==> #[trigger] pruned_step(states[k], states[k + 1], k, keep[k], posts[k])
}

/// A device in state `d` was told whether to play at its own clock.
pub open spec fn told_native_clock<D: SidDevice>(d: D, enabled: bool) -> bool {
    exists|m: &mut D| mut_ref_current(m) == d && #[trigger] call_ensures(D::set_native_device_clock, (m, enabled), ())
}

/// A device in state `d` was asked to test the connection of chip `chip`.
pub open spec fn tested<D: SidDevice>(d: D, chip: i32) -> bool {
    exists|m: &mut D| mut_ref_current(m) == d && #[trigger] call_ensures(D::test_connection, (m, chip), ())
}

pub struct SidDevicesFacade<D> {
    pub devices: SidDevices<D>,
}

pub struct SidDevices<D> {
    sid_devices: Vec<D>,
    device_count: i32,
    device_name: Vec<String>,
    device_mapping_id: Vec<u8>,
    device_sid_count: Vec<u8>,
    device_offset: Vec<u8>,
    abort_type: Arc<AtomicI32>,
    use_native_device_clock: bool,
}

impl<D: SidDevice> SidDevices<D> {
    /// The connected devices, in the order they were added.
    pub closed spec fn devices(&self) -> Seq<D> {
        self.sid_devices@
    }

    /// The number of SID chips the devices reported.
    pub closed spec fn chip_total(&self) -> i32 {
        self.device_count
    }

    /// Name of each chip.
    pub closed spec fn chip_names(&self) -> Seq<String> {
        self.device_name@
    }

    /// Index of the device that holds each chip.
    pub closed spec fn chip_devices(&self) -> Seq<u8> {
        self.device_mapping_id@
    }

    /// Number of each chip within its device.
    pub closed spec fn chip_offsets(&self) -> Seq<u8> {
        self.device_offset@
    }

    /// Number of chips each device reported when it was added.
    pub closed spec fn device_chip_counts(&self) -> Seq<u8> {
        self.device_sid_count@
    }

    pub closed spec fn native_clock(&self) -> bool {
        self.use_native_device_clock
    }

    /// The chip lists run in parallel, and each chip names a connected device.
    pub open spec fn wf(&self) -> bool {
        &&& self.chip_devices().len() == self.chip_names().len()
        &&& self.chip_offsets().len() == self.chip_names().len()
        &&& self.device_chip_counts().len() == self.devices().len()
        &&& forall|i: int|
            0 <= i < self.chip_devices().len() ==> (#[trigger] self.chip_devices()[i] as int)
                < self.devices().len()
    }

    /// `dev_nr` numbers one of the chips.
    pub open spec fn valid_chip(&self, dev_nr: i32) -> bool {
        0 <= dev_nr < self.chip_devices().len()
    }

    /// Calls on chip `dev_nr` are handed on: the lists are consistent and
    /// `dev_nr` numbers a chip.
    pub open spec fn accepts(&self, dev_nr: i32) -> bool {
        self.wf() && self.valid_chip(dev_nr)
    }

    /// The chip count is the number of chip names, each device holds as many
    /// chips as it reported when it was added, each chip's number within its
    /// device is below that count, and the chips are numbered device by
    /// device in the order the devices were added.
    pub open spec fn counted(&self) -> bool {
        &&& self.wf()
        &&& self.devices().len() <= 256
        &&& self.chip_total() == self.chip_names().len()
        &&& forall|d: int|
            0 <= d < self.devices().len() ==> chips_of(self.chip_devices(), d as u8)
                == #[trigger] self.device_chip_counts()[d]
        &&& forall|i: int|
            0 <= i < self.chip_devices().len() ==> (#[trigger] self.chip_offsets()[i] as int)
                < self.device_chip_counts()[self.chip_devices()[i] as int]
        &&& numbered_in_order(self.chip_devices())
    }

    /// Everything but the devices themselves is as in `other`.
    pub open spec fn same_layout(&self, other: &SidDevices<D>) -> bool {
        &&& self.chip_total() == other.chip_total()
        &&& self.chip_names() == other.chip_names()
        &&& self.chip_devices() == other.chip_devices()
        &&& self.chip_offsets() == other.chip_offsets()
        &&& self.device_chip_counts() == other.device_chip_counts()
        &&& self.native_clock() == other.native_clock()
        &&& self.devices().len() == other.devices().len()
    }

    /// Only device `k` may differ from `other`.
    pub open spec fn only_device_changed(&self, other: &SidDevices<D>, k: int) -> bool {
        &&& self.same_layout(other)
        &&& forall|j: int|
            0 <= j < self.devices().len() && j != k ==> self.devices()[j] == other.devices()[j]
    }

    /// The device that holds chip `dev_nr`.
    pub open spec fn device_of(&self, dev_nr: i32) -> int {
        self.chip_devices()[dev_nr as int] as int
    }

    pub fn new(abort_type: Arc<AtomicI32>) -> (r: SidDevices<D>)
        ensures
            r.wf(),
            r.devices().len() == 0,
            r.chip_names().len() == 0,
            r.chip_total() == 0,
            r.native_clock(),
            r.counted(),
    {
        SidDevices {
            sid_devices: Vec::new(),
            device_count: 0,
            device_name: Vec::new(),
            device_mapping_id: Vec::new(),
            device_sid_count: Vec::new(),
            device_offset: Vec::new(),
            abort_type,
            use_native_device_clock: true,
        }
    }

    /// The flag the devices were made with.
    pub closed spec fn abort_flag(&self) -> Arc<AtomicI32> {
        self.abort_type
    }

    /// The flag that tells devices to stop waiting, shared with the devices.
    pub fn abort_type(&self) -> (r: Arc<AtomicI32>)
        ensures
            r == self.abort_flag(),
    {
        share_flag(&self.abort_type)
    }

    /// Adds the devices whose connection succeeded: first the HardSID USB
    /// device, then the network SID device. When no device is connected
    /// afterwards, the error joins the two connection errors with " | ".
    pub fn connect(
        &mut self,
        hardsid_device: Result<D, String>,
        network_device: Result<D, String>,
    ) -> (r: Result<(), String>)
        requires
            old(self).wf(),
        ensures
            final(self).wf(),
            final(self).devices().len() == old(self).devices().len() + (if hardsid_device is Ok {
                1int
            } else {
                0int
            }) + (if network_device is Ok {
                1int
            } else {
                0int
            }),
            final(self).chip_names().len() >= old(self).chip_names().len(),
            r is Err <==> final(self).devices().len() == 0,
            r matches Err(e) ==> e@ == error_text(hardsid_device) + " | "@ + error_text(
                network_device,
            ),
            r is Ok ==> final(self).native_clock() == old(self).native_clock(),
            old(self).counted() && old(self).devices().len() < 255 && counts_agree(hardsid_device) && counts_agree(
                network_device,
            ) ==> final(self).counted(),
            exists|mid: SidDevices<D>, after: SidDevices<D>, r1: Result<(), String>, r2: Result<(), String>|
                #![trigger mid.added_if_ok(old(self), &hardsid_device, r1), after.added_if_ok(&mid, &network_device, r2)]
                mid.added_if_ok(old(self), &hardsid_device, r1) && after.added_if_ok(&mid, &network_device, r2) && (r is Err
                    ==> *final(self) == after) && (after.counted() ==> final(self).counted()) && (r is Ok ==> final(self).same_layout(&after) && forall|j: int|
                    0 <= j < after.devices().len() ==> #[trigger] told_native_clock(
                        after.devices()[j],
                        old(self).native_clock(),
                    )),
    {
        let ghost hs = hardsid_device;
        let ghost ns = network_device;
        let hs_connect_result = self.try_connect_hardsid_device(hardsid_device);
        let ghost mid = *self;
        let ns_connect_result = self.try_connect_network_device(network_device);
        let ghost after = *self;
        assert(mid.added_if_ok(old(self), &hs, hs_connect_result));
        assert(after.added_if_ok(&mid, &ns, ns_connect_result));
        proof {
            if old(self).counted() && old(self).devices().len() < 255 && counts_agree(hs) && counts_agree(ns) {
                old(self).lemma_counted_sum();
                lemma_count_sum_bound(old(self).device_chip_counts());
                assert(mid.counted());
                mid.lemma_counted_sum();
                lemma_count_sum_bound(mid.device_chip_counts());
                assert(after.counted());
            }
        }

        if self.sid_devices.len() == 0 {
            let mut message = match hs_connect_result {
                Err(e) => e,
                Ok(()) => String::new(),
            };
            message.append(" | ");
            match ns_connect_result {
                Err(e) => message.append(e.as_str()),
                Ok(()) => {},
            }
            Err(message)
        } else {
            let native = self.use_native_device_clock;
            self.set_native_device_clock(native);
            Ok(())
        }
    }

    fn try_connect_hardsid_device(&mut self, hs_device: Result<D, String>) -> (r: Result<(), String>)
        requires
            old(self).wf(),
        ensures
            final(self).added_if_ok(old(self), &hs_device, r),
    {
        self.add_device(hs_device)
    }

    fn try_connect_network_device(&mut self, ns_device: Result<D, String>) -> (r: Result<(), String>)
        requires
            old(self).wf(),
        ensures
            final(self).added_if_ok(old(self), &ns_device, r),
    {
        self.add_device(ns_device)
    }

    /// `self` is `before` with `device` added when it connected.
    pub open spec fn added_if_ok(
        &self,
        before: &SidDevices<D>,
        device: &Result<D, String>,
        r: Result<(), String>,
    ) -> bool {
        &&& self.wf()
        &&& self.native_clock() == before.native_clock()
        &&& forall|j: int| 0 <= j < before.devices().len() ==> self.devices()[j] == before.devices()[j]
        &&& self.chip_names().len() >= before.chip_names().len()
        &&& match device {
            Ok(d) => {
                &&& r is Ok
                &&& self.devices().len() == before.devices().len() + 1
                &&& exists|c1: i32, c2: i32|
                    #![trigger reports_count(*d, c1), answers_count::<D>(c2)]
                    reports_count(*d, c1) && answers_count::<D>(c2) && self.device_chip_counts()
                        == before.device_chip_counts().push(c1 as u8) && self.registered(
                        before,
                        before.devices().len() as int,
                        c2,
                    ) && (before.counted() && c1 == c2 && 0 <= c1 <= 255 && before.chip_total() + c1 <= i32::MAX
                        && before.devices().len() < 256 ==> self.counted())
            },
            Err(e) => r == Err::<(), String>(*e) && self.devices() == before.devices()
                && self.chip_names() == before.chip_names() && self.chip_devices() == before.chip_devices()
                && self.chip_offsets() == before.chip_offsets() && self.chip_total() == before.chip_total()
                && self.device_chip_counts() == before.device_chip_counts(),
        }
    }

    /// `self` is `before` with `count` chips of device `d` registered after
    /// the chips already there: numbered within the device from 0, named
    /// with what a device answered for each, and counted in the total.
    pub open spec fn registered(&self, before: &SidDevices<D>, d: int, count: i32) -> bool {
        &&& self.chip_total() == vstd::wrapping::i32_specs::wrapping_add(before.chip_total(), count)
        &&& count >= 0 ==> {
            &&& self.chip_devices() == before.chip_devices() + repeated(d as u8, count as nat)
            &&& self.chip_offsets() == before.chip_offsets() + chip_numbers(count as nat)
            &&& self.chip_names().len() == before.chip_names().len() + count
            &&& self.chip_names().take(before.chip_names().len() as int) == before.chip_names()
            &&& forall|k: int|
                0 <= k < count ==> #[trigger] reports_name::<D>(
                    k as i32,
                    self.chip_names()[before.chip_names().len() + k],
                )
        }
        &&& count < 0 ==> {
            &&& self.chip_devices() == before.chip_devices()
            &&& self.chip_offsets() == before.chip_offsets()
            &&& self.chip_names() == before.chip_names()
        }
    }

    /// Adds a device that connected, with its chips numbered after those
    /// already there; a device that failed to connect is left out and its
    /// error handed back.
    pub fn add_device(&mut self, device: Result<D, String>) -> (r: Result<(), String>)
        requires
            old(self).wf(),
        ensures
            final(self).added_if_ok(old(self), &device, r),
            device matches Ok(d) ==> exists|m1: &mut D, c1: i32, m2: &mut D, c2: i32|
                mut_ref_current(m1) == d && #[trigger] call_ensures(D::get_device_count, (m1, 0i32), c1)
                    && mut_ref_current(m2) == mut_ref_future(m1) && #[trigger] call_ensures(
                    D::get_device_count,
                    (m2, 0i32),
                    c2,
                ) && final(self).device_chip_counts() == old(self).device_chip_counts().push(c1 as u8)
                    && final(self).registered(old(self), old(self).devices().len() as int, c2),
    {
        match device {
            Ok(mut device) => {
                let ghost d0 = device;
                let sid_count = device.get_device_count(0);
                assert(reports_count(d0, sid_count));
                let ghost before = self.sid_devices@;
                self.sid_devices.push(device);
                self.device_sid_count.push(sid_count as u8);
                assert(self.sid_devices@ == before.push(device));
                assert(self.sid_devices@.len() > 0);
                assert(self.sid_devices.len() > 0);
                let last = self.sid_devices.len() - 1;
                let ghost mid = *self;
                let count = self.retrieve_device_info(last);
                proof {
                    assert(answers_count::<D>(count));
                    assert(self.registered(old(self), old(self).devices().len() as int, count));
                    if old(self).counted() && sid_count == count && 0 <= sid_count <= 255 && old(self).chip_total()
                        + sid_count <= i32::MAX && old(self).devices().len() < 256 {
                        self.lemma_add_keeps_counted(old(self), sid_count, count);
                    }
                }
                Ok(())
            },
            Err(e) => Err(e),
        }
    }

    /// Appends the chips of device `dev_nr`, as many as it reports.
    fn retrieve_device_info(&mut self, dev_nr: usize) -> (count: i32)
        requires
            old(self).wf(),
            dev_nr < old(self).devices().len(),
        ensures
            final(self).wf(),
            final(self).devices().len() == old(self).devices().len(),
            forall|j: int|
                0 <= j < old(self).devices().len() && j != dev_nr ==> final(self).devices()[j] == old(
                    self,
                ).devices()[j],
            final(self).native_clock() == old(self).native_clock(),
            final(self).device_chip_counts() == old(self).device_chip_counts(),
            final(self).chip_total() == vstd::wrapping::i32_specs::wrapping_add(old(self).chip_total(), count),
            count >= 0 ==> {
                &&& final(self).chip_devices() == old(self).chip_devices() + repeated(dev_nr as u8, count as nat)
                &&& final(self).chip_offsets() == old(self).chip_offsets() + chip_numbers(count as nat)
                &&& final(self).chip_names().len() == old(self).chip_names().len() + count
                &&& final(self).chip_names().take(old(self).chip_names().len() as int) == old(self).chip_names()
            },
            exists|m: &mut D|
                mut_ref_current(m) == old(self).devices()[dev_nr as int]
                    && #[trigger] call_ensures(D::get_device_count, (m, 0i32), count),
            count >= 0 ==> forall|k: int|
                0 <= k < count ==> #[trigger] reports_name::<D>(
                    k as i32,
                    final(self).chip_names()[old(self).chip_names().len() + k],
                ),
            count < 0 ==> {
                &&& final(self).chip_devices() == old(self).chip_devices()
                &&& final(self).chip_offsets() == old(self).chip_offsets()
                &&& final(self).chip_names() == old(self).chip_names()
            },
    {
        assert(self.sid_devices@[dev_nr as int] == old(self).devices()[dev_nr as int]);
        let device_count = self.sid_devices[dev_nr].get_device_count(0);
        let ghost old_mapping = self.device_mapping_id@;
        let ghost old_offset = self.device_offset@;
        let ghost old_names = self.device_name@;
        let mut i: i32 = 0;
        while i < device_count
            invariant
                0 <= i,
                device_count >= 0 ==> i <= device_count,
                device_count < 0 ==> i == 0,
                dev_nr < self.sid_devices.len(),
                self.sid_devices.len() == old(self).sid_devices.len(),
                forall|j: int|
                    0 <= j < old(self).devices().len() && j != dev_nr ==> self.sid_devices@[j] == old(
                        self,
                    ).devices()[j],
                self.device_sid_count@ == old(self).device_sid_count@,
                self.device_count == old(self).device_count,
                self.use_native_device_clock == old(self).use_native_device_clock,
                self.device_mapping_id@ == old_mapping + repeated(dev_nr as u8, i as nat),
                self.device_offset@ == old_offset + chip_numbers(i as nat),
                self.device_name@.len() == old_names.len() + i,
                self.device_name@.take(old_names.len() as int) == old_names,
                old(self).wf(),
                old_mapping == old(self).device_mapping_id@,
                old_offset == old(self).device_offset@,
                old_names == old(self).device_name@,
                forall|k: int|
                    0 <= k < i ==> #[trigger] reports_name::<D>(k as i32, self.device_name@[old_names.len() + k]),
            decreases device_count - i,
        {
            let name = self.sid_devices[dev_nr].get_device_info(i);
            assert(reports_name::<D>(i, name));
            let ghost prev_names = self.device_name@;
            self.device_name.push(name);
            proof {
                assert forall|k: int| 0 <= k < i + 1 implies #[trigger] reports_name::<D>(
                    k as i32,
                    self.device_name@[old_names.len() + k],
                ) by {
                    if k < i {
                        assert(self.device_name@[old_names.len() + k] == prev_names[old_names.len() + k]);
                    }
                }
            }
            self.device_mapping_id.push(dev_nr as u8);
            self.device_offset.push(i as u8);
            proof {
                assert(self.device_name@.take(old_names.len() as int) =~= prev_names.take(
                    old_names.len() as int,
                ));
                assert(self.device_mapping_id@ =~= old_mapping + repeated(dev_nr as u8, (i + 1) as nat));
                assert(self.device_offset@ =~= old_offset + chip_numbers((i + 1) as nat));
            }
            i = i + 1;
        }
        self.device_count = self.device_count.wrapping_add(device_count);
        proof {
            if device_count < 0 {
                assert(self.device_mapping_id@ =~= old_mapping);
                assert(self.device_offset@ =~= old_offset);
                assert(self.device_name@ =~= old_names);
            }
            assert forall|k: int| 0 <= k < self.device_mapping_id@.len() implies (
            #[trigger] self.device_mapping_id@[k] as int) < self.sid_devices.len() by {
                if k >= old_mapping.len() {
                    assert(self.device_mapping_id@[k] == dev_nr as u8);
                } else {
                    assert(self.device_mapping_id@[k] == old_mapping[k]);
                }
            }
        }
        device_count
    }

    #[inline]
    fn map_device(&self, dev_nr: i32) -> (r: u8)
        requires
            self.valid_chip(dev_nr),
        ensures
            r == self.chip_devices()[dev_nr as int],
    {
        self.device_mapping_id[dev_nr as usize]
    }

    #[inline]
    fn map_sid_offset(&self, dev_nr: i32) -> (r: u8)
        requires
            self.wf(),
            self.valid_chip(dev_nr),
        ensures
            r == self.chip_offsets()[dev_nr as int],
    {
        self.device_offset[dev_nr as usize]
    }

    /// Disconnects and removes the device that holds chip `dev_nr`, when
    /// `dev_nr` is below the chip count.
    pub fn disconnect(&mut self, dev_nr: i32)
        requires
            old(self).wf(),
            dev_nr < old(self).chip_total() ==> old(self).valid_chip(dev_nr),
        ensures
            final(self).wf(),
            dev_nr < old(self).chip_total() ==> final(self).removed(old(self), old(self).device_of(dev_nr)),
            dev_nr < old(self).chip_total() ==> exists|m: &mut D|
                mut_ref_current(m) == old(self).devices()[old(self).device_of(dev_nr)]
                    && #[trigger] call_ensures(D::disconnect, (m, 0i32), ()),
            dev_nr >= old(self).chip_total() ==> *final(self) == *old(self),
            old(self).counted() ==> final(self).counted(),
    {
        if dev_nr < self.device_count {
            let mapped_dev_nr = self.map_device(dev_nr) as usize;
            let ghost before = *self;
            self.disconnect_device(mapped_dev_nr);
            proof {
                if before.counted() {
                    self.lemma_remove_keeps_counted(&before, mapped_dev_nr as int);
                }
            }
        }
    }

    /// Hands `set_sid_count` to the device that holds chip `dev_nr`, with the chip's
    /// number within that device.
    pub fn set_sid_count(&mut self, dev_nr: i32, sid_count: i32)
        requires
            old(self).wf(),
            old(self).valid_chip(dev_nr),
        ensures
            final(self).wf(),
            final(self).only_device_changed(old(self), old(self).device_of(dev_nr)),
            exists|m: &mut D|
                mut_ref_current(m) == old(self).devices()[old(self).device_of(dev_nr)]
                    && mut_ref_future(m) == final(self).devices()[old(self).device_of(dev_nr)]
                    && #[trigger] call_ensures(D::set_sid_count, (m, old(self).chip_offsets()[dev_nr as int] as i32, sid_count), ()),
    {
        let mapped_dev_nr = self.map_device(dev_nr);
        let mapped_sid_nr = self.map_sid_offset(dev_nr);
        self.sid_devices[mapped_dev_nr as usize].set_sid_count(mapped_sid_nr as i32, sid_count)
    }
    /// Hands `set_sid_position` to the device that holds chip `dev_nr`, with the chip's
    /// number within that device.
    pub fn set_sid_position(&mut self, dev_nr: i32, sid_position: i8)
        requires
            old(self).wf(),
            old(self).valid_chip(dev_nr),
        ensures
            final(self).wf(),
            final(self).only_device_changed(old(self), old(self).device_of(dev_nr)),
            exists|m: &mut D|
                mut_ref_current(m) == old(self).devices()[old(self).device_of(dev_nr)]
                    && mut_ref_future(m) == final(self).devices()[old(self).device_of(dev_nr)]
                    && #[trigger] call_ensures(D::set_sid_position, (m, old(self).chip_offsets()[dev_nr as int] as i32, sid_position), ()),
    {
        let mapped_dev_nr = self.map_device(dev_nr);
        let mapped_sid_nr = self.map_sid_offset(dev_nr);
        self.sid_devices[mapped_dev_nr as usize].set_sid_position(mapped_sid_nr as i32, sid_position)
    }
    /// Hands `set_sid_model` to the device that holds chip `dev_nr`, with the chip's
    /// number within that device.
    pub fn set_sid_model(&mut self, dev_nr: i32, sid_socket: i32)
        requires
            old(self).wf(),
            old(self).valid_chip(dev_nr),
        ensures
            final(self).wf(),
            final(self).only_device_changed(old(self), old(self).device_of(dev_nr)),
            exists|m: &mut D|
                mut_ref_current(m) == old(self).devices()[old(self).device_of(dev_nr)]
                    && mut_ref_future(m) == final(self).devices()[old(self).device_of(dev_nr)]
                    && #[trigger] call_ensures(D::set_sid_model, (m, old(self).chip_offsets()[dev_nr as int] as i32, sid_socket), ()),
    {
        let mapped_dev_nr = self.map_device(dev_nr);
        let mapped_sid_nr = self.map_sid_offset(dev_nr);
        self.sid_devices[mapped_dev_nr as usize].set_sid_model(mapped_sid_nr as i32, sid_socket)
    }
    /// Hands `set_sid_clock` to the device that holds chip `dev_nr`, with the chip's
    /// number within that device.
    pub fn set_sid_clock(&mut self, dev_nr: i32, sid_clock: SidClock)
        requires
            old(self).wf(),
            old(self).valid_chip(dev_nr),
        ensures
            final(self).wf(),
            final(self).only_device_changed(old(self), old(self).device_of(dev_nr)),
            exists|m: &mut D|
                mut_ref_current(m) == old(self).devices()[old(self).device_of(dev_nr)]
                    && mut_ref_future(m) == final(self).devices()[old(self).device_of(dev_nr)]
                    && #[trigger] call_ensures(D::set_sid_clock, (m, old(self).chip_offsets()[dev_nr as int] as i32, sid_clock), ()),
    {
        let mapped_dev_nr = self.map_device(dev_nr);
        let mapped_sid_nr = self.map_sid_offset(dev_nr);
        self.sid_devices[mapped_dev_nr as usize].set_sid_clock(mapped_sid_nr as i32, sid_clock)
    }
    /// Hands `set_sampling_method` to the device that holds chip `dev_nr`, with the chip's
    /// number within that device.
    pub fn set_sampling_method(&mut self, dev_nr: i32, sampling_method: SamplingMethod)
        requires
            old(self).wf(),
            old(self).valid_chip(dev_nr),
        ensures
            final(self).wf(),
            final(self).only_device_changed(old(self), old(self).device_of(dev_nr)),
            exists|m: &mut D|
                mut_ref_current(m) == old(self).devices()[old(self).device_of(dev_nr)]
                    && mut_ref_future(m) == final(self).devices()[old(self).device_of(dev_nr)]
                    && #[trigger] call_ensures(D::set_sampling_method, (m, old(self).chip_offsets()[dev_nr as int] as i32, sampling_method), ()),
    {
        let mapped_dev_nr = self.map_device(dev_nr);
        let mapped_sid_nr = self.map_sid_offset(dev_nr);
        self.sid_devices[mapped_dev_nr as usize].set_sampling_method(mapped_sid_nr as i32, sampling_method)
    }
    /// Hands `set_sid_header` to the device that holds chip `dev_nr`, with the chip's
    /// number within that device.
    pub fn set_sid_header(&mut self, dev_nr: i32, sid_header: Vec<u8>)
        requires
            old(self).wf(),
            old(self).valid_chip(dev_nr),
        ensures
            final(self).wf(),
            final(self).only_device_changed(old(self), old(self).device_of(dev_nr)),
            exists|m: &mut D|
                mut_ref_current(m) == old(self).devices()[old(self).device_of(dev_nr)]
                    && mut_ref_future(m) == final(self).devices()[old(self).device_of(dev_nr)]
                    && #[trigger] call_ensures(D::set_sid_header, (m, old(self).chip_offsets()[dev_nr as int] as i32, sid_header), ()),
    {
        let mapped_dev_nr = self.map_device(dev_nr);
        let mapped_sid_nr = self.map_sid_offset(dev_nr);
        self.sid_devices[mapped_dev_nr as usize].set_sid_header(mapped_sid_nr as i32, sid_header)
    }
    /// Hands `set_fade_in` to the device that holds chip `dev_nr`, with the chip's
    /// number within that device.
    pub fn set_fade_in(&mut self, dev_nr: i32, time_millis: u32)
        requires
            old(self).wf(),
            old(self).valid_chip(dev_nr),
        ensures
            final(self).wf(),
            final(self).only_device_changed(old(self), old(self).device_of(dev_nr)),
            exists|m: &mut D|
                mut_ref_current(m) == old(self).devices()[old(self).device_of(dev_nr)]
                    && mut_ref_future(m) == final(self).devices()[old(self).device_of(dev_nr)]
                    && #[trigger] call_ensures(D::set_fade_in, (m, old(self).chip_offsets()[dev_nr as int] as i32, time_millis), ()),
    {
        let mapped_dev_nr = self.map_device(dev_nr);
        let mapped_sid_nr = self.map_sid_offset(dev_nr);
        self.sid_devices[mapped_dev_nr as usize].set_fade_in(mapped_sid_nr as i32, time_millis)
    }
    /// Hands `set_fade_out` to the device that holds chip `dev_nr`, with the chip's
    /// number within that device.
    pub fn set_fade_out(&mut self, dev_nr: i32, time_millis: u32)
        requires
            old(self).wf(),
            old(self).valid_chip(dev_nr),
        ensures
            final(self).wf(),
            final(self).only_device_changed(old(self), old(self).device_of(dev_nr)),
            exists|m: &mut D|
                mut_ref_current(m) == old(self).devices()[old(self).device_of(dev_nr)]
                    && mut_ref_future(m) == final(self).devices()[old(self).device_of(dev_nr)]
                    && #[trigger] call_ensures(D::set_fade_out, (m, old(self).chip_offsets()[dev_nr as int] as i32, time_millis), ()),
    {
        let mapped_dev_nr = self.map_device(dev_nr);
        let mapped_sid_nr = self.map_sid_offset(dev_nr);
        self.sid_devices[mapped_dev_nr as usize].set_fade_out(mapped_sid_nr as i32, time_millis)
    }
    /// Hands `silent_all_sids` to the device that holds chip `dev_nr`, with the chip's
    /// number within that device.
    pub fn silent_all_sids(&mut self, dev_nr: i32, write_volume: bool)
        requires
            old(self).wf(),
            old(self).valid_chip(dev_nr),
        ensures
            final(self).wf(),
            final(self).only_device_changed(old(self), old(self).device_of(dev_nr)),
            exists|m: &mut D|
                mut_ref_current(m) == old(self).devices()[old(self).device_of(dev_nr)]
                    && mut_ref_future(m) == final(self).devices()[old(self).device_of(dev_nr)]
                    && #[trigger] call_ensures(D::silent_all_sids, (m, old(self).chip_offsets()[dev_nr as int] as i32, write_volume), ()),
    {
        let mapped_dev_nr = self.map_device(dev_nr);
        let mapped_sid_nr = self.map_sid_offset(dev_nr);
        self.sid_devices[mapped_dev_nr as usize].silent_all_sids(mapped_sid_nr as i32, write_volume)
    }
    /// Hands `silent_sid` to the device that holds chip `dev_nr`, with the chip's
    /// number within that device.
    pub fn silent_sid(&mut self, dev_nr: i32, write_volume: bool)
        requires
            old(self).wf(),
            old(self).valid_chip(dev_nr),
        ensures
            final(self).wf(),
            final(self).only_device_changed(old(self), old(self).device_of(dev_nr)),
            exists|m: &mut D|
                mut_ref_current(m) == old(self).devices()[old(self).device_of(dev_nr)]
                    && mut_ref_future(m) == final(self).devices()[old(self).device_of(dev_nr)]
                    && #[trigger] call_ensures(D::silent_sid, (m, old(self).chip_offsets()[dev_nr as int] as i32, write_volume), ()),
    {
        let mapped_dev_nr = self.map_device(dev_nr);
        let mapped_sid_nr = self.map_sid_offset(dev_nr);
        self.sid_devices[mapped_dev_nr as usize].silent_sid(mapped_sid_nr as i32, write_volume)
    }
    /// Hands `device_reset` to the device that holds chip `dev_nr`, with the chip's
    /// number within that device.
    pub fn device_reset(&mut self, dev_nr: i32)
        requires
            old(self).wf(),
            old(self).valid_chip(dev_nr),
        ensures
            final(self).wf(),
            final(self).only_device_changed(old(self), old(self).device_of(dev_nr)),
            exists|m: &mut D|
                mut_ref_current(m) == old(self).devices()[old(self).device_of(dev_nr)]
                    && mut_ref_future(m) == final(self).devices()[old(self).device_of(dev_nr)]
                    && #[trigger] call_ensures(D::device_reset, (m, old(self).chip_offsets()[dev_nr as int] as i32), ()),
    {
        let mapped_dev_nr = self.map_device(dev_nr);
        let mapped_sid_nr = self.map_sid_offset(dev_nr);
        self.sid_devices[mapped_dev_nr as usize].device_reset(mapped_sid_nr as i32)
    }
    /// Hands `reset_all_sids` to the device that holds chip `dev_nr`, with the chip's
    /// number within that device.
    pub fn reset_all_sids(&mut self, dev_nr: i32)
        requires
            old(self).wf(),
            old(self).valid_chip(dev_nr),
        ensures
            final(self).wf(),
            final(self).only_device_changed(old(self), old(self).device_of(dev_nr)),
            exists|m: &mut D|
                mut_ref_current(m) == old(self).devices()[old(self).device_of(dev_nr)]
                    && mut_ref_future(m) == final(self).devices()[old(self).device_of(dev_nr)]
                    && #[trigger] call_ensures(D::reset_all_sids, (m, old(self).chip_offsets()[dev_nr as int] as i32), ()),
    {
        let mapped_dev_nr = self.map_device(dev_nr);
        let mapped_sid_nr = self.map_sid_offset(dev_nr);
        self.sid_devices[mapped_dev_nr as usize].reset_all_sids(mapped_sid_nr as i32)
    }
    /// Hands `reset_sid` to the device that holds chip `dev_nr`, with the chip's
    /// number within that device.
    pub fn reset_sid(&mut self, dev_nr: i32)
        requires
            old(self).wf(),
            old(self).valid_chip(dev_nr),
        ensures
            final(self).wf(),
            final(self).only_device_changed(old(self), old(self).device_of(dev_nr)),
            exists|m: &mut D|
                mut_ref_current(m) == old(self).devices()[old(self).device_of(dev_nr)]
                    && mut_ref_future(m) == final(self).devices()[old(self).device_of(dev_nr)]
                    && #[trigger] call_ensures(D::reset_sid, (m, old(self).chip_offsets()[dev_nr as int] as i32), ()),
    {
        let mapped_dev_nr = self.map_device(dev_nr);
        let mapped_sid_nr = self.map_sid_offset(dev_nr);
        self.sid_devices[mapped_dev_nr as usize].reset_sid(mapped_sid_nr as i32)
    }
    /// Hands `reset_all_buffers` to the device that holds chip `dev_nr`, with the chip's
    /// number within that device.
    pub fn reset_all_buffers(&mut self, dev_nr: i32)
        requires
            old(self).wf(),
            old(self).valid_chip(dev_nr),
        ensures
            final(self).wf(),
            final(self).only_device_changed(old(self), old(self).device_of(dev_nr)),
            exists|m: &mut D|
                mut_ref_current(m) == old(self).devices()[old(self).device_of(dev_nr)]
                    && mut_ref_future(m) == final(self).devices()[old(self).device_of(dev_nr)]
                    && #[trigger] call_ensures(D::reset_all_buffers, (m, old(self).chip_offsets()[dev_nr as int] as i32), ()),
    {
        let mapped_dev_nr = self.map_device(dev_nr);
        let mapped_sid_nr = self.map_sid_offset(dev_nr);
        self.sid_devices[mapped_dev_nr as usize].reset_all_buffers(mapped_sid_nr as i32)
    }
    /// Hands `enable_turbo_mode` to the device that holds chip `dev_nr`, with the chip's
    /// number within that device.
    pub fn enable_turbo_mode(&mut self, dev_nr: i32)
        requires
            old(self).wf(),
            old(self).valid_chip(dev_nr),
        ensures
            final(self).wf(),
            final(self).only_device_changed(old(self), old(self).device_of(dev_nr)),
            exists|m: &mut D|
                mut_ref_current(m) == old(self).devices()[old(self).device_of(dev_nr)]
                    && mut_ref_future(m) == final(self).devices()[old(self).device_of(dev_nr)]
                    && #[trigger] call_ensures(D::enable_turbo_mode, (m, old(self).chip_offsets()[dev_nr as int] as i32), ()),
    {
        let mapped_dev_nr = self.map_device(dev_nr);
        let mapped_sid_nr = self.map_sid_offset(dev_nr);
        self.sid_devices[mapped_dev_nr as usize].enable_turbo_mode(mapped_sid_nr as i32)
    }
    /// Hands `disable_turbo_mode` to the device that holds chip `dev_nr`, with the chip's
    /// number within that device.
    pub fn disable_turbo_mode(&mut self, dev_nr: i32)
        requires
            old(self).wf(),
            old(self).valid_chip(dev_nr),
        ensures
            final(self).wf(),
            final(self).only_device_changed(old(self), old(self).device_of(dev_nr)),
            exists|m: &mut D|
                mut_ref_current(m) == old(self).devices()[old(self).device_of(dev_nr)]
                    && mut_ref_future(m) == final(self).devices()[old(self).device_of(dev_nr)]
                    && #[trigger] call_ensures(D::disable_turbo_mode, (m, old(self).chip_offsets()[dev_nr as int] as i32), ()),
    {
        let mapped_dev_nr = self.map_device(dev_nr);
        let mapped_sid_nr = self.map_sid_offset(dev_nr);
        self.sid_devices[mapped_dev_nr as usize].disable_turbo_mode(mapped_sid_nr as i32)
    }
    /// Hands `dummy_write` to the device that holds chip `dev_nr`, with the chip's
    /// number within that device.
    pub fn dummy_write(&mut self, dev_nr: i32, cycles_input: u32)
        requires
            old(self).wf(),
            old(self).valid_chip(dev_nr),
        ensures
            final(self).wf(),
            final(self).only_device_changed(old(self), old(self).device_of(dev_nr)),
            exists|m: &mut D|
                mut_ref_current(m) == old(self).devices()[old(self).device_of(dev_nr)]
                    && mut_ref_future(m) == final(self).devices()[old(self).device_of(dev_nr)]
                    && #[trigger] call_ensures(D::dummy_write, (m, old(self).chip_offsets()[dev_nr as int] as i32, cycles_input), ()),
    {
        let mapped_dev_nr = self.map_device(dev_nr);
        let mapped_sid_nr = self.map_sid_offset(dev_nr);
        self.sid_devices[mapped_dev_nr as usize].dummy_write(mapped_sid_nr as i32, cycles_input)
    }
    /// Hands `write` to the device that holds chip `dev_nr`, with the chip's
    /// number within that device.
    pub fn write(&mut self, dev_nr: i32, cycles_input: u32, reg: u8, data: u8)
        requires
            old(self).wf(),
            old(self).valid_chip(dev_nr),
        ensures
            final(self).wf(),
            final(self).only_device_changed(old(self), old(self).device_of(dev_nr)),
            exists|m: &mut D|
                mut_ref_current(m) == old(self).devices()[old(self).device_of(dev_nr)]
                    && mut_ref_future(m) == final(self).devices()[old(self).device_of(dev_nr)]
                    && #[trigger] call_ensures(D::write, (m, old(self).chip_offsets()[dev_nr as int] as i32, cycles_input, reg, data), ()),
    {
        let mapped_dev_nr = self.map_device(dev_nr);
        let mapped_sid_nr = self.map_sid_offset(dev_nr);
        self.sid_devices[mapped_dev_nr as usize].write(mapped_sid_nr as i32, cycles_input, reg, data)
    }
    /// Hands `try_write` to the device that holds chip `dev_nr`, with the chip's
    /// number within that device.
    fn try_write(&mut self, dev_nr: i32, cycles_input: u32, reg: u8, data: u8) -> (r: DeviceResponse)
        requires
            old(self).wf(),
            old(self).valid_chip(dev_nr),
        ensures
            final(self).wf(),
            final(self).only_device_changed(old(self), old(self).device_of(dev_nr)),
            exists|m: &mut D|
                mut_ref_current(m) == old(self).devices()[old(self).device_of(dev_nr)]
                    && mut_ref_future(m) == final(self).devices()[old(self).device_of(dev_nr)]
                    && #[trigger] call_ensures(D::try_write, (m, old(self).chip_offsets()[dev_nr as int] as i32, cycles_input, reg, data), r),
    {
        let mapped_dev_nr = self.map_device(dev_nr);
        let mapped_sid_nr = self.map_sid_offset(dev_nr);
        self.sid_devices[mapped_dev_nr as usize].try_write(mapped_sid_nr as i32, cycles_input, reg, data)
    }
    /// Hands `retry_write` to the device that holds chip `dev_nr`, with the chip's
    /// number within that device.
    fn retry_write(&mut self, dev_nr: i32) -> (r: DeviceResponse)
        requires
            old(self).wf(),
            old(self).valid_chip(dev_nr),
        ensures
            final(self).wf(),
            final(self).only_device_changed(old(self), old(self).device_of(dev_nr)),
            exists|m: &mut D|
                mut_ref_current(m) == old(self).devices()[old(self).device_of(dev_nr)]
                    && mut_ref_future(m) == final(self).devices()[old(self).device_of(dev_nr)]
                    && #[trigger] call_ensures(D::retry_write, (m, old(self).chip_offsets()[dev_nr as int] as i32), r),
    {
        let mapped_dev_nr = self.map_device(dev_nr);
        let mapped_sid_nr = self.map_sid_offset(dev_nr);
        self.sid_devices[mapped_dev_nr as usize].retry_write(mapped_sid_nr as i32)
    }
    /// Hands `force_flush` to the device that holds chip `dev_nr`, with the chip's
    /// number within that device.
    pub fn force_flush(&mut self, dev_nr: i32)
        requires
            old(self).wf(),
            old(self).valid_chip(dev_nr),
        ensures
            final(self).wf(),
            final(self).only_device_changed(old(self), old(self).device_of(dev_nr)),
            exists|m: &mut D|
                mut_ref_current(m) == old(self).devices()[old(self).device_of(dev_nr)]
                    && mut_ref_future(m) == final(self).devices()[old(self).device_of(dev_nr)]
                    && #[trigger] call_ensures(D::force_flush, (m, old(self).chip_offsets()[dev_nr as int] as i32), ()),
    {
        let mapped_dev_nr = self.map_device(dev_nr);
        let mapped_sid_nr = self.map_sid_offset(dev_nr);
        self.sid_devices[mapped_dev_nr as usize].force_flush(mapped_sid_nr as i32)
    }
    /// Hands `get_device_clock` to the device that holds chip `dev_nr`, with the chip's
    /// number within that device.
    pub fn get_device_clock(&mut self, dev_nr: i32) -> (r: SidClock)
        requires
            old(self).wf(),
            old(self).valid_chip(dev_nr),
        ensures
            final(self).wf(),
            final(self).only_device_changed(old(self), old(self).device_of(dev_nr)),
            exists|m: &mut D|
                mut_ref_current(m) == old(self).devices()[old(self).device_of(dev_nr)]
                    && mut_ref_future(m) == final(self).devices()[old(self).device_of(dev_nr)]
                    && #[trigger] call_ensures(D::get_device_clock, (m, old(self).chip_offsets()[dev_nr as int] as i32), r),
    {
        let mapped_dev_nr = self.map_device(dev_nr);
        let mapped_sid_nr = self.map_sid_offset(dev_nr);
        self.sid_devices[mapped_dev_nr as usize].get_device_clock(mapped_sid_nr as i32)
    }
    /// Hands `get_last_error` to the device that holds chip `dev_nr`, with the chip's
    /// number within that device.
    pub fn get_last_error(&mut self, dev_nr: i32) -> (r: Option<String>)
        requires
            old(self).wf(),
            old(self).valid_chip(dev_nr),
        ensures
            final(self).wf(),
            final(self).only_device_changed(old(self), old(self).device_of(dev_nr)),
            exists|m: &mut D|
                mut_ref_current(m) == old(self).devices()[old(self).device_of(dev_nr)]
                    && mut_ref_future(m) == final(self).devices()[old(self).device_of(dev_nr)]
                    && #[trigger] call_ensures(D::get_last_error, (m, old(self).chip_offsets()[dev_nr as int] as i32), r),
    {
        let mapped_dev_nr = self.map_device(dev_nr);
        let mapped_sid_nr = self.map_sid_offset(dev_nr);
        self.sid_devices[mapped_dev_nr as usize].get_last_error(mapped_sid_nr as i32)
    }
    /// Whether every device is connected (`dev_nr == -1`), or the device of
    /// chip `dev_nr`.
    pub fn is_connected(&mut self, dev_nr: i32) -> (r: bool)
        requires
            old(self).wf(),
            dev_nr == -1 || old(self).valid_chip(dev_nr),
        ensures
            final(self).wf(),
            final(self).same_layout(old(self)),
            dev_nr != -1 ==> final(self).only_device_changed(old(self), old(self).device_of(dev_nr)),
            dev_nr != -1 ==> exists|m: &mut D|
                mut_ref_current(m) == old(self).devices()[old(self).device_of(dev_nr)]
                    && mut_ref_future(m) == final(self).devices()[old(self).device_of(dev_nr)]
                    && #[trigger] call_ensures(D::is_connected, (m, old(self).chip_offsets()[dev_nr as int] as i32), r),
            dev_nr == -1 && r ==> forall|j: int|
                0 <= j < old(self).devices().len() ==> #[trigger] answers_connected(old(self).devices()[j], 0, true),
            dev_nr == -1 && !r ==> exists|k: int|
                0 <= k < old(self).devices().len() && #[trigger] answers_connected(old(self).devices()[k], 0, false)
                    && forall|j: int| 0 <= j < k ==> #[trigger] answers_connected(old(self).devices()[j], 0, true),
    {
        if dev_nr == -1 {
            let mut i: usize = 0;
            while i < self.sid_devices.len()
                invariant
                    dev_nr == -1,
                    self.wf(),
                    self.same_layout(old(self)),
                    i <= self.devices().len(),
                    forall|j: int| 0 <= j < i ==> #[trigger] answers_connected(old(self).devices()[j], 0, true),
                    forall|j: int| i <= j < self.devices().len() ==> #[trigger] self.devices()[j] == old(self).devices()[j],
                decreases self.sid_devices.len() - i,
            {
                let ghost before = self.sid_devices@;
                assert(before[i as int] == old(self).devices()[i as int]);
                let connected = self.sid_devices[i].is_connected(0);
                assert(answers_connected(old(self).devices()[i as int], 0, connected));
                if !connected {
                    return false;
                }
                proof {
                    assert forall|j: int| i + 1 <= j < self.devices().len() implies #[trigger] self.devices()[j]
                        == old(self).devices()[j] by {
                        assert(before[j] == old(self).devices()[j]);
                    }
                }
                i = i + 1;
            }
            return true;
        }
        let mapped_dev_nr = self.map_device(dev_nr);
        let mapped_sid_nr = self.map_sid_offset(dev_nr);
        self.sid_devices[mapped_dev_nr as usize].is_connected(mapped_sid_nr as i32)
    }

    /// Tests the connection of every device (`dev_nr == -1`), or of the device
    /// of chip `dev_nr`, and removes each device that is not connected after
    /// its test.
    pub fn test_connection(&mut self, dev_nr: i32)
        requires
            old(self).wf(),
            dev_nr == -1 || old(self).valid_chip(dev_nr),
        ensures
            final(self).wf(),
            final(self).devices().len() <= old(self).devices().len(),
            final(self).native_clock() == old(self).native_clock(),
            old(self).counted() ==> final(self).counted(),
            dev_nr != -1 ==> exists|m1: &mut D, m2: &mut D, c: bool|
                mut_ref_current(m1) == old(self).devices()[old(self).device_of(dev_nr)]
                    && #[trigger] call_ensures(
                    D::test_connection,
                    (m1, old(self).chip_offsets()[dev_nr as int] as i32),
                    (),
                ) && mut_ref_current(m2) == mut_ref_future(m1) && #[trigger] call_ensures(D::is_connected, (m2, 0i32), c)
                    && (c ==> final(self).only_device_changed(old(self), old(self).device_of(dev_nr))
                    && final(self).devices()[old(self).device_of(dev_nr)] == mut_ref_future(m2))
                    && (!c ==> final(self).removed(old(self), old(self).device_of(dev_nr)) && exists|m3: &mut D|
                    mut_ref_current(m3) == mut_ref_future(m2) && #[trigger] call_ensures(D::disconnect, (m3, 0i32), ())),
            dev_nr == -1 ==> forall|j: int|
                0 <= j < old(self).devices().len() ==> #[trigger] tested(old(self).devices()[j], 0),
            dev_nr == -1 ==> exists|states: Seq<SidDevices<D>>, keep: Seq<bool>, posts: Seq<(D, D)>|
                #[trigger] pruned_chain(*old(self), *final(self), states, keep, posts),
    {
        if dev_nr == -1 {
            let ghost n = self.devices().len() as int;
            let ghost start = *self;
            let ghost mut states: Seq<SidDevices<D>> = Seq::new((n + 1) as nat, |k: int| start);
            let ghost mut keep: Seq<bool> = Seq::new(n as nat, |k: int| true);
            let ghost mut posts: Seq<(D, D)> = Seq::new(n as nat, |k: int| (start.devices()[k], start.devices()[k]));
            let mut i: usize = self.sid_devices.len();
            while i > 0
                invariant
                    dev_nr == -1,
                    self.wf(),
                    n == old(self).devices().len(),
                    start == *old(self),
                    i <= self.sid_devices.len(),
                    i <= n,
                    self.devices().len() <= old(self).devices().len(),
                    self.native_clock() == old(self).native_clock(),
                    forall|j: int| 0 <= j < i ==> #[trigger] self.devices()[j] == old(self).devices()[j],
                    forall|j: int| i <= j < old(self).devices().len() ==> #[trigger] tested(old(self).devices()[j], 0),
                    states.len() == n + 1,
                    keep.len() == n,
                    posts.len() == n,
                    states[n] == start,
                    states[i as int] == *self,
                    forall|k: int|
                        i <= k < n ==> #[trigger] pruned_step(states[k], states[k + 1], k, keep[k], posts[k]),
                    start.counted() ==> self.counted(),
                decreases i,
            {
                i = i - 1;
                let ghost head = *self;
                let ghost before = self.sid_devices@;
                assert(before[i as int] == old(self).devices()[i as int]);
                self.sid_devices[i].test_connection(0);
                assert(tested(old(self).devices()[i as int], 0));
                let ghost after = self.sid_devices@;
                proof {
                    assert forall|j: int| 0 <= j < i implies #[trigger] after[j] == old(self).devices()[j] by {
                        assert(before[j] == old(self).devices()[j]);
                    }
                }
                let connected = self.sid_devices[i].is_connected(0);
                assert(answers_connected(after[i as int], 0, connected));
                let ghost mid = *self;
                proof {
                    assert(mid.same_layout(&head));
                    assert forall|j: int| 0 <= j < head.devices().len() && j != i implies #[trigger] mid.devices()[j]
                        == head.devices()[j] by {
                        assert(before[j] == after[j]);
                    }
                }
                if !connected {
                    self.disconnect_device(i);
                    proof {
                        assert(self.devices() =~= head.devices().remove(i as int));
                        assert(self.removed(&head, i as int));
                        if head.counted() {
                            self.lemma_remove_keeps_counted(&head, i as int);
                        }
                        assert forall|j: int| 0 <= j < i implies #[trigger] self.devices()[j] == old(self).devices()[j] by {
                            assert(after[j] == old(self).devices()[j]);
                        }
                    }
                } else {
                    proof {
                        assert forall|j: int| 0 <= j < i implies #[trigger] self.devices()[j] == old(self).devices()[j] by {
                            assert(after[j] == old(self).devices()[j]);
                        }
                    }
                }
                proof {
                    let ghost old_states = states;
                    let ghost old_keep = keep;
                    let ghost old_posts = posts;
                    states = states.update(i as int, *self);
                    keep = keep.update(i as int, connected);
                    posts = posts.update(i as int, (after[i as int], mid.devices()[i as int]));
                    assert(pruned_step(states[i as int], states[i + 1], i as int, keep[i as int], posts[i as int]));
                    assert forall|k: int|
                        i <= k < n implies #[trigger] pruned_step(states[k], states[k + 1], k, keep[k], posts[k]) by {
                        if k > i {
                            assert(states[k] == old_states[k]);
                            assert(states[k + 1] == old_states[k + 1]);
                            assert(keep[k] == old_keep[k]);
                            assert(posts[k] == old_posts[k]);
                        }
                    }
                }
            }
            proof {
                assert(pruned_chain(*old(self), *self, states, keep, posts));
            }
        } else {
            let mapped_dev_nr = self.map_device(dev_nr);
            let mapped_sid_nr = self.map_sid_offset(dev_nr);
            let ghost k = mapped_dev_nr as int;
            self.sid_devices[mapped_dev_nr as usize].test_connection(mapped_sid_nr as i32);
            let ghost s1 = *self;
            let connected = self.sid_devices[mapped_dev_nr as usize].is_connected(0);
            let ghost s2 = *self;
            proof {
                assert(s1.same_layout(old(self)));
                assert(s2.only_device_changed(old(self), k));
            }
            if !connected {
                self.disconnect_device(mapped_dev_nr as usize);
                proof {
                    assert(self.devices() =~= old(self).devices().remove(k));
                    assert(self.removed(old(self), k));
                    if old(self).counted() {
                        self.lemma_remove_keeps_counted(old(self), k);
                    }
                }
            }
        }
    }

    /// Two chips can play together only when one device holds both and that
    /// device says so.
    pub fn can_pair_devices(&mut self, dev1: i32, dev2: i32) -> (r: bool)
        requires
            old(self).wf(),
            old(self).valid_chip(dev1),
            old(self).valid_chip(dev2),
        ensures
            final(self).wf(),
            old(self).device_of(dev1) != old(self).device_of(dev2) ==> !r && *final(self) == *old(self),
            final(self).only_device_changed(old(self), old(self).device_of(dev1)),
            old(self).device_of(dev1) == old(self).device_of(dev2) ==> exists|m: &mut D|
                mut_ref_current(m) == old(self).devices()[old(self).device_of(dev1)]
                    && mut_ref_future(m) == final(self).devices()[old(self).device_of(dev1)]
                    && #[trigger] call_ensures(
                    D::can_pair_devices,
                    (m, old(self).chip_offsets()[dev1 as int] as i32, old(self).chip_offsets()[dev2 as int] as i32),
                    r,
                ),
    {
        let mapped_dev1 = self.map_device(dev1);
        let mapped_dev2 = self.map_device(dev2);

        if mapped_dev1 != mapped_dev2 {
            false
        } else {
            let mapped_sid_nr1 = self.map_sid_offset(dev1);
            let mapped_sid_nr2 = self.map_sid_offset(dev2);
            self.sid_devices[mapped_dev1 as usize].can_pair_devices(mapped_sid_nr1 as i32, mapped_sid_nr2 as i32)
        }
    }

    /// The number of SID chips the devices reported.
    pub fn get_device_count(&mut self, _dev_nr: i32) -> (r: i32)
        ensures
            r == old(self).chip_total(),
            *final(self) == *old(self),
    {
        self.device_count
    }

    /// The name of chip `dev_nr`.
    pub fn get_device_info(&mut self, dev_nr: i32) -> (r: String)
        requires
            old(self).wf(),
            old(self).valid_chip(dev_nr),
        ensures
            r == old(self).chip_names()[dev_nr as int],
            *final(self) == *old(self),
    {
        self.device_name[dev_nr as usize].clone()
    }

    /// Hands the clock setting to every device and keeps it for devices
    /// that connect later.
    pub fn set_native_device_clock(&mut self, enabled: bool)
        requires
            old(self).wf(),
        ensures
            final(self).wf(),
            final(self).native_clock() == enabled,
            final(self).chip_total() == old(self).chip_total(),
            final(self).chip_names() == old(self).chip_names(),
            final(self).chip_devices() == old(self).chip_devices(),
            final(self).chip_offsets() == old(self).chip_offsets(),
            final(self).device_chip_counts() == old(self).device_chip_counts(),
            final(self).devices().len() == old(self).devices().len(),
            forall|j: int| 0 <= j < old(self).devices().len() ==> #[trigger] told_native_clock(old(self).devices()[j], enabled),
    {
        self.use_native_device_clock = enabled;
        let mut i: usize = 0;
        while i < self.sid_devices.len()
            invariant
                self.wf(),
                self.native_clock() == enabled,
                self.chip_total() == old(self).chip_total(),
                self.chip_names() == old(self).chip_names(),
                self.chip_devices() == old(self).chip_devices(),
                self.chip_offsets() == old(self).chip_offsets(),
                self.device_chip_counts() == old(self).device_chip_counts(),
                self.devices().len() == old(self).devices().len(),
                forall|j: int| 0 <= j < i ==> #[trigger] told_native_clock(old(self).devices()[j], enabled),
                forall|j: int| i <= j < self.devices().len() ==> #[trigger] self.devices()[j] == old(self).devices()[j],
            decreases self.sid_devices.len() - i,
        {
            let ghost before = self.sid_devices@;
            assert(before[i as int] == old(self).devices()[i as int]);
            self.sid_devices[i].set_native_device_clock(enabled);
            assert(told_native_clock(old(self).devices()[i as int], enabled));
            proof {
                assert forall|j: int| i + 1 <= j < self.devices().len() implies #[trigger] self.devices()[j]
                    == old(self).devices()[j] by {
                    assert(before[j] == old(self).devices()[j]);
                }
            }
            i = i + 1;
        }
    }

    /// The chip lists run in parallel and each chip names a connected
    /// device, and `dev_nr` numbers a chip.
    pub fn accepts_chip(&self, dev_nr: i32) -> (r: bool)
        ensures
            r == (self.wf() && self.valid_chip(dev_nr)),
    {
        if self.device_mapping_id.len() != self.device_name.len()
            || self.device_offset.len() != self.device_name.len()
            || self.device_sid_count.len() != self.sid_devices.len() {
            return false;
        }
        let mut i: usize = 0;
        while i < self.device_mapping_id.len()
            invariant
                i <= self.device_mapping_id.len(),
                forall|k: int| 0 <= k < i ==> (#[trigger] self.chip_devices()[k] as int) < self.devices().len(),
            decreases self.device_mapping_id.len() - i,
        {
            if self.device_mapping_id[i] as usize >= self.sid_devices.len() {
                return false;
            }
            i = i + 1;
        }
        0 <= dev_nr && (dev_nr as usize) < self.device_mapping_id.len()
    }

    /// The chip lists run in parallel and each chip names a connected device.
    pub fn is_consistent(&self) -> (r: bool)
        ensures
            r == self.wf(),
    {
        if self.device_mapping_id.len() != self.device_name.len()
            || self.device_offset.len() != self.device_name.len()
            || self.device_sid_count.len() != self.sid_devices.len() {
            return false;
        }
        let mut i: usize = 0;
        while i < self.device_mapping_id.len()
            invariant
                i <= self.device_mapping_id.len(),
                forall|k: int| 0 <= k < i ==> (#[trigger] self.chip_devices()[k] as int) < self.devices().len(),
            decreases self.device_mapping_id.len() - i,
        {
            if self.device_mapping_id[i] as usize >= self.sid_devices.len() {
                return false;
            }
            i = i + 1;
        }
        true
    }

    /// With the counts right, the chip count is also the sum of the chip
    /// counts the devices reported.
    pub proof fn lemma_counted_sum(&self)
        requires
            self.counted(),
        ensures
            count_sum(self.device_chip_counts()) == self.chip_total(),
    {
        let m = self.chip_devices();
        let counts = self.device_chip_counts();
        let n = counts.len() as int;
        lemma_sum_prefix(counts, m, n);
        assert(counts.take(n) =~= counts);
        lemma_chips_below_all(m, n);
    }

    /// A device whose two answers to how many chips it has agree keeps the
    /// counts right when it is added: the chip count stays the number of
    /// names, and the new device holds the chips it reported.
    pub proof fn lemma_add_keeps_counted(&self, before: &SidDevices<D>, c1: i32, c2: i32)
        requires
            before.counted(),
            self.wf(),
            self.devices().len() == before.devices().len() + 1,
            self.devices().len() <= 256,
            self.device_chip_counts() == before.device_chip_counts().push(c1 as u8),
            self.registered(before, before.devices().len() as int, c2),
            c1 == c2,
            0 <= c1 <= 255,
            before.chip_total() + c1 <= i32::MAX,
        ensures
            self.counted(),
    {
        let n = before.devices().len() as int;
        assert forall|d: int| 0 <= d < self.devices().len() implies chips_of(self.chip_devices(), d as u8)
            == #[trigger] self.device_chip_counts()[d] by {
            lemma_chips_of_concat(before.chip_devices(), repeated(n as u8, c2 as nat), d as u8);
            lemma_chips_of_repeated(n as u8, c2 as nat, d as u8);
            if d == n {
                assert forall|i: int| 0 <= i < before.chip_devices().len() implies before.chip_devices()[i] < (d as u8) by {
                    assert((before.chip_devices()[i] as int) < n);
                }
                lemma_chips_of_above(before.chip_devices(), d as u8);
            } else {
                assert(before.device_chip_counts()[d] == chips_of(before.chip_devices(), d as u8));
            }
        }
        let m = self.chip_devices();
        let old_len = before.chip_devices().len() as int;
        assert forall|i: int| 0 <= i < m.len() implies (#[trigger] self.chip_offsets()[i] as int)
            < self.device_chip_counts()[m[i] as int] by {
            if i < old_len {
                assert(m[i] == before.chip_devices()[i]);
                assert(self.chip_offsets()[i] == before.chip_offsets()[i]);
            } else {
                assert(m[i] == n as u8);
                assert(self.chip_offsets()[i] == (i - old_len) as u8);
            }
        }
        assert forall|a: int, b: int| 0 <= a < b < m.len() implies #[trigger] m[a] <= #[trigger] m[b] by {
            if b < old_len {
                assert(m[a] == before.chip_devices()[a] && m[b] == before.chip_devices()[b]);
            } else if a < old_len {
                assert(m[a] == before.chip_devices()[a]);
                assert((before.chip_devices()[a] as int) < n);
            }
        }
    }

    /// Removing a device keeps the counts right: the chip count stays the
    /// number of names, and each other device holds the chips it reported.
    pub proof fn lemma_remove_keeps_counted(&self, before: &SidDevices<D>, d: int)
        requires
            before.counted(),
            0 <= d < before.devices().len(),
            self.removed(before, d),
        ensures
            self.counted(),
    {
        let m = before.chip_devices();
        let n = before.devices().len() as int;
        lemma_renumber(m, d as u8, n);
        lemma_without_device_len(before.chip_names(), m, d as u8);
        lemma_without_device_len(before.chip_offsets(), m, d as u8);
        lemma_chips_of_split(m, d as u8);
        assert(before.device_chip_counts()[d] == chips_of(m, d as u8));
        assert(self.chip_names().len() == before.chip_names().len() - chips_of(m, d as u8));
        assert(self.chip_total() == before.chip_total() - before.device_chip_counts()[d]);
        assert(self.devices().len() == n - 1);
        assert(self.wf());
        assert forall|e: int| 0 <= e < self.devices().len() implies chips_of(self.chip_devices(), e as u8)
            == #[trigger] self.device_chip_counts()[e] by {
            lemma_chips_of_renumber(m, d as u8, e as u8);
            if e < d {
                assert(self.device_chip_counts()[e] == before.device_chip_counts()[e]);
            } else {
                assert(self.device_chip_counts()[e] == before.device_chip_counts()[e + 1]);
            }
        }
        assert forall|i: int| 0 <= i < self.chip_devices().len() implies (#[trigger] self.chip_offsets()[i] as int)
            < self.device_chip_counts()[self.chip_devices()[i] as int] by {
            let j = lemma_remove_index(before.chip_offsets(), m, d as u8, i);
            assert(before.chip_offsets()[j] < before.device_chip_counts()[m[j] as int]);
            if m[j] < d as u8 {
                assert(self.device_chip_counts()[m[j] as int] == before.device_chip_counts()[m[j] as int]);
            } else {
                assert(self.device_chip_counts()[m[j] - 1] == before.device_chip_counts()[m[j] as int]);
            }
        }
        lemma_renumber_in_order(m, d as u8, n);
    }

    /// `self` is `before` without device `d` and its chips.
    pub open spec fn removed(&self, before: &SidDevices<D>, d: int) -> bool {
        &&& self.devices() == before.devices().remove(d)
        &&& self.device_chip_counts() == before.device_chip_counts().remove(d)
        &&& self.chip_names() == without_device(before.chip_names(), before.chip_devices(), d as u8)
        &&& self.chip_offsets() == without_device(before.chip_offsets(), before.chip_devices(), d as u8)
        &&& self.chip_devices() == renumber(before.chip_devices(), d as u8)
        &&& self.chip_total() == vstd::wrapping::i32_specs::wrapping_sub(
            before.chip_total(),
            before.device_chip_counts()[d] as i32,
        )
        &&& self.native_clock() == before.native_clock()
    }

    fn disconnect_device(&mut self, dev_nr: usize)
        requires
            old(self).wf(),
            dev_nr < old(self).devices().len(),
        ensures
            final(self).wf(),
            final(self).removed(old(self), dev_nr as int),
            exists|m: &mut D|
                mut_ref_current(m) == old(self).devices()[dev_nr as int]
                    && #[trigger] call_ensures(D::disconnect, (m, 0i32), ()),
    {
        let device_count = self.device_sid_count[dev_nr];
        self.sid_devices[dev_nr].disconnect(0);
        let ghost disconnected = self.sid_devices@;
        self.sid_devices.remove(dev_nr);
        self.device_sid_count.remove(dev_nr);
        proof {
            assert(self.device_sid_count@ =~= old(self).device_chip_counts().remove(dev_nr as int));
            assert(self.sid_devices@ =~= old(self).devices().remove(dev_nr as int)) by {
                assert(disconnected.remove(dev_nr as int) =~= old(self).devices().remove(dev_nr as int));
            }
        }

        let d = dev_nr as u8;
        proof {
            if dev_nr < 256 {
                assert(d == dev_nr);
            }
            assert((d as int) < old(self).devices().len());
        }
        let ghost m0 = self.device_mapping_id@;
        let ghost n0 = self.device_name@;
        let ghost o0 = self.device_offset@;
        let mut i: usize = self.device_mapping_id.len();
        proof {
            assert(n0.take(i as int) =~= n0);
            assert(o0.take(i as int) =~= o0);
            assert(n0.skip(i as int) =~= Seq::<String>::empty());
            assert(o0.skip(i as int) =~= Seq::<u8>::empty());
        }
        while i > 0
            invariant
                self.sid_devices@ == old(self).devices().remove(dev_nr as int),
                self.device_sid_count@ == old(self).device_chip_counts().remove(dev_nr as int),
                self.device_count == old(self).chip_total(),
                self.use_native_device_clock == old(self).native_clock(),
                i <= m0.len(),
                m0.len() == n0.len(),
                m0.len() == o0.len(),
                self.device_mapping_id@ == m0,
                self.device_name@ == n0.take(i as int) + without_device(n0.skip(i as int), m0.skip(i as int), d),
                self.device_offset@ == o0.take(i as int) + without_device(o0.skip(i as int), m0.skip(i as int), d),
            decreases i,
        {
            let k = i - 1;
            proof {
                assert(n0.skip(k as int).drop_first() =~= n0.skip(i as int));
                assert(o0.skip(k as int).drop_first() =~= o0.skip(i as int));
                assert(m0.skip(k as int).drop_first() =~= m0.skip(i as int));
                assert(n0.skip(k as int)[0] == n0[k as int]);
                assert(o0.skip(k as int)[0] == o0[k as int]);
                assert(m0.skip(k as int)[0] == m0[k as int]);
            }
            if self.device_mapping_id[k] == d {
                let ghost nb = self.device_name@;
                let ghost ob = self.device_offset@;
                self.device_name.remove(k);
                self.device_offset.remove(k);
                proof {
                    assert(self.device_name@ =~= n0.take(k as int) + without_device(n0.skip(k as int), m0.skip(k as int), d));
                    assert(self.device_offset@ =~= o0.take(k as int) + without_device(o0.skip(k as int), m0.skip(k as int), d));
                }
            } else {
                proof {
                    assert(self.device_name@ =~= n0.take(k as int) + without_device(n0.skip(k as int), m0.skip(k as int), d));
                    assert(self.device_offset@ =~= o0.take(k as int) + without_device(o0.skip(k as int), m0.skip(k as int), d));
                }
            }
            i = k;
        }
        proof {
            assert(n0.skip(0) =~= n0);
            assert(o0.skip(0) =~= o0);
            assert(m0.skip(0) =~= m0);
            assert(self.device_name@ =~= without_device(n0, m0, d));
            assert(self.device_offset@ =~= without_device(o0, m0, d));
        }

        let mut mapping: Vec<u8> = Vec::new();
        let mut j: usize = 0;
        proof {
            assert(m0.skip(0) =~= m0);
            assert(mapping@ + renumber(m0, d) =~= renumber(m0, d));
        }
        while j < self.device_mapping_id.len()
            invariant
                self.sid_devices@ == old(self).devices().remove(dev_nr as int),
                self.device_sid_count@ == old(self).device_chip_counts().remove(dev_nr as int),
                self.device_count == old(self).chip_total(),
                self.use_native_device_clock == old(self).native_clock(),
                self.device_mapping_id@ == m0,
                self.device_name@ == without_device(n0, m0, d),
                self.device_offset@ == without_device(o0, m0, d),
                j <= m0.len(),
                mapping@ + renumber(m0.skip(j as int), d) == renumber(m0, d),
            decreases m0.len() - j,
        {
            let index = self.device_mapping_id[j];
            proof {
                assert(m0.skip(j as int).drop_first() =~= m0.skip(j + 1));
                assert(m0.skip(j as int)[0] == index);
            }
            if index != d {
                let ghost before = mapping@;
                if index > d {
                    mapping.push(index - 1);
                } else {
                    mapping.push(index);
                }
                proof {
                    assert(mapping@ + renumber(m0.skip(j + 1), d) =~= before + renumber(m0.skip(j as int), d));
                }
            }
            j = j + 1;
        }
        proof {
            assert(m0.skip(m0.len() as int) =~= Seq::<u8>::empty());
            assert(mapping@ =~= renumber(m0, d));
            lemma_renumber(m0, d, old(self).devices().len() as int);
            lemma_without_device_len(n0, m0, d);
            lemma_without_device_len(o0, m0, d);
        }
        self.device_mapping_id = mapping;
        self.device_count = self.device_count.wrapping_sub(device_count as i32);
        proof {
            assert(self.chip_devices() == renumber(m0, d));
            assert(self.chip_names() == without_device(n0, m0, d));
            assert(self.chip_offsets() == without_device(o0, m0, d));
            assert(self.devices() == old(self).devices().remove(dev_nr as int));
            assert(self.chip_devices().len() == self.chip_names().len());
            assert(self.chip_offsets().len() == self.chip_names().len());
            assert(self.device_chip_counts().len() == self.devices().len());
        }
    }
}


/// The devices behind the `SidDevice` interface. A chip number that no chip
/// has is ignored: queries on it answer not connected, no error, no pairing,
/// an empty name, an error response and the PAL clock.
impl<D: SidDevice> SidDevice for SidDevicesFacade<D> {
    fn disconnect(&mut self, dev_nr: i32)
        ensures
            old(self).devices.accepts(dev_nr) && dev_nr < old(self).devices.chip_total() ==> final(self).devices.wf()
                && final(self).devices.removed(&old(self).devices, old(self).devices.device_of(dev_nr))
                && exists|m: &mut D|
                mut_ref_current(m) == old(self).devices.devices()[old(self).devices.device_of(dev_nr)]
                    && #[trigger] call_ensures(D::disconnect, (m, 0i32), ()),
            !old(self).devices.accepts(dev_nr) || dev_nr >= old(self).devices.chip_total() ==> *final(self) == *old(
                self,
            ),
    {
        if self.devices.accepts_chip(dev_nr) {
            self.devices.disconnect(dev_nr);
        }
    }

    fn is_connected(&mut self, dev_nr: i32) -> (r: bool)
        ensures
            old(self).devices.accepts(dev_nr) ==> final(self).devices.only_device_changed(
                &old(self).devices,
                old(self).devices.device_of(dev_nr),
            ) && exists|m: &mut D|
                mut_ref_current(m) == old(self).devices.devices()[old(self).devices.device_of(dev_nr)]
                    && mut_ref_future(m) == final(self).devices.devices()[old(self).devices.device_of(dev_nr)]
                    && #[trigger] call_ensures(
                    D::is_connected,
                    (m, old(self).devices.chip_offsets()[dev_nr as int] as i32),
                    r,
                ),
            dev_nr == -1 && old(self).devices.wf() && r ==> forall|j: int|
                0 <= j < old(self).devices.devices().len() ==> #[trigger] answers_connected(
                    old(self).devices.devices()[j],
                    0,
                    true,
                ),
            dev_nr == -1 && old(self).devices.wf() && !r ==> exists|k: int|
                0 <= k < old(self).devices.devices().len() && #[trigger] answers_connected(
                    old(self).devices.devices()[k],
                    0,
                    false,
                ) && forall|j: int|
                    0 <= j < k ==> #[trigger] answers_connected(old(self).devices.devices()[j], 0, true),
            !(dev_nr == -1 && old(self).devices.wf()) && !old(self).devices.accepts(dev_nr) ==> !r && *final(self)
                == *old(self),
    {
        if (dev_nr == -1 && self.devices.is_consistent()) || self.devices.accepts_chip(dev_nr) {
            self.devices.is_connected(dev_nr)
        } else {
            false
        }
    }

    fn get_last_error(&mut self, dev_nr: i32) -> (r: Option<String>)
        ensures
            old(self).devices.accepts(dev_nr) ==> final(self).devices.wf()
                && final(self).devices.only_device_changed(&old(self).devices, old(self).devices.device_of(dev_nr))
                && exists|m: &mut D|
                mut_ref_current(m) == old(self).devices.devices()[old(self).devices.device_of(dev_nr)]
                    && mut_ref_future(m) == final(self).devices.devices()[old(self).devices.device_of(dev_nr)]
                    && #[trigger] call_ensures(D::get_last_error, (m, old(self).devices.chip_offsets()[dev_nr as int] as i32), r),
            !old(self).devices.accepts(dev_nr) ==> r is None && *final(self) == *old(self),
    {
        if self.devices.accepts_chip(dev_nr) {
            self.devices.get_last_error(dev_nr)
        } else {
            None
        }
    }

    fn test_connection(&mut self, dev_nr: i32)
        ensures
            (dev_nr == -1 && old(self).devices.wf()) || old(self).devices.accepts(dev_nr) ==> final(self).devices.wf()
                && final(self).devices.devices().len() <= old(self).devices.devices().len(),
            old(self).devices.accepts(dev_nr) ==> exists|m1: &mut D, m2: &mut D, c: bool|
                mut_ref_current(m1) == old(self).devices.devices()[old(self).devices.device_of(dev_nr)]
                    && #[trigger] call_ensures(
                    D::test_connection,
                    (m1, old(self).devices.chip_offsets()[dev_nr as int] as i32),
                    (),
                ) && mut_ref_current(m2) == mut_ref_future(m1) && #[trigger] call_ensures(D::is_connected, (m2, 0i32), c)
                    && (c ==> final(self).devices.only_device_changed(&old(self).devices, old(self).devices.device_of(dev_nr))
                    && final(self).devices.devices()[old(self).devices.device_of(dev_nr)] == mut_ref_future(m2))
                    && (!c ==> final(self).devices.removed(&old(self).devices, old(self).devices.device_of(dev_nr))),
            dev_nr == -1 && old(self).devices.wf() ==> forall|j: int|
                0 <= j < old(self).devices.devices().len() ==> #[trigger] tested(old(self).devices.devices()[j], 0),
            dev_nr == -1 && old(self).devices.wf() ==> exists|
                states: Seq<SidDevices<D>>,
                keep: Seq<bool>,
                posts: Seq<(D, D)>,
            | #[trigger] pruned_chain(old(self).devices, final(self).devices, states, keep, posts),
            !(dev_nr == -1 && old(self).devices.wf()) && !old(self).devices.accepts(dev_nr) ==> *final(self)
                == *old(self),
    {
        if (dev_nr == -1 && self.devices.is_consistent()) || self.devices.accepts_chip(dev_nr) {
            self.devices.test_connection(dev_nr);
        }
    }

    fn can_pair_devices(&mut self, dev1: i32, dev2: i32) -> (r: bool)
        ensures
            old(self).devices.accepts(dev1) && old(self).devices.accepts(dev2) && old(self).devices.device_of(dev1)
                == old(self).devices.device_of(dev2) ==> exists|m: &mut D|
                mut_ref_current(m) == old(self).devices.devices()[old(self).devices.device_of(dev1)]
                    && mut_ref_future(m) == final(self).devices.devices()[old(self).devices.device_of(dev1)]
                    && #[trigger] call_ensures(
                    D::can_pair_devices,
                    (
                        m,
                        old(self).devices.chip_offsets()[dev1 as int] as i32,
                        old(self).devices.chip_offsets()[dev2 as int] as i32,
                    ),
                    r,
                ),
            !(old(self).devices.accepts(dev1) && old(self).devices.accepts(dev2) && old(self).devices.device_of(dev1)
                == old(self).devices.device_of(dev2)) ==> !r,
    {
        if self.devices.accepts_chip(dev1) && self.devices.accepts_chip(dev2) {
            self.devices.can_pair_devices(dev1, dev2)
        } else {
            false
        }
    }

    fn get_device_count(&mut self, dev_nr: i32) -> (r: i32)
        ensures
            r == old(self).devices.chip_total(),
            *final(self) == *old(self),
    {
        self.devices.get_device_count(dev_nr)
    }

    fn get_device_info(&mut self, dev_nr: i32) -> (r: String)
        ensures
            old(self).devices.accepts(dev_nr) ==> r == old(self).devices.chip_names()[dev_nr as int],
            !old(self).devices.accepts(dev_nr) ==> r@ == Seq::<char>::empty(),
            *final(self) == *old(self),
    {
        if self.devices.accepts_chip(dev_nr) {
            self.devices.get_device_info(dev_nr)
        } else {
            String::new()
        }
    }

    fn set_native_device_clock(&mut self, enabled: bool)
        ensures
            old(self).devices.wf() ==> final(self).devices.wf() && final(self).devices.native_clock() == enabled
                && final(self).devices.devices().len() == old(self).devices.devices().len() && forall|j: int|
                0 <= j < old(self).devices.devices().len() ==> #[trigger] told_native_clock(
                    old(self).devices.devices()[j],
                    enabled,
                ),
            !old(self).devices.wf() ==> *final(self) == *old(self),
    {
        if self.devices.is_consistent() {
            self.devices.set_native_device_clock(enabled);
        }
    }

    fn get_device_clock(&mut self, dev_nr: i32) -> (r: SidClock)
        ensures
            old(self).devices.accepts(dev_nr) ==> final(self).devices.wf()
                && final(self).devices.only_device_changed(&old(self).devices, old(self).devices.device_of(dev_nr))
                && exists|m: &mut D|
                mut_ref_current(m) == old(self).devices.devices()[old(self).devices.device_of(dev_nr)]
                    && mut_ref_future(m) == final(self).devices.devices()[old(self).devices.device_of(dev_nr)]
                    && #[trigger] call_ensures(D::get_device_clock, (m, old(self).devices.chip_offsets()[dev_nr as int] as i32), r),
            !old(self).devices.accepts(dev_nr) ==> r == SidClock::Pal && *final(self) == *old(self),
    {
        if self.devices.accepts_chip(dev_nr) {
            self.devices.get_device_clock(dev_nr)
        } else {
            SidClock::Pal
        }
    }

    fn try_write(&mut self, dev_nr: i32, cycles_input: u32, reg: u8, data: u8) -> (r: DeviceResponse)
        ensures
            old(self).devices.accepts(dev_nr) ==> final(self).devices.wf()
                && final(self).devices.only_device_changed(&old(self).devices, old(self).devices.device_of(dev_nr))
                && exists|m: &mut D|
                mut_ref_current(m) == old(self).devices.devices()[old(self).devices.device_of(dev_nr)]
                    && mut_ref_future(m) == final(self).devices.devices()[old(self).devices.device_of(dev_nr)]
                    && #[trigger] call_ensures(D::try_write, (m, old(self).devices.chip_offsets()[dev_nr as int] as i32, cycles_input, reg, data), r),
            !old(self).devices.accepts(dev_nr) ==> r is Error && *final(self) == *old(self),
    {
        if self.devices.accepts_chip(dev_nr) {
            self.devices.try_write(dev_nr, cycles_input, reg, data)
        } else {
            DeviceResponse::Error
        }
    }

    fn retry_write(&mut self, dev_nr: i32) -> (r: DeviceResponse)
        ensures
            old(self).devices.accepts(dev_nr) ==> final(self).devices.wf()
                && final(self).devices.only_device_changed(&old(self).devices, old(self).devices.device_of(dev_nr))
                && exists|m: &mut D|
                mut_ref_current(m) == old(self).devices.devices()[old(self).devices.device_of(dev_nr)]
                    && mut_ref_future(m) == final(self).devices.devices()[old(self).devices.device_of(dev_nr)]
                    && #[trigger] call_ensures(D::retry_write, (m, old(self).devices.chip_offsets()[dev_nr as int] as i32), r),
            !old(self).devices.accepts(dev_nr) ==> r is Error && *final(self) == *old(self),
    {
        if self.devices.accepts_chip(dev_nr) {
            self.devices.retry_write(dev_nr)
        } else {
            DeviceResponse::Error
        }
    }

    fn set_sid_count(&mut self, dev_nr: i32, sid_count: i32)
        ensures
            old(self).devices.accepts(dev_nr) ==> final(self).devices.wf()
                && final(self).devices.only_device_changed(&old(self).devices, old(self).devices.device_of(dev_nr))
                && exists|m: &mut D|
                mut_ref_current(m) == old(self).devices.devices()[old(self).devices.device_of(dev_nr)]
                    && mut_ref_future(m) == final(self).devices.devices()[old(self).devices.device_of(dev_nr)]
                    && #[trigger] call_ensures(D::set_sid_count, (m, old(self).devices.chip_offsets()[dev_nr as int] as i32, sid_count), ()),
            !old(self).devices.accepts(dev_nr) ==> *final(self) == *old(self),
    {
        if self.devices.accepts_chip(dev_nr) {
            self.devices.set_sid_count(dev_nr, sid_count);
        }
    }

    fn set_sid_position(&mut self, dev_nr: i32, sid_position: i8)
        ensures
            old(self).devices.accepts(dev_nr) ==> final(self).devices.wf()
                && final(self).devices.only_device_changed(&old(self).devices, old(self).devices.device_of(dev_nr))
                && exists|m: &mut D|
                mut_ref_current(m) == old(self).devices.devices()[old(self).devices.device_of(dev_nr)]
                    && mut_ref_future(m) == final(self).devices.devices()[old(self).devices.device_of(dev_nr)]
                    && #[trigger] call_ensures(D::set_sid_position, (m, old(self).devices.chip_offsets()[dev_nr as int] as i32, sid_position), ()),
            !old(self).devices.accepts(dev_nr) ==> *final(self) == *old(self),
    {
        if self.devices.accepts_chip(dev_nr) {
            self.devices.set_sid_position(dev_nr, sid_position);
        }
    }

    fn set_sid_model(&mut self, dev_nr: i32, sid_socket: i32)
        ensures
            old(self).devices.accepts(dev_nr) ==> final(self).devices.wf()
                && final(self).devices.only_device_changed(&old(self).devices, old(self).devices.device_of(dev_nr))
                && exists|m: &mut D|
                mut_ref_current(m) == old(self).devices.devices()[old(self).devices.device_of(dev_nr)]
                    && mut_ref_future(m) == final(self).devices.devices()[old(self).devices.device_of(dev_nr)]
                    && #[trigger] call_ensures(D::set_sid_model, (m, old(self).devices.chip_offsets()[dev_nr as int] as i32, sid_socket), ()),
            !old(self).devices.accepts(dev_nr) ==> *final(self) == *old(self),
    {
        if self.devices.accepts_chip(dev_nr) {
            self.devices.set_sid_model(dev_nr, sid_socket);
        }
    }

    fn set_sid_clock(&mut self, dev_nr: i32, sid_clock: SidClock)
        ensures
            old(self).devices.accepts(dev_nr) ==> final(self).devices.wf()
                && final(self).devices.only_device_changed(&old(self).devices, old(self).devices.device_of(dev_nr))
                && exists|m: &mut D|
                mut_ref_current(m) == old(self).devices.devices()[old(self).devices.device_of(dev_nr)]
                    && mut_ref_future(m) == final(self).devices.devices()[old(self).devices.device_of(dev_nr)]
                    && #[trigger] call_ensures(D::set_sid_clock, (m, old(self).devices.chip_offsets()[dev_nr as int] as i32, sid_clock), ()),
            !old(self).devices.accepts(dev_nr) ==> *final(self) == *old(self),
    {
        if self.devices.accepts_chip(dev_nr) {
            self.devices.set_sid_clock(dev_nr, sid_clock);
        }
    }

    fn set_sampling_method(&mut self, dev_nr: i32, sampling_method: SamplingMethod)
        ensures
            old(self).devices.accepts(dev_nr) ==> final(self).devices.wf()
                && final(self).devices.only_device_changed(&old(self).devices, old(self).devices.device_of(dev_nr))
                && exists|m: &mut D|
                mut_ref_current(m) == old(self).devices.devices()[old(self).devices.device_of(dev_nr)]
                    && mut_ref_future(m) == final(self).devices.devices()[old(self).devices.device_of(dev_nr)]
                    && #[trigger] call_ensures(D::set_sampling_method, (m, old(self).devices.chip_offsets()[dev_nr as int] as i32, sampling_method), ()),
            !old(self).devices.accepts(dev_nr) ==> *final(self) == *old(self),
    {
        if self.devices.accepts_chip(dev_nr) {
            self.devices.set_sampling_method(dev_nr, sampling_method);
        }
    }

    fn set_sid_header(&mut self, dev_nr: i32, sid_header: Vec<u8>)
        ensures
            old(self).devices.accepts(dev_nr) ==> final(self).devices.wf()
                && final(self).devices.only_device_changed(&old(self).devices, old(self).devices.device_of(dev_nr))
                && exists|m: &mut D|
                mut_ref_current(m) == old(self).devices.devices()[old(self).devices.device_of(dev_nr)]
                    && mut_ref_future(m) == final(self).devices.devices()[old(self).devices.device_of(dev_nr)]
                    && #[trigger] call_ensures(D::set_sid_header, (m, old(self).devices.chip_offsets()[dev_nr as int] as i32, sid_header), ()),
            !old(self).devices.accepts(dev_nr) ==> *final(self) == *old(self),
    {
        if self.devices.accepts_chip(dev_nr) {
            self.devices.set_sid_header(dev_nr, sid_header);
        }
    }

    fn set_fade_in(&mut self, dev_nr: i32, time_millis: u32)
        ensures
            old(self).devices.accepts(dev_nr) ==> final(self).devices.wf()
                && final(self).devices.only_device_changed(&old(self).devices, old(self).devices.device_of(dev_nr))
                && exists|m: &mut D|
                mut_ref_current(m) == old(self).devices.devices()[old(self).devices.device_of(dev_nr)]
                    && mut_ref_future(m) == final(self).devices.devices()[old(self).devices.device_of(dev_nr)]
                    && #[trigger] call_ensures(D::set_fade_in, (m, old(self).devices.chip_offsets()[dev_nr as int] as i32, time_millis), ()),
            !old(self).devices.accepts(dev_nr) ==> *final(self) == *old(self),
    {
        if self.devices.accepts_chip(dev_nr) {
            self.devices.set_fade_in(dev_nr, time_millis);
        }
    }

    fn set_fade_out(&mut self, dev_nr: i32, time_millis: u32)
        ensures
            old(self).devices.accepts(dev_nr) ==> final(self).devices.wf()
                && final(self).devices.only_device_changed(&old(self).devices, old(self).devices.device_of(dev_nr))
                && exists|m: &mut D|
                mut_ref_current(m) == old(self).devices.devices()[old(self).devices.device_of(dev_nr)]
                    && mut_ref_future(m) == final(self).devices.devices()[old(self).devices.device_of(dev_nr)]
                    && #[trigger] call_ensures(D::set_fade_out, (m, old(self).devices.chip_offsets()[dev_nr as int] as i32, time_millis), ()),
            !old(self).devices.accepts(dev_nr) ==> *final(self) == *old(self),
    {
        if self.devices.accepts_chip(dev_nr) {
            self.devices.set_fade_out(dev_nr, time_millis);
        }
    }

    fn silent_all_sids(&mut self, dev_nr: i32, write_volume: bool)
        ensures
            old(self).devices.accepts(dev_nr) ==> final(self).devices.wf()
                && final(self).devices.only_device_changed(&old(self).devices, old(self).devices.device_of(dev_nr))
                && exists|m: &mut D|
                mut_ref_current(m) == old(self).devices.devices()[old(self).devices.device_of(dev_nr)]
                    && mut_ref_future(m) == final(self).devices.devices()[old(self).devices.device_of(dev_nr)]
                    && #[trigger] call_ensures(D::silent_all_sids, (m, old(self).devices.chip_offsets()[dev_nr as int] as i32, write_volume), ()),
            !old(self).devices.accepts(dev_nr) ==> *final(self) == *old(self),
    {
        if self.devices.accepts_chip(dev_nr) {
            self.devices.silent_all_sids(dev_nr, write_volume);
        }
    }

    fn silent_sid(&mut self, dev_nr: i32, write_volume: bool)
        ensures
            old(self).devices.accepts(dev_nr) ==> final(self).devices.wf()
                && final(self).devices.only_device_changed(&old(self).devices, old(self).devices.device_of(dev_nr))
                && exists|m: &mut D|
                mut_ref_current(m) == old(self).devices.devices()[old(self).devices.device_of(dev_nr)]
                    && mut_ref_future(m) == final(self).devices.devices()[old(self).devices.device_of(dev_nr)]
                    && #[trigger] call_ensures(D::silent_sid, (m, old(self).devices.chip_offsets()[dev_nr as int] as i32, write_volume), ()),
            !old(self).devices.accepts(dev_nr) ==> *final(self) == *old(self),
    {
        if self.devices.accepts_chip(dev_nr) {
            self.devices.silent_sid(dev_nr, write_volume);
        }
    }

    fn device_reset(&mut self, dev_nr: i32)
        ensures
            old(self).devices.accepts(dev_nr) ==> final(self).devices.wf()
                && final(self).devices.only_device_changed(&old(self).devices, old(self).devices.device_of(dev_nr))
                && exists|m: &mut D|
                mut_ref_current(m) == old(self).devices.devices()[old(self).devices.device_of(dev_nr)]
                    && mut_ref_future(m) == final(self).devices.devices()[old(self).devices.device_of(dev_nr)]
                    && #[trigger] call_ensures(D::device_reset, (m, old(self).devices.chip_offsets()[dev_nr as int] as i32), ()),
            !old(self).devices.accepts(dev_nr) ==> *final(self) == *old(self),
    {
        if self.devices.accepts_chip(dev_nr) {
            self.devices.device_reset(dev_nr);
        }
    }

    fn reset_all_sids(&mut self, dev_nr: i32)
        ensures
            old(self).devices.accepts(dev_nr) ==> final(self).devices.wf()
                && final(self).devices.only_device_changed(&old(self).devices, old(self).devices.device_of(dev_nr))
                && exists|m: &mut D|
                mut_ref_current(m) == old(self).devices.devices()[old(self).devices.device_of(dev_nr)]
                    && mut_ref_future(m) == final(self).devices.devices()[old(self).devices.device_of(dev_nr)]
                    && #[trigger] call_ensures(D::reset_all_sids, (m, old(self).devices.chip_offsets()[dev_nr as int] as i32), ()),
            !old(self).devices.accepts(dev_nr) ==> *final(self) == *old(self),
    {
        if self.devices.accepts_chip(dev_nr) {
            self.devices.reset_all_sids(dev_nr);
        }
    }

    fn reset_sid(&mut self, dev_nr: i32)
        ensures
            old(self).devices.accepts(dev_nr) ==> final(self).devices.wf()
                && final(self).devices.only_device_changed(&old(self).devices, old(self).devices.device_of(dev_nr))
                && exists|m: &mut D|
                mut_ref_current(m) == old(self).devices.devices()[old(self).devices.device_of(dev_nr)]
                    && mut_ref_future(m) == final(self).devices.devices()[old(self).devices.device_of(dev_nr)]
                    && #[trigger] call_ensures(D::reset_sid, (m, old(self).devices.chip_offsets()[dev_nr as int] as i32), ()),
            !old(self).devices.accepts(dev_nr) ==> *final(self) == *old(self),
    {
        if self.devices.accepts_chip(dev_nr) {
            self.devices.reset_sid(dev_nr);
        }
    }

    fn reset_all_buffers(&mut self, dev_nr: i32)
        ensures
            old(self).devices.accepts(dev_nr) ==> final(self).devices.wf()
                && final(self).devices.only_device_changed(&old(self).devices, old(self).devices.device_of(dev_nr))
                && exists|m: &mut D|
                mut_ref_current(m) == old(self).devices.devices()[old(self).devices.device_of(dev_nr)]
                    && mut_ref_future(m) == final(self).devices.devices()[old(self).devices.device_of(dev_nr)]
                    && #[trigger] call_ensures(D::reset_all_buffers, (m, old(self).devices.chip_offsets()[dev_nr as int] as i32), ()),
            !old(self).devices.accepts(dev_nr) ==> *final(self) == *old(self),
    {
        if self.devices.accepts_chip(dev_nr) {
            self.devices.reset_all_buffers(dev_nr);
        }
    }

    fn enable_turbo_mode(&mut self, dev_nr: i32)
        ensures
            old(self).devices.accepts(dev_nr) ==> final(self).devices.wf()
                && final(self).devices.only_device_changed(&old(self).devices, old(self).devices.device_of(dev_nr))
                && exists|m: &mut D|
                mut_ref_current(m) == old(self).devices.devices()[old(self).devices.device_of(dev_nr)]
                    && mut_ref_future(m) == final(self).devices.devices()[old(self).devices.device_of(dev_nr)]
                    && #[trigger] call_ensures(D::enable_turbo_mode, (m, old(self).devices.chip_offsets()[dev_nr as int] as i32), ()),
            !old(self).devices.accepts(dev_nr) ==> *final(self) == *old(self),
    {
        if self.devices.accepts_chip(dev_nr) {
            self.devices.enable_turbo_mode(dev_nr);
        }
    }

    fn disable_turbo_mode(&mut self, dev_nr: i32)
        ensures
            old(self).devices.accepts(dev_nr) ==> final(self).devices.wf()
                && final(self).devices.only_device_changed(&old(self).devices, old(self).devices.device_of(dev_nr))
                && exists|m: &mut D|
                mut_ref_current(m) == old(self).devices.devices()[old(self).devices.device_of(dev_nr)]
                    && mut_ref_future(m) == final(self).devices.devices()[old(self).devices.device_of(dev_nr)]
                    && #[trigger] call_ensures(D::disable_turbo_mode, (m, old(self).devices.chip_offsets()[dev_nr as int] as i32), ()),
            !old(self).devices.accepts(dev_nr) ==> *final(self) == *old(self),
    {
        if self.devices.accepts_chip(dev_nr) {
            self.devices.disable_turbo_mode(dev_nr);
        }
    }

    fn dummy_write(&mut self, dev_nr: i32, cycles_input: u32)
        ensures
            old(self).devices.accepts(dev_nr) ==> final(self).devices.wf()
                && final(self).devices.only_device_changed(&old(self).devices, old(self).devices.device_of(dev_nr))
                && exists|m: &mut D|
                mut_ref_current(m) == old(self).devices.devices()[old(self).devices.device_of(dev_nr)]
                    && mut_ref_future(m) == final(self).devices.devices()[old(self).devices.device_of(dev_nr)]
                    && #[trigger] call_ensures(D::dummy_write, (m, old(self).devices.chip_offsets()[dev_nr as int] as i32, cycles_input), ()),
            !old(self).devices.accepts(dev_nr) ==> *final(self) == *old(self),
    {
        if self.devices.accepts_chip(dev_nr) {
            self.devices.dummy_write(dev_nr, cycles_input);
        }
    }

    fn write(&mut self, dev_nr: i32, cycles_input: u32, reg: u8, data: u8)
        ensures
            old(self).devices.accepts(dev_nr) ==> final(self).devices.wf()
                && final(self).devices.only_device_changed(&old(self).devices, old(self).devices.device_of(dev_nr))
                && exists|m: &mut D|
                mut_ref_current(m) == old(self).devices.devices()[old(self).devices.device_of(dev_nr)]
                    && mut_ref_future(m) == final(self).devices.devices()[old(self).devices.device_of(dev_nr)]
                    && #[trigger] call_ensures(D::write, (m, old(self).devices.chip_offsets()[dev_nr as int] as i32, cycles_input, reg, data), ()),
            !old(self).devices.accepts(dev_nr) ==> *final(self) == *old(self),
    {
        if self.devices.accepts_chip(dev_nr) {
            self.devices.write(dev_nr, cycles_input, reg, data);
        }
    }

    fn force_flush(&mut self, dev_nr: i32)
        ensures
            old(self).devices.accepts(dev_nr) ==> final(self).devices.wf()
                && final(self).devices.only_device_changed(&old(self).devices, old(self).devices.device_of(dev_nr))
                && exists|m: &mut D|
                mut_ref_current(m) == old(self).devices.devices()[old(self).devices.device_of(dev_nr)]
                    && mut_ref_future(m) == final(self).devices.devices()[old(self).devices.device_of(dev_nr)]
                    && #[trigger] call_ensures(D::force_flush, (m, old(self).devices.chip_offsets()[dev_nr as int] as i32), ()),
            !old(self).devices.accepts(dev_nr) ==> *final(self) == *old(self),
    {
        if self.devices.accepts_chip(dev_nr) {
            self.devices.force_flush(dev_nr);
        }
    }
}

/// The error of a failed connection, empty for one that succeeded.
pub open spec fn error_text<D>(device: Result<D, String>) -> Seq<char> {
    match device {
        Ok(_) => Seq::empty(),
        Err(e) => e@,
    }
}

} // verus!
