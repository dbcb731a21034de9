//! Finding SIDBlaster USB devices among the FTDI devices of the machine.
use vstd::prelude::*;
use crate::utils::text::{replace_all, starts_with, str_replace, str_starts_with, str_trim, trim};

verus! {

pub const ERROR_MSG_DEVICE_FAILURE: &'static str = "Failed to communicate with FTDI device.";

pub const ERROR_MSG_NO_SIDBLASTER_FOUND: &'static str = "No SIDBlaster USB device found.";

/// An FTDI device as the driver lists it.
pub struct FtdiDevice {
    pub vendor_id: u16,
    pub description: String,
    pub serial_number: String,
}

/// Access to the FTDI driver. Nothing is promised of what it answers.
pub trait FtdiBus {
    /// The FTDI devices attached; `None` when the driver fails.
    fn list_devices(&mut self) -> Option<Vec<FtdiDevice>>;

    /// The description the device with serial number `serial` reports when
    /// opened; `None` when it cannot be opened or asked.
    fn description_of(&mut self, serial: &str) -> Option<String>;
}

/// `a` comes before `b` in the order of `String`s (by code point, a prefix
/// first).
pub open spec fn lex_lt(a: Seq<char>, b: Seq<char>) -> bool
    decreases a.len(),
{
    if a.len() == 0 {
        b.len() > 0
    } else if b.len() == 0 {
        false
    } else if a[0] != b[0] {
        (a[0] as u32) < (b[0] as u32)
    } else {
        lex_lt(a.drop_first(), b.drop_first())
    }
}

/// No text comes before itself.
pub proof fn lemma_lex_lt_irreflexive(a: Seq<char>)
    ensures
        !lex_lt(a, a),
    decreases a.len(),
{
    if a.len() > 0 {
        lemma_lex_lt_irreflexive(a.drop_first());
    }
}

/// The order of texts is transitive.
pub proof fn lemma_lex_lt_transitive(a: Seq<char>, b: Seq<char>, c: Seq<char>)
    requires
        lex_lt(a, b),
        lex_lt(b, c),
    ensures
        lex_lt(a, c),
    decreases a.len(),
{
    if a.len() > 0 && b.len() > 0 && c.len() > 0 && a[0] == b[0] && b[0] == c[0] {
        lemma_lex_lt_transitive(a.drop_first(), b.drop_first(), c.drop_first());
    }
}

/// The order of `a` and `b` as `String`s.
pub fn str_lt(a: &str, b: &str) -> (r: bool)
    ensures
        r == lex_lt(a@, b@),
{
    let n = a.unicode_len();
    let m = b.unicode_len();
    let mut i: usize = 0;
    proof {
        assert(a@.skip(0) =~= a@);
        assert(b@.skip(0) =~= b@);
    }
    while i < n && i < m
        invariant
            n == a@.len(),
            m == b@.len(),
            i <= n,
            i <= m,
            lex_lt(a@, b@) == lex_lt(a@.skip(i as int), b@.skip(i as int)),
        decreases n - i,
    {
        let x = a.get_char(i);
        let y = b.get_char(i);
        if x != y {
            return (x as u32) < (y as u32);
        }
        proof {
            assert(a@.skip(i as int).drop_first() =~= a@.skip(i + 1));
            assert(b@.skip(i as int).drop_first() =~= b@.skip(i + 1));
        }
        i = i + 1;
    }
    i == n && i < m
}

pub open spec fn is_sidblaster(d: FtdiDevice) -> bool {
    d.vendor_id == 0x0403 && starts_with(d.description@, "SIDBlaster/USB"@)
}

/// What the devices are sorted by: description, then serial number.
pub open spec fn device_key(d: FtdiDevice) -> Seq<char> {
    d.description@ + d.serial_number@
}

/// The SIDBlasters among `devices`, each as its sort key and serial number.
pub open spec fn sidblaster_entries(devices: Seq<FtdiDevice>) -> Seq<(Seq<char>, Seq<char>)>
    decreases devices.len(),
{
    if devices.len() == 0 {
        seq![]
    } else {
        sidblaster_entries(devices.drop_last()) + if is_sidblaster(devices.last()) {
            seq![(device_key(devices.last()), devices.last().serial_number@)]
        } else {
            seq![]
        }
    }
}

pub open spec fn sorted_by_key(s: Seq<(Seq<char>, Seq<char>)>) -> bool {
    forall|i: int, j: int| 0 <= i < j < s.len() ==> !lex_lt(#[trigger] s[j].0, #[trigger] s[i].0)
}

pub open spec fn entry_views(v: Seq<(String, String)>) -> Seq<(Seq<char>, Seq<char>)> {
    v.map_values(|e: (String, String)| (e.0@, e.1@))
}

/// The serial numbers of the SIDBlasters among `devices`, sorted by
/// description and serial number.
pub fn sidblaster_serials(devices: &Vec<FtdiDevice>) -> (r: Vec<String>)
    ensures
        exists|s: Seq<(Seq<char>, Seq<char>)>|
            #![trigger sorted_by_key(s)]
            sorted_by_key(s) && s.to_multiset() == sidblaster_entries(devices@).to_multiset() && r@.map_values(
                |x: String| x@,
            ) == s.map_values(|e: (Seq<char>, Seq<char>)| e.1),
{
    broadcast use vstd::seq_lib::group_to_multiset_ensures;

    let mut sorted: Vec<(String, String)> = Vec::new();
    let mut i: usize = 0;
    while i < devices.len()
        invariant
            i <= devices.len(),
            sorted_by_key(entry_views(sorted@)),
            entry_views(sorted@).to_multiset() == sidblaster_entries(devices@.take(i as int)).to_multiset(),
        decreases devices.len() - i,
    {
        proof {
            assert(devices@.take(i + 1).drop_last() =~= devices@.take(i as int));
        }
        let d = &devices[i];
        if d.vendor_id == 0x0403 && str_starts_with(d.description.as_str(), "SIDBlaster/USB") {
            let mut key = d.description.clone();
            key.append(d.serial_number.as_str());
            let serial = d.serial_number.clone();
            let ghost s = entry_views(sorted@);
            let mut p: usize = 0;
            let mut found = false;
            while p < sorted.len() && !found
                invariant
                    p <= sorted.len(),
                    s == entry_views(sorted@),
                    forall|k: int| 0 <= k < p ==> !lex_lt(key@, #[trigger] s[k].0),
                    found ==> p < sorted.len() && lex_lt(key@, s[p as int].0),
                decreases sorted.len() - p + (if found { 0int } else { 1int }),
            {
                if str_lt(key.as_str(), sorted[p].0.as_str()) {
                    found = true;
                } else {
                    p = p + 1;
                }
            }
            let ghost x = (key@, serial@);
            proof {
                assert forall|k: int| p <= k < s.len() implies !lex_lt(#[trigger] s[k].0, key@) by {
                    if lex_lt(s[k].0, key@) {
                        if p < s.len() {
                            assert(lex_lt(key@, s[p as int].0));
                            lemma_lex_lt_transitive(s[k].0, key@, s[p as int].0);
                            if k == p {
                                lemma_lex_lt_irreflexive(s[k].0);
                            }
                        }
                    }
                }
            }
            sorted.insert(p, (key, serial));
            proof {
                let t = entry_views(sorted@);
                assert(t =~= s.insert(p as int, x));
                assert forall|a: int, b: int| 0 <= a < b < t.len() implies !lex_lt(#[trigger] t[b].0, #[trigger] t[a].0) by {
                    if a < p && b < p {
                        assert(t[a] == s[a] && t[b] == s[b]);
                    } else if a < p && b == p {
                        assert(t[a] == s[a]);
                    } else if a < p && b > p {
                        assert(t[a] == s[a] && t[b] == s[b - 1]);
                    } else if a == p {
                        assert(t[b] == s[b - 1]);
                    } else {
                        assert(t[a] == s[a - 1] && t[b] == s[b - 1]);
                    }
                }
                assert(sidblaster_entries(devices@.take(i + 1)) == sidblaster_entries(devices@.take(i as int)).push(x));
                vstd::seq_lib::to_multiset_insert(s, p as int, x);
                vstd::seq_lib::to_multiset_build(sidblaster_entries(devices@.take(i as int)), x);
            }
        } else {
            proof {
                assert(sidblaster_entries(devices@.take(i + 1)) =~= sidblaster_entries(devices@.take(i as int)));
            }
        }
        i = i + 1;
    }
    proof {
        assert(devices@.take(devices.len() as int) =~= devices@);
    }
    let mut serials: Vec<String> = Vec::new();
    let mut k: usize = 0;
    while k < sorted.len()
        invariant
            k <= sorted.len(),
            serials@.len() == k,
            forall|j: int| 0 <= j < k ==> (#[trigger] serials@[j])@ == sorted@[j].1@,
        decreases sorted.len() - k,
    {
        let serial = sorted[k].1.clone();
        serials.push(serial);
        k = k + 1;
    }
    proof {
        assert(serials@.map_values(|x: String| x@) =~= entry_views(sorted@).map_values(|e: (Seq<char>, Seq<char>)| e.1));
        assert(sorted_by_key(entry_views(sorted@)));
    }
    serials
}

/// The name a SIDBlaster is listed under: its description without "/USB",
/// other '/' as spaces, trimmed.
pub open spec fn spec_sidblaster_name(description: Seq<char>) -> Seq<char> {
    trim(replace_all(replace_all(description, "/USB"@, ""@), "/"@, " "@))
}

pub fn sidblaster_name(description: &str) -> (r: String)
    ensures
        r@ == spec_sidblaster_name(description@),
{
    proof {
        reveal_strlit("/USB");
        reveal_strlit("/");
    }
    let a = str_replace(description, "/USB", "");
    let b = str_replace(a.as_str(), "/", " ");
    String::from_str(str_trim(b.as_str()))
}

/// Asked for the description of the device with serial number `serial`, a
/// bus answered one whose listing name is `name`.
pub open spec fn describes<B: FtdiBus>(serial: Seq<char>, name: Seq<char>) -> bool {
    exists|m: &mut B, t: &str, d: String|
        #[trigger] call_ensures(B::description_of, (m, t), Some(d)) && t@ == serial && name == spec_sidblaster_name(d@)
}

/// Asked for the description of some device, a bus answered nothing.
pub open spec fn description_failed<B: FtdiBus>() -> bool {
    exists|m: &mut B, t: &str| #[trigger] call_ensures(B::description_of, (m, t), None::<String>)
}

/// The SIDBlasters attached, each as its serial number and name, sorted
/// by description and serial number; an error when the driver fails.
pub fn detect_devices<B: FtdiBus>(bus: &mut B) -> (r: Result<Vec<(String, String)>, String>)
    ensures
        r matches Err(e) ==> e@ == ERROR_MSG_DEVICE_FAILURE@,
        exists|m: &mut B, listed: Option<Vec<FtdiDevice>>|
            mut_ref_current(m) == *old(bus) && #[trigger] call_ensures(B::list_devices, (m,), listed) && match listed {
                None => r is Err,
                Some(devices) => match r {
                    Ok(v) => exists|s: Seq<(Seq<char>, Seq<char>)>|
                        #![trigger sorted_by_key(s)]
                        sorted_by_key(s) && s.to_multiset() == sidblaster_entries(devices@).to_multiset()
                            && v@.len() == s.len() && forall|i: int|
                            0 <= i < s.len() ==> v@[i].0@ == s[i].1 && #[trigger] describes::<B>(s[i].1, v@[i].1@),
                    Err(_) => description_failed::<B>(),
                },
            },
{
    let devices = match bus.list_devices() {
        Some(devices) => devices,
        None => return Err(String::from_str(ERROR_MSG_DEVICE_FAILURE)),
    };
    let ghost listed = Some(devices);
    assert(exists|m: &mut B| mut_ref_current(m) == *old(bus) && #[trigger] call_ensures(B::list_devices, (m,), listed));
    let serials = sidblaster_serials(&devices);
    let ghost s = choose|s: Seq<(Seq<char>, Seq<char>)>|
        #![trigger sorted_by_key(s)]
        sorted_by_key(s) && s.to_multiset() == sidblaster_entries(devices@).to_multiset() && serials@.map_values(
            |x: String| x@,
        ) == s.map_values(|e: (Seq<char>, Seq<char>)| e.1);
    assert(serials@.map_values(|x: String| x@).len() == s.map_values(|e: (Seq<char>, Seq<char>)| e.1).len());
    let mut result: Vec<(String, String)> = Vec::new();
    let mut i: usize = 0;
    while i < serials.len()
        invariant
            listed == Some(devices),
            exists|m: &mut B| mut_ref_current(m) == *old(bus) && #[trigger] call_ensures(B::list_devices, (m,), listed),
            sorted_by_key(s) && s.to_multiset() == sidblaster_entries(devices@).to_multiset() && serials@.map_values(
                |x: String| x@,
            ) == s.map_values(|e: (Seq<char>, Seq<char>)| e.1),
            i <= serials.len(),
            result@.len() == i,
            serials@.len() == s.len(),
            forall|k: int|
                0 <= k < i ==> (#[trigger] result@[k]).0@ == s[k].1 && describes::<B>(s[k].1, result@[k].1@),
        decreases serials.len() - i,
    {
        let description = match bus.description_of(serials[i].as_str()) {
            Some(d) => d,
            None => {
                assert(description_failed::<B>());
                return Err(String::from_str(ERROR_MSG_DEVICE_FAILURE));
            },
        };
        let name = sidblaster_name(description.as_str());
        proof {
            assert(serials@.map_values(|x: String| x@)[i as int] == s.map_values(|e: (Seq<char>, Seq<char>)| e.1)[i as int]);
        }
        assert(describes::<B>(s[i as int].1, name@));
        let ghost prev = result@;
        result.push((serials[i].clone(), name));
        proof {
            assert forall|k: int| 0 <= k < i + 1 implies (#[trigger] result@[k]).0@ == s[k].1 && describes::<B>(s[k].1, result@[k].1@) by {
                if k < i {
                    assert(result@[k] == prev[k]);
                }
            }
        }
        i = i + 1;
    }
    Ok(result)
}

} // verus!
