//! Whether a host is on the local network, decided from its resolved IPv4
//! addresses and the IPv4 interfaces of this machine.
use vstd::prelude::*;
use crate::utils::text::{
    all_digits, decimal, digits_value, join, parse_u8, push_decimal, spec_parse_u8, split_char,
    str_split_char, views_of,
};

verus! {

/// One dotted-decimal part of an IPv4 address as `Ipv4Addr::from_str` reads
/// it: one to three digits, no leading zero, at most 255.
pub open spec fn spec_octet(s: Seq<char>) -> Option<u8> {
    if 1 <= s.len() <= 3 && all_digits(s) && !(s.len() > 1 && s[0] == '0') && digits_value(s) <= 255 {
        Some(digits_value(s) as u8)
    } else {
        None
    }
}

/// The four octets of a dotted-decimal IPv4 address, as `Ipv4Addr::from_str`
/// reads it.
pub open spec fn spec_parse_ipv4(s: Seq<char>) -> Option<Seq<u8>> {
    let parts = split_char(s, '.');
    if parts.len() == 4 && spec_octet(parts[0]) is Some && spec_octet(parts[1]) is Some && spec_octet(
        parts[2],
    ) is Some && spec_octet(parts[3]) is Some {
        Some(
            seq![
                spec_octet(parts[0])->0,
                spec_octet(parts[1])->0,
                spec_octet(parts[2])->0,
                spec_octet(parts[3])->0,
            ],
        )
    } else {
        None
    }
}

/// A loopback (127.0.0.0/8) or private (10.0.0.0/8, 172.16.0.0/12,
/// 192.168.0.0/16) IPv4 address.
pub open spec fn spec_is_local(s: Seq<char>) -> bool {
    match spec_parse_ipv4(s) {
        Some(o) => o[0] == 127 || o[0] == 10 || (o[0] == 172 && 16 <= o[1] <= 31) || (o[0] == 192
            && o[1] == 168),
        None => false,
    }
}

/// The first of `addresses` that is local.
pub open spec fn first_local(addresses: Seq<Seq<char>>) -> Option<Seq<char>>
    decreases addresses.len(),
{
    if addresses.len() == 0 {
        None
    } else if spec_is_local(addresses[0]) {
        Some(addresses[0])
    } else {
        first_local(addresses.drop_first())
    }
}

/// The number a part of an address or netmask is read as; 0 when it is no
/// `u8`.
pub open spec fn spec_text_to_u8(s: Seq<char>) -> u8 {
    match spec_parse_u8(s) {
        Some(v) => v,
        None => 0,
    }
}

/// Each part of `ip` and-ed with the same part of `netmask`, joined with
/// '.'; an error when they have different numbers of parts.
pub open spec fn spec_mask_ip_address(ip: Seq<char>, netmask: Seq<char>) -> Result<Seq<char>, Seq<char>> {
    let a = split_char(ip, '.');
    let b = split_char(netmask, '.');
    if a.len() == b.len() {
        Ok(
            join(
                Seq::new(
                    a.len(),
                    |i: int| decimal((spec_text_to_u8(a[i]) & spec_text_to_u8(b[i])) as nat),
                ),
                '.',
            ),
        )
    } else {
        Err("Invalid ip or netmask."@)
    }
}

/// Some interface's network (its address under its netmask) is that of `ip`
/// under the same netmask.
pub open spec fn spec_in_local_network(ip: Seq<char>, interfaces: Seq<(Seq<char>, Seq<char>)>) -> bool {
    exists|i: int|
        0 <= i < interfaces.len() && spec_mask_ip_address(interfaces[i].0, interfaces[i].1)
            == spec_mask_ip_address(ip, #[trigger] interfaces[i].1)
}

pub open spec fn interface_views(interfaces: Seq<(String, String)>) -> Seq<(Seq<char>, Seq<char>)> {
    interfaces.map_values(|p: (String, String)| (p.0@, p.1@))
}

pub open spec fn string_views(v: Seq<String>) -> Seq<Seq<char>> {
    v.map_values(|s: String| s@)
}

fn octet(s: &str) -> (r: Option<u8>)
    ensures
        r == spec_octet(s@),
{
    let n = s.unicode_len();
    if n < 1 || n > 3 {
        return None;
    }
    if n > 1 && s.get_char(0) == '0' {
        return None;
    }
    let mut i: usize = 0;
    while i < n
        invariant
            n == s@.len(),
            i <= n,
            forall|j: int| 0 <= j < i ==> crate::utils::text::is_digit(#[trigger] s@[j]),
        decreases n - i,
    {
        let c = s.get_char(i);
        if !('0' <= c && c <= '9') {
            return None;
        }
        i = i + 1;
    }
    proof {
        assert(s@.skip(0) =~= s@);
    }
    match parse_u8(s) {
        Some(v) => {
            proof {
                assert(s@[0] != '+');
            }
            Some(v)
        },
        None => {
            proof {
                assert(s@[0] != '+');
            }
            None
        },
    }
}

/// `Ipv4Addr::from_str(ip)` followed by `is_loopback() || is_private()`.
pub fn is_local(ip: &str) -> (r: bool)
    ensures
        r == spec_is_local(ip@),
{
    let parts = str_split_char(ip, '.');
    if parts.len() != 4 {
        return false;
    }
    proof {
        assert(views_of(parts@)[0] == parts@[0]@);
        assert(views_of(parts@)[1] == parts@[1]@);
        assert(views_of(parts@)[2] == parts@[2]@);
        assert(views_of(parts@)[3] == parts@[3]@);
    }
    let a = octet(parts[0]);
    let b = octet(parts[1]);
    let c = octet(parts[2]);
    let d = octet(parts[3]);
    match (a, b, c, d) {
        (Some(a), Some(b), Some(_), Some(_)) => a == 127 || a == 10 || (a == 172 && 16 <= b && b <= 31)
            || (a == 192 && b == 168),
        _ => false,
    }
}

/// The first of the host's resolved addresses that is local.
pub fn resolve_local_ip(resolved_ips: &Vec<String>) -> (r: Option<String>)
    ensures
        match r {
            Some(ip) => first_local(string_views(resolved_ips@)) == Some(ip@),
            None => first_local(string_views(resolved_ips@)) is None,
        },
{
    let ghost all = string_views(resolved_ips@);
    let mut i: usize = 0;
    proof {
        assert(all.skip(0) =~= all);
    }
    while i < resolved_ips.len()
        invariant
            i <= resolved_ips.len(),
            all == string_views(resolved_ips@),
            first_local(all) == first_local(all.skip(i as int)),
        decreases resolved_ips.len() - i,
    {
        proof {
            assert(all.skip(i as int).drop_first() =~= all.skip(i + 1));
            assert(all.skip(i as int)[0] == resolved_ips@[i as int]@);
        }
        if is_local(resolved_ips[i].as_str()) {
            return Some(resolved_ips[i].clone());
        }
        i = i + 1;
    }
    proof {
        assert(all.skip(i as int) =~= Seq::<Seq<char>>::empty());
    }
    None
}

/// The number a part of an address or netmask is read as.
pub fn text_to_u8(text: &str) -> (r: u8)
    ensures
        r == spec_text_to_u8(text@),
{
    match parse_u8(text) {
        Some(v) => v,
        None => 0,
    }
}

/// Masks `ip_address` with `netmask` part by part.
pub fn mask_ip_address(ip_address: &str, netmask: &str) -> (r: Result<String, String>)
    ensures
        match r {
            Ok(s) => spec_mask_ip_address(ip_address@, netmask@) == Ok::<Seq<char>, Seq<char>>(s@),
            Err(e) => spec_mask_ip_address(ip_address@, netmask@) == Err::<Seq<char>, Seq<char>>(e@),
        },
{
    let ip_parts = str_split_char(ip_address, '.');
    let mask_parts = str_split_char(netmask, '.');
    let ghost a = split_char(ip_address@, '.');
    let ghost b = split_char(netmask@, '.');
    if ip_parts.len() == mask_parts.len() {
        let ghost pieces = Seq::new(
            a.len(),
            |i: int| decimal((spec_text_to_u8(a[i]) & spec_text_to_u8(b[i])) as nat),
        );
        let mut masked_ip = String::new();
        let mut i: usize = 0;
        while i < ip_parts.len()
            invariant
                i <= ip_parts.len(),
                ip_parts.len() == mask_parts.len(),
                views_of(ip_parts@) == a,
                views_of(mask_parts@) == b,
                pieces.len() == a.len(),
                pieces == Seq::new(
                    a.len(),
                    |i: int| decimal((spec_text_to_u8(a[i]) & spec_text_to_u8(b[i])) as nat),
                ),
                masked_ip@ == join(pieces.take(i as int), '.'),
            decreases ip_parts.len() - i,
        {
            let value = text_to_u8(ip_parts[i]) & text_to_u8(mask_parts[i]);
            proof {
                assert(a[i as int] == ip_parts@[i as int]@);
                assert(b[i as int] == mask_parts@[i as int]@);
                assert(pieces.take(i + 1).drop_last() =~= pieces.take(i as int));
            }
            let ghost before = masked_ip@;
            if i > 0 {
                crate::utils::text::push_char(&mut masked_ip, '.');
            }
            push_decimal(&mut masked_ip, value as u64);
            proof {
                if i == 0 {
                    assert(pieces.take(1) =~= seq![pieces[0]]);
                    assert(masked_ip@ =~= pieces[0]);
                } else {
                    assert(masked_ip@ =~= before.push('.') + pieces[i as int]);
                }
            }
            i = i + 1;
        }
        proof {
            assert(pieces.take(a.len() as int) =~= pieces);
        }
        Ok(masked_ip)
    } else {
        Err(String::from_str("Invalid ip or netmask."))
    }
}

fn results_equal(a: &Result<String, String>, b: &Result<String, String>) -> (r: bool)
    ensures
        r == (match (a, b) {
            (Ok(x), Ok(y)) => x@ == y@,
            (Err(x), Err(y)) => x@ == y@,
            _ => false,
        }),
{
    match (a, b) {
        (Ok(x), Ok(y)) => *x == *y,
        (Err(x), Err(y)) => *x == *y,
        _ => false,
    }
}

/// Whether `local_ip_address` lies in the network of one of the
/// `interfaces`, each an IPv4 address with its netmask.
pub fn is_ip_in_local_network(local_ip_address: &str, interfaces: &Vec<(String, String)>) -> (r: bool)
    ensures
        r == spec_in_local_network(local_ip_address@, interface_views(interfaces@)),
{
    let ghost ifs = interface_views(interfaces@);
    let mut i: usize = 0;
    while i < interfaces.len()
        invariant
            i <= interfaces.len(),
            ifs == interface_views(interfaces@),
            forall|j: int|
                0 <= j < i ==> spec_mask_ip_address(ifs[j].0, ifs[j].1) != spec_mask_ip_address(
                    local_ip_address@,
                    #[trigger] ifs[j].1,
                ),
        decreases interfaces.len() - i,
    {
        let (ip, netmask) = (&interfaces[i].0, &interfaces[i].1);
        let masked_local_ip = mask_ip_address(ip.as_str(), netmask.as_str());
        let masked_host_ip = mask_ip_address(local_ip_address, netmask.as_str());
        proof {
            assert(ifs[i as int] == (ip@, netmask@));
        }
        if results_equal(&masked_host_ip, &masked_local_ip) {
            proof {
                assert(spec_mask_ip_address(ifs[i as int].0, ifs[i as int].1) == spec_mask_ip_address(
                    local_ip_address@,
                    ifs[i as int].1,
                ));
            }
            return true;
        }
        i = i + 1;
    }
    false
}

/// Whether a host lies on the local network: its first resolved address
/// that is loopback or private lies in the network of one of this
/// machine's IPv4 interfaces.
pub fn is_local_ip_address(resolved_ips: &Vec<String>, interfaces: &Vec<(String, String)>) -> (r: bool)
    ensures
        r == match first_local(string_views(resolved_ips@)) {
            Some(ip) => spec_in_local_network(ip, interface_views(interfaces@)),
            None => false,
        },
{
    if let Some(local_ip_address) = resolve_local_ip(resolved_ips) {
        is_ip_in_local_network(local_ip_address.as_str(), interfaces)
    } else {
        false
    }
}

} // verus!
