//! Debug probes: the fields the library reads of each probe that the USB
//! enumeration found, the stable key that identifies a probe between calls,
//! and the lookup of a probe by that key.

use vstd::prelude::*;
use crate::models::{ProbeInfo, ProbeInfoView, opt_string_view};
use crate::text::{decimal, hex4, push_char, push_decimal, push_hex4, push_str, str_eq};

verus! {

/// One probe found on the USB bus, as plain values.
#[derive(Debug)]
pub struct ProbeEntry {
    pub identifier: String,
    pub vendor_id: u16,
    pub product_id: u16,
    pub serial_number: Option<String>,
    pub interface: Option<u8>,
    pub is_hid_interface: bool,
}

/// The key of a probe: `vvvv:pppp:serial:interface`, with the vendor and
/// product ids as four lowercase hex digits, an absent serial number as the
/// empty string and the interface number in decimal (empty when absent).
pub open spec fn probe_key_of(
    vendor_id: u16,
    product_id: u16,
    serial_number: Option<Seq<char>>,
    interface: Option<u8>,
) -> Seq<char> {
    hex4(vendor_id as nat) + seq![':'] + hex4(product_id as nat) + seq![':'] + match serial_number {
        Some(s) => s,
        None => Seq::<char>::empty(),
    } + seq![':'] + match interface {
        Some(i) => decimal(i as nat),
        None => Seq::<char>::empty(),
    }
}

/// The key of a probe entry.
pub open spec fn entry_key(p: ProbeEntry) -> Seq<char> {
    probe_key_of(p.vendor_id, p.product_id, opt_string_view(p.serial_number), p.interface)
}

/// The user-facing record of a probe entry.
pub open spec fn entry_info(p: ProbeEntry) -> ProbeInfoView {
    ProbeInfoView {
        id: entry_key(p),
        name: p.identifier@,
        vendor_id: p.vendor_id,
        product_id: p.product_id,
        serial_number: opt_string_view(p.serial_number),
        interface: p.interface,
        is_hid_interface: p.is_hid_interface,
    }
}

/// The key that identifies a probe.
pub fn probe_key(info: &ProbeEntry) -> (r: String)
    ensures
        r@ == entry_key(*info),
{
    let mut s = String::new();
    push_hex4(&mut s, info.vendor_id);
    push_char(&mut s, ':');
    push_hex4(&mut s, info.product_id);
    push_char(&mut s, ':');
    match &info.serial_number {
        Some(serial) => push_str(&mut s, serial.as_str()),
        None => {},
    }
    push_char(&mut s, ':');
    match info.interface {
        Some(i) => push_decimal(&mut s, i as u64),
        None => {},
    }
    assert(s@ =~= entry_key(*info));
    s
}

/// The user-facing record of a probe.
pub fn probe_info(info: ProbeEntry) -> (r: ProbeInfo)
    ensures
        r@ == entry_info(info),
{
    let id = probe_key(&info);
    ProbeInfo {
        id,
        name: info.identifier,
        vendor_id: info.vendor_id,
        product_id: info.product_id,
        serial_number: info.serial_number,
        interface: info.interface,
        is_hid_interface: info.is_hid_interface,
    }
}

/// The records of a list of probes, in the same order.
pub fn probe_infos(probes: Vec<ProbeEntry>) -> (r: Vec<ProbeInfo>)
    ensures
        r.len() == probes.len(),
        forall|i: int| 0 <= i < probes.len() ==> #[trigger] r@[i]@ == entry_info(probes@[i]),
{
    let ghost p0 = probes@;
    let mut rest = crate::order::reverse_vec(probes);
    let mut out: Vec<ProbeInfo> = Vec::new();
    while rest.len() > 0
        invariant
            out.len() + rest.len() == p0.len(),
            forall|m: int| 0 <= m < rest.len() ==> #[trigger] rest@[m] == p0[p0.len() - 1 - m],
            forall|i: int| 0 <= i < out.len() ==> #[trigger] out@[i]@ == entry_info(p0[i]),
        decreases rest.len(),
    {
        let ghost before = rest@;
        let p = rest.pop().unwrap();
        assert(p == p0[out.len() as int]) by {
            assert(before[before.len() - 1] == p);
        }
        out.push(probe_info(p));
        assert(forall|m: int| 0 <= m < rest.len() ==> rest@[m] == before[m]);
    }
    out
}

/// The position of the first probe whose key is `probe_id`, if any.
pub fn find_probe_by_key(probes: &Vec<ProbeEntry>, probe_id: &str) -> (r: Option<usize>)
    ensures
        match r {
            Some(i) => i < probes.len() && entry_key(probes@[i as int]) == probe_id@ && forall|j: int|
                0 <= j < i ==> entry_key(#[trigger] probes@[j]) != probe_id@,
            None => forall|j: int| 0 <= j < probes.len() ==> entry_key(#[trigger] probes@[j]) != probe_id@,
        },
{
    let mut i: usize = 0;
    while i < probes.len()
        invariant
            i <= probes.len(),
            forall|j: int| 0 <= j < i ==> entry_key(#[trigger] probes@[j]) != probe_id@,
        decreases probes.len() - i,
    {
        let key = probe_key(&probes[i]);
        if str_eq(key.as_str(), probe_id) {
            return Some(i);
        }
        i = i + 1;
    }
    None
}

} // verus!
