//! Addresses and numbers as they travel: the highest byte goes first.

use vstd::prelude::*;

use crate::net::addr::IpAddr;

verus! {

/// A number of two bytes.
pub open spec fn two_bytes(value: u16) -> Seq<u8> {
    seq![(value / 256) as u8, (value % 256) as u8]
}

/// The bytes of an address: four, or eight times two.
pub open spec fn address_octets(ip: IpAddr) -> Seq<u8> {
    match ip {
        IpAddr::V4(a, b, c, d) => seq![a, b, c, d],
        IpAddr::V6(a, b, c, d, e, f, g, h) => seq![
            (a / 256) as u8,
            (a % 256) as u8,
            (b / 256) as u8,
            (b % 256) as u8,
            (c / 256) as u8,
            (c % 256) as u8,
            (d / 256) as u8,
            (d % 256) as u8,
            (e / 256) as u8,
            (e % 256) as u8,
            (f / 256) as u8,
            (f % 256) as u8,
            (g / 256) as u8,
            (g % 256) as u8,
            (h / 256) as u8,
            (h % 256) as u8,
        ],
    }
}

/// Every address is read from the bytes that it travels in, wherever they stand.
pub proof fn addresses_are_read_from_their_octets(ip: IpAddr, front: Seq<u8>, rest: Seq<u8>)
    ensures
        ip.octets_spec() == address_octets(ip),
        ip is V4 ==> IpAddr::v4_at(front + address_octets(ip) + rest, front.len() as int) == ip,
        ip is V6 ==> IpAddr::v6_at(front + address_octets(ip) + rest, front.len() as int) == ip,
{
    let all = front + address_octets(ip) + rest;
    let at = front.len() as int;
    assert forall|i: int| 0 <= i < address_octets(ip).len() implies #[trigger] all[at + i]
        == address_octets(ip)[i] by {}
    assert(ip.octets_spec() =~= address_octets(ip));
    match ip {
        IpAddr::V4(_, _, _, _) => {
            assert(all[at + 0] == address_octets(ip)[0]);
        },
        IpAddr::V6(_, _, _, _, _, _, _, _) => {
            assert(all[at + 0] == address_octets(ip)[0]);
        },
    }
}

} // verus!
