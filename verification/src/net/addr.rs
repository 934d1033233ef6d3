//! Addresses as plain values.

use vstd::prelude::*;

verus! {

/// An address of version four, byte by byte, or of version six, group by group.
#[derive(Clone, Copy, Debug, PartialEq, Eq, Structural)]
pub enum IpAddr {
    V4(u8, u8, u8, u8),
    V6(u16, u16, u16, u16, u16, u16, u16, u16),
}

/// An IP address and a port. The flow label and the scope belong to version
/// six and are zero for version four.
#[derive(Clone, Copy, Debug, PartialEq, Eq, Structural)]
pub struct SocketAddr {
    pub ip: IpAddr,
    pub port: u16,
    pub flowinfo: u32,
    pub scope_id: u32,
}

pub open spec fn ipv6_of(groups: Seq<u16>) -> IpAddr {
    IpAddr::V6(
        groups[0],
        groups[1],
        groups[2],
        groups[3],
        groups[4],
        groups[5],
        groups[6],
        groups[7],
    )
}

/// The bytes of a group, high byte first.
pub open spec fn group_bytes(group: u16) -> Seq<u8> {
    seq![(group / 256) as u8, (group % 256) as u8]
}

pub open spec fn group_of(high: u8, low: u8) -> u16 {
    (high * 256 + low) as u16
}

pub fn make_group(high: u8, low: u8) -> (group: u16)
    ensures
        group == group_of(high, low),
        group == high * 256 + low,
{
    high as u16 * 256 + low as u16
}

impl IpAddr {
    /// The eight groups of an address of version six.
    pub open spec fn groups(self) -> Seq<u16> {
        match self {
            IpAddr::V4(_, _, _, _) => Seq::empty(),
            IpAddr::V6(a, b, c, d, e, f, g, h) => seq![a, b, c, d, e, f, g, h],
        }
    }

    /// The bytes of the address in network order.
    pub open spec fn octets_spec(self) -> Seq<u8> {
        match self {
            IpAddr::V4(a, b, c, d) => seq![a, b, c, d],
            IpAddr::V6(a, b, c, d, e, f, g, h) => group_bytes(a) + group_bytes(b) + group_bytes(c)
                + group_bytes(d) + group_bytes(e) + group_bytes(f) + group_bytes(g) + group_bytes(
                h,
            ),
        }
    }

    pub fn octets(&self) -> (bytes: Vec<u8>)
        ensures
            bytes@ == self.octets_spec(),
    {
        let mut bytes: Vec<u8> = Vec::new();
        match *self {
            IpAddr::V4(a, b, c, d) => {
                bytes.push(a);
                bytes.push(b);
                bytes.push(c);
                bytes.push(d);
            },
            IpAddr::V6(a, b, c, d, e, f, g, h) => {
                push_group(&mut bytes, a);
                push_group(&mut bytes, b);
                push_group(&mut bytes, c);
                push_group(&mut bytes, d);
                push_group(&mut bytes, e);
                push_group(&mut bytes, f);
                push_group(&mut bytes, g);
                push_group(&mut bytes, h);
            },
        }
        assert(bytes@ =~= self.octets_spec());
        bytes
    }

    /// The address whose bytes are the four at `at`.
    pub open spec fn v4_at(bytes: Seq<u8>, at: int) -> IpAddr {
        IpAddr::V4(bytes[at], bytes[at + 1], bytes[at + 2], bytes[at + 3])
    }

    pub fn read_v4(bytes: &[u8], at: usize) -> (ip: IpAddr)
        requires
            at + 4 <= bytes@.len(),
        ensures
            ip == Self::v4_at(bytes@, at as int),
            ip.octets_spec() == bytes@.subrange(at as int, at + 4),
    {
        let ip = IpAddr::V4(bytes[at], bytes[at + 1], bytes[at + 2], bytes[at + 3]);
        assert(ip.octets_spec() =~= bytes@.subrange(at as int, at + 4));
        ip
    }

    /// The address whose bytes are the sixteen at `at`.
    pub open spec fn v6_at(bytes: Seq<u8>, at: int) -> IpAddr {
        IpAddr::V6(
            group_of(bytes[at], bytes[at + 1]),
            group_of(bytes[at + 2], bytes[at + 3]),
            group_of(bytes[at + 4], bytes[at + 5]),
            group_of(bytes[at + 6], bytes[at + 7]),
            group_of(bytes[at + 8], bytes[at + 9]),
            group_of(bytes[at + 10], bytes[at + 11]),
            group_of(bytes[at + 12], bytes[at + 13]),
            group_of(bytes[at + 14], bytes[at + 15]),
        )
    }

    pub fn read_v6(bytes: &[u8], at: usize) -> (ip: IpAddr)
        requires
            at + 16 <= bytes@.len(),
        ensures
            ip == Self::v6_at(bytes@, at as int),
            ip.octets_spec() == bytes@.subrange(at as int, at + 16),
    {
        let ip = IpAddr::V6(
            make_group(bytes[at], bytes[at + 1]),
            make_group(bytes[at + 2], bytes[at + 3]),
            make_group(bytes[at + 4], bytes[at + 5]),
            make_group(bytes[at + 6], bytes[at + 7]),
            make_group(bytes[at + 8], bytes[at + 9]),
            make_group(bytes[at + 10], bytes[at + 11]),
            make_group(bytes[at + 12], bytes[at + 13]),
            make_group(bytes[at + 14], bytes[at + 15]),
        );
        assert(ip.octets_spec() =~= bytes@.subrange(at as int, at + 16));
        ip
    }

    /// An address of version four that is written in version six, in version
    /// four; every other one as it is.
    pub open spec fn canonical(self) -> IpAddr {
        match self {
            IpAddr::V4(_, _, _, _) => self,
            IpAddr::V6(a, b, c, d, e, f, g, h) => if a == 0 && b == 0 && c == 0 && d == 0 && e == 0
                && f == 0xffff {
                IpAddr::V4((g / 256) as u8, (g % 256) as u8, (h / 256) as u8, (h % 256) as u8)
            } else {
                self
            },
        }
    }

    pub fn to_canonical(&self) -> (ip: IpAddr)
        ensures
            ip == self.canonical(),
    {
        match *self {
            IpAddr::V4(a, b, c, d) => IpAddr::V4(a, b, c, d),
            IpAddr::V6(a, b, c, d, e, f, g, h) => {
                if a == 0 && b == 0 && c == 0 && d == 0 && e == 0 && f == 0xffff {
                    IpAddr::V4((g / 256) as u8, (g % 256) as u8, (h / 256) as u8, (h % 256) as u8)
                } else {
                    *self
                }
            },
        }
    }

    /// Version four: 127.0.0.0/8. Version six: ::1.
    pub open spec fn is_loopback_spec(self) -> bool {
        match self {
            IpAddr::V4(a, _, _, _) => a == 127,
            IpAddr::V6(a, b, c, d, e, f, g, h) => a == 0 && b == 0 && c == 0 && d == 0 && e == 0
                && f == 0 && g == 0 && h == 1,
        }
    }

    pub fn is_loopback(&self) -> (loopback: bool)
        ensures
            loopback == self.is_loopback_spec(),
    {
        match *self {
            IpAddr::V4(a, _, _, _) => a == 127,
            IpAddr::V6(a, b, c, d, e, f, g, h) => a == 0 && b == 0 && c == 0 && d == 0 && e == 0
                && f == 0 && g == 0 && h == 1,
        }
    }

    /// The address that stands for all interfaces.
    pub open spec fn is_unspecified_spec(self) -> bool {
        match self {
            IpAddr::V4(a, b, c, d) => a == 0 && b == 0 && c == 0 && d == 0,
            IpAddr::V6(a, b, c, d, e, f, g, h) => a == 0 && b == 0 && c == 0 && d == 0 && e == 0
                && f == 0 && g == 0 && h == 0,
        }
    }

    pub fn is_unspecified(&self) -> (unspecified: bool)
        ensures
            unspecified == self.is_unspecified_spec(),
    {
        match *self {
            IpAddr::V4(a, b, c, d) => a == 0 && b == 0 && c == 0 && d == 0,
            IpAddr::V6(a, b, c, d, e, f, g, h) => a == 0 && b == 0 && c == 0 && d == 0 && e == 0
                && f == 0 && g == 0 && h == 0,
        }
    }
}

fn push_group(bytes: &mut Vec<u8>, group: u16)
    ensures
        final(bytes)@ == old(bytes)@ + group_bytes(group),
{
    bytes.push((group / 256) as u8);
    bytes.push((group % 256) as u8);
    assert(bytes@ =~= old(bytes)@ + group_bytes(group));
}

impl SocketAddr {
    pub open spec fn new_spec(ip: IpAddr, port: u16) -> SocketAddr {
        SocketAddr { ip, port, flowinfo: 0, scope_id: 0 }
    }

    pub fn new(ip: IpAddr, port: u16) -> (addr: Self)
        ensures
            addr == Self::new_spec(ip, port),
    {
        Self { ip, port, flowinfo: 0, scope_id: 0 }
    }
}

/// Where a connection goes: to an address, or to a name.
#[derive(Debug)]
pub enum SocksAddr {
    Ip(SocketAddr),
    Domain(String, u16),
}

/// A destination as a mathematical value.
#[verifier::ext_equal]
pub enum Target {
    Ip(SocketAddr),
    Domain(Seq<char>, u16),
}

impl View for SocksAddr {
    type V = Target;

    open spec fn view(&self) -> Target {
        match self {
            SocksAddr::Ip(addr) => Target::Ip(*addr),
            SocksAddr::Domain(host, port) => Target::Domain(host@, *port),
        }
    }
}

impl SocksAddr {
    /// Whether two destinations are the same.
    pub fn same(&self, other: &SocksAddr) -> (same: bool)
        ensures
            same == (self@ == other@),
    {
        match (self, other) {
            (SocksAddr::Ip(a), SocksAddr::Ip(b)) => *a == *b,
            (SocksAddr::Domain(a, p), SocksAddr::Domain(b, q)) => *a == *b && *p == *q,
            _ => false,
        }
    }
}

impl Clone for SocksAddr {
    fn clone(&self) -> (copy: Self)
        ensures
            copy@ == self@,
    {
        match self {
            SocksAddr::Ip(addr) => SocksAddr::Ip(*addr),
            SocksAddr::Domain(host, port) => SocksAddr::Domain(host.clone(), *port),
        }
    }
}

impl PartialEq for SocksAddr {
    fn eq(&self, other: &Self) -> (same: bool) {
        self.same(other)
    }
}

impl vstd::std_specs::cmp::PartialEqSpecImpl for SocksAddr {
    open spec fn obeys_eq_spec() -> bool {
        true
    }

    open spec fn eq_spec(&self, other: &Self) -> bool {
        self@ == other@
    }
}

} // verus!
