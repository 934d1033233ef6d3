//! Writing addresses in their textual forms.

use vstd::prelude::*;
use vstd::string::*;

use crate::net::addr::{IpAddr, SocketAddr, SocksAddr, Target};
use crate::text::{decimal, decimal_text, digit, digit_char};

verus! {

pub open spec fn hex_char(value: int) -> char {
    if value < 10 {
        digit_char(value)
    } else {
        (('a' as u32) + (value - 10)) as char
    }
}

/// The hexadecimal form of a number, in lower case, without leading zeros.
pub open spec fn hex_text(value: nat) -> Seq<char>
    decreases value,
{
    if value < 16 {
        seq![hex_char(value as int)]
    } else {
        hex_text(value / 16).push(hex_char((value % 16) as int))
    }
}

fn hex_digit(value: u64) -> (c: char)
    requires
        value < 16,
    ensures
        c == hex_char(value as int),
{
    match value {
        10 => 'a',
        11 => 'b',
        12 => 'c',
        13 => 'd',
        14 => 'e',
        15 => 'f',
        _ => digit(value),
    }
}

/// Writes a number in hexadecimal.
pub fn hex(value: u64) -> (text: String)
    ensures
        text@ == hex_text(value as nat),
    decreases value,
{
    if value < 16 {
        let mut text = String::new();
        text.push(hex_digit(value));
        assert(text@ =~= seq![hex_char(value as int)]);
        text
    } else {
        let mut text = hex(value / 16);
        text.push(hex_digit(value % 16));
        text
    }
}

pub open spec fn ipv4_text(a: u8, b: u8, c: u8, d: u8) -> Seq<char> {
    decimal_text(a as nat) + "."@ + decimal_text(b as nat) + "."@ + decimal_text(c as nat) + "."@
        + decimal_text(d as nat)
}

fn print_ipv4(a: u8, b: u8, c: u8, d: u8) -> (text: String)
    ensures
        text@ == ipv4_text(a, b, c, d),
{
    let mut text = decimal(a as u64);
    text.append(".");
    text.append(decimal(b as u64).as_str());
    text.append(".");
    text.append(decimal(c as u64).as_str());
    text.append(".");
    text.append(decimal(d as u64).as_str());
    text
}

/// Groups with colons between them.
pub open spec fn groups_text(groups: Seq<u16>) -> Seq<char>
    decreases groups.len(),
{
    if groups.len() == 0 {
        Seq::empty()
    } else if groups.len() == 1 {
        hex_text(groups[0] as nat)
    } else {
        groups_text(groups.drop_last()) + ":"@ + hex_text(groups.last() as nat)
    }
}

fn print_groups(groups: &Vec<u16>, from: usize, to: usize) -> (text: String)
    requires
        from <= to <= groups@.len(),
    ensures
        text@ == groups_text(groups@.subrange(from as int, to as int)),
{
    let mut text = String::new();
    let mut i: usize = from;
    while i < to
        invariant
            from <= i <= to <= groups@.len(),
            text@ == groups_text(groups@.subrange(from as int, i as int)),
        decreases to - i,
    {
        if i > from {
            text.append(":");
        }
        text.append(hex(groups[i] as u64).as_str());
        proof {
            let longer = groups@.subrange(from as int, i + 1);
            assert(longer.drop_last() =~= groups@.subrange(from as int, i as int));
            assert(longer.last() == groups@[i as int]);
            if i == from {
                assert(text@ =~= hex_text(groups@[i as int] as nat));
            } else {
                assert(longer.len() > 1);
            }
        }
        i += 1;
    }
    text
}

/// How many zero groups stand in a row from `at` on.
pub open spec fn zero_run(groups: Seq<u16>, at: int) -> nat
    decreases groups.len() - at,
{
    if 0 <= at < groups.len() && groups[at] == 0 {
        1 + zero_run(groups, at + 1)
    } else {
        0
    }
}

/// Where the first of the longest rows of zeros among the first `count` starts lies.
pub open spec fn longest_zeros(groups: Seq<u16>, count: nat) -> int
    decreases count,
{
    if count == 0 {
        0
    } else {
        let best = longest_zeros(groups, (count - 1) as nat);
        if zero_run(groups, count - 1) > zero_run(groups, best) {
            count - 1
        } else {
            best
        }
    }
}

pub open spec fn is_mapped(groups: Seq<u16>) -> bool {
    &&& groups[0] == 0
    &&& groups[1] == 0
    &&& groups[2] == 0
    &&& groups[3] == 0
    &&& groups[4] == 0
    &&& groups[5] == 0xffff
}

/// A version six address: an address of version four inside it is dotted, and
/// the longest row of two zeros or more shrinks to `::`.
pub open spec fn ipv6_text(groups: Seq<u16>) -> Seq<char> {
    let start = longest_zeros(groups, 8);
    let run = zero_run(groups, start);
    if is_mapped(groups) {
        "::ffff:"@ + ipv4_text(
            (groups[6] / 256) as u8,
            (groups[6] % 256) as u8,
            (groups[7] / 256) as u8,
            (groups[7] % 256) as u8,
        )
    } else if run > 1 {
        groups_text(groups.take(start)) + "::"@ + groups_text(groups.skip(start + run))
    } else {
        groups_text(groups)
    }
}

pub proof fn zero_run_fits(groups: Seq<u16>, at: int)
    requires
        0 <= at <= groups.len(),
    ensures
        at + zero_run(groups, at) <= groups.len(),
    decreases groups.len() - at,
{
    if at < groups.len() && groups[at] == 0 {
        zero_run_fits(groups, at + 1);
    }
}

fn count_zeros(groups: &Vec<u16>, at: usize) -> (run: usize)
    requires
        at <= groups@.len(),
    ensures
        run == zero_run(groups@, at as int),
        at + run <= groups@.len(),
    decreases groups@.len() - at,
{
    if at < groups.len() && groups[at] == 0 {
        1 + count_zeros(groups, at + 1)
    } else {
        0
    }
}

fn print_ipv6(groups: &Vec<u16>) -> (text: String)
    requires
        groups@.len() == 8,
    ensures
        text@ == ipv6_text(groups@),
{
    if groups[0] == 0 && groups[1] == 0 && groups[2] == 0 && groups[3] == 0 && groups[4] == 0
        && groups[5] == 0xffff {
        let mut text = "::ffff:".to_owned();
        let dotted = print_ipv4(
            (groups[6] / 256) as u8,
            (groups[6] % 256) as u8,
            (groups[7] / 256) as u8,
            (groups[7] % 256) as u8,
        );
        text.append(dotted.as_str());
        return text;
    }
    let mut start: usize = 0;
    let mut run: usize = count_zeros(groups, 0);
    let mut i: usize = 0;
    while i < 8
        invariant
            i <= 8,
            groups@.len() == 8,
            start < 8,
            start == longest_zeros(groups@, i as nat),
            run == zero_run(groups@, start as int),
            start + run <= 8,
        decreases 8 - i,
    {
        let here: usize = count_zeros(groups, i);
        if here > run {
            start = i;
            run = here;
        }
        i += 1;
    }
    if run > 1 {
        let mut text = print_groups(groups, 0, start);
        text.append("::");
        text.append(print_groups(groups, start + run, 8).as_str());
        assert(groups@.subrange(0, start as int) =~= groups@.take(start as int));
        assert(groups@.subrange(start + run, 8) =~= groups@.skip(start + run));
        text
    } else {
        assert(groups@.subrange(0, 8) =~= groups@);
        print_groups(groups, 0, 8)
    }
}

/// An IP address.
pub open spec fn ip_text(ip: IpAddr) -> Seq<char> {
    match ip {
        IpAddr::V4(a, b, c, d) => ipv4_text(a, b, c, d),
        IpAddr::V6(_, _, _, _, _, _, _, _) => ipv6_text(ip.groups()),
    }
}

/// An address with its port, and its scope where it has one.
pub open spec fn socket_addr_text(addr: SocketAddr) -> Seq<char> {
    match addr.ip {
        IpAddr::V4(_, _, _, _) => ip_text(addr.ip) + ":"@ + decimal_text(addr.port as nat),
        IpAddr::V6(_, _, _, _, _, _, _, _) => "["@ + ip_text(addr.ip) + (if addr.scope_id == 0 {
            Seq::empty()
        } else {
            "%"@ + decimal_text(addr.scope_id as nat)
        }) + "]:"@ + decimal_text(addr.port as nat),
    }
}

/// A destination, with its port.
pub open spec fn target_text(target: Target) -> Seq<char> {
    match target {
        Target::Ip(addr) => socket_addr_text(addr),
        Target::Domain(host, port) => host + ":"@ + decimal_text(port as nat),
    }
}

impl IpAddr {
    /// The address in its usual textual form.
    pub fn text(&self) -> (text: String)
        ensures
            text@ == ip_text(*self),
    {
        match *self {
            IpAddr::V4(a, b, c, d) => print_ipv4(a, b, c, d),
            IpAddr::V6(a, b, c, d, e, f, g, h) => {
                let mut groups: Vec<u16> = Vec::new();
                groups.push(a);
                groups.push(b);
                groups.push(c);
                groups.push(d);
                groups.push(e);
                groups.push(f);
                groups.push(g);
                groups.push(h);
                assert(groups@ =~= self.groups());
                print_ipv6(&groups)
            },
        }
    }
}

impl SocketAddr {
    /// The address and port in their usual textual form.
    pub fn text(&self) -> (text: String)
        ensures
            text@ == socket_addr_text(*self),
    {
        match self.ip {
            IpAddr::V4(_, _, _, _) => {
                let mut text = self.ip.text();
                text.append(":");
                text.append(decimal(self.port as u64).as_str());
                text
            },
            IpAddr::V6(_, _, _, _, _, _, _, _) => {
                let mut text = "[".to_owned();
                text.append(self.ip.text().as_str());
                let ghost so_far = text@;
                if self.scope_id != 0 {
                    text.append("%");
                    text.append(decimal(self.scope_id as u64).as_str());
                    assert(text@ =~= so_far + ("%"@ + decimal_text(self.scope_id as nat)));
                } else {
                    assert(text@ =~= so_far + Seq::<char>::empty());
                }
                text.append("]:");
                text.append(decimal(self.port as u64).as_str());
                text
            },
        }
    }
}

impl SocksAddr {
    /// The destination in its textual form.
    pub fn text(&self) -> (text: String)
        ensures
            text@ == target_text(self@),
    {
        match self {
            SocksAddr::Ip(addr) => addr.text(),
            SocksAddr::Domain(host, port) => {
                let mut text = host.clone();
                text.append(":");
                text.append(decimal(*port as u64).as_str());
                text
            },
        }
    }
}

} // verus!
