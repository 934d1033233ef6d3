//! Reading addresses in their textual forms.

use vstd::prelude::*;

use crate::net::addr::{group_of, ipv6_of, make_group, IpAddr, SocketAddr};
use crate::net::number::{char_at, has_char, number_at, read_number, NumberForm};
use crate::text::chars_of;

verus! {

/// A byte of a dotted address: no sign, no leading zero.
pub open spec fn byte_form() -> NumberForm {
    NumberForm { hex: false, max_digits: Some(3), leading_zero: false, max: 255 }
}

/// A group of a version six address.
pub open spec fn group_form() -> NumberForm {
    NumberForm { hex: true, max_digits: Some(4), leading_zero: true, max: 0xffff }
}

pub open spec fn port_form() -> NumberForm {
    NumberForm { hex: false, max_digits: None, leading_zero: true, max: 0xffff }
}

pub open spec fn scope_form() -> NumberForm {
    NumberForm { hex: false, max_digits: None, leading_zero: true, max: u32::MAX }
}

/// A number behind the separator `c`.
pub open spec fn number_behind(s: Seq<char>, at: int, c: char, form: NumberForm) -> Option<
    (nat, int),
> {
    if char_at(s, at, c) {
        number_at(s, at + 1, form)
    } else {
        None
    }
}

fn read_behind(s: &[char], at: usize, c: char, form: &NumberForm) -> (found: Option<(u32, usize)>)
    requires
        at <= s@.len(),
    ensures
        match found {
            Some((value, next)) => number_behind(s@, at as int, c, *form) == Some(
                (value as nat, next as int),
            ) && at < next <= s@.len(),
            None => number_behind(s@, at as int, c, *form) is None,
        },
{
    if has_char(s, at, c) {
        read_number(s, at + 1, form)
    } else {
        None
    }
}

/// The dotted address at `at`, with the position behind it.
#[verifier::opaque]
pub open spec fn ipv4_at(s: Seq<char>, at: int) -> Option<((u8, u8, u8, u8), int)> {
    match number_at(s, at, byte_form()) {
        None => None,
        Some((a, i)) => match number_behind(s, i, '.', byte_form()) {
            None => None,
            Some((b, j)) => match number_behind(s, j, '.', byte_form()) {
                None => None,
                Some((c, k)) => match number_behind(s, k, '.', byte_form()) {
                    None => None,
                    Some((d, end)) => Some(((a as u8, b as u8, c as u8, d as u8), end)),
                },
            },
        },
    }
}

fn read_ipv4(s: &[char], at: usize) -> (found: Option<((u8, u8, u8, u8), usize)>)
    requires
        at <= s@.len(),
    ensures
        match found {
            Some((bytes, next)) => ipv4_at(s@, at as int) == Some((bytes, next as int)) && at < next
                <= s@.len(),
            None => ipv4_at(s@, at as int) is None,
        },
{
    proof {
        reveal(ipv4_at);
        reveal(number_at);
    }
    let form = NumberForm { hex: false, max_digits: Some(3), leading_zero: false, max: 255 };
    let (a, i) = match read_number(s, at, &form) {
        Some(found) => found,
        None => {
            return None;
        },
    };
    let (b, j) = match read_behind(s, i, '.', &form) {
        Some(found) => found,
        None => {
            return None;
        },
    };
    let (c, k) = match read_behind(s, j, '.', &form) {
        Some(found) => found,
        None => {
            return None;
        },
    };
    match read_behind(s, k, '.', &form) {
        Some((d, end)) => Some(((a as u8, b as u8, c as u8, d as u8), end)),
        None => None,
    }
}

/// Where item `index` of a colon-separated list starts.
pub open spec fn item_start(s: Seq<char>, at: int, index: int) -> Option<int> {
    if index == 0 {
        Some(at)
    } else if char_at(s, at, ':') {
        Some(at + 1)
    } else {
        None
    }
}

/// Groups read so far, the position behind them, and whether a dotted address
/// closed the list.
pub struct Groups {
    pub groups: Seq<u16>,
    pub next: int,
    pub dotted: bool,
}

/// Reads up to `limit` groups from `at` on, behind the `groups` read before. A
/// dotted address may take the place of the last two.
pub open spec fn groups_at(s: Seq<char>, at: int, groups: Seq<u16>, limit: nat) -> Groups
    decreases limit - groups.len(),
{
    let stop = Groups { groups, next: at, dotted: false };
    if groups.len() >= limit {
        stop
    } else {
        match item_start(s, at, groups.len() as int) {
            None => stop,
            Some(start) => {
                let dotted = if groups.len() + 1 < limit {
                    ipv4_at(s, start)
                } else {
                    None
                };
                match dotted {
                    Some(((a, b, c, d), next)) => Groups {
                        groups: groups.push(group_of(a, b)).push(group_of(c, d)),
                        next,
                        dotted: true,
                    },
                    None => match number_at(s, start, group_form()) {
                        None => stop,
                        Some((value, next)) => groups_at(
                            s,
                            next,
                            groups.push(value as u16),
                            limit,
                        ),
                    },
                }
            },
        }
    }
}

fn read_groups(s: &[char], at: usize, limit: usize) -> (found: (Vec<u16>, usize, bool))
    requires
        at <= s@.len(),
        limit <= 8,
    ensures
        ({
            let spec = groups_at(s@, at as int, Seq::empty(), limit as nat);
            &&& found.0@ == spec.groups
            &&& found.1 == spec.next
            &&& found.2 == spec.dotted
        }),
        found.0@.len() <= limit,
        at <= found.1 <= s@.len(),
{
    proof {
        reveal(number_at);
    }
    let form = NumberForm { hex: true, max_digits: Some(4), leading_zero: true, max: 0xffff };
    let mut groups: Vec<u16> = Vec::new();
    let mut next: usize = at;
    let ghost whole = groups_at(s@, at as int, Seq::empty(), limit as nat);
    assert(groups@ =~= Seq::<u16>::empty());
    while groups.len() < limit
        invariant
            limit <= 8,
            at <= next <= s@.len(),
            groups@.len() <= limit,
            form == group_form(),
            whole == groups_at(s@, at as int, Seq::empty(), limit as nat),
            whole == groups_at(s@, next as int, groups@, limit as nat),
        decreases limit - groups@.len(),
    {
        let start: usize = if groups.len() == 0 {
            next
        } else if has_char(s, next, ':') {
            next + 1
        } else {
            return (groups, next, false);
        };
        if groups.len() + 1 < limit {
            if let Some(((a, b, c, d), end)) = read_ipv4(s, start) {
                groups.push(make_group(a, b));
                groups.push(make_group(c, d));
                return (groups, end, true);
            }
        }
        match read_number(s, start, &form) {
            None => {
                return (groups, next, false);
            },
            Some((value, end)) => {
                groups.push(value as u16);
                next = end;
            },
        }
    }
    (groups, next, false)
}

/// `head`, then zeros, then `tail`: eight groups in all.
pub open spec fn filled(head: Seq<u16>, tail: Seq<u16>) -> Seq<u16> {
    Seq::new(
        8,
        |i: int|
            if i < head.len() {
                head[i]
            } else if i >= 8 - tail.len() {
                tail[i - (8 - tail.len())]
            } else {
                0
            },
    )
}

/// The version six address at `at`, with the position behind it: eight groups,
/// or fewer with `::` in place of the missing ones.
pub open spec fn ipv6_at(s: Seq<char>, at: int) -> Option<(Seq<u16>, int)> {
    let head = groups_at(s, at, Seq::empty(), 8);
    if head.groups.len() == 8 {
        Some((head.groups, head.next))
    } else if head.dotted || !char_at(s, head.next, ':') || !char_at(s, head.next + 1, ':') {
        None
    } else {
        let tail = groups_at(
            s,
            head.next + 2,
            Seq::empty(),
            (7 - head.groups.len()) as nat,
        );
        Some((filled(head.groups, tail.groups), tail.next))
    }
}

fn read_ipv6(s: &[char], at: usize) -> (found: Option<(Vec<u16>, usize)>)
    requires
        at <= s@.len(),
    ensures
        match found {
            Some((groups, next)) => ipv6_at(s@, at as int) == Some((groups@, next as int))
                && groups@.len() == 8 && at <= next <= s@.len(),
            None => ipv6_at(s@, at as int) is None,
        },
{
    let (head, next, dotted) = read_groups(s, at, 8);
    if head.len() == 8 {
        return Some((head, next));
    }
    if dotted || !has_char(s, next, ':') || !has_char(s, next + 1, ':') {
        return None;
    }
    let (tail, end, _) = read_groups(s, next + 2, 7 - head.len());
    let head_len: usize = head.len();
    let tail_len: usize = tail.len();
    let mut groups: Vec<u16> = Vec::new();
    while groups.len() < 8
        invariant
            head_len == head@.len(),
            tail_len == tail@.len(),
            head_len + tail_len <= 7,
            groups@.len() <= 8,
            groups@ == filled(head@, tail@).take(groups@.len() as int),
        decreases 8 - groups@.len(),
    {
        let i: usize = groups.len();
        let ghost before = groups@;
        let group: u16 = if i < head_len {
            head[i]
        } else if i >= 8 - tail_len {
            tail[i - (8 - tail_len)]
        } else {
            0
        };
        groups.push(group);
        assert(groups@ =~= filled(head@, tail@).take(groups@.len() as int));
    }
    assert(groups@ =~= filled(head@, tail@));
    Some((groups, end))
}

/// The IP address that the whole of `s` writes.
pub open spec fn ip_of_text(s: Seq<char>) -> Option<IpAddr> {
    match ipv4_at(s, 0) {
        Some(((a, b, c, d), next)) => if next == s.len() {
            Some(IpAddr::V4(a, b, c, d))
        } else {
            None
        },
        None => match ipv6_at(s, 0) {
            Some((groups, next)) => if next == s.len() {
                Some(ipv6_of(groups))
            } else {
                None
            },
            None => None,
        },
    }
}

fn ipv6_from(groups: &Vec<u16>) -> (ip: IpAddr)
    requires
        groups@.len() == 8,
    ensures
        ip == ipv6_of(groups@),
{
    IpAddr::V6(
        groups[0],
        groups[1],
        groups[2],
        groups[3],
        groups[4],
        groups[5],
        groups[6],
        groups[7],
    )
}

/// Reads an IP address.
pub fn parse_ip(text: &str) -> (ip: Option<IpAddr>)
    ensures
        ip == ip_of_text(text@),
{
    let s = chars_of(text);
    match read_ipv4(s.as_slice(), 0) {
        Some(((a, b, c, d), next)) => if next == s.len() {
            Some(IpAddr::V4(a, b, c, d))
        } else {
            None
        },
        None => match read_ipv6(s.as_slice(), 0) {
            Some((groups, next)) => if next == s.len() {
                Some(ipv6_from(&groups))
            } else {
                None
            },
            None => None,
        },
    }
}

/// The scope behind a version six address, if one is written.
pub open spec fn scope_at(s: Seq<char>, at: int) -> (nat, int) {
    match number_behind(s, at, '%', scope_form()) {
        Some(found) => found,
        None => (0, at),
    }
}

/// The address and port that the whole of `s` writes: `a.b.c.d:port`, or
/// `[groups]:port` with an optional scope.
pub open spec fn socket_addr_of_text(s: Seq<char>) -> Option<SocketAddr> {
    match socket_addr_v4_at(s) {
        Some((addr, next)) => if next == s.len() {
            Some(addr)
        } else {
            None
        },
        None => match socket_addr_v6_at(s) {
            Some((addr, next)) => if next == s.len() {
                Some(addr)
            } else {
                None
            },
            None => None,
        },
    }
}

pub open spec fn socket_addr_v4_at(s: Seq<char>) -> Option<(SocketAddr, int)> {
    match ipv4_at(s, 0) {
        None => None,
        Some(((a, b, c, d), next)) => match number_behind(s, next, ':', port_form()) {
            None => None,
            Some((port, end)) => Some(
                (SocketAddr::new_spec(IpAddr::V4(a, b, c, d), port as u16), end),
            ),
        },
    }
}

pub open spec fn socket_addr_v6_at(s: Seq<char>) -> Option<(SocketAddr, int)> {
    if !char_at(s, 0, '[') {
        None
    } else {
        match ipv6_at(s, 1) {
            None => None,
            Some((groups, next)) => {
                let (scope, close) = scope_at(s, next);
                if !char_at(s, close, ']') {
                    None
                } else {
                    match number_behind(s, close + 1, ':', port_form()) {
                        None => None,
                        Some((port, end)) => Some(
                            (
                                SocketAddr {
                                    ip: ipv6_of(groups),
                                    port: port as u16,
                                    flowinfo: 0,
                                    scope_id: scope as u32,
                                },
                                end,
                            ),
                        ),
                    }
                }
            },
        }
    }
}

fn read_socket_addr_v4(s: &[char]) -> (found: Option<(SocketAddr, usize)>)
    ensures
        match found {
            Some((addr, next)) => socket_addr_v4_at(s@) == Some((addr, next as int)),
            None => socket_addr_v4_at(s@) is None,
        },
{
    let form = NumberForm { hex: false, max_digits: None, leading_zero: true, max: 0xffff };
    match read_ipv4(s, 0) {
        None => None,
        Some(((a, b, c, d), next)) => match read_behind(s, next, ':', &form) {
            None => None,
            Some((port, end)) => Some(
                (SocketAddr::new(IpAddr::V4(a, b, c, d), port as u16), end),
            ),
        },
    }
}

fn read_socket_addr_v6(s: &[char]) -> (found: Option<(SocketAddr, usize)>)
    ensures
        match found {
            Some((addr, next)) => socket_addr_v6_at(s@) == Some((addr, next as int)),
            None => socket_addr_v6_at(s@) is None,
        },
{
    if !has_char(s, 0, '[') {
        return None;
    }
    let port_form = NumberForm { hex: false, max_digits: None, leading_zero: true, max: 0xffff };
    let scope_form = NumberForm { hex: false, max_digits: None, leading_zero: true, max: u32::MAX };
    let (groups, next) = match read_ipv6(s, 1) {
        Some(found) => found,
        None => {
            return None;
        },
    };
    let (scope, close) = match read_behind(s, next, '%', &scope_form) {
        Some(found) => found,
        None => (0, next),
    };
    if !has_char(s, close, ']') {
        return None;
    }
    match read_behind(s, close + 1, ':', &port_form) {
        None => None,
        Some((port, end)) => Some(
            (
                SocketAddr {
                    ip: ipv6_from(&groups),
                    port: port as u16,
                    flowinfo: 0,
                    scope_id: scope,
                },
                end,
            ),
        ),
    }
}

/// Reads an address with its port.
pub fn parse_socket_addr(text: &str) -> (addr: Option<SocketAddr>)
    ensures
        addr == socket_addr_of_text(text@),
{
    let s = chars_of(text);
    match read_socket_addr_v4(s.as_slice()) {
        Some((addr, next)) => if next == s.len() {
            Some(addr)
        } else {
            None
        },
        None => match read_socket_addr_v6(s.as_slice()) {
            Some((addr, next)) => if next == s.len() {
                Some(addr)
            } else {
                None
            },
            None => None,
        },
    }
}

} // verus!
