//! The textual forms of numbers and addresses.

use vstd::prelude::*;

use crate::hysteria2::address::port_from;
use crate::net::addr::{IpAddr, SocketAddr};
use crate::net::laws::{decimal_digits, hex_digits, reads_decimal, stands_at};
use crate::net::number::{digit_value, number, number_at, run_len, NumberForm};
use crate::net::parse::{byte_form, group_form, ip_of_text, ipv4_at, port_form, scope_form};
use crate::net::print::{
    groups_text, hex_text, ip_text, ipv4_text, ipv6_text, is_mapped, longest_zeros,
    socket_addr_text, zero_run,
};
use crate::text::{decimal_text, digit_char};

verus! {

/// How numbers in addresses must be written: a byte has one to three digits and
/// no zero in front, a group one to four hexadecimal digits; a port and a scope
/// may have zeros in front.
pub proof fn numbers_have_their_forms()
    ensures
        byte_form() == (NumberForm {
            hex: false,
            max_digits: Some(3),
            leading_zero: false,
            max: 255,
        }),
        group_form() == (NumberForm {
            hex: true,
            max_digits: Some(4),
            leading_zero: true,
            max: 65535,
        }),
        port_form() == (NumberForm {
            hex: false,
            max_digits: None,
            leading_zero: true,
            max: 65535,
        }),
        scope_form() == (NumberForm {
            hex: false,
            max_digits: None,
            leading_zero: true,
            max: 4294967295,
        }),
{
}

/// The value of a digit.
pub proof fn digits_have_their_values(c: char)
    ensures
        '0' <= c <= '9' ==> digit_value(c, false) == Some((c as u32 - 48) as nat) && digit_value(
            c,
            true,
        ) == Some((c as u32 - 48) as nat),
        'a' <= c <= 'f' ==> digit_value(c, true) == Some((c as u32 - 87) as nat),
        'A' <= c <= 'F' ==> digit_value(c, true) == Some((c as u32 - 55) as nat),
        !('0' <= c <= '9') ==> digit_value(c, false) is None,
        !('0' <= c <= '9') && !('a' <= c <= 'f') && !('A' <= c <= 'F') ==> digit_value(
            c,
            true,
        ) is None,
{
}

proof fn run_is_of_digits(s: Seq<char>, at: int, hex: bool)
    requires
        0 <= at <= s.len(),
    ensures
        at + run_len(s, at, hex) <= s.len(),
        forall|i: int|
            at <= i < at + run_len(s, at, hex) ==> digit_value(#[trigger] s[i], hex) is Some,
        at + run_len(s, at, hex) < s.len() ==> digit_value(
            s[at + run_len(s, at, hex)],
            hex,
        ) is None,
    decreases s.len() - at,
{
    if at < s.len() && digit_value(s[at], hex) is Some {
        run_is_of_digits(s, at + 1, hex);
    }
}

/// A number that is read takes all the digits at its place, no more than its
/// form allows and of no greater value, and is the value of those digits.
pub proof fn numbers_are_all_the_digits(s: Seq<char>, at: int, form: NumberForm)
    requires
        0 <= at <= s.len(),
    ensures
        number_at(s, at, form) matches Some((value, end)) ==> {
            &&& at < end <= s.len()
            &&& forall|i: int| at <= i < end ==> digit_value(#[trigger] s[i], form.hex) is Some
            &&& end < s.len() ==> digit_value(s[end], form.hex) is None
            &&& form.max_digits is Some ==> end - at <= form.max_digits->0
            &&& !form.leading_zero && end - at > 1 ==> s[at] != '0'
            &&& value <= form.max
            &&& value == number(s, at, end, form.hex)
        },
        at == s.len() || digit_value(s[at], form.hex) is None ==> number_at(s, at, form) is None,
{
    reveal(number_at);
    run_is_of_digits(s, at, form.hex);
}

/// The digits of a number from the highest to the lowest: each adds to ten times
/// what stands before it, or to sixteen times.
pub proof fn digits_add_up(s: Seq<char>, from: int, to: int)
    ensures
        number(s, from, from, false) == 0,
        from < to ==> number(s, from, to, false) == 10 * number(s, from, to - 1, false)
            + digit_value(s[to - 1], false)->0,
        from < to ==> number(s, from, to, true) == 16 * number(s, from, to - 1, true)
            + digit_value(s[to - 1], true)->0,
{
}

proof fn no_other_decimal(s: Seq<char>, from: int, to: int)
    requires
        0 <= from < to <= s.len(),
        forall|i: int| from <= i < to ==> digit_value(#[trigger] s[i], false) is Some,
        to - from == 1 || s[from] != '0',
    ensures
        s.subrange(from, to) == decimal_text(number(s, from, to, false)),
        s[from] != '0' ==> number(s, from, to, false) > 0,
    decreases to - from,
{
    let value = number(s, from, to, false);
    let d = digit_value(s[to - 1], false)->0;
    assert(d < 10);
    assert(digit_char(d as int) == s[to - 1]);
    if to - from == 1 {
        assert(number(s, from, from, false) == 0);
        assert(value == d);
        assert(s.subrange(from, to) =~= seq![s[from]]);
    } else {
        no_other_decimal(s, from, to - 1);
        let rest = number(s, from, to - 1, false);
        assert(value == rest * 10 + d);
        assert(value / 10 == rest && value % 10 == d);
        assert(s.subrange(from, to) =~= s.subrange(from, to - 1).push(s[to - 1]));
    }
}

proof fn byte_is_its_decimal(s: Seq<char>, at: int)
    requires
        0 <= at <= s.len(),
        number_at(s, at, byte_form()) is Some,
    ensures
        ({
            let (value, end) = number_at(s, at, byte_form())->0;
            &&& at < end <= s.len()
            &&& value <= 255
            &&& s.subrange(at, end) == decimal_text(value)
        }),
{
    numbers_are_all_the_digits(s, at, byte_form());
    let (value, end) = number_at(s, at, byte_form())->0;
    no_other_decimal(s, at, end);
}

/// An address of version four has one textual form: a text that is read as one
/// is that form.
pub proof fn dotted_addresses_have_one_form(s: Seq<char>, a: u8, b: u8, c: u8, d: u8)
    ensures
        ip_of_text(s) == Some(IpAddr::V4(a, b, c, d)) ==> s == ipv4_text(a, b, c, d),
        ipv4_text(a, b, c, d) == decimal_text(a as nat) + seq!['.'] + decimal_text(b as nat)
            + seq!['.'] + decimal_text(c as nat) + seq!['.'] + decimal_text(d as nat),
{
    reveal_strlit(".");
    assert("."@ =~= seq!['.']);
    if ip_of_text(s) == Some(IpAddr::V4(a, b, c, d)) {
        reveal(ipv4_at);
        byte_is_its_decimal(s, 0);
        let (_, i) = number_at(s, 0, byte_form())->0;
        byte_is_its_decimal(s, i + 1);
        let (_, j) = number_at(s, i + 1, byte_form())->0;
        byte_is_its_decimal(s, j + 1);
        let (_, k) = number_at(s, j + 1, byte_form())->0;
        byte_is_its_decimal(s, k + 1);
        assert(s =~= s.subrange(0, i) + seq!['.'] + s.subrange(i + 1, j) + seq!['.'] + s.subrange(
            j + 1,
            k,
        ) + seq!['.'] + s.subrange(k + 1, s.len() as int));
    }
}

/// Groups are written with a colon between each and the next.
pub proof fn groups_follow_colons(groups: Seq<u16>, group: u16)
    ensures
        groups_text(seq![group]) == hex_text(group as nat),
        groups.len() > 0 ==> groups_text(groups.push(group)) == groups_text(groups) + seq![':']
            + hex_text(group as nat),
        groups_text(Seq::empty()).len() == 0,
{
    reveal_strlit(":");
    assert(":"@ =~= seq![':']);
    assert(groups.push(group).drop_last() =~= groups);
}

/// A row of zeros that is as long as it can be.
pub open spec fn is_zero_row(groups: Seq<u16>, start: int, len: int) -> bool {
    &&& 0 <= start <= start + len <= groups.len()
    &&& forall|i: int| start <= i < start + len ==> #[trigger] groups[i] == 0
    &&& start + len < groups.len() ==> groups[start + len] != 0
}

proof fn run_is_zero_row(groups: Seq<u16>, at: int)
    requires
        0 <= at <= groups.len(),
    ensures
        is_zero_row(groups, at, zero_run(groups, at) as int),
    decreases groups.len() - at,
{
    if at < groups.len() && groups[at] == 0 {
        run_is_zero_row(groups, at + 1);
    }
}

proof fn longest_comes_first(groups: Seq<u16>, count: nat)
    requires
        1 <= count <= groups.len(),
    ensures
        ({
            let best = longest_zeros(groups, count);
            &&& 0 <= best < count
            &&& forall|i: int|
                0 <= i < count ==> #[trigger] zero_run(groups, i) <= zero_run(groups, best)
            &&& forall|i: int|
                0 <= i < best ==> #[trigger] zero_run(groups, i) < zero_run(groups, best)
        }),
    decreases count,
{
    if count > 1 {
        longest_comes_first(groups, (count - 1) as nat);
    } else {
        assert(longest_zeros(groups, 0) == 0);
        assert(longest_zeros(groups, 1) == 0);
    }
}

/// An address of version six shows its groups, but for the first of its longest
/// rows of two zeros or more, which shrinks to two colons; and an address of
/// version four inside it is dotted.
pub proof fn long_zeros_shrink(groups: Seq<u16>)
    requires
        groups.len() == 8,
    ensures
        ({
            let mapped = groups.take(6) == seq![0u16, 0u16, 0u16, 0u16, 0u16, 0xffffu16];
            let text = ipv6_text(groups);
            &&& mapped ==> text == seq![':', ':', 'f', 'f', 'f', 'f', ':'] + ipv4_text(
                (groups[6] / 256) as u8,
                (groups[6] % 256) as u8,
                (groups[7] / 256) as u8,
                (groups[7] % 256) as u8,
            )
            &&& !mapped && (forall|i: int|
                0 <= i < 7 ==> !(#[trigger] groups[i] == 0 && groups[i + 1] == 0)) ==> text
                == groups_text(groups)
            &&& !mapped && (exists|i: int| 0 <= i < 7 && #[trigger] groups[i] == 0 && groups[i + 1]
                == 0) ==> exists|start: int, len: int|
                {
                    &&& #[trigger] is_zero_row(groups, start, len)
                    &&& len >= 2
                    &&& text == groups_text(groups.take(start)) + seq![':', ':'] + groups_text(
                        groups.skip(start + len),
                    )
                    &&& forall|i: int|
                        0 <= i < 8 ==> #[trigger] zero_run(groups, i) <= len
                    &&& forall|i: int| 0 <= i < start ==> #[trigger] zero_run(groups, i) < len
                }
        }),
{
    reveal_strlit("::ffff:");
    reveal_strlit("::");
    assert("::ffff:"@ =~= seq![':', ':', 'f', 'f', 'f', 'f', ':']);
    assert("::"@ =~= seq![':', ':']);
    let mapped = groups.take(6) == seq![0u16, 0u16, 0u16, 0u16, 0u16, 0xffffu16];
    assert(mapped == is_mapped(groups)) by {
        let front = groups.take(6);
        assert(forall|i: int| 0 <= i < 6 ==> front[i] == groups[i]);
        if is_mapped(groups) {
            assert(front =~= seq![0u16, 0u16, 0u16, 0u16, 0u16, 0xffffu16]);
        }
        if mapped {
            assert(groups[0] == front[0]);
            assert(groups[1] == front[1]);
            assert(groups[2] == front[2]);
            assert(groups[3] == front[3]);
            assert(groups[4] == front[4]);
            assert(groups[5] == front[5]);
        }
    }
    longest_comes_first(groups, 8);
    let start = longest_zeros(groups, 8);
    run_is_zero_row(groups, start);
    let len = zero_run(groups, start) as int;
    if len > 1 {
        assert(groups[start] == 0 && groups[start + 1] == 0);
    }
    if exists|i: int| 0 <= i < 7 && #[trigger] groups[i] == 0 && groups[i + 1] == 0 {
        let i = choose|i: int| 0 <= i < 7 && #[trigger] groups[i] == 0 && groups[i + 1] == 0;
        reveal_with_fuel(zero_run, 3);
        assert(zero_run(groups, i) >= 2);
    }
}

/// A number in hexadecimal has small letters and no zero in front.
pub proof fn hexadecimal_is_plain(value: nat)
    ensures
        number(hex_text(value), 0, hex_text(value).len() as int, true) == value,
        value < 16 ==> hex_text(value).len() == 1,
        value >= 16 ==> hex_text(value).drop_last() == hex_text(value / 16),
        0 <= value < 10 ==> hex_text(value)[0] as u32 == 48 + value,
        10 <= value < 16 ==> hex_text(value)[0] as u32 == 87 + value,
{
    hex_digits(value);
    if value >= 16 {
        assert(hex_text(value).drop_last() =~= hex_text(value / 16));
    }
}

/// An address of version four inside one of version six is the same address;
/// every other one is its own.
pub proof fn mapped_addresses_are_the_same(g: u16, h: u16, other: IpAddr)
    ensures
        IpAddr::V6(0, 0, 0, 0, 0, 0xffff, g, h).canonical() == IpAddr::V4(
            (g / 256) as u8,
            (g % 256) as u8,
            (h / 256) as u8,
            (h % 256) as u8,
        ),
        other is V4 ==> other.canonical() == other,
        other is V6 && other.groups().take(6) != seq![0u16, 0u16, 0u16, 0u16, 0u16, 0xffffu16]
            ==> other.canonical() == other,
{
    if let IpAddr::V6(a, b, c, d, e, f, x, y) = other {
        if a == 0 && b == 0 && c == 0 && d == 0 && e == 0 && f == 0xffff {
            assert(other.groups().take(6) =~= seq![0u16, 0u16, 0u16, 0u16, 0u16, 0xffffu16]);
        }
    }
}

/// An address with its port: a colon stands between them, and version six is in
/// brackets, with its scope if it has one.
pub proof fn ports_follow_addresses(addr: SocketAddr)
    ensures
        addr.ip is V4 ==> socket_addr_text(addr) == ip_text(addr.ip) + seq![':'] + decimal_text(
            addr.port as nat,
        ),
        addr.ip is V6 && addr.scope_id == 0 ==> socket_addr_text(addr) == seq!['['] + ip_text(
            addr.ip,
        ) + seq![']', ':'] + decimal_text(addr.port as nat),
        addr.ip is V6 && addr.scope_id > 0 ==> socket_addr_text(addr) == seq!['['] + ip_text(
            addr.ip,
        ) + seq!['%'] + decimal_text(addr.scope_id as nat) + seq![']', ':'] + decimal_text(
            addr.port as nat,
        ),
{
    reveal_strlit(":");
    reveal_strlit("[");
    reveal_strlit("]:");
    reveal_strlit("%");
    assert(":"@ =~= seq![':']);
    assert("["@ =~= seq!['[']);
    assert("]:"@ =~= seq![']', ':']);
    assert("%"@ =~= seq!['%']);
    if addr.ip is V6 {
        assert(socket_addr_text(addr) =~= if addr.scope_id == 0 {
            seq!['['] + ip_text(addr.ip) + seq![']', ':'] + decimal_text(addr.port as nat)
        } else {
            seq!['['] + ip_text(addr.ip) + seq!['%'] + decimal_text(addr.scope_id as nat) + seq![
                ']',
                ':',
            ] + decimal_text(addr.port as nat)
        });
    }
}

/// A port is a number up to 65535, with a plus sign in front or without; nothing
/// may follow it, and it may not be missing.
pub proof fn ports_are_small_numbers(front: Seq<char>, value: nat)
    ensures
        ({
            let plain = front + decimal_text(value);
            let signed = front + seq!['+'] + decimal_text(value);
            let at = front.len() as int;
            &&& value <= 65535 ==> port_from(plain, at) == Some(value as u16) && port_from(
                signed,
                at,
            ) == Some(value as u16)
            &&& value > 65535 ==> port_from(plain, at) is None
            &&& port_from(front, at) is None
        }),
{
    let plain = front + decimal_text(value);
    let signed = front + seq!['+'] + decimal_text(value);
    let at = front.len() as int;
    decimal_digits(value);
    let digits = decimal_text(value);
    assert(plain.subrange(at, at + digits.len()) =~= digits);
    assert(signed.subrange(at + 1, at + 1 + digits.len()) =~= digits);
    assert(digit_value(digits[0], false) is Some);
    assert(plain[at] == digits[0]);
    assert(stands_at(plain, at, digits, false));
    assert(stands_at(signed, at + 1, digits, false));
    assert(signed[at] == '+');
    if value <= 65535 {
        reads_decimal(plain, at, value, port_form());
        reads_decimal(signed, at + 1, value, port_form());
    } else {
        numbers_are_all_the_digits(plain, at, port_form());
        if number_at(plain, at, port_form()) is Some {
            let (read, end) = number_at(plain, at, port_form())->0;
            if end < plain.len() {
                assert(plain[end] == digits[end - at]);
                assert(digit_value(digits[end - at], false) is Some);
            }
            assert(end == plain.len());
            same_number(plain, at, digits, digits.len() as int);
        }
    }
    numbers_are_all_the_digits(front, at, port_form());
}

proof fn same_number(s: Seq<char>, at: int, digits: Seq<char>, count: int)
    requires
        0 <= at,
        0 <= count <= digits.len(),
        at + digits.len() == s.len(),
        s.subrange(at, s.len() as int) == digits,
    ensures
        number(s, at, at + count, false) == number(digits, 0, count, false),
    decreases count,
{
    if count > 0 {
        same_number(s, at, digits, count - 1);
        assert(digits[count - 1] == s.subrange(at, s.len() as int)[count - 1]);
    }
}

} // verus!
