//! What is written is read back.

use vstd::prelude::*;

use crate::net::addr::{group_of, IpAddr, SocketAddr};
use crate::net::number::{char_at, digit_value, number, number_at, run_len, NumberForm};
use crate::net::parse::{
    byte_form, filled, group_form, groups_at, ip_of_text, ipv4_at, ipv6_at, item_start, port_form,
    scope_at, scope_form, socket_addr_of_text, socket_addr_v4_at, socket_addr_v6_at, Groups,
};
use crate::net::print::{
    groups_text, hex_char, hex_text, ip_text, ipv4_text, ipv6_text, is_mapped, longest_zeros,
    socket_addr_text, zero_run, zero_run_fits,
};
use crate::text::{decimal_text, digit_char};

verus! {

/// `t` stands in `s` at `at`, and no digit follows it.
pub open spec fn stands_at(s: Seq<char>, at: int, t: Seq<char>, hex: bool) -> bool {
    &&& 0 <= at
    &&& at + t.len() <= s.len()
    &&& s.subrange(at, at + t.len()) == t
    &&& at + t.len() < s.len() ==> digit_value(s[at + t.len()], hex) is None
}

pub proof fn decimal_digits(value: nat)
    ensures
        decimal_text(value).len() >= 1,
        forall|i: int|
            0 <= i < decimal_text(value).len() ==> digit_value(
                #[trigger] decimal_text(value)[i],
                false,
            ) is Some,
        number(decimal_text(value), 0, decimal_text(value).len() as int, false) == value,
        value >= 10 ==> decimal_text(value)[0] != '0',
        value > 0 ==> decimal_text(value)[0] != '0',
        value < 10 ==> decimal_text(value).len() == 1,
        value < 100 ==> decimal_text(value).len() <= 2,
        value < 1000 ==> decimal_text(value).len() <= 3,
    decreases value,
{
    let t = decimal_text(value);
    let n = t.len() as int;
    assert(digit_value(digit_char((value % 10) as int), false) == Some((value % 10) as nat));
    if value < 10 {
        assert(number(t, 0, 0, false) == 0);
        assert(number(t, 0, 1, false) == value);
    } else {
        let front = decimal_text(value / 10);
        decimal_digits(value / 10);
        assert forall|i: int| 0 <= i < front.len() implies t[i] == front[i] by {}
        number_depends_on_digits(t, 0, front, 0, front.len() as int, false);
        assert(number(t, 0, n, false) == number(t, 0, n - 1, false) * 10 + value % 10);
    }
}

pub proof fn hex_digits(value: nat)
    ensures
        hex_text(value).len() >= 1,
        forall|i: int|
            0 <= i < hex_text(value).len() ==> digit_value(
                #[trigger] hex_text(value)[i],
                true,
            ) is Some,
        forall|i: int| 0 <= i < hex_text(value).len() ==> #[trigger] hex_text(value)[i] != '.',
        number(hex_text(value), 0, hex_text(value).len() as int, true) == value,
        value < 16 ==> hex_text(value).len() == 1,
        value < 256 ==> hex_text(value).len() <= 2,
        value < 4096 ==> hex_text(value).len() <= 3,
        value < 65536 ==> hex_text(value).len() <= 4,
    decreases value,
{
    let t = hex_text(value);
    let n = t.len() as int;
    assert(digit_value(hex_char((value % 16) as int), true) == Some((value % 16) as nat));
    if value < 16 {
        assert(number(t, 0, 0, true) == 0);
        assert(number(t, 0, 1, true) == value);
    } else {
        let front = hex_text(value / 16);
        hex_digits(value / 16);
        assert forall|i: int| 0 <= i < front.len() implies t[i] == front[i] by {}
        number_depends_on_digits(t, 0, front, 0, front.len() as int, true);
        assert(number(t, 0, n, true) == number(t, 0, n - 1, true) * 16 + value % 16);
    }
}

proof fn number_depends_on_digits(
    s: Seq<char>,
    at: int,
    t: Seq<char>,
    from: int,
    count: int,
    hex: bool,
)
    requires
        count >= 0,
        forall|i: int| 0 <= i < count ==> #[trigger] s[at + i] == t[from + i],
    ensures
        number(s, at, at + count, hex) == number(t, from, from + count, hex),
    decreases count,
{
    if count > 0 {
        number_depends_on_digits(s, at, t, from, count - 1, hex);
        assert(s[at + (count - 1)] == t[from + (count - 1)]);
    }
}

proof fn run_is(s: Seq<char>, at: int, t: Seq<char>, hex: bool)
    requires
        stands_at(s, at, t, hex),
        forall|i: int| 0 <= i < t.len() ==> digit_value(#[trigger] t[i], hex) is Some,
    ensures
        run_len(s, at, hex) == t.len(),
    decreases t.len(),
{
    if t.len() > 0 {
        assert(s[at] == s.subrange(at, at + t.len())[0]);
        assert(digit_value(t[0], hex) is Some);
        let rest = t.drop_first();
        assert(s.subrange(at + 1, at + 1 + rest.len()) =~= rest) by {
            assert forall|i: int| 0 <= i < rest.len() implies s[at + 1 + i] == rest[i] by {
                assert(s.subrange(at, at + t.len())[i + 1] == t[i + 1]);
            }
        }
        run_is(s, at + 1, rest, hex);
    }
}

proof fn reads_number(s: Seq<char>, at: int, t: Seq<char>, form: NumberForm)
    requires
        stands_at(s, at, t, form.hex),
        t.len() > 0,
        forall|i: int| 0 <= i < t.len() ==> digit_value(#[trigger] t[i], form.hex) is Some,
        form.max_digits is Some ==> t.len() <= form.max_digits->0,
        form.leading_zero || t.len() == 1 || t[0] != '0',
        number(t, 0, t.len() as int, form.hex) <= form.max,
    ensures
        number_at(s, at, form) == Some((number(t, 0, t.len() as int, form.hex), at + t.len())),
{
    reveal(number_at);
    run_is(s, at, t, form.hex);
    assert forall|i: int| 0 <= i < t.len() implies #[trigger] s[at + i] == t[0 + i] by {
        assert(s.subrange(at, at + t.len())[i] == t[i]);
    }
    number_depends_on_digits(s, at, t, 0, t.len() as int, form.hex);
    assert(s[at + 0] == t[0]);
}

pub proof fn reads_decimal(s: Seq<char>, at: int, value: nat, form: NumberForm)
    requires
        stands_at(s, at, decimal_text(value), false),
        !form.hex,
        form.max_digits is Some ==> form.max_digits->0 == 3 && value < 1000,
        value <= form.max,
    ensures
        number_at(s, at, form) == Some((value, at + decimal_text(value).len())),
{
    decimal_digits(value);
    reads_number(s, at, decimal_text(value), form);
}

proof fn reads_group(s: Seq<char>, at: int, group: u16)
    requires
        stands_at(s, at, hex_text(group as nat), true),
    ensures
        number_at(s, at, group_form()) == Some((group as nat, at + hex_text(group as nat).len())),
        hex_text(group as nat).len() >= 1,
{
    hex_digits(group as nat);
    reads_number(s, at, hex_text(group as nat), group_form());
}

/// A dotted address stands in `s` at `at`, and neither digit nor dot follows.
proof fn reads_ipv4(s: Seq<char>, at: int, a: u8, b: u8, c: u8, d: u8)
    requires
        stands_at(s, at, ipv4_text(a, b, c, d), false),
    ensures
        ipv4_at(s, at) == Some(((a, b, c, d), at + ipv4_text(a, b, c, d).len())),
        ipv4_text(a, b, c, d).len() >= 1,
{
    reveal(ipv4_at);
    reveal_strlit(".");
    decimal_digits(a as nat);
    decimal_digits(b as nat);
    decimal_digits(c as nat);
    decimal_digits(d as nat);
    let t = ipv4_text(a, b, c, d);
    let ta = decimal_text(a as nat);
    let tb = decimal_text(b as nat);
    let tc = decimal_text(c as nat);
    let td = decimal_text(d as nat);
    let i = at + ta.len();
    let j = i + 1 + tb.len();
    let k = j + 1 + tc.len();
    assert forall|n: int| 0 <= n < t.len() implies #[trigger] s[at + n] == t[n] by {
        assert(s.subrange(at, at + t.len())[n] == t[n]);
    }
    assert(t.len() == ta.len() + tb.len() + tc.len() + td.len() + 3);
    assert(s[at + ta.len()] == '.');
    assert(s[at + (ta.len() + 1 + tb.len())] == '.');
    assert(s[at + (ta.len() + 1 + tb.len() + 1 + tc.len())] == '.');
    assert(s.subrange(at, i) =~= ta);
    assert(s.subrange(i + 1, j) =~= tb) by {
        assert forall|n: int| 0 <= n < tb.len() implies s[i + 1 + n] == tb[n] by {
            assert(s[at + (ta.len() + 1 + n)] == t[ta.len() + 1 + n]);
        }
    }
    assert(s.subrange(j + 1, k) =~= tc) by {
        assert forall|n: int| 0 <= n < tc.len() implies s[j + 1 + n] == tc[n] by {
            assert(s[at + (ta.len() + 1 + tb.len() + 1 + n)] == t[ta.len() + 1 + tb.len() + 1 + n]);
        }
    }
    assert(s.subrange(k + 1, k + 1 + td.len()) =~= td) by {
        assert forall|n: int| 0 <= n < td.len() implies s[k + 1 + n] == td[n] by {
            assert(s[at + (ta.len() + 1 + tb.len() + 1 + tc.len() + 1 + n)] == t[ta.len() + 1
                + tb.len() + 1 + tc.len() + 1 + n]);
        }
    }
    reads_decimal(s, at, a as nat, byte_form());
    reads_decimal(s, i + 1, b as nat, byte_form());
    reads_decimal(s, j + 1, c as nat, byte_form());
    reads_decimal(s, k + 1, d as nat, byte_form());
}

/// A list of groups may end here: no digit and no dot follows.
pub open spec fn ends_list(s: Seq<char>, end: int) -> bool {
    end == s.len() || (0 <= end < s.len() && digit_value(s[end], true) is None && s[end] != '.')
}

proof fn decimal_run_within_hex_run(s: Seq<char>, at: int)
    ensures
        run_len(s, at, false) <= run_len(s, at, true),
    decreases s.len() - at,
{
    if 0 <= at < s.len() && digit_value(s[at], false) is Some {
        decimal_run_within_hex_run(s, at + 1);
    }
}

/// A group that no dot follows does not start a dotted address.
proof fn group_is_not_dotted(s: Seq<char>, at: int, group: u16)
    requires
        stands_at(s, at, hex_text(group as nat), true),
        at + hex_text(group as nat).len() < s.len() ==> s[at + hex_text(group as nat).len()] != '.',
    ensures
        ipv4_at(s, at) is None,
{
    reveal(ipv4_at);
    reveal(number_at);
    let t = hex_text(group as nat);
    hex_digits(group as nat);
    run_is(s, at, t, true);
    decimal_run_within_hex_run(s, at);
    let count = run_len(s, at, false);
    if number_at(s, at, byte_form()) is Some {
        if count < t.len() {
            assert(s.subrange(at, at + t.len())[count as int] == t[count as int]);
        }
        assert(!char_at(s, at + count, '.'));
    }
}

proof fn no_digit_no_number(s: Seq<char>, at: int)
    requires
        !(0 <= at < s.len()) || digit_value(s[at], true) is None,
    ensures
        number_at(s, at, group_form()) is None,
        ipv4_at(s, at) is None,
{
    reveal(ipv4_at);
    reveal(number_at);
}

proof fn text_of_fewer_groups(groups: Seq<u16>, count: int)
    requires
        0 <= count <= groups.len(),
    ensures
        groups_text(groups.take(count)).len() <= groups_text(groups).len(),
        forall|i: int|
            0 <= i < groups_text(groups.take(count)).len() ==> #[trigger] groups_text(groups)[i]
                == groups_text(groups.take(count))[i],
    decreases groups.len() - count,
{
    if count == groups.len() {
        assert(groups.take(count) =~= groups);
    } else {
        text_of_fewer_groups(groups, count + 1);
        let longer = groups.take(count + 1);
        assert(longer.drop_last() =~= groups.take(count));
        let short = groups_text(groups.take(count));
        let long = groups_text(longer);
        if count == 0 {
            assert(short.len() == 0);
        } else {
            assert(longer.len() > 1);
            assert forall|i: int| 0 <= i < short.len() implies long[i] == short[i] by {}
        }
        assert forall|i: int| 0 <= i < short.len() implies #[trigger] groups_text(groups)[i]
            == short[i] by {
            assert(long[i] == short[i]);
        }
    }
}

/// Groups written with colons between them are read back one by one.
proof fn reads_groups(s: Seq<char>, at: int, groups: Seq<u16>, count: int, limit: nat)
    requires
        0 <= at,
        at + groups_text(groups).len() <= s.len(),
        s.subrange(at, at + groups_text(groups).len()) == groups_text(groups),
        ends_list(s, at + groups_text(groups).len()),
        0 <= count <= groups.len() <= limit,
        groups.len() < limit ==> match item_start(
            s,
            at + groups_text(groups).len(),
            groups.len() as int,
        ) {
            None => true,
            Some(start) => number_at(s, start, group_form()) is None && ipv4_at(s, start) is None,
        },
    ensures
        groups_at(s, at + groups_text(groups.take(count)).len(), groups.take(count), limit) == (
        Groups { groups, next: at + groups_text(groups).len(), dotted: false }),
    decreases groups.len() - count,
{
    reveal_strlit(":");
    let text = groups_text(groups);
    let pos = at + groups_text(groups.take(count)).len();
    assert forall|i: int| 0 <= i < text.len() implies #[trigger] s[at + i] == text[i] by {
        assert(s.subrange(at, at + text.len())[i] == text[i]);
    }
    if count == groups.len() {
        assert(groups.take(count) =~= groups);
    } else {
        reads_groups(s, at, groups, count + 1, limit);
        let taken = groups.take(count);
        let longer = groups.take(count + 1);
        let group = groups[count];
        let t = hex_text(group as nat);
        hex_digits(group as nat);
        assert(longer.drop_last() =~= taken);
        assert(longer.last() == group);
        assert(taken.push(group) =~= longer);
        text_of_fewer_groups(groups, count + 1);
        let long = groups_text(longer);
        let start = if count == 0 {
            pos
        } else {
            pos + 1
        };
        if count == 0 {
            assert(long =~= t);
            assert(groups_text(taken).len() == 0);
        } else {
            assert(longer.len() > 1);
            assert(long =~= groups_text(taken) + ":"@ + t);
            assert(text[pos - at] == long[pos - at]);
            assert(s[at + (pos - at)] == ':');
        }
        assert(item_start(s, pos, count) == Some(start));
        let end = start + t.len();
        assert(end == at + long.len());
        assert(s.subrange(start, end) =~= t) by {
            assert forall|i: int| 0 <= i < t.len() implies s[start + i] == t[i] by {
                let n = start - at + i;
                assert(text[n] == long[n]);
                assert(s[at + n] == text[n]);
            }
        }
        if count + 1 < groups.len() {
            let more = groups.take(count + 2);
            text_of_fewer_groups(groups, count + 2);
            assert(more.drop_last() =~= longer);
            assert(more.len() > 1);
            hex_digits(more.last() as nat);
            assert(groups_text(more) =~= long + ":"@ + hex_text(more.last() as nat));
            assert(text[end - at] == groups_text(more)[end - at]);
            assert(s[at + (end - at)] == ':');
        } else {
            assert(longer =~= groups);
        }
        assert(stands_at(s, start, t, true));
        reads_group(s, start, group);
        group_is_not_dotted(s, start, group);
        assert(groups_at(s, pos, taken, limit) == groups_at(s, end, longer, limit));
    }
}

proof fn longest_zeros_in_range(groups: Seq<u16>, count: nat)
    ensures
        0 <= longest_zeros(groups, count),
        count > 0 ==> longest_zeros(groups, count) < count,
    decreases count,
{
    if count > 0 {
        longest_zeros_in_range(groups, (count - 1) as nat);
        if count == 1 {
            assert(longest_zeros(groups, 0) == 0);
        }
    }
}

proof fn zero_run_is_zero(groups: Seq<u16>, at: int, i: int)
    requires
        0 <= at <= i < at + zero_run(groups, at),
        at <= groups.len(),
    ensures
        i < groups.len(),
        groups[i] == 0,
    decreases i - at,
{
    if i > at {
        zero_run_is_zero(groups, at + 1, i);
    }
}

/// A version six address that stands in `s` at `at`, where a list of groups may
/// end behind it and no colon follows, is read back.
proof fn reads_ipv6(s: Seq<char>, at: int, groups: Seq<u16>)
    requires
        groups.len() == 8,
        0 <= at,
        at + ipv6_text(groups).len() <= s.len(),
        s.subrange(at, at + ipv6_text(groups).len()) == ipv6_text(groups),
        ends_list(s, at + ipv6_text(groups).len()),
        !char_at(s, at + ipv6_text(groups).len(), ':'),
    ensures
        ipv6_at(s, at) == Some((groups, at + ipv6_text(groups).len())),
        ipv4_at(s, at) is None,
{
    reveal_strlit("::");
    reveal_strlit(":");
    let text = ipv6_text(groups);
    let end = at + text.len();
    assert forall|i: int| 0 <= i < text.len() implies #[trigger] s[at + i] == text[i] by {
        assert(s.subrange(at, at + text.len())[i] == text[i]);
    }
    if is_mapped(groups) {
        reads_mapped(s, at, groups);
    } else {
        let start = longest_zeros(groups, 8);
        longest_zeros_in_range(groups, 8);
        let run = zero_run(groups, start);
        zero_run_fits(groups, start);
        if run > 1 {
            let head = groups.take(start);
            let tail = groups.skip(start + run);
            let head_text = groups_text(head);
            let tail_text = groups_text(tail);
            let middle = at + head_text.len();
            let tail_at = middle + 2;
            assert(text =~= head_text + "::"@ + tail_text);
            assert(s[at + head_text.len()] == ':');
            assert(s[at + (head_text.len() + 1)] == ':');
            assert(s.subrange(at, middle) =~= head_text);
            assert(s.subrange(tail_at, end) =~= tail_text) by {
                assert forall|i: int| 0 <= i < tail_text.len() implies s[tail_at + i]
                    == tail_text[i] by {
                    assert(s[at + (head_text.len() + 2 + i)] == text[head_text.len() + 2 + i]);
                }
            }
            no_digit_no_number(s, middle);
            no_digit_no_number(s, middle + 1);
            reads_groups(s, at, head, 0, 8);
            assert(head.take(0) =~= Seq::<u16>::empty());
            if tail.len() == 0 {
                no_digit_no_number(s, end);
            }
            reads_groups(s, tail_at, tail, 0, (7 - start) as nat);
            assert(tail.take(0) =~= Seq::<u16>::empty());
            assert(filled(head, tail) =~= groups) by {
                assert forall|i: int| 0 <= i < 8 implies filled(head, tail)[i] == groups[i] by {
                    if start <= i < start + run {
                        zero_run_is_zero(groups, start, i);
                    }
                }
            }
            if start == 0 {
                assert(ipv4_at(s, at) is None);
            } else {
                first_group_is_not_dotted(s, at, head);
            }
        } else {
            reads_groups(s, at, groups, 0, 8);
            assert(groups.take(0) =~= Seq::<u16>::empty());
            first_group_is_not_dotted(s, at, groups);
        }
    }
}

proof fn first_group_is_not_dotted(s: Seq<char>, at: int, groups: Seq<u16>)
    requires
        groups.len() > 0,
        0 <= at,
        at + groups_text(groups).len() <= s.len(),
        s.subrange(at, at + groups_text(groups).len()) == groups_text(groups),
        ends_list(s, at + groups_text(groups).len()),
    ensures
        ipv4_at(s, at) is None,
{
    reveal_strlit(":");
    let text = groups_text(groups);
    assert forall|i: int| 0 <= i < text.len() implies #[trigger] s[at + i] == text[i] by {
        assert(s.subrange(at, at + text.len())[i] == text[i]);
    }
    let first = groups.take(1);
    let t = hex_text(groups[0] as nat);
    hex_digits(groups[0] as nat);
    text_of_fewer_groups(groups, 1);
    assert(groups_text(first) =~= t);
    assert(s.subrange(at, at + t.len()) =~= t) by {
        assert forall|i: int| 0 <= i < t.len() implies s[at + i] == t[i] by {
            assert(text[i] == groups_text(first)[i]);
        }
    }
    if groups.len() > 1 {
        let two = groups.take(2);
        text_of_fewer_groups(groups, 2);
        assert(two.drop_last() =~= first);
        hex_digits(two.last() as nat);
        assert(groups_text(two) =~= t + ":"@ + hex_text(two.last() as nat));
        assert(text[t.len() as int] == groups_text(two)[t.len() as int]);
        assert(s[at + t.len()] == ':');
    } else {
        assert(first =~= groups);
    }
    group_is_not_dotted(s, at, groups[0]);
}

proof fn reads_mapped(s: Seq<char>, at: int, groups: Seq<u16>)
    requires
        groups.len() == 8,
        is_mapped(groups),
        0 <= at,
        at + ipv6_text(groups).len() <= s.len(),
        s.subrange(at, at + ipv6_text(groups).len()) == ipv6_text(groups),
        ends_list(s, at + ipv6_text(groups).len()),
    ensures
        ipv6_at(s, at) == Some((groups, at + ipv6_text(groups).len())),
        ipv4_at(s, at) is None,
{
    reveal_strlit("::ffff:");
    let text = ipv6_text(groups);
    let a = (groups[6] / 256) as u8;
    let b = (groups[6] % 256) as u8;
    let c = (groups[7] / 256) as u8;
    let d = (groups[7] % 256) as u8;
    let dotted = ipv4_text(a, b, c, d);
    assert(text =~= "::ffff:"@ + dotted);
    assert forall|i: int| 0 <= i < text.len() implies #[trigger] s[at + i] == text[i] by {
        assert(s.subrange(at, at + text.len())[i] == text[i]);
    }
    assert(s[at + 0] == ':');
    assert(s[at + 1] == ':');
    assert(s[at + 2] == 'f');
    assert(s[at + 3] == 'f');
    assert(s[at + 4] == 'f');
    assert(s[at + 5] == 'f');
    assert(s[at + 6] == ':');
    no_digit_no_number(s, at);
    let none = Seq::<u16>::empty();
    assert(groups_at(s, at, none, 8) == (Groups { groups: none, next: at, dotted: false }));
    let ffff = seq!['f', 'f', 'f', 'f'];
    assert(s.subrange(at + 2, at + 6) =~= ffff);
    assert(digit_value('f', true) == Some(15nat));
    assert(number(ffff, 0, 4, true) == 0xffff) by {
        reveal_with_fuel(number, 5);
    }
    reads_number(s, at + 2, ffff, group_form());
    assert(ipv4_at(s, at + 2) is None) by {
        reveal(ipv4_at);
        reveal(number_at);
        assert(run_len(s, at + 2, false) == 0);
    }
    assert(s.subrange(at + 7, at + 7 + dotted.len()) =~= dotted) by {
        assert forall|i: int| 0 <= i < dotted.len() implies s[at + 7 + i] == dotted[i] by {
            assert(s[at + (7 + i)] == text[7 + i]);
        }
    }
    reads_ipv4(s, at + 7, a, b, c, d);
    let one = none.push(0xffffu16);
    let tail = one.push(group_of(a, b)).push(group_of(c, d));
    assert(groups_at(s, at + 6, one, 7) == (Groups {
        groups: tail,
        next: at + text.len(),
        dotted: true,
    }));
    assert(groups_at(s, at + 2, none, 7) == groups_at(s, at + 6, one, 7));
    assert(filled(none, tail) =~= groups);
}

/// Every IP address is read back from its textual form.
pub proof fn ip_round_trip(ip: IpAddr)
    ensures
        ip_of_text(ip_text(ip)) == Some(ip),
{
    let s = ip_text(ip);
    match ip {
        IpAddr::V4(a, b, c, d) => {
            assert(s.subrange(0, s.len() as int) =~= s);
            reads_ipv4(s, 0, a, b, c, d);
        },
        IpAddr::V6(_, _, _, _, _, _, _, _) => {
            assert(s.subrange(0, s.len() as int) =~= s);
            reads_ipv6(s, 0, ip.groups());
        },
    }
}

/// Every address with a port is read back from its textual form, but for the
/// flow label of version six, which the form does not carry.
pub proof fn socket_addr_round_trip(addr: SocketAddr)
    requires
        addr.flowinfo == 0,
        addr.ip is V4 ==> addr.scope_id == 0,
    ensures
        socket_addr_of_text(socket_addr_text(addr)) == Some(addr),
{
    reveal_strlit(":");
    reveal_strlit("[");
    reveal_strlit("]:");
    reveal_strlit("%");
    let s = socket_addr_text(addr);
    let port = decimal_text(addr.port as nat);
    decimal_digits(addr.port as nat);
    match addr.ip {
        IpAddr::V4(a, b, c, d) => {
            let ip = ipv4_text(a, b, c, d);
            assert(s =~= ip + ":"@ + port);
            assert(s.subrange(0, ip.len() as int) =~= ip);
            reads_ipv4(s, 0, a, b, c, d);
            assert(s.subrange(ip.len() as int + 1, s.len() as int) =~= port);
            reads_decimal(s, ip.len() as int + 1, addr.port as nat, port_form());
            assert(socket_addr_v4_at(s) == Some((addr, s.len() as int)));
        },
        IpAddr::V6(_, _, _, _, _, _, _, _) => {
            let ip = ipv6_text(addr.ip.groups());
            let scope = if addr.scope_id == 0 {
                Seq::<char>::empty()
            } else {
                "%"@ + decimal_text(addr.scope_id as nat)
            };
            let next: int = 1 + ip.len() as int;
            let close: int = next + scope.len();
            assert(s =~= "["@ + ip + scope + "]:"@ + port);
            assert(s[0] == '[');
            assert(s.subrange(1, next) =~= ip);
            assert(s[close] == ']');
            assert(s[close + 1] == ':');
            if addr.scope_id == 0 {
                assert(s[next] == ']');
                assert(scope_at(s, next) == (0nat, close));
            } else {
                assert(s[next] == '%');
                decimal_digits(addr.scope_id as nat);
                assert(s.subrange(next + 1, close) =~= decimal_text(addr.scope_id as nat));
                reads_decimal(s, next + 1, addr.scope_id as nat, scope_form());
                assert(scope_at(s, next) == (addr.scope_id as nat, close));
            }
            reads_ipv6(s, 1, addr.ip.groups());
            assert(s.subrange(close + 2, s.len() as int) =~= port);
            reads_decimal(s, close + 2, addr.port as nat, port_form());
            no_digit_no_number(s, 0);
            assert(socket_addr_v4_at(s) is None);
            assert(socket_addr_v6_at(s) == Some((addr, s.len() as int)));
        },
    }
}

} // verus!
