//! How texts are cut, joined and trimmed.

use vstd::prelude::*;

use crate::text::{
    ascii_lower, has_prefix, has_suffix, is_whitespace, last_at, next_at, next_at_bounds,
    split_from, split_spec, trimmed, trimmed_end, trimmed_start, without_leading,
    without_trailing,
};

verus! {

/// Parts with a character between each and the next.
pub open spec fn joined_with(parts: Seq<Seq<char>>, c: char) -> Seq<char>
    decreases parts.len(),
{
    if parts.len() == 0 {
        Seq::empty()
    } else if parts.len() == 1 {
        parts[0]
    } else {
        parts[0] + seq![c] + joined_with(parts.drop_first(), c)
    }
}

pub open spec fn none_contains(parts: Seq<Seq<char>>, c: char) -> bool {
    forall|i: int| 0 <= i < parts.len() ==> !(#[trigger] parts[i]).contains(c)
}

/// A text is the parts that it is cut into, with the character between them,
/// and no part holds the character.
pub proof fn parts_make_up_the_text(s: Seq<char>, c: char)
    ensures
        split_spec(s, c).len() > 0,
        joined_with(split_spec(s, c), c) == s,
        none_contains(split_spec(s, c), c),
{
    parts_make_up_the_rest(s, c, 0);
    assert(s.skip(0) =~= s);
}

proof fn parts_make_up_the_rest(s: Seq<char>, c: char, at: int)
    requires
        0 <= at <= s.len(),
    ensures
        split_from(s, c, at).len() > 0,
        joined_with(split_from(s, c, at), c) == s.skip(at),
        none_contains(split_from(s, c, at), c),
    decreases s.len() - at,
{
    next_at_bounds(s, c, at);
    let end = next_at(s, c, at);
    let parts = split_from(s, c, at);
    if end >= s.len() {
        assert forall|i: int| 0 <= i < s.skip(at).len() implies s.skip(at)[i] != c by {
            assert(s[at + i] != c);
        }
    } else {
        parts_make_up_the_rest(s, c, end + 1);
        let rest = split_from(s, c, end + 1);
        assert(parts.drop_first() =~= rest);
        assert(s.subrange(at, end) + seq![c] + s.skip(end + 1) =~= s.skip(at));
        assert forall|i: int| 0 <= i < s.subrange(at, end).len() implies s.subrange(at, end)[i]
            != c by {
            assert(s[at + i] != c);
        }
        assert forall|i: int| 0 <= i < parts.len() implies !(#[trigger] parts[i]).contains(c) by {
            if i > 0 {
                assert(parts[i] == rest[i - 1]);
            }
        }
    }
}

proof fn cutting_goes_on(s: Seq<char>, c: char, from: int, at: int)
    requires
        0 <= from,
        0 <= at,
        from + at <= s.len(),
    ensures
        next_at(s, c, from + at) == from + next_at(s.skip(from), c, at),
        split_from(s, c, from + at) == split_from(s.skip(from), c, at),
    decreases s.len() - from - at,
{
    let rest = s.skip(from);
    if from + at < s.len() {
        assert(rest[at] == s[from + at]);
        cutting_goes_on(s, c, from, at + 1);
    }
    next_at_bounds(s, c, from + at);
    next_at_bounds(rest, c, at);
    let end = next_at(rest, c, at);
    if end < rest.len() {
        cutting_goes_on(s, c, from, end + 1);
        assert(s.subrange(from + at, from + end) =~= rest.subrange(at, end));
    } else {
        assert(s.skip(from + at) =~= rest.skip(at));
    }
}

/// Parts that do not hold the character are what their joined text is cut into.
pub proof fn joined_parts_are_found(parts: Seq<Seq<char>>, c: char)
    requires
        parts.len() > 0,
        none_contains(parts, c),
    ensures
        split_spec(joined_with(parts, c), c) == parts,
    decreases parts.len(),
{
    let s = joined_with(parts, c);
    next_at_bounds(s, c, 0);
    assert(!parts[0].contains(c));
    if parts.len() == 1 {
        if next_at(s, c, 0) < s.len() {
            assert(parts[0].contains(s[next_at(s, c, 0)]));
        }
        assert(s.skip(0) =~= s);
        assert(split_spec(s, c) =~= parts);
    } else {
        let rest = parts.drop_first();
        let k = parts[0].len() as int;
        assert forall|i: int| 0 <= i < rest.len() implies !(#[trigger] rest[i]).contains(c) by {
            assert(rest[i] == parts[i + 1]);
        }
        joined_parts_are_found(rest, c);
        assert(s[k] == c);
        assert(forall|i: int| 0 <= i < k ==> s[i] == parts[0][i]);
        if next_at(s, c, 0) < k {
            assert(parts[0].contains(s[next_at(s, c, 0)]));
        }
        assert(next_at(s, c, 0) == k);
        cutting_goes_on(s, c, k + 1, 0);
        assert(s.skip(k + 1) =~= joined_with(rest, c));
        assert(s.subrange(0, k) =~= parts[0]);
        assert(seq![parts[0]] + rest =~= parts);
    }
}

/// What is trimmed is all the white space at both ends, and nothing else.
pub proof fn only_outer_space_is_trimmed(s: Seq<char>)
    ensures
        exists|from: int, to: int|
            {
                &&& 0 <= from <= to <= s.len()
                &&& trimmed(s) == #[trigger] s.subrange(from, to)
                &&& from < to ==> !is_whitespace(s[from]) && !is_whitespace(s[to - 1])
                &&& forall|i: int| 0 <= i < from || to <= i < s.len() ==> is_whitespace(
                    #[trigger] s[i],
                )
            },
{
    let from = space_in_front(s);
    let rest = s.skip(from);
    let kept = space_behind(rest);
    assert(trimmed(s) =~= s.subrange(from, from + kept));
    assert forall|i: int| 0 <= i < from || from + kept <= i < s.len() implies is_whitespace(
        #[trigger] s[i],
    ) by {
        if i >= from {
            assert(rest[i - from] == s[i]);
        }
    }
    if kept > 0 {
        assert(rest[0] == s[from]);
        assert(rest[kept - 1] == s[from + kept - 1]);
    }
}

proof fn space_in_front(s: Seq<char>) -> (from: int)
    ensures
        0 <= from <= s.len(),
        trimmed_start(s) == s.skip(from),
        from < s.len() ==> !is_whitespace(s[from]),
        forall|i: int| 0 <= i < from ==> is_whitespace(#[trigger] s[i]),
    decreases s.len(),
{
    if s.len() > 0 && is_whitespace(s[0]) {
        let rest = s.drop_first();
        let from = space_in_front(rest);
        assert(rest.skip(from) =~= s.skip(from + 1));
        assert forall|i: int| 0 <= i < from + 1 implies is_whitespace(#[trigger] s[i]) by {
            if i > 0 {
                assert(rest[i - 1] == s[i]);
            }
        }
        from + 1
    } else {
        assert(s.skip(0) =~= s);
        0
    }
}

proof fn space_behind(s: Seq<char>) -> (kept: int)
    ensures
        0 <= kept <= s.len(),
        trimmed_end(s) == s.take(kept),
        kept > 0 ==> !is_whitespace(s[kept - 1]),
        forall|i: int| kept <= i < s.len() ==> is_whitespace(#[trigger] s[i]),
    decreases s.len(),
{
    if s.len() > 0 && is_whitespace(s.last()) {
        let rest = s.drop_last();
        let kept = space_behind(rest);
        assert(rest.take(kept) =~= s.take(kept));
        assert forall|i: int| kept <= i < s.len() implies is_whitespace(#[trigger] s[i]) by {
            if i < rest.len() {
                assert(rest[i] == s[i]);
            }
        }
        kept
    } else {
        assert(s.take(s.len() as int) =~= s);
        s.len() as int
    }
}

/// All of a character goes from the end of a text, or from its start, and
/// nothing else.
pub proof fn only_outer_characters_go(s: Seq<char>, c: char)
    ensures
        exists|kept: int|
            {
                &&& 0 <= kept <= s.len()
                &&& without_trailing(s, c) == #[trigger] s.take(kept)
                &&& kept > 0 ==> s[kept - 1] != c
                &&& forall|i: int| kept <= i < s.len() ==> s[i] == c
            },
        exists|start: int|
            {
                &&& 0 <= start <= s.len()
                &&& without_leading(s, c) == #[trigger] s.skip(start)
                &&& start < s.len() ==> s[start] != c
                &&& forall|i: int| 0 <= i < start ==> s[i] == c
            },
{
    let kept = trailing_splits(s, c);
    assert(without_trailing(s, c) == s.take(kept));
    let start = leading_splits(s, c);
    assert(without_leading(s, c) == s.skip(start));
}

pub proof fn trailing_splits(s: Seq<char>, c: char) -> (kept: int)
    ensures
        0 <= kept <= s.len(),
        without_trailing(s, c) == s.take(kept),
        kept > 0 ==> s[kept - 1] != c,
        forall|i: int| kept <= i < s.len() ==> s[i] == c,
    decreases s.len(),
{
    if s.len() > 0 && s.last() == c {
        let kept = trailing_splits(s.drop_last(), c);
        assert(s.drop_last().take(kept) =~= s.take(kept));
        assert forall|i: int| kept <= i < s.len() implies s[i] == c by {
            if i < s.len() - 1 {
                assert(s.drop_last()[i] == c);
            }
        }
        kept
    } else {
        assert(s.take(s.len() as int) =~= s);
        s.len() as int
    }
}

pub proof fn leading_splits(s: Seq<char>, c: char) -> (start: int)
    ensures
        0 <= start <= s.len(),
        without_leading(s, c) == s.skip(start),
        start < s.len() ==> s[start] != c,
        forall|i: int| 0 <= i < start ==> s[i] == c,
    decreases s.len(),
{
    if s.len() > 0 && s[0] == c {
        let start = leading_splits(s.drop_first(), c);
        assert(s.drop_first().skip(start) =~= s.skip(start + 1));
        assert forall|i: int| 0 <= i < start + 1 implies s[i] == c by {
            if i > 0 {
                assert(s.drop_first()[i - 1] == c);
            }
        }
        start + 1
    } else {
        assert(s.skip(0) =~= s);
        0
    }
}

/// Where a character occurs last: behind there it does not occur.
pub proof fn the_last_place_is_found(s: Seq<char>, c: char, end: int)
    requires
        0 <= end <= s.len(),
    ensures
        match last_at(s, c, end) {
            Some(at) => {
                &&& 0 <= at < end
                &&& s[at] == c
                &&& forall|i: int| at < i < end ==> #[trigger] s[i] != c
            },
            None => forall|i: int| 0 <= i < end ==> #[trigger] s[i] != c,
        },
    decreases end,
{
    if end > 0 && s[end - 1] != c {
        the_last_place_is_found(s, c, end - 1);
    }
}

/// The 26 capital letters of ASCII are put into lower case, and nothing else is
/// changed.
pub proof fn only_capitals_change(c: char)
    ensures
        0x41 <= c as u32 <= 0x5a ==> ascii_lower(c) as u32 == c as u32 + 0x20,
        !(0x41 <= c as u32 <= 0x5a) ==> ascii_lower(c) == c,
{
}

/// A text starts with its front and ends with its back, whatever stands between
/// them, and with nothing else of their lengths.
pub proof fn texts_start_and_end(front: Seq<char>, back: Seq<char>, other: Seq<char>)
    ensures
        has_prefix(front + back, front),
        has_suffix(front + back, back),
        other.len() == front.len() && other != front ==> !has_prefix(front + back, other),
        other.len() == back.len() && other != back ==> !has_suffix(front + back, other),
        other.len() > front.len() + back.len() ==> !has_prefix(front + back, other) && !has_suffix(
            front + back,
            other,
        ),
{
    assert((front + back).take(front.len() as int) =~= front);
    assert((front + back).skip(front.len() as int) =~= back);
}

} // verus!
