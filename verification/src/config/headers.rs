//! Headers by their names.

use vstd::prelude::*;

use crate::config::parts::{
    header_views, str_view, HeaderKey, HeaderPair, Hysteria2MasqueradeString,
};
use crate::order::{comes_before, text_before, text_order_is_total, text_order_is_transitive};
use crate::text::{chars_of, same_chars};

verus! {

/// Names come in order, and none occurs twice.
pub open spec fn in_name_order(headers: Seq<HeaderKey>) -> bool {
    forall|i: int, j: int|
        0 <= i < j < headers.len() ==> text_before(
            (#[trigger] headers[i]).name,
            (#[trigger] headers[j]).name,
        )
}

pub open spec fn has_header(headers: Seq<HeaderKey>, name: Seq<char>) -> bool {
    exists|i: int| 0 <= i < headers.len() && (#[trigger] headers[i]).name == name
}

/// The value of a header, if there is one of that name.
pub open spec fn value_of(headers: Seq<HeaderKey>, name: Seq<char>) -> Option<Seq<char>> {
    if has_header(headers, name) {
        let at = choose|i: int| 0 <= i < headers.len() && (#[trigger] headers[i]).name == name;
        Some(headers[at].value)
    } else {
        None
    }
}

impl Hysteria2MasqueradeString {
    /// The headers are kept by name.
    pub open spec fn wf(&self) -> bool {
        in_name_order(header_views(self.headers@))
    }
}

proof fn value_stands_there(headers: Seq<HeaderKey>, at: int)
    requires
        in_name_order(headers),
        0 <= at < headers.len(),
    ensures
        value_of(headers, headers[at].name) == Some(headers[at].value),
{
    let name = headers[at].name;
    let found = choose|i: int| 0 <= i < headers.len() && (#[trigger] headers[i]).name == name;
    text_order_is_total(name, name);
}

/// The value of the header `name`.
pub fn get_header<'a>(headers: &'a Vec<HeaderPair>, name: &str) -> (value: Option<&'a str>)
    requires
        in_name_order(header_views(headers@)),
    ensures
        str_view(value) == value_of(header_views(headers@), name@),
{
    let wanted = chars_of(name);
    let ghost keys = header_views(headers@);
    let mut i: usize = 0;
    while i < headers.len()
        invariant
            i <= headers@.len(),
            wanted@ == name@,
            keys == header_views(headers@),
            in_name_order(keys),
            forall|j: int| 0 <= j < i ==> (#[trigger] keys[j]).name != name@,
        decreases headers@.len() - i,
    {
        let own = chars_of(headers[i].name.as_str());
        assert(keys[i as int] == headers@[i as int]@);
        if same_chars(own.as_slice(), wanted.as_slice()) {
            proof {
                value_stands_there(keys, i as int);
            }
            return Some(headers[i].value.as_str());
        }
        i += 1;
    }
    assert(!has_header(keys, name@));
    None
}

/// Sets the header `name`: its value changes, or it takes its place among the
/// others.
pub fn set_header(headers: &mut Vec<HeaderPair>, name: String, value: String)
    requires
        in_name_order(header_views(old(headers)@)),
    ensures
        in_name_order(header_views(final(headers)@)),
        forall|other: Seq<char>| #[trigger]
            value_of(header_views(final(headers)@), other) == if other == name@ {
                Some(value@)
            } else {
                value_of(header_views(old(headers)@), other)
            },
{
    let ghost before = header_views(headers@);
    let ghost new = HeaderKey { name: name@, value: value@ };
    let chars = chars_of(name.as_str());
    let mut at: usize = 0;
    while at < headers.len()
        invariant
            headers@ == old(headers)@,
            before == header_views(headers@),
            in_name_order(before),
            chars@ == name@,
            new == (HeaderKey { name: name@, value: value@ }),
            at <= headers@.len(),
            forall|i: int| 0 <= i < at ==> text_before((#[trigger] before[i]).name, name@),
        decreases headers@.len() - at,
    {
        let own = chars_of(headers[at].name.as_str());
        assert(before[at as int] == headers@[at as int]@);
        if same_chars(own.as_slice(), chars.as_slice()) {
            headers.set(at, HeaderPair { name, value });
            proof {
                let after = header_views(headers@);
                assert(after =~= before.update(at as int, new));
                value_changes(before, at as int, new);
            }
            return ;
        }
        if comes_before(chars.as_slice(), own.as_slice()) {
            headers.insert(at, HeaderPair { name, value });
            proof {
                let after = header_views(headers@);
                assert(after =~= before.insert(at as int, new));
                header_joins(before, at as int, new);
            }
            return ;
        }
        proof {
            text_order_is_total(own@, chars@);
        }
        at += 1;
    }
    headers.push(HeaderPair { name, value });
    proof {
        let after = header_views(headers@);
        assert(after =~= before.insert(at as int, new));
        header_joins(before, at as int, new);
    }
}

proof fn value_changes(before: Seq<HeaderKey>, at: int, new: HeaderKey)
    requires
        in_name_order(before),
        0 <= at < before.len(),
        before[at].name == new.name,
    ensures
        in_name_order(before.update(at, new)),
        forall|other: Seq<char>| #[trigger]
            value_of(before.update(at, new), other) == if other == new.name {
                Some(new.value)
            } else {
                value_of(before, other)
            },
{
    let after = before.update(at, new);
    assert(forall|i: int| 0 <= i < before.len() ==> (#[trigger] after[i]).name == before[i].name);
    assert(in_name_order(after)) by {
        assert forall|i: int, j: int| 0 <= i < j < after.len() implies text_before(
            (#[trigger] after[i]).name,
            (#[trigger] after[j]).name,
        ) by {
            assert(text_before(before[i].name, before[j].name));
        }
    }
    assert forall|other: Seq<char>| #[trigger] value_of(after, other) == if other == new.name {
        Some(new.value)
    } else {
        value_of(before, other)
    } by {
        value_stands_there(after, at);
        if has_header(after, other) {
            let i = choose|i: int| 0 <= i < after.len() && (#[trigger] after[i]).name == other;
            value_stands_there(after, i);
            value_stands_there(before, i);
        }
        if has_header(before, other) {
            let i = choose|i: int| 0 <= i < before.len() && (#[trigger] before[i]).name == other;
            assert(after[i].name == other);
        }
    }
}

proof fn header_joins(before: Seq<HeaderKey>, at: int, new: HeaderKey)
    requires
        in_name_order(before),
        0 <= at <= before.len(),
        forall|i: int| 0 <= i < at ==> text_before((#[trigger] before[i]).name, new.name),
        at < before.len() ==> text_before(new.name, before[at].name),
    ensures
        in_name_order(before.insert(at, new)),
        forall|other: Seq<char>| #[trigger]
            value_of(before.insert(at, new), other) == if other == new.name {
                Some(new.value)
            } else {
                value_of(before, other)
            },
{
    let after = before.insert(at, new);
    assert forall|i: int, j: int| 0 <= i < j < after.len() implies text_before(
        (#[trigger] after[i]).name,
        (#[trigger] after[j]).name,
    ) by {
        let a = if i < at {
            i
        } else {
            i - 1
        };
        let b = if j < at {
            j
        } else {
            j - 1
        };
        if i != at && j != at {
            assert(after[i] == before[a]);
            assert(after[j] == before[b]);
        } else if i == at {
            assert(after[j] == before[b]);
            if b > at {
                text_order_is_transitive(new.name, before[at].name, before[b].name);
            }
        } else {
            assert(after[i] == before[a]);
        }
    }
    assert forall|other: Seq<char>| #[trigger] value_of(after, other) == if other == new.name {
        Some(new.value)
    } else {
        value_of(before, other)
    } by {
        value_stands_there(after, at);
        assert(after[at] == new);
        if has_header(after, other) && other != new.name {
            let i = choose|i: int| 0 <= i < after.len() && (#[trigger] after[i]).name == other;
            let k = if i < at {
                i
            } else {
                i - 1
            };
            assert(after[i] == before[k]);
            value_stands_there(after, i);
            value_stands_there(before, k);
        }
        if has_header(before, other) {
            let i = choose|i: int| 0 <= i < before.len() && (#[trigger] before[i]).name == other;
            if i < at {
                assert(after[i].name == other);
            } else {
                assert(after[i + 1].name == other);
            }
        }
    }
}

/// Headers in the order of their names are told apart by what they say alone:
/// where every name has the same value, they are the same.
pub proof fn ordered_headers_are_a_map(a: Seq<HeaderKey>, b: Seq<HeaderKey>)
    requires
        in_name_order(a),
        in_name_order(b),
        forall|name: Seq<char>| #[trigger] value_of(a, name) == value_of(b, name),
    ensures
        a == b,
    decreases a.len(),
{
    if a.len() == 0 {
        if b.len() > 0 {
            value_stands_there(b, 0);
            assert(value_of(a, b[0].name) is None);
        }
        assert(a =~= b);
    } else if b.len() == 0 {
        value_stands_there(a, 0);
        assert(value_of(b, a[0].name) is None);
    } else {
        value_stands_there(a, 0);
        value_stands_there(b, 0);
        assert(value_of(b, a[0].name) is Some);
        assert(value_of(a, b[0].name) is Some);
        let in_b = choose|i: int| 0 <= i < b.len() && (#[trigger] b[i]).name == a[0].name;
        let in_a = choose|i: int| 0 <= i < a.len() && (#[trigger] a[i]).name == b[0].name;
        text_order_is_total(a[0].name, b[0].name);
        assert(a[0].name == b[0].name);
        let rest_a = a.drop_first();
        let rest_b = b.drop_first();
        assert forall|name: Seq<char>| #[trigger]
            value_of(rest_a, name) == value_of(rest_b, name) by {
            value_of_rest(a, name);
            value_of_rest(b, name);
            assert(value_of(a, name) == value_of(b, name));
        }
        ordered_rest(a);
        ordered_rest(b);
        ordered_headers_are_a_map(rest_a, rest_b);
        assert(a =~= seq![a[0]] + rest_a);
        assert(b =~= seq![b[0]] + rest_b);
    }
}

proof fn ordered_rest(headers: Seq<HeaderKey>)
    requires
        in_name_order(headers),
        headers.len() > 0,
    ensures
        in_name_order(headers.drop_first()),
{
    let rest = headers.drop_first();
    assert forall|i: int, j: int| 0 <= i < j < rest.len() implies text_before(
        (#[trigger] rest[i]).name,
        (#[trigger] rest[j]).name,
    ) by {
        assert(rest[i] == headers[i + 1]);
        assert(rest[j] == headers[j + 1]);
    }
}

proof fn value_of_rest(headers: Seq<HeaderKey>, name: Seq<char>)
    requires
        in_name_order(headers),
        headers.len() > 0,
    ensures
        value_of(headers.drop_first(), name) == if name == headers[0].name {
            None
        } else {
            value_of(headers, name)
        },
{
    let rest = headers.drop_first();
    ordered_rest(headers);
    if has_header(rest, name) {
        let i = choose|i: int| 0 <= i < rest.len() && (#[trigger] rest[i]).name == name;
        assert(rest[i] == headers[i + 1]);
        value_stands_there(rest, i);
        value_stands_there(headers, i + 1);
        text_order_is_total(name, name);
        assert(text_before(headers[0].name, headers[i + 1].name));
    } else if has_header(headers, name) {
        let i = choose|i: int| 0 <= i < headers.len() && (#[trigger] headers[i]).name == name;
        if i > 0 {
            assert(rest[i - 1] == headers[i]);
        }
    }
}

} // verus!
