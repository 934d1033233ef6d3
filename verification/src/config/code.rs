//! A byte code of plain values, in which equal values have equal codes.

use vstd::bytes::*;
use vstd::prelude::*;
use vstd::utf8::encode_utf8;

use crate::text::{maybe_view, text_views};

verus! {

pub open spec fn bool_code(value: bool) -> Seq<u8> {
    seq![
        if value {
            1u8
        } else {
            0u8
        },
    ]
}

pub open spec fn number_code(value: u64) -> Seq<u8> {
    spec_u64_to_le_bytes(value)
}

pub open spec fn text_code(text: Seq<char>) -> Seq<u8> {
    number_code(encode_utf8(text).len() as u64) + encode_utf8(text)
}

pub open spec fn maybe_number_code(value: Option<u64>) -> Seq<u8> {
    match value {
        None => bool_code(false),
        Some(number) => bool_code(true) + number_code(number),
    }
}

pub open spec fn maybe_bool_code(value: Option<bool>) -> Seq<u8> {
    match value {
        None => bool_code(false),
        Some(flag) => bool_code(true) + bool_code(flag),
    }
}

pub open spec fn maybe_text_code(text: Option<Seq<char>>) -> Seq<u8> {
    match text {
        None => bool_code(false),
        Some(t) => bool_code(true) + text_code(t),
    }
}

pub open spec fn texts_code(texts: Seq<Seq<char>>) -> Seq<u8>
    decreases texts.len(),
{
    if texts.len() == 0 {
        Seq::empty()
    } else {
        texts_code(texts.drop_last()) + text_code(texts.last())
    }
}

pub open spec fn counted_texts_code(texts: Seq<Seq<char>>) -> Seq<u8> {
    number_code(texts.len() as u64) + texts_code(texts)
}

pub fn put_bool(out: &mut Vec<u8>, value: bool)
    ensures
        final(out)@ == old(out)@ + bool_code(value),
{
    out.push(
        if value {
            1
        } else {
            0
        },
    );
    assert(out@ =~= old(out)@ + bool_code(value));
}

pub fn put_number(out: &mut Vec<u8>, value: u64)
    ensures
        final(out)@ == old(out)@ + number_code(value),
{
    let bytes = u64_to_le_bytes(value);
    out.extend_from_slice(bytes.as_slice());
    assert(out@ =~= old(out)@ + number_code(value));
}

pub fn put_text(out: &mut Vec<u8>, text: &str)
    ensures
        final(out)@ == old(out)@ + text_code(text@),
{
    let bytes: &[u8] = text.as_bytes();
    put_number(out, bytes.len() as u64);
    out.extend_from_slice(bytes);
    assert(out@ =~= old(out)@ + text_code(text@));
}

pub fn put_maybe_number(out: &mut Vec<u8>, value: Option<u64>)
    ensures
        final(out)@ == old(out)@ + maybe_number_code(value),
{
    match value {
        None => put_bool(out, false),
        Some(number) => {
            put_bool(out, true);
            put_number(out, number);
            assert(out@ =~= old(out)@ + maybe_number_code(value));
        },
    }
}

pub fn put_maybe_bool(out: &mut Vec<u8>, value: Option<bool>)
    ensures
        final(out)@ == old(out)@ + maybe_bool_code(value),
{
    match value {
        None => put_bool(out, false),
        Some(flag) => {
            put_bool(out, true);
            put_bool(out, flag);
            assert(out@ =~= old(out)@ + maybe_bool_code(value));
        },
    }
}

pub open spec fn maybe_text_views(texts: Option<Vec<String>>) -> Option<Seq<Seq<char>>> {
    match texts {
        Some(list) => Some(text_views(list@)),
        None => None,
    }
}

pub fn put_maybe_text(out: &mut Vec<u8>, text: &Option<String>)
    ensures
        final(out)@ == old(out)@ + maybe_text_code(maybe_view(*text)),
{
    match text {
        None => put_bool(out, false),
        Some(t) => {
            put_bool(out, true);
            put_text(out, t.as_str());
            assert(out@ =~= old(out)@ + maybe_text_code(maybe_view(*text)));
        },
    }
}

pub fn put_texts(out: &mut Vec<u8>, texts: &Vec<String>)
    ensures
        final(out)@ == old(out)@ + counted_texts_code(text_views(texts@)),
{
    put_number(out, texts.len() as u64);
    let ghost start = out@;
    let ghost views = text_views(texts@);
    let mut i: usize = 0;
    assert(views.take(0) =~= Seq::<Seq<char>>::empty());
    assert(out@ =~= start + texts_code(views.take(0)));
    while i < texts.len()
        invariant
            i <= texts@.len(),
            views == text_views(texts@),
            out@ == start + texts_code(views.take(i as int)),
        decreases texts@.len() - i,
    {
        put_text(out, texts[i].as_str());
        assert(views.take(i + 1).drop_last() =~= views.take(i as int));
        assert(views.take(i + 1).last() == texts@[i as int]@);
        i += 1;
        assert(out@ =~= start + texts_code(views.take(i as int)));
    }
    assert(views.take(i as int) =~= views);
    assert(out@ =~= old(out)@ + counted_texts_code(views));
}

/// Whether two texts that may be missing are equal.
pub fn same_maybe(a: &Option<String>, b: &Option<String>) -> (same: bool)
    ensures
        same == (maybe_view(*a) == maybe_view(*b)),
{
    match (a, b) {
        (Some(x), Some(y)) => *x == *y,
        (None, None) => true,
        _ => false,
    }
}

/// Whether two rows of texts are equal.
pub fn same_texts(a: &Vec<String>, b: &Vec<String>) -> (same: bool)
    ensures
        same == (text_views(a@) == text_views(b@)),
{
    if a.len() != b.len() {
        assert(text_views(a@).len() != text_views(b@).len());
        return false;
    }
    let mut i: usize = 0;
    while i < a.len()
        invariant
            i <= a@.len(),
            a@.len() == b@.len(),
            forall|j: int| 0 <= j < i ==> #[trigger] text_views(a@)[j] == text_views(b@)[j],
        decreases a@.len() - i,
    {
        assert(text_views(a@)[i as int] == a@[i as int]@);
        assert(text_views(b@)[i as int] == b@[i as int]@);
        if a[i] != b[i] {
            return false;
        }
        i += 1;
    }
    assert(text_views(a@) =~= text_views(b@));
    true
}

} // verus!
