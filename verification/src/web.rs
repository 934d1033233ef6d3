//! Pieces of HTTP and URLs.

use vstd::prelude::*;
use vstd::utf8::encode_utf8;

use crate::num::max_int;
use crate::text::ascii_lower;

verus! {

/// The bytes that a header name may hold.
pub open spec fn is_token_byte(b: u8) -> bool {
    ||| 0x30 <= b <= 0x39
    ||| 0x41 <= b <= 0x5a
    ||| 0x61 <= b <= 0x7a
    ||| b == 0x21
    ||| 0x23 <= b <= 0x27
    ||| b == 0x2a
    ||| b == 0x2b
    ||| b == 0x2d
    ||| b == 0x2e
    ||| 0x5e <= b <= 0x60
    ||| b == 0x7c
    ||| b == 0x7e
}

/// A header name: one token byte or more, and less than 64 KiB.
pub open spec fn is_header_name(bytes: Seq<u8>) -> bool {
    1 <= bytes.len() <= 0xffff && forall|i: int|
        0 <= i < bytes.len() ==> is_token_byte(#[trigger] bytes[i])
}

/// A header value: no control byte but the tab.
pub open spec fn is_header_value(bytes: Seq<u8>) -> bool {
    forall|i: int|
        0 <= i < bytes.len() ==> ((#[trigger] bytes[i]) >= 0x20 && bytes[i] != 0x7f) || bytes[i]
            == 0x09
}

/// A byte that a header shows as it is: printable ASCII, or the tab.
pub open spec fn is_visible(byte: u8) -> bool {
    0x20 <= byte < 0x7f || byte == 0x09
}

pub open spec fn all_visible(bytes: Seq<u8>) -> bool {
    forall|i: int| 0 <= i < bytes.len() ==> is_visible(#[trigger] bytes[i])
}

/// The text of visible bytes.
pub open spec fn visible_text(bytes: Seq<u8>) -> Seq<char> {
    Seq::new(bytes.len(), |i: int| bytes[i] as char)
}

/// The text of a header's value, if it is visible.
pub(crate) fn read_visible(bytes: &[u8]) -> (text: Option<String>)
    ensures
        match text {
            Some(t) => all_visible(bytes@) && t@ == visible_text(bytes@),
            None => !all_visible(bytes@),
        },
{
    let mut text = String::new();
    let mut i: usize = 0;
    while i < bytes.len()
        invariant
            i <= bytes@.len(),
            forall|j: int| 0 <= j < i ==> is_visible(#[trigger] bytes@[j]),
            text@ == visible_text(bytes@).take(i as int),
        decreases bytes@.len() - i,
    {
        let byte: u8 = bytes[i];
        if !((0x20 <= byte && byte < 0x7f) || byte == 0x09) {
            return None;
        }
        text.push(byte as char);
        i += 1;
        assert(text@ =~= visible_text(bytes@).take(i as int));
    }
    assert(text@ =~= visible_text(bytes@));
    Some(text)
}

/// ASCII bytes as a text in lower case.
pub open spec fn lower_bytes(bytes: Seq<u8>) -> Seq<char> {
    Seq::new(bytes.len(), |i: int| ascii_lower(bytes[i] as char))
}

/// `http::HeaderName::from_bytes` accepts a token of 1 to 65535 bytes, and
/// puts it into lower case.
#[verifier::external_body]
pub(crate) fn header_name(bytes: &[u8]) -> (name: Option<String>)
    ensures
        name is Some <==> is_header_name(bytes@),
        name matches Some(text) ==> text@ == lower_bytes(bytes@),
{
    http::HeaderName::from_bytes(bytes).ok().map(|name| name.as_str().to_owned())
}

/// `http::HeaderValue::from_str` accepts a text whose bytes hold no control
/// byte but the tab.
#[verifier::external_body]
pub(crate) fn header_value_fits(text: &str) -> (fits: bool)
    ensures
        fits == is_header_value(encode_utf8(text@)),
{
    http::HeaderValue::from_str(text).is_ok()
}

/// `http::StatusCode::from_u16` accepts the numbers of three digits.
#[verifier::external_body]
pub(crate) fn status_fits(code: u16) -> (fits: bool)
    ensures
        fits == (100 <= code <= 999),
{
    http::StatusCode::from_u16(code).is_ok()
}

/// What a text is as an absolute URL: its serialization, or the reason why it
/// is none.
pub uninterp spec fn url_parsed(text: Seq<char>) -> Result<Seq<char>, Seq<char>>;

/// `url::Url::parse`: the URL in its serialized form, or the text of the error.
/// Both depend on the text alone and are named, not described.
#[verifier::external_body]
pub(crate) fn parse_url(text: &str) -> (url: Result<String, String>)
    ensures
        match url {
            Ok(u) => url_parsed(text@) == Ok::<Seq<char>, Seq<char>>(u@),
            Err(e) => url_parsed(text@) == Err::<Seq<char>, Seq<char>>(e@),
        },
{
    match url::Url::parse(text) {
        Ok(url) => Ok(String::from(url)),
        Err(error) => Err(error.to_string()),
    }
}

/// The path of the URL that a text is; none where it is no URL.
pub uninterp spec fn url_path_of(text: Seq<char>) -> Option<Seq<char>>;

/// `url::Url::path` of a parsed text: the path depends on the text alone and is
/// named, not described.
#[verifier::external_body]
pub(crate) fn url_path(text: &str) -> (path: Option<String>)
    ensures
        match path {
            Some(p) => url_path_of(text@) == Some(p@),
            None => url_path_of(text@) is None,
        },
{
    url::Url::parse(text).ok().map(|url| url.path().to_owned())
}

/// The length that no part of a URL's serialization may start behind.
pub const URL_END: u64 = 0xffff_ffff;

/// Room for what replacing a path and a query may add to the texts: slashes, a
/// question mark, and the escaping of a leading slash.
pub const URL_MARKS: u64 = 8;

/// Whether a byte is escaped in the path or in the query of a URL.
pub open spec fn is_escaped(byte: u8, in_query: bool) -> bool {
    ||| byte <= 0x20
    ||| byte >= 0x7f
    ||| byte == 0x22
    ||| byte == 0x23
    ||| byte == 0x3c
    ||| byte == 0x3e
    ||| in_query && byte == 0x27
    ||| !in_query && (byte == 0x3f || byte == 0x60 || byte == 0x7b || byte == 0x7d)
}

/// How long bytes are at most once they stand in a URL: three for each that is
/// escaped.
pub open spec fn escaped_len(bytes: Seq<u8>, in_query: bool) -> int
    decreases bytes.len(),
{
    if bytes.len() == 0 {
        0
    } else {
        escaped_len(bytes.drop_last(), in_query) + if is_escaped(bytes.last(), in_query) {
            3int
        } else {
            1
        }
    }
}

proof fn escaped_len_grows(bytes: Seq<u8>, in_query: bool, count: int)
    requires
        0 <= count <= bytes.len(),
    ensures
        escaped_len(bytes.take(count), in_query) <= escaped_len(bytes, in_query),
    decreases bytes.len() - count,
{
    if count < bytes.len() {
        assert(bytes.take(count + 1).drop_last() =~= bytes.take(count));
        escaped_len_grows(bytes, in_query, count + 1);
    } else {
        assert(bytes.take(count) =~= bytes);
    }
}

fn read_escaped_len(bytes: &[u8], in_query: bool) -> (len: Option<u64>)
    ensures
        match len {
            Some(l) => l == escaped_len(bytes@, in_query) && l <= URL_END,
            None => escaped_len(bytes@, in_query) > URL_END,
        },
{
    let mut len: u64 = 0;
    let mut i: usize = 0;
    assert(bytes@.take(0) =~= Seq::<u8>::empty());
    while i < bytes.len()
        invariant
            i <= bytes@.len(),
            len == escaped_len(bytes@.take(i as int), in_query),
            len <= URL_END,
        decreases bytes@.len() - i,
    {
        let byte: u8 = bytes[i];
        let escaped: bool = byte <= 0x20 || byte >= 0x7f || byte == 0x22 || byte == 0x23 || byte
            == 0x3c || byte == 0x3e || (in_query && byte == 0x27) || (!in_query && (byte == 0x3f
            || byte == 0x60 || byte == 0x7b || byte == 0x7d));
        assert(bytes@.take(i + 1).drop_last() =~= bytes@.take(i as int));
        assert(bytes@.take(i + 1).last() == byte);
        len += if escaped {
            3
        } else {
            1
        };
        i += 1;
        if len > URL_END {
            proof {
                escaped_len_grows(bytes@, in_query, i as int);
            }
            return None;
        }
    }
    assert(bytes@.take(i as int) =~= bytes@);
    Some(len)
}

/// The URL that a text is can be given this path and query: its serialization
/// stays below four gigabytes.
pub open spec fn url_takes(text: Seq<char>, path: Seq<char>, query: Option<Seq<char>>) -> bool {
    match (url_parsed(text), url_path_of(text)) {
        (Ok(serialized), Some(old_path)) => {
            let path_len = escaped_len(encode_utf8(path), false);
            let query_len = match query {
                Some(q) => escaped_len(encode_utf8(q), true),
                None => 0,
            };
            &&& serialized.len() <= URL_END
            &&& max_int(serialized.len() - old_path.len(), 0) + path_len + query_len + URL_MARKS
                <= URL_END
        },
        _ => true,
    }
}

/// Whether a URL can be given this path and query.
pub(crate) fn check_url_takes(text: &str, path: &str, query: Option<&str>) -> (takes: bool)
    ensures
        takes == url_takes(text@, path@, maybe_str(query)),
{
    let serialized: u64 = match parse_url(text) {
        Ok(url) => url.as_str().unicode_len() as u64,
        Err(_) => {
            return true;
        },
    };
    let old_path: u64 = match url_path(text) {
        Some(old_path) => old_path.as_str().unicode_len() as u64,
        None => {
            return true;
        },
    };
    if serialized > URL_END {
        return false;
    }
    let path_len: Option<u64> = read_escaped_len(path.as_bytes(), false);
    let query_len: Option<u64> = match query {
        Some(q) => read_escaped_len(q.as_bytes(), true),
        None => Some(0),
    };
    proof {
        escaped_len_grows(encode_utf8(path@), false, 0);
        assert(encode_utf8(path@).take(0) =~= Seq::<u8>::empty());
        if query is Some {
            escaped_len_grows(encode_utf8(query->0@), true, 0);
            assert(encode_utf8(query->0@).take(0) =~= Seq::<u8>::empty());
        }
    }
    match (path_len, query_len) {
        (Some(path_len), Some(query_len)) => serialized.saturating_sub(old_path) + path_len
            + query_len + URL_MARKS <= URL_END,
        _ => false,
    }
}

pub open spec fn maybe_str(text: Option<&str>) -> Option<Seq<char>> {
    match text {
        Some(t) => Some(t@),
        None => None,
    }
}

/// The serialization of the URL that a text is, with another path and query;
/// none where it is no URL.
pub uninterp spec fn url_replaced(
    text: Seq<char>,
    path: Seq<char>,
    query: Option<Seq<char>>,
) -> Option<Seq<char>>;

/// `url::Url::parse`, then `set_path`, then `set_query`: one name stands for
/// the three calls. The result depends on the texts alone and is named, not
/// described. The setters panic where a part would start behind four gigabytes
/// of the serialization, which is ASCII and holds each byte of a path or query
/// as it is or as three.
#[verifier::external_body]
pub(crate) fn url_with(text: &str, path: &str, query: Option<&str>) -> (url: Option<String>)
    requires
        url_takes(text@, path@, maybe_str(query)),
    ensures
        match url {
            Some(u) => url_replaced(text@, path@, maybe_str(query)) == Some(u@),
            None => url_replaced(text@, path@, maybe_str(query)) is None,
        },
{
    let mut url = url::Url::parse(text).ok()?;
    url.set_path(path);
    url.set_query(query);
    Some(String::from(url))
}

} // verus!
