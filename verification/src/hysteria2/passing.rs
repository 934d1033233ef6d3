//! Passing strangers on to another site, and sending answers.

use vstd::prelude::*;
use vstd::string::*;
use vstd::utf8::encode_utf8;

use crate::config::parts::{header_views, HeaderKey, HeaderPair};
use crate::hysteria2::auth::RequestHead;
use crate::hysteria2::masquerade::{
    hop_by_hop_header, is_hop_by_hop, MasqueradeError, MasqueradeResponse, AUTH_OK_STATUS,
    MAX_MASQUERADE_PROXY_BODY,
};
use crate::hysteria2::padding::{is_alphanumeric, padding};
use crate::net::addr::IpAddr;
use crate::net::print::ip_text;
use crate::text::{bytes_of, decimal, decimal_text, same_text};

verus! {

/// A header with its raw value, as a mathematical value.
pub type RawHeader = (Seq<char>, Seq<u8>);

pub open spec fn raw_view(header: (String, Vec<u8>)) -> RawHeader {
    (header.0@, header.1@)
}

pub open spec fn raw_views(headers: Seq<(String, Vec<u8>)>) -> Seq<RawHeader> {
    headers.map_values(|header: (String, Vec<u8>)| raw_view(header))
}

/// The headers that go on to the next server: not those of this connection,
/// and with `drop_host` not the host either.
pub open spec fn passed_on(headers: Seq<RawHeader>, drop_host: bool) -> Seq<RawHeader>
    decreases headers.len(),
{
    if headers.len() == 0 {
        Seq::empty()
    } else {
        let front = passed_on(headers.drop_last(), drop_host);
        let name = headers.last().0;
        if is_hop_by_hop(name) || (drop_host && name == "host"@) {
            front
        } else {
            front.push(headers.last())
        }
    }
}

fn pass_on(headers: &Vec<(String, Vec<u8>)>, drop_host: bool) -> (kept: Vec<(String, Vec<u8>)>)
    ensures
        raw_views(kept@) == passed_on(raw_views(headers@), drop_host),
{
    let mut kept: Vec<(String, Vec<u8>)> = Vec::new();
    let ghost raw = raw_views(headers@);
    let mut i: usize = 0;
    assert(raw.take(0) =~= Seq::<RawHeader>::empty());
    assert(raw_views(kept@) =~= passed_on(raw.take(0), drop_host));
    while i < headers.len()
        invariant
            i <= headers@.len(),
            raw == raw_views(headers@),
            raw_views(kept@) == passed_on(raw.take(i as int), drop_host),
        decreases headers@.len() - i,
    {
        let name: &str = headers[i].0.as_str();
        assert(raw[i as int] == raw_view(headers@[i as int]));
        assert(raw.take(i + 1).drop_last() =~= raw.take(i as int));
        assert(raw.take(i + 1).last() == raw[i as int]);
        if !hop_by_hop_header(name) && !(drop_host && same_text(name, "host")) {
            let ghost before = raw_views(kept@);
            let pair = (headers[i].0.clone(), bytes_of(headers[i].1.as_slice()));
            kept.push(pair);
            assert(raw_views(kept@) =~= before.push(raw_view(pair)));
        }
        i += 1;
    }
    assert(raw.take(i as int) =~= raw);
    kept
}

fn push_header(headers: &mut Vec<(String, Vec<u8>)>, name: &str, value: &[u8])
    ensures
        raw_views(final(headers)@) == raw_views(old(headers)@).push((name@, value@)),
{
    let ghost before = raw_views(headers@);
    headers.push((name.to_owned(), bytes_of(value)));
    assert(raw_views(headers@) =~= before.push((name@, value@)));
}

pub open spec fn authority_text(request: RequestHead) -> Seq<char> {
    match request.authority {
        Some(authority) => authority@,
        None => Seq::empty(),
    }
}

/// The headers of the request that goes on to the other site.
pub open spec fn proxy_headers_spec(
    request: RequestHead,
    rewrite_host: bool,
    x_forwarded: bool,
    source: IpAddr,
) -> Seq<RawHeader> {
    let own = passed_on(raw_views(request.headers@), true);
    let with_host = if !rewrite_host && request.authority is Some {
        own.push(("host"@, encode_utf8(request.authority->0@)))
    } else {
        own
    };
    if x_forwarded {
        with_host.push(("x-forwarded-for"@, encode_utf8(ip_text(source)))).push(
            ("x-forwarded-proto"@, encode_utf8("https"@)),
        ).push(("x-forwarded-host"@, encode_utf8(authority_text(request))))
    } else {
        with_host
    }
}

pub fn proxy_request_headers(
    request: &RequestHead,
    rewrite_host: bool,
    x_forwarded: bool,
    source: IpAddr,
) -> (headers: Vec<(String, Vec<u8>)>)
    ensures
        raw_views(headers@) == proxy_headers_spec(*request, rewrite_host, x_forwarded, source),
{
    let mut headers = pass_on(&request.headers, true);
    if !rewrite_host {
        if let Some(authority) = &request.authority {
            push_header(&mut headers, "host", authority.as_str().as_bytes());
        }
    }
    if x_forwarded {
        let from = source.text();
        push_header(&mut headers, "x-forwarded-for", from.as_str().as_bytes());
        push_header(&mut headers, "x-forwarded-proto", "https".as_bytes());
        let host: String = match &request.authority {
            Some(authority) => authority.clone(),
            None => String::new(),
        };
        push_header(&mut headers, "x-forwarded-host", host.as_str().as_bytes());
    }
    headers
}

/// The headers of the other site's answer that the stranger gets.
pub fn proxy_response_headers(headers: &Vec<(String, Vec<u8>)>) -> (kept: Vec<(String, Vec<u8>)>)
    ensures
        raw_views(kept@) == passed_on(raw_views(headers@), false),
{
    pass_on(headers, false)
}

/// No header of one connection alone is ever passed on.
pub proof fn hop_by_hop_headers_stay(headers: Seq<RawHeader>, drop_host: bool, i: int)
    requires
        0 <= i < passed_on(headers, drop_host).len(),
    ensures
        !is_hop_by_hop(passed_on(headers, drop_host)[i].0),
        drop_host ==> passed_on(headers, drop_host)[i].0 != "host"@,
    decreases headers.len(),
{
    if headers.len() > 0 {
        let front = passed_on(headers.drop_last(), drop_host);
        if i < front.len() {
            hop_by_hop_headers_stay(headers.drop_last(), drop_host, i);
        }
    }
}

/// The body of a stranger's request, as far as it has arrived.
pub struct RequestBody {
    pub bytes: Vec<u8>,
}

impl RequestBody {
    pub fn new() -> (body: Self)
        ensures
            body.bytes@.len() == 0,
    {
        Self { bytes: Vec::new() }
    }

    /// Adds a piece, unless the body would grow too large.
    pub fn push(&mut self, piece: &[u8]) -> (added: Result<(), MasqueradeError>)
        requires
            old(self).bytes@.len() <= 0x10_0000,
        ensures
            final(self).bytes@.len() <= 0x10_0000,
            match added {
                Ok(()) => final(self).bytes@ == old(self).bytes@ + piece@,
                Err(error) => {
                    &&& old(self).bytes@.len() + piece@.len() > 0x10_0000
                    &&& error == MasqueradeError::BodyTooLarge
                    &&& final(self).bytes@ == old(self).bytes@
                },
            },
    {
        if piece.len() > MAX_MASQUERADE_PROXY_BODY - self.bytes.len() {
            return Err(MasqueradeError::BodyTooLarge);
        }
        self.bytes.extend_from_slice(piece);
        Ok(())
    }
}

/// An answer in the form that it is sent in.
#[derive(Debug)]
pub struct SentResponse {
    pub status: u16,
    pub headers: Vec<HeaderPair>,
    /// What follows the head; none for HEAD, and where there is nothing.
    pub body: Option<Vec<u8>>,
}

/// Puts an answer into the form that it is sent in.
pub fn h3_response(method: &str, response: MasqueradeResponse) -> (sent: SentResponse)
    ensures
        sent.status == response.status,
        header_views(sent.headers@) == seq![
            HeaderKey {
                name: "content-length"@,
                value: decimal_text(response.body@.len()),
            },
        ] + header_views(response.headers@),
        match sent.body {
            Some(bytes) => bytes@ == response.body@ && method@ != "HEAD"@ && response.body@.len()
                > 0,
            None => method@ == "HEAD"@ || response.body@.len() == 0,
        },
{
    let mut headers: Vec<HeaderPair> = Vec::new();
    headers.push(
        HeaderPair {
            name: "content-length".to_owned(),
            value: decimal(response.body.len() as u64),
        },
    );
    let ghost first = header_views(headers@);
    assert(first =~= seq![
        HeaderKey { name: "content-length"@, value: decimal_text(response.body@.len()) },
    ]);
    let mut i: usize = 0;
    while i < response.headers.len()
        invariant
            i <= response.headers@.len(),
            header_views(headers@) == first + header_views(response.headers@).take(i as int),
        decreases response.headers@.len() - i,
    {
        let ghost before = header_views(headers@);
        let pair = HeaderPair {
            name: response.headers[i].name.clone(),
            value: response.headers[i].value.clone(),
        };
        assert(pair@ == response.headers@[i as int]@);
        headers.push(pair);
        assert(header_views(headers@) =~= before.push(pair@));
        i += 1;
        assert(header_views(headers@) =~= first + header_views(response.headers@).take(i as int));
    }
    assert(header_views(headers@) =~= first + header_views(response.headers@));
    let body = if !same_text(method, "HEAD") && response.body.len() > 0 {
        Some(response.body)
    } else {
        None
    };
    SentResponse { status: response.status, headers, body }
}

/// The answer that lets a client in. Its padding hides how long it is.
pub fn auth_response() -> (sent: SentResponse)
    ensures
        sent.status == 233,
        sent.body is None,
        sent.headers@.len() == 3,
        sent.headers@[0]@ == (HeaderKey { name: "Hysteria-CC-RX"@, value: "auto"@ }),
        sent.headers@[1]@ == (HeaderKey { name: "Hysteria-UDP"@, value: "true"@ }),
        sent.headers@[2]@.name == "Hysteria-Padding"@,
        64 <= sent.headers@[2]@.value.len() <= 512,
        forall|i: int|
            0 <= i < sent.headers@[2]@.value.len() ==> crate::text::is_ascii_alphanumeric(
                #[trigger] sent.headers@[2]@.value[i],
            ),
{
    let pad = padding(64, 512);
    let mut text = String::new();
    let mut i: usize = 0;
    while i < pad.len()
        invariant
            i <= pad@.len(),
            text@.len() == i,
            forall|j: int| 0 <= j < pad@.len() ==> is_alphanumeric(#[trigger] pad@[j]),
            forall|j: int|
                0 <= j < text@.len() ==> crate::text::is_ascii_alphanumeric(#[trigger] text@[j]),
        decreases pad@.len() - i,
    {
        assert(is_alphanumeric(pad@[i as int]));
        text.push(pad[i] as char);
        i += 1;
    }
    let mut headers: Vec<HeaderPair> = Vec::new();
    headers.push(HeaderPair { name: "Hysteria-CC-RX".to_owned(), value: "auto".to_owned() });
    headers.push(HeaderPair { name: "Hysteria-UDP".to_owned(), value: "true".to_owned() });
    headers.push(HeaderPair { name: "Hysteria-Padding".to_owned(), value: text });
    SentResponse { status: AUTH_OK_STATUS, headers, body: None }
}

} // verus!
