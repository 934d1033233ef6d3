//! What strangers get to see.

use vstd::prelude::*;
use vstd::string::*;
use vstd::utf8::encode_utf8;

use crate::config::parts::{header_views, HeaderKey, HeaderPair};
use crate::hysteria2::auth::RequestHead;
use crate::hysteria2::files::{file_path_spec, masquerade_file_path};
use crate::text::{
    bytes_of, chars_of, joined, leading_end, maybe_view, same_text, text_of, trailing_start,
    without_leading, without_trailing,
};
use crate::web::{
    check_url_takes, header_name, header_value_fits, is_header_name, is_header_value, lower_bytes,
    maybe_str, parse_url, status_fits, url_parsed, url_path, url_path_of, url_replaced, url_takes,
    url_with,
};

verus! {

/// The status that tells a client it is let in.
pub const AUTH_OK_STATUS: u16 = 233;
pub const MAX_MASQUERADE_PROXY_BODY: usize = 0x10_0000;
pub const MAX_MASQUERADE_FILE_SIZE: u64 = 0x40_0000;

/// What strangers are to get, as it is asked for.
#[derive(Clone, Debug)]
pub enum MasqueradeOptions {
    Default,
    NotFound,
    File { dir: String },
    Proxy { url: String, rewrite_host: bool, x_forwarded: bool, insecure: bool },
    String { content: String, headers: Vec<HeaderPair>, status_code: Option<u16> },
}

impl Default for MasqueradeOptions {
    fn default() -> (options: Self)
        ensures
            options is Default,
    {
        MasqueradeOptions::Default
    }
}

/// What strangers are to get, checked.
#[derive(Clone, Debug)]
pub enum Masquerade {
    Default,
    NotFound,
    File { dir: String },
    /// `url` is the serialized form of a URL.
    Proxy { url: String, rewrite_host: bool, x_forwarded: bool, insecure: bool },
    String { body: Vec<u8>, headers: Vec<HeaderPair>, status: u16 },
}

/// Why a masquerade cannot be set up.
#[derive(Debug)]
pub enum MasqueradeError {
    ProxyUrl(String),
    Status,
    ReservedStatus,
    HeaderName,
    HeaderValue,
    BodyTooLarge,
}

impl MasqueradeError {
    pub open spec fn message_spec(self) -> Seq<char> {
        match self {
            MasqueradeError::ProxyUrl(error) => "invalid hysteria2 masquerade proxy url: "@
                + error@,
            MasqueradeError::Status =>
                "invalid hysteria2 masquerade string status: invalid status code"@,
            MasqueradeError::ReservedStatus =>
                "hysteria2 masquerade string status 233 is reserved"@,
            MasqueradeError::HeaderName =>
                "invalid hysteria2 masquerade header name: invalid HTTP header name"@,
            MasqueradeError::HeaderValue =>
                "invalid hysteria2 masquerade header value: failed to parse header value"@,
            MasqueradeError::BodyTooLarge => "hysteria2 masquerade request body too large"@,
        }
    }

    pub fn message(&self) -> (text: String)
        ensures
            text@ == self.message_spec(),
    {
        match self {
            MasqueradeError::ProxyUrl(error) => joined(
                "invalid hysteria2 masquerade proxy url: ",
                error.as_str(),
            ),
            MasqueradeError::Status =>
                "invalid hysteria2 masquerade string status: invalid status code".to_owned(),
            MasqueradeError::ReservedStatus =>
                "hysteria2 masquerade string status 233 is reserved".to_owned(),
            MasqueradeError::HeaderName =>
                "invalid hysteria2 masquerade header name: invalid HTTP header name".to_owned(),
            MasqueradeError::HeaderValue =>
                "invalid hysteria2 masquerade header value: failed to parse header value".to_owned(),
            MasqueradeError::BodyTooLarge =>
                "hysteria2 masquerade request body too large".to_owned(),
        }
    }
}

/// The status of a fixed answer: 200 unless another is given.
pub open spec fn answer_status(status_code: Option<u16>) -> u16 {
    match status_code {
        Some(code) => if code == 0 {
            200
        } else {
            code
        },
        None => 200,
    }
}

/// A header as it is sent: the name in lower case.
pub open spec fn sent_header(header: HeaderKey) -> HeaderKey {
    HeaderKey {
        name: lower_bytes(encode_utf8(header.name)),
        value: header.value,
    }
}

pub open spec fn sent_headers(headers: Seq<HeaderKey>) -> Seq<HeaderKey> {
    headers.map_values(|header: HeaderKey| sent_header(header))
}

/// What is wrong with the first bad header among the first `count`.
pub open spec fn header_error(headers: Seq<HeaderKey>, count: int) -> Option<MasqueradeError>
    decreases count,
{
    if count <= 0 {
        None
    } else {
        match header_error(headers, count - 1) {
            Some(error) => Some(error),
            None => if !is_header_name(encode_utf8(headers[count - 1].name)) {
                Some(MasqueradeError::HeaderName)
            } else if !is_header_value(encode_utf8(headers[count - 1].value)) {
                Some(MasqueradeError::HeaderValue)
            } else {
                None
            },
        }
    }
}

proof fn first_header_error_stays(headers: Seq<HeaderKey>, count: int, total: int)
    requires
        0 <= count <= total,
        header_error(headers, count) is Some,
    ensures
        header_error(headers, total) == header_error(headers, count),
    decreases total - count,
{
    if count < total {
        first_header_error_stays(headers, count, total - 1);
    }
}

fn check_headers(headers: &Vec<HeaderPair>) -> (checked: Result<Vec<HeaderPair>, MasqueradeError>)
    ensures
        match checked {
            Ok(sent) => {
                &&& header_error(header_views(headers@), headers@.len() as int) is None
                &&& header_views(sent@) == sent_headers(header_views(headers@))
            },
            Err(error) => header_error(header_views(headers@), headers@.len() as int) == Some(
                error,
            ),
        },
{
    let ghost keys = header_views(headers@);
    let mut sent: Vec<HeaderPair> = Vec::new();
    let mut i: usize = 0;
    while i < headers.len()
        invariant
            i <= headers@.len(),
            keys == header_views(headers@),
            header_error(keys, i as int) is None,
            header_views(sent@) == sent_headers(keys).take(i as int),
        decreases headers@.len() - i,
    {
        let header = &headers[i];
        assert(keys[i as int] == header@);
        let name = match header_name(header.name.as_str().as_bytes()) {
            Some(name) => name,
            None => {
                proof {
                    first_header_error_stays(keys, i + 1, headers@.len() as int);
                }
                return Err(MasqueradeError::HeaderName);
            },
        };
        if !header_value_fits(header.value.as_str()) {
            proof {
                first_header_error_stays(keys, i + 1, headers@.len() as int);
            }
            return Err(MasqueradeError::HeaderValue);
        }
        let ghost before = header_views(sent@);
        let pair = HeaderPair { name, value: header.value.clone() };
        assert(pair@ == sent_header(header@));
        sent.push(pair);
        assert(header_views(sent@) =~= before.push(pair@));
        i += 1;
        assert(header_views(sent@) =~= sent_headers(keys).take(i as int));
    }
    assert(header_views(sent@) =~= sent_headers(keys));
    Ok(sent)
}

/// Whether `made` is what asking for `options` comes to.
pub open spec fn masquerade_matches(
    options: MasqueradeOptions,
    made: Result<Masquerade, MasqueradeError>,
) -> bool {
    match options {
        MasqueradeOptions::Default => made matches Ok(Masquerade::Default),
        MasqueradeOptions::NotFound => made matches Ok(Masquerade::NotFound),
        MasqueradeOptions::File { dir } => {
            &&& made matches Ok(Masquerade::File { dir: d })
            &&& d@ == dir@
        },
        MasqueradeOptions::Proxy { url, rewrite_host, x_forwarded, insecure } => match url_parsed(
            url@,
        ) {
            Err(error) => {
                &&& made matches Err(MasqueradeError::ProxyUrl(text))
                &&& text@ == error
            },
            Ok(serialized) => {
                &&& made matches Ok(
                    Masquerade::Proxy { url: u, rewrite_host: r, x_forwarded: x, insecure: i },
                )
                &&& u@ == serialized
                &&& r == rewrite_host
                &&& x == x_forwarded
                &&& i == insecure
            },
        },
        MasqueradeOptions::String { content, headers, status_code } => {
            let status = answer_status(status_code);
            if !(100 <= status <= 999) {
                made == Err::<Masquerade, MasqueradeError>(MasqueradeError::Status)
            } else if status == AUTH_OK_STATUS {
                made == Err::<Masquerade, MasqueradeError>(MasqueradeError::ReservedStatus)
            } else {
                match header_error(header_views(headers@), headers@.len() as int) {
                    Some(error) => made == Err::<Masquerade, MasqueradeError>(error),
                    None => {
                        &&& made matches Ok(
                            Masquerade::String { body, headers: sent, status: s },
                        )
                        &&& body@ == encode_utf8(content@)
                        &&& header_views(sent@) == sent_headers(header_views(headers@))
                        &&& s == status
                    },
                }
            }
        },
    }
}

impl Masquerade {
    /// Checks what is asked for.
    pub fn try_from_options(options: MasqueradeOptions) -> (made: Result<Self, MasqueradeError>)
        ensures
            masquerade_matches(options, made),
    {
        match options {
            MasqueradeOptions::Default => Ok(Masquerade::Default),
            MasqueradeOptions::NotFound => Ok(Masquerade::NotFound),
            MasqueradeOptions::File { dir } => Ok(Masquerade::File { dir }),
            MasqueradeOptions::Proxy { url, rewrite_host, x_forwarded, insecure } => match parse_url(
                url.as_str(),
            ) {
                Ok(url) => Ok(Masquerade::Proxy { url, rewrite_host, x_forwarded, insecure }),
                Err(error) => Err(MasqueradeError::ProxyUrl(error)),
            },
            MasqueradeOptions::String { content, headers, status_code } => {
                let status: u16 = match status_code {
                    Some(code) => if code == 0 {
                        200
                    } else {
                        code
                    },
                    None => 200,
                };
                if !status_fits(status) {
                    return Err(MasqueradeError::Status);
                }
                if status == AUTH_OK_STATUS {
                    return Err(MasqueradeError::ReservedStatus);
                }
                match check_headers(&headers) {
                    Ok(sent) => Ok(
                        Masquerade::String {
                            body: bytes_of(content.as_str().as_bytes()),
                            headers: sent,
                            status,
                        },
                    ),
                    Err(error) => Err(error),
                }
            },
        }
    }

    /// How a request of a stranger is to be answered.
    pub fn answer(&self, request: &RequestHead) -> (answer: MasqueradeAnswer)
        ensures
            match *self {
                Masquerade::Default => answer matches MasqueradeAnswer::Respond(response)
                    && response.is(default_page(request.method@, request.path@)),
                Masquerade::NotFound => answer matches MasqueradeAnswer::Respond(response)
                    && response.is(not_found_page()),
                Masquerade::String { body, headers, status } => {
                    &&& answer matches MasqueradeAnswer::Respond(response)
                    &&& response.status == status
                    &&& header_views(response.headers@) == header_views(headers@)
                    &&& response.body@ == body@
                },
                Masquerade::File { dir } => match file_path_spec(dir@, request.path@) {
                    Some(path) => answer matches MasqueradeAnswer::File(p) && p@ == path,
                    None => answer matches MasqueradeAnswer::Respond(response) && response.is(
                        not_found_page(),
                    ),
                },
                Masquerade::Proxy { .. } => answer is Proxy,
            },
    {
        match self {
            Masquerade::Default => MasqueradeAnswer::Respond(
                default_masquerade_response(request.method.as_str(), request.path.as_str()),
            ),
            Masquerade::NotFound => MasqueradeAnswer::Respond(not_found_masquerade_response()),
            Masquerade::String { body, headers, status } => MasqueradeAnswer::Respond(
                MasqueradeResponse {
                    status: *status,
                    headers: copy_headers(headers),
                    body: bytes_of(body.as_slice()),
                },
            ),
            Masquerade::File { dir } => match masquerade_file_path(
                dir.as_str(),
                request.path.as_str(),
            ) {
                Some(path) => MasqueradeAnswer::File(path),
                None => MasqueradeAnswer::Respond(not_found_masquerade_response()),
            },
            Masquerade::Proxy { .. } => MasqueradeAnswer::Proxy,
        }
    }
}

/// How a request of a stranger is to be answered.
#[derive(Debug)]
pub enum MasqueradeAnswer {
    Respond(MasqueradeResponse),
    /// With this file, if there is one.
    File(String),
    /// With what another site says.
    Proxy,
}

#[derive(Debug)]
pub struct MasqueradeResponse {
    pub status: u16,
    pub headers: Vec<HeaderPair>,
    pub body: Vec<u8>,
}

/// A page as a mathematical value.
#[verifier::ext_equal]
pub struct Page {
    pub status: u16,
    pub headers: Seq<HeaderKey>,
    pub body: Seq<u8>,
}

impl MasqueradeResponse {
    pub open spec fn is(self, page: Page) -> bool {
        &&& self.status == page.status
        &&& header_views(self.headers@) == page.headers
        &&& self.body@ == page.body
    }
}

fn copy_headers(headers: &Vec<HeaderPair>) -> (copy: Vec<HeaderPair>)
    ensures
        header_views(copy@) == header_views(headers@),
{
    let mut copy: Vec<HeaderPair> = Vec::new();
    let mut i: usize = 0;
    while i < headers.len()
        invariant
            i <= headers@.len(),
            header_views(copy@) == header_views(headers@).take(i as int),
        decreases headers@.len() - i,
    {
        let ghost before = header_views(copy@);
        let pair = HeaderPair { name: headers[i].name.clone(), value: headers[i].value.clone() };
        assert(pair@ == headers@[i as int]@);
        copy.push(pair);
        assert(header_views(copy@) =~= before.push(pair@));
        i += 1;
        assert(header_views(copy@) =~= header_views(headers@).take(i as int));
    }
    assert(header_views(copy@) =~= header_views(headers@));
    copy
}

pub open spec fn index_text() -> Seq<char> {
    "<!doctype html><html><head><title>OK</title></head><body>OK</body></html>\n"@
}

pub open spec fn not_found_text() -> Seq<char> {
    "<!doctype html><html><head><title>404 Not Found</title></head><body><h1>404 Not Found</h1></body></html>\n"@
}

pub open spec fn html_page(status: u16, text: Seq<char>) -> Page {
    Page {
        status,
        headers: seq![
            HeaderKey { name: "content-type"@, value: "text/html; charset=utf-8"@ },
            HeaderKey { name: "cache-control"@, value: "no-store"@ },
        ],
        body: encode_utf8(text),
    }
}

pub open spec fn not_found_page() -> Page {
    html_page(404, not_found_text())
}

/// The start page for a GET of `/` or `/index.html`, else an error page.
pub open spec fn default_page(method: Seq<char>, path: Seq<char>) -> Page {
    if method == "GET"@ && (path == "/"@ || path == "/index.html"@) {
        html_page(200, index_text())
    } else {
        not_found_page()
    }
}

pub fn html_masquerade_response(status: u16, text: &str) -> (response: MasqueradeResponse)
    ensures
        response.is(html_page(status, text@)),
{
    let mut headers: Vec<HeaderPair> = Vec::new();
    headers.push(
        HeaderPair {
            name: "content-type".to_owned(),
            value: "text/html; charset=utf-8".to_owned(),
        },
    );
    headers.push(
        HeaderPair { name: "cache-control".to_owned(), value: "no-store".to_owned() },
    );
    let response = MasqueradeResponse { status, headers, body: bytes_of(text.as_bytes()) };
    assert(header_views(response.headers@) =~= html_page(status, text@).headers);
    response
}

pub fn not_found_masquerade_response() -> (response: MasqueradeResponse)
    ensures
        response.is(not_found_page()),
{
    html_masquerade_response(
        404,
        "<!doctype html><html><head><title>404 Not Found</title></head><body><h1>404 Not Found</h1></body></html>\n",
    )
}

pub fn default_masquerade_response(method: &str, path: &str) -> (response: MasqueradeResponse)
    ensures
        response.is(default_page(method@, path@)),
{
    if same_text(method, "GET") && (same_text(path, "/") || same_text(path, "/index.html")) {
        html_masquerade_response(
            200,
            "<!doctype html><html><head><title>OK</title></head><body>OK</body></html>\n",
        )
    } else {
        not_found_masquerade_response()
    }
}

/// The path of a request under the path of a site, with one slash between them.
pub open spec fn joined_path(base_path: Seq<char>, request_path: Seq<char>) -> Seq<char> {
    without_trailing(base_path, '/') + seq!['/'] + without_leading(request_path, '/')
}

pub fn join_masquerade_proxy_path(base_path: &str, request_path: &str) -> (path: String)
    ensures
        path@ == joined_path(base_path@, request_path@),
{
    let base = chars_of(base_path);
    let request = chars_of(request_path);
    let end: usize = trailing_start(base.as_slice(), '/');
    let start: usize = leading_end(request.as_slice(), '/');
    let mut path = text_of(base.as_slice(), 0, end);
    path.push('/');
    let rest = text_of(request.as_slice(), start, request.len());
    path.append(rest.as_str());
    assert(base@.subrange(0, end as int) =~= base@.take(end as int));
    assert(request@.subrange(start as int, request@.len() as int) =~= request@.skip(start as int));
    assert(path@ =~= joined_path(base_path@, request_path@));
    path
}

/// The URL that a stranger's request is passed on to; none where the site's
/// URL is none.
pub open spec fn proxy_url_spec(
    base_url: Seq<char>,
    path: Seq<char>,
    query: Option<Seq<char>>,
) -> Option<Seq<char>> {
    match url_path_of(base_url) {
        None => None,
        Some(base_path) => url_replaced(base_url, joined_path(base_path, path), query),
    }
}

/// The site's URL can be given the path and the query of a request.
pub open spec fn proxy_url_fits(
    base_url: Seq<char>,
    path: Seq<char>,
    query: Option<Seq<char>>,
) -> bool {
    url_path_of(base_url) matches Some(base_path) ==> url_takes(
        base_url,
        joined_path(base_path, path),
        query,
    )
}

/// The URL that a stranger's request is passed on to.
pub fn masquerade_proxy_url(base_url: &str, path: &str, query: Option<&str>) -> (url: Option<
    String,
>)
    requires
        proxy_url_fits(base_url@, path@, maybe_str(query)),
    ensures
        maybe_view(url) == proxy_url_spec(base_url@, path@, maybe_str(query)),
{
    let base_path = match url_path(base_url) {
        Some(base_path) => base_path,
        None => {
            return None;
        },
    };
    let joined_text = join_masquerade_proxy_path(base_path.as_str(), path);
    url_with(base_url, joined_text.as_str(), query)
}

/// The URL that a stranger's request is passed on to; none where it would be
/// too long for a URL.
pub fn fitting_masquerade_proxy_url(base_url: &str, path: &str, query: Option<&str>) -> (url:
    Option<Option<String>>)
    ensures
        match url {
            Some(found) => {
                &&& proxy_url_fits(base_url@, path@, maybe_str(query))
                &&& maybe_view(found) == proxy_url_spec(base_url@, path@, maybe_str(query))
            },
            None => !proxy_url_fits(base_url@, path@, maybe_str(query)),
        },
{
    if let Some(base_path) = url_path(base_url) {
        let joined_text = join_masquerade_proxy_path(base_path.as_str(), path);
        if !check_url_takes(base_url, joined_text.as_str(), query) {
            return None;
        }
    }
    Some(masquerade_proxy_url(base_url, path, query))
}

/// The headers that belong to one connection and are not passed on.
pub open spec fn is_hop_by_hop(name: Seq<char>) -> bool {
    ||| name == "connection"@
    ||| name == "keep-alive"@
    ||| name == "proxy-authenticate"@
    ||| name == "proxy-authorization"@
    ||| name == "te"@
    ||| name == "trailer"@
    ||| name == "transfer-encoding"@
    ||| name == "upgrade"@
}

pub fn hop_by_hop_header(name: &str) -> (yes: bool)
    ensures
        yes == is_hop_by_hop(name@),
{
    same_text(name, "connection") || same_text(name, "keep-alive") || same_text(
        name,
        "proxy-authenticate",
    ) || same_text(name, "proxy-authorization") || same_text(name, "te") || same_text(
        name,
        "trailer",
    ) || same_text(name, "transfer-encoding") || same_text(name, "upgrade")
}

} // verus!
