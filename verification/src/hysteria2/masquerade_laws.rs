//! What strangers see, what other sites see of them, and who is let in.

use vstd::prelude::*;
use vstd::utf8::encode_utf8;

use crate::config::listener::InboundUser;
use crate::config::parts::{header_views, HeaderKey};
use crate::hysteria2::auth::{
    first_header, is_auth_request_spec, is_user_map, last_with, password_of, source_allowed_spec,
    RequestHead, UserMap,
};
use crate::hysteria2::masquerade::{
    default_page, header_error, joined_path, masquerade_matches, not_found_page, proxy_url_spec,
    sent_headers, Masquerade, MasqueradeError, MasqueradeOptions,
};
use crate::hysteria2::passing::{passed_on, proxy_headers_spec, raw_views, RawHeader};
use crate::net::addr::{IpAddr, SocketAddr};
use crate::net::print::ip_text;
use crate::text_laws::{leading_splits, trailing_splits};
use crate::web::{
    all_visible, is_header_name, is_header_value, url_parsed, url_path_of, url_replaced,
    visible_text,
};

verus! {

/// The names of headers that say something of one connection alone.
pub open spec fn of_one_connection(name: Seq<char>) -> bool {
    seq![
        "te"@,
        "trailer"@,
        "upgrade"@,
        "connection"@,
        "keep-alive"@,
        "transfer-encoding"@,
        "proxy-authenticate"@,
        "proxy-authorization"@,
    ].contains(name)
}

proof fn connection_names(name: Seq<char>)
    ensures
        of_one_connection(name) == crate::hysteria2::masquerade::is_hop_by_hop(name),
{
    let names = seq![
        "te"@,
        "trailer"@,
        "upgrade"@,
        "connection"@,
        "keep-alive"@,
        "transfer-encoding"@,
        "proxy-authenticate"@,
        "proxy-authorization"@,
    ];
    assert(names[0] == "te"@);
    assert(names[1] == "trailer"@);
    assert(names[2] == "upgrade"@);
    assert(names[3] == "connection"@);
    assert(names[4] == "keep-alive"@);
    assert(names[5] == "transfer-encoding"@);
    assert(names[6] == "proxy-authenticate"@);
    assert(names[7] == "proxy-authorization"@);
}

/// Headers go on in their order, all but those of one connection, and but for
/// the host on the way to another site.
pub proof fn headers_keep_their_order(headers: Seq<RawHeader>)
    ensures
        passed_on(headers, false) == headers.filter(
            |header: RawHeader| !of_one_connection(header.0),
        ),
        passed_on(headers, true) == headers.filter(
            |header: RawHeader| !of_one_connection(header.0) && header.0 != "host"@,
        ),
    decreases headers.len(),
{
    reveal(Seq::filter);
    if headers.len() > 0 {
        headers_keep_their_order(headers.drop_last());
        connection_names(headers.last().0);
    }
}

proof fn no_host_among_passed_on(headers: Seq<RawHeader>)
    ensures
        forall|i: int|
            0 <= i < passed_on(headers, true).len() ==> (#[trigger] passed_on(headers, true)[i]).0
                != "host"@,
{
    assert forall|i: int| 0 <= i < passed_on(headers, true).len() implies (#[trigger] passed_on(
        headers,
        true,
    )[i]).0 != "host"@ by {
        crate::hysteria2::passing::hop_by_hop_headers_stay(headers, true, i);
    }
}

/// A header that occurs once, with one value.
pub open spec fn occurs_once(headers: Seq<RawHeader>, name: Seq<char>, value: Seq<u8>) -> bool {
    exists|at: int|
        {
            &&& 0 <= at < headers.len()
            &&& #[trigger] headers[at] == (name, value)
            &&& forall|i: int| 0 <= i < headers.len() && i != at ==> (#[trigger] headers[i]).0
                != name
        }
}

pub open spec fn does_not_occur(headers: Seq<RawHeader>, name: Seq<char>) -> bool {
    forall|i: int| 0 <= i < headers.len() ==> (#[trigger] headers[i]).0 != name
}

/// Where the host is not rewritten, the other site gets the stranger's
/// authority as the only host; where it is rewritten, or there is no authority,
/// it gets no host from here.
pub proof fn the_host_is_the_authority(
    request: RequestHead,
    rewrite_host: bool,
    x_forwarded: bool,
    source: IpAddr,
)
    ensures
        ({
            let headers = proxy_headers_spec(request, rewrite_host, x_forwarded, source);
            &&& !rewrite_host && request.authority is Some ==> occurs_once(
                headers,
                "host"@,
                encode_utf8(request.authority->0@),
            )
            &&& rewrite_host || request.authority is None ==> does_not_occur(headers, "host"@)
        }),
{
    let own = passed_on(raw_views(request.headers@), true);
    let headers = proxy_headers_spec(request, rewrite_host, x_forwarded, source);
    no_host_among_passed_on(raw_views(request.headers@));
    reveal_strlit("host");
    reveal_strlit("x-forwarded-for");
    reveal_strlit("x-forwarded-proto");
    reveal_strlit("x-forwarded-host");
    assert("host"@.len() == 4);
    assert("x-forwarded-for"@.len() == 15);
    assert("x-forwarded-proto"@.len() == 17);
    assert("x-forwarded-host"@.len() == 16);
    assert(forall|i: int| 0 <= i < own.len() ==> headers[i] == #[trigger] own[i]);
    if !rewrite_host && request.authority is Some {
        assert(headers[own.len() as int] == ("host"@, encode_utf8(request.authority->0@)));
    }
}

/// With forwarding on, three headers are added behind all others: who asked,
/// that it was asked over TLS, and whom it was asked of. With it off, nothing
/// but the host is added.
pub proof fn forwarding_adds_three_headers(
    request: RequestHead,
    rewrite_host: bool,
    source: IpAddr,
)
    ensures
        ({
            let without = proxy_headers_spec(request, rewrite_host, false, source);
            let with = proxy_headers_spec(request, rewrite_host, true, source);
            let count = without.len() as int;
            &&& with.len() == count + 3
            &&& with.take(count) == without
            &&& with[count] == ("x-forwarded-for"@, encode_utf8(ip_text(source)))
            &&& with[count + 1] == ("x-forwarded-proto"@, encode_utf8("https"@))
            &&& with[count + 2].0 == "x-forwarded-host"@
            &&& request.authority is Some ==> with[count + 2].1 == encode_utf8(
                request.authority->0@,
            )
            &&& request.authority is None ==> with[count + 2].1.len() == 0
            &&& without.filter(|header: RawHeader| header.0 != "host"@) == raw_views(
                request.headers@,
            ).filter(|header: RawHeader| !of_one_connection(header.0) && header.0 != "host"@)
        }),
{
    let raw = raw_views(request.headers@);
    let own = passed_on(raw, true);
    let without = proxy_headers_spec(request, rewrite_host, false, source);
    let with = proxy_headers_spec(request, rewrite_host, true, source);
    assert(with.take(without.len() as int) =~= without);
    headers_keep_their_order(raw);
    no_host_among_passed_on(raw);
    let keep = |header: RawHeader| header.0 != "host"@;
    all_are_kept(own, keep);
    reveal(Seq::filter);
    if without != own {
        assert(without.drop_last() =~= own);
    }
    assert(encode_utf8(Seq::<char>::empty()).len() == 0);
}

proof fn all_are_kept(headers: Seq<RawHeader>, keep: spec_fn(RawHeader) -> bool)
    requires
        forall|i: int| 0 <= i < headers.len() ==> keep(#[trigger] headers[i]),
    ensures
        headers.filter(keep) == headers,
    decreases headers.len(),
{
    reveal(Seq::filter);
    if headers.len() > 0 {
        let front = headers.drop_last();
        assert(forall|i: int| 0 <= i < front.len() ==> #[trigger] front[i] == headers[i]);
        all_are_kept(front, keep);
        assert(front.push(headers.last()) =~= headers);
    }
}

/// A request goes to its path under the path of the site: the slashes where the
/// two meet become one, and nothing else is changed. The query goes along.
pub proof fn requests_go_under_the_site(
    base_url: Seq<char>,
    base_path: Seq<char>,
    path: Seq<char>,
    query: Option<Seq<char>>,
)
    ensures
        exists|kept: int, start: int|
            {
                &&& 0 <= kept <= base_path.len()
                &&& 0 <= start <= path.len()
                &&& joined_path(base_path, path) == #[trigger] base_path.take(kept) + seq!['/']
                    + #[trigger] path.skip(start)
                &&& kept > 0 ==> base_path[kept - 1] != '/'
                &&& start < path.len() ==> path[start] != '/'
                &&& forall|i: int| kept <= i < base_path.len() ==> base_path[i] == '/'
                &&& forall|i: int| 0 <= i < start ==> path[i] == '/'
            },
        url_path_of(base_url) is None ==> proxy_url_spec(base_url, path, query) is None,
        url_path_of(base_url) == Some(base_path) ==> proxy_url_spec(base_url, path, query)
            == url_replaced(base_url, joined_path(base_path, path), query),
{
    let kept = trailing_splits(base_path, '/');
    let start = leading_splits(path, '/');
    assert(joined_path(base_path, path) == base_path.take(kept) + seq!['/'] + path.skip(start));
}

/// The start page is for a GET of the root or of the index; everything else is
/// not found. No page is to be stored.
pub proof fn pages_are_as_shown(method: Seq<char>, path: Seq<char>)
    ensures
        ({
            let page = default_page(method, path);
            &&& page.headers == seq![
                HeaderKey { name: "content-type"@, value: "text/html; charset=utf-8"@ },
                HeaderKey { name: "cache-control"@, value: "no-store"@ },
            ]
            &&& page.status == 200 <==> method == "GET"@ && (path == "/"@ || path
                == "/index.html"@)
            &&& page.status == 200 ==> page.body == encode_utf8(
                "<!doctype html><html><head><title>OK</title></head><body>OK</body></html>\n"@,
            )
            &&& page.status != 200 ==> page == not_found_page()
        }),
        not_found_page().status == 404,
        not_found_page().headers == default_page(method, path).headers,
        not_found_page().body == encode_utf8(
            "<!doctype html><html><head><title>404 Not Found</title></head><body><h1>404 Not Found</h1></body></html>\n"@,
        ),
{
}

/// A header that can be sent.
pub open spec fn can_be_sent(header: HeaderKey) -> bool {
    is_header_name(encode_utf8(header.name)) && is_header_value(encode_utf8(header.value))
}

proof fn header_errors(headers: Seq<HeaderKey>, count: int)
    requires
        0 <= count <= headers.len(),
    ensures
        match header_error(headers, count) {
            None => forall|i: int| 0 <= i < count ==> can_be_sent(#[trigger] headers[i]),
            Some(error) => exists|at: int|
                {
                    &&& 0 <= at < count
                    &&& !can_be_sent(#[trigger] headers[at])
                    &&& forall|i: int| 0 <= i < at ==> can_be_sent(#[trigger] headers[i])
                    &&& error is HeaderName <==> !is_header_name(encode_utf8(headers[at].name))
                    &&& error is HeaderValue <==> is_header_name(encode_utf8(headers[at].name))
                },
        },
    decreases count,
{
    if count > 0 {
        header_errors(headers, count - 1);
        if header_error(headers, count - 1) is None && header_error(headers, count) is Some {
            assert(!can_be_sent(headers[count - 1]));
        }
    }
}

/// What a masquerade is made of is what was asked for. A fixed answer has the
/// status that was given, or 200 where none or 0 was given; it is refused if
/// the status has not three digits, if it is the one that lets clients in, or
/// if a header cannot be sent, whatever comes first.
pub proof fn masquerades_are_as_asked(
    options: MasqueradeOptions,
    made: Result<Masquerade, MasqueradeError>,
)
    requires
        masquerade_matches(options, made),
    ensures
        options is Default ==> made matches Ok(Masquerade::Default),
        options is NotFound ==> made matches Ok(Masquerade::NotFound),
        options matches MasqueradeOptions::File { dir } ==> made matches Ok(
            Masquerade::File { dir: d },
        ) && d@ == dir@,
        options matches MasqueradeOptions::Proxy { url, rewrite_host, x_forwarded, insecure } ==> {
            &&& made is Ok <==> url_parsed(url@) is Ok
            &&& made matches Ok(site) ==> {
                &&& site matches Masquerade::Proxy {
                    url: u,
                    rewrite_host: r,
                    x_forwarded: x,
                    insecure: i,
                }
                &&& url_parsed(url@) == Ok::<Seq<char>, Seq<char>>(u@)
                &&& (r, x, i) == (rewrite_host, x_forwarded, insecure)
            }
            &&& made matches Err(error) ==> {
                &&& error matches MasqueradeError::ProxyUrl(text)
                &&& url_parsed(url@) == Err::<Seq<char>, Seq<char>>(text@)
            }
        },
        options matches MasqueradeOptions::String { content, headers, status_code } ==> {
            let keys = header_views(headers@);
            let given = status_code is Some && status_code->0 != 0;
            let fits = given ==> 100 <= status_code->0 < 1000 && status_code->0 != 233;
            let sendable = forall|i: int| 0 <= i < keys.len() ==> can_be_sent(#[trigger] keys[i]);
            &&& made is Ok <==> fits && sendable
            &&& made matches Ok(answer) ==> {
                &&& answer matches Masquerade::String { body, headers: sent, status }
                &&& body@ == encode_utf8(content@)
                &&& given ==> status == status_code->0
                &&& !given ==> status == 200
                &&& header_views(sent@).len() == keys.len()
                &&& forall|i: int|
                    0 <= i < keys.len() ==> (#[trigger] header_views(sent@)[i]).value
                        == keys[i].value
            }
            &&& made matches Err(error) ==> {
                &&& error is ReservedStatus <==> given && status_code->0 == 233
                &&& error is Status <==> given && !(100 <= status_code->0 < 1000)
                &&& error is HeaderName || error is HeaderValue <==> fits
            }
        },
{
    if let MasqueradeOptions::String { content, headers, status_code } = options {
        let keys = header_views(headers@);
        header_errors(keys, keys.len() as int);
    }
}

/// Without users, the fallback password lets in a nameless client, unless it is
/// empty, and no other password does. With users, a password lets in the last
/// user who has it, and nobody without one.
pub proof fn passwords_let_in(
    map: UserMap,
    users: Seq<InboundUser>,
    fallback_password: Seq<char>,
    password: Seq<char>,
)
    requires
        is_user_map(map, users, fallback_password),
    ensures
        users.len() == 0 ==> {
            &&& map.has(password) <==> password == fallback_password && password.len() > 0
            &&& map.has(password) ==> map.name_of(password) is None
        },
        users.len() > 0 ==> {
            &&& map.has(password) <==> exists|i: int|
                0 <= i < users.len() && (#[trigger] users[i]).password@ == password
            &&& map.has(password) ==> exists|i: int|
                {
                    &&& 0 <= i < users.len()
                    &&& (#[trigger] users[i]).password@ == password
                    &&& forall|j: int| i < j < users.len() ==> (#[trigger] users[j]).password@
                        != password
                    &&& map.name_of(password) == Some(users[i].name@)
                }
        },
{
    if users.len() > 0 {
        assert(map.has(password) == (last_with(users, password, users.len() as int) is Some));
        last_users(users, password, users.len() as int);
    }
}

proof fn last_users(users: Seq<InboundUser>, password: Seq<char>, count: int)
    requires
        0 <= count <= users.len(),
    ensures
        match last_with(users, password, count) {
            None => forall|i: int| 0 <= i < count ==> (#[trigger] users[i]).password@ != password,
            Some(name) => exists|i: int|
                {
                    &&& 0 <= i < count
                    &&& (#[trigger] users[i]).password@ == password
                    &&& users[i].name@ == name
                    &&& forall|j: int| i < j < count ==> (#[trigger] users[j]).password@ != password
                },
        },
    decreases count,
{
    if count > 0 {
        if users[count - 1].password@ != password {
            last_users(users, password, count - 1);
        }
    }
}

/// A listener on all addresses lets in its own machine, a listener on one
/// address the peer with that address, and one for the network everybody.
pub proof fn sources_let_in(source: SocketAddr, local: IpAddr)
    ensures
        source_allowed_spec(true, source, local),
        source.ip == local ==> source_allowed_spec(false, source, local),
        source.ip != local ==> (source_allowed_spec(false, source, local) <==> (local == IpAddr::V4(
            0,
            0,
            0,
            0,
        ) || local == IpAddr::V6(0, 0, 0, 0, 0, 0, 0, 0)) && (match source.ip {
            IpAddr::V4(first, _, _, _) => first == 127,
            IpAddr::V6(a, b, c, d, e, f, g, h) => a == 0 && b == 0 && c == 0 && d == 0 && e == 0
                && f == 0 && g == 0 && h == 1,
        })),
{
}

/// `c` is the letter `lower`, in either case; `upper` is its other form.
pub open spec fn either(c: char, lower: char, upper: char) -> bool {
    c == lower || c == upper
}

/// A client asks to be let in by a POST to `/auth` whose authority is the word
/// `hysteria`, each letter in either case.
pub proof fn opening_requests_are_known(request: RequestHead)
    ensures
        is_auth_request_spec(request) <==> {
            &&& request.method@ == "POST"@
            &&& request.path@ == "/auth"@
            &&& request.authority is Some
            &&& request.authority->0@.len() == 8
            &&& either(request.authority->0@[0], 'h', 'H')
            &&& either(request.authority->0@[1], 'y', 'Y')
            &&& either(request.authority->0@[2], 's', 'S')
            &&& either(request.authority->0@[3], 't', 'T')
            &&& either(request.authority->0@[4], 'e', 'E')
            &&& either(request.authority->0@[5], 'r', 'R')
            &&& either(request.authority->0@[6], 'i', 'I')
            &&& either(request.authority->0@[7], 'a', 'A')
        },
{
    reveal_strlit("hysteria");
    if request.authority is Some {
        let text = request.authority->0@;
        let lower = crate::text::ascii_lower_text(text);
        let word = crate::text::ascii_lower_text("hysteria"@);
        assert(word =~= seq!['h', 'y', 's', 't', 'e', 'r', 'i', 'a']);
        if lower == word {
            assert(lower.len() == 8);
            assert(lower[0] == 'h');
            assert(lower[1] == 'y');
            assert(lower[2] == 's');
            assert(lower[3] == 't');
            assert(lower[4] == 'e');
            assert(lower[5] == 'r');
            assert(lower[6] == 'i');
            assert(lower[7] == 'a');
        }
        if text.len() == 8 && either(text[0], 'h', 'H') && either(text[1], 'y', 'Y') && either(
            text[2],
            's',
            'S',
        ) && either(text[3], 't', 'T') && either(text[4], 'e', 'E') && either(text[5], 'r', 'R')
            && either(text[6], 'i', 'I') && either(text[7], 'a', 'A') {
            assert(lower =~= word);
        }
    }
}

/// The password is the value of the first header whose name is `hysteria-auth`
/// in any case, if that value can be shown; later ones do not count.
pub proof fn the_first_password_counts(request: RequestHead, at: int)
    requires
        0 <= at < request.headers@.len(),
        crate::text::ascii_lower_text(request.headers@[at].0@) == "hysteria-auth"@,
        forall|i: int|
            0 <= i < at ==> crate::text::ascii_lower_text((#[trigger] request.headers@[i]).0@)
                != "hysteria-auth"@,
    ensures
        all_visible(request.headers@[at].1@) ==> password_of(request) == Some(
            visible_text(request.headers@[at].1@),
        ),
        !all_visible(request.headers@[at].1@) ==> password_of(request) is None,
{
    reveal_strlit("hysteria-auth");
    assert(crate::text::ascii_lower_text("hysteria-auth"@) =~= "hysteria-auth"@);
    first_header_found(request.headers@, "hysteria-auth"@, at);
}

/// A request without such a header brings no password.
pub proof fn no_header_no_password(request: RequestHead)
    requires
        forall|i: int|
            0 <= i < request.headers@.len() ==> crate::text::ascii_lower_text(
                (#[trigger] request.headers@[i]).0@,
            ) != "hysteria-auth"@,
    ensures
        password_of(request) is None,
{
    reveal_strlit("hysteria-auth");
    assert(crate::text::ascii_lower_text("hysteria-auth"@) =~= "hysteria-auth"@);
    no_first_header(request.headers@, "hysteria-auth"@);
}

proof fn first_header_found(headers: Seq<(String, Vec<u8>)>, name: Seq<char>, at: int)
    requires
        0 <= at < headers.len(),
        crate::text::ascii_lower_text(headers[at].0@) == crate::text::ascii_lower_text(name),
        forall|i: int|
            0 <= i < at ==> crate::text::ascii_lower_text((#[trigger] headers[i]).0@)
                != crate::text::ascii_lower_text(name),
    ensures
        first_header(headers, name) == Some(headers[at].1@),
    decreases headers.len(),
{
    if at > 0 {
        let rest = headers.drop_first();
        assert(crate::text::ascii_lower_text(headers[0].0@) != crate::text::ascii_lower_text(name));
        assert forall|i: int| 0 <= i < at - 1 implies crate::text::ascii_lower_text(
            (#[trigger] rest[i]).0@,
        ) != crate::text::ascii_lower_text(name) by {
            assert(rest[i] == headers[i + 1]);
        }
        first_header_found(rest, name, at - 1);
    }
}

proof fn no_first_header(headers: Seq<(String, Vec<u8>)>, name: Seq<char>)
    requires
        forall|i: int|
            0 <= i < headers.len() ==> crate::text::ascii_lower_text((#[trigger] headers[i]).0@)
                != crate::text::ascii_lower_text(name),
    ensures
        first_header(headers, name) is None,
    decreases headers.len(),
{
    if headers.len() > 0 {
        let rest = headers.drop_first();
        assert(crate::text::ascii_lower_text(headers[0].0@) != crate::text::ascii_lower_text(name));
        assert forall|i: int| 0 <= i < rest.len() implies crate::text::ascii_lower_text(
            (#[trigger] rest[i]).0@,
        ) != crate::text::ascii_lower_text(name) by {
            assert(rest[i] == headers[i + 1]);
        }
        no_first_header(rest, name);
    }
}

/// The names of a fixed answer's headers are sent in lower case, byte by byte.
pub proof fn header_names_go_in_lower_case(
    options: MasqueradeOptions,
    made: Result<Masquerade, MasqueradeError>,
    i: int,
    at: int,
)
    requires
        masquerade_matches(options, made),
        options is String,
        made is Ok,
        0 <= i < options->String_headers@.len(),
        0 <= at < encode_utf8(options->String_headers@[i].name@).len(),
    ensures
        ({
            let byte = encode_utf8(options->String_headers@[i].name@)[at];
            &&& made matches Ok(Masquerade::String { headers: sent, .. })
            &&& sent@[i].name@.len() == encode_utf8(options->String_headers@[i].name@).len()
            &&& 0x41 <= byte <= 0x5a ==> sent@[i].name@[at] as u32 == byte + 0x20
            &&& byte < 0x80 && !(0x41 <= byte <= 0x5a) ==> sent@[i].name@[at] as u32 == byte
        }),
{
    if let Ok(Masquerade::String { headers: sent, .. }) = made {
        assert(header_views(sent@) == sent_headers(header_views(options->String_headers@)));
        assert(header_views(sent@).len() == sent@.len());
        assert(header_views(sent@)[i].name == sent@[i].name@);
        assert(header_views(options->String_headers@)[i].name == options->String_headers@[i].name@);
    }
}

/// Of the headers of a fixed answer the first that cannot be sent is told: by its
/// name, or else by its value.
pub proof fn the_first_bad_header_is_told(headers: Seq<HeaderKey>, at: int)
    requires
        0 <= at < headers.len(),
        forall|i: int| 0 <= i < at ==> can_be_sent(#[trigger] headers[i]),
        !can_be_sent(headers[at]),
    ensures
        header_error(headers, headers.len() as int) == if is_header_name(
            encode_utf8(headers[at].name),
        ) {
            Some(MasqueradeError::HeaderValue)
        } else {
            Some(MasqueradeError::HeaderName)
        },
{
    header_errors(headers, at);
    later_headers_do_not_count(headers, at + 1, headers.len() as int);
}

proof fn later_headers_do_not_count(headers: Seq<HeaderKey>, from: int, count: int)
    requires
        0 < from <= count <= headers.len(),
        header_error(headers, from) is Some,
    ensures
        header_error(headers, count) == header_error(headers, from),
    decreases count - from,
{
    if from < count {
        later_headers_do_not_count(headers, from, count - 1);
    }
}

} // verus!
