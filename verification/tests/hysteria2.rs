use clash_inbound::config::listener::InboundUser;
use clash_inbound::config::parts::HeaderPair;
use clash_inbound::hysteria2::acme::{AcmeChallenge, AcmeOptions};
use clash_inbound::hysteria2::auth::{
    build_user_map, is_hysteria_auth_request, judge_auth, source_allowed, AuthVerdict, RequestHead,
};
use clash_inbound::hysteria2::codec::Hy2TcpReq;
use clash_inbound::hysteria2::error::ErrorKind;
use clash_inbound::hysteria2::files::{
    content_type_for_path, file_masquerade_response, file_refusal, masquerade_file_path, FileFound,
};
use clash_inbound::hysteria2::inbound::{
    answer_request, AcmePlan, CertSource, Hysteria2Inbound, InboundOptions, RequestRead, SetupError,
    StreamStep,
};
use clash_inbound::hysteria2::masquerade::{
    fitting_masquerade_proxy_url, hop_by_hop_header, masquerade_proxy_url, Masquerade,
    MasqueradeAnswer, MasqueradeError, MasqueradeOptions,
};
use clash_inbound::hysteria2::passing::{
    auth_response, h3_response, proxy_request_headers, proxy_response_headers, RequestBody,
};
use clash_inbound::hysteria2::sni::{dns_name_matches, normalize_dns_names, SniGuard, SniGuardMode};
use clash_inbound::net::addr::{IpAddr, SocketAddr, SocksAddr};

fn head(method: &str, url: &str) -> RequestHead {
    let uri: http::Uri = url.parse().unwrap();
    RequestHead {
        method: method.to_owned(),
        path: uri.path().to_owned(),
        query: uri.query().map(str::to_owned),
        authority: uri.authority().map(|authority| authority.as_str().to_owned()),
        headers: Vec::new(),
    }
}

fn proxy_url(base: &str, uri: &str) -> String {
    let uri: http::Uri = uri.parse().unwrap();
    masquerade_proxy_url(base, uri.path(), uri.query()).unwrap()
}

#[test]
fn source_allowed_rejects_public_peer_on_unspecified_fallback() {
    let source = SocketAddr::new(IpAddr::V4(203, 0, 113, 1), 12345);
    assert!(!source_allowed(false, source, IpAddr::V4(0, 0, 0, 0)));
}

#[test]
fn source_allowed_accepts_same_local_ip() {
    let source = SocketAddr::new(IpAddr::V4(127, 0, 0, 1), 12345);
    assert!(source_allowed(false, source, IpAddr::V4(127, 0, 0, 1)));
}

#[test]
fn build_user_map_uses_fallback_only_without_users() {
    let users = build_user_map(&[], "secret");
    assert_eq!(users.get("secret"), Some(None));
}

#[test]
fn build_user_map_prefers_named_users_when_present() {
    let users = vec![InboundUser {
        name: "alice".to_owned(),
        password: "secret".to_owned(),
    }];
    let map = build_user_map(&users, "fallback");
    assert_eq!(map.get("secret"), Some(Some("alice".to_owned())));
    assert!(!map.contains_key("fallback"));
}

#[test]
fn official_auth_request_shape_is_accepted() {
    let req = head("POST", "https://hysteria/auth");
    assert!(is_hysteria_auth_request(&req));
}

#[test]
fn non_official_auth_request_shapes_are_rejected() {
    let wrong_method = head("GET", "https://hysteria/auth");
    let wrong_path = head("POST", "https://hysteria/not-auth");
    let wrong_authority = head("POST", "https://example.com/auth");

    assert!(!is_hysteria_auth_request(&wrong_method));
    assert!(!is_hysteria_auth_request(&wrong_path));
    assert!(!is_hysteria_auth_request(&wrong_authority));
}

#[test]
fn sni_guard_matches_exact_and_single_label_wildcard() {
    assert!(dns_name_matches("example.com", "example.com"));
    assert!(dns_name_matches("*.example.com", "hy2.example.com"));
    assert!(!dns_name_matches("*.example.com", "deep.hy2.example.com"));
    assert!(!dns_name_matches("example.com", "hy2.example.com"));
}

#[test]
fn masquerade_file_path_rejects_parent_traversal() {
    let root = "/srv/www";

    assert_eq!(
        masquerade_file_path(root, "/").unwrap(),
        "/srv/www/index.html"
    );
    assert_eq!(
        masquerade_file_path(root, "/assets/app.js").unwrap(),
        "/srv/www/assets/app.js"
    );
    assert!(masquerade_file_path(root, "/../secret").is_none());
    assert!(masquerade_file_path(root, "/assets/../secret").is_none());
}

#[test]
fn masquerade_proxy_url_preserves_base_path() {
    assert_eq!(
        proxy_url("https://example.com/base", "/assets/app.js?ver=1"),
        "https://example.com/base/assets/app.js?ver=1"
    );
}

#[test]
fn masquerade_proxy_url_handles_root_base_path() {
    assert_eq!(
        proxy_url("https://example.com/", "/assets/app.js"),
        "https://example.com/assets/app.js"
    );
}

#[test]
fn masquerade_proxy_url_maps_root_request_under_base_path() {
    assert_eq!(
        proxy_url("https://example.com/base/", "/"),
        "https://example.com/base/"
    );
}

#[test]
fn requests_are_let_in_by_password() {
    let users = build_user_map(
        &[InboundUser {
            name: "alice".to_owned(),
            password: "secret".to_owned(),
        }],
        "",
    );
    let with = |url: &str, method: &str, values: &[&[u8]]| {
        let mut request = head(method, url);
        request.headers.push(("accept".to_owned(), b"*/*".to_vec()));
        for value in values {
            request.headers.push(("hysteria-auth".to_owned(), value.to_vec()));
        }
        request
    };
    let asking = |values: &[&[u8]]| with("https://hysteria/auth", "POST", values);
    match judge_auth(&asking(&[b"secret"]), &users) {
        AuthVerdict::Accepted(name) => assert_eq!(name.as_deref(), Some("alice")),
        other => panic!("the password is right: {other:?}"),
    }
    assert!(matches!(
        judge_auth(&asking(&[b"secret", b"wrong"]), &users),
        AuthVerdict::Accepted(_)
    ));
    let mut shouted = asking(&[]);
    shouted.headers.push(("Hysteria-Auth".to_owned(), b"secret".to_vec()));
    assert!(matches!(judge_auth(&shouted, &users), AuthVerdict::Accepted(_)));
    for values in [&[&b"wrong"[..]][..], &[&b"wrong"[..], &b"secret"[..]], &[&b"\xffsecret"[..]], &[]] {
        assert!(matches!(
            judge_auth(&asking(values), &users),
            AuthVerdict::Refused
        ));
    }
    assert!(matches!(
        judge_auth(&with("https://example.com/", "GET", &[b"secret"]), &users),
        AuthVerdict::NotAuth
    ));
}

#[test]
fn names_are_normalized() {
    let names = vec![
        "B.example.com.".to_owned(),
        "a.example.com".to_owned(),
        "b.EXAMPLE.com".to_owned(),
        "..".to_owned(),
    ];
    assert_eq!(normalize_dns_names(&names), vec!["a.example.com", "b.example.com"]);
}

#[test]
fn guards_let_their_names_through() {
    let names = vec!["*.example.com".to_owned(), "example.org".to_owned()];
    assert!(SniGuard::for_mode(&names, SniGuardMode::Disable).is_none());
    let san = SniGuard::for_mode(&names, SniGuardMode::DnsSan).unwrap();
    assert!(san.allows(Some("HY2.example.com")));
    assert!(san.allows(Some("example.org.")));
    assert!(!san.allows(Some("example.net")));
    assert!(!san.allows(None));
    let strict = SniGuard::for_mode(&names, SniGuardMode::Strict).unwrap();
    assert!(!strict.allows(Some("hy2.example.com")));
    assert!(strict.allows(Some("EXAMPLE.org.")));
}

#[test]
fn masquerades_are_checked() {
    let fixed = |status_code, name: &str, value: &str| {
        Masquerade::try_from_options(MasqueradeOptions::String {
            content: "hello".to_owned(),
            headers: vec![HeaderPair {
                name: name.to_owned(),
                value: value.to_owned(),
            }],
            status_code,
        })
    };
    match fixed(Some(0), "X-Served-By", "nobody") {
        Ok(Masquerade::String {
            body,
            headers,
            status,
        }) => {
            assert_eq!(body, b"hello");
            assert_eq!(status, 200);
            assert_eq!(headers[0].name, "x-served-by");
            assert_eq!(headers[0].value, "nobody");
        }
        _ => panic!("the answer is fine"),
    }
    assert!(matches!(
        fixed(Some(233), "x", "y"),
        Err(MasqueradeError::ReservedStatus)
    ));
    assert!(matches!(fixed(Some(99), "x", "y"), Err(MasqueradeError::Status)));
    assert!(matches!(
        fixed(None, "no name", "y"),
        Err(MasqueradeError::HeaderName)
    ));
    assert!(matches!(
        fixed(None, "x", "a\u{0}b"),
        Err(MasqueradeError::HeaderValue)
    ));
    match Masquerade::try_from_options(MasqueradeOptions::Proxy {
        url: "nonsense".to_owned(),
        rewrite_host: false,
        x_forwarded: false,
        insecure: false,
    }) {
        Err(error) => assert_eq!(
            error.message(),
            "invalid hysteria2 masquerade proxy url: relative URL without a base"
        ),
        Ok(_) => panic!("this is no URL"),
    }
}

#[test]
fn strangers_get_what_was_configured() {
    let request = head("GET", "https://example.com/");
    match Masquerade::NotFound.answer(&request) {
        MasqueradeAnswer::Respond(response) => assert_eq!(response.status, 404),
        _ => panic!("nothing is there"),
    }
    match (Masquerade::File {
        dir: "/srv/www".to_owned(),
    })
    .answer(&request)
    {
        MasqueradeAnswer::File(path) => assert_eq!(path, "/srv/www/index.html"),
        _ => panic!("a file is there"),
    }
    match (Masquerade::File {
        dir: "/srv/www".to_owned(),
    })
    .answer(&head("GET", "https://example.com/../x"))
    {
        MasqueradeAnswer::Respond(response) => assert_eq!(response.status, 404),
        _ => panic!("this leads outside"),
    }
    match Masquerade::Default.answer(&request) {
        MasqueradeAnswer::Respond(response) => assert_eq!(response.status, 200),
        _ => panic!("a page is there"),
    }
}

#[test]
fn files_are_served_with_their_kind() {
    assert_eq!(content_type_for_path("/srv/a.html"), "text/html; charset=utf-8");
    assert_eq!(content_type_for_path("/srv/a.unknown"), "application/octet-stream");
    for path in ["page.html/", "page.html//", "page.html/.", "/srv/page.html/./"] {
        assert_eq!(content_type_for_path(path), "text/html; charset=utf-8");
        assert_eq!(std::path::Path::new(path).extension().unwrap(), "html");
    }
    for path in ["page.html/..", "/srv/.html", "/srv/..", ".", "/", "", "/."] {
        assert_eq!(content_type_for_path(path), "application/octet-stream");
        assert!(std::path::Path::new(path).extension().is_none());
    }
    assert!(file_refusal(FileFound::File(10)).is_none());
    assert_eq!(file_refusal(FileFound::Missing).unwrap().status, 404);
    assert_eq!(file_refusal(FileFound::Other).unwrap().status, 404);
    assert!(file_refusal(FileFound::File(4 * 1024 * 1024 + 1)).is_some());
    let response = file_masquerade_response("/srv/a.html", b"<p>".to_vec());
    assert_eq!(response.status, 200);
    assert_eq!(response.body, b"<p>");
    assert!(response
        .headers
        .iter()
        .any(|header| header.name == "content-type" && header.value == "text/html; charset=utf-8"));
}

#[test]
fn headers_of_a_connection_stay_there() {
    assert!(hop_by_hop_header("connection"));
    assert!(hop_by_hop_header("transfer-encoding"));
    assert!(!hop_by_hop_header("content-type"));
    let mut request = head("GET", "https://example.com/");
    request.headers = vec![
        ("host".to_owned(), b"example.com".to_vec()),
        ("connection".to_owned(), b"close".to_vec()),
        ("accept".to_owned(), b"*/*".to_vec()),
    ];
    let names = |headers: Vec<(String, Vec<u8>)>| {
        headers.into_iter().map(|header| header.0).collect::<Vec<_>>()
    };
    let passed = names(proxy_request_headers(
        &request,
        true,
        false,
        IpAddr::V4(192, 0, 2, 1),
    ));
    assert!(passed.contains(&"accept".to_owned()));
    assert!(!passed.contains(&"connection".to_owned()));
    let back = names(proxy_response_headers(&vec![
        ("te".to_owned(), Vec::new()),
        ("etag".to_owned(), b"x".to_vec()),
    ]));
    assert_eq!(back, vec!["etag".to_owned()]);
}

#[test]
fn bodies_are_bounded() {
    let mut body = RequestBody::new();
    assert!(body.push(&vec![0u8; 1024 * 1024]).is_ok());
    match body.push(b"x") {
        Err(error) => assert_eq!(
            error.message(),
            "hysteria2 masquerade request body too large"
        ),
        Ok(()) => panic!("the body is full"),
    }
}

#[test]
fn answers_to_head_have_no_body() {
    let response = || {
        file_masquerade_response("/srv/a.html", b"<p>".to_vec())
    };
    assert_eq!(h3_response("GET", response()).body.as_deref(), Some(&b"<p>"[..]));
    assert!(h3_response("HEAD", response()).body.is_none());
    assert_eq!(auth_response().status, 233);
}

fn options(certificate: Option<&str>, acme: Option<AcmeOptions>) -> InboundOptions {
    InboundOptions {
        addr: SocketAddr::new(IpAddr::V4(0, 0, 0, 0), 443),
        password: "secret".to_owned(),
        certificate: certificate.map(str::to_owned),
        private_key: certificate.map(|_| "key.pem".to_owned()),
        acme,
        obfs: None,
        sni_guard: SniGuardMode::DnsSan,
        masquerade: MasqueradeOptions::default(),
        allow_lan: false,
        fw_mark: None,
    }
}

fn acme(email: Option<&str>) -> AcmeOptions {
    AcmeOptions {
        domain: "hy2.example.com".to_owned(),
        email: email.map(str::to_owned),
        cache_dir: "./cache".to_owned(),
        production: true,
        challenge: AcmeChallenge::TlsAlpn01,
    }
}

#[test]
fn certificates_come_from_one_source() {
    match Hysteria2Inbound::new(options(Some("cert.pem"), None)) {
        Ok(inbound) => {
            assert!(matches!(inbound.source, CertSource::Files { .. }));
            let peer = SocketAddr::new(IpAddr::V4(203, 0, 113, 1), 1);
            let mapped = SocketAddr::new(IpAddr::V6(0, 0, 0, 0, 0, 0xffff, 0xcb00, 0x7101), 1);
            let bound = IpAddr::V4(0, 0, 0, 0);
            assert!(!inbound.admits(peer, Some(IpAddr::V4(192, 0, 2, 1)), bound));
            assert!(!inbound.admits(peer, None, bound));
            assert!(inbound.admits(mapped, Some(IpAddr::V4(203, 0, 113, 1)), bound));
            assert_eq!(inbound.user_map(&[]).get("secret"), Some(None));
        }
        Err(error) => panic!("{}", error.message()),
    }
    match Hysteria2Inbound::new(options(None, None)) {
        Ok(inbound) => assert!(matches!(inbound.source, CertSource::SelfSigned)),
        Err(error) => panic!("{}", error.message()),
    }
    match Hysteria2Inbound::new(options(Some("cert.pem"), Some(acme(None)))) {
        Err(error) => assert_eq!(
            error.message(),
            "hysteria2 inbound: certificate and private-key must both be set, both omitted, \
             or replaced by acme"
        ),
        Ok(_) => panic!("there are two sources"),
    }
    let mut wrong = options(Some("cert.pem"), None);
    wrong.masquerade = MasqueradeOptions::Proxy {
        url: "no url".to_owned(),
        rewrite_host: false,
        x_forwarded: false,
        insecure: false,
    };
    match Hysteria2Inbound::new(wrong) {
        Err(SetupError::Masquerade {
            error: MasqueradeError::ProxyUrl(_),
            source: CertSource::Files { certificate, .. },
            sni_guard: SniGuardMode::DnsSan,
        }) => assert_eq!(certificate, "cert.pem"),
        other => panic!("there is no site: {other:?}"),
    }
}

#[test]
fn contacts_are_mail_addresses() {
    let contact = |email| match acme(email).plan() {
        AcmePlan::TlsAlpn01 { contact, .. } => contact,
        AcmePlan::Dns01(_) => panic!("the challenge is another"),
    };
    assert_eq!(
        contact(Some("admin@example.com")).as_deref(),
        Some("mailto:admin@example.com")
    );
    assert_eq!(contact(Some("mailto:x@y")).as_deref(), Some("mailto:x@y"));
    assert_eq!(contact(Some("")), None);
    assert_eq!(contact(None), None);
}

#[test]
fn streams_are_answered() {
    let addr = SocksAddr::Domain("example.com".to_owned(), 443);
    match answer_request(RequestRead::Request(Hy2TcpReq { addr: addr.clone() })) {
        StreamStep::Open { reply, destination } => {
            assert_eq!((reply.status, reply.msg.as_str()), (0, ""));
            assert_eq!(destination, addr);
        }
        other => panic!("the request is granted: {other:?}"),
    }
    match answer_request(RequestRead::Bad("invalid address".to_owned())) {
        StreamStep::Refuse(reply) => {
            assert_eq!((reply.status, reply.msg.as_str()), (1, "invalid address"));
        }
        other => panic!("the request is malformed: {other:?}"),
    }
    match answer_request(RequestRead::TimedOut) {
        StreamStep::Drop { kind, message } => {
            assert_eq!(kind, ErrorKind::TimedOut);
            assert_eq!(message, "hysteria2 TCP request timeout");
        }
        other => panic!("nothing came: {other:?}"),
    }
    match answer_request(RequestRead::Closed) {
        StreamStep::Drop { kind, message } => {
            assert_eq!(kind, ErrorKind::UnexpectedEof);
            assert_eq!(message, "hysteria2 TCP request stream closed before request");
        }
        other => panic!("nothing came: {other:?}"),
    }
}

#[test]
fn sites_of_any_length_are_passed_on_to() {
    let base = "https://example.com/base";
    assert_eq!(
        fitting_masquerade_proxy_url(base, "/a b", Some("c=d")),
        Some(Some("https://example.com/base/a%20b?c=d".to_owned()))
    );
    assert_eq!(
        fitting_masquerade_proxy_url("no url", "/a", None),
        Some(None)
    );
    assert_eq!(masquerade_proxy_url("no url", "/a", None), None);
    let long = format!("{base}/{}", "x".repeat(0x100_0001));
    assert_eq!(
        fitting_masquerade_proxy_url(&long, "/a", Some("b")),
        Some(Some(format!("{long}/a?b")))
    );
}
