use clash_inbound::hysteria2::acme::{
    account_key_path, acme_contact, acme_directory, cache_file_name, cert_cache_path,
    certificate_task_exited, certificate_wait, default_hysteria2_acme_cache_dir,
    dns01_record_name, private_tmp_name, safe_name, url_escape, zone_candidates, CertWait,
    CloudflareAuth, CloudflareDnsOptions, Dns01AcmeOptions, Dns01CertResolver, Dns01CertState,
};
use clash_inbound::hysteria2::certs::{
    certificate_dns_names, certificate_guard, certificate_renewal_delay,
    certificate_renewal_delay_at, certified_parts_from_files, certified_parts_from_pem,
    check_guarded_names, renewal_delay, CertError,
};
use clash_inbound::hysteria2::cloudflare::{
    record_url, records_url, CloudflareDnsClient, CloudflareError, CloudflareResponse,
    CreatedCloudflareDnsRecord, ZoneStep,
};
use clash_inbound::hysteria2::dns01::{
    certificate_bundle, dns01_txt_value, jwk_thumb_sha256_base64, start_authorization,
    txt_lookup_contains, AuthError, AuthStart, AuthStatus, CertKeeper, Challenge, Dns01Proof,
    KeeperStep, OrderAction, OrderProgress, OrderStatus, ProofAction, ProofEvent,
};
use clash_inbound::hysteria2::sni::SniGuardMode;
use serde_json::Value;

fn cloudflare(auth: CloudflareAuth) -> CloudflareDnsOptions {
    CloudflareDnsOptions {
        auth,
        zone_id: None,
        ttl: None,
        propagation_delay_secs: 0,
    }
}

fn header(client: &CloudflareDnsClient, name: &str) -> Option<String> {
    client
        .apply_auth()
        .into_iter()
        .find(|header| header.name == name)
        .map(|header| header.value)
}

#[test]
fn dns01_record_name_strips_wildcard() {
    assert_eq!(
        dns01_record_name("*.example.com"),
        "_acme-challenge.example.com"
    );
    assert_eq!(
        dns01_record_name("*.*.example.com.."),
        "_acme-challenge.example.com"
    );
}

#[test]
fn zone_candidates_prefers_longest_suffix() {
    assert_eq!(
        zone_candidates("hy2.example.com"),
        vec!["hy2.example.com", "example.com"]
    );
    assert_eq!(zone_candidates("localhost"), vec!["localhost"]);
}

#[test]
fn txt_lookup_contains_split_value() {
    let lookup = vec![vec![b"abc".to_vec(), b"def".to_vec()]];

    assert!(txt_lookup_contains(&lookup, "abcdef"));
    assert!(!txt_lookup_contains(&lookup, "abcxyz"));
    assert!(txt_lookup_contains(&lookup, "def"));
    assert!(!txt_lookup_contains(&Vec::new(), ""));
}

fn errors_from(value: &Value) -> Vec<CloudflareError> {
    value
        .as_array()
        .map(|errors| {
            errors
                .iter()
                .map(|error| CloudflareError {
                    code: error["code"].as_u64(),
                    message: error["message"].as_str().unwrap().to_owned(),
                    error_chain: errors_from(&error["error_chain"]),
                })
                .collect()
        })
        .unwrap_or_default()
}

#[test]
fn cloudflare_error_response_accepts_null_result() {
    let value: Value = serde_json::from_str(
        r#"{"success":false,"errors":[{"code":6003,"message":"Invalid request headers","error_chain":[{"code":6103,"message":"Invalid format for X-Auth-Key header"}]}],"messages":[],"result":null}"#,
    )
    .unwrap();
    let response: CloudflareResponse<Vec<String>> = CloudflareResponse {
        success: value["success"].as_bool().unwrap(),
        result: if value["result"].is_null() {
            None
        } else {
            Some(Vec::new())
        },
        errors: errors_from(&value["errors"]),
    };

    assert!(!response.success);
    assert!(response.result.is_none());
    assert_eq!(
        response.error_message(),
        "6003: Invalid request headers (6103: Invalid format for X-Auth-Key header)"
    );
}

#[test]
fn cloudflare_api_token_auth_uses_bearer_header() {
    let client = CloudflareDnsClient::new(cloudflare(CloudflareAuth::ApiToken(
        "cf-token".to_owned(),
    )));

    assert_eq!(
        header(&client, "authorization").as_deref(),
        Some("Bearer cf-token")
    );
}

#[test]
fn cloudflare_global_key_auth_uses_email_and_key_headers() {
    let client = CloudflareDnsClient::new(cloudflare(CloudflareAuth::GlobalKey {
        email: "account@example.com".to_owned(),
        key: "cf-global-key".to_owned(),
    }));

    assert_eq!(
        header(&client, "x-auth-email").as_deref(),
        Some("account@example.com")
    );
    assert_eq!(
        header(&client, "x-auth-key").as_deref(),
        Some("cf-global-key")
    );
    assert!(header(&client, "authorization").is_none());
}

#[test]
fn answers_are_judged_by_status_and_result() {
    let answer = |success, result: Option<u32>| CloudflareResponse {
        success,
        result,
        errors: Vec::new(),
    };
    assert_eq!(answer(true, Some(7)).judge(200), Ok(7));
    assert_eq!(
        answer(true, None).judge(200),
        Err("Cloudflare API success response missing result".to_owned())
    );
    assert_eq!(
        answer(true, Some(7)).judge(403),
        Err("Cloudflare API error: unknown error".to_owned())
    );
    assert_eq!(
        answer(false, Some(7)).judge(200),
        Err("Cloudflare API error: unknown error".to_owned())
    );
    let response: CloudflareResponse<u32> = CloudflareResponse {
        success: false,
        result: None,
        errors: vec![
            CloudflareError {
                code: None,
                message: "first".to_owned(),
                error_chain: Vec::new(),
            },
            CloudflareError {
                code: Some(2),
                message: "second".to_owned(),
                error_chain: Vec::new(),
            },
        ],
    };
    assert_eq!(response.error_message(), "first; 2: second");
}

#[test]
fn zones_are_asked_for_from_the_longest_name_on() {
    let client = CloudflareDnsClient::new(cloudflare(CloudflareAuth::ApiToken(String::new())));
    let (mut search, step) = client.zone_search("*.hy 2.example.com");
    let url = |step| match step {
        ZoneStep::Ask(url) => url,
        other => panic!("a zone is asked for: {other:?}"),
    };
    assert_eq!(
        url(step),
        "https://api.cloudflare.com/client/v4/zones?name=hy%202.example.com"
    );
    assert_eq!(
        url(search.next(&Vec::new())),
        "https://api.cloudflare.com/client/v4/zones?name=example.com"
    );
    match search.next(&vec!["zone-1".to_owned(), "zone-2".to_owned()]) {
        ZoneStep::Found(id) => assert_eq!(id, "zone-1"),
        other => panic!("a zone was found: {other:?}"),
    }
    match search.next(&Vec::new()) {
        ZoneStep::Fail(text) => assert_eq!(
            text,
            "failed to discover Cloudflare zone for *.hy 2.example.com"
        ),
        other => panic!("there are no more names: {other:?}"),
    }

    let mut options = cloudflare(CloudflareAuth::ApiToken(String::new()));
    options.zone_id = Some("fixed".to_owned());
    options.ttl = Some(120);
    let client = CloudflareDnsClient::new(options);
    match client.zone_search("example.com").1 {
        ZoneStep::Found(id) => assert_eq!(id, "fixed"),
        other => panic!("the zone is configured: {other:?}"),
    }
    assert_eq!(client.txt_record("name", "content").ttl, 120);
}

#[test]
fn records_have_their_place() {
    assert_eq!(
        records_url("z"),
        "https://api.cloudflare.com/client/v4/zones/z/dns_records"
    );
    assert_eq!(
        record_url(&CreatedCloudflareDnsRecord {
            id: "r".to_owned(),
            zone_id: "z".to_owned(),
        }),
        "https://api.cloudflare.com/client/v4/zones/z/dns_records/r"
    );
    let client = CloudflareDnsClient::new(cloudflare(CloudflareAuth::ApiToken(String::new())));
    let record = client.txt_record("_acme-challenge.example.com", "value");
    assert_eq!(record.kind, "TXT");
    assert_eq!(record.ttl, 1);
}

fn options() -> Dns01AcmeOptions {
    Dns01AcmeOptions {
        domain: "*.example.com".to_owned(),
        email: None,
        cache_dir: "./cache".to_owned(),
        production: false,
        cloudflare: cloudflare(CloudflareAuth::ApiToken(String::new())),
    }
}

#[test]
fn caches_have_names_without_surprises() {
    assert_eq!(safe_name("*.exa/mple.com"), "_.exa_mple.com");
    assert_eq!(cert_cache_path(&options()), "./cache/dns01-_.example.com-staging.pem");
    assert_eq!(account_key_path(&options()), "./cache/dns01-account-staging.key");
    assert_eq!(
        default_hysteria2_acme_cache_dir("a b.example.com"),
        "./hysteria2-acme-cache/a_b.example.com"
    );
    assert_eq!(url_escape("a b/ü~"), "a%20b%2F%C3%BC~");
    assert_eq!(
        private_tmp_name(Some("x.pem"), 42, 0xabc),
        ".x.pem.tmp-42-0000000000000abc"
    );
    assert_eq!(
        private_tmp_name(None, 1, u64::MAX),
        ".acme-cache.tmp-1-ffffffffffffffff"
    );
}

#[test]
fn cached_files_are_named_by_a_digest() {
    assert_eq!(
        cache_file_name("cached_cert", &Vec::new(), ""),
        "cached_cert_47DEQpj8HBSa-_TImW-5JCeuQeRkm5NMpJWZG3hSuFU"
    );
    let one = cache_file_name("c", &vec!["a".to_owned(), "b".to_owned()], "u");
    let other = cache_file_name("c", &vec!["ab".to_owned()], "u");
    assert_ne!(one, other);
    assert_eq!(one.len(), 2 + 43);
}

#[test]
fn directories_are_chosen() {
    assert_eq!(
        acme_directory(true),
        "https://acme-v02.api.letsencrypt.org/directory"
    );
    assert_eq!(
        acme_directory(false),
        "https://acme-staging-v02.api.letsencrypt.org/directory"
    );
    assert_eq!(acme_contact(Some("a@b")), vec!["mailto:a@b"]);
    assert_eq!(acme_contact(Some("mailto:a@b")), vec!["mailto:a@b"]);
    assert!(acme_contact(Some("  ")).is_empty());
    assert!(acme_contact(None).is_empty());
}

#[test]
fn failures_are_told_only_without_a_certificate() {
    let mut resolver = Dns01CertResolver::new();
    assert!(matches!(resolver.subscribe_state(), Dns01CertState::Pending));
    assert!(matches!(
        certificate_wait("0.0.0.0:443", resolver.subscribe_state()),
        CertWait::Wait
    ));
    resolver.set_error_if_empty("no zone".to_owned());
    match certificate_wait("0.0.0.0:443", resolver.subscribe_state()) {
        CertWait::Fail(text) => assert_eq!(
            text,
            "hysteria2 inbound 0.0.0.0:443: acme dns-01 failed before a certificate became \
             available: no zone"
        ),
        other => panic!("the order failed: {other:?}"),
    }
    resolver.set_ready();
    resolver.set_error_if_empty("renewal failed".to_owned());
    assert!(matches!(
        certificate_wait("0.0.0.0:443", resolver.subscribe_state()),
        CertWait::Go
    ));
    assert_eq!(
        certificate_task_exited("[::]:443"),
        "hysteria2 inbound [::]:443: acme dns-01 certificate task exited before a certificate \
         became available"
    );
}

fn point() -> Vec<u8> {
    let mut key = vec![4u8];
    key.extend((0..64u8).map(|value| value.wrapping_mul(3)));
    key
}

#[test]
fn thumbprints_depend_on_the_key() {
    let thumbprint = jwk_thumb_sha256_base64(&point()).unwrap();
    assert_eq!(thumbprint.len(), 43);
    let mut other = point();
    other[64] ^= 1;
    assert_ne!(jwk_thumb_sha256_base64(&other).unwrap(), thumbprint);
    assert!(jwk_thumb_sha256_base64(&point()[..64]).is_err());
    other[0] = 2;
    assert!(jwk_thumb_sha256_base64(&other).is_err());
    let value = dns01_txt_value(&point(), "token").unwrap();
    assert_eq!(value.len(), 43);
    assert_ne!(value, dns01_txt_value(&point(), "other").unwrap());
}

fn challenges() -> Vec<Challenge> {
    vec![
        Challenge {
            is_dns01: false,
            url: "https://acme/http".to_owned(),
            token: "http".to_owned(),
        },
        Challenge {
            is_dns01: true,
            url: "https://acme/dns".to_owned(),
            token: "dns".to_owned(),
        },
    ]
}

fn attempt() -> Dns01Proof {
    match start_authorization(
        AuthStatus::Pending,
        &challenges(),
        "*.example.com",
        &point(),
        30,
    ) {
        Ok(AuthStart::Prove(attempt)) => attempt,
        _ => panic!("control is to be shown"),
    }
}

#[test]
fn authorizations_start_with_their_challenge() {
    let attempt = attempt();
    assert_eq!(attempt.record_name, "_acme-challenge.example.com");
    assert_eq!(attempt.challenge_url, "https://acme/dns");
    assert_eq!(attempt.txt_value, dns01_txt_value(&point(), "dns").unwrap());
    assert!(matches!(
        start_authorization(AuthStatus::Valid, &Vec::new(), "x", &[], 0),
        Ok(AuthStart::Done)
    ));
    match start_authorization(
        AuthStatus::Other("Revoked".to_owned()),
        &challenges(),
        "x",
        &point(),
        0,
    ) {
        Err(error) => assert_eq!(
            error.message(),
            "acme authorization is not pending or valid: Revoked"
        ),
        Ok(_) => panic!("the authorization is gone"),
    }
    assert!(matches!(
        start_authorization(AuthStatus::Pending, &Vec::new(), "x", &point(), 0),
        Err(AuthError::NoChallenge)
    ));
    assert!(matches!(
        start_authorization(AuthStatus::Pending, &challenges(), "x", &[4u8; 3], 0),
        Err(AuthError::Key)
    ));
}

fn run(events: Vec<ProofEvent>) -> Vec<ProofAction> {
    let mut attempt = attempt();
    let mut actions = Vec::new();
    for event in events {
        assert!(attempt.expects(&event));
        let (next, action) = attempt.next(event);
        attempt = next;
        actions.push(action);
    }
    actions
}

#[test]
fn control_is_shown_and_the_record_taken_back() {
    let actions = run(vec![
        ProofEvent::Done,
        ProofEvent::Done,
        ProofEvent::Found(false),
        ProofEvent::Done,
        ProofEvent::Found(true),
        ProofEvent::Done,
        ProofEvent::Done,
        ProofEvent::Status(AuthStatus::Pending),
        ProofEvent::Done,
        ProofEvent::Status(AuthStatus::Valid),
        ProofEvent::Failed("the record stays".to_owned()),
    ]);
    assert!(matches!(
        actions[..],
        [
            ProofAction::Sleep(30),
            ProofAction::Look,
            ProofAction::Sleep(1),
            ProofAction::Look,
            ProofAction::Trigger,
            ProofAction::Sleep(1),
            ProofAction::Check,
            ProofAction::Sleep(2),
            ProofAction::Check,
            ProofAction::Delete,
            ProofAction::Finish(None),
        ]
    ));
}

#[test]
fn records_that_do_not_appear_are_given_up() {
    let mut events = vec![ProofEvent::Done, ProofEvent::Done];
    for _ in 0..8 {
        events.push(ProofEvent::Found(false));
        events.push(ProofEvent::Done);
    }
    events.push(ProofEvent::Done);
    let mut actions = run(events);
    let pauses: Vec<u64> = actions
        .iter()
        .filter_map(|action| match action {
            ProofAction::Sleep(seconds) => Some(*seconds),
            _ => None,
        })
        .collect();
    assert_eq!(pauses, vec![30, 1, 2, 4, 8, 16, 32, 32, 32]);
    match actions.pop() {
        Some(ProofAction::Finish(Some(error))) => assert_eq!(
            error.message(),
            "dns-01 TXT record _acme-challenge.example.com did not propagate"
        ),
        _ => panic!("the attempt failed"),
    }
    assert!(matches!(actions.pop(), Some(ProofAction::Delete)));
}

#[test]
fn checks_that_stay_pending_time_out() {
    let mut events = vec![
        ProofEvent::Done,
        ProofEvent::Done,
        ProofEvent::Found(true),
        ProofEvent::Done,
    ];
    for _ in 0..6 {
        events.push(ProofEvent::Done);
        events.push(ProofEvent::Status(AuthStatus::Pending));
    }
    events.push(ProofEvent::Done);
    match run(events).pop() {
        Some(ProofAction::Finish(Some(error))) => {
            assert_eq!(error.message(), "acme dns-01 authorization timed out");
        }
        _ => panic!("the attempt failed"),
    }
}

#[test]
fn failures_are_named() {
    let last = |events| match run(events).pop() {
        Some(ProofAction::Finish(Some(error))) => error.message(),
        _ => panic!("the attempt failed"),
    };
    assert_eq!(
        last(vec![ProofEvent::Failed("no zone".to_owned())]),
        "create cloudflare dns-01 TXT record: no zone"
    );
    assert_eq!(
        last(vec![
            ProofEvent::Done,
            ProofEvent::Failed("no resolver".to_owned()),
            ProofEvent::Done
        ]),
        "no resolver"
    );
    assert_eq!(
        last(vec![
            ProofEvent::Done,
            ProofEvent::Done,
            ProofEvent::Found(true),
            ProofEvent::Failed("offline".to_owned()),
            ProofEvent::Done
        ]),
        "trigger acme dns-01 challenge: offline"
    );
    assert_eq!(
        last(vec![
            ProofEvent::Done,
            ProofEvent::Done,
            ProofEvent::Found(true),
            ProofEvent::Done,
            ProofEvent::Done,
            ProofEvent::Status(AuthStatus::Other("Invalid".to_owned())),
            ProofEvent::Done
        ]),
        "acme dns-01 authorization failed: Invalid"
    );
    assert!(!attempt().expects(&ProofEvent::Found(true)));
}

#[test]
fn orders_wait_longer_each_time() {
    let mut order = OrderProgress::new();
    assert_eq!(order.next(OrderStatus::Pending), OrderAction::Authorize);
    assert_eq!(order.next(OrderStatus::Ready), OrderAction::Finalize);
    for attempt in 0..10 {
        assert_eq!(
            order.next(OrderStatus::Processing),
            OrderAction::Wait(1 << attempt)
        );
    }
    assert_eq!(order.next(OrderStatus::Processing), OrderAction::TooLong);
    assert_eq!(order.next(OrderStatus::Valid), OrderAction::Download);
    assert_eq!(order.next(OrderStatus::Processing), OrderAction::Wait(1));
    assert_eq!(order.next(OrderStatus::Invalid), OrderAction::Refused);
}

#[test]
fn failed_orders_are_retried_ever_later() {
    let mut keeper = CertKeeper::new();
    let waits: Vec<u64> = (0..8).map(|_| keeper.failed()).collect();
    assert_eq!(waits, vec![60, 120, 240, 480, 960, 1920, 3600, 3600]);
    keeper.deployed();
    assert_eq!(keeper.failed(), 60);
    assert_eq!(keeper.next(Some(5)), KeeperStep::Sleep(5));
    assert_eq!(keeper.next(Some(0)), KeeperStep::Order);
    assert_eq!(keeper.next(None), KeeperStep::Order);
}

#[test]
fn renewal_is_due_in_the_last_third() {
    assert_eq!(renewal_delay(0, 90, 0), 60);
    assert_eq!(renewal_delay(0, 90, 59), 1);
    assert_eq!(renewal_delay(0, 90, 60), 0);
    assert_eq!(renewal_delay(0, 90, 1000), 0);
    assert_eq!(renewal_delay(0, 100, 0), 67);
}

#[test]
fn certificates_are_read() {
    let made = rcgen::generate_simple_self_signed(vec![
        "B.example.com".to_owned(),
        "a.example.com".to_owned(),
    ])
    .unwrap();
    let der = made.cert.der().to_vec();
    let names = certificate_dns_names(&vec![der.clone()]).unwrap();
    assert_eq!(names, vec!["a.example.com", "b.example.com"]);
    assert!(check_guarded_names(&names, SniGuardMode::Strict).is_ok());
    assert!(matches!(
        check_guarded_names(&Vec::new(), SniGuardMode::DnsSan),
        Err(CertError::NoDnsName)
    ));
    assert!(check_guarded_names(&Vec::new(), SniGuardMode::Disable).is_ok());
    assert!(matches!(
        certificate_dns_names(&Vec::new()),
        Err(CertError::EmptyChain)
    ));
    assert!(matches!(
        certificate_dns_names(&vec![b"nonsense".to_vec()]),
        Err(CertError::Parse(_))
    ));

    let certs = vec![der.clone()];
    assert!(certificate_guard(&certs, SniGuardMode::Disable).unwrap().is_none());
    let guard = certificate_guard(&certs, SniGuardMode::Strict).unwrap().unwrap();
    assert!(guard.allows(Some("A.example.com.")));
    assert!(!guard.allows(Some("c.example.com")));
    match certificate_guard(&Vec::new(), SniGuardMode::Disable) {
        Err(error) => assert_eq!(error.message(), "certificate chain is empty"),
        Ok(_) => panic!("there is no certificate"),
    }

    let bundle = certificate_bundle(&made.signing_key.serialize_pem(), &made.cert.pem());
    let (certs, key) = certified_parts_from_pem(bundle.as_bytes()).unwrap();
    assert_eq!(certs, vec![der]);
    assert_eq!(key, made.signing_key.serialize_der());
    let other = rcgen::generate_simple_self_signed(vec!["c.example.com".to_owned()]).unwrap();
    let (certs, key) = certified_parts_from_files(
        certificate_bundle(&other.signing_key.serialize_pem(), &made.cert.pem()).as_bytes(),
        made.signing_key.serialize_pem().as_bytes(),
    )
    .unwrap();
    assert_eq!(certs, vec![made.cert.der().to_vec()]);
    assert_eq!(key, made.signing_key.serialize_der());
    match certified_parts_from_files(b"", b"") {
        Err(error) => assert_eq!(error.message(), "no certificate found in PEM"),
        Ok(_) => panic!("there is no certificate"),
    }
    match certified_parts_from_files(made.cert.pem().as_bytes(), b"") {
        Err(error) => assert_eq!(error.message(), "no private key found in PEM"),
        Ok(_) => panic!("there is no key"),
    }
    let early = certificate_renewal_delay_at(bundle.as_bytes(), 0).unwrap();
    let present = certificate_renewal_delay(bundle.as_bytes()).unwrap();
    assert!(0 < present && present < early);
    assert_eq!(
        certificate_renewal_delay_at(bundle.as_bytes(), i64::MAX).unwrap(),
        0
    );
    assert!(matches!(
        certified_parts_from_pem(made.signing_key.serialize_pem().as_bytes()),
        Err(CertError::NoCertificate)
    ));
    assert!(matches!(
        certified_parts_from_pem(made.cert.pem().as_bytes()),
        Err(CertError::NoPrivateKey)
    ));
    assert!(matches!(
        certificate_renewal_delay(b""),
        Err(CertError::NoCachedCertificate)
    ));
}
