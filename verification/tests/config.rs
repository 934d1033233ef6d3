use clash_inbound::config::headers::{get_header, set_header};
use clash_inbound::config::listener::{
    InboundFileProvider, InboundHttpProvider, InboundOpts, InboundProviderDef, InboundUser,
};
use clash_inbound::config::parts::{
    BindAddress, CommonInboundOpts, HeaderPair, Hysteria2Acme, Hysteria2AcmeChallenge,
    Hysteria2AcmeCloudflareDns, Hysteria2AcmeDns, Hysteria2AcmeDnsProvider,
    Hysteria2InboundDetailedObfs, Hysteria2InboundObfs, Hysteria2InboundObfsKind,
    Hysteria2InboundSalamanderObfs, Hysteria2Masquerade, Hysteria2MasqueradeFile,
    Hysteria2MasqueradeProxy, Hysteria2MasqueradeString, Hysteria2MasqueradeType,
    Hysteria2SniGuard, VlessInboundTransport, VlessInboundUser,
};
use clash_inbound::config::plan::{
    build_handler, provider_definition, runners, Handler, Runner, Skipped,
};
use clash_inbound::config::validate::ConfigError;
use clash_inbound::hysteria2::acme::{AcmeChallenge, CloudflareAuth};
use clash_inbound::hysteria2::inbound::{CertSource, ObfsOptions};
use clash_inbound::hysteria2::masquerade::Masquerade;
use clash_inbound::hysteria2::sni::SniGuardMode;
use clash_inbound::net::addr::{IpAddr, SocketAddr};
use clash_inbound::net::parse::parse_ip;
use serde_yaml::Value;

fn text(map: &Value, names: &[&str]) -> Option<String> {
    names
        .iter()
        .find_map(|name| map.get(*name))
        .and_then(Value::as_str)
        .map(str::to_owned)
}

fn number(map: &Value, names: &[&str]) -> Option<u64> {
    names
        .iter()
        .find_map(|name| map.get(*name))
        .and_then(Value::as_u64)
}

fn flag(map: &Value, name: &str) -> bool {
    map.get(name).and_then(Value::as_bool).unwrap_or(false)
}

fn obfs_from(value: &Value) -> Hysteria2InboundObfs {
    Hysteria2InboundObfs::Detailed(Hysteria2InboundDetailedObfs {
        typ: Hysteria2InboundObfsKind::Salamander,
        salamander: value.get("salamander").map(|salamander| {
            Hysteria2InboundSalamanderObfs {
                password: text(salamander, &["password"]).unwrap(),
            }
        }),
        password: text(value, &["password"]),
    })
}

fn acme_from(value: &Value) -> Hysteria2Acme {
    Hysteria2Acme {
        domain: text(value, &["domain"]).unwrap(),
        email: text(value, &["email"]),
        cache_dir: text(value, &["cache-dir"]),
        challenge: match text(value, &["challenge"]).as_deref() {
            Some("dns-01") => Hysteria2AcmeChallenge::Dns01,
            _ => Hysteria2AcmeChallenge::TlsAlpn01,
        },
        dns: value.get("dns").map(|dns| Hysteria2AcmeDns {
            provider: Hysteria2AcmeDnsProvider::Cloudflare,
            cloudflare: dns.get("cloudflare").map(|cloudflare| {
                Hysteria2AcmeCloudflareDns {
                    api_token: text(cloudflare, &["api-token"]),
                    api_key: text(cloudflare, &["api-key"]),
                    auth_email: text(cloudflare, &["auth-email", "email"]),
                    zone_id: text(cloudflare, &["zone-id"]),
                    ttl: number(cloudflare, &["ttl"]).map(|ttl| ttl as u32),
                    propagation_delay: number(cloudflare, &["propagation-delay"]),
                }
            }),
        }),
        production: flag(value, "production"),
    }
}

fn headers_from(value: &Value) -> Vec<HeaderPair> {
    let mut headers = Vec::new();
    if let Some(mapping) = value.get("headers").and_then(Value::as_mapping) {
        for (name, value) in mapping {
            set_header(
                &mut headers,
                name.as_str().unwrap().to_owned(),
                value.as_str().unwrap().to_owned(),
            );
        }
    }
    headers
}

fn masquerade_from(value: &Value) -> Hysteria2Masquerade {
    Hysteria2Masquerade {
        typ: match text(value, &["type"]).as_deref() {
            Some("string") => Hysteria2MasqueradeType::String,
            Some("file") => Hysteria2MasqueradeType::File,
            Some("proxy") => Hysteria2MasqueradeType::Proxy,
            _ => Hysteria2MasqueradeType::NotFound,
        },
        file: None,
        proxy: None,
        string: value.get("string").map(|string| Hysteria2MasqueradeString {
            content: text(string, &["content"]).unwrap(),
            headers: headers_from(string),
            status_code: number(string, &["status-code", "statusCode"]).map(|code| code as u16),
        }),
    }
}

fn hysteria2_from_yaml(yaml: &str) -> InboundOpts {
    let value: Value = serde_yaml::from_str(yaml).unwrap();
    assert_eq!(text(&value, &["type"]).as_deref(), Some("hysteria2"));
    InboundOpts::Hysteria2 {
        common_opts: CommonInboundOpts {
            name: text(&value, &["name"]).unwrap(),
            listen: BindAddress(parse_ip(&text(&value, &["listen"]).unwrap()).unwrap()),
            allow_lan: flag(&value, "allow-lan"),
            port: number(&value, &["port"]).unwrap() as u16,
            fw_mark: None,
        },
        password: text(&value, &["password"]).unwrap(),
        certificate: text(&value, &["certificate"]),
        private_key: text(&value, &["private-key"]),
        acme: value.get("acme").map(acme_from),
        users: Vec::new(),
        obfs: value.get("obfs").map(obfs_from),
        obfs_password: text(&value, &["obfs-password"]),
        sni_guard: match text(&value, &["sni-guard", "sni_guard", "sniGuard"]).as_deref() {
            Some("strict") => Hysteria2SniGuard::Strict,
            Some("disable") => Hysteria2SniGuard::Disable,
            _ => Hysteria2SniGuard::DnsSan,
        },
        masquerade: value.get("masquerade").map(masquerade_from),
    }
}

fn complaint(listener: &InboundOpts) -> String {
    match listener.validate() {
        Err(ConfigError::InvalidConfig(text)) => text,
        Ok(()) => String::new(),
    }
}

const UUID: &str = "d4f2ad1c-f6db-481e-91de-9d551f8885c9";

fn vless_listener() -> InboundOpts {
    InboundOpts::Vless {
        common_opts: CommonInboundOpts {
            name: "vless-ws-in".to_owned(),
            listen: BindAddress::local(),
            allow_lan: false,
            port: 60178,
            fw_mark: None,
        },
        uuid: Some(UUID.to_owned()),
        users: Vec::new(),
        transport: VlessInboundTransport {
            typ: "ws".to_owned(),
            path: "/assets/js/chunks/main.d4f2ad1c.js".to_owned(),
            early_data_header_name: Some("Sec-WebSocket-Protocol".to_owned()),
        },
    }
}

fn hysteria2_listener() -> InboundOpts {
    InboundOpts::Hysteria2 {
        common_opts: CommonInboundOpts {
            name: "hy2-in".to_owned(),
            listen: BindAddress::local(),
            allow_lan: false,
            port: 443,
            fw_mark: None,
        },
        password: "secret".to_owned(),
        certificate: None,
        private_key: None,
        acme: Some(Hysteria2Acme {
            domain: "hy2.example.com".to_owned(),
            email: Some("admin@example.com".to_owned()),
            cache_dir: Some("./acme/hysteria2".to_owned()),
            challenge: Hysteria2AcmeChallenge::TlsAlpn01,
            dns: None,
            production: true,
        }),
        users: Vec::new(),
        obfs: None,
        obfs_password: None,
        sni_guard: Hysteria2SniGuard::DnsSan,
        masquerade: None,
    }
}

#[test]
fn validate_vless_accepts_ws_listener() {
    assert!(vless_listener().validate().is_ok());
}

#[test]
fn validate_vless_rejects_unsupported_transport() {
    let mut listener = vless_listener();
    if let InboundOpts::Vless { transport, .. } = &mut listener {
        transport.typ = "grpc".to_owned();
    }

    assert!(listener.validate().is_err());
}

#[test]
fn validate_vless_rejects_bad_uuid() {
    let mut listener = vless_listener();
    if let InboundOpts::Vless { uuid, .. } = &mut listener {
        *uuid = Some("not-a-uuid".to_owned());
    }

    assert!(listener.validate().is_err());
}

#[test]
fn validate_vless_rejects_relative_ws_path() {
    let mut listener = vless_listener();
    if let InboundOpts::Vless { transport, .. } = &mut listener {
        transport.path = "relative".to_owned();
    }

    assert!(listener.validate().is_err());
}

#[test]
fn validate_vless_rejects_invalid_early_data_header_name() {
    let mut listener = vless_listener();
    if let InboundOpts::Vless { transport, .. } = &mut listener {
        transport.early_data_header_name = Some("bad header".to_owned());
    }

    assert!(listener.validate().is_err());
}

#[test]
fn validate_hysteria2_accepts_acme_listener() {
    assert!(hysteria2_listener().validate().is_ok());
}

#[test]
fn validate_hysteria2_rejects_acme_with_manual_cert() {
    let mut listener = hysteria2_listener();
    if let InboundOpts::Hysteria2 {
        certificate,
        private_key,
        ..
    } = &mut listener
    {
        *certificate = Some("cert.pem".to_owned());
        *private_key = Some("key.pem".to_owned());
    }

    assert!(listener.validate().is_err());
}

#[test]
fn validate_hysteria2_rejects_duplicate_password() {
    let mut listener = hysteria2_listener();
    if let InboundOpts::Hysteria2 { users, .. } = &mut listener {
        users.push(InboundUser {
            name: "alice".to_owned(),
            password: "secret".to_owned(),
        });
        users.push(InboundUser {
            name: "bob".to_owned(),
            password: "secret".to_owned(),
        });
    }

    assert!(listener.validate().is_err());
}

#[test]
fn validate_hysteria2_accepts_simple_salamander_obfs() {
    let mut listener = hysteria2_listener();
    if let InboundOpts::Hysteria2 {
        obfs,
        obfs_password,
        ..
    } = &mut listener
    {
        *obfs = Some(Hysteria2InboundObfs::Simple(
            Hysteria2InboundObfsKind::Salamander,
        ));
        *obfs_password = Some("obfs-secret".to_owned());
    }

    assert!(listener.validate().is_ok());
}

#[test]
fn validate_hysteria2_accepts_official_salamander_obfs() {
    let mut listener = hysteria2_listener();
    if let InboundOpts::Hysteria2 { obfs, .. } = &mut listener {
        *obfs = Some(Hysteria2InboundObfs::Detailed(
            Hysteria2InboundDetailedObfs {
                typ: Hysteria2InboundObfsKind::Salamander,
                salamander: Some(Hysteria2InboundSalamanderObfs {
                    password: "obfs-secret".to_owned(),
                }),
                password: None,
            },
        ));
    }

    assert!(listener.validate().is_ok());
}

#[test]
fn validate_hysteria2_rejects_obfs_without_password() {
    let mut listener = hysteria2_listener();
    if let InboundOpts::Hysteria2 { obfs, .. } = &mut listener {
        *obfs = Some(Hysteria2InboundObfs::Simple(
            Hysteria2InboundObfsKind::Salamander,
        ));
    }

    assert!(listener.validate().is_err());
}

#[test]
fn parse_hysteria2_official_salamander_obfs_yaml() {
    let listener = hysteria2_from_yaml(
        r#"
type: hysteria2
name: hy2-in
listen: 127.0.0.1
port: 443
password: secret
obfs:
  type: salamander
  salamander:
    password: obfs-secret
"#,
    );

    if let InboundOpts::Hysteria2 {
        obfs,
        obfs_password,
        ..
    } = &listener
    {
        assert_eq!(
            obfs.as_ref().and_then(
                |obfs| obfs.salamander_password(obfs_password.as_deref())
            ),
            Some("obfs-secret")
        );
    } else {
        panic!("expected hysteria2 listener");
    }

    assert!(listener.validate().is_ok());
}

#[test]
fn parse_hysteria2_official_masquerade_and_sni_guard_yaml() {
    let listener = hysteria2_from_yaml(
        r#"
type: hysteria2
name: hy2-in
listen: 127.0.0.1
port: 443
password: secret
sniGuard: strict
masquerade:
  type: string
  string:
    content: "hello"
    statusCode: 204
    headers:
      content-type: text/plain
"#,
    );

    if let InboundOpts::Hysteria2 {
        sni_guard,
        masquerade,
        ..
    } = &listener
    {
        assert_eq!(*sni_guard, Hysteria2SniGuard::Strict);
        let masquerade = masquerade.as_ref().unwrap();
        assert_eq!(masquerade.typ, Hysteria2MasqueradeType::String);
        let string = masquerade.string.as_ref().unwrap();
        assert_eq!(string.status_code, Some(204));
        assert_eq!(
            get_header(&string.headers, "content-type"),
            Some("text/plain")
        );
    } else {
        panic!("expected hysteria2 listener");
    }

    assert!(listener.validate().is_ok());
}

#[test]
fn parse_hysteria2_dns01_alias_and_automatic_cloudflare_ttl() {
    let listener = hysteria2_from_yaml(
        r#"
type: hysteria2
name: hy2-in
listen: "::"
allow-lan: true
port: 21835
password: secret
acme:
  domain: h.example.com
  email: admin@example.com
  cache-dir: ./acme/hysteria2
  production: true
  challenge: dns-01
  dns:
    provider: cloudflare
    cloudflare:
      api-token: cf-token
      ttl: 1
      propagation-delay: 30
"#,
    );

    if let InboundOpts::Hysteria2 { acme, .. } = &listener {
        let acme = acme.as_ref().unwrap();
        assert_eq!(acme.challenge, Hysteria2AcmeChallenge::Dns01);
        assert_eq!(
            acme.dns
                .as_ref()
                .and_then(|dns| dns.cloudflare.as_ref())
                .and_then(|cloudflare| cloudflare.ttl),
            Some(1)
        );
    } else {
        panic!("expected hysteria2 listener");
    }

    assert!(listener.validate().is_ok());
}

#[test]
fn validate_hysteria2_rejects_reserved_masquerade_status() {
    let mut listener = hysteria2_listener();
    if let InboundOpts::Hysteria2 { masquerade, .. } = &mut listener {
        *masquerade = Some(Hysteria2Masquerade {
            typ: Hysteria2MasqueradeType::String,
            file: None,
            proxy: None,
            string: Some(Hysteria2MasqueradeString {
                content: "hello".to_owned(),
                headers: Vec::new(),
                status_code: Some(233),
            }),
        });
    }

    assert!(listener.validate().is_err());
}

#[test]
fn validate_hysteria2_accepts_cloudflare_dns01_acme() {
    let mut listener = hysteria2_listener();
    if let InboundOpts::Hysteria2 { acme, .. } = &mut listener {
        *acme = Some(Hysteria2Acme {
            domain: "hy2.example.com".to_owned(),
            email: Some("admin@example.com".to_owned()),
            cache_dir: Some("./acme/hysteria2".to_owned()),
            challenge: Hysteria2AcmeChallenge::Dns01,
            dns: Some(Hysteria2AcmeDns {
                provider: Hysteria2AcmeDnsProvider::Cloudflare,
                cloudflare: Some(Hysteria2AcmeCloudflareDns {
                    api_token: Some("cf-token".to_owned()),
                    api_key: None,
                    auth_email: None,
                    zone_id: None,
                    ttl: Some(60),
                    propagation_delay: Some(30),
                }),
            }),
            production: true,
        });
    }

    assert!(listener.validate().is_ok());
}

#[test]
fn validate_hysteria2_accepts_cloudflare_global_api_key_dns01_acme() {
    let listener = hysteria2_from_yaml(
        r#"
type: hysteria2
name: hy2-in
listen: 127.0.0.1
port: 443
password: secret
acme:
  domain: hy2.example.com
  challenge: dns-01
  dns:
    provider: cloudflare
    cloudflare:
      api-key: cf-global-key
      auth-email: account@example.com
"#,
    );

    if let InboundOpts::Hysteria2 { acme, .. } = &listener {
        let cloudflare = acme
            .as_ref()
            .unwrap()
            .dns
            .as_ref()
            .unwrap()
            .cloudflare
            .as_ref()
            .unwrap();
        assert_eq!(cloudflare.api_key.as_deref(), Some("cf-global-key"));
        assert_eq!(
            cloudflare.auth_email.as_deref(),
            Some("account@example.com")
        );
    } else {
        panic!("expected hysteria2 listener");
    }

    assert!(listener.validate().is_ok());
}

#[test]
fn validate_hysteria2_accepts_dns01_wildcard_acme() {
    let mut listener = hysteria2_listener();
    if let InboundOpts::Hysteria2 { acme, .. } = &mut listener {
        *acme = Some(Hysteria2Acme {
            domain: "*.example.com".to_owned(),
            email: Some("admin@example.com".to_owned()),
            cache_dir: Some("./acme/hysteria2".to_owned()),
            challenge: Hysteria2AcmeChallenge::Dns01,
            dns: Some(Hysteria2AcmeDns {
                provider: Hysteria2AcmeDnsProvider::Cloudflare,
                cloudflare: Some(Hysteria2AcmeCloudflareDns {
                    api_token: Some("cf-token".to_owned()),
                    api_key: None,
                    auth_email: None,
                    zone_id: None,
                    ttl: Some(60),
                    propagation_delay: Some(30),
                }),
            }),
            production: true,
        });
    }

    assert!(listener.validate().is_ok());
}

#[test]
fn validate_hysteria2_rejects_tls_alpn_wildcard_acme() {
    let mut listener = hysteria2_listener();
    if let InboundOpts::Hysteria2 { acme: Some(acme), .. } = &mut listener {
        acme.domain = "*.example.com".to_owned();
        acme.challenge = Hysteria2AcmeChallenge::TlsAlpn01;
        acme.dns = None;
    }

    assert!(listener.validate().is_err());
}

#[test]
fn validate_hysteria2_rejects_dns01_without_cloudflare_token() {
    let mut listener = hysteria2_listener();
    if let InboundOpts::Hysteria2 { acme, .. } = &mut listener {
        *acme = Some(Hysteria2Acme {
            domain: "hy2.example.com".to_owned(),
            email: None,
            cache_dir: None,
            challenge: Hysteria2AcmeChallenge::Dns01,
            dns: Some(Hysteria2AcmeDns {
                provider: Hysteria2AcmeDnsProvider::Cloudflare,
                cloudflare: Some(Hysteria2AcmeCloudflareDns {
                    api_token: None,
                    api_key: None,
                    auth_email: None,
                    zone_id: None,
                    ttl: None,
                    propagation_delay: None,
                }),
            }),
            production: false,
        });
    }

    assert!(listener.validate().is_err());
}

#[test]
fn validate_hysteria2_rejects_cloudflare_api_key_without_auth_email() {
    let mut listener = hysteria2_listener();
    if let InboundOpts::Hysteria2 { acme, .. } = &mut listener {
        *acme = Some(Hysteria2Acme {
            domain: "hy2.example.com".to_owned(),
            email: None,
            cache_dir: None,
            challenge: Hysteria2AcmeChallenge::Dns01,
            dns: Some(Hysteria2AcmeDns {
                provider: Hysteria2AcmeDnsProvider::Cloudflare,
                cloudflare: Some(Hysteria2AcmeCloudflareDns {
                    api_token: None,
                    api_key: Some("cf-global-key".to_owned()),
                    auth_email: None,
                    zone_id: None,
                    ttl: None,
                    propagation_delay: None,
                }),
            }),
            production: false,
        });
    }

    assert!(listener.validate().is_err());
}

#[test]
fn validate_hysteria2_rejects_cloudflare_api_token_with_auth_email() {
    let mut listener = hysteria2_listener();
    if let InboundOpts::Hysteria2 { acme, .. } = &mut listener {
        *acme = Some(Hysteria2Acme {
            domain: "hy2.example.com".to_owned(),
            email: None,
            cache_dir: None,
            challenge: Hysteria2AcmeChallenge::Dns01,
            dns: Some(Hysteria2AcmeDns {
                provider: Hysteria2AcmeDnsProvider::Cloudflare,
                cloudflare: Some(Hysteria2AcmeCloudflareDns {
                    api_token: Some("cf-token".to_owned()),
                    api_key: None,
                    auth_email: Some("account@example.com".to_owned()),
                    zone_id: None,
                    ttl: None,
                    propagation_delay: None,
                }),
            }),
            production: false,
        });
    }

    assert!(listener.validate().is_err());
}

#[test]
fn validate_hysteria2_rejects_cloudflare_ttl_between_auto_and_minimum() {
    let mut listener = hysteria2_listener();
    if let InboundOpts::Hysteria2 { acme: Some(acme), .. } = &mut listener {
        acme.challenge = Hysteria2AcmeChallenge::Dns01;
        acme.dns = Some(Hysteria2AcmeDns {
            provider: Hysteria2AcmeDnsProvider::Cloudflare,
            cloudflare: Some(Hysteria2AcmeCloudflareDns {
                api_token: Some("cf-token".to_owned()),
                api_key: None,
                auth_email: None,
                zone_id: None,
                ttl: Some(30),
                propagation_delay: None,
            }),
        });
    }

    assert!(listener.validate().is_err());
}

fn common(name: &str, port: u16) -> CommonInboundOpts {
    CommonInboundOpts {
        name: name.to_owned(),
        listen: BindAddress::all(),
        allow_lan: true,
        port,
        fw_mark: Some(7),
    }
}

#[test]
fn vless_complaints_say_what_is_wrong() {
    let mut listener = vless_listener();
    if let InboundOpts::Vless { uuid, .. } = &mut listener {
        *uuid = None;
    }
    assert_eq!(
        complaint(&listener),
        "vless inbound 'vless-ws-in': uuid or users is required"
    );

    let mut listener = vless_listener();
    if let InboundOpts::Vless { users, .. } = &mut listener {
        users.push(VlessInboundUser {
            uuid: UUID.to_uppercase(),
            name: Some("alice".to_owned()),
        });
    }
    assert_eq!(
        complaint(&listener),
        format!("vless inbound 'vless-ws-in': duplicate uuid {}", UUID.to_uppercase())
    );

    let mut listener = vless_listener();
    if let InboundOpts::Vless { transport, .. } = &mut listener {
        transport.typ = "WS".to_owned();
    }
    assert_eq!(complaint(&listener), "");

    let mut listener = vless_listener();
    if let InboundOpts::Vless { transport, .. } = &mut listener {
        transport.early_data_header_name = Some("bad header".to_owned());
    }
    assert_eq!(
        complaint(&listener),
        "vless inbound 'vless-ws-in': invalid early-data-header-name 'bad header': \
         invalid HTTP header name"
    );
}

#[test]
fn hysteria2_complaints_say_what_is_wrong() {
    let mut listener = hysteria2_listener();
    if let InboundOpts::Hysteria2 { password, .. } = &mut listener {
        password.clear();
    }
    assert_eq!(
        complaint(&listener),
        "hysteria2 inbound 'hy2-in': password or users is required"
    );

    let mut listener = hysteria2_listener();
    if let InboundOpts::Hysteria2 { acme: Some(acme), .. } = &mut listener {
        acme.domain = "-bad.example.com".to_owned();
    }
    assert_eq!(
        complaint(&listener),
        "hysteria2 inbound 'hy2-in': invalid acme domain '-bad.example.com'"
    );

    let mut listener = hysteria2_listener();
    if let InboundOpts::Hysteria2 { users, .. } = &mut listener {
        users.push(InboundUser {
            name: " \u{a0} ".to_owned(),
            password: "x".to_owned(),
        });
    }
    assert_eq!(
        complaint(&listener),
        "hysteria2 inbound 'hy2-in': user name cannot be empty"
    );

    let mut listener = hysteria2_listener();
    if let InboundOpts::Hysteria2 { obfs_password, .. } = &mut listener {
        *obfs_password = Some("left over".to_owned());
    }
    assert_eq!(
        complaint(&listener),
        "hysteria2 inbound 'hy2-in': obfs-password requires obfs: salamander"
    );
}

#[test]
fn masquerade_complaints_say_what_is_wrong() {
    let with = |masquerade: Hysteria2Masquerade| {
        let mut listener = hysteria2_listener();
        if let InboundOpts::Hysteria2 { masquerade: slot, .. } = &mut listener {
            *slot = Some(masquerade);
        }
        complaint(&listener)
    };
    let empty = |typ| Hysteria2Masquerade {
        typ,
        file: None,
        proxy: None,
        string: None,
    };

    assert_eq!(with(empty(Hysteria2MasqueradeType::NotFound)), "");
    assert_eq!(
        with(empty(Hysteria2MasqueradeType::File)),
        "hysteria2 inbound 'hy2-in': masquerade.file is required for type: file"
    );
    assert_eq!(
        with(Hysteria2Masquerade {
            file: Some(Hysteria2MasqueradeFile {
                dir: "  ".to_owned()
            }),
            ..empty(Hysteria2MasqueradeType::File)
        }),
        "hysteria2 inbound 'hy2-in': masquerade.file.dir cannot be empty"
    );
    let proxy = |url: &str| Hysteria2Masquerade {
        proxy: Some(Hysteria2MasqueradeProxy {
            url: url.to_owned(),
            rewrite_host: false,
            x_forwarded: false,
            insecure: false,
        }),
        ..empty(Hysteria2MasqueradeType::Proxy)
    };
    assert_eq!(with(proxy("https://example.com/base")), "");
    assert_eq!(
        with(proxy("ftp://example.com")),
        "hysteria2 inbound 'hy2-in': masquerade.proxy.url must use http or https"
    );
    assert_eq!(
        with(proxy("no url")),
        "hysteria2 inbound 'hy2-in': invalid masquerade.proxy.url 'no url': \
         relative URL without a base"
    );
    let fixed = |name: &str, value: &str| Hysteria2Masquerade {
        string: Some(Hysteria2MasqueradeString {
            content: "hello".to_owned(),
            headers: vec![HeaderPair {
                name: name.to_owned(),
                value: value.to_owned(),
            }],
            status_code: None,
        }),
        ..empty(Hysteria2MasqueradeType::String)
    };
    assert_eq!(with(fixed("content-type", "text/plain")), "");
    assert_eq!(
        with(fixed("bad name", "x")),
        "hysteria2 inbound: invalid masquerade header name 'bad name': invalid HTTP header name"
    );
    assert_eq!(
        with(fixed("x-name", "line\nbreak")),
        "hysteria2 inbound: invalid masquerade header value for 'x-name': \
         failed to parse header value"
    );
}

#[test]
fn listeners_are_told_apart_by_all_but_their_users() {
    let one = InboundOpts::Anytls {
        common_opts: common("a", 1),
        password: "p".to_owned(),
        certificate: None,
        private_key: None,
        users: Vec::new(),
        fallback: None,
    };
    let other = InboundOpts::Anytls {
        common_opts: common("a", 1),
        password: "p".to_owned(),
        certificate: None,
        private_key: None,
        users: vec![InboundUser {
            name: "alice".to_owned(),
            password: "secret".to_owned(),
        }],
        fallback: None,
    };
    assert!(one == other);
    assert_eq!(one.hash_code(), other.hash_code());

    let http = InboundOpts::Http {
        common_opts: common("a", 1),
    };
    let moved = InboundOpts::Http {
        common_opts: common("a", 2),
    };
    assert!(http != moved);
    assert!(http != one);
    assert_ne!(http.hash_code(), moved.hash_code());
}

#[test]
fn listeners_give_their_common_options() {
    let mut listener = InboundOpts::Redir {
        common_opts: common("redir", 12),
    };
    assert_eq!(listener.common_opts().port, 12);
    listener.common_opts_mut().port = 13;
    listener.common_opts_mut().name = "moved".to_owned();
    assert_eq!(listener.common_opts().port, 13);
    assert_eq!(listener.common_opts().name, "moved");
    assert_eq!(listener.kind_name(), "redir");
    assert_eq!(vless_listener().kind_name(), "vless");
    assert_eq!(hysteria2_listener().kind_name(), "hysteria2");
}

#[test]
fn providers_take_their_name() {
    let mut provider = InboundProviderDef::Http(InboundHttpProvider {
        name: String::new(),
        url: "https://example.com/list".to_owned(),
        interval: 60,
        path: "list.yaml".to_owned(),
    });
    provider.set_name("remote".to_owned());
    match &provider {
        InboundProviderDef::Http(http) => {
            assert_eq!(http.name, "remote");
            assert_eq!(http.interval, 60);
        }
        InboundProviderDef::File(_) => panic!("the kind changed"),
    }
    let mut provider = InboundProviderDef::File(InboundFileProvider {
        name: String::new(),
        path: "list.yaml".to_owned(),
        interval: None,
    });
    provider.set_name("local".to_owned());
    match provider_definition(Some("local"), Ok(provider)) {
        Ok(InboundProviderDef::File(file)) => assert_eq!(file.name, "local"),
        _ => panic!("a file provider was read"),
    }
}

#[test]
fn providers_without_a_name_or_a_definition_are_refused() {
    match provider_definition(None, Err("whatever".to_owned())) {
        Err(ConfigError::InvalidConfig(text)) => {
            assert_eq!(text, "missing field `name` in inbound provider");
        }
        Ok(_) => panic!("a name is needed"),
    }
    match provider_definition(Some("p"), Err("missing field `path`".to_owned())) {
        Err(ConfigError::InvalidConfig(text)) => {
            assert_eq!(text, "inbound provider p: missing field `path`");
        }
        Ok(_) => panic!("a definition is needed"),
    }
}

#[test]
fn plain_listeners_are_planned_with_their_address() {
    let addr = SocketAddr::new(IpAddr::V4(0, 0, 0, 0), 1080);
    match build_handler(
        InboundOpts::Socks {
            common_opts: common("socks", 1080),
            udp: true,
        },
        true,
    ) {
        Ok(Handler::Socks(options)) => {
            assert_eq!(options.addr, addr);
            assert!(options.allow_lan);
            assert_eq!(options.fw_mark, Some(7));
        }
        _ => panic!("a socks listener is run"),
    }
    match build_handler(
        InboundOpts::TProxy {
            common_opts: common("tproxy", 1),
            udp: true,
        },
        false,
    ) {
        Err(skipped) => {
            assert_eq!(skipped.message(), "tproxy is not supported on this platform");
        }
        Ok(_) => panic!("the platform cannot do it"),
    }
    match build_handler(
        InboundOpts::Redir {
            common_opts: common("redir", 1),
        },
        false,
    ) {
        Err(Skipped::RedirPlatform) => {}
        _ => panic!("the platform cannot do it"),
    }
}

#[test]
fn vless_listeners_are_planned() {
    match build_handler(vless_listener(), true) {
        Ok(Handler::Vless(inbound)) => {
            assert_eq!(inbound.addr, SocketAddr::new(IpAddr::V4(127, 0, 0, 1), 60178));
            assert_eq!(inbound.ws_path, "/assets/js/chunks/main.d4f2ad1c.js");
            assert_eq!(inbound.users.len(), 1);
            assert_eq!(
                inbound.users.get(&0xd4f2ad1c_f6db_481e_91de_9d551f8885c9),
                Some(&None)
            );
        }
        _ => panic!("a vless listener is run"),
    }
    let mut listener = vless_listener();
    if let InboundOpts::Vless { transport, .. } = &mut listener {
        transport.typ = "grpc".to_owned();
    }
    match build_handler(listener, true) {
        Err(skipped) => assert_eq!(
            skipped.message(),
            "vless inbound vless-ws-in only supports websocket transport"
        ),
        Ok(_) => panic!("only websockets are carried"),
    }
    let mut listener = vless_listener();
    if let InboundOpts::Vless { uuid, .. } = &mut listener {
        *uuid = None;
    }
    match build_handler(listener, true) {
        Err(skipped) => assert_eq!(
            skipped.message(),
            "vless inbound failed to init: vless inbound requires uuid or users"
        ),
        Ok(_) => panic!("a user is needed"),
    }
}

#[test]
fn hysteria2_listeners_are_planned() {
    let mut listener = hysteria2_listener();
    if let InboundOpts::Hysteria2 {
        acme: Some(acme),
        obfs,
        obfs_password,
        sni_guard,
        masquerade,
        ..
    } = &mut listener
    {
        acme.cache_dir = None;
        acme.domain = "*.example.com".to_owned();
        acme.challenge = Hysteria2AcmeChallenge::Dns01;
        acme.dns = Some(Hysteria2AcmeDns {
            provider: Hysteria2AcmeDnsProvider::Cloudflare,
            cloudflare: Some(Hysteria2AcmeCloudflareDns {
                api_token: None,
                api_key: Some(" cf-global-key ".to_owned()),
                auth_email: Some(" account@example.com".to_owned()),
                zone_id: None,
                ttl: None,
                propagation_delay: None,
            }),
        });
        *obfs = Some(Hysteria2InboundObfs::Simple(Hysteria2InboundObfsKind::Salamander));
        *obfs_password = Some("obfs-secret".to_owned());
        *sni_guard = Hysteria2SniGuard::Strict;
        *masquerade = Some(Hysteria2Masquerade {
            typ: Hysteria2MasqueradeType::Proxy,
            file: None,
            proxy: Some(Hysteria2MasqueradeProxy {
                url: "https://example.com".to_owned(),
                rewrite_host: true,
                x_forwarded: false,
                insecure: false,
            }),
            string: None,
        });
    }
    assert!(listener.validate().is_ok());
    match build_handler(listener, true) {
        Ok(Handler::Hysteria2 { inbound, users }) => {
            assert!(users.is_empty());
            assert!(!inbound.handle_tcp());
            assert!(inbound.handle_udp());
            assert_eq!(inbound.sni_guard, SniGuardMode::Strict);
            match inbound.obfs {
                Some(ObfsOptions::Salamander { password }) => assert_eq!(password, "obfs-secret"),
                None => panic!("obfuscation was asked for"),
            }
            match inbound.masquerade {
                Masquerade::Proxy {
                    url, rewrite_host, ..
                } => {
                    assert_eq!(url, "https://example.com/");
                    assert!(rewrite_host);
                }
                _ => panic!("a proxy was asked for"),
            }
            match inbound.source {
                CertSource::Acme(acme) => {
                    assert_eq!(acme.cache_dir, "./hysteria2-acme-cache/_.example.com");
                    match acme.challenge {
                        AcmeChallenge::Dns01 { cloudflare } => {
                            assert_eq!(cloudflare.propagation_delay_secs, 30);
                            match cloudflare.auth {
                                CloudflareAuth::GlobalKey { email, key } => {
                                    assert_eq!(email, "account@example.com");
                                    assert_eq!(key, "cf-global-key");
                                }
                                CloudflareAuth::ApiToken(_) => panic!("a key was given"),
                            }
                        }
                        AcmeChallenge::TlsAlpn01 => panic!("a record was asked for"),
                    }
                }
                _ => panic!("a directory was asked for"),
            }
        }
        _ => panic!("a hysteria2 listener is run"),
    }
}

#[test]
fn listeners_run_what_they_handle() {
    assert_eq!(runners(true, true), Some(vec![Runner::Tcp, Runner::Udp]));
    assert_eq!(runners(true, false), Some(vec![Runner::Tcp]));
    assert_eq!(runners(false, true), Some(vec![Runner::Udp]));
    assert_eq!(runners(false, false), None);
}

#[test]
fn headers_are_kept_by_name() {
    let mut headers = Vec::new();
    for (name, value) in [("b", "1"), ("a", "2"), ("ab", "3"), ("b", "4")] {
        set_header(&mut headers, name.to_owned(), value.to_owned());
    }
    let names: Vec<&str> = headers.iter().map(|header| header.name.as_str()).collect();
    assert_eq!(names, vec!["a", "ab", "b"]);
    assert_eq!(get_header(&headers, "b"), Some("4"));
    assert_eq!(get_header(&headers, "c"), None);

    let mut same = Vec::new();
    for (name, value) in [("ab", "3"), ("b", "4"), ("a", "2")] {
        set_header(&mut same, name.to_owned(), value.to_owned());
    }
    let string = |headers| Hysteria2MasqueradeString {
        content: "hello".to_owned(),
        headers,
        status_code: None,
    };
    assert!(string(headers).same(&string(same)));
}
