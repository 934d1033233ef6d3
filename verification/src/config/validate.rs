//! Whether a listener is configured in a way that can work.
//!
//! A complaint is the text that the operator gets to read; the first one found
//! is reported.

use vstd::prelude::*;
use vstd::string::*;
use vstd::utf8::encode_utf8;

use crate::config::listener::{InboundOpts, InboundUser};
use crate::config::parts::{
    header_views, str_view, vless_user_views, AcmeKey, CloudflareKey, HeaderKey,
    HeaderPair, Hysteria2Acme, Hysteria2AcmeChallenge, Hysteria2AcmeCloudflareDns,
    Hysteria2AcmeDnsProvider, Hysteria2InboundObfs, Hysteria2Masquerade, Hysteria2MasqueradeType,
    MasqueradeKey, ObfsKey, VlessInboundTransport, VlessInboundUser, VlessTransportKey,
    VlessUserKey,
};
use crate::net::parse::{ip_of_text, parse_ip};
use crate::text::{
    ascii_alphanumeric, ascii_lower_text, char_rows, chars_of, has_prefix, is_ascii_alphanumeric,
    joined, maybe_view, same_ignoring_case, split, split_spec, starts_with, text_of, trim, trimmed,
};
use crate::vless::ids::{parse_uuid_text, uuid_parsed};
use crate::web::{
    header_name, header_value_fits, is_header_name, is_header_value, parse_url, url_parsed,
};

verus! {

/// What is wrong with a configuration.
#[derive(Debug)]
pub enum ConfigError {
    InvalidConfig(String),
}

/// A complaint about the listener `name`.
pub open spec fn complaint(kind: Seq<char>, name: Seq<char>, text: Seq<char>) -> Seq<char> {
    kind + name + "': "@ + text
}

fn complain(kind: &str, name: &str, text: &str) -> (message: Option<String>)
    ensures
        maybe_view(message) == Some(complaint(kind@, name@, text@)),
{
    let mut message = joined(kind, name);
    message.append("': ");
    message.append(text);
    Some(message)
}

pub open spec fn vless_text(name: Seq<char>, text: Seq<char>) -> Option<Seq<char>> {
    Some(complaint("vless inbound '"@, name, text))
}

pub open spec fn hysteria2_text(name: Seq<char>, text: Seq<char>) -> Option<Seq<char>> {
    Some(complaint("hysteria2 inbound '"@, name, text))
}

fn vless_complain(name: &str, text: &str) -> (message: Option<String>)
    ensures
        maybe_view(message) == vless_text(name@, text@),
{
    complain("vless inbound '", name, text)
}

fn hysteria2_complain(name: &str, text: &str) -> (message: Option<String>)
    ensures
        maybe_view(message) == hysteria2_text(name@, text@),
{
    complain("hysteria2 inbound '", name, text)
}

/// Whether an identifier is the common one or that of one of the first `count` users.
pub open spec fn is_taken(
    uuid: Option<Seq<char>>,
    users: Seq<VlessUserKey>,
    count: int,
    id: u128,
) -> bool {
    ||| uuid is Some && uuid_parsed(uuid->0) == Ok::<u128, Seq<char>>(id)
    ||| exists|i: int|
        0 <= i < count && uuid_parsed((#[trigger] users[i]).uuid) == Ok::<u128, Seq<char>>(id)
}

pub open spec fn bad_uuid_text(uuid: Seq<char>, error: Seq<char>) -> Seq<char> {
    "invalid uuid "@ + uuid + ": "@ + error
}

/// The first complaint about one of the first `count` users.
pub open spec fn vless_users_complaint(
    name: Seq<char>,
    uuid: Option<Seq<char>>,
    users: Seq<VlessUserKey>,
    count: int,
) -> Option<Seq<char>>
    decreases count,
{
    if count <= 0 {
        None
    } else {
        match vless_users_complaint(name, uuid, users, count - 1) {
            Some(text) => Some(text),
            None => {
                let own = users[count - 1].uuid;
                match uuid_parsed(own) {
                    Err(error) => vless_text(name, bad_uuid_text(own, error)),
                    Ok(id) => if is_taken(uuid, users, count - 1, id) {
                        vless_text(name, "duplicate uuid "@ + own)
                    } else {
                        None
                    },
                }
            },
        }
    }
}

/// The first complaint about a VLESS listener.
pub open spec fn vless_complaint(
    name: Seq<char>,
    uuid: Option<Seq<char>>,
    users: Seq<VlessUserKey>,
    transport: VlessTransportKey,
) -> Option<Seq<char>> {
    if ascii_lower_text(transport.typ) != ascii_lower_text("ws"@) {
        vless_text(name, "only websocket transport is supported"@)
    } else if transport.path.len() == 0 || transport.path[0] != '/' {
        vless_text(name, "websocket path must be absolute"@)
    } else if uuid is None && users.len() == 0 {
        vless_text(name, "uuid or users is required"@)
    } else if transport.early_data_header_name is Some && !is_header_name(
        encode_utf8(transport.early_data_header_name->0),
    ) {
        vless_text(
            name,
            "invalid early-data-header-name '"@ + transport.early_data_header_name->0
                + "': invalid HTTP header name"@,
        )
    } else if uuid is Some && uuid_parsed(uuid->0) is Err {
        vless_text(name, bad_uuid_text(uuid->0, uuid_parsed(uuid->0)->Err_0))
    } else {
        vless_users_complaint(name, uuid, users, users.len() as int)
    }
}

fn bad_uuid(name: &str, uuid: &str, error: &str) -> (message: Option<String>)
    ensures
        maybe_view(message) == vless_text(name@, bad_uuid_text(uuid@, error@)),
{
    let mut text = joined("invalid uuid ", uuid);
    text.append(": ");
    text.append(error);
    vless_complain(name, text.as_str())
}

fn contains_id(seen: &Vec<u128>, id: u128) -> (found: bool)
    ensures
        found == seen@.contains(id),
{
    let mut i: usize = 0;
    while i < seen.len()
        invariant
            i <= seen@.len(),
            forall|j: int| 0 <= j < i ==> #[trigger] seen@[j] != id,
        decreases seen@.len() - i,
    {
        if seen[i] == id {
            return true;
        }
        i += 1;
    }
    false
}

fn validate_vless_inbound(
    name: &str,
    uuid: &Option<String>,
    users: &Vec<VlessInboundUser>,
    transport: &VlessInboundTransport,
) -> (message: Option<String>)
    ensures
        maybe_view(message) == vless_complaint(
            name@,
            maybe_view(*uuid),
            vless_user_views(users@),
            transport@,
        ),
{
    if !same_ignoring_case(transport.typ.as_str(), "ws") {
        return vless_complain(name, "only websocket transport is supported");
    }
    let path = chars_of(transport.path.as_str());
    if path.len() == 0 || path[0] != '/' {
        return vless_complain(name, "websocket path must be absolute");
    }
    if uuid.is_none() && users.len() == 0 {
        return vless_complain(name, "uuid or users is required");
    }
    if let Some(header) = &transport.early_data_header_name {
        if header_name(header.as_str().as_bytes()).is_none() {
            let mut text = joined("invalid early-data-header-name '", header.as_str());
            text.append("': invalid HTTP header name");
            return vless_complain(name, text.as_str());
        }
    }
    let ghost keys = vless_user_views(users@);
    let mut seen: Vec<u128> = Vec::new();
    if let Some(text) = uuid {
        match parse_uuid_text(text.as_str()) {
            Ok(id) => {
                seen.push(id);
                assert(seen@[0] == id);
            },
            Err(error) => {
                return bad_uuid(name, text.as_str(), error.as_str());
            },
        }
    }
    let mut i: usize = 0;
    while i < users.len()
        invariant
            i <= users@.len(),
            keys == vless_user_views(users@),
            forall|id: u128|
                #[trigger] seen@.contains(id) <==> is_taken(maybe_view(*uuid), keys, i as int, id),
            vless_users_complaint(name@, maybe_view(*uuid), keys, i as int) is None,
            vless_complaint(name@, maybe_view(*uuid), keys, transport@) == vless_users_complaint(
                name@,
                maybe_view(*uuid),
                keys,
                users@.len() as int,
            ),
        decreases users@.len() - i,
    {
        assert(keys[i as int].uuid == users@[i as int].uuid@);
        match parse_uuid_text(users[i].uuid.as_str()) {
            Err(error) => {
                proof {
                    first_user_complaint_stays(
                        name@,
                        maybe_view(*uuid),
                        keys,
                        i + 1,
                        users@.len() as int,
                    );
                }
                return bad_uuid(name, users[i].uuid.as_str(), error.as_str());
            },
            Ok(id) => {
                if contains_id(&seen, id) {
                    proof {
                        first_user_complaint_stays(
                            name@,
                            maybe_view(*uuid),
                            keys,
                            i + 1,
                            users@.len() as int,
                        );
                    }
                    let text = joined("duplicate uuid ", users[i].uuid.as_str());
                    return vless_complain(name, text.as_str());
                }
                let ghost before = seen@;
                seen.push(id);
                proof {
                    assert forall|other: u128| #[trigger] seen@.contains(other) <==> is_taken(
                        maybe_view(*uuid),
                        keys,
                        i + 1,
                        other,
                    ) by {
                        assert(before.contains(other) <==> is_taken(
                            maybe_view(*uuid),
                            keys,
                            i as int,
                            other,
                        ));
                        if seen@.contains(other) {
                            let k = choose|k: int| 0 <= k < seen@.len() && seen@[k] == other;
                            if k < before.len() {
                                assert(before[k] == other);
                            }
                        }
                        if before.contains(other) {
                            let k = choose|k: int| 0 <= k < before.len() && before[k] == other;
                            assert(seen@[k] == other);
                        }
                        assert(seen@[before.len() as int] == id);
                    }
                }
            },
        }
        i += 1;
    }
    None
}

proof fn first_user_complaint_stays(
    name: Seq<char>,
    uuid: Option<Seq<char>>,
    users: Seq<VlessUserKey>,
    count: int,
    total: int,
)
    requires
        0 <= count <= total,
        vless_users_complaint(name, uuid, users, count) is Some,
    ensures
        vless_users_complaint(name, uuid, users, total) == vless_users_complaint(
            name,
            uuid,
            users,
            count,
        ),
    decreases total - count,
{
    if count < total {
        first_user_complaint_stays(name, uuid, users, count, total - 1);
    }
}

/// A label of a domain: 1 to 63 letters, digits and inner hyphens.
pub open spec fn label_fits(label: Seq<char>) -> bool {
    &&& 1 <= label.len() <= 63
    &&& label[0] != '-'
    &&& label.last() != '-'
    &&& forall|i: int|
        0 <= i < label.len() ==> is_ascii_alphanumeric(#[trigger] label[i]) || label[i] == '-'
}

/// A domain: labels with dots between them, at most 253 characters in all.
pub open spec fn domain_fits(domain: Seq<char>) -> bool {
    domain.len() <= 253 && forall|i: int|
        0 <= i < split_spec(domain, '.').len() ==> label_fits(#[trigger] split_spec(domain, '.')[i])
}

fn check_label(label: &Vec<char>) -> (fits: bool)
    ensures
        fits == label_fits(label@),
{
    let len: usize = label.len();
    if len == 0 || len > 63 || label[0] == '-' || label[len - 1] == '-' {
        return false;
    }
    let mut i: usize = 0;
    while i < len
        invariant
            i <= len,
            len == label@.len(),
            forall|j: int|
                0 <= j < i ==> is_ascii_alphanumeric(#[trigger] label@[j]) || label@[j] == '-',
        decreases len - i,
    {
        if !ascii_alphanumeric(label[i]) && label[i] != '-' {
            return false;
        }
        i += 1;
    }
    true
}

fn check_domain(domain: &[char]) -> (fits: bool)
    ensures
        fits == domain_fits(domain@),
{
    if domain.len() > 253 {
        return false;
    }
    let labels = split(domain, '.');
    let ghost rows = split_spec(domain@, '.');
    let mut i: usize = 0;
    while i < labels.len()
        invariant
            i <= labels@.len(),
            char_rows(labels@) == rows,
            rows == split_spec(domain@, '.'),
            forall|j: int| 0 <= j < i ==> label_fits(#[trigger] rows[j]),
        decreases labels@.len() - i,
    {
        assert(rows[i as int] == labels@[i as int]@);
        if !check_label(&labels[i]) {
            return false;
        }
        i += 1;
    }
    assert(rows.len() == labels@.len());
    true
}

/// The domain of a certificate, without the wildcard in front.
pub open spec fn base_domain(domain: Seq<char>) -> Seq<char> {
    if has_prefix(domain, seq!['*', '.']) {
        domain.skip(2)
    } else {
        domain
    }
}

/// The complaint about what a certificate is to be issued for: an IP address,
/// or a domain, or with DNS challenges a wildcard of a domain.
pub open spec fn identifier_complaint(
    name: Seq<char>,
    domain: Seq<char>,
    allow_wildcard: bool,
) -> Option<Seq<char>> {
    let inner = trimmed(domain);
    if inner.len() == 0 {
        hysteria2_text(name, "acme domain cannot be empty"@)
    } else if ip_of_text(inner) is Some {
        None
    } else if has_prefix(inner, seq!['*', '.']) && !allow_wildcard {
        hysteria2_text(name, "wildcard acme domain requires challenge: dns-01"@)
    } else if !domain_fits(base_domain(inner)) {
        hysteria2_text(name, "invalid acme domain '"@ + base_domain(inner) + "'"@)
    } else {
        None
    }
}

fn validate_acme_identifier(name: &str, domain: &str, allow_wildcard: bool) -> (message: Option<
    String,
>)
    ensures
        maybe_view(message) == identifier_complaint(name@, domain@, allow_wildcard),
{
    let inner = trim(domain);
    if inner.as_str().is_empty() {
        return hysteria2_complain(name, "acme domain cannot be empty");
    }
    if parse_ip(inner.as_str()).is_some() {
        return None;
    }
    let s = chars_of(inner.as_str());
    let star: [char; 2] = ['*', '.'];
    assert(star@ =~= seq!['*', '.']);
    let wildcard = starts_with(s.as_slice(), &star);
    if wildcard && !allow_wildcard {
        return hysteria2_complain(name, "wildcard acme domain requires challenge: dns-01");
    }
    let start: usize = if wildcard {
        2
    } else {
        0
    };
    let base = text_of(s.as_slice(), start, s.len());
    assert(base@ =~= base_domain(inner@));
    let base_chars = chars_of(base.as_str());
    if !check_domain(base_chars.as_slice()) {
        let mut text = joined("invalid acme domain '", base.as_str());
        text.append("'");
        return hysteria2_complain(name, text.as_str());
    }
    None
}

/// A text without the white space around it, if anything is left.
pub open spec fn filled_in(text: Option<Seq<char>>) -> Option<Seq<char>> {
    match text {
        Some(t) => if trimmed(t).len() > 0 {
            Some(trimmed(t))
        } else {
            None
        },
        None => None,
    }
}

fn is_filled_in(text: &Option<String>) -> (yes: bool)
    ensures
        yes == filled_in(maybe_view(*text)) is Some,
{
    match text {
        Some(t) => !trim(t.as_str()).as_str().is_empty(),
        None => false,
    }
}

/// The complaint about the access to a zone at Cloudflare.
pub open spec fn cloudflare_complaint(name: Seq<char>, cloudflare: CloudflareKey) -> Option<
    Seq<char>,
> {
    let token = filled_in(cloudflare.api_token) is Some;
    let key = filled_in(cloudflare.api_key) is Some;
    let email = filled_in(cloudflare.auth_email) is Some;
    if !token && !key {
        hysteria2_text(name, "cloudflare api-token or api-key is required"@)
    } else if token && key {
        hysteria2_text(name, "cloudflare api-token and api-key are mutually exclusive"@)
    } else if token && email {
        hysteria2_text(name, "cloudflare auth-email is only used with api-key, not api-token"@)
    } else if key && !email {
        hysteria2_text(name, "cloudflare auth-email is required when api-key is used"@)
    } else if cloudflare.zone_id is Some && trimmed(cloudflare.zone_id->0).len() == 0 {
        hysteria2_text(name, "cloudflare zone-id cannot be empty"@)
    } else if cloudflare.ttl is Some && 2 <= cloudflare.ttl->0 <= 59 {
        hysteria2_text(
            name,
            "cloudflare ttl must be 1 for automatic or at least 60 seconds"@,
        )
    } else {
        None
    }
}

fn check_cloudflare(name: &str, cloudflare: &Hysteria2AcmeCloudflareDns) -> (message: Option<
    String,
>)
    ensures
        maybe_view(message) == cloudflare_complaint(name@, cloudflare@),
{
    let token = is_filled_in(&cloudflare.api_token);
    let key = is_filled_in(&cloudflare.api_key);
    let email = is_filled_in(&cloudflare.auth_email);
    if !token && !key {
        return hysteria2_complain(name, "cloudflare api-token or api-key is required");
    }
    if token && key {
        return hysteria2_complain(name, "cloudflare api-token and api-key are mutually exclusive");
    }
    if token && email {
        return hysteria2_complain(
            name,
            "cloudflare auth-email is only used with api-key, not api-token",
        );
    }
    if key && !email {
        return hysteria2_complain(name, "cloudflare auth-email is required when api-key is used");
    }
    if let Some(zone_id) = &cloudflare.zone_id {
        if trim(zone_id.as_str()).as_str().is_empty() {
            return hysteria2_complain(name, "cloudflare zone-id cannot be empty");
        }
    }
    if let Some(ttl) = cloudflare.ttl {
        if 2 <= ttl && ttl <= 59 {
            return hysteria2_complain(
                name,
                "cloudflare ttl must be 1 for automatic or at least 60 seconds",
            );
        }
    }
    None
}

/// The complaint about how control over the domain is shown.
pub open spec fn challenge_complaint(name: Seq<char>, acme: AcmeKey) -> Option<Seq<char>> {
    match acme.challenge {
        Hysteria2AcmeChallenge::TlsAlpn01 => if acme.dns is Some {
            hysteria2_text(name, "acme.dns requires challenge: dns-01"@)
        } else {
            None
        },
        Hysteria2AcmeChallenge::Dns01 => if ip_of_text(acme.domain) is Some {
            hysteria2_text(name, "dns-01 cannot issue certificates for IP identifiers"@)
        } else {
            match acme.dns {
                None => hysteria2_text(name, "acme.dns is required for challenge: dns-01"@),
                Some(dns) => match dns.cloudflare {
                    None => hysteria2_text(
                        name,
                        "acme.dns.cloudflare is required for provider: cloudflare"@,
                    ),
                    Some(cloudflare) => cloudflare_complaint(name, cloudflare),
                },
            }
        },
    }
}

fn validate_hysteria2_acme_challenge(name: &str, acme: &Hysteria2Acme) -> (message: Option<String>)
    ensures
        maybe_view(message) == challenge_complaint(name@, acme@),
{
    match acme.challenge {
        Hysteria2AcmeChallenge::TlsAlpn01 => {
            if acme.dns.is_some() {
                return hysteria2_complain(name, "acme.dns requires challenge: dns-01");
            }
            None
        },
        Hysteria2AcmeChallenge::Dns01 => {
            if parse_ip(acme.domain.as_str()).is_some() {
                return hysteria2_complain(
                    name,
                    "dns-01 cannot issue certificates for IP identifiers",
                );
            }
            match &acme.dns {
                None => hysteria2_complain(name, "acme.dns is required for challenge: dns-01"),
                Some(dns) => match dns.provider {
                    Hysteria2AcmeDnsProvider::Cloudflare => match &dns.cloudflare {
                        None => hysteria2_complain(
                            name,
                            "acme.dns.cloudflare is required for provider: cloudflare",
                        ),
                        Some(cloudflare) => check_cloudflare(name, cloudflare),
                    },
                },
            }
        },
    }
}

/// The complaint about a certificate that is to be issued.
pub open spec fn acme_complaint(name: Seq<char>, acme: AcmeKey) -> Option<Seq<char>> {
    let wildcard = acme.challenge == Hysteria2AcmeChallenge::Dns01;
    match identifier_complaint(name, acme.domain, wildcard) {
        Some(text) => Some(text),
        None => if acme.cache_dir is Some && trimmed(acme.cache_dir->0).len() == 0 {
            hysteria2_text(name, "acme cache-dir cannot be empty"@)
        } else {
            challenge_complaint(name, acme)
        },
    }
}

fn check_acme(name: &str, acme: &Hysteria2Acme) -> (message: Option<String>)
    ensures
        maybe_view(message) == acme_complaint(name@, acme@),
{
    let wildcard = acme.challenge == Hysteria2AcmeChallenge::Dns01;
    let message = validate_acme_identifier(name, acme.domain.as_str(), wildcard);
    if message.is_some() {
        return message;
    }
    if let Some(cache_dir) = &acme.cache_dir {
        if trim(cache_dir.as_str()).as_str().is_empty() {
            return hysteria2_complain(name, "acme cache-dir cannot be empty");
        }
    }
    validate_hysteria2_acme_challenge(name, acme)
}

/// The complaint about the obfuscation.
pub open spec fn obfs_complaint(
    name: Seq<char>,
    obfs: Option<ObfsKey>,
    obfs_password: Option<Seq<char>>,
) -> Option<Seq<char>> {
    match obfs {
        Some(o) => match o.password(obfs_password) {
            None => hysteria2_text(
                name,
                "obfs-password or obfs.salamander.password is required when obfs is enabled"@,
            ),
            Some(password) => if password.len() == 0 {
                hysteria2_text(name, "obfs password cannot be empty"@)
            } else {
                None
            },
        },
        None => if obfs_password is Some && obfs_password->0.len() > 0 {
            hysteria2_text(name, "obfs-password requires obfs: salamander"@)
        } else {
            None
        },
    }
}

/// A text that may be missing, borrowed.
pub fn as_str(text: &Option<String>) -> (borrowed: Option<&str>)
    ensures
        str_view(borrowed) == maybe_view(*text),
{
    match text {
        Some(t) => Some(t.as_str()),
        None => None,
    }
}

fn check_obfs(
    name: &str,
    obfs: &Option<Hysteria2InboundObfs>,
    obfs_password: &Option<String>,
) -> (message: Option<String>)
    ensures
        maybe_view(message) == obfs_complaint(
            name@,
            crate::config::parts::maybe_obfs(*obfs),
            maybe_view(*obfs_password),
        ),
{
    match obfs {
        Some(o) => match o.salamander_password(as_str(obfs_password)) {
            None => hysteria2_complain(
                name,
                "obfs-password or obfs.salamander.password is required when obfs is enabled",
            ),
            Some(password) => {
                if password.is_empty() {
                    return hysteria2_complain(name, "obfs password cannot be empty");
                }
                None
            },
        },
        None => {
            if let Some(password) = obfs_password {
                if !password.as_str().is_empty() {
                    return hysteria2_complain(name, "obfs-password requires obfs: salamander");
                }
            }
            None
        },
    }
}

pub open spec fn header_name_text(name: Seq<char>) -> Seq<char> {
    "hysteria2 inbound: invalid masquerade header name '"@ + name + "': invalid HTTP header name"@
}

pub open spec fn header_value_text(name: Seq<char>) -> Seq<char> {
    "hysteria2 inbound: invalid masquerade header value for '"@ + name
        + "': failed to parse header value"@
}

/// The first complaint about one of the first `count` headers.
pub open spec fn headers_complaint(headers: Seq<HeaderKey>, count: int) -> Option<Seq<char>>
    decreases count,
{
    if count <= 0 {
        None
    } else {
        match headers_complaint(headers, count - 1) {
            Some(text) => Some(text),
            None => {
                let header = headers[count - 1];
                if !is_header_name(encode_utf8(header.name)) {
                    Some(header_name_text(header.name))
                } else if !is_header_value(encode_utf8(header.value)) {
                    Some(header_value_text(header.name))
                } else {
                    None
                }
            },
        }
    }
}

proof fn first_header_complaint_stays(headers: Seq<HeaderKey>, count: int, total: int)
    requires
        0 <= count <= total,
        headers_complaint(headers, count) is Some,
    ensures
        headers_complaint(headers, total) == headers_complaint(headers, count),
    decreases total - count,
{
    if count < total {
        first_header_complaint_stays(headers, count, total - 1);
    }
}

fn check_headers(headers: &Vec<HeaderPair>) -> (message: Option<String>)
    ensures
        maybe_view(message) == headers_complaint(header_views(headers@), headers@.len() as int),
{
    let ghost keys = header_views(headers@);
    let mut i: usize = 0;
    while i < headers.len()
        invariant
            i <= headers@.len(),
            keys == header_views(headers@),
            headers_complaint(keys, i as int) is None,
        decreases headers@.len() - i,
    {
        let header = &headers[i];
        assert(keys[i as int] == header@);
        if header_name(header.name.as_str().as_bytes()).is_none() {
            proof {
                first_header_complaint_stays(keys, i + 1, headers@.len() as int);
            }
            let mut text = joined(
                "hysteria2 inbound: invalid masquerade header name '",
                header.name.as_str(),
            );
            text.append("': invalid HTTP header name");
            return Some(text);
        }
        if !header_value_fits(header.value.as_str()) {
            proof {
                first_header_complaint_stays(keys, i + 1, headers@.len() as int);
            }
            let mut text = joined(
                "hysteria2 inbound: invalid masquerade header value for '",
                header.name.as_str(),
            );
            text.append("': failed to parse header value");
            return Some(text);
        }
        i += 1;
    }
    None
}

/// Whether a serialized URL has the scheme `http` or `https`.
pub open spec fn is_web_url(url: Seq<char>) -> bool {
    has_prefix(url, "http:"@) || has_prefix(url, "https:"@)
}

fn check_web_url(url: &str) -> (yes: bool)
    ensures
        yes == is_web_url(url@),
{
    let s = chars_of(url);
    let http = chars_of("http:");
    let https = chars_of("https:");
    starts_with(s.as_slice(), http.as_slice()) || starts_with(s.as_slice(), https.as_slice())
}

/// Status codes of a fixed answer: unset, zero, or 200 to 599 but for the one
/// that tells a client it is let in.
pub open spec fn answer_status_fits(status_code: Option<u16>) -> bool {
    match status_code {
        None => true,
        Some(code) => code == 0 || (200 <= code <= 599 && code != 233),
    }
}

/// The complaint about what strangers get to see.
pub open spec fn masquerade_complaint(name: Seq<char>, masquerade: MasqueradeKey) -> Option<
    Seq<char>,
> {
    match masquerade.typ {
        Hysteria2MasqueradeType::NotFound => None,
        Hysteria2MasqueradeType::File => match masquerade.file {
            None => hysteria2_text(name, "masquerade.file is required for type: file"@),
            Some(file) => if trimmed(file.dir).len() == 0 {
                hysteria2_text(name, "masquerade.file.dir cannot be empty"@)
            } else {
                None
            },
        },
        Hysteria2MasqueradeType::Proxy => match masquerade.proxy {
            None => hysteria2_text(name, "masquerade.proxy is required for type: proxy"@),
            Some(proxy) => match url_parsed(proxy.url) {
                Err(error) => hysteria2_text(
                    name,
                    "invalid masquerade.proxy.url '"@ + proxy.url + "': "@ + error,
                ),
                Ok(url) => if is_web_url(url) {
                    None
                } else {
                    hysteria2_text(name, "masquerade.proxy.url must use http or https"@)
                },
            },
        },
        Hysteria2MasqueradeType::String => match masquerade.string {
            None => hysteria2_text(name, "masquerade.string is required for type: string"@),
            Some(string) => if string.content.len() == 0 {
                hysteria2_text(name, "masquerade.string.content cannot be empty"@)
            } else if !answer_status_fits(string.status_code) {
                hysteria2_text(
                    name,
                    "masquerade.string.status-code must be 0 or 200-599 except 233"@,
                )
            } else {
                headers_complaint(string.headers, string.headers.len() as int)
            },
        },
    }
}

fn validate_hysteria2_masquerade(name: &str, masquerade: &Hysteria2Masquerade) -> (message: Option<
    String,
>)
    ensures
        maybe_view(message) == masquerade_complaint(name@, masquerade@),
{
    match masquerade.typ {
        Hysteria2MasqueradeType::NotFound => None,
        Hysteria2MasqueradeType::File => match &masquerade.file {
            None => hysteria2_complain(name, "masquerade.file is required for type: file"),
            Some(file) => {
                if trim(file.dir.as_str()).as_str().is_empty() {
                    return hysteria2_complain(name, "masquerade.file.dir cannot be empty");
                }
                None
            },
        },
        Hysteria2MasqueradeType::Proxy => match &masquerade.proxy {
            None => hysteria2_complain(name, "masquerade.proxy is required for type: proxy"),
            Some(proxy) => match parse_url(proxy.url.as_str()) {
                Err(error) => {
                    let mut text = joined("invalid masquerade.proxy.url '", proxy.url.as_str());
                    text.append("': ");
                    text.append(error.as_str());
                    hysteria2_complain(name, text.as_str())
                },
                Ok(url) => {
                    if check_web_url(url.as_str()) {
                        return None;
                    }
                    hysteria2_complain(name, "masquerade.proxy.url must use http or https")
                },
            },
        },
        Hysteria2MasqueradeType::String => match &masquerade.string {
            None => hysteria2_complain(name, "masquerade.string is required for type: string"),
            Some(string) => {
                if string.content.as_str().is_empty() {
                    return hysteria2_complain(name, "masquerade.string.content cannot be empty");
                }
                if let Some(code) = string.status_code {
                    if code != 0 && (code < 200 || code > 599 || code == 233) {
                        return hysteria2_complain(
                            name,
                            "masquerade.string.status-code must be 0 or 200-599 except 233",
                        );
                    }
                }
                check_headers(&string.headers)
            },
        },
    }
}

/// Whether one of the first `count` users has a password.
pub open spec fn password_taken(users: Seq<InboundUser>, count: int, password: Seq<char>) -> bool {
    exists|i: int| 0 <= i < count && (#[trigger] users[i]).password@ == password
}

/// The first complaint about one of the first `count` users.
pub open spec fn users_complaint(name: Seq<char>, users: Seq<InboundUser>, count: int) -> Option<
    Seq<char>,
>
    decreases count,
{
    if count <= 0 {
        None
    } else {
        match users_complaint(name, users, count - 1) {
            Some(text) => Some(text),
            None => {
                let user = users[count - 1];
                if trimmed(user.name@).len() == 0 {
                    hysteria2_text(name, "user name cannot be empty"@)
                } else if user.password@.len() == 0 {
                    hysteria2_text(
                        name,
                        "user '"@ + user.name@ + "' password cannot be empty"@,
                    )
                } else if password_taken(users, count - 1, user.password@) {
                    hysteria2_text(
                        name,
                        "duplicate password for user '"@ + user.name@ + "'"@,
                    )
                } else {
                    None
                }
            },
        }
    }
}

proof fn first_named_complaint_stays(
    name: Seq<char>,
    users: Seq<InboundUser>,
    count: int,
    total: int,
)
    requires
        0 <= count <= total,
        users_complaint(name, users, count) is Some,
    ensures
        users_complaint(name, users, total) == users_complaint(name, users, count),
    decreases total - count,
{
    if count < total {
        first_named_complaint_stays(name, users, count, total - 1);
    }
}

fn has_password(users: &Vec<InboundUser>, count: usize, password: &String) -> (taken: bool)
    requires
        count <= users@.len(),
    ensures
        taken == password_taken(users@, count as int, password@),
{
    let mut i: usize = 0;
    while i < count
        invariant
            i <= count <= users@.len(),
            forall|j: int| 0 <= j < i ==> (#[trigger] users@[j]).password@ != password@,
        decreases count - i,
    {
        if users[i].password == *password {
            return true;
        }
        i += 1;
    }
    false
}

fn check_users(name: &str, users: &Vec<InboundUser>) -> (message: Option<String>)
    ensures
        maybe_view(message) == users_complaint(name@, users@, users@.len() as int),
{
    let mut i: usize = 0;
    while i < users.len()
        invariant
            i <= users@.len(),
            users_complaint(name@, users@, i as int) is None,
        decreases users@.len() - i,
    {
        let user = &users[i];
        if trim(user.name.as_str()).as_str().is_empty() {
            proof {
                first_named_complaint_stays(name@, users@, i + 1, users@.len() as int);
            }
            return hysteria2_complain(name, "user name cannot be empty");
        }
        if user.password.as_str().is_empty() {
            proof {
                first_named_complaint_stays(name@, users@, i + 1, users@.len() as int);
            }
            let mut text = joined("user '", user.name.as_str());
            text.append("' password cannot be empty");
            return hysteria2_complain(name, text.as_str());
        }
        if has_password(users, i, &user.password) {
            proof {
                first_named_complaint_stays(name@, users@, i + 1, users@.len() as int);
            }
            let mut text = joined("duplicate password for user '", user.name.as_str());
            text.append("'");
            return hysteria2_complain(name, text.as_str());
        }
        i += 1;
    }
    None
}

/// The first complaint about a listener.
pub open spec fn listener_complaint(listener: InboundOpts) -> Option<Seq<char>> {
    match listener {
        InboundOpts::Vless { common_opts, uuid, users, transport } => vless_complaint(
            common_opts.name@,
            maybe_view(uuid),
            vless_user_views(users@),
            transport@,
        ),
        InboundOpts::Hysteria2 {
            common_opts,
            password,
            certificate,
            private_key,
            acme,
            users,
            obfs,
            obfs_password,
            sni_guard,
            masquerade,
        } => {
            let name = common_opts.name@;
            if password@.len() == 0 && users@.len() == 0 {
                hysteria2_text(name, "password or users is required"@)
            } else if certificate is Some != private_key is Some {
                hysteria2_text(
                    name,
                    "certificate and private-key must both be set or both omitted"@,
                )
            } else if acme is Some && certificate is Some {
                hysteria2_text(name, "acme cannot be used with certificate or private-key"@)
            } else if acme is Some && acme_complaint(name, acme->0@) is Some {
                acme_complaint(name, acme->0@)
            } else if obfs_complaint(
                name,
                crate::config::parts::maybe_obfs(obfs),
                maybe_view(obfs_password),
            ) is Some {
                obfs_complaint(
                    name,
                    crate::config::parts::maybe_obfs(obfs),
                    maybe_view(obfs_password),
                )
            } else if masquerade is Some && masquerade_complaint(name, masquerade->0@) is Some {
                masquerade_complaint(name, masquerade->0@)
            } else {
                users_complaint(name, users@, users@.len() as int)
            }
        },
        _ => None,
    }
}

fn validate_hysteria2_inbound(listener: &InboundOpts) -> (message: Option<String>)
    requires
        listener is Hysteria2,
    ensures
        maybe_view(message) == listener_complaint(*listener),
{
    match listener {
        InboundOpts::Hysteria2 {
            common_opts,
            password,
            certificate,
            private_key,
            acme,
            users,
            obfs,
            obfs_password,
            sni_guard: _,
            masquerade,
        } => {
            let name: &str = common_opts.name.as_str();
            if password.as_str().is_empty() && users.len() == 0 {
                return hysteria2_complain(name, "password or users is required");
            }
            if certificate.is_some() != private_key.is_some() {
                return hysteria2_complain(
                    name,
                    "certificate and private-key must both be set or both omitted",
                );
            }
            if acme.is_some() && certificate.is_some() {
                return hysteria2_complain(
                    name,
                    "acme cannot be used with certificate or private-key",
                );
            }
            if let Some(acme) = acme {
                let message = check_acme(name, acme);
                if message.is_some() {
                    return message;
                }
            }
            let message = check_obfs(name, obfs, obfs_password);
            if message.is_some() {
                return message;
            }
            if let Some(masquerade) = masquerade {
                let message = validate_hysteria2_masquerade(name, masquerade);
                if message.is_some() {
                    return message;
                }
            }
            check_users(name, users)
        },
        _ => None,
    }
}

impl InboundOpts {
    /// Whether the listener can work; if not, the first complaint about it.
    pub fn validate(&self) -> (verdict: Result<(), ConfigError>)
        ensures
            match verdict {
                Ok(()) => listener_complaint(*self) is None,
                Err(ConfigError::InvalidConfig(text)) => listener_complaint(*self) == Some(text@),
            },
    {
        let message = match self {
            InboundOpts::Vless { common_opts, uuid, users, transport } => validate_vless_inbound(
                common_opts.name.as_str(),
                uuid,
                users,
                transport,
            ),
            InboundOpts::Hysteria2 { .. } => validate_hysteria2_inbound(self),
            _ => None,
        };
        match message {
            Some(text) => Err(ConfigError::InvalidConfig(text)),
            None => Ok(()),
        }
    }
}

} // verus!
