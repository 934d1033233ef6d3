//! What a configured listener is run by.

use vstd::prelude::*;
use vstd::string::*;

use crate::config::listener::{InboundOpts, InboundProviderDef, InboundUser};
use crate::config::parts::{
    header_views, vless_user_views, AcmeKey, CloudflareKey, CommonInboundOpts, HeaderKey,
    Hysteria2Acme, Hysteria2AcmeChallenge, Hysteria2AcmeCloudflareDns, Hysteria2InboundObfs,
    Hysteria2Masquerade, Hysteria2MasqueradeType, Hysteria2SniGuard, MasqueradeKey,
    ShadowQuicInboundUser, ShadowQuicJlsUpstream, VlessInboundTransport, VlessInboundUser,
    VlessUserKey,
};
use crate::config::validate::{
    as_str, filled_in, headers_complaint, is_taken, listener_complaint, vless_users_complaint,
    ConfigError,
};
use crate::hysteria2::acme::{
    default_hysteria2_acme_cache_dir, safe_name_spec, AcmeChallenge, AcmeOptions, CloudflareAuth,
    CloudflareDnsOptions,
};
use crate::hysteria2::inbound::{
    Hysteria2Inbound, InboundOptions as Hysteria2Options, ObfsOptions, SetupError,
};
use crate::hysteria2::masquerade::{header_error, MasqueradeOptions};
use crate::hysteria2::sni::SniGuardMode;
use crate::net::addr::SocketAddr;
use crate::text::{
    ascii_lower_text, copy_text, joined, maybe_view, same_ignoring_case, trim, trimmed,
};
use crate::vless::error::VlessError;
use crate::vless::ids::uuid_parsed;
use crate::vless::inbound::{
    mapped_users, user_views, InboundOptions as VlessOptions, VlessInbound,
    VlessInboundUser as RuntimeUser, WsInboundOptions,
};

verus! {

/// How long a published record is left alone before it is looked for.
pub const DEFAULT_PROPAGATION_DELAY_SECS: u64 = 30;

/// Where a listener listens, and whom it serves.
#[derive(Clone, Copy, Debug, PartialEq, Eq, Structural)]
pub struct PlainOptions {
    pub addr: SocketAddr,
    pub allow_lan: bool,
    pub fw_mark: Option<u32>,
}

/// What a listener is run by.
#[allow(inconsistent_fields)]
pub enum Handler {
    Http(PlainOptions),
    Socks(PlainOptions),
    Mixed(PlainOptions),
    TProxy(PlainOptions),
    Redir(PlainOptions),
    Tunnel { options: PlainOptions, network: Vec<String>, target: String },
    Shadowsocks {
        options: PlainOptions,
        udp: bool,
        cipher: String,
        password: String,
        users: Vec<InboundUser>,
    },
    Anytls {
        options: PlainOptions,
        password: String,
        certificate: Option<String>,
        private_key: Option<String>,
        fallback: Option<String>,
        users: Vec<InboundUser>,
    },
    Vless(VlessInbound),
    Hysteria2 { inbound: Hysteria2Inbound, users: Vec<InboundUser> },
    ShadowQuic {
        options: PlainOptions,
        username: Option<String>,
        password: Option<String>,
        users: Vec<ShadowQuicInboundUser>,
        server_name: Option<String>,
        jls_upstream: ShadowQuicJlsUpstream,
        alpn: Option<Vec<String>>,
        zero_rtt: Option<bool>,
        congestion_control: Option<String>,
        initial_mtu: Option<u16>,
        min_mtu: Option<u16>,
        gso: Option<bool>,
        mtu_discovery: Option<bool>,
        blackhole_detection: Option<bool>,
    },
}

/// Why a listener is left out.
#[derive(Debug)]
pub enum Skipped {
    TProxyPlatform,
    RedirPlatform,
    VlessTransport(String),
    Vless(VlessError),
    Hysteria2(SetupError),
}

impl Skipped {
    pub open spec fn message_spec(self) -> Seq<char> {
        match self {
            Skipped::TProxyPlatform => "tproxy is not supported on this platform"@,
            Skipped::RedirPlatform => "redir is not supported on this platform"@,
            Skipped::VlessTransport(name) => "vless inbound "@ + name@
                + " only supports websocket transport"@,
            Skipped::Vless(error) => "vless inbound failed to init: "@ + error.message_spec(),
            Skipped::Hysteria2(error) => "hysteria2 inbound failed to init: "@
                + error.message_spec(),
        }
    }

    pub fn message(&self) -> (text: String)
        ensures
            text@ == self.message_spec(),
    {
        match self {
            Skipped::TProxyPlatform => "tproxy is not supported on this platform".to_owned(),
            Skipped::RedirPlatform => "redir is not supported on this platform".to_owned(),
            Skipped::VlessTransport(name) => {
                let mut text = joined("vless inbound ", name.as_str());
                text.append(" only supports websocket transport");
                text
            },
            Skipped::Vless(error) => joined(
                "vless inbound failed to init: ",
                error.message().as_str(),
            ),
            Skipped::Hysteria2(error) => joined(
                "hysteria2 inbound failed to init: ",
                error.message().as_str(),
            ),
        }
    }
}

pub open spec fn plain_spec(common: CommonInboundOpts) -> PlainOptions {
    PlainOptions {
        addr: SocketAddr::new_spec(common.listen.0, common.port),
        allow_lan: common.allow_lan,
        fw_mark: common.fw_mark,
    }
}

fn plain(common: &CommonInboundOpts) -> (options: PlainOptions)
    ensures
        options == plain_spec(*common),
{
    PlainOptions {
        addr: SocketAddr::new(common.listen.0, common.port),
        allow_lan: common.allow_lan,
        fw_mark: common.fw_mark,
    }
}

/// Whether a zone's account is given in full: with a key its address, else a token.
pub open spec fn cloudflare_given(cloudflare: CloudflareKey) -> bool {
    if filled_in(cloudflare.api_key) is Some {
        cloudflare.auth_email is Some
    } else {
        cloudflare.api_token is Some
    }
}

/// Whether all that a challenge needs is given.
pub open spec fn acme_given(acme: AcmeKey) -> bool {
    acme.challenge == Hysteria2AcmeChallenge::Dns01 ==> {
        &&& acme.dns is Some
        &&& acme.dns->0.cloudflare is Some
        &&& cloudflare_given(acme.dns->0.cloudflare->0)
    }
}

pub open spec fn masquerade_given(masquerade: MasqueradeKey) -> bool {
    match masquerade.typ {
        Hysteria2MasqueradeType::NotFound => true,
        Hysteria2MasqueradeType::File => masquerade.file is Some,
        Hysteria2MasqueradeType::Proxy => masquerade.proxy is Some,
        Hysteria2MasqueradeType::String => masquerade.string is Some,
    }
}

/// Whether a listener gives all that running it takes.
pub open spec fn complete(listener: InboundOpts) -> bool {
    match listener {
        InboundOpts::Hysteria2 {
            common_opts,
            password,
            certificate,
            private_key,
            acme,
            users,
            obfs,
            obfs_password,
            sni_guard,
            masquerade,
        } => {
            &&& acme is Some ==> acme_given(acme->0@)
            &&& obfs is Some ==> obfs->0@.password(maybe_view(obfs_password)) is Some
            &&& masquerade is Some ==> masquerade_given(masquerade->0@)
        },
        _ => true,
    }
}

/// A listener without complaint gives all that running it takes.
pub proof fn validated_listeners_are_complete(listener: InboundOpts)
    requires
        listener_complaint(listener) is None,
    ensures
        complete(listener),
{
}

/// The account that is used: that of the key where one is given, else that of
/// the token.
pub open spec fn is_auth(cloudflare: CloudflareKey, auth: CloudflareAuth) -> bool {
    match filled_in(cloudflare.api_key) {
        Some(own) => {
            &&& auth matches CloudflareAuth::GlobalKey { email, key }
            &&& email@ == trimmed(cloudflare.auth_email->0)
            &&& key@ == own
        },
        None => {
            &&& auth matches CloudflareAuth::ApiToken(token)
            &&& token@ == trimmed(cloudflare.api_token->0)
        },
    }
}

pub open spec fn is_dns_options(cloudflare: CloudflareKey, options: CloudflareDnsOptions) -> bool {
    &&& is_auth(cloudflare, options.auth)
    &&& maybe_view(options.zone_id) == cloudflare.zone_id
    &&& options.ttl == cloudflare.ttl
    &&& options.propagation_delay_secs == match cloudflare.propagation_delay {
        Some(seconds) => seconds,
        None => DEFAULT_PROPAGATION_DELAY_SECS,
    }
}

/// How a certificate is to be got, as it was configured.
pub open spec fn is_acme_options(acme: AcmeKey, options: AcmeOptions) -> bool {
    &&& options.domain@ == acme.domain
    &&& maybe_view(options.email) == acme.email
    &&& options.production == acme.production
    &&& options.cache_dir@ == match acme.cache_dir {
        Some(dir) => dir,
        None => "./hysteria2-acme-cache/"@ + safe_name_spec(acme.domain),
    }
    &&& match acme.challenge {
        Hysteria2AcmeChallenge::TlsAlpn01 => options.challenge is TlsAlpn01,
        Hysteria2AcmeChallenge::Dns01 => {
            &&& options.challenge matches AcmeChallenge::Dns01 { cloudflare }
            &&& is_dns_options(acme.dns->0.cloudflare->0, cloudflare)
        },
    }
}

fn trimmed_text(text: &Option<String>) -> (trim_text: String)
    requires
        text is Some,
    ensures
        trim_text@ == trimmed(text->0@),
{
    match text {
        Some(t) => trim(t.as_str()),
        None => String::new(),
    }
}

fn dns_options(cloudflare: Hysteria2AcmeCloudflareDns) -> (options: CloudflareDnsOptions)
    requires
        cloudflare_given(cloudflare@),
    ensures
        is_dns_options(cloudflare@, options),
{
    let key = match &cloudflare.api_key {
        Some(key) => trim(key.as_str()),
        None => String::new(),
    };
    let auth = if !key.as_str().is_empty() {
        CloudflareAuth::GlobalKey { email: trimmed_text(&cloudflare.auth_email), key }
    } else {
        CloudflareAuth::ApiToken(trimmed_text(&cloudflare.api_token))
    };
    let propagation_delay_secs: u64 = match cloudflare.propagation_delay {
        Some(seconds) => seconds,
        None => DEFAULT_PROPAGATION_DELAY_SECS,
    };
    CloudflareDnsOptions {
        auth,
        zone_id: cloudflare.zone_id,
        ttl: cloudflare.ttl,
        propagation_delay_secs,
    }
}

fn acme_options(acme: Hysteria2Acme) -> (options: AcmeOptions)
    requires
        acme_given(acme@),
    ensures
        is_acme_options(acme@, options),
{
    let challenge = match acme.challenge {
        Hysteria2AcmeChallenge::TlsAlpn01 => AcmeChallenge::TlsAlpn01,
        Hysteria2AcmeChallenge::Dns01 => match acme.dns {
            Some(dns) => match dns.cloudflare {
                Some(cloudflare) => AcmeChallenge::Dns01 { cloudflare: dns_options(cloudflare) },
                None => AcmeChallenge::TlsAlpn01,
            },
            None => AcmeChallenge::TlsAlpn01,
        },
    };
    let cache_dir = match acme.cache_dir {
        Some(dir) => dir,
        None => default_hysteria2_acme_cache_dir(acme.domain.as_str()),
    };
    AcmeOptions {
        domain: acme.domain,
        email: acme.email,
        cache_dir,
        production: acme.production,
        challenge,
    }
}

/// What strangers are to get, as it was configured.
pub open spec fn is_masquerade_options(
    masquerade: Option<MasqueradeKey>,
    options: MasqueradeOptions,
) -> bool {
    match masquerade {
        None => options is Default,
        Some(m) => match m.typ {
            Hysteria2MasqueradeType::NotFound => options is NotFound,
            Hysteria2MasqueradeType::File => {
                &&& options matches MasqueradeOptions::File { dir }
                &&& dir@ == m.file->0.dir
            },
            Hysteria2MasqueradeType::Proxy => {
                &&& options matches MasqueradeOptions::Proxy {
                    url,
                    rewrite_host,
                    x_forwarded,
                    insecure,
                }
                &&& url@ == m.proxy->0.url
                &&& rewrite_host == m.proxy->0.rewrite_host
                &&& x_forwarded == m.proxy->0.x_forwarded
                &&& insecure == m.proxy->0.insecure
            },
            Hysteria2MasqueradeType::String => {
                &&& options matches MasqueradeOptions::String { content, headers, status_code }
                &&& content@ == m.string->0.content
                &&& header_views(headers@) == m.string->0.headers
                &&& status_code == m.string->0.status_code
            },
        },
    }
}

pub open spec fn maybe_masquerade_view(masquerade: Option<Hysteria2Masquerade>) -> Option<
    MasqueradeKey,
> {
    match masquerade {
        Some(m) => Some(m@),
        None => None,
    }
}

fn masquerade_options(masquerade: Option<Hysteria2Masquerade>) -> (options: MasqueradeOptions)
    requires
        masquerade is Some ==> masquerade_given(masquerade->0@),
    ensures
        is_masquerade_options(maybe_masquerade_view(masquerade), options),
{
    match masquerade {
        None => MasqueradeOptions::Default,
        Some(m) => match m.typ {
            Hysteria2MasqueradeType::NotFound => MasqueradeOptions::NotFound,
            Hysteria2MasqueradeType::File => match m.file {
                Some(file) => MasqueradeOptions::File { dir: file.dir },
                None => MasqueradeOptions::Default,
            },
            Hysteria2MasqueradeType::Proxy => match m.proxy {
                Some(proxy) => MasqueradeOptions::Proxy {
                    url: proxy.url,
                    rewrite_host: proxy.rewrite_host,
                    x_forwarded: proxy.x_forwarded,
                    insecure: proxy.insecure,
                },
                None => MasqueradeOptions::Default,
            },
            Hysteria2MasqueradeType::String => match m.string {
                Some(string) => MasqueradeOptions::String {
                    content: string.content,
                    headers: string.headers,
                    status_code: string.status_code,
                },
                None => MasqueradeOptions::Default,
            },
        },
    }
}

/// The obfuscation, as it was configured.
pub open spec fn is_obfs_options(
    obfs: Option<Hysteria2InboundObfs>,
    obfs_password: Option<String>,
    options: Option<ObfsOptions>,
) -> bool {
    match obfs {
        None => options is None,
        Some(o) => {
            &&& options matches Some(ObfsOptions::Salamander { password })
            &&& Some(password@) == o@.password(maybe_view(obfs_password))
        },
    }
}

fn obfs_options(obfs: &Option<Hysteria2InboundObfs>, obfs_password: &Option<String>) -> (options:
    Option<ObfsOptions>)
    requires
        obfs is Some ==> obfs->0@.password(maybe_view(*obfs_password)) is Some,
    ensures
        is_obfs_options(*obfs, *obfs_password, options),
{
    match obfs {
        None => None,
        Some(o) => match o.salamander_password(as_str(obfs_password)) {
            Some(password) => Some(ObfsOptions::Salamander { password: password.to_owned() }),
            None => None,
        },
    }
}

pub open spec fn guard_spec(guard: Hysteria2SniGuard) -> SniGuardMode {
    match guard {
        Hysteria2SniGuard::Disable => SniGuardMode::Disable,
        Hysteria2SniGuard::DnsSan => SniGuardMode::DnsSan,
        Hysteria2SniGuard::Strict => SniGuardMode::Strict,
    }
}

fn guard_mode(guard: Hysteria2SniGuard) -> (mode: SniGuardMode)
    ensures
        mode == guard_spec(guard),
{
    match guard {
        Hysteria2SniGuard::Disable => SniGuardMode::Disable,
        Hysteria2SniGuard::DnsSan => SniGuardMode::DnsSan,
        Hysteria2SniGuard::Strict => SniGuardMode::Strict,
    }
}

/// Whether options say what a listener does.
pub open spec fn is_hysteria2_options(
    listener: InboundOpts,
    opts: Hysteria2Options,
) -> bool {
    match listener {
        InboundOpts::Hysteria2 {
            common_opts,
            password,
            certificate,
            private_key,
            acme,
            users,
            obfs,
            obfs_password,
            sni_guard,
            masquerade,
        } => {
            &&& opts.addr == plain_spec(common_opts).addr
            &&& opts.allow_lan == common_opts.allow_lan
            &&& opts.fw_mark == common_opts.fw_mark
            &&& opts.password@ == password@
            &&& opts.certificate == certificate
            &&& opts.private_key == private_key
            &&& match acme {
                Some(acme) => opts.acme is Some && is_acme_options(acme@, opts.acme->0),
                None => opts.acme is None,
            }
            &&& is_obfs_options(obfs, obfs_password, opts.obfs)
            &&& opts.sni_guard == guard_spec(sni_guard)
            &&& is_masquerade_options(maybe_masquerade_view(masquerade), opts.masquerade)
        },
        _ => false,
    }
}

/// Whether options say what a listener does.
pub open spec fn is_vless_options(
    listener: InboundOpts,
    opts: VlessOptions,
) -> bool {
    match listener {
        InboundOpts::Vless { common_opts, uuid, users, transport } => {
            &&& opts.addr == plain_spec(common_opts).addr
            &&& opts.allow_lan == common_opts.allow_lan
            &&& opts.fw_mark == common_opts.fw_mark
            &&& opts.uuid == uuid
            &&& user_views(opts.users@) == vless_user_views(users@)
            &&& opts.ws.path@ == transport.path@
            &&& opts.ws.early_data_header_name == transport.early_data_header_name
        },
        _ => false,
    }
}

fn runtime_users(users: Vec<VlessInboundUser>) -> (own: Vec<RuntimeUser>)
    ensures
        user_views(own@) == vless_user_views(users@),
{
    let mut own: Vec<RuntimeUser> = Vec::new();
    let mut i: usize = 0;
    while i < users.len()
        invariant
            i <= users@.len(),
            own@.len() == i,
            forall|j: int| 0 <= j < i ==> (#[trigger] own@[j])@ == users@[j]@,
        decreases users@.len() - i,
    {
        own.push(
            RuntimeUser {
                uuid: users[i].uuid.as_str().to_owned(),
                name: copy_text(&users[i].name),
            },
        );
        i += 1;
    }
    assert(user_views(own@) =~= vless_user_views(users@));
    own
}

/// What setting a listener up gives.
pub open spec fn vless_set_up(
    listener: InboundOpts,
    made: Result<VlessInbound, VlessError>,
) -> bool {
    exists|opts: VlessOptions| #[trigger]
        is_vless_options(listener, opts) && crate::vless::inbound::setup_matches(opts, made)
}

/// What setting a listener up gives.
pub open spec fn hysteria2_set_up(
    listener: InboundOpts,
    made: Result<Hysteria2Inbound, SetupError>,
) -> bool {
    exists|opts: Hysteria2Options| #[trigger]
        is_hysteria2_options(listener, opts) && crate::hysteria2::inbound::setup_matches(
            opts,
            made,
        )
}

/// What a listener is run by, or why it is left out.
pub open spec fn handler_matches(
    listener: InboundOpts,
    transparent: bool,
    made: Result<Handler, Skipped>,
) -> bool {
    match listener {
        InboundOpts::Http { common_opts } => made == Ok::<Handler, Skipped>(
            Handler::Http(plain_spec(common_opts)),
        ),
        InboundOpts::Socks { common_opts, udp } => made == Ok::<Handler, Skipped>(
            Handler::Socks(plain_spec(common_opts)),
        ),
        InboundOpts::Mixed { common_opts, udp } => made == Ok::<Handler, Skipped>(
            Handler::Mixed(plain_spec(common_opts)),
        ),
        InboundOpts::TProxy { common_opts, udp } => made == if transparent {
            Ok::<Handler, Skipped>(Handler::TProxy(plain_spec(common_opts)))
        } else {
            Err(Skipped::TProxyPlatform)
        },
        InboundOpts::Redir { common_opts } => made == if transparent {
            Ok::<Handler, Skipped>(Handler::Redir(plain_spec(common_opts)))
        } else {
            Err(Skipped::RedirPlatform)
        },
        InboundOpts::Tunnel { common_opts, network, target } => made == Ok::<Handler, Skipped>(
            Handler::Tunnel { options: plain_spec(common_opts), network, target },
        ),
        InboundOpts::Shadowsocks { common_opts, udp, cipher, password, users } => made == Ok::<
            Handler,
            Skipped,
        >(
            Handler::Shadowsocks {
                options: plain_spec(common_opts),
                udp,
                cipher,
                password,
                users,
            },
        ),
        InboundOpts::Anytls {
            common_opts,
            password,
            certificate,
            private_key,
            users,
            fallback,
        } => made == Ok::<Handler, Skipped>(
            Handler::Anytls {
                options: plain_spec(common_opts),
                password,
                certificate,
                private_key,
                fallback,
                users,
            },
        ),
        InboundOpts::Vless { common_opts, uuid, users, transport } => if ascii_lower_text(
            transport.typ@,
        ) != ascii_lower_text("ws"@) {
            made matches Err(Skipped::VlessTransport(name)) && name@ == common_opts.name@
        } else {
            match made {
                Ok(Handler::Vless(inbound)) => vless_set_up(listener, Ok(inbound)),
                Err(Skipped::Vless(error)) => vless_set_up(listener, Err(error)),
                _ => false,
            }
        },
        InboundOpts::Hysteria2 {
            common_opts,
            password,
            certificate,
            private_key,
            acme,
            users,
            obfs,
            obfs_password,
            sni_guard,
            masquerade,
        } => match made {
            Ok(Handler::Hysteria2 { inbound, users: served }) => served == users
                && hysteria2_set_up(listener, Ok(inbound)),
            Err(Skipped::Hysteria2(error)) => hysteria2_set_up(listener, Err(error)),
            _ => false,
        },
        InboundOpts::ShadowQuic {
            common_opts,
            username,
            password,
            users,
            server_name,
            jls_upstream,
            alpn,
            zero_rtt,
            congestion_control,
            initial_mtu,
            min_mtu,
            gso,
            mtu_discovery,
            blackhole_detection,
        } => made == Ok::<Handler, Skipped>(
            Handler::ShadowQuic {
                options: plain_spec(common_opts),
                username,
                password,
                users,
                server_name,
                jls_upstream,
                alpn,
                zero_rtt,
                congestion_control,
                initial_mtu,
                min_mtu,
                gso,
                mtu_discovery,
                blackhole_detection,
            },
        ),
    }
}

fn build_vless(
    common_opts: CommonInboundOpts,
    uuid: Option<String>,
    users: Vec<VlessInboundUser>,
    transport: VlessInboundTransport,
) -> (made: Result<Handler, Skipped>)
    ensures
        handler_matches(
            InboundOpts::Vless { common_opts, uuid, users, transport },
            true,
            made,
        ),
{
    if !same_ignoring_case(transport.typ.as_str(), "ws") {
        return Err(Skipped::VlessTransport(common_opts.name));
    }
    let ghost listener = InboundOpts::Vless { common_opts, uuid, users, transport };
    let options = plain(&common_opts);
    let opts = VlessOptions {
        addr: options.addr,
        allow_lan: options.allow_lan,
        fw_mark: options.fw_mark,
        uuid,
        users: runtime_users(users),
        ws: WsInboundOptions {
            path: transport.path,
            early_data_header_name: transport.early_data_header_name,
        },
    };
    assert(is_vless_options(listener, opts));
    let ghost given = opts;
    let made = VlessInbound::new(opts);
    assert(crate::vless::inbound::setup_matches(given, made));
    match made {
        Ok(inbound) => Ok(Handler::Vless(inbound)),
        Err(error) => Err(Skipped::Vless(error)),
    }
}

fn build_hysteria2(listener: InboundOpts) -> (made: Result<Handler, Skipped>)
    requires
        listener is Hysteria2,
        complete(listener),
    ensures
        handler_matches(listener, true, made),
{
    let ghost whole = listener;
    match listener {
        InboundOpts::Hysteria2 {
            common_opts,
            password,
            certificate,
            private_key,
            acme,
            users,
            obfs,
            obfs_password,
            sni_guard,
            masquerade,
        } => {
            let options = plain(&common_opts);
            let acme = match acme {
                Some(acme) => Some(acme_options(acme)),
                None => None,
            };
            let obfs = obfs_options(&obfs, &obfs_password);
            let opts = Hysteria2Options {
                addr: options.addr,
                password,
                certificate,
                private_key,
                acme,
                obfs,
                sni_guard: guard_mode(sni_guard),
                masquerade: masquerade_options(masquerade),
                allow_lan: options.allow_lan,
                fw_mark: options.fw_mark,
            };
            assert(is_hysteria2_options(whole, opts));
            let ghost given = opts;
            let made = Hysteria2Inbound::new(opts);
            assert(crate::hysteria2::inbound::setup_matches(given, made));
            match made {
                Ok(inbound) => Ok(Handler::Hysteria2 { inbound, users }),
                Err(error) => Err(Skipped::Hysteria2(error)),
            }
        },
        _ => Err(Skipped::RedirPlatform),
    }
}

/// What a listener is run by, or why it is left out. Traffic is redirected
/// only where the platform can do so.
pub fn build_handler(listener: InboundOpts, transparent: bool) -> (made: Result<Handler, Skipped>)
    requires
        complete(listener),
    ensures
        handler_matches(listener, transparent, made),
{
    match listener {
        InboundOpts::Http { common_opts } => Ok(Handler::Http(plain(&common_opts))),
        InboundOpts::Socks { common_opts, udp: _ } => Ok(Handler::Socks(plain(&common_opts))),
        InboundOpts::Mixed { common_opts, udp: _ } => Ok(Handler::Mixed(plain(&common_opts))),
        InboundOpts::TProxy { common_opts, udp: _ } => {
            if transparent {
                Ok(Handler::TProxy(plain(&common_opts)))
            } else {
                Err(Skipped::TProxyPlatform)
            }
        },
        InboundOpts::Redir { common_opts } => {
            if transparent {
                Ok(Handler::Redir(plain(&common_opts)))
            } else {
                Err(Skipped::RedirPlatform)
            }
        },
        InboundOpts::Tunnel { common_opts, network, target } => Ok(
            Handler::Tunnel { options: plain(&common_opts), network, target },
        ),
        InboundOpts::Shadowsocks { common_opts, udp, cipher, password, users } => Ok(
            Handler::Shadowsocks { options: plain(&common_opts), udp, cipher, password, users },
        ),
        InboundOpts::Anytls {
            common_opts,
            password,
            certificate,
            private_key,
            users,
            fallback,
        } => Ok(
            Handler::Anytls {
                options: plain(&common_opts),
                password,
                certificate,
                private_key,
                fallback,
                users,
            },
        ),
        InboundOpts::Vless { common_opts, uuid, users, transport } => build_vless(
            common_opts,
            uuid,
            users,
            transport,
        ),
        InboundOpts::ShadowQuic {
            common_opts,
            username,
            password,
            users,
            server_name,
            jls_upstream,
            alpn,
            zero_rtt,
            congestion_control,
            initial_mtu,
            min_mtu,
            gso,
            mtu_discovery,
            blackhole_detection,
        } => Ok(
            Handler::ShadowQuic {
                options: plain(&common_opts),
                username,
                password,
                users,
                server_name,
                jls_upstream,
                alpn,
                zero_rtt,
                congestion_control,
                initial_mtu,
                min_mtu,
                gso,
                mtu_discovery,
                blackhole_detection,
            },
        ),
        other => build_hysteria2(other),
    }
}

/// What runs for a listener.
#[derive(Clone, Copy, Debug, PartialEq, Eq, Structural)]
pub enum Runner {
    Tcp,
    Udp,
}

/// What runs for a listener that handles streams, packets or both; nothing
/// where it handles neither.
pub fn runners(handles_tcp: bool, handles_udp: bool) -> (running: Option<Vec<Runner>>)
    ensures
        match running {
            Some(list) => (handles_tcp || handles_udp) && list@ == (if handles_tcp {
                seq![Runner::Tcp]
            } else {
                Seq::empty()
            }) + (if handles_udp {
                seq![Runner::Udp]
            } else {
                Seq::empty()
            }),
            None => !handles_tcp && !handles_udp,
        },
{
    let mut list: Vec<Runner> = Vec::new();
    if handles_tcp {
        list.push(Runner::Tcp);
    }
    if handles_udp {
        list.push(Runner::Udp);
    }
    if list.len() == 0 {
        None
    } else {
        assert(list@ =~= (if handles_tcp {
            seq![Runner::Tcp]
        } else {
            Seq::empty()
        }) + (if handles_udp {
            seq![Runner::Udp]
        } else {
            Seq::empty()
        }));
        Some(list)
    }
}

proof fn good_headers_pass(headers: Seq<HeaderKey>, count: int)
    requires
        headers_complaint(headers, count) is None,
    ensures
        header_error(headers, count) is None,
    decreases count,
{
    if count > 0 {
        good_headers_pass(headers, count - 1);
    }
}

proof fn good_users_pass(
    name: Seq<char>,
    uuid: Option<Seq<char>>,
    users: Seq<VlessUserKey>,
    count: int,
)
    requires
        uuid is Some ==> uuid_parsed(uuid->0) is Ok,
        vless_users_complaint(name, uuid, users, count) is None,
        0 <= count,
    ensures
        mapped_users(uuid, users, count) is Ok,
        forall|id: u128|
            #[trigger] mapped_users(uuid, users, count)->Ok_0.contains_key(id) <==> is_taken(
                uuid,
                users,
                count,
                id,
            ),
    decreases count,
{
    if count > 0 {
        good_users_pass(name, uuid, users, count - 1);
        let id = uuid_parsed(users[count - 1].uuid)->Ok_0;
        assert(!is_taken(uuid, users, count - 1, id));
        let before = mapped_users(uuid, users, count - 1)->Ok_0;
        assert(!before.contains_key(id));
        let after = mapped_users(uuid, users, count)->Ok_0;
        assert forall|other: u128|
            #[trigger] after.contains_key(other) <==> is_taken(uuid, users, count, other) by {
            assert(before.contains_key(other) <==> is_taken(uuid, users, count - 1, other));
            if other == id {
                assert(uuid_parsed(users[count - 1].uuid) == Ok::<u128, Seq<char>>(other));
            }
        }
    }
}

/// A listener without complaint is run: nothing that its handler checks when
/// it is set up can fail, on a platform that can do what is asked for.
pub proof fn validated_listeners_run(listener: InboundOpts, made: Result<Handler, Skipped>)
    requires
        listener_complaint(listener) is None,
        handler_matches(listener, true, made),
    ensures
        made is Ok,
{
    match listener {
        InboundOpts::Vless { common_opts, uuid, users, transport } => {
            let keys = vless_user_views(users@);
            good_users_pass(
                common_opts.name@,
                maybe_view(uuid),
                keys,
                keys.len() as int,
            );
            assert(keys.len() == users@.len());
            if let Err(Skipped::Vless(error)) = made {
                let opts = choose|opts: VlessOptions| #[trigger]
                    is_vless_options(listener, opts) && crate::vless::inbound::setup_matches(
                        opts,
                        Err(error),
                    );
                assert(user_views(opts.users@).len() == opts.users@.len());
            }
        },
        InboundOpts::Hysteria2 {
            common_opts,
            password,
            certificate,
            private_key,
            acme,
            users,
            obfs,
            obfs_password,
            sni_guard,
            masquerade,
        } => {
            if masquerade is Some && masquerade->0@.string is Some && headers_complaint(
                masquerade->0@.string->0.headers,
                masquerade->0@.string->0.headers.len() as int,
            ) is None {
                let headers = masquerade->0@.string->0.headers;
                good_headers_pass(headers, headers.len() as int);
            }
            if let Err(Skipped::Hysteria2(error)) = made {
                let opts = choose|opts: Hysteria2Options| #[trigger]
                    is_hysteria2_options(listener, opts)
                        && crate::hysteria2::inbound::setup_matches(opts, Err(error));
                if let MasqueradeOptions::String { content, headers, status_code }
                    = opts.masquerade {
                    assert(header_views(headers@).len() == headers@.len());
                }
            }
        },
        _ => {},
    }
}

/// Only a configured user gets in: an inbound knows an identifier exactly if
/// it is the common one or that of a user.
pub proof fn identifiers_are_those_configured(
    name: Seq<char>,
    uuid: Option<Seq<char>>,
    users: Seq<VlessUserKey>,
    id: u128,
)
    requires
        uuid is Some ==> uuid_parsed(uuid->0) is Ok,
        vless_users_complaint(name, uuid, users, users.len() as int) is None,
    ensures
        mapped_users(uuid, users, users.len() as int) is Ok,
        mapped_users(uuid, users, users.len() as int)->Ok_0.contains_key(id) == is_taken(
            uuid,
            users,
            users.len() as int,
            id,
        ),
{
    good_users_pass(name, uuid, users, users.len() as int);
}

/// The definition of a provider of listeners: `name` is what its text calls it,
/// `read` what the text says or why it cannot be read.
pub fn provider_definition(
    name: Option<&str>,
    read: Result<InboundProviderDef, String>,
) -> (definition: Result<InboundProviderDef, ConfigError>)
    ensures
        match (name, read) {
            (None, _) => definition matches Err(ConfigError::InvalidConfig(text)) && text@
                == "missing field `name` in inbound provider"@,
            (Some(name), Err(error)) => definition matches Err(ConfigError::InvalidConfig(text))
                && text@ == "inbound provider "@ + name@ + ": "@ + error@,
            (Some(_), Ok(provider)) => definition == Ok::<InboundProviderDef, ConfigError>(
                provider,
            ),
        },
{
    let name: &str = match name {
        Some(name) => name,
        None => {
            return Err(
                ConfigError::InvalidConfig(
                    "missing field `name` in inbound provider".to_owned(),
                ),
            );
        },
    };
    match read {
        Ok(provider) => Ok(provider),
        Err(error) => {
            let mut text = joined("inbound provider ", name);
            text.append(": ");
            text.append(error.as_str());
            Err(ConfigError::InvalidConfig(text))
        },
    }
}

} // verus!
