//! The inbound itself: its options, its certificate and its streams.

use vstd::prelude::*;
use vstd::string::*;

use crate::config::listener::InboundUser;
use crate::hysteria2::acme::{
    contact_text, tls_alpn_contact, AcmeChallenge, AcmeOptions, Dns01AcmeOptions,
};
use crate::hysteria2::auth::{
    build_user_map, is_user_map, source_allowed, source_allowed_spec, UserMap,
};
use crate::hysteria2::codec::{Hy2TcpReq, Hy2TcpRespMsg};
use crate::hysteria2::error::ErrorKind;
use crate::hysteria2::masquerade::{
    masquerade_matches, Masquerade, MasqueradeError, MasqueradeOptions,
};
use crate::hysteria2::sni::SniGuardMode;
use crate::net::addr::{IpAddr, SocketAddr, SocksAddr};

verus! {

pub const HYSTERIA2_HANDSHAKE_TIMEOUT_SECS: u64 = 10;

pub const HYSTERIA2_AUTH_TIMEOUT_SECS: u64 = 10;

pub const HYSTERIA2_TCP_REQUEST_TIMEOUT_SECS: u64 = 10;

pub const HYSTERIA2_ACME_TLS_TIMEOUT_SECS: u64 = 10;

pub const UDP_SESSION_CLEANUP_INTERVAL_SECS: u64 = 30;

pub const IDLE_TIMEOUT_SECS: u64 = 300;

pub const KEEP_ALIVE_SECS: u64 = 10;

pub const MAX_BIDI_STREAMS: u32 = 256;

pub const DATAGRAM_BUFFER_SIZE: usize = 0x100_0000;

/// How packets are made to look like noise.
#[derive(Clone, Debug)]
pub enum ObfsOptions {
    Salamander { password: String },
}

#[derive(Debug)]
pub struct InboundOptions {
    pub addr: SocketAddr,
    pub password: String,
    pub certificate: Option<String>,
    pub private_key: Option<String>,
    pub acme: Option<AcmeOptions>,
    pub obfs: Option<ObfsOptions>,
    pub sni_guard: SniGuardMode,
    pub masquerade: MasqueradeOptions,
    pub allow_lan: bool,
    pub fw_mark: Option<u32>,
}

/// Where the certificate comes from.
#[derive(Debug)]
pub enum CertSource {
    Files { certificate: String, private_key: String },
    Acme(AcmeOptions),
    /// One for `localhost` is made for this run.
    SelfSigned,
}

/// Why an inbound cannot be set up.
#[derive(Debug)]
pub enum SetupError {
    CertificateSource,
    /// What strangers get is wrong. The certificate's source and the guard come
    /// back: a certificate that cannot be had is complained of first.
    Masquerade { error: MasqueradeError, source: CertSource, sni_guard: SniGuardMode },
}

impl SetupError {
    pub open spec fn message_spec(self) -> Seq<char> {
        match self {
            SetupError::CertificateSource =>
                "hysteria2 inbound: certificate and private-key must both be set, both omitted, or replaced by acme"@,
            SetupError::Masquerade { error, .. } => error.message_spec(),
        }
    }

    pub fn message(&self) -> (text: String)
        ensures
            text@ == self.message_spec(),
    {
        match self {
            SetupError::CertificateSource =>
                "hysteria2 inbound: certificate and private-key must both be set, both omitted, or replaced by acme".to_owned(),
            SetupError::Masquerade { error, .. } => error.message(),
        }
    }
}

/// The certificate comes from two files, from an ACME directory or from this
/// program: anything else is refused.
pub fn certificate_source(
    certificate: Option<String>,
    private_key: Option<String>,
    acme: Option<AcmeOptions>,
) -> (source: Result<CertSource, SetupError>)
    ensures
        source == match (certificate, private_key, acme) {
            (Some(certificate), Some(private_key), None) => Ok::<CertSource, SetupError>(
                CertSource::Files { certificate, private_key },
            ),
            (None, None, Some(acme)) => Ok(CertSource::Acme(acme)),
            (None, None, None) => Ok(CertSource::SelfSigned),
            _ => Err(SetupError::CertificateSource),
        },
{
    match (certificate, private_key, acme) {
        (Some(certificate), Some(private_key), None) => Ok(
            CertSource::Files { certificate, private_key },
        ),
        (None, None, Some(acme)) => Ok(CertSource::Acme(acme)),
        (None, None, None) => Ok(CertSource::SelfSigned),
        _ => Err(SetupError::CertificateSource),
    }
}

/// How a certificate is got from an ACME directory.
#[derive(Debug)]
pub enum AcmePlan {
    TlsAlpn01 { domain: String, contact: Option<String>, cache_dir: String, production: bool },
    Dns01(Dns01AcmeOptions),
}

impl AcmeOptions {
    /// How the certificate is got.
    pub fn plan(self) -> (plan: AcmePlan)
        ensures
            match self.challenge {
                AcmeChallenge::TlsAlpn01 => {
                    &&& plan matches AcmePlan::TlsAlpn01 { domain, contact, cache_dir, production }
                    &&& domain == self.domain
                    &&& cache_dir == self.cache_dir
                    &&& production == self.production
                    &&& match self.email {
                        Some(email) => if email@.len() > 0 {
                            contact matches Some(text) && text@ == contact_text(email@)
                        } else {
                            contact is None
                        },
                        None => contact is None,
                    }
                },
                AcmeChallenge::Dns01 { cloudflare } => plan == AcmePlan::Dns01(
                    Dns01AcmeOptions {
                        domain: self.domain,
                        email: self.email,
                        cache_dir: self.cache_dir,
                        production: self.production,
                        cloudflare,
                    },
                ),
            },
    {
        let AcmeOptions { domain, email, cache_dir, production, challenge } = self;
        match challenge {
            AcmeChallenge::TlsAlpn01 => {
                let contact = match &email {
                    Some(email) => tls_alpn_contact(Some(email.as_str())),
                    None => tls_alpn_contact(None),
                };
                AcmePlan::TlsAlpn01 { domain, contact, cache_dir, production }
            },
            AcmeChallenge::Dns01 { cloudflare } => AcmePlan::Dns01(
                Dns01AcmeOptions { domain, email, cache_dir, production, cloudflare },
            ),
        }
    }
}

/// An inbound that was set up.
#[derive(Debug)]
pub struct Hysteria2Inbound {
    pub addr: SocketAddr,
    pub allow_lan: bool,
    pub fw_mark: Option<u32>,
    pub source: CertSource,
    pub sni_guard: SniGuardMode,
    pub password: String,
    pub obfs: Option<ObfsOptions>,
    pub masquerade: Masquerade,
}

impl Hysteria2Inbound {
    /// Checks the options: first where the certificate comes from, then what
    /// strangers get.
    pub fn new(opts: InboundOptions) -> (made: Result<Self, SetupError>)
        ensures
            setup_matches(opts, made),
    {
        let source = match certificate_source(opts.certificate, opts.private_key, opts.acme) {
            Ok(source) => source,
            Err(error) => {
                return Err(error);
            },
        };
        let masquerade = match Masquerade::try_from_options(opts.masquerade) {
            Ok(masquerade) => masquerade,
            Err(error) => {
                return Err(
                    SetupError::Masquerade { error, source, sni_guard: opts.sni_guard },
                );
            },
        };
        Ok(
            Self {
                addr: opts.addr,
                allow_lan: opts.allow_lan,
                fw_mark: opts.fw_mark,
                source,
                sni_guard: opts.sni_guard,
                password: opts.password,
                obfs: opts.obfs,
                masquerade,
            },
        )
    }

    /// It takes no streams of its own: everything comes over QUIC.
    pub fn handle_tcp(&self) -> (handles: bool)
        ensures
            !handles,
    {
        false
    }

    pub fn handle_udp(&self) -> (handles: bool)
        ensures
            handles,
    {
        true
    }

    /// Whether a peer may connect that reached `local_ip`, or, where that is not
    /// known, the socket that is bound to `bound`.
    pub fn admits(&self, source: SocketAddr, local_ip: Option<IpAddr>, bound: IpAddr) -> (admitted:
        bool)
        ensures
            admitted == source_allowed_spec(
                self.allow_lan,
                SocketAddr { ip: source.ip.canonical(), ..source },
                match local_ip {
                    Some(ip) => ip,
                    None => bound.canonical(),
                },
            ),
    {
        let local = match local_ip {
            Some(ip) => ip,
            None => bound.to_canonical(),
        };
        let source = SocketAddr {
            ip: source.ip.to_canonical(),
            port: source.port,
            flowinfo: source.flowinfo,
            scope_id: source.scope_id,
        };
        source_allowed(self.allow_lan, source, local)
    }

    /// Who may come in, given the present users.
    pub fn user_map(&self, users: &[InboundUser]) -> (map: UserMap)
        ensures
            map.wf(),
            is_user_map(map, users@, self.password@),
    {
        build_user_map(users, self.password.as_str())
    }
}

/// What setting an inbound up gives, its certificate coming from `source`.
pub open spec fn inbound_matches(
    opts: InboundOptions,
    source: CertSource,
    made: Result<Hysteria2Inbound, SetupError>,
) -> bool {
    match made {
        Ok(inbound) => {
            &&& masquerade_matches(opts.masquerade, Ok(inbound.masquerade))
            &&& inbound.addr == opts.addr
            &&& inbound.allow_lan == opts.allow_lan
            &&& inbound.fw_mark == opts.fw_mark
            &&& inbound.source == source
            &&& inbound.sni_guard == opts.sni_guard
            &&& inbound.password == opts.password
            &&& inbound.obfs == opts.obfs
        },
        Err(SetupError::Masquerade { error, source: kept, sni_guard }) => {
            &&& masquerade_matches(opts.masquerade, Err(error))
            &&& kept == source
            &&& sni_guard == opts.sni_guard
        },
        Err(_) => false,
    }
}

/// What setting an inbound up gives.
pub open spec fn setup_matches(
    opts: InboundOptions,
    made: Result<Hysteria2Inbound, SetupError>,
) -> bool {
    match (opts.certificate, opts.private_key, opts.acme) {
        (Some(certificate), Some(private_key), None) => inbound_matches(
            opts,
            CertSource::Files { certificate, private_key },
            made,
        ),
        (None, None, Some(acme)) => inbound_matches(opts, CertSource::Acme(acme), made),
        (None, None, None) => inbound_matches(opts, CertSource::SelfSigned, made),
        _ => made == Err::<Hysteria2Inbound, SetupError>(SetupError::CertificateSource),
    }
}

/// What came of reading a stream's request.
#[derive(Debug)]
pub enum RequestRead {
    Request(Hy2TcpReq),
    /// The request is malformed, or the stream failed: the text says how.
    Bad(String),
    Closed,
    TimedOut,
}

/// What is done with a stream.
#[derive(Debug)]
pub enum StreamStep {
    /// Answer, then carry the stream to its destination.
    Open { reply: Hy2TcpRespMsg, destination: SocksAddr },
    /// Answer, then drop the stream.
    Refuse(Hy2TcpRespMsg),
    /// Drop the stream without an answer.
    Drop { kind: ErrorKind, message: String },
}

/// Every request that could be read is granted, every other one that came is
/// answered with what is wrong with it, and a stream without a request is
/// dropped.
pub fn answer_request(read: RequestRead) -> (step: StreamStep)
    ensures
        match read {
            RequestRead::Request(request) => {
                &&& step matches StreamStep::Open { reply, destination }
                &&& reply.status == 0
                &&& reply.msg@ == Seq::<char>::empty()
                &&& destination == request.addr
            },
            RequestRead::Bad(error) => {
                &&& step matches StreamStep::Refuse(reply)
                &&& reply.status == 1
                &&& reply.msg == error
            },
            RequestRead::Closed => {
                &&& step matches StreamStep::Drop { kind, message }
                &&& kind == ErrorKind::UnexpectedEof
                &&& message@ == "hysteria2 TCP request stream closed before request"@
            },
            RequestRead::TimedOut => {
                &&& step matches StreamStep::Drop { kind, message }
                &&& kind == ErrorKind::TimedOut
                &&& message@ == "hysteria2 TCP request timeout"@
            },
        },
{
    match read {
        RequestRead::Request(request) => StreamStep::Open {
            reply: Hy2TcpRespMsg::ok(),
            destination: request.addr,
        },
        RequestRead::Bad(error) => StreamStep::Refuse(Hy2TcpRespMsg { status: 1, msg: error }),
        RequestRead::Closed => StreamStep::Drop {
            kind: ErrorKind::UnexpectedEof,
            message: "hysteria2 TCP request stream closed before request".to_owned(),
        },
        RequestRead::TimedOut => StreamStep::Drop {
            kind: ErrorKind::TimedOut,
            message: "hysteria2 TCP request timeout".to_owned(),
        },
    }
}

} // verus!
