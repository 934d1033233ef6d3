//! Listeners as they are configured.

use vstd::prelude::*;

use crate::config::code::{
    bool_code, counted_texts_code, maybe_bool_code, maybe_number_code, maybe_text_code,
    maybe_text_views, number_code, put_bool, put_maybe_bool, put_maybe_number, put_maybe_text,
    put_number, put_text, put_texts, same_maybe, same_texts, text_code,
};
use crate::config::parts::{
    counted_shadowquic_user_code, counted_vless_user_code, maybe_acme, maybe_acme_code,
    maybe_masquerade, maybe_masquerade_code, maybe_obfs, maybe_obfs_code, maybe_texts_code,
    put_maybe_acme, put_maybe_masquerade, put_maybe_obfs, put_maybe_texts,
    put_shadowquic_user_rows, put_vless_user_rows, same_maybe_acme, same_maybe_masquerade,
    same_maybe_obfs, same_maybe_texts, same_maybe_bool, same_maybe_u16, same_shadowquic_user_rows,
    same_vless_user_rows, shadowquic_user_views, vless_user_views, widen_u16, widened_u16, AcmeKey,
    CommonInboundOpts, CommonKey, Hysteria2Acme, Hysteria2InboundObfs, Hysteria2Masquerade,
    Hysteria2SniGuard, JlsUpstreamKey, MasqueradeKey, ObfsKey, ShadowQuicInboundUser,
    ShadowQuicJlsUpstream, ShadowQuicUserKey, VlessInboundTransport, VlessInboundUser,
    VlessTransportKey, VlessUserKey,
};
use crate::text::{maybe_view, text_views};

verus! {

/// A user of an inbound: its name goes with its traffic.
#[derive(Clone, Debug)]
pub struct InboundUser {
    pub name: String,
    pub password: String,
}

/// A listener as it is configured.
#[derive(Clone, Debug)]
#[allow(inconsistent_fields)]
pub enum InboundOpts {
    Http {
        common_opts: CommonInboundOpts,
    },
    Socks {
        common_opts: CommonInboundOpts,
        udp: bool,
    },
    Mixed {
        common_opts: CommonInboundOpts,
        udp: bool,
    },
    TProxy {
        common_opts: CommonInboundOpts,
        udp: bool,
    },
    Redir {
        common_opts: CommonInboundOpts,
    },
    Tunnel {
        common_opts: CommonInboundOpts,
        network: Vec<String>,
        target: String,
    },
    Shadowsocks {
        common_opts: CommonInboundOpts,
        udp: bool,
        cipher: String,
        password: String,
        users: Vec<InboundUser>,
    },
    Anytls {
        common_opts: CommonInboundOpts,
        password: String,
        certificate: Option<String>,
        private_key: Option<String>,
        users: Vec<InboundUser>,
        fallback: Option<String>,
    },
    Vless {
        common_opts: CommonInboundOpts,
        uuid: Option<String>,
        users: Vec<VlessInboundUser>,
        transport: VlessInboundTransport,
    },
    Hysteria2 {
        common_opts: CommonInboundOpts,
        password: String,
        certificate: Option<String>,
        private_key: Option<String>,
        acme: Option<Hysteria2Acme>,
        users: Vec<InboundUser>,
        obfs: Option<Hysteria2InboundObfs>,
        obfs_password: Option<String>,
        sni_guard: Hysteria2SniGuard,
        masquerade: Option<Hysteria2Masquerade>,
    },
    ShadowQuic {
        common_opts: CommonInboundOpts,
        username: Option<String>,
        password: Option<String>,
        users: Vec<ShadowQuicInboundUser>,
        server_name: Option<String>,
        jls_upstream: ShadowQuicJlsUpstream,
        alpn: Option<Vec<String>>,
        zero_rtt: Option<bool>,
        congestion_control: Option<String>,
        initial_mtu: Option<u16>,
        min_mtu: Option<u16>,
        gso: Option<bool>,
        mtu_discovery: Option<bool>,
        blackhole_detection: Option<bool>,
    },
}

/// What tells listeners apart: everything but the user lists that can change
/// while a listener runs.
#[verifier::ext_equal]
#[allow(inconsistent_fields)]
pub enum ListenerKey {
    Http {
        common_opts: CommonKey,
    },
    Socks {
        common_opts: CommonKey,
        udp: bool,
    },
    Mixed {
        common_opts: CommonKey,
        udp: bool,
    },
    TProxy {
        common_opts: CommonKey,
        udp: bool,
    },
    Redir {
        common_opts: CommonKey,
    },
    Tunnel {
        common_opts: CommonKey,
        network: Seq<Seq<char>>,
        target: Seq<char>,
    },
    Shadowsocks {
        common_opts: CommonKey,
        udp: bool,
        cipher: Seq<char>,
        password: Seq<char>,
    },
    Anytls {
        common_opts: CommonKey,
        password: Seq<char>,
        certificate: Option<Seq<char>>,
        private_key: Option<Seq<char>>,
        fallback: Option<Seq<char>>,
    },
    Vless {
        common_opts: CommonKey,
        uuid: Option<Seq<char>>,
        users: Seq<VlessUserKey>,
        transport: VlessTransportKey,
    },
    Hysteria2 {
        common_opts: CommonKey,
        password: Seq<char>,
        certificate: Option<Seq<char>>,
        private_key: Option<Seq<char>>,
        acme: Option<AcmeKey>,
        obfs: Option<ObfsKey>,
        obfs_password: Option<Seq<char>>,
        sni_guard: Hysteria2SniGuard,
        masquerade: Option<MasqueradeKey>,
    },
    ShadowQuic {
        common_opts: CommonKey,
        username: Option<Seq<char>>,
        password: Option<Seq<char>>,
        users: Seq<ShadowQuicUserKey>,
        server_name: Option<Seq<char>>,
        jls_upstream: JlsUpstreamKey,
        alpn: Option<Seq<Seq<char>>>,
        zero_rtt: Option<bool>,
        congestion_control: Option<Seq<char>>,
        initial_mtu: Option<u16>,
        min_mtu: Option<u16>,
        gso: Option<bool>,
        mtu_discovery: Option<bool>,
        blackhole_detection: Option<bool>,
    },
}

impl View for InboundOpts {
    type V = ListenerKey;

    open spec fn view(&self) -> ListenerKey {
        match self {
            InboundOpts::Http { common_opts } => ListenerKey::Http {
                common_opts: common_opts@,
            },
            InboundOpts::Socks { common_opts, udp } => ListenerKey::Socks {
                common_opts: common_opts@,
                udp: *udp,
            },
            InboundOpts::Mixed { common_opts, udp } => ListenerKey::Mixed {
                common_opts: common_opts@,
                udp: *udp,
            },
            InboundOpts::TProxy { common_opts, udp } => ListenerKey::TProxy {
                common_opts: common_opts@,
                udp: *udp,
            },
            InboundOpts::Redir { common_opts } => ListenerKey::Redir {
                common_opts: common_opts@,
            },
            InboundOpts::Tunnel { common_opts, network, target } => ListenerKey::Tunnel {
                common_opts: common_opts@,
                network: text_views(network@),
                target: target@,
            },
            InboundOpts::Shadowsocks {
                common_opts,
                udp,
                cipher,
                password,
                ..
            } => ListenerKey::Shadowsocks {
                common_opts: common_opts@,
                udp: *udp,
                cipher: cipher@,
                password: password@,
            },
            InboundOpts::Anytls {
                common_opts,
                password,
                certificate,
                private_key,
                fallback,
                ..
            } => ListenerKey::Anytls {
                common_opts: common_opts@,
                password: password@,
                certificate: maybe_view(*certificate),
                private_key: maybe_view(*private_key),
                fallback: maybe_view(*fallback),
            },
            InboundOpts::Vless { common_opts, uuid, users, transport } => ListenerKey::Vless {
                common_opts: common_opts@,
                uuid: maybe_view(*uuid),
                users: vless_user_views(users@),
                transport: transport@,
            },
            InboundOpts::Hysteria2 {
                common_opts,
                password,
                certificate,
                private_key,
                acme,
                obfs,
                obfs_password,
                sni_guard,
                masquerade,
                ..
            } => ListenerKey::Hysteria2 {
                common_opts: common_opts@,
                password: password@,
                certificate: maybe_view(*certificate),
                private_key: maybe_view(*private_key),
                acme: maybe_acme(*acme),
                obfs: maybe_obfs(*obfs),
                obfs_password: maybe_view(*obfs_password),
                sni_guard: *sni_guard,
                masquerade: maybe_masquerade(*masquerade),
            },
            InboundOpts::ShadowQuic {
                common_opts,
                username,
                password,
                users,
                server_name,
                jls_upstream,
                alpn,
                zero_rtt,
                congestion_control,
                initial_mtu,
                min_mtu,
                gso,
                mtu_discovery,
                blackhole_detection,
            } => ListenerKey::ShadowQuic {
                common_opts: common_opts@,
                username: maybe_view(*username),
                password: maybe_view(*password),
                users: shadowquic_user_views(users@),
                server_name: maybe_view(*server_name),
                jls_upstream: jls_upstream@,
                alpn: maybe_text_views(*alpn),
                zero_rtt: *zero_rtt,
                congestion_control: maybe_view(*congestion_control),
                initial_mtu: *initial_mtu,
                min_mtu: *min_mtu,
                gso: *gso,
                mtu_discovery: *mtu_discovery,
                blackhole_detection: *blackhole_detection,
            },
        }
    }
}

impl ListenerKey {
    /// The code that a listener is hashed by.
    pub open spec fn code(self) -> Seq<u8> {
        match self {
            ListenerKey::Http { common_opts } => number_code(0) + common_opts.code(),
            ListenerKey::Socks { common_opts, udp } => number_code(1)
                + common_opts.code()
                + bool_code(udp),
            ListenerKey::Mixed { common_opts, udp } => number_code(2)
                + common_opts.code()
                + bool_code(udp),
            ListenerKey::TProxy { common_opts, udp } => number_code(3)
                + common_opts.code()
                + bool_code(udp),
            ListenerKey::Redir { common_opts } => number_code(4) + common_opts.code(),
            ListenerKey::Tunnel { common_opts, network, target } => number_code(5)
                + common_opts.code()
                + counted_texts_code(network)
                + text_code(target),
            ListenerKey::Shadowsocks { common_opts, udp, cipher, password } => number_code(6)
                + common_opts.code()
                + bool_code(udp)
                + text_code(cipher)
                + text_code(password),
            ListenerKey::Anytls {
                common_opts,
                password,
                certificate,
                private_key,
                fallback,
            } => number_code(7)
                + common_opts.code()
                + text_code(password)
                + maybe_text_code(certificate)
                + maybe_text_code(private_key)
                + maybe_text_code(fallback),
            ListenerKey::Vless { common_opts, uuid, users, transport } => number_code(8)
                + common_opts.code()
                + maybe_text_code(uuid)
                + counted_vless_user_code(users)
                + transport.code(),
            ListenerKey::Hysteria2 {
                common_opts,
                password,
                certificate,
                private_key,
                acme,
                obfs,
                obfs_password,
                sni_guard,
                masquerade,
            } => number_code(9)
                + common_opts.code()
                + text_code(password)
                + maybe_text_code(certificate)
                + maybe_text_code(private_key)
                + maybe_acme_code(acme)
                + maybe_obfs_code(obfs)
                + maybe_text_code(obfs_password)
                + number_code(sni_guard.tag_spec())
                + maybe_masquerade_code(masquerade),
            ListenerKey::ShadowQuic {
                common_opts,
                username,
                password,
                users,
                server_name,
                jls_upstream,
                alpn,
                zero_rtt,
                congestion_control,
                initial_mtu,
                min_mtu,
                gso,
                mtu_discovery,
                blackhole_detection,
            } => number_code(10)
                + common_opts.code()
                + maybe_text_code(username)
                + maybe_text_code(password)
                + counted_shadowquic_user_code(users)
                + maybe_text_code(server_name)
                + jls_upstream.code()
                + maybe_texts_code(alpn)
                + maybe_bool_code(zero_rtt)
                + maybe_text_code(congestion_control)
                + maybe_number_code(widened_u16(initial_mtu))
                + maybe_number_code(widened_u16(min_mtu))
                + maybe_bool_code(gso)
                + maybe_bool_code(mtu_discovery)
                + maybe_bool_code(blackhole_detection),
        }
    }
}

impl InboundOpts {
    /// Whether two listeners are the same but for the users that can change
    /// while they run.
    pub fn same(&self, other: &Self) -> (same: bool)
        ensures
            same == (self@ == other@),
    {
        match (self, other) {
            (
                InboundOpts::Http { common_opts: common_opts_a },
                InboundOpts::Http { common_opts: common_opts_b },
            ) => common_opts_a.same(common_opts_b),
            (
                InboundOpts::Socks { common_opts: common_opts_a, udp: udp_a },
                InboundOpts::Socks { common_opts: common_opts_b, udp: udp_b },
            ) => common_opts_a.same(common_opts_b) && *udp_a == *udp_b,
            (
                InboundOpts::Mixed { common_opts: common_opts_a, udp: udp_a },
                InboundOpts::Mixed { common_opts: common_opts_b, udp: udp_b },
            ) => common_opts_a.same(common_opts_b) && *udp_a == *udp_b,
            (
                InboundOpts::TProxy { common_opts: common_opts_a, udp: udp_a },
                InboundOpts::TProxy { common_opts: common_opts_b, udp: udp_b },
            ) => common_opts_a.same(common_opts_b) && *udp_a == *udp_b,
            (
                InboundOpts::Redir { common_opts: common_opts_a },
                InboundOpts::Redir { common_opts: common_opts_b },
            ) => common_opts_a.same(common_opts_b),
            (
                InboundOpts::Tunnel {
                    common_opts: common_opts_a,
                    network: network_a,
                    target: target_a,
                },
                InboundOpts::Tunnel {
                    common_opts: common_opts_b,
                    network: network_b,
                    target: target_b,
                },
            ) => common_opts_a.same(common_opts_b)
                && same_texts(network_a, network_b)
                && *target_a == *target_b,
            (
                InboundOpts::Shadowsocks {
                    common_opts: common_opts_a,
                    udp: udp_a,
                    cipher: cipher_a,
                    password: password_a,
                    ..
                },
                InboundOpts::Shadowsocks {
                    common_opts: common_opts_b,
                    udp: udp_b,
                    cipher: cipher_b,
                    password: password_b,
                    ..
                },
            ) => common_opts_a.same(common_opts_b)
                && *udp_a == *udp_b
                && *cipher_a == *cipher_b
                && *password_a == *password_b,
            (
                InboundOpts::Anytls {
                    common_opts: common_opts_a,
                    password: password_a,
                    certificate: certificate_a,
                    private_key: private_key_a,
                    fallback: fallback_a,
                    ..
                },
                InboundOpts::Anytls {
                    common_opts: common_opts_b,
                    password: password_b,
                    certificate: certificate_b,
                    private_key: private_key_b,
                    fallback: fallback_b,
                    ..
                },
            ) => common_opts_a.same(common_opts_b)
                && *password_a == *password_b
                && same_maybe(certificate_a, certificate_b)
                && same_maybe(private_key_a, private_key_b)
                && same_maybe(fallback_a, fallback_b),
            (
                InboundOpts::Vless {
                    common_opts: common_opts_a,
                    uuid: uuid_a,
                    users: users_a,
                    transport: transport_a,
                },
                InboundOpts::Vless {
                    common_opts: common_opts_b,
                    uuid: uuid_b,
                    users: users_b,
                    transport: transport_b,
                },
            ) => common_opts_a.same(common_opts_b)
                && same_maybe(uuid_a, uuid_b)
                && same_vless_user_rows(users_a, users_b)
                && transport_a.same(transport_b),
            (
                InboundOpts::Hysteria2 {
                    common_opts: common_opts_a,
                    password: password_a,
                    certificate: certificate_a,
                    private_key: private_key_a,
                    acme: acme_a,
                    obfs: obfs_a,
                    obfs_password: obfs_password_a,
                    sni_guard: sni_guard_a,
                    masquerade: masquerade_a,
                    ..
                },
                InboundOpts::Hysteria2 {
                    common_opts: common_opts_b,
                    password: password_b,
                    certificate: certificate_b,
                    private_key: private_key_b,
                    acme: acme_b,
                    obfs: obfs_b,
                    obfs_password: obfs_password_b,
                    sni_guard: sni_guard_b,
                    masquerade: masquerade_b,
                    ..
                },
            ) => common_opts_a.same(common_opts_b)
                && *password_a == *password_b
                && same_maybe(certificate_a, certificate_b)
                && same_maybe(private_key_a, private_key_b)
                && same_maybe_acme(acme_a, acme_b)
                && same_maybe_obfs(obfs_a, obfs_b)
                && same_maybe(obfs_password_a, obfs_password_b)
                && *sni_guard_a == *sni_guard_b
                && same_maybe_masquerade(masquerade_a, masquerade_b),
            (
                InboundOpts::ShadowQuic {
                    common_opts: common_opts_a,
                    username: username_a,
                    password: password_a,
                    users: users_a,
                    server_name: server_name_a,
                    jls_upstream: jls_upstream_a,
                    alpn: alpn_a,
                    zero_rtt: zero_rtt_a,
                    congestion_control: congestion_control_a,
                    initial_mtu: initial_mtu_a,
                    min_mtu: min_mtu_a,
                    gso: gso_a,
                    mtu_discovery: mtu_discovery_a,
                    blackhole_detection: blackhole_detection_a,
                },
                InboundOpts::ShadowQuic {
                    common_opts: common_opts_b,
                    username: username_b,
                    password: password_b,
                    users: users_b,
                    server_name: server_name_b,
                    jls_upstream: jls_upstream_b,
                    alpn: alpn_b,
                    zero_rtt: zero_rtt_b,
                    congestion_control: congestion_control_b,
                    initial_mtu: initial_mtu_b,
                    min_mtu: min_mtu_b,
                    gso: gso_b,
                    mtu_discovery: mtu_discovery_b,
                    blackhole_detection: blackhole_detection_b,
                },
            ) => common_opts_a.same(common_opts_b)
                && same_maybe(username_a, username_b)
                && same_maybe(password_a, password_b)
                && same_shadowquic_user_rows(users_a, users_b)
                && same_maybe(server_name_a, server_name_b)
                && jls_upstream_a.same(jls_upstream_b)
                && same_maybe_texts(alpn_a, alpn_b)
                && same_maybe_bool(*zero_rtt_a, *zero_rtt_b)
                && same_maybe(congestion_control_a, congestion_control_b)
                && same_maybe_u16(*initial_mtu_a, *initial_mtu_b)
                && same_maybe_u16(*min_mtu_a, *min_mtu_b)
                && same_maybe_bool(*gso_a, *gso_b)
                && same_maybe_bool(*mtu_discovery_a, *mtu_discovery_b)
                && same_maybe_bool(*blackhole_detection_a, *blackhole_detection_b),
            _ => false,
        }
    }

    /// The code that a listener is hashed by: equal listeners have equal codes.
    pub fn hash_code(&self) -> (code: Vec<u8>)
        ensures
            code@ == self@.code(),
    {
        let mut code: Vec<u8> = Vec::new();
        match self {
            InboundOpts::Http { common_opts } => {
                put_number(&mut code, 0);
                assert(code@ =~= number_code(0));
                common_opts.put_code(&mut code);
            },
            InboundOpts::Socks { common_opts, udp } => {
                put_number(&mut code, 1);
                assert(code@ =~= number_code(1));
                common_opts.put_code(&mut code);
                put_bool(&mut code, *udp);
            },
            InboundOpts::Mixed { common_opts, udp } => {
                put_number(&mut code, 2);
                assert(code@ =~= number_code(2));
                common_opts.put_code(&mut code);
                put_bool(&mut code, *udp);
            },
            InboundOpts::TProxy { common_opts, udp } => {
                put_number(&mut code, 3);
                assert(code@ =~= number_code(3));
                common_opts.put_code(&mut code);
                put_bool(&mut code, *udp);
            },
            InboundOpts::Redir { common_opts } => {
                put_number(&mut code, 4);
                assert(code@ =~= number_code(4));
                common_opts.put_code(&mut code);
            },
            InboundOpts::Tunnel { common_opts, network, target } => {
                put_number(&mut code, 5);
                assert(code@ =~= number_code(5));
                common_opts.put_code(&mut code);
                put_texts(&mut code, network);
                put_text(&mut code, target.as_str());
            },
            InboundOpts::Shadowsocks { common_opts, udp, cipher, password, .. } => {
                put_number(&mut code, 6);
                assert(code@ =~= number_code(6));
                common_opts.put_code(&mut code);
                put_bool(&mut code, *udp);
                put_text(&mut code, cipher.as_str());
                put_text(&mut code, password.as_str());
            },
            InboundOpts::Anytls {
                common_opts,
                password,
                certificate,
                private_key,
                fallback,
                ..
            } => {
                put_number(&mut code, 7);
                assert(code@ =~= number_code(7));
                common_opts.put_code(&mut code);
                put_text(&mut code, password.as_str());
                put_maybe_text(&mut code, certificate);
                put_maybe_text(&mut code, private_key);
                put_maybe_text(&mut code, fallback);
            },
            InboundOpts::Vless { common_opts, uuid, users, transport } => {
                put_number(&mut code, 8);
                assert(code@ =~= number_code(8));
                common_opts.put_code(&mut code);
                put_maybe_text(&mut code, uuid);
                put_vless_user_rows(&mut code, users);
                transport.put_code(&mut code);
            },
            InboundOpts::Hysteria2 {
                common_opts,
                password,
                certificate,
                private_key,
                acme,
                obfs,
                obfs_password,
                sni_guard,
                masquerade,
                ..
            } => {
                put_number(&mut code, 9);
                assert(code@ =~= number_code(9));
                common_opts.put_code(&mut code);
                put_text(&mut code, password.as_str());
                put_maybe_text(&mut code, certificate);
                put_maybe_text(&mut code, private_key);
                put_maybe_acme(&mut code, acme);
                put_maybe_obfs(&mut code, obfs);
                put_maybe_text(&mut code, obfs_password);
                put_number(&mut code, sni_guard.tag());
                put_maybe_masquerade(&mut code, masquerade);
            },
            InboundOpts::ShadowQuic {
                common_opts,
                username,
                password,
                users,
                server_name,
                jls_upstream,
                alpn,
                zero_rtt,
                congestion_control,
                initial_mtu,
                min_mtu,
                gso,
                mtu_discovery,
                blackhole_detection,
            } => {
                put_number(&mut code, 10);
                assert(code@ =~= number_code(10));
                common_opts.put_code(&mut code);
                put_maybe_text(&mut code, username);
                put_maybe_text(&mut code, password);
                put_shadowquic_user_rows(&mut code, users);
                put_maybe_text(&mut code, server_name);
                jls_upstream.put_code(&mut code);
                put_maybe_texts(&mut code, alpn);
                put_maybe_bool(&mut code, *zero_rtt);
                put_maybe_text(&mut code, congestion_control);
                put_maybe_number(&mut code, widen_u16(*initial_mtu));
                put_maybe_number(&mut code, widen_u16(*min_mtu));
                put_maybe_bool(&mut code, *gso);
                put_maybe_bool(&mut code, *mtu_discovery);
                put_maybe_bool(&mut code, *blackhole_detection);
            },
        }
        code
    }

    pub open spec fn common_key(self) -> CommonInboundOpts {
        match self {
            InboundOpts::Http { common_opts, .. } => common_opts,
            InboundOpts::Socks { common_opts, .. } => common_opts,
            InboundOpts::Mixed { common_opts, .. } => common_opts,
            InboundOpts::TProxy { common_opts, .. } => common_opts,
            InboundOpts::Redir { common_opts, .. } => common_opts,
            InboundOpts::Tunnel { common_opts, .. } => common_opts,
            InboundOpts::Shadowsocks { common_opts, .. } => common_opts,
            InboundOpts::Anytls { common_opts, .. } => common_opts,
            InboundOpts::Vless { common_opts, .. } => common_opts,
            InboundOpts::Hysteria2 { common_opts, .. } => common_opts,
            InboundOpts::ShadowQuic { common_opts, .. } => common_opts,
        }
    }

    pub fn common_opts(&self) -> (common: &CommonInboundOpts)
        ensures
            *common == self.common_key(),
    {
        match self {
            InboundOpts::Http { common_opts, .. } => common_opts,
            InboundOpts::Socks { common_opts, .. } => common_opts,
            InboundOpts::Mixed { common_opts, .. } => common_opts,
            InboundOpts::TProxy { common_opts, .. } => common_opts,
            InboundOpts::Redir { common_opts, .. } => common_opts,
            InboundOpts::Tunnel { common_opts, .. } => common_opts,
            InboundOpts::Shadowsocks { common_opts, .. } => common_opts,
            InboundOpts::Anytls { common_opts, .. } => common_opts,
            InboundOpts::Vless { common_opts, .. } => common_opts,
            InboundOpts::Hysteria2 { common_opts, .. } => common_opts,
            InboundOpts::ShadowQuic { common_opts, .. } => common_opts,
        }
    }

    /// The listener with other common options.
    pub open spec fn with_common(self, common_opts: CommonInboundOpts) -> InboundOpts {
        match self {
            InboundOpts::Http { common_opts: _ } => InboundOpts::Http { common_opts },
            InboundOpts::Socks { common_opts: _, udp } => InboundOpts::Socks { common_opts, udp },
            InboundOpts::Mixed { common_opts: _, udp } => InboundOpts::Mixed { common_opts, udp },
            InboundOpts::TProxy { common_opts: _, udp } => InboundOpts::TProxy { common_opts, udp },
            InboundOpts::Redir { common_opts: _ } => InboundOpts::Redir { common_opts },
            InboundOpts::Tunnel { common_opts: _, network, target } => InboundOpts::Tunnel {
                common_opts,
                network,
                target,
            },
            InboundOpts::Shadowsocks {
                common_opts: _,
                udp,
                cipher,
                password,
                users,
            } => InboundOpts::Shadowsocks {
                common_opts,
                udp,
                cipher,
                password,
                users,
            },
            InboundOpts::Anytls {
                common_opts: _,
                password,
                certificate,
                private_key,
                users,
                fallback,
            } => InboundOpts::Anytls {
                common_opts,
                password,
                certificate,
                private_key,
                users,
                fallback,
            },
            InboundOpts::Vless { common_opts: _, uuid, users, transport } => InboundOpts::Vless {
                common_opts,
                uuid,
                users,
                transport,
            },
            InboundOpts::Hysteria2 {
                common_opts: _,
                password,
                certificate,
                private_key,
                acme,
                users,
                obfs,
                obfs_password,
                sni_guard,
                masquerade,
            } => InboundOpts::Hysteria2 {
                common_opts,
                password,
                certificate,
                private_key,
                acme,
                users,
                obfs,
                obfs_password,
                sni_guard,
                masquerade,
            },
            InboundOpts::ShadowQuic {
                common_opts: _,
                username,
                password,
                users,
                server_name,
                jls_upstream,
                alpn,
                zero_rtt,
                congestion_control,
                initial_mtu,
                min_mtu,
                gso,
                mtu_discovery,
                blackhole_detection,
            } => InboundOpts::ShadowQuic {
                common_opts,
                username,
                password,
                users,
                server_name,
                jls_upstream,
                alpn,
                zero_rtt,
                congestion_control,
                initial_mtu,
                min_mtu,
                gso,
                mtu_discovery,
                blackhole_detection,
            },
        }
    }

    pub fn common_opts_mut(&mut self) -> (common: &mut CommonInboundOpts)
        ensures
            *common == old(self).common_key(),
            *final(self) == old(self).with_common(*final(common)),
    {
        match self {
            InboundOpts::Http { common_opts, .. } => common_opts,
            InboundOpts::Socks { common_opts, .. } => common_opts,
            InboundOpts::Mixed { common_opts, .. } => common_opts,
            InboundOpts::TProxy { common_opts, .. } => common_opts,
            InboundOpts::Redir { common_opts, .. } => common_opts,
            InboundOpts::Tunnel { common_opts, .. } => common_opts,
            InboundOpts::Shadowsocks { common_opts, .. } => common_opts,
            InboundOpts::Anytls { common_opts, .. } => common_opts,
            InboundOpts::Vless { common_opts, .. } => common_opts,
            InboundOpts::Hysteria2 { common_opts, .. } => common_opts,
            InboundOpts::ShadowQuic { common_opts, .. } => common_opts,
        }
    }

    pub open spec fn kind_name_spec(self) -> Seq<char> {
        match self {
            InboundOpts::Http { .. } => "http"@,
            InboundOpts::Socks { .. } => "socks"@,
            InboundOpts::Mixed { .. } => "mixed"@,
            InboundOpts::TProxy { .. } => "tproxy"@,
            InboundOpts::Redir { .. } => "redir"@,
            InboundOpts::Tunnel { .. } => "tunnel"@,
            InboundOpts::Shadowsocks { .. } => "shadowsocks"@,
            InboundOpts::Anytls { .. } => "anytls"@,
            InboundOpts::Vless { .. } => "vless"@,
            InboundOpts::Hysteria2 { .. } => "hysteria2"@,
            InboundOpts::ShadowQuic { .. } => "shadowquic"@,
        }
    }

    pub fn kind_name(&self) -> (name: &'static str)
        ensures
            name@ == self.kind_name_spec(),
    {
        match self {
            InboundOpts::Http { .. } => "http",
            InboundOpts::Socks { .. } => "socks",
            InboundOpts::Mixed { .. } => "mixed",
            InboundOpts::TProxy { .. } => "tproxy",
            InboundOpts::Redir { .. } => "redir",
            InboundOpts::Tunnel { .. } => "tunnel",
            InboundOpts::Shadowsocks { .. } => "shadowsocks",
            InboundOpts::Anytls { .. } => "anytls",
            InboundOpts::Vless { .. } => "vless",
            InboundOpts::Hysteria2 { .. } => "hysteria2",
            InboundOpts::ShadowQuic { .. } => "shadowquic",
        }
    }
}

impl PartialEq for InboundOpts {
    fn eq(&self, other: &Self) -> (same: bool) {
        self.same(other)
    }
}

impl vstd::std_specs::cmp::PartialEqSpecImpl for InboundOpts {
    open spec fn obeys_eq_spec() -> bool {
        true
    }

    open spec fn eq_spec(&self, other: &Self) -> bool {
        self@ == other@
    }
}

impl Eq for InboundOpts {

}

/// Listeners that are equal have equal hash codes.
pub proof fn equal_listeners_hash_alike(a: InboundOpts, b: InboundOpts)
    requires
        a@ == b@,
    ensures
        a@.code() == b@.code(),
{
}

/// A change of the users of a Shadowsocks, AnyTLS or Hysteria2 listener leaves
/// it the same listener, so that it keeps running.
pub proof fn users_do_not_tell_listeners_apart(
    a: InboundOpts,
    shadowsocks_users: Vec<InboundUser>,
)
    ensures
        a.with_users(shadowsocks_users)@ == a@,
{
}

impl InboundOpts {
    /// The listener with other users, where these can change while it runs.
    pub open spec fn with_users(self, users: Vec<InboundUser>) -> InboundOpts {
        match self {
            InboundOpts::Shadowsocks { common_opts, udp, cipher, password, users: _ } =>
                InboundOpts::Shadowsocks { common_opts, udp, cipher, password, users },
            InboundOpts::Anytls {
                common_opts,
                password,
                certificate,
                private_key,
                users: _,
                fallback,
            } => InboundOpts::Anytls {
                common_opts,
                password,
                certificate,
                private_key,
                users,
                fallback,
            },
            InboundOpts::Hysteria2 {
                common_opts,
                password,
                certificate,
                private_key,
                acme,
                users: _,
                obfs,
                obfs_password,
                sni_guard,
                masquerade,
            } => InboundOpts::Hysteria2 {
                common_opts,
                password,
                certificate,
                private_key,
                acme,
                users,
                obfs,
                obfs_password,
                sni_guard,
                masquerade,
            },
            other => other,
        }
    }
}

/// Where listeners come from besides the configuration itself.
#[derive(Clone, Debug)]
pub enum InboundProviderDef {
    Http(InboundHttpProvider),
    File(InboundFileProvider),
}

#[derive(Clone, Debug)]
pub struct InboundHttpProvider {
    pub name: String,
    pub url: String,
    pub interval: u64,
    pub path: String,
}

#[derive(Clone, Debug)]
pub struct InboundFileProvider {
    pub name: String,
    pub path: String,
    pub interval: Option<u64>,
}

impl InboundProviderDef {
    pub open spec fn renamed(self, name: String) -> InboundProviderDef {
        match self {
            InboundProviderDef::Http(p) => InboundProviderDef::Http(
                InboundHttpProvider { name, ..p },
            ),
            InboundProviderDef::File(p) => InboundProviderDef::File(
                InboundFileProvider { name, ..p },
            ),
        }
    }

    pub fn set_name(&mut self, name: String)
        ensures
            *final(self) == old(self).renamed(name),
    {
        match self {
            InboundProviderDef::Http(p) => {
                p.name = name;
            },
            InboundProviderDef::File(p) => {
                p.name = name;
            },
        }
    }
}

} // verus!
