//! What tells listeners apart, what makes them work, and what they are run by.

use vstd::prelude::*;
use vstd::utf8::encode_utf8;

use crate::config::listener::{InboundOpts, InboundProviderDef, InboundUser};
use crate::config::parts::{
    maybe_acme, maybe_masquerade, maybe_obfs, vless_user_views, AcmeKey, CloudflareKey,
    CommonInboundOpts, HeaderKey, Hysteria2Acme, Hysteria2AcmeChallenge,
    Hysteria2AcmeCloudflareDns, Hysteria2InboundObfs, Hysteria2Masquerade, Hysteria2MasqueradeType,
    Hysteria2SniGuard, MasqueradeKey, ObfsKey, ShadowQuicInboundUser, ShadowQuicJlsUpstream,
    VlessInboundTransport, VlessInboundUser, VlessTransportKey, VlessUserKey,
};
use crate::config::plan::{
    handler_matches, is_acme_options, is_dns_options, is_hysteria2_options,
    is_masquerade_options, is_vless_options, plain_spec, Handler, Skipped,
};
use crate::config::validate::{
    acme_complaint, cloudflare_complaint, domain_fits, headers_complaint, identifier_complaint,
    is_taken, label_fits, listener_complaint, masquerade_complaint, obfs_complaint, password_taken,
    users_complaint, vless_complaint, vless_users_complaint,
};
use crate::hysteria2::acme::{AcmeChallenge, AcmeOptions, CloudflareAuth, CloudflareDnsOptions};
use crate::hysteria2::inbound::{InboundOptions as Hysteria2Options, ObfsOptions, SetupError};
use crate::hysteria2::masquerade::MasqueradeOptions;
use crate::hysteria2::masquerade_laws::can_be_sent;
use crate::hysteria2::sni::SniGuardMode;
use crate::net::addr::SocketAddr;
use crate::net::parse::ip_of_text;
use crate::text::{ascii_lower, ascii_lower_text, has_prefix, maybe_view, text_views, trimmed};
use crate::text_laws::{joined_parts_are_found, joined_with, none_contains};
use crate::vless::error::VlessError;
use crate::vless::ids::uuid_parsed;
use crate::vless::inbound::{user_views, InboundOptions as VlessOptions};
use crate::web::{is_header_name, url_parsed};

verus! {

/// Common options are the same if and only if each of them is.
pub proof fn common_options_are_told_apart(a: CommonInboundOpts, b: CommonInboundOpts)
    ensures
        a@ == b@ <==> {
            &&& a.name@ == b.name@
            &&& a.listen.0 == b.listen.0
            &&& a.allow_lan == b.allow_lan
            &&& a.port == b.port
            &&& a.fw_mark == b.fw_mark
        },
{
}

/// The parts of a listener are the same if and only if each of their fields is.
pub proof fn parts_are_told_apart(
    users: (VlessInboundUser, VlessInboundUser),
    others: (ShadowQuicInboundUser, ShadowQuicInboundUser),
    transports: (VlessInboundTransport, VlessInboundTransport),
    upstreams: (ShadowQuicJlsUpstream, ShadowQuicJlsUpstream),
    zones: (Hysteria2AcmeCloudflareDns, Hysteria2AcmeCloudflareDns),
)
    ensures
        users.0@ == users.1@ <==> users.0.uuid@ == users.1.uuid@ && maybe_view(users.0.name)
            == maybe_view(users.1.name),
        others.0@ == others.1@ <==> others.0.username@ == others.1.username@ && others.0.password@
            == others.1.password@,
        transports.0@ == transports.1@ <==> {
            &&& transports.0.typ@ == transports.1.typ@
            &&& transports.0.path@ == transports.1.path@
            &&& maybe_view(transports.0.early_data_header_name) == maybe_view(
                transports.1.early_data_header_name,
            )
        },
        upstreams.0@ == upstreams.1@ <==> upstreams.0.addr@ == upstreams.1.addr@
            && upstreams.0.rate_limit == upstreams.1.rate_limit,
        zones.0@ == zones.1@ <==> {
            &&& maybe_view(zones.0.api_token) == maybe_view(zones.1.api_token)
            &&& maybe_view(zones.0.api_key) == maybe_view(zones.1.api_key)
            &&& maybe_view(zones.0.auth_email) == maybe_view(zones.1.auth_email)
            &&& maybe_view(zones.0.zone_id) == maybe_view(zones.1.zone_id)
            &&& zones.0.ttl == zones.1.ttl
            &&& zones.0.propagation_delay == zones.1.propagation_delay
        },
{
}

/// What concerns certificates and strangers is the same if and only if each of
/// its fields is.
pub proof fn services_are_told_apart(
    acmes: (Hysteria2Acme, Hysteria2Acme),
    masquerades: (Hysteria2Masquerade, Hysteria2Masquerade),
)
    ensures
        acmes.0@ == acmes.1@ ==> {
            let (a, b) = acmes;
            &&& a.domain@ == b.domain@
            &&& maybe_view(a.email) == maybe_view(b.email)
            &&& maybe_view(a.cache_dir) == maybe_view(b.cache_dir)
            &&& a.challenge == b.challenge
            &&& a.production == b.production
            &&& a.dns is Some <==> b.dns is Some
            &&& a.dns is Some ==> {
                &&& a.dns->0.provider == b.dns->0.provider
                &&& a.dns->0.cloudflare is Some <==> b.dns->0.cloudflare is Some
                &&& a.dns->0.cloudflare is Some ==> a.dns->0.cloudflare->0@
                    == b.dns->0.cloudflare->0@
            }
        },
        masquerades.0@ == masquerades.1@ ==> {
            let (a, b) = masquerades;
            &&& a.typ == b.typ
            &&& a.file is Some <==> b.file is Some
            &&& a.file is Some ==> a.file->0.dir@ == b.file->0.dir@
            &&& a.proxy is Some <==> b.proxy is Some
            &&& a.proxy is Some ==> {
                &&& a.proxy->0.url@ == b.proxy->0.url@
                &&& a.proxy->0.rewrite_host == b.proxy->0.rewrite_host
                &&& a.proxy->0.x_forwarded == b.proxy->0.x_forwarded
                &&& a.proxy->0.insecure == b.proxy->0.insecure
            }
            &&& a.string is Some <==> b.string is Some
            &&& a.string is Some ==> {
                &&& a.string->0.content@ == b.string->0.content@
                &&& a.string->0.status_code == b.string->0.status_code
                &&& a.string->0.headers@.len() == b.string->0.headers@.len()
                &&& forall|i: int|
                    0 <= i < a.string->0.headers@.len() ==> {
                        &&& (#[trigger] a.string->0.headers@[i]).name@
                            == b.string->0.headers@[i].name@
                        &&& a.string->0.headers@[i].value@ == b.string->0.headers@[i].value@
                    }
            }
        },
{
    let (a, b) = masquerades;
    if a@ == b@ && a.string is Some {
        let x = a.string->0.headers@;
        let y = b.string->0.headers@;
        let p = crate::config::parts::header_views(x);
        let q = crate::config::parts::header_views(y);
        assert(p == q);
        assert(p.len() == x.len() && q.len() == y.len());
        assert forall|i: int| 0 <= i < x.len() implies (#[trigger] x[i]).name@ == y[i].name@
            && x[i].value@ == y[i].value@ by {
            assert(p[i] == x[i]@);
            assert(q[i] == y[i]@);
        }
    }
}

/// Obfuscations are the same if and only if each of their fields is.
pub proof fn obfuscations_are_told_apart(a: Hysteria2InboundObfs, b: Hysteria2InboundObfs)
    requires
        a@ == b@,
    ensures
        a matches Hysteria2InboundObfs::Simple(kind) ==> b == Hysteria2InboundObfs::Simple(kind),
        a matches Hysteria2InboundObfs::Detailed(one) ==> {
            &&& b matches Hysteria2InboundObfs::Detailed(two)
            &&& one.typ == two.typ
            &&& maybe_view(one.password) == maybe_view(two.password)
            &&& one.salamander is Some <==> two.salamander is Some
            &&& one.salamander is Some ==> one.salamander->0.password@
                == two.salamander->0.password@
        },
{
}

/// The password of an obfuscation: its own comes before one beside it, and that
/// before the listener's.
pub proof fn the_nearest_password_counts(obfs: ObfsKey, common: Option<Seq<char>>)
    ensures
        obfs is Simple ==> obfs.password(common) == common,
        obfs matches ObfsKey::Detailed(own) ==> {
            &&& own.salamander is Some ==> obfs.password(common) == Some(
                own.salamander->0.password,
            )
            &&& own.salamander is None && own.password is Some ==> obfs.password(common)
                == own.password
            &&& own.salamander is None && own.password is None ==> obfs.password(common) == common
        },
{
}

/// Listeners of two kinds are never the same. Two of one kind are the same if
/// and only if all is that says what they do, but for users who can change while
/// they run.
pub proof fn listeners_are_told_apart(a: InboundOpts, b: InboundOpts)
    requires
        a@ == b@,
    ensures
        a.kind_name_spec() == b.kind_name_spec(),
        a.common_key()@ == b.common_key()@,
        a matches InboundOpts::Socks { udp, .. } ==> b matches InboundOpts::Socks { udp: u, .. }
            && udp == u,
        a matches InboundOpts::Mixed { udp, .. } ==> b matches InboundOpts::Mixed { udp: u, .. }
            && udp == u,
        a matches InboundOpts::TProxy { udp, .. } ==> b matches InboundOpts::TProxy { udp: u, .. }
            && udp == u,
        a matches InboundOpts::Tunnel { network, target, .. } ==> {
            &&& b matches InboundOpts::Tunnel { network: n, target: t, .. }
            &&& text_views(network@) == text_views(n@)
            &&& target@ == t@
        },
        a matches InboundOpts::Shadowsocks { udp, cipher, password, .. } ==> {
            &&& b matches InboundOpts::Shadowsocks { udp: u, cipher: c, password: p, .. }
            &&& udp == u
            &&& cipher@ == c@
            &&& password@ == p@
        },
        a matches InboundOpts::Anytls { password, certificate, private_key, fallback, .. } ==> {
            &&& b matches InboundOpts::Anytls {
                password: p,
                certificate: c,
                private_key: k,
                fallback: f,
                ..
            }
            &&& password@ == p@
            &&& maybe_view(certificate) == maybe_view(c)
            &&& maybe_view(private_key) == maybe_view(k)
            &&& maybe_view(fallback) == maybe_view(f)
        },
        a matches InboundOpts::Vless { uuid, users, transport, .. } ==> {
            &&& b matches InboundOpts::Vless { uuid: u, users: us, transport: t, .. }
            &&& maybe_view(uuid) == maybe_view(u)
            &&& transport@ == t@
            &&& users@.len() == us@.len()
            &&& forall|i: int| 0 <= i < users@.len() ==> (#[trigger] users@[i])@ == us@[i]@
        },
        a matches InboundOpts::Hysteria2 {
            password,
            certificate,
            private_key,
            acme,
            obfs,
            obfs_password,
            sni_guard,
            masquerade,
            ..
        } ==> {
            &&& b matches InboundOpts::Hysteria2 {
                password: p,
                certificate: c,
                private_key: k,
                acme: ac,
                obfs: o,
                obfs_password: op,
                sni_guard: g,
                masquerade: m,
                ..
            }
            &&& password@ == p@
            &&& maybe_view(certificate) == maybe_view(c)
            &&& maybe_view(private_key) == maybe_view(k)
            &&& maybe_acme(acme) == maybe_acme(ac)
            &&& maybe_obfs(obfs) == maybe_obfs(o)
            &&& maybe_view(obfs_password) == maybe_view(op)
            &&& sni_guard == g
            &&& maybe_masquerade(masquerade) == maybe_masquerade(m)
        },
        a matches InboundOpts::ShadowQuic {
            username,
            password,
            users,
            server_name,
            jls_upstream,
            zero_rtt,
            congestion_control,
            initial_mtu,
            min_mtu,
            gso,
            mtu_discovery,
            blackhole_detection,
            ..
        } ==> {
            &&& b matches InboundOpts::ShadowQuic {
                username: un,
                password: p,
                users: us,
                server_name: sn,
                jls_upstream: j,
                zero_rtt: z,
                congestion_control: cc,
                initial_mtu: im,
                min_mtu: mm,
                gso: g,
                mtu_discovery: md,
                blackhole_detection: bd,
                ..
            }
            &&& maybe_view(username) == maybe_view(un)
            &&& maybe_view(password) == maybe_view(p)
            &&& maybe_view(server_name) == maybe_view(sn)
            &&& jls_upstream@ == j@
            &&& zero_rtt == z
            &&& maybe_view(congestion_control) == maybe_view(cc)
            &&& initial_mtu == im
            &&& min_mtu == mm
            &&& gso == g
            &&& mtu_discovery == md
            &&& blackhole_detection == bd
            &&& users@.len() == us@.len()
            &&& forall|i: int| 0 <= i < users@.len() ==> (#[trigger] users@[i])@ == us@[i]@
        },
{
    match (a, b) {
        (InboundOpts::Vless { users, .. }, InboundOpts::Vless { users: us, .. }) => {
            let p = crate::config::parts::vless_user_views(users@);
            let q = crate::config::parts::vless_user_views(us@);
            assert(p == q);
            assert(p.len() == users@.len() && q.len() == us@.len());
            assert forall|i: int| 0 <= i < users@.len() implies (#[trigger] users@[i])@
                == us@[i]@ by {
                assert(p[i] == users@[i]@);
                assert(q[i] == us@[i]@);
            }
        },
        (InboundOpts::ShadowQuic { users, .. }, InboundOpts::ShadowQuic { users: us, .. }) => {
            let p = crate::config::parts::shadowquic_user_views(users@);
            let q = crate::config::parts::shadowquic_user_views(us@);
            assert(p == q);
            assert(p.len() == users@.len() && q.len() == us@.len());
            assert forall|i: int| 0 <= i < users@.len() implies (#[trigger] users@[i])@
                == us@[i]@ by {
                assert(p[i] == users@[i]@);
                assert(q[i] == us@[i]@);
            }
        },
        _ => {},
    }
}

/// Each kind of listener goes by its own name.
pub proof fn kinds_go_by_their_names(listener: InboundOpts)
    ensures
        listener is Http ==> listener.kind_name_spec() == "http"@,
        listener is Socks ==> listener.kind_name_spec() == "socks"@,
        listener is Mixed ==> listener.kind_name_spec() == "mixed"@,
        listener is TProxy ==> listener.kind_name_spec() == "tproxy"@,
        listener is Redir ==> listener.kind_name_spec() == "redir"@,
        listener is Tunnel ==> listener.kind_name_spec() == "tunnel"@,
        listener is Shadowsocks ==> listener.kind_name_spec() == "shadowsocks"@,
        listener is Anytls ==> listener.kind_name_spec() == "anytls"@,
        listener is Vless ==> listener.kind_name_spec() == "vless"@,
        listener is Hysteria2 ==> listener.kind_name_spec() == "hysteria2"@,
        listener is ShadowQuic ==> listener.kind_name_spec() == "shadowquic"@,
{
}

/// Other common options change nothing else, and the same ones nothing.
pub proof fn common_options_can_be_exchanged(
    listener: InboundOpts,
    one: CommonInboundOpts,
    two: CommonInboundOpts,
)
    ensures
        listener.with_common(one).common_key() == one,
        listener.with_common(listener.common_key()) == listener,
        listener.with_common(one).with_common(two) == listener.with_common(two),
{
}

pub open spec fn uuids_are_distinct(uuid: Option<Seq<char>>, users: Seq<VlessUserKey>) -> bool {
    &&& uuid is Some ==> uuid_parsed(uuid->0) is Ok
    &&& forall|i: int| 0 <= i < users.len() ==> uuid_parsed((#[trigger] users[i]).uuid) is Ok
    &&& forall|i: int, j: int|
        0 <= i < j < users.len() ==> uuid_parsed((#[trigger] users[i]).uuid) != uuid_parsed(
            (#[trigger] users[j]).uuid,
        )
    &&& uuid is Some ==> forall|i: int|
        0 <= i < users.len() ==> uuid_parsed((#[trigger] users[i]).uuid) != uuid_parsed(uuid->0)
}

/// `text` says what is wrong with the VLESS listener `name`.
pub open spec fn vless_says(name: Seq<char>, text: Seq<char>) -> Option<Seq<char>> {
    Some("vless inbound '"@ + name + "': "@ + text)
}

pub open spec fn hysteria2_says(name: Seq<char>, text: Seq<char>) -> Option<Seq<char>> {
    Some("hysteria2 inbound '"@ + name + "': "@ + text)
}

/// A VLESS listener works if it travels in websockets at an absolute path, with
/// a header of its own that can be sent, if any, and with users whose
/// identifiers can be told apart. What is wrong is told in this order.
pub proof fn vless_listeners_that_work(
    name: Seq<char>,
    uuid: Option<Seq<char>>,
    users: Seq<VlessUserKey>,
    transport: VlessTransportKey,
)
    ensures
        ({
            let said = vless_complaint(name, uuid, users, transport);
            let ws = transport.typ.len() == 2 && (transport.typ[0] == 'w' || transport.typ[0]
                == 'W') && (transport.typ[1] == 's' || transport.typ[1] == 'S');
            let path = transport.path.len() > 0 && transport.path[0] == '/';
            let somebody = uuid is Some || users.len() > 0;
            let header = transport.early_data_header_name is Some ==> is_header_name(
                encode_utf8(transport.early_data_header_name->0),
            );
            &&& said is None <==> ws && path && somebody && header && uuids_are_distinct(
                uuid,
                users,
            )
            &&& !ws ==> said == vless_says(name, "only websocket transport is supported"@)
            &&& ws && !path ==> said == vless_says(name, "websocket path must be absolute"@)
            &&& ws && path && !somebody ==> said == vless_says(name, "uuid or users is required"@)
            &&& ws && path && somebody && !header ==> said == vless_says(
                name,
                "invalid early-data-header-name '"@ + transport.early_data_header_name->0
                    + "': invalid HTTP header name"@,
            )
            &&& ws && path && header && uuid is Some && uuid_parsed(uuid->0) is Err ==> said
                == vless_says(
                name,
                "invalid uuid "@ + uuid->0 + ": "@ + uuid_parsed(uuid->0)->Err_0,
            )
        }),
{
    reveal_strlit("ws");
    let lower = ascii_lower_text(transport.typ);
    let word = ascii_lower_text("ws"@);
    assert(word =~= seq!['w', 's']);
    if lower == word {
        assert(lower.len() == 2);
        assert(lower[0] == 'w');
        assert(lower[1] == 's');
    }
    if transport.typ.len() == 2 && (transport.typ[0] == 'w' || transport.typ[0] == 'W') && (
    transport.typ[1] == 's' || transport.typ[1] == 'S') {
        assert(lower =~= word);
    }
    if uuid is Some ==> uuid_parsed(uuid->0) is Ok {
        vless_users_that_work(name, uuid, users, users.len() as int);
        assert(users.take(users.len() as int) =~= users);
    }
}

proof fn vless_users_that_work(
    name: Seq<char>,
    uuid: Option<Seq<char>>,
    users: Seq<VlessUserKey>,
    count: int,
)
    requires
        0 <= count <= users.len(),
        uuid is Some ==> uuid_parsed(uuid->0) is Ok,
    ensures
        vless_users_complaint(name, uuid, users, count) is None <==> uuids_are_distinct(
            uuid,
            users.take(count),
        ),
    decreases count,
{
    if count > 0 {
        let front = users.take(count - 1);
        let all = users.take(count);
        vless_users_that_work(name, uuid, users, count - 1);
        assert(forall|i: int| 0 <= i < count - 1 ==> all[i] == #[trigger] front[i]);
        assert(forall|i: int| 0 <= i < count - 1 ==> users[i] == #[trigger] front[i]);
        let own = uuid_parsed(users[count - 1].uuid);
        if uuids_are_distinct(uuid, all) {
            assert forall|i: int, j: int| 0 <= i < j < front.len() implies uuid_parsed(
                (#[trigger] front[i]).uuid,
            ) != uuid_parsed((#[trigger] front[j]).uuid) by {
                assert(all[i] == front[i] && all[j] == front[j]);
            }
            assert forall|i: int| 0 <= i < front.len() implies uuid_parsed(
                (#[trigger] front[i]).uuid,
            ) is Ok by {
                assert(all[i] == front[i]);
            }
            assert(uuids_are_distinct(uuid, front));
            assert(all[count - 1] == users[count - 1]);
            assert(own is Ok);
            if is_taken(uuid, users, count - 1, own->Ok_0) {
                if !(uuid is Some && uuid_parsed(uuid->0) == own) {
                    let i = choose|i: int|
                        0 <= i < count - 1 && uuid_parsed((#[trigger] users[i]).uuid) == own;
                    assert(all[i] == users[i]);
                }
            }
        } else if uuids_are_distinct(uuid, front) && own is Ok && !is_taken(
            uuid,
            users,
            count - 1,
            own->Ok_0,
        ) {
            assert forall|i: int| 0 <= i < all.len() implies uuid_parsed(
                (#[trigger] all[i]).uuid,
            ) is Ok by {
                if i < count - 1 {
                    assert(all[i] == front[i]);
                }
            }
            assert forall|i: int, j: int| 0 <= i < j < all.len() implies uuid_parsed(
                (#[trigger] all[i]).uuid,
            ) != uuid_parsed((#[trigger] all[j]).uuid) by {
                assert(all[i] == front[i]);
                if j < count - 1 {
                    assert(all[j] == front[j]);
                } else {
                    assert(users[i] == all[i]);
                }
            }
            assert(uuid is Some ==> forall|i: int|
                0 <= i < all.len() ==> uuid_parsed((#[trigger] all[i]).uuid) != uuid_parsed(
                    uuid->0,
                )) by {
                if uuid is Some {
                    assert forall|i: int| 0 <= i < all.len() implies uuid_parsed(
                        (#[trigger] all[i]).uuid,
                    ) != uuid_parsed(uuid->0) by {
                        if i < count - 1 {
                            assert(all[i] == front[i]);
                        }
                    }
                }
            }
        }
    }
}

/// A label holds 1 to 63 letters, digits and hyphens, the hyphens inside; a
/// domain is labels with dots between them, of at most 253 characters.
pub proof fn domains_are_rows_of_labels(labels: Seq<Seq<char>>, label: Seq<char>)
    requires
        labels.len() > 0,
        none_contains(labels, '.'),
    ensures
        domain_fits(joined_with(labels, '.')) <==> joined_with(labels, '.').len() <= 253 && forall|
            i: int,
        |
            0 <= i < labels.len() ==> label_fits(#[trigger] labels[i]),
        label_fits(label) <==> {
            &&& 0 < label.len() < 64
            &&& label[0] != '-'
            &&& label[label.len() - 1] != '-'
            &&& forall|i: int|
                0 <= i < label.len() ==> {
                    let c = #[trigger] label[i];
                    'a' <= c <= 'z' || 'A' <= c <= 'Z' || '0' <= c <= '9' || c == '-'
                }
        },
{
    joined_parts_are_found(labels, '.');
}

/// What a certificate can be issued for: an IP address, a domain, or a wildcard
/// where control is shown by DNS. White space around it does not count.
pub proof fn identifiers_that_work(name: Seq<char>, domain: Seq<char>, wildcard: bool)
    ensures
        ({
            let inner = trimmed(domain);
            let said = identifier_complaint(name, domain, wildcard);
            let starred = has_prefix(inner, seq!['*', '.']);
            &&& inner.len() == 0 ==> said == hysteria2_says(name, "acme domain cannot be empty"@)
            &&& inner.len() > 0 && ip_of_text(inner) is Some ==> said is None
            &&& inner.len() > 0 && ip_of_text(inner) is None ==> {
                &&& starred && !wildcard ==> said == hysteria2_says(
                    name,
                    "wildcard acme domain requires challenge: dns-01"@,
                )
                &&& starred && wildcard ==> (said is None <==> domain_fits(inner.skip(2)))
                &&& !starred ==> (said is None <==> domain_fits(inner))
                &&& !starred && said is Some ==> said == hysteria2_says(
                    name,
                    "invalid acme domain '"@ + inner + "'"@,
                )
                &&& starred && wildcard && said is Some ==> said == hysteria2_says(
                    name,
                    "invalid acme domain '"@ + inner.skip(2) + "'"@,
                )
            }
        }),
{
}

/// A text that holds more than white space.
pub open spec fn says_something(text: Option<Seq<char>>) -> bool {
    text is Some && trimmed(text->0).len() > 0
}

/// Access to a zone takes a token, or a key with its mail address, and not
/// both.
pub proof fn zones_that_can_be_used(name: Seq<char>, zone: CloudflareKey)
    ensures
        ({
            let said = cloudflare_complaint(name, zone);
            let token = says_something(zone.api_token);
            let key = says_something(zone.api_key);
            let email = says_something(zone.auth_email);
            let id = zone.zone_id is Some ==> says_something(zone.zone_id);
            let ttl = zone.ttl is Some ==> zone.ttl->0 < 2 || zone.ttl->0 >= 60;
            &&& said is None <==> id && ttl && ((token && !key && !email) || (key && email
                && !token))
            &&& !token && !key ==> said == hysteria2_says(
                name,
                "cloudflare api-token or api-key is required"@,
            )
            &&& token && key ==> said == hysteria2_says(
                name,
                "cloudflare api-token and api-key are mutually exclusive"@,
            )
            &&& token && !key && email ==> said == hysteria2_says(
                name,
                "cloudflare auth-email is only used with api-key, not api-token"@,
            )
            &&& !token && key && !email ==> said == hysteria2_says(
                name,
                "cloudflare auth-email is required when api-key is used"@,
            )
            &&& ((token && !key && !email) || (key && email && !token)) && !id ==> said
                == hysteria2_says(name, "cloudflare zone-id cannot be empty"@)
            &&& ((token && !key && !email) || (key && email && !token)) && id && !ttl ==> said
                == hysteria2_says(
                name,
                "cloudflare ttl must be 1 for automatic or at least 60 seconds"@,
            )
        }),
{
}

/// What is asked of a certificate that is to be issued: something it can be
/// issued for, a place to keep it, and a zone if and only if control is shown
/// by DNS.
pub proof fn certificates_that_can_be_issued(name: Seq<char>, acme: AcmeKey)
    ensures
        ({
            let said = acme_complaint(name, acme);
            let dns01 = acme.challenge == Hysteria2AcmeChallenge::Dns01;
            let identifier = identifier_complaint(name, acme.domain, dns01);
            let dir = acme.cache_dir is Some ==> says_something(acme.cache_dir);
            let ip = ip_of_text(acme.domain) is Some;
            let ready = identifier is None && dir;
            &&& identifier is Some ==> said == identifier
            &&& identifier is None && !dir ==> said == hysteria2_says(
                name,
                "acme cache-dir cannot be empty"@,
            )
            &&& ready && !dns01 && acme.dns is None ==> said is None
            &&& ready && !dns01 && acme.dns is Some ==> said == hysteria2_says(
                name,
                "acme.dns requires challenge: dns-01"@,
            )
            &&& ready && dns01 && ip ==> said == hysteria2_says(
                name,
                "dns-01 cannot issue certificates for IP identifiers"@,
            )
            &&& ready && dns01 && !ip && acme.dns is None ==> said == hysteria2_says(
                name,
                "acme.dns is required for challenge: dns-01"@,
            )
            &&& ready && dns01 && !ip && acme.dns is Some && acme.dns->0.cloudflare is None ==> said
                == hysteria2_says(
                name,
                "acme.dns.cloudflare is required for provider: cloudflare"@,
            )
            &&& ready && dns01 && !ip && acme.dns is Some && acme.dns->0.cloudflare is Some ==> said
                == cloudflare_complaint(name, acme.dns->0.cloudflare->0)
        }),
{
}

/// An obfuscation needs a password, and a password needs an obfuscation.
pub proof fn obfuscations_that_work(
    name: Seq<char>,
    obfs: Option<ObfsKey>,
    password: Option<Seq<char>>,
)
    ensures
        ({
            let said = obfs_complaint(name, obfs, password);
            &&& obfs is None ==> (said is None <==> password is None || password->0.len() == 0)
            &&& obfs is None && said is Some ==> said == hysteria2_says(
                name,
                "obfs-password requires obfs: salamander"@,
            )
            &&& obfs matches Some(own) ==> {
                let found = own.password(password);
                &&& said is None <==> found is Some && found->0.len() > 0
                &&& found is None ==> said == hysteria2_says(
                    name,
                    "obfs-password or obfs.salamander.password is required when obfs is enabled"@,
                )
                &&& found is Some && found->0.len() == 0 ==> said == hysteria2_says(
                    name,
                    "obfs password cannot be empty"@,
                )
            }
        }),
{
}

proof fn headers_that_can_be_sent(headers: Seq<HeaderKey>, count: int)
    requires
        0 <= count <= headers.len(),
    ensures
        headers_complaint(headers, count) is None <==> forall|i: int|
            0 <= i < count ==> can_be_sent(#[trigger] headers[i]),
    decreases count,
{
    if count > 0 {
        headers_that_can_be_sent(headers, count - 1);
        if headers_complaint(headers, count) is Some && headers_complaint(headers, count - 1) is None {
            assert(!can_be_sent(headers[count - 1]));
        }
    }
}

/// The first header that cannot be sent is complained of, its name before its
/// value.
pub proof fn bad_headers_are_told(headers: Seq<HeaderKey>, at: int)
    requires
        0 <= at < headers.len(),
        !can_be_sent(headers[at]),
        forall|i: int| 0 <= i < at ==> can_be_sent(#[trigger] headers[i]),
    ensures
        !is_header_name(encode_utf8(headers[at].name)) ==> headers_complaint(
            headers,
            headers.len() as int,
        ) == Some(
            "hysteria2 inbound: invalid masquerade header name '"@ + headers[at].name
                + "': invalid HTTP header name"@,
        ),
        is_header_name(encode_utf8(headers[at].name)) ==> headers_complaint(
            headers,
            headers.len() as int,
        ) == Some(
            "hysteria2 inbound: invalid masquerade header value for '"@ + headers[at].name
                + "': failed to parse header value"@,
        ),
{
    headers_that_can_be_sent(headers, at);
    complaint_stays(headers, at + 1, headers.len() as int);
}

proof fn complaint_stays(headers: Seq<HeaderKey>, count: int, total: int)
    requires
        0 <= count <= total,
        headers_complaint(headers, count) is Some,
    ensures
        headers_complaint(headers, total) == headers_complaint(headers, count),
    decreases total - count,
{
    if count < total {
        complaint_stays(headers, count, total - 1);
    }
}

/// What strangers get must be given in full: a directory, a site on the web, or
/// an answer with content, a status that can be sent, and headers that can.
pub proof fn masquerades_that_work(name: Seq<char>, masquerade: MasqueradeKey)
    ensures
        ({
            let said = masquerade_complaint(name, masquerade);
            &&& masquerade.typ == Hysteria2MasqueradeType::NotFound ==> said is None
            &&& masquerade.typ == Hysteria2MasqueradeType::File ==> {
                &&& said is None <==> masquerade.file is Some && trimmed(
                    masquerade.file->0.dir,
                ).len() > 0
                &&& masquerade.file is None ==> said == hysteria2_says(
                    name,
                    "masquerade.file is required for type: file"@,
                )
                &&& masquerade.file is Some && said is Some ==> said == hysteria2_says(
                    name,
                    "masquerade.file.dir cannot be empty"@,
                )
            }
            &&& masquerade.typ == Hysteria2MasqueradeType::Proxy ==> {
                &&& said is None <==> masquerade.proxy is Some && url_parsed(
                    masquerade.proxy->0.url,
                ) is Ok && (has_prefix(url_parsed(masquerade.proxy->0.url)->Ok_0, "http:"@)
                    || has_prefix(url_parsed(masquerade.proxy->0.url)->Ok_0, "https:"@))
                &&& masquerade.proxy is None ==> said == hysteria2_says(
                    name,
                    "masquerade.proxy is required for type: proxy"@,
                )
                &&& masquerade.proxy is Some && url_parsed(masquerade.proxy->0.url) is Err ==> said
                    == hysteria2_says(
                    name,
                    "invalid masquerade.proxy.url '"@ + masquerade.proxy->0.url + "': "@
                        + url_parsed(masquerade.proxy->0.url)->Err_0,
                )
                &&& masquerade.proxy is Some && url_parsed(masquerade.proxy->0.url) is Ok && said is Some
                    ==> said == hysteria2_says(
                    name,
                    "masquerade.proxy.url must use http or https"@,
                )
            }
            &&& masquerade.typ == Hysteria2MasqueradeType::String ==> {
                &&& masquerade.string is None ==> said == hysteria2_says(
                    name,
                    "masquerade.string is required for type: string"@,
                )
                &&& masquerade.string matches Some(answer) ==> {
                    let status = answer.status_code is None || answer.status_code->0 == 0 || (200
                        <= answer.status_code->0 < 600 && answer.status_code->0 != 233);
                    let sendable = forall|i: int|
                        0 <= i < answer.headers.len() ==> can_be_sent(#[trigger] answer.headers[i]);
                    &&& said is None <==> answer.content.len() > 0 && status && sendable
                    &&& answer.content.len() == 0 ==> said == hysteria2_says(
                        name,
                        "masquerade.string.content cannot be empty"@,
                    )
                    &&& answer.content.len() > 0 && !status ==> said == hysteria2_says(
                        name,
                        "masquerade.string.status-code must be 0 or 200-599 except 233"@,
                    )
                    &&& answer.content.len() > 0 && status ==> said == headers_complaint(
                        answer.headers,
                        answer.headers.len() as int,
                    )
                }
            }
        }),
{
    if masquerade.string is Some {
        let headers = masquerade.string->0.headers;
        headers_that_can_be_sent(headers, headers.len() as int);
    }
}

/// Every user has a name and a password, and no two share a password.
pub open spec fn users_can_be_told_apart(users: Seq<InboundUser>) -> bool {
    &&& forall|i: int|
        0 <= i < users.len() ==> trimmed((#[trigger] users[i]).name@).len() > 0
            && users[i].password@.len() > 0
    &&& forall|i: int, j: int|
        0 <= i < j < users.len() ==> (#[trigger] users[i]).password@ != (
        #[trigger] users[j]).password@
}

proof fn users_that_work(name: Seq<char>, users: Seq<InboundUser>, count: int)
    requires
        0 <= count <= users.len(),
    ensures
        users_complaint(name, users, count) is None <==> users_can_be_told_apart(users.take(count)),
    decreases count,
{
    if count > 0 {
        let front = users.take(count - 1);
        let all = users.take(count);
        users_that_work(name, users, count - 1);
        assert(forall|i: int| 0 <= i < count - 1 ==> all[i] == #[trigger] front[i]);
        let own = users[count - 1];
        assert(all[count - 1] == own);
        if users_can_be_told_apart(all) {
            assert forall|i: int| 0 <= i < front.len() implies trimmed(
                (#[trigger] front[i]).name@,
            ).len() > 0 && front[i].password@.len() > 0 by {
                assert(all[i] == front[i]);
            }
            assert forall|i: int, j: int| 0 <= i < j < front.len() implies (
            #[trigger] front[i]).password@ != (#[trigger] front[j]).password@ by {
                assert(all[i] == front[i] && all[j] == front[j]);
            }
            if password_taken(users, count - 1, own.password@) {
                let i = choose|i: int|
                    0 <= i < count - 1 && (#[trigger] users[i]).password@ == own.password@;
                assert(all[i] == users[i]);
            }
        } else if users_can_be_told_apart(front) && trimmed(own.name@).len() > 0
            && own.password@.len() > 0 && !password_taken(users, count - 1, own.password@) {
            assert forall|i: int| 0 <= i < all.len() implies trimmed(
                (#[trigger] all[i]).name@,
            ).len() > 0 && all[i].password@.len() > 0 by {
                if i < count - 1 {
                    assert(all[i] == front[i]);
                }
            }
            assert forall|i: int, j: int| 0 <= i < j < all.len() implies (
            #[trigger] all[i]).password@ != (#[trigger] all[j]).password@ by {
                assert(all[i] == front[i]);
                if j < count - 1 {
                    assert(all[j] == front[j]);
                } else {
                    assert(users[i] == all[i]);
                }
            }
        }
    }
}

/// The first user that is wrong is complained of: an empty name first, then an
/// empty password, then one that is taken.
pub proof fn bad_users_are_told(name: Seq<char>, users: Seq<InboundUser>, at: int)
    requires
        0 <= at < users.len(),
        users_can_be_told_apart(users.take(at)),
        !users_can_be_told_apart(users.take(at + 1)),
    ensures
        ({
            let said = users_complaint(name, users, users.len() as int);
            let user = users[at];
            let named = trimmed(user.name@).len() > 0;
            &&& !named ==> said == hysteria2_says(name, "user name cannot be empty"@)
            &&& named && user.password@.len() == 0 ==> said == hysteria2_says(
                name,
                "user '"@ + user.name@ + "' password cannot be empty"@,
            )
            &&& named && user.password@.len() > 0 ==> said == hysteria2_says(
                name,
                "duplicate password for user '"@ + user.name@ + "'"@,
            )
        }),
{
    users_that_work(name, users, at);
    users_that_work(name, users, at + 1);
    user_complaint_stays(name, users, at + 1, users.len() as int);
}

proof fn user_complaint_stays(name: Seq<char>, users: Seq<InboundUser>, count: int, total: int)
    requires
        0 <= count <= total,
        users_complaint(name, users, count) is Some,
    ensures
        users_complaint(name, users, total) == users_complaint(name, users, count),
    decreases total - count,
{
    if count < total {
        user_complaint_stays(name, users, count, total - 1);
    }
}

/// A Hysteria2 listener works if somebody can be let in, if its certificate
/// comes from one place, and if nothing is wrong with that place, the
/// obfuscation, what strangers get and the users. What is wrong is told in this
/// order; listeners of other kinds are taken as they are.
pub proof fn hysteria2_listeners_that_work(listener: InboundOpts)
    ensures
        listener matches InboundOpts::Vless { common_opts, uuid, users, transport }
            ==> listener_complaint(listener) == vless_complaint(
            common_opts.name@,
            maybe_view(uuid),
            crate::config::parts::vless_user_views(users@),
            transport@,
        ),
        !(listener is Vless) && !(listener is Hysteria2) ==> listener_complaint(listener) is None,
        listener matches InboundOpts::Hysteria2 {
            common_opts,
            password,
            certificate,
            private_key,
            acme,
            users,
            obfs,
            obfs_password,
            sni_guard,
            masquerade,
        } ==> {
            let name = common_opts.name@;
            let said = listener_complaint(listener);
            let somebody = password@.len() > 0 || users@.len() > 0;
            let pair = certificate is Some <==> private_key is Some;
            let one = acme is None || certificate is None;
            let issued = acme is Some ==> acme_complaint(name, acme->0@) is None;
            let hidden = obfs_complaint(name, maybe_obfs(obfs), maybe_view(obfs_password));
            let shown = masquerade is Some ==> masquerade_complaint(name, masquerade->0@) is None;
            &&& said is None <==> somebody && pair && one && issued && hidden is None && shown
                && users_can_be_told_apart(users@)
            &&& !somebody ==> said == hysteria2_says(name, "password or users is required"@)
            &&& somebody && !pair ==> said == hysteria2_says(
                name,
                "certificate and private-key must both be set or both omitted"@,
            )
            &&& somebody && pair && !one ==> said == hysteria2_says(
                name,
                "acme cannot be used with certificate or private-key"@,
            )
            &&& somebody && pair && one && !issued ==> said == acme_complaint(name, acme->0@)
            &&& somebody && pair && one && issued && hidden is Some ==> said == hidden
            &&& somebody && pair && one && issued && hidden is None && !shown ==> said
                == masquerade_complaint(name, masquerade->0@)
            &&& somebody && pair && one && issued && hidden is None && shown ==> said
                == users_complaint(name, users@, users@.len() as int)
        },
{
    if let InboundOpts::Hysteria2 { common_opts, users, .. } = listener {
        users_that_work(common_opts.name@, users@, users@.len() as int);
        assert(users@.take(users@.len() as int) =~= users@);
    }
}

/// A handler is of its listener's kind and listens where the listener is to.
/// Transparent ones run only where the platform redirects traffic.
pub proof fn handlers_are_of_their_kind(
    listener: InboundOpts,
    transparent: bool,
    made: Result<Handler, Skipped>,
)
    requires
        handler_matches(listener, transparent, made),
    ensures
        ({
            let common = listener.common_key();
            let options = plain_spec(common);
            &&& options.addr.ip == common.listen.0
            &&& options.addr.port == common.port
            &&& options.addr.flowinfo == 0
            &&& options.addr.scope_id == 0
            &&& options.allow_lan == common.allow_lan
            &&& options.fw_mark == common.fw_mark
            &&& listener is Http ==> made == Ok::<Handler, Skipped>(Handler::Http(options))
            &&& listener is Socks ==> made == Ok::<Handler, Skipped>(Handler::Socks(options))
            &&& listener is Mixed ==> made == Ok::<Handler, Skipped>(Handler::Mixed(options))
            &&& listener is TProxy && transparent ==> made == Ok::<Handler, Skipped>(
                Handler::TProxy(options),
            )
            &&& listener is TProxy && !transparent ==> made == Err::<Handler, Skipped>(
                Skipped::TProxyPlatform,
            )
            &&& listener is Redir && transparent ==> made == Ok::<Handler, Skipped>(
                Handler::Redir(options),
            )
            &&& listener is Redir && !transparent ==> made == Err::<Handler, Skipped>(
                Skipped::RedirPlatform,
            )
            &&& listener matches InboundOpts::Tunnel { network, target, .. } ==> made matches Ok(
                Handler::Tunnel { options: o, network: n, target: t },
            ) && o == options && n == network && t == target
            &&& listener matches InboundOpts::Shadowsocks { udp, cipher, password, users, .. }
                ==> made matches Ok(
                Handler::Shadowsocks { options: o, udp: u, cipher: c, password: p, users: us },
            ) && o == options && u == udp && c == cipher && p == password && us == users
            &&& listener matches InboundOpts::Anytls {
                password,
                certificate,
                private_key,
                users,
                fallback,
                ..
            } ==> made matches Ok(
                Handler::Anytls {
                    options: o,
                    password: p,
                    certificate: c,
                    private_key: k,
                    fallback: f,
                    users: us,
                },
            ) && o == options && p == password && c == certificate && k == private_key && f
                == fallback && us == users
            &&& listener is ShadowQuic ==> (made matches Ok(
                Handler::ShadowQuic { options: o, .. },
            ) && o == options)
            &&& listener is Vless ==> (made is Ok && made->Ok_0 is Vless) || (made is Err && (
            made->Err_0 is Vless || made->Err_0 is VlessTransport))
            &&& listener is Hysteria2 ==> (made is Ok && made->Ok_0 is Hysteria2) || (made is Err
                && made->Err_0 is Hysteria2)
        }),
{
}

/// A VLESS inbound is set up with what its listener says.
pub proof fn vless_options_are_the_listeners(listener: InboundOpts, opts: VlessOptions)
    requires
        is_vless_options(listener, opts),
    ensures
        listener matches InboundOpts::Vless { common_opts, uuid, users, transport } && {
            &&& opts.addr == (SocketAddr {
                ip: common_opts.listen.0,
                port: common_opts.port,
                flowinfo: 0,
                scope_id: 0,
            })
            &&& opts.allow_lan == common_opts.allow_lan
            &&& opts.fw_mark == common_opts.fw_mark
            &&& maybe_view(opts.uuid) == maybe_view(uuid)
            &&& opts.ws.path@ == transport.path@
            &&& maybe_view(opts.ws.early_data_header_name) == maybe_view(
                transport.early_data_header_name,
            )
            &&& opts.users@.len() == users@.len()
            &&& forall|i: int|
                0 <= i < users@.len() ==> (#[trigger] opts.users@[i]).uuid@ == users@[i].uuid@
                    && maybe_view(opts.users@[i].name) == maybe_view(users@[i].name)
        },
{
    if let InboundOpts::Vless { common_opts, uuid, users, transport } = listener {
        let p = crate::vless::inbound::user_views(opts.users@);
        let q = crate::config::parts::vless_user_views(users@);
        assert(p == q);
        assert(p.len() == opts.users@.len() && q.len() == users@.len());
        assert forall|i: int| 0 <= i < users@.len() implies (
        #[trigger] opts.users@[i]).uuid@ == users@[i].uuid@ && maybe_view(opts.users@[i].name)
            == maybe_view(users@[i].name) by {
            assert(p[i] == opts.users@[i]@);
            assert(q[i] == users@[i]@);
        }
    }
}

/// A Hysteria2 inbound is set up with what its listener says.
pub proof fn hysteria2_options_are_the_listeners(listener: InboundOpts, opts: Hysteria2Options)
    requires
        is_hysteria2_options(listener, opts),
    ensures
        listener matches InboundOpts::Hysteria2 {
            common_opts,
            password,
            certificate,
            private_key,
            acme,
            users,
            obfs,
            obfs_password,
            sni_guard,
            masquerade,
        } && {
            &&& opts.addr == (SocketAddr {
                ip: common_opts.listen.0,
                port: common_opts.port,
                flowinfo: 0,
                scope_id: 0,
            })
            &&& opts.allow_lan == common_opts.allow_lan
            &&& opts.fw_mark == common_opts.fw_mark
            &&& opts.password@ == password@
            &&& maybe_view(opts.certificate) == maybe_view(certificate)
            &&& maybe_view(opts.private_key) == maybe_view(private_key)
            &&& opts.acme is Some <==> acme is Some
            &&& acme is Some ==> is_acme_options(acme->0@, opts.acme->0)
            &&& opts.obfs is Some <==> obfs is Some
            &&& obfs is Some ==> {
                &&& opts.obfs matches Some(ObfsOptions::Salamander { password: p })
                &&& obfs->0@.password(maybe_view(obfs_password)) == Some(p@)
            }
            &&& sni_guard == Hysteria2SniGuard::Disable <==> opts.sni_guard == SniGuardMode::Disable
            &&& sni_guard == Hysteria2SniGuard::DnsSan <==> opts.sni_guard == SniGuardMode::DnsSan
            &&& sni_guard == Hysteria2SniGuard::Strict <==> opts.sni_guard == SniGuardMode::Strict
            &&& masquerade is None ==> opts.masquerade is Default
            &&& masquerade is Some ==> is_masquerade_options(
                Some(masquerade->0@),
                opts.masquerade,
            )
        },
{
}

/// A certificate is ordered as it is configured; without a directory of its
/// own it is kept in one under the working directory that is named after it.
pub proof fn certificates_are_ordered_as_configured(acme: AcmeKey, options: AcmeOptions)
    requires
        is_acme_options(acme, options),
    ensures
        options.domain@ == acme.domain,
        maybe_view(options.email) == acme.email,
        options.production <==> acme.production,
        acme.cache_dir is Some ==> options.cache_dir@ == acme.cache_dir->0,
        acme.cache_dir is None ==> has_prefix(options.cache_dir@, "./hysteria2-acme-cache/"@)
            && options.cache_dir@.skip("./hysteria2-acme-cache/"@.len() as int)
            == crate::hysteria2::acme::safe_name_spec(acme.domain),
        acme.challenge == Hysteria2AcmeChallenge::TlsAlpn01 <==> options.challenge is TlsAlpn01,
        acme.challenge == Hysteria2AcmeChallenge::Dns01 ==> {
            &&& options.challenge matches AcmeChallenge::Dns01 { cloudflare }
            &&& is_dns_options(acme.dns->0.cloudflare->0, cloudflare)
        },
{
    let front = "./hysteria2-acme-cache/"@;
    let tail = crate::hysteria2::acme::safe_name_spec(acme.domain);
    assert((front + tail).take(front.len() as int) =~= front);
    assert((front + tail).skip(front.len() as int) =~= tail);
}

/// A zone is used as it is configured: with the key and its address if there is
/// a key, else with the token, all without white space around them. Unless the
/// configuration says otherwise, a record is left alone for half a minute.
pub proof fn zones_are_used_as_configured(zone: CloudflareKey, options: CloudflareDnsOptions)
    requires
        is_dns_options(zone, options),
    ensures
        says_something(zone.api_key) ==> (options.auth matches CloudflareAuth::GlobalKey {
            email,
            key,
        } && email@ == trimmed(zone.auth_email->0) && key@ == trimmed(zone.api_key->0)),
        !says_something(zone.api_key) ==> (options.auth matches CloudflareAuth::ApiToken(token)
            && token@ == trimmed(zone.api_token->0)),
        maybe_view(options.zone_id) == zone.zone_id,
        options.ttl == zone.ttl,
        zone.propagation_delay is Some ==> options.propagation_delay_secs
            == zone.propagation_delay->0,
        zone.propagation_delay is None ==> options.propagation_delay_secs == 30,
{
}

/// What strangers get is what is configured for them.
pub proof fn strangers_get_what_is_configured(
    masquerade: MasqueradeKey,
    options: MasqueradeOptions,
)
    requires
        is_masquerade_options(Some(masquerade), options),
    ensures
        masquerade.typ == Hysteria2MasqueradeType::NotFound <==> options is NotFound,
        masquerade.typ == Hysteria2MasqueradeType::File ==> (
        options matches MasqueradeOptions::File { dir } && dir@ == masquerade.file->0.dir),
        masquerade.typ == Hysteria2MasqueradeType::Proxy ==> {
            &&& options matches MasqueradeOptions::Proxy {
                url,
                rewrite_host,
                x_forwarded,
                insecure,
            }
            &&& url@ == masquerade.proxy->0.url
            &&& rewrite_host == masquerade.proxy->0.rewrite_host
            &&& x_forwarded == masquerade.proxy->0.x_forwarded
            &&& insecure == masquerade.proxy->0.insecure
        },
        masquerade.typ == Hysteria2MasqueradeType::String ==> {
            &&& options matches MasqueradeOptions::String { content, headers, status_code }
            &&& content@ == masquerade.string->0.content
            &&& crate::config::parts::header_views(headers@) == masquerade.string->0.headers
            &&& status_code == masquerade.string->0.status_code
        },
{
}

/// An inbound that runs does what its listener says: where it listens, for whom,
/// at which path and under which password.
pub proof fn inbounds_do_what_listeners_say(
    listener: InboundOpts,
    transparent: bool,
    made: Result<Handler, Skipped>,
)
    requires
        handler_matches(listener, transparent, made),
    ensures
        made matches Ok(Handler::Vless(inbound)) ==> {
            let common = listener.common_key();
            &&& inbound.addr.ip == common.listen.0
            &&& inbound.addr.port == common.port
            &&& inbound.allow_lan == common.allow_lan
            &&& inbound.fw_mark == common.fw_mark
            &&& listener matches InboundOpts::Vless { transport, .. }
            &&& inbound.ws_path@ == transport.path@
            &&& inbound.early_data_header_name == transport.early_data_header_name
        },
        made matches Ok(Handler::Hysteria2 { inbound, users }) ==> {
            let common = listener.common_key();
            &&& inbound.addr.ip == common.listen.0
            &&& inbound.addr.port == common.port
            &&& inbound.allow_lan == common.allow_lan
            &&& inbound.fw_mark == common.fw_mark
            &&& listener matches InboundOpts::Hysteria2 {
                password,
                certificate,
                private_key,
                acme,
                users: own,
                ..
            }
            &&& users == own
            &&& inbound.password@ == password@
            &&& inbound.source is Files <==> certificate is Some && private_key is Some
                && acme is None
            &&& inbound.source is Acme <==> acme is Some && certificate is None
                && private_key is None
        },
{
}

/// Of a VLESS listener only websockets are run, and only at an absolute path; of
/// a Hysteria2 listener only one source of certificates.
pub proof fn listeners_that_are_skipped(
    listener: InboundOpts,
    transparent: bool,
    made: Result<Handler, Skipped>,
)
    requires
        handler_matches(listener, transparent, made),
    ensures
        listener matches InboundOpts::Vless { common_opts, transport, uuid, users } ==> {
            let typ = transport.typ@;
            let ws = typ.len() == 2 && (typ[0] == 'w' || typ[0] == 'W') && (typ[1] == 's' || typ[1]
                == 'S');
            let path = transport.path@.len() > 0 && transport.path@[0] == '/';
            &&& !ws ==> made is Err && made->Err_0 is VlessTransport
                && made->Err_0->VlessTransport_0@ == common_opts.name@
            &&& ws && !path ==> made == Err::<Handler, Skipped>(Skipped::Vless(VlessError::Path))
            &&& ws && path && uuid is None && users@.len() == 0 ==> made == Err::<
                Handler,
                Skipped,
            >(Skipped::Vless(VlessError::NoUsers))
        },
        listener matches InboundOpts::Hysteria2 { certificate, private_key, acme, .. } ==> {
            let one = (certificate is Some && private_key is Some && acme is None) || (
            certificate is None && private_key is None);
            &&& !one ==> made == Err::<Handler, Skipped>(
                Skipped::Hysteria2(SetupError::CertificateSource),
            )
            &&& one ==> made != Err::<Handler, Skipped>(
                Skipped::Hysteria2(SetupError::CertificateSource),
            )
        },
        listener matches InboundOpts::ShadowQuic {
            username,
            password,
            users,
            server_name,
            jls_upstream,
            alpn,
            zero_rtt,
            congestion_control,
            initial_mtu,
            min_mtu,
            gso,
            mtu_discovery,
            blackhole_detection,
            ..
        } ==> {
            &&& made matches Ok(
                Handler::ShadowQuic {
                    username: un,
                    password: p,
                    users: us,
                    server_name: sn,
                    jls_upstream: j,
                    alpn: al,
                    zero_rtt: z,
                    congestion_control: cc,
                    initial_mtu: im,
                    min_mtu: mm,
                    gso: g,
                    mtu_discovery: md,
                    blackhole_detection: bd,
                    ..
                },
            )
            &&& un == username && p == password && us == users && sn == server_name && j
                == jls_upstream
            &&& al == alpn && z == zero_rtt && cc == congestion_control
            &&& im == initial_mtu && mm == min_mtu && g == gso && md == mtu_discovery && bd
                == blackhole_detection
        },
{
    if let InboundOpts::Vless { common_opts, transport, uuid, users } = listener {
        reveal_strlit("ws");
        let typ = transport.typ@;
        let lower = ascii_lower_text(typ);
        let ws = ascii_lower_text("ws"@);
        assert(ws =~= seq!['w', 's']);
        if lower == ws {
            assert(typ.len() == 2);
            assert(lower[0] == ascii_lower(typ[0]) && lower[1] == ascii_lower(typ[1]));
        } else if typ.len() == 2 && (typ[0] == 'w' || typ[0] == 'W') && (typ[1] == 's' || typ[1]
            == 'S') {
            assert(lower =~= ws);
        }
        if uuid is None && users@.len() == 0 {
            assert forall|opts: VlessOptions| #[trigger] is_vless_options(
                listener,
                opts,
            ) implies opts.users@.len() == 0 && opts.uuid is None by {
                assert(user_views(opts.users@) == vless_user_views(users@));
                assert(user_views(opts.users@).len() == opts.users@.len());
                assert(vless_user_views(users@).len() == 0);
            }
        }
    }
}

/// A provider that is renamed keeps all but its name, and goes by the last name
/// that it was given.
pub proof fn providers_are_renamed(provider: InboundProviderDef, first: String, last: String)
    ensures
        provider.renamed(first).renamed(last) == provider.renamed(last),
        provider matches InboundProviderDef::Http(p) ==> {
            &&& provider.renamed(last) matches InboundProviderDef::Http(q)
            &&& q.name == last
            &&& q.url == p.url
            &&& q.interval == p.interval
            &&& q.path == p.path
        },
        provider matches InboundProviderDef::File(p) ==> {
            &&& provider.renamed(last) matches InboundProviderDef::File(q)
            &&& q.name == last
            &&& q.path == p.path
            &&& q.interval == p.interval
        },
{
}

} // verus!
