//! The parts that listener configurations are made of.
//!
//! Every part has a mathematical model, a comparison that is exact on the
//! models, and a byte code that is a function of the model.

use vstd::prelude::*;

use crate::config::code::{
    bool_code, counted_texts_code, maybe_number_code, maybe_text_code, maybe_text_views,
    number_code, put_bool, put_maybe_number, put_maybe_text, put_number, put_text, put_texts,
    same_maybe, same_texts, text_code,
};
use crate::net::addr::IpAddr;
use crate::net::print::ip_text;
use crate::text::maybe_view;

verus! {

/// The address that a listener binds to.
#[derive(Clone, Copy, Debug, PartialEq, Eq, Structural)]
pub struct BindAddress(pub IpAddr);

impl BindAddress {
    /// The loopback address of version four.
    pub fn local() -> (address: Self)
        ensures
            address == BindAddress(IpAddr::V4(127, 0, 0, 1)),
    {
        BindAddress(IpAddr::V4(127, 0, 0, 1))
    }

    /// All addresses of version four.
    pub fn all() -> (address: Self)
        ensures
            address == BindAddress(IpAddr::V4(0, 0, 0, 0)),
    {
        BindAddress(IpAddr::V4(0, 0, 0, 0))
    }
}

pub open spec fn str_view(text: Option<&str>) -> Option<Seq<char>> {
    match text {
        Some(t) => Some(t@),
        None => None,
    }
}

fn put_texts_of_ip(out: &mut Vec<u8>, ip: IpAddr)
    ensures
        final(out)@ == old(out)@ + text_code(ip_text(ip)),
{
    let text = ip.text();
    put_text(out, text.as_str());
}

pub open spec fn widened_u16(value: Option<u16>) -> Option<u64> {
    match value {
        Some(v) => Some(v as u64),
        None => None,
    }
}

pub fn widen_u16(value: Option<u16>) -> (wide: Option<u64>)
    ensures
        wide == widened_u16(value),
{
    match value {
        Some(v) => Some(v as u64),
        None => None,
    }
}

pub open spec fn widened_u32(value: Option<u32>) -> Option<u64> {
    match value {
        Some(v) => Some(v as u64),
        None => None,
    }
}

pub fn widen_u32(value: Option<u32>) -> (wide: Option<u64>)
    ensures
        wide == widened_u32(value),
{
    match value {
        Some(v) => Some(v as u64),
        None => None,
    }
}

pub fn same_maybe_u16(a: Option<u16>, b: Option<u16>) -> (same: bool)
    ensures
        same == (a == b),
{
    match (a, b) {
        (Some(x), Some(y)) => x == y,
        (None, None) => true,
        _ => false,
    }
}

pub fn same_maybe_u32(a: Option<u32>, b: Option<u32>) -> (same: bool)
    ensures
        same == (a == b),
{
    match (a, b) {
        (Some(x), Some(y)) => x == y,
        (None, None) => true,
        _ => false,
    }
}

pub fn same_maybe_u64(a: Option<u64>, b: Option<u64>) -> (same: bool)
    ensures
        same == (a == b),
{
    match (a, b) {
        (Some(x), Some(y)) => x == y,
        (None, None) => true,
        _ => false,
    }
}

pub fn same_maybe_bool(a: Option<bool>, b: Option<bool>) -> (same: bool)
    ensures
        same == (a == b),
{
    match (a, b) {
        (Some(x), Some(y)) => x == y,
        (None, None) => true,
        _ => false,
    }
}

pub open spec fn maybe_texts_code(texts: Option<Seq<Seq<char>>>) -> Seq<u8> {
    match texts {
        Some(list) => bool_code(true) + counted_texts_code(list),
        None => bool_code(false),
    }
}

pub fn put_maybe_texts(out: &mut Vec<u8>, texts: &Option<Vec<String>>)
    ensures
        final(out)@ == old(out)@ + maybe_texts_code(maybe_text_views(*texts)),
{
    match texts {
        Some(list) => {
            put_bool(out, true);
            put_texts(out, list);
            assert(out@ =~= old(out)@ + maybe_texts_code(maybe_text_views(*texts)));
        },
        None => put_bool(out, false),
    }
}

pub fn same_maybe_texts(a: &Option<Vec<String>>, b: &Option<Vec<String>>) -> (same: bool)
    ensures
        same == (maybe_text_views(*a) == maybe_text_views(*b)),
{
    match (a, b) {
        (Some(x), Some(y)) => same_texts(x, y),
        (None, None) => true,
        _ => false,
    }
}

/// How control over a domain is shown.
#[derive(Clone, Copy, Debug, PartialEq, Eq, Structural)]
pub enum Hysteria2AcmeChallenge {
    TlsAlpn01,
    Dns01,
}

impl Hysteria2AcmeChallenge {
    pub open spec fn tag_spec(self) -> u64 {
        match self {
            Hysteria2AcmeChallenge::TlsAlpn01 => 0,
            Hysteria2AcmeChallenge::Dns01 => 1,
        }
    }

    pub fn tag(&self) -> (tag: u64)
        ensures
            tag == self.tag_spec(),
    {
        match self {
            Hysteria2AcmeChallenge::TlsAlpn01 => 0,
            Hysteria2AcmeChallenge::Dns01 => 1,
        }
    }
}

impl Default for Hysteria2AcmeChallenge {
    fn default() -> (value: Self)
        ensures
            value == Hysteria2AcmeChallenge::TlsAlpn01,
    {
        Hysteria2AcmeChallenge::TlsAlpn01
    }
}

/// A provider of DNS zones.
#[derive(Clone, Copy, Debug, PartialEq, Eq, Structural)]
pub enum Hysteria2AcmeDnsProvider {
    Cloudflare,
}

impl Hysteria2AcmeDnsProvider {
    pub open spec fn tag_spec(self) -> u64 {
        match self {
            Hysteria2AcmeDnsProvider::Cloudflare => 0,
        }
    }

    pub fn tag(&self) -> (tag: u64)
        ensures
            tag == self.tag_spec(),
    {
        match self {
            Hysteria2AcmeDnsProvider::Cloudflare => 0,
        }
    }
}

/// The kinds of obfuscation.
#[derive(Clone, Copy, Debug, PartialEq, Eq, Structural)]
pub enum Hysteria2InboundObfsKind {
    Salamander,
}

impl Hysteria2InboundObfsKind {
    pub open spec fn tag_spec(self) -> u64 {
        match self {
            Hysteria2InboundObfsKind::Salamander => 0,
        }
    }

    pub fn tag(&self) -> (tag: u64)
        ensures
            tag == self.tag_spec(),
    {
        match self {
            Hysteria2InboundObfsKind::Salamander => 0,
        }
    }
}

/// How strictly the server name of a client is checked.
#[derive(Clone, Copy, Debug, PartialEq, Eq, Structural)]
pub enum Hysteria2SniGuard {
    Disable,
    DnsSan,
    Strict,
}

impl Hysteria2SniGuard {
    pub open spec fn tag_spec(self) -> u64 {
        match self {
            Hysteria2SniGuard::Disable => 0,
            Hysteria2SniGuard::DnsSan => 1,
            Hysteria2SniGuard::Strict => 2,
        }
    }

    pub fn tag(&self) -> (tag: u64)
        ensures
            tag == self.tag_spec(),
    {
        match self {
            Hysteria2SniGuard::Disable => 0,
            Hysteria2SniGuard::DnsSan => 1,
            Hysteria2SniGuard::Strict => 2,
        }
    }
}

impl Default for Hysteria2SniGuard {
    fn default() -> (value: Self)
        ensures
            value == Hysteria2SniGuard::DnsSan,
    {
        Hysteria2SniGuard::DnsSan
    }
}

/// The kinds of answers to strangers.
#[derive(Clone, Copy, Debug, PartialEq, Eq, Structural)]
pub enum Hysteria2MasqueradeType {
    NotFound,
    File,
    Proxy,
    String,
}

impl Hysteria2MasqueradeType {
    pub open spec fn tag_spec(self) -> u64 {
        match self {
            Hysteria2MasqueradeType::NotFound => 0,
            Hysteria2MasqueradeType::File => 1,
            Hysteria2MasqueradeType::Proxy => 2,
            Hysteria2MasqueradeType::String => 3,
        }
    }

    pub fn tag(&self) -> (tag: u64)
        ensures
            tag == self.tag_spec(),
    {
        match self {
            Hysteria2MasqueradeType::NotFound => 0,
            Hysteria2MasqueradeType::File => 1,
            Hysteria2MasqueradeType::Proxy => 2,
            Hysteria2MasqueradeType::String => 3,
        }
    }
}

/// A user of a VLESS inbound.
#[derive(Clone, Debug)]
pub struct VlessInboundUser {
    pub uuid: String,
    pub name: Option<String>,
}

#[verifier::ext_equal]
pub struct VlessUserKey {
    pub uuid: Seq<char>,
    pub name: Option<Seq<char>>,
}

impl View for VlessInboundUser {
    type V = VlessUserKey;

    open spec fn view(&self) -> VlessUserKey {
        VlessUserKey {
            uuid: self.uuid@,
            name: maybe_view(self.name),
        }
    }
}

impl VlessUserKey {
    pub open spec fn code(self) -> Seq<u8> {
        text_code(self.uuid) + maybe_text_code(self.name)
    }
}

impl VlessInboundUser {
    pub fn same(&self, other: &Self) -> (same: bool)
        ensures
            same == (self@ == other@),
    {
        self.uuid == other.uuid && same_maybe(&self.name, &other.name)
    }

    pub fn put_code(&self, out: &mut Vec<u8>)
        ensures
            final(out)@ == old(out)@ + self@.code(),
    {
        put_text(out, self.uuid.as_str());
        put_maybe_text(out, &self.name);
        assert(out@ =~= old(out)@ + self@.code());
    }
}

pub open spec fn vless_user_views(rows: Seq<VlessInboundUser>) -> Seq<VlessUserKey> {
    rows.map_values(|row: VlessInboundUser| row@)
}

pub open spec fn vless_user_rows_code(rows: Seq<VlessUserKey>) -> Seq<u8>
    decreases rows.len(),
{
    if rows.len() == 0 {
        Seq::empty()
    } else {
        vless_user_rows_code(rows.drop_last()) + rows.last().code()
    }
}

pub open spec fn counted_vless_user_code(rows: Seq<VlessUserKey>) -> Seq<u8> {
    number_code(rows.len() as u64) + vless_user_rows_code(rows)
}

pub fn put_vless_user_rows(out: &mut Vec<u8>, rows: &Vec<VlessInboundUser>)
    ensures
        final(out)@ == old(out)@ + counted_vless_user_code(vless_user_views(rows@)),
{
    put_number(out, rows.len() as u64);
    let ghost start = out@;
    let ghost views = vless_user_views(rows@);
    let mut i: usize = 0;
    assert(views.take(0) =~= Seq::<VlessUserKey>::empty());
    assert(out@ =~= start + vless_user_rows_code(views.take(0)));
    while i < rows.len()
        invariant
            i <= rows@.len(),
            views == vless_user_views(rows@),
            out@ == start + vless_user_rows_code(views.take(i as int)),
        decreases rows@.len() - i,
    {
        rows[i].put_code(out);
        assert(views.take(i + 1).drop_last() =~= views.take(i as int));
        assert(views.take(i + 1).last() == rows@[i as int]@);
        i += 1;
        assert(out@ =~= start + vless_user_rows_code(views.take(i as int)));
    }
    assert(views.take(i as int) =~= views);
    assert(out@ =~= old(out)@ + counted_vless_user_code(views));
}

pub fn same_vless_user_rows(a: &Vec<VlessInboundUser>, b: &Vec<VlessInboundUser>) -> (same: bool)
    ensures
        same == (vless_user_views(a@) == vless_user_views(b@)),
{
    if a.len() != b.len() {
        assert(vless_user_views(a@).len() != vless_user_views(b@).len());
        return false;
    }
    let mut i: usize = 0;
    while i < a.len()
        invariant
            i <= a@.len(),
            a@.len() == b@.len(),
            forall|j: int|
                0 <= j < i ==> #[trigger] vless_user_views(a@)[j] == vless_user_views(b@)[j],
        decreases a@.len() - i,
    {
        assert(vless_user_views(a@)[i as int] == a@[i as int]@);
        assert(vless_user_views(b@)[i as int] == b@[i as int]@);
        if !a[i].same(&b[i]) {
            return false;
        }
        i += 1;
    }
    assert(vless_user_views(a@) =~= vless_user_views(b@));
    true
}

/// A user of a ShadowQUIC inbound.
#[derive(Clone, Debug)]
pub struct ShadowQuicInboundUser {
    pub username: String,
    pub password: String,
}

#[verifier::ext_equal]
pub struct ShadowQuicUserKey {
    pub username: Seq<char>,
    pub password: Seq<char>,
}

impl View for ShadowQuicInboundUser {
    type V = ShadowQuicUserKey;

    open spec fn view(&self) -> ShadowQuicUserKey {
        ShadowQuicUserKey {
            username: self.username@,
            password: self.password@,
        }
    }
}

impl ShadowQuicUserKey {
    pub open spec fn code(self) -> Seq<u8> {
        text_code(self.username) + text_code(self.password)
    }
}

impl ShadowQuicInboundUser {
    pub fn same(&self, other: &Self) -> (same: bool)
        ensures
            same == (self@ == other@),
    {
        self.username == other.username && self.password == other.password
    }

    pub fn put_code(&self, out: &mut Vec<u8>)
        ensures
            final(out)@ == old(out)@ + self@.code(),
    {
        put_text(out, self.username.as_str());
        put_text(out, self.password.as_str());
        assert(out@ =~= old(out)@ + self@.code());
    }
}

pub open spec fn shadowquic_user_views(rows: Seq<ShadowQuicInboundUser>) -> Seq<ShadowQuicUserKey> {
    rows.map_values(|row: ShadowQuicInboundUser| row@)
}

pub open spec fn shadowquic_user_rows_code(rows: Seq<ShadowQuicUserKey>) -> Seq<u8>
    decreases rows.len(),
{
    if rows.len() == 0 {
        Seq::empty()
    } else {
        shadowquic_user_rows_code(rows.drop_last()) + rows.last().code()
    }
}

pub open spec fn counted_shadowquic_user_code(rows: Seq<ShadowQuicUserKey>) -> Seq<u8> {
    number_code(rows.len() as u64) + shadowquic_user_rows_code(rows)
}

pub fn put_shadowquic_user_rows(out: &mut Vec<u8>, rows: &Vec<ShadowQuicInboundUser>)
    ensures
        final(out)@ == old(out)@ + counted_shadowquic_user_code(shadowquic_user_views(rows@)),
{
    put_number(out, rows.len() as u64);
    let ghost start = out@;
    let ghost views = shadowquic_user_views(rows@);
    let mut i: usize = 0;
    assert(views.take(0) =~= Seq::<ShadowQuicUserKey>::empty());
    assert(out@ =~= start + shadowquic_user_rows_code(views.take(0)));
    while i < rows.len()
        invariant
            i <= rows@.len(),
            views == shadowquic_user_views(rows@),
            out@ == start + shadowquic_user_rows_code(views.take(i as int)),
        decreases rows@.len() - i,
    {
        rows[i].put_code(out);
        assert(views.take(i + 1).drop_last() =~= views.take(i as int));
        assert(views.take(i + 1).last() == rows@[i as int]@);
        i += 1;
        assert(out@ =~= start + shadowquic_user_rows_code(views.take(i as int)));
    }
    assert(views.take(i as int) =~= views);
    assert(out@ =~= old(out)@ + counted_shadowquic_user_code(views));
}

pub fn same_shadowquic_user_rows(
    a: &Vec<ShadowQuicInboundUser>,
    b: &Vec<ShadowQuicInboundUser>,
) -> (same: bool)
    ensures
        same == (shadowquic_user_views(a@) == shadowquic_user_views(b@)),
{
    if a.len() != b.len() {
        assert(shadowquic_user_views(a@).len() != shadowquic_user_views(b@).len());
        return false;
    }
    let mut i: usize = 0;
    while i < a.len()
        invariant
            i <= a@.len(),
            a@.len() == b@.len(),
            forall|j: int|
                0 <= j < i ==> #[trigger] shadowquic_user_views(a@)[j] == shadowquic_user_views(b@)[j],
        decreases a@.len() - i,
    {
        assert(shadowquic_user_views(a@)[i as int] == a@[i as int]@);
        assert(shadowquic_user_views(b@)[i as int] == b@[i as int]@);
        if !a[i].same(&b[i]) {
            return false;
        }
        i += 1;
    }
    assert(shadowquic_user_views(a@) =~= shadowquic_user_views(b@));
    true
}

/// Where a ShadowQUIC inbound sends those that it does not know.
#[derive(Clone, Debug)]
pub struct ShadowQuicJlsUpstream {
    pub addr: String,
    pub rate_limit: Option<u64>,
}

#[verifier::ext_equal]
pub struct JlsUpstreamKey {
    pub addr: Seq<char>,
    pub rate_limit: Option<u64>,
}

impl View for ShadowQuicJlsUpstream {
    type V = JlsUpstreamKey;

    open spec fn view(&self) -> JlsUpstreamKey {
        JlsUpstreamKey {
            addr: self.addr@,
            rate_limit: self.rate_limit,
        }
    }
}

impl JlsUpstreamKey {
    pub open spec fn code(self) -> Seq<u8> {
        text_code(self.addr) + maybe_number_code(self.rate_limit)
    }
}

impl ShadowQuicJlsUpstream {
    pub fn same(&self, other: &Self) -> (same: bool)
        ensures
            same == (self@ == other@),
    {
        self.addr == other.addr && same_maybe_u64(self.rate_limit, other.rate_limit)
    }

    pub fn put_code(&self, out: &mut Vec<u8>)
        ensures
            final(out)@ == old(out)@ + self@.code(),
    {
        put_text(out, self.addr.as_str());
        put_maybe_number(out, self.rate_limit);
        assert(out@ =~= old(out)@ + self@.code());
    }
}

/// What a VLESS stream travels in.
#[derive(Clone, Debug)]
pub struct VlessInboundTransport {
    pub typ: String,
    pub path: String,
    pub early_data_header_name: Option<String>,
}

#[verifier::ext_equal]
pub struct VlessTransportKey {
    pub typ: Seq<char>,
    pub path: Seq<char>,
    pub early_data_header_name: Option<Seq<char>>,
}

impl View for VlessInboundTransport {
    type V = VlessTransportKey;

    open spec fn view(&self) -> VlessTransportKey {
        VlessTransportKey {
            typ: self.typ@,
            path: self.path@,
            early_data_header_name: maybe_view(self.early_data_header_name),
        }
    }
}

impl VlessTransportKey {
    pub open spec fn code(self) -> Seq<u8> {
        text_code(self.typ) + text_code(self.path) + maybe_text_code(self.early_data_header_name)
    }
}

impl VlessInboundTransport {
    pub fn same(&self, other: &Self) -> (same: bool)
        ensures
            same == (self@ == other@),
    {
        self.typ == other.typ
            && self.path == other.path
            && same_maybe(&self.early_data_header_name, &other.early_data_header_name)
    }

    pub fn put_code(&self, out: &mut Vec<u8>)
        ensures
            final(out)@ == old(out)@ + self@.code(),
    {
        let mut code: Vec<u8> = Vec::new();
        put_text(&mut code, self.typ.as_str());
        assert(code@ =~= text_code(self@.typ));
        put_text(&mut code, self.path.as_str());
        put_maybe_text(&mut code, &self.early_data_header_name);
        out.extend_from_slice(code.as_slice());
        assert(out@ =~= old(out)@ + self@.code());
    }
}

/// Access to a zone at Cloudflare.
#[derive(Clone, Debug)]
pub struct Hysteria2AcmeCloudflareDns {
    pub api_token: Option<String>,
    pub api_key: Option<String>,
    pub auth_email: Option<String>,
    pub zone_id: Option<String>,
    pub ttl: Option<u32>,
    pub propagation_delay: Option<u64>,
}

#[verifier::ext_equal]
pub struct CloudflareKey {
    pub api_token: Option<Seq<char>>,
    pub api_key: Option<Seq<char>>,
    pub auth_email: Option<Seq<char>>,
    pub zone_id: Option<Seq<char>>,
    pub ttl: Option<u32>,
    pub propagation_delay: Option<u64>,
}

impl View for Hysteria2AcmeCloudflareDns {
    type V = CloudflareKey;

    open spec fn view(&self) -> CloudflareKey {
        CloudflareKey {
            api_token: maybe_view(self.api_token),
            api_key: maybe_view(self.api_key),
            auth_email: maybe_view(self.auth_email),
            zone_id: maybe_view(self.zone_id),
            ttl: self.ttl,
            propagation_delay: self.propagation_delay,
        }
    }
}

impl CloudflareKey {
    pub open spec fn code(self) -> Seq<u8> {
        maybe_text_code(self.api_token)
            + maybe_text_code(self.api_key)
            + maybe_text_code(self.auth_email)
            + maybe_text_code(self.zone_id)
            + maybe_number_code(widened_u32(self.ttl))
            + maybe_number_code(self.propagation_delay)
    }
}

impl Hysteria2AcmeCloudflareDns {
    pub fn same(&self, other: &Self) -> (same: bool)
        ensures
            same == (self@ == other@),
    {
        same_maybe(&self.api_token, &other.api_token)
            && same_maybe(&self.api_key, &other.api_key)
            && same_maybe(&self.auth_email, &other.auth_email)
            && same_maybe(&self.zone_id, &other.zone_id)
            && same_maybe_u32(self.ttl, other.ttl)
            && same_maybe_u64(self.propagation_delay, other.propagation_delay)
    }

    pub fn put_code(&self, out: &mut Vec<u8>)
        ensures
            final(out)@ == old(out)@ + self@.code(),
    {
        let mut code: Vec<u8> = Vec::new();
        put_maybe_text(&mut code, &self.api_token);
        assert(code@ =~= maybe_text_code(self@.api_token));
        put_maybe_text(&mut code, &self.api_key);
        put_maybe_text(&mut code, &self.auth_email);
        put_maybe_text(&mut code, &self.zone_id);
        put_maybe_number(&mut code, widen_u32(self.ttl));
        put_maybe_number(&mut code, self.propagation_delay);
        out.extend_from_slice(code.as_slice());
        assert(out@ =~= old(out)@ + self@.code());
    }
}

pub open spec fn maybe_cloudflare(
    value: Option<Hysteria2AcmeCloudflareDns>,
) -> Option<CloudflareKey> {
    match value {
        Some(v) => Some(v@),
        None => None,
    }
}

pub open spec fn maybe_cloudflare_code(value: Option<CloudflareKey>) -> Seq<u8> {
    match value {
        Some(v) => bool_code(true) + v.code(),
        None => bool_code(false),
    }
}

pub fn same_maybe_cloudflare(
    a: &Option<Hysteria2AcmeCloudflareDns>,
    b: &Option<Hysteria2AcmeCloudflareDns>,
) -> (same: bool)
    ensures
        same == (maybe_cloudflare(*a) == maybe_cloudflare(*b)),
{
    match (a, b) {
        (Some(x), Some(y)) => x.same(y),
        (None, None) => true,
        _ => false,
    }
}

pub fn put_maybe_cloudflare(out: &mut Vec<u8>, value: &Option<Hysteria2AcmeCloudflareDns>)
    ensures
        final(out)@ == old(out)@ + maybe_cloudflare_code(maybe_cloudflare(*value)),
{
    match value {
        Some(v) => {
            put_bool(out, true);
            v.put_code(out);
            assert(out@ =~= old(out)@ + maybe_cloudflare_code(maybe_cloudflare(*value)));
        },
        None => put_bool(out, false),
    }
}

/// Who serves the zone of a domain.
#[derive(Clone, Debug)]
pub struct Hysteria2AcmeDns {
    pub provider: Hysteria2AcmeDnsProvider,
    pub cloudflare: Option<Hysteria2AcmeCloudflareDns>,
}

#[verifier::ext_equal]
pub struct AcmeDnsKey {
    pub provider: Hysteria2AcmeDnsProvider,
    pub cloudflare: Option<CloudflareKey>,
}

impl View for Hysteria2AcmeDns {
    type V = AcmeDnsKey;

    open spec fn view(&self) -> AcmeDnsKey {
        AcmeDnsKey {
            provider: self.provider,
            cloudflare: maybe_cloudflare(self.cloudflare),
        }
    }
}

impl AcmeDnsKey {
    pub open spec fn code(self) -> Seq<u8> {
        number_code(self.provider.tag_spec()) + maybe_cloudflare_code(self.cloudflare)
    }
}

impl Hysteria2AcmeDns {
    pub fn same(&self, other: &Self) -> (same: bool)
        ensures
            same == (self@ == other@),
    {
        self.provider == other.provider
            && same_maybe_cloudflare(&self.cloudflare, &other.cloudflare)
    }

    pub fn put_code(&self, out: &mut Vec<u8>)
        ensures
            final(out)@ == old(out)@ + self@.code(),
    {
        put_number(out, self.provider.tag());
        put_maybe_cloudflare(out, &self.cloudflare);
        assert(out@ =~= old(out)@ + self@.code());
    }
}

pub open spec fn maybe_acme_dns(value: Option<Hysteria2AcmeDns>) -> Option<AcmeDnsKey> {
    match value {
        Some(v) => Some(v@),
        None => None,
    }
}

pub open spec fn maybe_acme_dns_code(value: Option<AcmeDnsKey>) -> Seq<u8> {
    match value {
        Some(v) => bool_code(true) + v.code(),
        None => bool_code(false),
    }
}

pub fn same_maybe_acme_dns(
    a: &Option<Hysteria2AcmeDns>,
    b: &Option<Hysteria2AcmeDns>,
) -> (same: bool)
    ensures
        same == (maybe_acme_dns(*a) == maybe_acme_dns(*b)),
{
    match (a, b) {
        (Some(x), Some(y)) => x.same(y),
        (None, None) => true,
        _ => false,
    }
}

pub fn put_maybe_acme_dns(out: &mut Vec<u8>, value: &Option<Hysteria2AcmeDns>)
    ensures
        final(out)@ == old(out)@ + maybe_acme_dns_code(maybe_acme_dns(*value)),
{
    match value {
        Some(v) => {
            put_bool(out, true);
            v.put_code(out);
            assert(out@ =~= old(out)@ + maybe_acme_dns_code(maybe_acme_dns(*value)));
        },
        None => put_bool(out, false),
    }
}

/// A certificate from an ACME directory. Staging is used unless `production` is set.
#[derive(Clone, Debug)]
pub struct Hysteria2Acme {
    pub domain: String,
    pub email: Option<String>,
    pub cache_dir: Option<String>,
    pub challenge: Hysteria2AcmeChallenge,
    pub dns: Option<Hysteria2AcmeDns>,
    pub production: bool,
}

#[verifier::ext_equal]
pub struct AcmeKey {
    pub domain: Seq<char>,
    pub email: Option<Seq<char>>,
    pub cache_dir: Option<Seq<char>>,
    pub challenge: Hysteria2AcmeChallenge,
    pub dns: Option<AcmeDnsKey>,
    pub production: bool,
}

impl View for Hysteria2Acme {
    type V = AcmeKey;

    open spec fn view(&self) -> AcmeKey {
        AcmeKey {
            domain: self.domain@,
            email: maybe_view(self.email),
            cache_dir: maybe_view(self.cache_dir),
            challenge: self.challenge,
            dns: maybe_acme_dns(self.dns),
            production: self.production,
        }
    }
}

impl AcmeKey {
    pub open spec fn code(self) -> Seq<u8> {
        text_code(self.domain)
            + maybe_text_code(self.email)
            + maybe_text_code(self.cache_dir)
            + number_code(self.challenge.tag_spec())
            + maybe_acme_dns_code(self.dns)
            + bool_code(self.production)
    }
}

impl Hysteria2Acme {
    pub fn same(&self, other: &Self) -> (same: bool)
        ensures
            same == (self@ == other@),
    {
        self.domain == other.domain
            && same_maybe(&self.email, &other.email)
            && same_maybe(&self.cache_dir, &other.cache_dir)
            && self.challenge == other.challenge
            && same_maybe_acme_dns(&self.dns, &other.dns)
            && self.production == other.production
    }

    pub fn put_code(&self, out: &mut Vec<u8>)
        ensures
            final(out)@ == old(out)@ + self@.code(),
    {
        let mut code: Vec<u8> = Vec::new();
        put_text(&mut code, self.domain.as_str());
        assert(code@ =~= text_code(self@.domain));
        put_maybe_text(&mut code, &self.email);
        put_maybe_text(&mut code, &self.cache_dir);
        put_number(&mut code, self.challenge.tag());
        put_maybe_acme_dns(&mut code, &self.dns);
        put_bool(&mut code, self.production);
        out.extend_from_slice(code.as_slice());
        assert(out@ =~= old(out)@ + self@.code());
    }
}

pub open spec fn maybe_acme(value: Option<Hysteria2Acme>) -> Option<AcmeKey> {
    match value {
        Some(v) => Some(v@),
        None => None,
    }
}

pub open spec fn maybe_acme_code(value: Option<AcmeKey>) -> Seq<u8> {
    match value {
        Some(v) => bool_code(true) + v.code(),
        None => bool_code(false),
    }
}

pub fn same_maybe_acme(a: &Option<Hysteria2Acme>, b: &Option<Hysteria2Acme>) -> (same: bool)
    ensures
        same == (maybe_acme(*a) == maybe_acme(*b)),
{
    match (a, b) {
        (Some(x), Some(y)) => x.same(y),
        (None, None) => true,
        _ => false,
    }
}

pub fn put_maybe_acme(out: &mut Vec<u8>, value: &Option<Hysteria2Acme>)
    ensures
        final(out)@ == old(out)@ + maybe_acme_code(maybe_acme(*value)),
{
    match value {
        Some(v) => {
            put_bool(out, true);
            v.put_code(out);
            assert(out@ =~= old(out)@ + maybe_acme_code(maybe_acme(*value)));
        },
        None => put_bool(out, false),
    }
}

/// The password of the Salamander obfuscation.
#[derive(Clone, Debug)]
pub struct Hysteria2InboundSalamanderObfs {
    pub password: String,
}

#[verifier::ext_equal]
pub struct SalamanderKey {
    pub password: Seq<char>,
}

impl View for Hysteria2InboundSalamanderObfs {
    type V = SalamanderKey;

    open spec fn view(&self) -> SalamanderKey {
        SalamanderKey {
            password: self.password@,
        }
    }
}

impl SalamanderKey {
    pub open spec fn code(self) -> Seq<u8> {
        text_code(self.password)
    }
}

impl Hysteria2InboundSalamanderObfs {
    pub fn same(&self, other: &Self) -> (same: bool)
        ensures
            same == (self@ == other@),
    {
        self.password == other.password
    }

    pub fn put_code(&self, out: &mut Vec<u8>)
        ensures
            final(out)@ == old(out)@ + self@.code(),
    {
        put_text(out, self.password.as_str());
        assert(out@ =~= old(out)@ + self@.code());
    }
}

pub open spec fn maybe_salamander(
    value: Option<Hysteria2InboundSalamanderObfs>,
) -> Option<SalamanderKey> {
    match value {
        Some(v) => Some(v@),
        None => None,
    }
}

pub open spec fn maybe_salamander_code(value: Option<SalamanderKey>) -> Seq<u8> {
    match value {
        Some(v) => bool_code(true) + v.code(),
        None => bool_code(false),
    }
}

pub fn same_maybe_salamander(
    a: &Option<Hysteria2InboundSalamanderObfs>,
    b: &Option<Hysteria2InboundSalamanderObfs>,
) -> (same: bool)
    ensures
        same == (maybe_salamander(*a) == maybe_salamander(*b)),
{
    match (a, b) {
        (Some(x), Some(y)) => x.same(y),
        (None, None) => true,
        _ => false,
    }
}

pub fn put_maybe_salamander(out: &mut Vec<u8>, value: &Option<Hysteria2InboundSalamanderObfs>)
    ensures
        final(out)@ == old(out)@ + maybe_salamander_code(maybe_salamander(*value)),
{
    match value {
        Some(v) => {
            put_bool(out, true);
            v.put_code(out);
            assert(out@ =~= old(out)@ + maybe_salamander_code(maybe_salamander(*value)));
        },
        None => put_bool(out, false),
    }
}

/// An obfuscation with its parameters.
#[derive(Clone, Debug)]
pub struct Hysteria2InboundDetailedObfs {
    pub typ: Hysteria2InboundObfsKind,
    pub salamander: Option<Hysteria2InboundSalamanderObfs>,
    pub password: Option<String>,
}

#[verifier::ext_equal]
pub struct DetailedObfsKey {
    pub typ: Hysteria2InboundObfsKind,
    pub salamander: Option<SalamanderKey>,
    pub password: Option<Seq<char>>,
}

impl View for Hysteria2InboundDetailedObfs {
    type V = DetailedObfsKey;

    open spec fn view(&self) -> DetailedObfsKey {
        DetailedObfsKey {
            typ: self.typ,
            salamander: maybe_salamander(self.salamander),
            password: maybe_view(self.password),
        }
    }
}

impl DetailedObfsKey {
    pub open spec fn code(self) -> Seq<u8> {
        number_code(self.typ.tag_spec())
            + maybe_salamander_code(self.salamander)
            + maybe_text_code(self.password)
    }
}

impl Hysteria2InboundDetailedObfs {
    pub fn same(&self, other: &Self) -> (same: bool)
        ensures
            same == (self@ == other@),
    {
        self.typ == other.typ
            && same_maybe_salamander(&self.salamander, &other.salamander)
            && same_maybe(&self.password, &other.password)
    }

    pub fn put_code(&self, out: &mut Vec<u8>)
        ensures
            final(out)@ == old(out)@ + self@.code(),
    {
        let mut code: Vec<u8> = Vec::new();
        put_number(&mut code, self.typ.tag());
        assert(code@ =~= number_code(self@.typ.tag_spec()));
        put_maybe_salamander(&mut code, &self.salamander);
        put_maybe_text(&mut code, &self.password);
        out.extend_from_slice(code.as_slice());
        assert(out@ =~= old(out)@ + self@.code());
    }
}

/// An obfuscation, by its kind alone or with its parameters.
#[derive(Clone, Debug)]
pub enum Hysteria2InboundObfs {
    Simple(Hysteria2InboundObfsKind),
    Detailed(Hysteria2InboundDetailedObfs),
}

#[verifier::ext_equal]
pub enum ObfsKey {
    Simple(Hysteria2InboundObfsKind),
    Detailed(DetailedObfsKey),
}

impl View for Hysteria2InboundObfs {
    type V = ObfsKey;

    open spec fn view(&self) -> ObfsKey {
        match self {
            Hysteria2InboundObfs::Simple(kind) => ObfsKey::Simple(*kind),
            Hysteria2InboundObfs::Detailed(obfs) => ObfsKey::Detailed(obfs@),
        }
    }
}

impl ObfsKey {
    pub open spec fn code(self) -> Seq<u8> {
        match self {
            ObfsKey::Simple(kind) => bool_code(false) + number_code(kind.tag_spec()),
            ObfsKey::Detailed(obfs) => bool_code(true) + obfs.code(),
        }
    }

    /// The password of the obfuscation: its own, else the common one.
    pub open spec fn password(self, obfs_password: Option<Seq<char>>) -> Option<Seq<char>> {
        match self {
            ObfsKey::Simple(_) => obfs_password,
            ObfsKey::Detailed(obfs) => match obfs.salamander {
                Some(salamander) => Some(salamander.password),
                None => match obfs.password {
                    Some(password) => Some(password),
                    None => obfs_password,
                },
            },
        }
    }
}

impl Hysteria2InboundObfs {
    /// The Salamander password: the one with the obfuscation itself, else the
    /// one given beside it.
    pub fn salamander_password<'a>(&'a self, obfs_password: Option<&'a str>) -> (password: Option<
        &'a str,
    >)
        ensures
            str_view(password) == self@.password(str_view(obfs_password)),
    {
        match self {
            Hysteria2InboundObfs::Simple(Hysteria2InboundObfsKind::Salamander) => obfs_password,
            Hysteria2InboundObfs::Detailed(obfs) => match &obfs.salamander {
                Some(salamander) => Some(salamander.password.as_str()),
                None => match &obfs.password {
                    Some(password) => Some(password.as_str()),
                    None => obfs_password,
                },
            },
        }
    }

    pub fn same(&self, other: &Self) -> (same: bool)
        ensures
            same == (self@ == other@),
    {
        match (self, other) {
            (Hysteria2InboundObfs::Simple(a), Hysteria2InboundObfs::Simple(b)) => *a == *b,
            (Hysteria2InboundObfs::Detailed(a), Hysteria2InboundObfs::Detailed(b)) => a.same(b),
            _ => false,
        }
    }

    pub fn put_code(&self, out: &mut Vec<u8>)
        ensures
            final(out)@ == old(out)@ + self@.code(),
    {
        match self {
            Hysteria2InboundObfs::Simple(kind) => {
                put_bool(out, false);
                put_number(out, kind.tag());
            },
            Hysteria2InboundObfs::Detailed(obfs) => {
                put_bool(out, true);
                obfs.put_code(out);
            },
        }
        assert(out@ =~= old(out)@ + self@.code());
    }
}

pub open spec fn maybe_obfs(value: Option<Hysteria2InboundObfs>) -> Option<ObfsKey> {
    match value {
        Some(v) => Some(v@),
        None => None,
    }
}

pub open spec fn maybe_obfs_code(value: Option<ObfsKey>) -> Seq<u8> {
    match value {
        Some(v) => bool_code(true) + v.code(),
        None => bool_code(false),
    }
}

pub fn same_maybe_obfs(
    a: &Option<Hysteria2InboundObfs>,
    b: &Option<Hysteria2InboundObfs>,
) -> (same: bool)
    ensures
        same == (maybe_obfs(*a) == maybe_obfs(*b)),
{
    match (a, b) {
        (Some(x), Some(y)) => x.same(y),
        (None, None) => true,
        _ => false,
    }
}

pub fn put_maybe_obfs(out: &mut Vec<u8>, value: &Option<Hysteria2InboundObfs>)
    ensures
        final(out)@ == old(out)@ + maybe_obfs_code(maybe_obfs(*value)),
{
    match value {
        Some(v) => {
            put_bool(out, true);
            v.put_code(out);
            assert(out@ =~= old(out)@ + maybe_obfs_code(maybe_obfs(*value)));
        },
        None => put_bool(out, false),
    }
}

/// Files that are served to strangers.
#[derive(Clone, Debug)]
pub struct Hysteria2MasqueradeFile {
    pub dir: String,
}

#[verifier::ext_equal]
pub struct MasqueradeFileKey {
    pub dir: Seq<char>,
}

impl View for Hysteria2MasqueradeFile {
    type V = MasqueradeFileKey;

    open spec fn view(&self) -> MasqueradeFileKey {
        MasqueradeFileKey {
            dir: self.dir@,
        }
    }
}

impl MasqueradeFileKey {
    pub open spec fn code(self) -> Seq<u8> {
        text_code(self.dir)
    }
}

impl Hysteria2MasqueradeFile {
    pub fn same(&self, other: &Self) -> (same: bool)
        ensures
            same == (self@ == other@),
    {
        self.dir == other.dir
    }

    pub fn put_code(&self, out: &mut Vec<u8>)
        ensures
            final(out)@ == old(out)@ + self@.code(),
    {
        put_text(out, self.dir.as_str());
        assert(out@ =~= old(out)@ + self@.code());
    }
}

pub open spec fn maybe_masquerade_file(
    value: Option<Hysteria2MasqueradeFile>,
) -> Option<MasqueradeFileKey> {
    match value {
        Some(v) => Some(v@),
        None => None,
    }
}

pub open spec fn maybe_masquerade_file_code(value: Option<MasqueradeFileKey>) -> Seq<u8> {
    match value {
        Some(v) => bool_code(true) + v.code(),
        None => bool_code(false),
    }
}

pub fn same_maybe_masquerade_file(
    a: &Option<Hysteria2MasqueradeFile>,
    b: &Option<Hysteria2MasqueradeFile>,
) -> (same: bool)
    ensures
        same == (maybe_masquerade_file(*a) == maybe_masquerade_file(*b)),
{
    match (a, b) {
        (Some(x), Some(y)) => x.same(y),
        (None, None) => true,
        _ => false,
    }
}

pub fn put_maybe_masquerade_file(out: &mut Vec<u8>, value: &Option<Hysteria2MasqueradeFile>)
    ensures
        final(out)@ == old(out)@ + maybe_masquerade_file_code(maybe_masquerade_file(*value)),
{
    match value {
        Some(v) => {
            put_bool(out, true);
            v.put_code(out);
            assert(out@ =~= old(out)@ + maybe_masquerade_file_code(maybe_masquerade_file(*value)));
        },
        None => put_bool(out, false),
    }
}

/// A site that strangers are passed on to.
#[derive(Clone, Debug)]
pub struct Hysteria2MasqueradeProxy {
    pub url: String,
    pub rewrite_host: bool,
    pub x_forwarded: bool,
    pub insecure: bool,
}

#[verifier::ext_equal]
pub struct MasqueradeProxyKey {
    pub url: Seq<char>,
    pub rewrite_host: bool,
    pub x_forwarded: bool,
    pub insecure: bool,
}

impl View for Hysteria2MasqueradeProxy {
    type V = MasqueradeProxyKey;

    open spec fn view(&self) -> MasqueradeProxyKey {
        MasqueradeProxyKey {
            url: self.url@,
            rewrite_host: self.rewrite_host,
            x_forwarded: self.x_forwarded,
            insecure: self.insecure,
        }
    }
}

impl MasqueradeProxyKey {
    pub open spec fn code(self) -> Seq<u8> {
        text_code(self.url)
            + bool_code(self.rewrite_host)
            + bool_code(self.x_forwarded)
            + bool_code(self.insecure)
    }
}

impl Hysteria2MasqueradeProxy {
    pub fn same(&self, other: &Self) -> (same: bool)
        ensures
            same == (self@ == other@),
    {
        self.url == other.url
            && self.rewrite_host == other.rewrite_host
            && self.x_forwarded == other.x_forwarded
            && self.insecure == other.insecure
    }

    pub fn put_code(&self, out: &mut Vec<u8>)
        ensures
            final(out)@ == old(out)@ + self@.code(),
    {
        let mut code: Vec<u8> = Vec::new();
        put_text(&mut code, self.url.as_str());
        assert(code@ =~= text_code(self@.url));
        put_bool(&mut code, self.rewrite_host);
        put_bool(&mut code, self.x_forwarded);
        put_bool(&mut code, self.insecure);
        out.extend_from_slice(code.as_slice());
        assert(out@ =~= old(out)@ + self@.code());
    }
}

pub open spec fn maybe_masquerade_proxy(
    value: Option<Hysteria2MasqueradeProxy>,
) -> Option<MasqueradeProxyKey> {
    match value {
        Some(v) => Some(v@),
        None => None,
    }
}

pub open spec fn maybe_masquerade_proxy_code(value: Option<MasqueradeProxyKey>) -> Seq<u8> {
    match value {
        Some(v) => bool_code(true) + v.code(),
        None => bool_code(false),
    }
}

pub fn same_maybe_masquerade_proxy(
    a: &Option<Hysteria2MasqueradeProxy>,
    b: &Option<Hysteria2MasqueradeProxy>,
) -> (same: bool)
    ensures
        same == (maybe_masquerade_proxy(*a) == maybe_masquerade_proxy(*b)),
{
    match (a, b) {
        (Some(x), Some(y)) => x.same(y),
        (None, None) => true,
        _ => false,
    }
}

pub fn put_maybe_masquerade_proxy(out: &mut Vec<u8>, value: &Option<Hysteria2MasqueradeProxy>)
    ensures
        final(out)@ == old(out)@ + maybe_masquerade_proxy_code(maybe_masquerade_proxy(*value)),
{
    match value {
        Some(v) => {
            put_bool(out, true);
            v.put_code(out);
            assert(out@ =~= old(out)@
                + maybe_masquerade_proxy_code(maybe_masquerade_proxy(*value)));
        },
        None => put_bool(out, false),
    }
}

/// A header of an answer.
#[derive(Clone, Debug)]
pub struct HeaderPair {
    pub name: String,
    pub value: String,
}

#[verifier::ext_equal]
pub struct HeaderKey {
    pub name: Seq<char>,
    pub value: Seq<char>,
}

impl View for HeaderPair {
    type V = HeaderKey;

    open spec fn view(&self) -> HeaderKey {
        HeaderKey {
            name: self.name@,
            value: self.value@,
        }
    }
}

impl HeaderKey {
    pub open spec fn code(self) -> Seq<u8> {
        text_code(self.name) + text_code(self.value)
    }
}

impl HeaderPair {
    pub fn same(&self, other: &Self) -> (same: bool)
        ensures
            same == (self@ == other@),
    {
        self.name == other.name && self.value == other.value
    }

    pub fn put_code(&self, out: &mut Vec<u8>)
        ensures
            final(out)@ == old(out)@ + self@.code(),
    {
        put_text(out, self.name.as_str());
        put_text(out, self.value.as_str());
        assert(out@ =~= old(out)@ + self@.code());
    }
}

pub open spec fn header_views(rows: Seq<HeaderPair>) -> Seq<HeaderKey> {
    rows.map_values(|row: HeaderPair| row@)
}

pub open spec fn header_rows_code(rows: Seq<HeaderKey>) -> Seq<u8>
    decreases rows.len(),
{
    if rows.len() == 0 {
        Seq::empty()
    } else {
        header_rows_code(rows.drop_last()) + rows.last().code()
    }
}

pub open spec fn counted_header_code(rows: Seq<HeaderKey>) -> Seq<u8> {
    number_code(rows.len() as u64) + header_rows_code(rows)
}

pub fn put_header_rows(out: &mut Vec<u8>, rows: &Vec<HeaderPair>)
    ensures
        final(out)@ == old(out)@ + counted_header_code(header_views(rows@)),
{
    put_number(out, rows.len() as u64);
    let ghost start = out@;
    let ghost views = header_views(rows@);
    let mut i: usize = 0;
    assert(views.take(0) =~= Seq::<HeaderKey>::empty());
    assert(out@ =~= start + header_rows_code(views.take(0)));
    while i < rows.len()
        invariant
            i <= rows@.len(),
            views == header_views(rows@),
            out@ == start + header_rows_code(views.take(i as int)),
        decreases rows@.len() - i,
    {
        rows[i].put_code(out);
        assert(views.take(i + 1).drop_last() =~= views.take(i as int));
        assert(views.take(i + 1).last() == rows@[i as int]@);
        i += 1;
        assert(out@ =~= start + header_rows_code(views.take(i as int)));
    }
    assert(views.take(i as int) =~= views);
    assert(out@ =~= old(out)@ + counted_header_code(views));
}

pub fn same_header_rows(a: &Vec<HeaderPair>, b: &Vec<HeaderPair>) -> (same: bool)
    ensures
        same == (header_views(a@) == header_views(b@)),
{
    if a.len() != b.len() {
        assert(header_views(a@).len() != header_views(b@).len());
        return false;
    }
    let mut i: usize = 0;
    while i < a.len()
        invariant
            i <= a@.len(),
            a@.len() == b@.len(),
            forall|j: int| 0 <= j < i ==> #[trigger] header_views(a@)[j] == header_views(b@)[j],
        decreases a@.len() - i,
    {
        assert(header_views(a@)[i as int] == a@[i as int]@);
        assert(header_views(b@)[i as int] == b@[i as int]@);
        if !a[i].same(&b[i]) {
            return false;
        }
        i += 1;
    }
    assert(header_views(a@) =~= header_views(b@));
    true
}

/// A fixed answer to strangers. The headers are in the order of their names.
#[derive(Clone, Debug)]
pub struct Hysteria2MasqueradeString {
    pub content: String,
    pub headers: Vec<HeaderPair>,
    pub status_code: Option<u16>,
}

#[verifier::ext_equal]
pub struct MasqueradeStringKey {
    pub content: Seq<char>,
    pub headers: Seq<HeaderKey>,
    pub status_code: Option<u16>,
}

impl View for Hysteria2MasqueradeString {
    type V = MasqueradeStringKey;

    open spec fn view(&self) -> MasqueradeStringKey {
        MasqueradeStringKey {
            content: self.content@,
            headers: header_views(self.headers@),
            status_code: self.status_code,
        }
    }
}

impl MasqueradeStringKey {
    pub open spec fn code(self) -> Seq<u8> {
        text_code(self.content)
            + counted_header_code(self.headers)
            + maybe_number_code(widened_u16(self.status_code))
    }
}

impl Hysteria2MasqueradeString {
    pub fn same(&self, other: &Self) -> (same: bool)
        ensures
            same == (self@ == other@),
    {
        self.content == other.content
            && same_header_rows(&self.headers, &other.headers)
            && same_maybe_u16(self.status_code, other.status_code)
    }

    pub fn put_code(&self, out: &mut Vec<u8>)
        ensures
            final(out)@ == old(out)@ + self@.code(),
    {
        let mut code: Vec<u8> = Vec::new();
        put_text(&mut code, self.content.as_str());
        assert(code@ =~= text_code(self@.content));
        put_header_rows(&mut code, &self.headers);
        put_maybe_number(&mut code, widen_u16(self.status_code));
        out.extend_from_slice(code.as_slice());
        assert(out@ =~= old(out)@ + self@.code());
    }
}

pub open spec fn maybe_masquerade_string(
    value: Option<Hysteria2MasqueradeString>,
) -> Option<MasqueradeStringKey> {
    match value {
        Some(v) => Some(v@),
        None => None,
    }
}

pub open spec fn maybe_masquerade_string_code(value: Option<MasqueradeStringKey>) -> Seq<u8> {
    match value {
        Some(v) => bool_code(true) + v.code(),
        None => bool_code(false),
    }
}

pub fn same_maybe_masquerade_string(
    a: &Option<Hysteria2MasqueradeString>,
    b: &Option<Hysteria2MasqueradeString>,
) -> (same: bool)
    ensures
        same == (maybe_masquerade_string(*a) == maybe_masquerade_string(*b)),
{
    match (a, b) {
        (Some(x), Some(y)) => x.same(y),
        (None, None) => true,
        _ => false,
    }
}

pub fn put_maybe_masquerade_string(out: &mut Vec<u8>, value: &Option<Hysteria2MasqueradeString>)
    ensures
        final(out)@ == old(out)@ + maybe_masquerade_string_code(maybe_masquerade_string(*value)),
{
    match value {
        Some(v) => {
            put_bool(out, true);
            v.put_code(out);
            assert(out@ =~= old(out)@
                + maybe_masquerade_string_code(maybe_masquerade_string(*value)));
        },
        None => put_bool(out, false),
    }
}

/// What strangers get to see.
#[derive(Clone, Debug)]
pub struct Hysteria2Masquerade {
    pub typ: Hysteria2MasqueradeType,
    pub file: Option<Hysteria2MasqueradeFile>,
    pub proxy: Option<Hysteria2MasqueradeProxy>,
    pub string: Option<Hysteria2MasqueradeString>,
}

#[verifier::ext_equal]
pub struct MasqueradeKey {
    pub typ: Hysteria2MasqueradeType,
    pub file: Option<MasqueradeFileKey>,
    pub proxy: Option<MasqueradeProxyKey>,
    pub string: Option<MasqueradeStringKey>,
}

impl View for Hysteria2Masquerade {
    type V = MasqueradeKey;

    open spec fn view(&self) -> MasqueradeKey {
        MasqueradeKey {
            typ: self.typ,
            file: maybe_masquerade_file(self.file),
            proxy: maybe_masquerade_proxy(self.proxy),
            string: maybe_masquerade_string(self.string),
        }
    }
}

impl MasqueradeKey {
    pub open spec fn code(self) -> Seq<u8> {
        number_code(self.typ.tag_spec())
            + maybe_masquerade_file_code(self.file)
            + maybe_masquerade_proxy_code(self.proxy)
            + maybe_masquerade_string_code(self.string)
    }
}

impl Hysteria2Masquerade {
    pub fn same(&self, other: &Self) -> (same: bool)
        ensures
            same == (self@ == other@),
    {
        self.typ == other.typ
            && same_maybe_masquerade_file(&self.file, &other.file)
            && same_maybe_masquerade_proxy(&self.proxy, &other.proxy)
            && same_maybe_masquerade_string(&self.string, &other.string)
    }

    pub fn put_code(&self, out: &mut Vec<u8>)
        ensures
            final(out)@ == old(out)@ + self@.code(),
    {
        let mut code: Vec<u8> = Vec::new();
        put_number(&mut code, self.typ.tag());
        assert(code@ =~= number_code(self@.typ.tag_spec()));
        put_maybe_masquerade_file(&mut code, &self.file);
        put_maybe_masquerade_proxy(&mut code, &self.proxy);
        put_maybe_masquerade_string(&mut code, &self.string);
        out.extend_from_slice(code.as_slice());
        assert(out@ =~= old(out)@ + self@.code());
    }
}

pub open spec fn maybe_masquerade(value: Option<Hysteria2Masquerade>) -> Option<MasqueradeKey> {
    match value {
        Some(v) => Some(v@),
        None => None,
    }
}

pub open spec fn maybe_masquerade_code(value: Option<MasqueradeKey>) -> Seq<u8> {
    match value {
        Some(v) => bool_code(true) + v.code(),
        None => bool_code(false),
    }
}

pub fn same_maybe_masquerade(
    a: &Option<Hysteria2Masquerade>,
    b: &Option<Hysteria2Masquerade>,
) -> (same: bool)
    ensures
        same == (maybe_masquerade(*a) == maybe_masquerade(*b)),
{
    match (a, b) {
        (Some(x), Some(y)) => x.same(y),
        (None, None) => true,
        _ => false,
    }
}

pub fn put_maybe_masquerade(out: &mut Vec<u8>, value: &Option<Hysteria2Masquerade>)
    ensures
        final(out)@ == old(out)@ + maybe_masquerade_code(maybe_masquerade(*value)),
{
    match value {
        Some(v) => {
            put_bool(out, true);
            v.put_code(out);
            assert(out@ =~= old(out)@ + maybe_masquerade_code(maybe_masquerade(*value)));
        },
        None => put_bool(out, false),
    }
}

/// What all listeners have in common.
#[derive(Clone, Debug)]
pub struct CommonInboundOpts {
    pub name: String,
    pub listen: BindAddress,
    pub allow_lan: bool,
    pub port: u16,
    pub fw_mark: Option<u32>,
}

#[verifier::ext_equal]
pub struct CommonKey {
    pub name: Seq<char>,
    pub listen: BindAddress,
    pub allow_lan: bool,
    pub port: u16,
    pub fw_mark: Option<u32>,
}

impl View for CommonInboundOpts {
    type V = CommonKey;

    open spec fn view(&self) -> CommonKey {
        CommonKey {
            name: self.name@,
            listen: self.listen,
            allow_lan: self.allow_lan,
            port: self.port,
            fw_mark: self.fw_mark,
        }
    }
}

impl CommonKey {
    pub open spec fn code(self) -> Seq<u8> {
        text_code(self.name)
            + text_code(ip_text(self.listen.0))
            + bool_code(self.allow_lan)
            + number_code(self.port as u64)
            + maybe_number_code(widened_u32(self.fw_mark))
    }
}

impl CommonInboundOpts {
    pub fn same(&self, other: &Self) -> (same: bool)
        ensures
            same == (self@ == other@),
    {
        self.name == other.name
            && self.listen == other.listen
            && self.allow_lan == other.allow_lan
            && self.port == other.port
            && same_maybe_u32(self.fw_mark, other.fw_mark)
    }

    pub fn put_code(&self, out: &mut Vec<u8>)
        ensures
            final(out)@ == old(out)@ + self@.code(),
    {
        let mut code: Vec<u8> = Vec::new();
        put_text(&mut code, self.name.as_str());
        assert(code@ =~= text_code(self@.name));
        put_texts_of_ip(&mut code, self.listen.0);
        put_bool(&mut code, self.allow_lan);
        put_number(&mut code, self.port as u64);
        put_maybe_number(&mut code, widen_u32(self.fw_mark));
        out.extend_from_slice(code.as_slice());
        assert(out@ =~= old(out)@ + self@.code());
    }
}

} // verus!
