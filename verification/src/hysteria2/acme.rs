//! Getting certificates from an ACME directory.

use vstd::prelude::*;
use vstd::string::*;
use vstd::utf8::encode_utf8;

use crate::digest::{base64url_encode, base64url_text, sha256, sha256_digest};
use crate::hysteria2::files::pushed;
use crate::net::print::{hex, hex_text};
use crate::text::{
    ascii_alphanumeric, char_rows, chars_of, decimal, decimal_text, has_prefix,
    is_ascii_alphanumeric, joined, split, split_spec, starts_with, text_of, text_views,
    trailing_start, trim, trimmed, without_trailing,
};

verus! {

/// How a program shows itself to Cloudflare.
#[derive(Clone, Debug)]
pub enum CloudflareAuth {
    ApiToken(String),
    GlobalKey { email: String, key: String },
}

#[derive(Clone, Debug)]
pub struct CloudflareDnsOptions {
    pub auth: CloudflareAuth,
    pub zone_id: Option<String>,
    pub ttl: Option<u32>,
    pub propagation_delay_secs: u64,
}

#[derive(Clone, Debug)]
pub enum AcmeChallenge {
    TlsAlpn01,
    Dns01 { cloudflare: CloudflareDnsOptions },
}

#[derive(Clone, Debug)]
pub struct AcmeOptions {
    pub domain: String,
    pub email: Option<String>,
    pub cache_dir: String,
    pub production: bool,
    pub challenge: AcmeChallenge,
}

#[derive(Clone, Debug)]
pub struct Dns01AcmeOptions {
    pub domain: String,
    pub email: Option<String>,
    pub cache_dir: String,
    pub production: bool,
    pub cloudflare: CloudflareDnsOptions,
}

/// How far a certificate has come.
#[derive(Clone, Debug)]
pub enum Dns01CertState {
    Pending,
    Ready,
    Failed(String),
}

/// Whether there is a certificate, and what those who wait for it are told.
#[derive(Debug)]
pub struct Dns01CertResolver {
    pub has_cert: bool,
    pub state: Dns01CertState,
}

impl Dns01CertResolver {
    /// Those who wait are told of a certificate exactly if there is one.
    pub open spec fn wf(&self) -> bool {
        self.has_cert <==> self.state is Ready
    }

    pub fn new() -> (resolver: Self)
        ensures
            resolver.wf(),
            !resolver.has_cert,
            resolver.state is Pending,
    {
        Self { has_cert: false, state: Dns01CertState::Pending }
    }

    /// A certificate is there.
    pub fn set_ready(&mut self)
        ensures
            final(self).wf(),
            final(self).has_cert,
            final(self).state is Ready,
    {
        self.has_cert = true;
        self.state = Dns01CertState::Ready;
    }

    /// An order failed: told only while there is no certificate.
    pub fn set_error_if_empty(&mut self, error: String)
        requires
            old(self).wf(),
        ensures
            final(self).wf(),
            final(self).has_cert == old(self).has_cert,
            old(self).has_cert ==> final(self).state == old(self).state,
            !old(self).has_cert ==> final(self).state == Dns01CertState::Failed(error),
    {
        if !self.has_cert {
            self.state = Dns01CertState::Failed(error);
        }
    }

    /// What those who wait are told.
    pub fn subscribe_state(&self) -> (state: &Dns01CertState)
        ensures
            *state == self.state,
    {
        &self.state
    }
}

/// What one who waits for the first certificate does.
#[derive(Debug)]
pub enum CertWait {
    Go,
    Wait,
    Fail(String),
}

/// What one who waits for the first certificate of a listener at `addr` does.
pub fn certificate_wait(addr: &str, state: &Dns01CertState) -> (step: CertWait)
    ensures
        match *state {
            Dns01CertState::Ready => step is Go,
            Dns01CertState::Pending => step is Wait,
            Dns01CertState::Failed(error) => step matches CertWait::Fail(text) && text@
                == "hysteria2 inbound "@ + addr@
                + ": acme dns-01 failed before a certificate became available: "@ + error@,
        },
{
    match state {
        Dns01CertState::Ready => CertWait::Go,
        Dns01CertState::Pending => CertWait::Wait,
        Dns01CertState::Failed(error) => {
            let mut text = joined("hysteria2 inbound ", addr);
            text.append(": acme dns-01 failed before a certificate became available: ");
            text.append(error.as_str());
            CertWait::Fail(text)
        },
    }
}

/// What is said where the task that gets the certificate has gone.
pub fn certificate_task_exited(addr: &str) -> (text: String)
    ensures
        text@ == "hysteria2 inbound "@ + addr@
            + ": acme dns-01 certificate task exited before a certificate became available"@,
{
    let mut text = joined("hysteria2 inbound ", addr);
    text.append(": acme dns-01 certificate task exited before a certificate became available");
    text
}

/// A mail address as a contact.
pub open spec fn contact_text(email: Seq<char>) -> Seq<char> {
    if has_prefix(email, "mailto:"@) {
        email
    } else {
        "mailto:"@ + email
    }
}

fn contact(email: &str) -> (text: String)
    ensures
        text@ == contact_text(email@),
{
    let s = chars_of(email);
    let prefix = chars_of("mailto:");
    if starts_with(s.as_slice(), prefix.as_slice()) {
        email.to_owned()
    } else {
        joined("mailto:", email)
    }
}

/// The contacts of an account that shows control by DNS: the mail address,
/// unless it is missing or blank.
pub fn acme_contact(email: Option<&str>) -> (contacts: Vec<String>)
    ensures
        match email {
            Some(e) => if trimmed(e@).len() > 0 {
                contacts@.len() == 1 && contacts@[0]@ == contact_text(e@)
            } else {
                contacts@.len() == 0
            },
            None => contacts@.len() == 0,
        },
{
    let mut contacts: Vec<String> = Vec::new();
    if let Some(e) = email {
        if !trim(e).as_str().is_empty() {
            contacts.push(contact(e));
        }
    }
    contacts
}

/// The contact of an account that shows control by TLS: the mail address,
/// unless it is missing or empty.
pub fn tls_alpn_contact(email: Option<&str>) -> (found: Option<String>)
    ensures
        match email {
            Some(e) => if e@.len() > 0 {
                found is Some && found->0@ == contact_text(e@)
            } else {
                found is None
            },
            None => found is None,
        },
{
    match email {
        Some(e) => {
            if e.is_empty() {
                return None;
            }
            Some(contact(e))
        },
        None => None,
    }
}

/// A name with letters, digits, dots and hyphens alone: an underscore stands
/// for every other character.
pub open spec fn safe_name_spec(name: Seq<char>) -> Seq<char> {
    name.map_values(
        |c: char|
            if is_ascii_alphanumeric(c) || c == '.' || c == '-' {
                c
            } else {
                '_'
            },
    )
}

pub fn safe_name(name: &str) -> (safe: String)
    ensures
        safe@ == safe_name_spec(name@),
{
    let s = chars_of(name);
    let mut safe = String::new();
    let mut i: usize = 0;
    while i < s.len()
        invariant
            i <= s@.len(),
            safe@ == safe_name_spec(s@).take(i as int),
        decreases s@.len() - i,
    {
        let c: char = s[i];
        safe.push(
            if ascii_alphanumeric(c) || c == '.' || c == '-' {
                c
            } else {
                '_'
            },
        );
        i += 1;
        assert(safe@ =~= safe_name_spec(s@).take(i as int));
    }
    assert(safe@ =~= safe_name_spec(name@));
    safe
}

/// A safe name leads nowhere else: it holds no slash.
pub proof fn safe_names_hold_no_slash(name: Seq<char>)
    ensures
        !safe_name_spec(name).contains('/'),
        safe_name_spec(name).len() == name.len(),
{
    let safe = safe_name_spec(name);
    assert forall|i: int| 0 <= i < safe.len() implies safe[i] != '/' by {}
}

pub open spec fn directory_tag_spec(production: bool) -> Seq<char> {
    if production {
        "production"@
    } else {
        "staging"@
    }
}

fn directory_tag(production: bool) -> (tag: &'static str)
    ensures
        tag@ == directory_tag_spec(production),
{
    if production {
        "production"
    } else {
        "staging"
    }
}

/// `rustls_acme::acme::LETS_ENCRYPT_PRODUCTION_DIRECTORY`: the directory whose
/// certificates browsers trust.
#[verifier::external_body]
fn production_directory() -> (url: &'static str)
    ensures
        url@ == "https://acme-v02.api.letsencrypt.org/directory"@,
{
    rustls_acme::acme::LETS_ENCRYPT_PRODUCTION_DIRECTORY
}

/// `rustls_acme::acme::LETS_ENCRYPT_STAGING_DIRECTORY`: the directory for trials.
#[verifier::external_body]
fn staging_directory() -> (url: &'static str)
    ensures
        url@ == "https://acme-staging-v02.api.letsencrypt.org/directory"@,
{
    rustls_acme::acme::LETS_ENCRYPT_STAGING_DIRECTORY
}

/// The directory that certificates are ordered from.
pub fn acme_directory(production: bool) -> (url: &'static str)
    ensures
        url@ == if production {
            "https://acme-v02.api.letsencrypt.org/directory"@
        } else {
            "https://acme-staging-v02.api.letsencrypt.org/directory"@
        },
{
    if production {
        production_directory()
    } else {
        staging_directory()
    }
}

/// A file in a directory.
pub fn path_in(dir: &str, file: &str) -> (path: String)
    ensures
        path@ == pushed(dir@, file@),
{
    let s = chars_of(dir);
    let mut path = dir.to_owned();
    if s.len() > 0 && s[s.len() - 1] != '/' {
        path.push('/');
        path.append(file);
        assert(path@ =~= dir@ + seq!['/'] + file@);
    } else {
        path.append(file);
    }
    path
}

/// Where the certificate of a domain is kept.
pub fn cert_cache_path(opts: &Dns01AcmeOptions) -> (path: String)
    ensures
        path@ == pushed(
            opts.cache_dir@,
            "dns01-"@ + safe_name_spec(opts.domain@) + "-"@ + directory_tag_spec(opts.production)
                + ".pem"@,
        ),
{
    let mut file = joined("dns01-", safe_name(opts.domain.as_str()).as_str());
    file.append("-");
    file.append(directory_tag(opts.production));
    file.append(".pem");
    path_in(opts.cache_dir.as_str(), file.as_str())
}

/// Where the key of an account is kept.
pub fn account_key_path(opts: &Dns01AcmeOptions) -> (path: String)
    ensures
        path@ == pushed(
            opts.cache_dir@,
            "dns01-account-"@ + directory_tag_spec(opts.production) + ".key"@,
        ),
{
    let mut file = joined("dns01-account-", directory_tag(opts.production));
    file.append(".key");
    path_in(opts.cache_dir.as_str(), file.as_str())
}

/// Where certificates are kept unless the configuration says otherwise.
pub fn default_hysteria2_acme_cache_dir(domain: &str) -> (path: String)
    ensures
        path@ == "./hysteria2-acme-cache/"@ + safe_name_spec(domain@),
{
    joined("./hysteria2-acme-cache/", safe_name(domain).as_str())
}

/// `domain` without the wildcards in front of it.
pub open spec fn without_wildcards(domain: Seq<char>) -> Seq<char>
    decreases domain.len(),
{
    if has_prefix(domain, seq!['*', '.']) {
        without_wildcards(domain.skip(2))
    } else {
        domain
    }
}

/// The domain itself: no wildcard in front, no dot behind.
pub open spec fn base_domain_spec(domain: Seq<char>) -> Seq<char> {
    without_trailing(without_wildcards(domain), '.')
}

pub fn dns_base_domain(domain: &str) -> (base: String)
    ensures
        base@ == base_domain_spec(domain@),
{
    let s = chars_of(domain);
    let mut start: usize = 0;
    assert(s@.skip(0) =~= s@);
    while s.len() - start >= 2 && s[start] == '*' && s[start + 1] == '.'
        invariant
            start <= s@.len(),
            without_wildcards(s@.skip(start as int)) == without_wildcards(s@),
        decreases s@.len() - start,
    {
        assert(s@.skip(start as int).take(2) =~= seq!['*', '.']);
        assert(s@.skip(start as int).skip(2) =~= s@.skip(start + 2));
        start += 2;
    }
    proof {
        let rest = s@.skip(start as int);
        if has_prefix(rest, seq!['*', '.']) {
            assert(rest.take(2)[0] == '*');
            assert(rest.take(2)[1] == '.');
            assert(rest[0] == s@[start as int]);
            assert(rest[1] == s@[start + 1]);
        }
    }
    let mut rest: Vec<char> = Vec::new();
    let mut i: usize = start;
    while i < s.len()
        invariant
            start <= i <= s@.len(),
            rest@ == s@.subrange(start as int, i as int),
        decreases s@.len() - i,
    {
        rest.push(s[i]);
        i += 1;
        assert(rest@ =~= s@.subrange(start as int, i as int));
    }
    assert(rest@ =~= s@.skip(start as int));
    let end: usize = trailing_start(rest.as_slice(), '.');
    let base = text_of(rest.as_slice(), 0, end);
    assert(base@ =~= rest@.take(end as int));
    base
}

/// The record that shows control over a domain.
pub fn dns01_record_name(domain: &str) -> (name: String)
    ensures
        name@ == "_acme-challenge."@ + base_domain_spec(domain@),
{
    joined("_acme-challenge.", dns_base_domain(domain).as_str())
}

/// Labels with dots between them, from `from` on.
pub open spec fn labels_from(labels: Seq<Seq<char>>, from: int) -> Seq<char>
    decreases labels.len() - from,
{
    if from >= labels.len() {
        Seq::empty()
    } else if from == labels.len() - 1 {
        labels[from]
    } else {
        labels[from] + "."@ + labels_from(labels, from + 1)
    }
}

/// The zones that a domain may lie in, the longest first: every suffix of two
/// labels or more; a domain of one label stands for itself.
pub open spec fn zone_candidates_spec(domain: Seq<char>) -> Seq<Seq<char>> {
    let base = base_domain_spec(domain);
    let labels = split_spec(base, '.');
    if labels.len() < 2 {
        seq![base]
    } else {
        Seq::new((labels.len() - 1) as nat, |i: int| labels_from(labels, i))
    }
}

fn join_labels(labels: &Vec<Vec<char>>, from: usize) -> (text: String)
    requires
        from <= labels@.len(),
    ensures
        text@ == labels_from(char_rows(labels@), from as int),
    decreases labels@.len() - from,
{
    if from >= labels.len() {
        return String::new();
    }
    assert(char_rows(labels@)[from as int] == labels@[from as int]@);
    let mut text = text_of(labels[from].as_slice(), 0, labels[from].len());
    assert(text@ =~= labels@[from as int]@);
    if from < labels.len() - 1 {
        text.append(".");
        text.append(join_labels(labels, from + 1).as_str());
        assert(text@ =~= labels@[from as int]@ + "."@ + labels_from(char_rows(labels@), from + 1));
    }
    text
}

pub fn zone_candidates(domain: &str) -> (zones: Vec<String>)
    ensures
        text_views(zones@) == zone_candidates_spec(domain@),
{
    let base = dns_base_domain(domain);
    let s = chars_of(base.as_str());
    let labels = split(s.as_slice(), '.');
    let ghost rows = split_spec(base@, '.');
    assert(rows.len() == labels@.len());
    let mut zones: Vec<String> = Vec::new();
    if labels.len() < 2 {
        zones.push(base);
        assert(text_views(zones@) =~= zone_candidates_spec(domain@));
        return zones;
    }
    let mut i: usize = 0;
    while i < labels.len() - 1
        invariant
            labels@.len() >= 2,
            i <= labels@.len() - 1,
            char_rows(labels@) == rows,
            zones@.len() == i,
            forall|j: int| 0 <= j < i ==> (#[trigger] zones@[j])@ == labels_from(rows, j),
        decreases labels@.len() - 1 - i,
    {
        zones.push(join_labels(&labels, i));
        i += 1;
    }
    assert(text_views(zones@) =~= zone_candidates_spec(domain@));
    zones
}

/// Whether a byte stands for itself in a URL.
pub open spec fn is_unreserved(byte: u8) -> bool {
    ||| 0x30 <= byte <= 0x39
    ||| 0x41 <= byte <= 0x5a
    ||| 0x61 <= byte <= 0x7a
    ||| byte == 0x2d
    ||| byte == 0x2e
    ||| byte == 0x5f
    ||| byte == 0x7e
}

pub open spec fn upper_hex(value: int) -> char {
    if value < 10 {
        (0x30 + value) as char
    } else {
        (0x41 + (value - 10)) as char
    }
}

pub open spec fn escaped_byte(byte: u8) -> Seq<char> {
    if is_unreserved(byte) {
        seq![byte as char]
    } else {
        seq!['%', upper_hex((byte / 16) as int), upper_hex((byte % 16) as int)]
    }
}

/// A text as it stands in the query of a URL.
pub open spec fn escaped(bytes: Seq<u8>) -> Seq<char>
    decreases bytes.len(),
{
    if bytes.len() == 0 {
        Seq::empty()
    } else {
        escaped(bytes.drop_last()) + escaped_byte(bytes.last())
    }
}

fn upper_hex_digit(value: u8) -> (c: char)
    requires
        value < 16,
    ensures
        c == upper_hex(value as int),
{
    if value < 10 {
        (0x30 + value) as char
    } else {
        (0x41 + (value - 10)) as char
    }
}

pub fn url_escape(value: &str) -> (text: String)
    ensures
        text@ == escaped(encode_utf8(value@)),
{
    let bytes: &[u8] = value.as_bytes();
    let mut text = String::new();
    let mut i: usize = 0;
    assert(bytes@.take(0) =~= Seq::<u8>::empty());
    while i < bytes.len()
        invariant
            i <= bytes@.len(),
            text@ == escaped(bytes@.take(i as int)),
        decreases bytes@.len() - i,
    {
        let byte: u8 = bytes[i];
        let ghost before = text@;
        if (0x30 <= byte && byte <= 0x39) || (0x41 <= byte && byte <= 0x5a) || (0x61 <= byte && byte
            <= 0x7a) || byte == 0x2d || byte == 0x2e || byte == 0x5f || byte == 0x7e {
            text.push(byte as char);
        } else {
            text.push('%');
            text.push(upper_hex_digit(byte / 16));
            text.push(upper_hex_digit(byte % 16));
        }
        assert(text@ =~= before + escaped_byte(byte));
        assert(bytes@.take(i + 1).drop_last() =~= bytes@.take(i as int));
        assert(bytes@.take(i + 1).last() == byte);
        i += 1;
    }
    assert(bytes@.take(i as int) =~= bytes@);
    text
}

/// Texts with a zero byte behind each.
pub open spec fn terminated(parts: Seq<Seq<char>>) -> Seq<u8>
    decreases parts.len(),
{
    if parts.len() == 0 {
        Seq::empty()
    } else {
        terminated(parts.drop_last()) + encode_utf8(parts.last()) + seq![0u8]
    }
}

/// The file that a certificate or an account is kept in: the name tells apart
/// what it was made for and which directory gave it.
pub fn cache_file_name(prefix: &str, parts: &Vec<String>, directory_url: &str) -> (name: String)
    ensures
        name@ == prefix@ + "_"@ + base64url_text(
            sha256_digest(terminated(text_views(parts@)) + encode_utf8(directory_url@)),
        ),
{
    let ghost texts = text_views(parts@);
    let mut input: Vec<u8> = Vec::new();
    let mut i: usize = 0;
    assert(texts.take(0) =~= Seq::<Seq<char>>::empty());
    while i < parts.len()
        invariant
            i <= parts@.len(),
            texts == text_views(parts@),
            input@ == terminated(texts.take(i as int)),
        decreases parts@.len() - i,
    {
        let ghost before = input@;
        input.extend_from_slice(parts[i].as_str().as_bytes());
        input.push(0);
        assert(texts.take(i + 1).drop_last() =~= texts.take(i as int));
        assert(texts.take(i + 1).last() == parts@[i as int]@);
        assert(input@ =~= before + encode_utf8(parts@[i as int]@) + seq![0u8]);
        i += 1;
    }
    assert(texts.take(i as int) =~= texts);
    input.extend_from_slice(directory_url.as_bytes());
    assert(input@ =~= terminated(texts) + encode_utf8(directory_url@));
    let digest = sha256(input.as_slice());
    let mut name = joined(prefix, "_");
    name.append(base64url_encode(digest.as_slice()).as_str());
    name
}

/// `count` zeros.
pub open spec fn zeros(count: nat) -> Seq<char> {
    Seq::new(count, |i: int| '0')
}

/// A number in sixteen hexadecimal digits.
pub open spec fn hex_16(value: u64) -> Seq<char> {
    let digits = hex_text(value as nat);
    zeros((16 - digits.len()) as nat) + digits
}

/// The name of the file that is written before it takes the place of another:
/// unlike any other as far as `nonce` is.
pub fn private_tmp_name(file_name: Option<&str>, process: u32, nonce: u64) -> (name: String)
    ensures
        name@ == "."@ + (match file_name {
            Some(file) => file@,
            None => "acme-cache"@,
        }) + ".tmp-"@ + decimal_text(process as nat) + "-"@ + hex_16(nonce),
{
    let file: &str = match file_name {
        Some(file) => file,
        None => "acme-cache",
    };
    let mut name = joined(".", file);
    name.append(".tmp-");
    name.append(decimal(process as u64).as_str());
    name.append("-");
    name.append(hex_padded(nonce).as_str());
    name
}

fn hex_padded(value: u64) -> (text: String)
    ensures
        text@ == hex_16(value),
{
    let digits = hex(value);
    let count: usize = chars_of(digits.as_str()).len();
    proof {
        hex_fits(value as nat, 16);
    }
    let mut text = String::new();
    let mut i: usize = count;
    assert(text@ =~= zeros((i - count) as nat));
    while i < 16
        invariant
            count <= i <= 16,
            text@ == zeros((i - count) as nat),
        decreases 16 - i,
    {
        text.push('0');
        i += 1;
        assert(text@ =~= zeros((i - count) as nat));
    }
    text.append(digits.as_str());
    text
}

/// Sixteen to the power of `exponent`.
spec fn power_of_sixteen(exponent: nat) -> nat
    decreases exponent,
{
    if exponent == 0 {
        1
    } else {
        16 * power_of_sixteen((exponent - 1) as nat)
    }
}

proof fn hex_len(value: nat, digits: nat)
    requires
        digits > 0,
        value < power_of_sixteen(digits),
    ensures
        hex_text(value).len() <= digits,
    decreases digits,
{
    if value >= 16 {
        if digits == 1 {
            assert(power_of_sixteen(1) == 16) by {
                reveal_with_fuel(power_of_sixteen, 2);
            }
        }
        hex_len(value / 16, (digits - 1) as nat);
    }
}

pub(crate) proof fn hex_fits(value: nat, digits: nat)
    requires
        value <= u64::MAX,
        digits == 16,
    ensures
        hex_text(value).len() <= 16,
{
    assert(power_of_sixteen(16) == 0x1_0000_0000_0000_0000) by {
        reveal_with_fuel(power_of_sixteen, 17);
    }
    hex_len(value, digits);
}

} // verus!
