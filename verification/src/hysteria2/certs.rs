//! What certificates say.

use std::io::Cursor;
use vstd::prelude::*;
use vstd::string::*;
use x509_parser::extensions::GeneralName::{
    DNSName, DirectoryName, EDIPartyName, IPAddress, Invalid, OtherName, RFC822Name, RegisteredID,
    X400Address, URI,
};
use x509_parser::parse_x509_certificate;

use crate::hysteria2::sni::{
    is_normal_of, is_normalized, normal_name, normal_name_is_stable, normalize_dns_names, SniGuard,
    SniGuardMode,
};
use crate::text::{byte_rows, joined, text_views};

verus! {

/// Why a certificate cannot be used.
#[derive(Debug)]
pub enum CertError {
    EmptyChain,
    /// The certificate cannot be read.
    Parse(String),
    /// Its alternative names cannot be read.
    AlternativeNames(String),
    /// A name check is asked for, and the certificate holds no name.
    NoDnsName,
    /// A PEM file cannot be read.
    Pem(String),
    NoCertificate,
    NoPrivateKey,
    NoCertificateGiven,
    NoPrivateKeyGiven,
    NoCachedCertificate,
    CachedParse(String),
}

impl CertError {
    pub open spec fn message_spec(self) -> Seq<char> {
        match self {
            CertError::EmptyChain => "certificate chain is empty"@,
            CertError::Parse(error) => "failed to parse certificate for SNI guard: "@ + error@,
            CertError::AlternativeNames(error) =>
                "failed to parse certificate SAN for SNI guard: "@ + error@,
            CertError::NoDnsName => "hysteria2 TLS certificate has no DNS SAN for SNI guard"@,
            CertError::Pem(error) => error@,
            CertError::NoCertificate => "no certificate found in cached PEM"@,
            CertError::NoPrivateKey => "no private key found in cached PEM"@,
            CertError::NoCertificateGiven => "no certificate found in PEM"@,
            CertError::NoPrivateKeyGiven => "no private key found in PEM"@,
            CertError::NoCachedCertificate => "cached PEM has no certificate"@,
            CertError::CachedParse(error) => "parse cached certificate: "@ + error@,
        }
    }

    pub fn message(&self) -> (text: String)
        ensures
            text@ == self.message_spec(),
    {
        match self {
            CertError::EmptyChain => "certificate chain is empty".to_owned(),
            CertError::Parse(error) => joined(
                "failed to parse certificate for SNI guard: ",
                error.as_str(),
            ),
            CertError::AlternativeNames(error) => joined(
                "failed to parse certificate SAN for SNI guard: ",
                error.as_str(),
            ),
            CertError::NoDnsName =>
                "hysteria2 TLS certificate has no DNS SAN for SNI guard".to_owned(),
            CertError::Pem(error) => error.clone(),
            CertError::NoCertificate => "no certificate found in cached PEM".to_owned(),
            CertError::NoPrivateKey => "no private key found in cached PEM".to_owned(),
            CertError::NoCertificateGiven => "no certificate found in PEM".to_owned(),
            CertError::NoPrivateKeyGiven => "no private key found in PEM".to_owned(),
            CertError::NoCachedCertificate => "cached PEM has no certificate".to_owned(),
            CertError::CachedParse(error) => joined("parse cached certificate: ", error.as_str()),
        }
    }
}

/// The subject of a certificate's alternative names: what is wrong with the
/// certificate, or with the names, or the names; a name that is no DNS name is
/// `None`. Without the extension there are no names.
pub uninterp spec fn alternative_names_of(der: Seq<u8>) -> Result<
    Result<Option<Seq<Option<Seq<char>>>>, Seq<char>>,
    Seq<char>,
>;

pub open spec fn maybe_texts(names: Seq<Option<String>>) -> Seq<Option<Seq<char>>> {
    names.map_values(
        |name: Option<String>|
            match name {
                Some(text) => Some(text@),
                None => None,
            },
    )
}

/// `parse_x509_certificate` and `X509Certificate::subject_alternative_name`:
/// the outer error is that of the certificate, the inner one that of the
/// extension. All depend on the bytes alone and are named, not described.
#[verifier::external_body]
fn alternative_names(der: &[u8]) -> (names: Result<
    Result<Option<Vec<Option<String>>>, String>,
    String,
>)
    ensures
        match names {
            Err(error) => alternative_names_of(der@) == Err::<
                Result<Option<Seq<Option<Seq<char>>>>, Seq<char>>,
                Seq<char>,
            >(error@),
            Ok(Err(error)) => alternative_names_of(der@) == Ok::<
                Result<Option<Seq<Option<Seq<char>>>>, Seq<char>>,
                Seq<char>,
            >(Err(error@)),
            Ok(Ok(None)) => alternative_names_of(der@) == Ok::<
                Result<Option<Seq<Option<Seq<char>>>>, Seq<char>>,
                Seq<char>,
            >(Ok(None)),
            Ok(Ok(Some(list))) => alternative_names_of(der@) == Ok::<
                Result<Option<Seq<Option<Seq<char>>>>, Seq<char>>,
                Seq<char>,
            >(Ok(Some(maybe_texts(list@)))),
        },
{
    let (_, cert) = parse_x509_certificate(der).map_err(|error| error.to_string())?;
    let san = match cert.subject_alternative_name() {
        Err(error) => return Ok(Err(error.to_string())),
        Ok(None) => return Ok(Ok(None)),
        Ok(Some(san)) => san,
    };
    let names = san.value.general_names.iter().map(|name| match name {
        DNSName(text) => Some((*text).to_owned()),
        OtherName(..) | RFC822Name(..) | X400Address(..) | DirectoryName(..) => None,
        EDIPartyName(..) | URI(..) | IPAddress(..) | RegisteredID(..) | Invalid(..) => None,
    });
    Ok(Ok(Some(names.collect())))
}

/// The DNS names among the alternative names.
pub open spec fn dns_only(names: Seq<Option<Seq<char>>>) -> Seq<Seq<char>>
    decreases names.len(),
{
    if names.len() == 0 {
        Seq::empty()
    } else {
        match names.last() {
            Some(name) => dns_only(names.drop_last()).push(name),
            None => dns_only(names.drop_last()),
        }
    }
}

/// The DNS names that a certificate holds, in normal form.
pub fn certificate_dns_names(certs: &Vec<Vec<u8>>) -> (names: Result<Vec<String>, CertError>)
    ensures
        certs@.len() == 0 ==> names == Err::<Vec<String>, CertError>(CertError::EmptyChain),
        certs@.len() > 0 ==> match alternative_names_of(certs@[0]@) {
            Err(error) => names matches Err(CertError::Parse(text)) && text@ == error,
            Ok(Err(error)) => names matches Err(CertError::AlternativeNames(text)) && text@
                == error,
            Ok(Ok(None)) => names matches Ok(list) && list@.len() == 0,
            Ok(Ok(Some(all))) => names matches Ok(list) && is_normalized(
                text_views(list@),
                dns_only(all),
                dns_only(all).len() as int,
            ),
        },
{
    if certs.len() == 0 {
        return Err(CertError::EmptyChain);
    }
    match alternative_names(certs[0].as_slice()) {
        Err(error) => Err(CertError::Parse(error)),
        Ok(Err(error)) => Err(CertError::AlternativeNames(error)),
        Ok(Ok(None)) => Ok(Vec::new()),
        Ok(Ok(Some(all))) => {
            let mut dns: Vec<String> = Vec::new();
            let ghost texts = maybe_texts(all@);
            let mut i: usize = 0;
            assert(texts.take(0) =~= Seq::<Option<Seq<char>>>::empty());
            assert(text_views(dns@) =~= dns_only(texts.take(0)));
            while i < all.len()
                invariant
                    i <= all@.len(),
                    texts == maybe_texts(all@),
                    text_views(dns@) == dns_only(texts.take(i as int)),
                decreases all@.len() - i,
            {
                assert(texts.take(i + 1).drop_last() =~= texts.take(i as int));
                assert(texts.take(i + 1).last() == texts[i as int]);
                if let Some(name) = &all[i] {
                    let ghost before = text_views(dns@);
                    let copy = name.clone();
                    dns.push(copy);
                    assert(text_views(dns@) =~= before.push(name@));
                }
                i += 1;
            }
            assert(texts.take(i as int) =~= texts);
            assert(text_views(dns@).len() == dns@.len());
            Ok(normalize_dns_names(&dns))
        },
    }
}

/// Whether a certificate with these names can be guarded in a mode.
pub fn check_guarded_names(names: &Vec<String>, mode: SniGuardMode) -> (checked: Result<
    (),
    CertError,
>)
    ensures
        match checked {
            Ok(()) => mode == SniGuardMode::Disable || names@.len() > 0,
            Err(error) => mode != SniGuardMode::Disable && names@.len() == 0 && error
                == CertError::NoDnsName,
        },
{
    if mode != SniGuardMode::Disable && names.len() == 0 {
        return Err(CertError::NoDnsName);
    }
    Ok(())
}

/// Whether one of the names is more than dots.
pub open spec fn names_something(names: Seq<Seq<char>>) -> bool {
    exists|i: int| 0 <= i < names.len() && normal_name(#[trigger] names[i]).len() > 0
}

/// The guard of a certificate that holds `names`.
pub open spec fn guard_matches(
    names: Seq<Seq<char>>,
    mode: SniGuardMode,
    guard: Result<Option<SniGuard>, CertError>,
) -> bool {
    if mode == SniGuardMode::Disable {
        guard matches Ok(None)
    } else if !names_something(names) {
        guard matches Err(error) && error == CertError::NoDnsName
    } else {
        &&& guard matches Ok(Some(g))
        &&& is_normalized(text_views(g.names@), names, names.len() as int)
        &&& g.strict == (mode == SniGuardMode::Strict)
    }
}

proof fn some_name_is_left(normal: Seq<Seq<char>>, names: Seq<Seq<char>>)
    requires
        is_normalized(normal, names, names.len() as int),
    ensures
        normal.len() > 0 <==> names_something(names),
{
    if normal.len() > 0 {
        assert(normal.contains(normal[0]));
    }
    if names_something(names) {
        let i = choose|i: int| 0 <= i < names.len() && normal_name(#[trigger] names[i]).len() > 0;
        assert(is_normal_of(normal_name(names[i]), names, names.len() as int));
        assert(normal.contains(normal_name(names[i])));
    }
}

/// Names in normal form are their own normal forms.
proof fn normal_names_stay(
    again: Seq<Seq<char>>,
    normal: Seq<Seq<char>>,
    names: Seq<Seq<char>>,
)
    requires
        is_normalized(normal, names, names.len() as int),
        is_normalized(again, normal, normal.len() as int),
    ensures
        is_normalized(again, names, names.len() as int),
{
    let count = names.len() as int;
    assert forall|i: int| 0 <= i < normal.len() implies normal_name(#[trigger] normal[i])
        == normal[i] by {
        assert(normal.contains(normal[i]));
        let k = choose|k: int| 0 <= k < count && normal_name(#[trigger] names[k]) == normal[i];
        normal_name_is_stable(names[k]);
    }
    assert forall|name: Seq<char>| #[trigger]
        again.contains(name) <==> is_normal_of(name, names, count) by {
        if again.contains(name) {
            let i = choose|i: int|
                0 <= i < normal.len() && normal_name(#[trigger] normal[i]) == name;
            assert(normal.contains(normal[i]));
        }
        if is_normal_of(name, names, count) {
            assert(normal.contains(name));
            let i = choose|i: int| 0 <= i < normal.len() && normal[i] == name;
            assert(normal_name(normal[i]) == name);
            assert(is_normal_of(name, normal, normal.len() as int));
        }
    }
}

/// The guard of a certificate that was loaded: its names are those that clients
/// may ask for.
pub fn certificate_guard(certs: &Vec<Vec<u8>>, mode: SniGuardMode) -> (guard: Result<
    Option<SniGuard>,
    CertError,
>)
    ensures
        if certs@.len() == 0 {
            guard matches Err(error) && error == CertError::EmptyChain
        } else {
            match alternative_names_of(certs@[0]@) {
                Err(error) => guard matches Err(CertError::Parse(text)) && text@ == error,
                Ok(Err(error)) => guard matches Err(CertError::AlternativeNames(text)) && text@
                    == error,
                Ok(Ok(all)) => guard_matches(
                    match all {
                        Some(names) => dns_only(names),
                        None => Seq::empty(),
                    },
                    mode,
                    guard,
                ),
            }
        },
{
    let names = match certificate_dns_names(certs) {
        Ok(names) => names,
        Err(error) => {
            return Err(error);
        },
    };
    let ghost dns = match alternative_names_of(certs@[0]@)->Ok_0->Ok_0 {
        Some(all) => dns_only(all),
        None => Seq::empty(),
    };
    proof {
        some_name_is_left(text_views(names@), dns);
    }
    match check_guarded_names(&names, mode) {
        Ok(()) => {
            let guard = SniGuard::for_mode(&names, mode);
            proof {
                if guard is Some {
                    normal_names_stay(text_views(guard->0.names@), text_views(names@), dns);
                }
            }
            Ok(guard)
        },
        Err(error) => Err(error),
    }
}

/// The certificates in a PEM file, or what is wrong with it.
pub uninterp spec fn pem_certificates_of(pem: Seq<u8>) -> Result<Seq<Seq<u8>>, Seq<char>>;

/// `rustls_pemfile::certs`, collected: the certificates, or the text of the
/// first error. Both depend on the bytes alone and are named, not described.
#[verifier::external_body]
fn pem_certificates(pem: &[u8]) -> (certs: Result<Vec<Vec<u8>>, String>)
    ensures
        match certs {
            Ok(list) => pem_certificates_of(pem@) == Ok::<Seq<Seq<u8>>, Seq<char>>(
                byte_rows(list@),
            ),
            Err(error) => pem_certificates_of(pem@) == Err::<Seq<Seq<u8>>, Seq<char>>(error@),
        },
{
    rustls_pemfile::certs(&mut Cursor::new(pem))
        .map(|cert| cert.map(|der| der.to_vec()).map_err(|error| error.to_string()))
        .collect()
}

/// The first private key in a PEM file, or what is wrong with the file.
pub uninterp spec fn pem_private_key_of(pem: Seq<u8>) -> Result<Option<Seq<u8>>, Seq<char>>;

/// `rustls_pemfile::private_key`: the key, or the text of the error. Both
/// depend on the bytes alone and are named, not described.
#[verifier::external_body]
fn pem_private_key(pem: &[u8]) -> (key: Result<Option<Vec<u8>>, String>)
    ensures
        match key {
            Ok(Some(der)) => pem_private_key_of(pem@) == Ok::<Option<Seq<u8>>, Seq<char>>(
                Some(der@),
            ),
            Ok(None) => pem_private_key_of(pem@) == Ok::<Option<Seq<u8>>, Seq<char>>(None),
            Err(error) => pem_private_key_of(pem@) == Err::<Option<Seq<u8>>, Seq<char>>(error@),
        },
{
    match rustls_pemfile::private_key(&mut Cursor::new(pem)) {
        Ok(Some(key)) => Ok(Some(key.secret_der().to_vec())),
        Ok(None) => Ok(None),
        Err(error) => Err(error.to_string()),
    }
}

/// The certificates of one PEM file and the private key of another, or what is
/// wrong with the first, and only then with the second.
pub open spec fn is_pem_pair(
    cert_pem: Seq<u8>,
    key_pem: Seq<u8>,
    parts: Result<(Vec<Vec<u8>>, Vec<u8>), CertError>,
    no_certificate: CertError,
    no_key: CertError,
) -> bool {
    match pem_certificates_of(cert_pem) {
        Err(text) => parts matches Err(CertError::Pem(error)) && error@ == text,
        Ok(certs) => if certs.len() == 0 {
            parts matches Err(error) && error == no_certificate
        } else {
            match pem_private_key_of(key_pem) {
                Err(text) => parts matches Err(CertError::Pem(error)) && error@ == text,
                Ok(None) => parts matches Err(error) && error == no_key,
                Ok(Some(key)) => parts matches Ok(found) && byte_rows(found.0@) == certs
                    && found.1@ == key,
            }
        },
    }
}

/// The certificates and the private key of a cached PEM file.
pub fn certified_parts_from_pem(pem: &[u8]) -> (parts: Result<
    (Vec<Vec<u8>>, Vec<u8>),
    CertError,
>)
    ensures
        is_pem_pair(pem@, pem@, parts, CertError::NoCertificate, CertError::NoPrivateKey),
{
    let certs = match pem_certificates(pem) {
        Ok(certs) => certs,
        Err(error) => {
            return Err(CertError::Pem(error));
        },
    };
    assert(byte_rows(certs@).len() == certs@.len());
    if certs.len() == 0 {
        return Err(CertError::NoCertificate);
    }
    match pem_private_key(pem) {
        Ok(Some(key)) => Ok((certs, key)),
        Ok(None) => Err(CertError::NoPrivateKey),
        Err(error) => Err(CertError::Pem(error)),
    }
}

/// The certificates and the private key of a listener's two PEM files.
pub fn certified_parts_from_files(cert_pem: &[u8], key_pem: &[u8]) -> (parts: Result<
    (Vec<Vec<u8>>, Vec<u8>),
    CertError,
>)
    ensures
        is_pem_pair(
            cert_pem@,
            key_pem@,
            parts,
            CertError::NoCertificateGiven,
            CertError::NoPrivateKeyGiven,
        ),
{
    let certs = match pem_certificates(cert_pem) {
        Ok(certs) => certs,
        Err(error) => {
            return Err(CertError::Pem(error));
        },
    };
    assert(byte_rows(certs@).len() == certs@.len());
    if certs.len() == 0 {
        return Err(CertError::NoCertificateGiven);
    }
    match pem_private_key(key_pem) {
        Ok(Some(key)) => Ok((certs, key)),
        Ok(None) => Err(CertError::NoPrivateKeyGiven),
        Err(error) => Err(CertError::Pem(error)),
    }
}

/// The first and the last second of a certificate's validity, since 1970, or
/// what is wrong with the certificate.
pub uninterp spec fn validity_of(der: Seq<u8>) -> Result<(i64, i64), Seq<char>>;

/// `parse_x509_certificate` and `X509Certificate::validity`: both ends, or the
/// text of the error. Both depend on the bytes alone and are named, not described.
#[verifier::external_body]
fn validity(der: &[u8]) -> (span: Result<(i64, i64), String>)
    ensures
        match span {
            Ok(ends) => validity_of(der@) == Ok::<(i64, i64), Seq<char>>(ends),
            Err(error) => validity_of(der@) == Err::<(i64, i64), Seq<char>>(error@),
        },
{
    let (_, cert) = parse_x509_certificate(der).map_err(|error| error.to_string())?;
    Ok((cert.validity().not_before.timestamp(), cert.validity().not_after.timestamp()))
}

/// `value`, or the end of the range that it lies beyond.
pub open spec fn clamped(value: int) -> int {
    if value > i64::MAX {
        i64::MAX as int
    } else if value < i64::MIN {
        i64::MIN as int
    } else {
        value
    }
}

/// A third of a number, rounded towards zero.
pub open spec fn third(value: int) -> int {
    if value >= 0 {
        value / 3
    } else {
        -((-value) / 3)
    }
}

/// When a certificate is due for renewal: when a third of its life is left.
pub open spec fn renew_at(not_before: i64, not_after: i64) -> int {
    clamped(not_after - third(clamped(not_after - not_before)))
}

fn clamp(value: i128) -> (within: i128)
    ensures
        within == clamped(value as int),
{
    if value > i64::MAX as i128 {
        i64::MAX as i128
    } else if value < i64::MIN as i128 {
        i64::MIN as i128
    } else {
        value
    }
}

/// Seconds until a certificate is due for renewal, at the time `now`.
pub fn renewal_delay(not_before: i64, not_after: i64, now: i64) -> (seconds: u64)
    ensures
        seconds == if now >= renew_at(not_before, not_after) {
            0
        } else {
            renew_at(not_before, not_after) - now
        },
{
    let lifetime: i128 = clamp(not_after as i128 - not_before as i128);
    let part: i128 = if lifetime >= 0 {
        lifetime / 3
    } else {
        -((-lifetime) / 3)
    };
    let due: i128 = clamp(not_after as i128 - part);
    if now as i128 >= due {
        return 0;
    }
    (due - now as i128) as u64
}

/// What the question when a cached certificate is due is answered at the time `now`.
pub open spec fn delay_matches(pem: Seq<u8>, now: i64, seconds: Result<u64, CertError>) -> bool {
    match pem_certificates_of(pem) {
        Err(error) => seconds matches Err(CertError::Pem(text)) && text@ == error,
        Ok(certs) => if certs.len() == 0 {
            seconds == Err::<u64, CertError>(CertError::NoCachedCertificate)
        } else {
            match validity_of(certs[0]) {
                Err(error) => seconds matches Err(CertError::CachedParse(text)) && text@ == error,
                Ok((not_before, not_after)) => seconds matches Ok(s) && s == if now >= renew_at(
                    not_before,
                    not_after,
                ) {
                    0
                } else {
                    renew_at(not_before, not_after) - now
                },
            }
        },
    }
}

/// Seconds until the certificate in a cached PEM file is due for renewal, at
/// the time `now`.
pub fn certificate_renewal_delay_at(pem: &[u8], now: i64) -> (seconds: Result<u64, CertError>)
    ensures
        delay_matches(pem@, now, seconds),
{
    let certs = match pem_certificates(pem) {
        Ok(certs) => certs,
        Err(error) => {
            return Err(CertError::Pem(error));
        },
    };
    assert(byte_rows(certs@).len() == certs@.len());
    if certs.len() == 0 {
        return Err(CertError::NoCachedCertificate);
    }
    assert(byte_rows(certs@)[0] == certs@[0]@);
    match validity(certs[0].as_slice()) {
        Ok((not_before, not_after)) => Ok(renewal_delay(not_before, not_after, now)),
        Err(error) => Err(CertError::CachedParse(error)),
    }
}

/// `chrono::Utc::now`, as seconds since 1970: nothing is claimed of the time.
/// The call panics on a machine whose clock stands before 1970.
#[verifier::external_body]
fn utc_now() -> i64 {
    chrono::Utc::now().timestamp()
}

/// Seconds until the certificate in a cached PEM file is due for renewal.
pub fn certificate_renewal_delay(pem: &[u8]) -> (seconds: Result<u64, CertError>)
    ensures
        exists|now: i64| #[trigger] delay_matches(pem@, now, seconds),
{
    let now: i64 = utc_now();
    certificate_renewal_delay_at(pem, now)
}

/// A certificate is never renewed before it is valid, nor left to run out: the
/// renewal lies within its life.
pub proof fn renewal_lies_within_life(not_before: i64, not_after: i64)
    requires
        not_before <= not_after,
    ensures
        not_before <= renew_at(not_before, not_after) <= not_after,
{
}

} // verus!
