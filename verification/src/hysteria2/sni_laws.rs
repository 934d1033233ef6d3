//! Which names a certificate is shown for, and until when it is kept.

use vstd::prelude::*;

use crate::hysteria2::certs::{
    delay_matches, dns_only, guard_matches, is_pem_pair, pem_certificates_of, pem_private_key_of,
    renew_at, validity_of, CertError,
};
use crate::hysteria2::sni::{
    dns_name_matches_spec, is_normalized, normal_name, wildcard_label, wildcard_matches, SniGuard,
    SniGuardMode,
};
use crate::text::{ascii_lower, ascii_lower_text, byte_rows, has_prefix, text_views};

verus! {

/// Neither the case of ASCII letters nor dots at the end matter.
pub proof fn case_and_final_dots_do_not_matter(pattern: Seq<char>, name: Seq<char>)
    ensures
        dns_name_matches_spec(pattern, name.push('.')) == dns_name_matches_spec(pattern, name),
        dns_name_matches_spec(pattern.push('.'), name) == dns_name_matches_spec(pattern, name),
        dns_name_matches_spec(pattern, ascii_lower_text(name)) == dns_name_matches_spec(
            pattern,
            name,
        ),
        dns_name_matches_spec(ascii_lower_text(pattern), name) == dns_name_matches_spec(
            pattern,
            name,
        ),
        dns_name_matches_spec(name, name),
{
    final_dot_goes(name);
    final_dot_goes(pattern);
    lower_is_stable(name);
    lower_is_stable(pattern);
}

proof fn final_dot_goes(name: Seq<char>)
    ensures
        normal_name(name.push('.')) == normal_name(name),
{
    assert(name.push('.').drop_last() =~= name);
}

proof fn lower_is_stable(name: Seq<char>)
    ensures
        normal_name(ascii_lower_text(name)) == normal_name(name),
    decreases name.len(),
{
    let lower = ascii_lower_text(name);
    if name.len() > 0 && name.last() == '.' {
        assert(lower.drop_last() =~= ascii_lower_text(name.drop_last()));
        assert(lower.last() == '.');
        lower_is_stable(name.drop_last());
    } else {
        if name.len() > 0 {
            assert(lower.last() == ascii_lower(name.last()));
        }
        assert(ascii_lower_text(lower) =~= lower);
    }
}

/// A name in lower case that does not end in a dot.
pub open spec fn is_normal(name: Seq<char>) -> bool {
    ascii_lower_text(name) == name && (name.len() > 0 ==> name.last() != '.')
}

/// A wildcard stands for exactly one label in front of its domain: for no label
/// it does not, and for two it does not.
pub proof fn wildcards_stand_for_one_label(label: Seq<char>, domain: Seq<char>)
    requires
        is_normal(domain),
        domain.len() > 0,
        ascii_lower_text(label) == label,
        label != seq!['*'],
    ensures
        dns_name_matches_spec(seq!['*', '.'] + domain, label + seq!['.'] + domain)
            <==> label.len() > 0 && !label.contains('.'),
        !dns_name_matches_spec(seq!['*', '.'] + domain, domain),
{
    let pattern = seq!['*', '.'] + domain;
    let name = label + seq!['.'] + domain;
    assert(pattern.skip(pattern.len() - domain.len()) =~= domain);
    assert(name.skip(name.len() - domain.len()) =~= domain);
    assert forall|i: int| 0 <= i < domain.len() implies ascii_lower(
        #[trigger] domain[i],
    ) == domain[i] by {
        assert(ascii_lower_text(domain)[i] == ascii_lower(domain[i]));
    }
    assert forall|i: int| 0 <= i < label.len() implies ascii_lower(
        #[trigger] label[i],
    ) == label[i] by {
        assert(ascii_lower_text(label)[i] == ascii_lower(label[i]));
    }
    is_own_normal(pattern, domain);
    is_own_normal(name, domain);
    assert(normal_name(domain) == domain);
    assert(pattern.skip(2) =~= domain);
    assert(pattern.take(2) =~= seq!['*', '.']);
    if label.len() > 0 && !label.contains('.') {
        assert(wildcard_label(pattern, name, label));
    }
    if pattern == name {
        assert(pattern.len() == name.len());
        assert(label.len() == 1);
        assert(name[0] == label[0]);
        assert(label =~= seq!['*']);
    }
    if wildcard_matches(pattern, name) {
        let other = choose|l: Seq<char>| #[trigger] wildcard_label(pattern, name, l);
        assert(other.len() == label.len());
        assert(other =~= name.take(label.len() as int));
        assert(label =~= name.take(label.len() as int));
    }
    if pattern == domain {
        assert(pattern.len() == domain.len() + 2);
    }
    if wildcard_matches(pattern, domain) {
        let other = choose|l: Seq<char>| #[trigger] wildcard_label(pattern, domain, l);
        assert(domain.len() == other.len() + 1 + domain.len());
    }
}

proof fn is_own_normal(name: Seq<char>, tail: Seq<char>)
    requires
        name.len() > tail.len() > 0,
        name.skip(name.len() - tail.len()) == tail,
        tail.last() != '.',
        ascii_lower_text(name) =~= name,
    ensures
        normal_name(name) == name,
{
    assert(name.last() == name.skip(name.len() - tail.len()).last());
}

/// A name that is no wildcard stands for itself alone.
pub proof fn plain_names_stand_for_themselves(pattern: Seq<char>, name: Seq<char>)
    requires
        !has_prefix(normal_name(pattern), seq!['*', '.']),
    ensures
        dns_name_matches_spec(pattern, name) <==> normal_name(pattern) == normal_name(name),
{
}

/// A strict guard goes by the very names; the other also by what wildcards
/// among them stand for.
pub proof fn guards_go_by_the_names(names: Seq<Seq<char>>, sni: Seq<char>)
    ensures
        SniGuard::allows_spec(names, true, sni) <==> exists|i: int|
            0 <= i < names.len() && #[trigger] names[i] == normal_name(sni),
        SniGuard::allows_spec(names, false, sni) <==> exists|i: int|
            0 <= i < names.len() && (normal_name(#[trigger] names[i]) == normal_name(sni)
                || wildcard_matches(normal_name(names[i]), normal_name(sni))),
{
    if SniGuard::allows_spec(names, false, sni) {
        let i = choose|i: int|
            0 <= i < names.len() && dns_name_matches_spec(#[trigger] names[i], sni);
        assert(dns_name_matches_spec(names[i], sni));
    }
    if exists|i: int|
        0 <= i < names.len() && (normal_name(#[trigger] names[i]) == normal_name(sni)
            || wildcard_matches(normal_name(names[i]), normal_name(sni))) {
        let i = choose|i: int|
            0 <= i < names.len() && (normal_name(#[trigger] names[i]) == normal_name(sni)
                || wildcard_matches(normal_name(names[i]), normal_name(sni)));
        assert(dns_name_matches_spec(names[i], sni));
    }
}

/// Names of other kinds are passed over; the DNS names stay in their order.
pub proof fn dns_names_stay_in_order(names: Seq<Option<Seq<char>>>)
    ensures
        dns_only(names) == names.filter(|name: Option<Seq<char>>| name is Some).map_values(
            |name: Option<Seq<char>>| name->0,
        ),
    decreases names.len(),
{
    reveal(Seq::filter);
    let keep = |name: Option<Seq<char>>| name is Some;
    let inner = |name: Option<Seq<char>>| name->0;
    if names.len() > 0 {
        let front = names.drop_last();
        dns_names_stay_in_order(front);
        if names.last() is Some {
            assert(front.filter(keep).push(names.last()).map_values(inner) =~= front.filter(
                keep,
            ).map_values(inner).push(names.last()->0));
        }
    } else {
        assert(names.filter(keep).map_values(inner) =~= Seq::<Seq<char>>::empty());
    }
}

/// A certificate is guarded unless the check is off, strictly if it is to be; a
/// certificate without a name cannot be guarded.
pub proof fn certificates_are_guarded(
    names: Seq<Seq<char>>,
    mode: SniGuardMode,
    guard: Result<Option<SniGuard>, CertError>,
)
    requires
        guard_matches(names, mode, guard),
    ensures
        mode == SniGuardMode::Disable <==> guard == Ok::<Option<SniGuard>, CertError>(None),
        mode != SniGuardMode::Disable ==> {
            &&& guard == Err::<Option<SniGuard>, CertError>(CertError::NoDnsName) <==> forall|
                i: int,
            |
                0 <= i < names.len() ==> normal_name(#[trigger] names[i]).len() == 0
            &&& guard matches Ok(Some(g)) ==> {
                &&& g.strict <==> mode == SniGuardMode::Strict
                &&& is_normalized(text_views(g.names@), names, names.len() as int)
            }
        },
{
    if mode != SniGuardMode::Disable && (forall|i: int|
        0 <= i < names.len() ==> normal_name(#[trigger] names[i]).len() == 0) {
        assert(!crate::hysteria2::certs::names_something(names));
    }
}

/// A pair of PEM files is used if the first holds a certificate and the second
/// a key; what is wrong with the first is told first.
pub proof fn pem_pairs_are_used(
    cert_pem: Seq<u8>,
    key_pem: Seq<u8>,
    parts: Result<(Vec<Vec<u8>>, Vec<u8>), CertError>,
    no_certificate: CertError,
    no_key: CertError,
)
    requires
        is_pem_pair(cert_pem, key_pem, parts, no_certificate, no_key),
    ensures
        parts is Ok <==> pem_certificates_of(cert_pem) is Ok && pem_certificates_of(
            cert_pem,
        )->Ok_0.len() > 0 && pem_private_key_of(key_pem) is Ok && pem_private_key_of(
            key_pem,
        )->Ok_0 is Some,
        parts matches Ok(found) ==> {
            &&& byte_rows(found.0@) == pem_certificates_of(cert_pem)->Ok_0
            &&& found.1@ == pem_private_key_of(key_pem)->Ok_0->0
        },
        pem_certificates_of(cert_pem) matches Err(text) ==> parts matches Err(CertError::Pem(t))
            && t@ == text,
        pem_certificates_of(cert_pem) matches Ok(certs) ==> {
            &&& certs.len() == 0 ==> parts == Err::<(Vec<Vec<u8>>, Vec<u8>), CertError>(
                no_certificate,
            )
            &&& certs.len() > 0 ==> {
                &&& pem_private_key_of(key_pem) matches Err(text) ==> parts matches Err(
                    CertError::Pem(t),
                ) && t@ == text
                &&& pem_private_key_of(key_pem) == Ok::<Option<Seq<u8>>, Seq<char>>(None)
                    ==> parts == Err::<(Vec<Vec<u8>>, Vec<u8>), CertError>(no_key)
            }
        },
{
}

/// A certificate is renewed when a third of its life is left, rounded down to a
/// second; one that is due is due at once.
pub proof fn a_third_of_life_is_left(
    not_before: i64,
    not_after: i64,
    now: i64,
    pem: Seq<u8>,
    seconds: Result<u64, CertError>,
)
    requires
        0 <= not_before <= not_after,
        delay_matches(pem, now, seconds),
        pem_certificates_of(pem) is Ok,
        pem_certificates_of(pem)->Ok_0.len() > 0,
        validity_of(pem_certificates_of(pem)->Ok_0[0]) == Ok::<(i64, i64), Seq<char>>(
            (not_before, not_after),
        ),
    ensures
        ({
            let left = not_after - renew_at(not_before, not_after);
            3 * left <= not_after - not_before < 3 * left + 3
        }),
        seconds is Ok,
        now >= renew_at(not_before, not_after) <==> seconds == Ok::<u64, CertError>(0),
        now < renew_at(not_before, not_after) ==> now + seconds->Ok_0 == renew_at(
            not_before,
            not_after,
        ),
{
}

} // verus!
