//! What certificates are ordered for, where they are kept, and what is asked of
//! whom.

use vstd::prelude::*;
use vstd::utf8::encode_utf8;

use crate::config::parts::HeaderKey;
use crate::hysteria2::acme::{
    base_domain_spec, contact_text, directory_tag_spec, escaped, escaped_byte, hex_16, hex_fits,
    labels_from, safe_name_spec, terminated, zone_candidates_spec, CloudflareAuth,
};
use crate::hysteria2::cloudflare::{
    answer_errors, auth_headers, error_text, errors_text, zone_url, CloudflareError,
};
use crate::hysteria2::inbound::{
    setup_matches, CertSource, Hysteria2Inbound, InboundOptions, SetupError,
};
use crate::hysteria2::masquerade::masquerade_matches;
use crate::net::print::hex_text;
use crate::text::{decimal_text, has_prefix, split_spec};
use crate::text_laws::{
    joined_parts_are_found, joined_with, none_contains, parts_make_up_the_text,
};

verus! {

/// A contact is a mail address with `mailto:` in front, once.
pub proof fn contacts_are_mail_addresses(email: Seq<char>)
    ensures
        has_prefix(contact_text(email), "mailto:"@),
        has_prefix(email, "mailto:"@) ==> contact_text(email) == email,
        !has_prefix(email, "mailto:"@) ==> contact_text(email).skip(7) == email,
        contact_text(contact_text(email)) == contact_text(email),
{
    reveal_strlit("mailto:");
    assert("mailto:"@.len() == 7);
    let made = "mailto:"@ + email;
    assert(made.take(7) =~= "mailto:"@);
    assert(made.skip(7) =~= email);
}

/// In a safe name, letters, digits, dots and hyphens stand for themselves, and
/// underscores for all else.
pub proof fn safe_names_keep_what_is_safe(name: Seq<char>, i: int)
    requires
        0 <= i < name.len(),
    ensures
        safe_name_spec(name).len() == name.len(),
        ({
            let c = name[i];
            let safe = 'a' <= c <= 'z' || 'A' <= c <= 'Z' || '0' <= c <= '9' || c == '-' || c == '.';
            &&& safe ==> safe_name_spec(name)[i] == name[i]
            &&& !safe ==> safe_name_spec(name)[i] == '_'
        }),
        directory_tag_spec(true) == "production"@,
        directory_tag_spec(false) == "staging"@,
{
}

/// Wildcards in front of a domain and dots behind it go; a domain without
/// either is its own base.
pub proof fn bases_are_plain_domains(domain: Seq<char>)
    ensures
        base_domain_spec(seq!['*', '.'] + domain) == base_domain_spec(domain),
        !has_prefix(domain, seq!['*', '.']) && domain != seq!['*'] ==> base_domain_spec(
            domain.push('.'),
        ) == base_domain_spec(domain),
        !has_prefix(domain, seq!['*', '.']) && (domain.len() == 0 || domain.last() != '.')
            ==> base_domain_spec(domain) == domain,
{
    let wild = seq!['*', '.'] + domain;
    assert(wild.take(2) =~= seq!['*', '.']);
    assert(wild.skip(2) =~= domain);
    let dotted = domain.push('.');
    assert(dotted.drop_last() =~= domain);
    if !has_prefix(domain, seq!['*', '.']) && domain != seq!['*'] {
        if has_prefix(dotted, seq!['*', '.']) {
            if domain.len() >= 2 {
                assert(domain.take(2) =~= dotted.take(2));
            } else {
                assert(dotted.take(2)[0] == '*');
                assert(domain =~= seq!['*']);
            }
        }
    }
}

proof fn labels_are_joined(labels: Seq<Seq<char>>, from: int)
    requires
        0 <= from < labels.len(),
    ensures
        labels_from(labels, from) == joined_with(labels.skip(from), '.'),
    decreases labels.len() - from,
{
    reveal_strlit(".");
    assert("."@ =~= seq!['.']);
    let rest = labels.skip(from);
    if from < labels.len() - 1 {
        labels_are_joined(labels, from + 1);
        assert(rest.drop_first() =~= labels.skip(from + 1));
    }
}

/// The zones that a domain may lie in: the first is the domain itself, each
/// following one is the one before without its first label, and the last has
/// two labels. A domain of one label is its own only zone.
pub proof fn zones_lose_a_label_each(domain: Seq<char>)
    ensures
        ({
            let base = base_domain_spec(domain);
            let zones = zone_candidates_spec(domain);
            &&& zones.len() > 0
            &&& zones[0] == base
            &&& !base.contains('.') ==> zones.len() == 1
            &&& forall|i: int|
                #![trigger zones[i]]
                0 <= i < zones.len() - 1 ==> exists|label: Seq<char>|
                    !(#[trigger] label.contains('.')) && zones[i] == label + seq!['.'] + zones[i
                        + 1]
            &&& base.contains('.') ==> exists|a: Seq<char>, b: Seq<char>|
                zones.last() == #[trigger] (a + seq!['.'] + b) && !a.contains('.') && !b.contains(
                    '.',
                )
        }),
{
    let base = base_domain_spec(domain);
    let labels = split_spec(base, '.');
    let zones = zone_candidates_spec(domain);
    parts_make_up_the_text(base, '.');
    reveal_strlit(".");
    assert("."@ =~= seq!['.']);
    if labels.len() < 2 {
        assert(labels[0] == base);
        assert(!labels[0].contains('.'));
    } else {
        labels_are_joined(labels, 0);
        assert(labels.skip(0) =~= labels);
        assert forall|i: int|
            #![trigger zones[i]]
            0 <= i < zones.len() - 1 implies exists|label: Seq<char>|
            !(#[trigger] label.contains('.')) && zones[i] == label + seq!['.'] + zones[i + 1] by {
            assert(zones[i] == labels_from(labels, i));
            assert(zones[i + 1] == labels_from(labels, i + 1));
            assert(!labels[i].contains('.'));
        }
        let last = labels.len() - 2;
        assert(zones.last() == labels_from(labels, last));
        reveal_with_fuel(labels_from, 2);
        assert(labels_from(labels, last) == labels[last] + seq!['.'] + labels[last + 1]);
        assert(!labels[last].contains('.') && !labels[last + 1].contains('.'));
        if !base.contains('.') {
            let lone = seq![base];
            assert(lone[0] == base);
            assert(none_contains(lone, '.'));
            joined_parts_are_found(lone, '.');
            assert(joined_with(lone, '.') == base);
        }
    }
}

/// The value of a hexadecimal digit in upper case.
pub open spec fn upper_digit(c: char) -> int {
    if '0' <= c <= '9' {
        c as u32 - 0x30
    } else if 'A' <= c <= 'F' {
        c as u32 - 0x41 + 10
    } else {
        -1
    }
}

/// In a query, letters, digits and four marks stand for themselves; every other
/// byte is a percent sign and its two digits. Bytes are escaped one by one.
pub proof fn bytes_are_escaped_one_by_one(a: Seq<u8>, b: Seq<u8>, byte: u8)
    ensures
        escaped(a + b) == escaped(a) + escaped(b),
        escaped(seq![byte]) == escaped_byte(byte),
        ({
            let plain = 0x30 <= byte <= 0x39 || 0x41 <= byte <= 0x5a || 0x61 <= byte <= 0x7a || byte
                == 0x2d || byte == 0x2e || byte == 0x5f || byte == 0x7e;
            let text = escaped_byte(byte);
            &&& plain ==> text.len() == 1 && text[0] as u32 == byte
            &&& !plain ==> {
                &&& text.len() == 3
                &&& text[0] == '%'
                &&& 0 <= upper_digit(text[1]) < 16
                &&& 0 <= upper_digit(text[2]) < 16
                &&& 16 * upper_digit(text[1]) + upper_digit(text[2]) == byte
            }
        }),
    decreases b.len(),
{
    reveal_with_fuel(escaped, 2);
    assert(seq![byte].drop_last() =~= Seq::<u8>::empty());
    assert(escaped(seq![byte]) =~= escaped_byte(byte));
    if b.len() == 0 {
        assert(a + b =~= a);
        assert(escaped(a) + escaped(b) =~= escaped(a));
    } else {
        bytes_are_escaped_one_by_one(a, b.drop_last(), byte);
        assert((a + b).drop_last() =~= a + b.drop_last());
        assert((a + b).last() == b.last());
        assert(escaped(a + b) =~= escaped(a) + escaped(b));
    }
}

/// Each text ends in a zero byte, and texts follow each other.
pub proof fn texts_end_in_a_zero(a: Seq<Seq<char>>, b: Seq<Seq<char>>, text: Seq<char>)
    ensures
        terminated(a + b) == terminated(a) + terminated(b),
        terminated(seq![text]) == encode_utf8(text) + seq![0u8],
    decreases b.len(),
{
    reveal_with_fuel(terminated, 2);
    assert(seq![text].drop_last() =~= Seq::<Seq<char>>::empty());
    assert(terminated(seq![text]) =~= encode_utf8(text) + seq![0u8]);
    if b.len() == 0 {
        assert(a + b =~= a);
        assert(terminated(a) + terminated(b) =~= terminated(a));
    } else {
        texts_end_in_a_zero(a, b.drop_last(), text);
        assert((a + b).drop_last() =~= a + b.drop_last());
        assert((a + b).last() == b.last());
        assert(terminated(a + b) =~= terminated(a) + terminated(b));
    }
}

/// A number in sixteen digits is the number's own digits behind zeros.
pub proof fn numbers_are_filled_up(value: u64)
    ensures
        hex_text(value as nat).len() <= 16,
        hex_16(value).len() == 16,
        hex_16(value).skip(16 - hex_text(value as nat).len()) == hex_text(value as nat),
        forall|i: int|
            0 <= i < 16 - hex_text(value as nat).len() ==> #[trigger] hex_16(value)[i] == '0',
{
    hex_fits(value as nat, 16);
    let digits = hex_text(value as nat);
    assert(hex_16(value).skip(16 - digits.len()) =~= digits);
}

/// A token goes into one header, a global key and its mail address into two.
pub proof fn requests_are_signed(auth: CloudflareAuth)
    ensures
        auth matches CloudflareAuth::ApiToken(token) ==> {
            &&& auth_headers(auth).len() == 1
            &&& auth_headers(auth)[0] == (HeaderKey {
                name: "authorization"@,
                value: "Bearer "@ + token@,
            })
        },
        auth matches CloudflareAuth::GlobalKey { email, key } ==> {
            &&& auth_headers(auth).len() == 2
            &&& auth_headers(auth)[0] == (HeaderKey { name: "x-auth-email"@, value: email@ })
            &&& auth_headers(auth)[1] == (HeaderKey { name: "x-auth-key"@, value: key@ })
        },
{
}

/// A zone is asked for by its escaped name.
pub proof fn zones_are_asked_for_by_name(zone: Seq<char>)
    ensures
        has_prefix(zone_url(zone), "https://api.cloudflare.com/client/v4/zones?name="@),
        zone_url(zone).skip("https://api.cloudflare.com/client/v4/zones?name="@.len() as int)
            == escaped(encode_utf8(zone)),
{
    let front = "https://api.cloudflare.com/client/v4/zones?name="@;
    assert(zone_url(zone).take(front.len() as int) =~= front);
    assert(zone_url(zone).skip(front.len() as int) =~= escaped(encode_utf8(zone)));
}

/// An error is told by its code, if it has one, and its message; what led to it
/// follows in brackets. Errors are told one after the other.
pub proof fn errors_are_told(error: CloudflareError, errors: Vec<CloudflareError>)
    ensures
        ({
            let own = match error.code {
                Some(code) => decimal_text(code as nat) + seq![':', ' '] + error.message@,
                None => error.message@,
            };
            let chain = error.error_chain;
            &&& chain@.len() == 0 ==> error_text(error) == own
            &&& chain@.len() > 0 ==> error_text(error) == own + seq![' ', '('] + errors_text(
                chain,
                chain@.len(),
            ) + seq![')']
        }),
        errors@.len() == 0 ==> answer_errors(errors) == "unknown error"@,
        errors@.len() > 0 ==> answer_errors(errors) == errors_text(errors, errors@.len()),
        errors@.len() > 0 ==> errors_text(errors, 1) == error_text(errors@[0]),
        forall|count: nat|
            1 <= count < errors@.len() ==> #[trigger] errors_text(errors, count + 1)
                == errors_text(errors, count) + seq![';', ' '] + error_text(errors@[count as int]),
{
    reveal_strlit(": ");
    reveal_strlit(" (");
    reveal_strlit(")");
    reveal_strlit("; ");
    assert(": "@ =~= seq![':', ' ']);
    assert(" ("@ =~= seq![' ', '(']);
    assert(")"@ =~= seq![')']);
    assert("; "@ =~= seq![';', ' ']);
}

/// An inbound is set up from its options as they are. Its certificate comes
/// from two files, from a directory or from itself; a mixture is refused before
/// anything else is looked at.
pub proof fn inbounds_are_as_configured(
    opts: InboundOptions,
    made: Result<Hysteria2Inbound, SetupError>,
)
    requires
        setup_matches(opts, made),
    ensures
        ({
            let files = opts.certificate is Some && opts.private_key is Some && opts.acme is None;
            let directory = opts.certificate is None && opts.private_key is None
                && opts.acme is Some;
            let own = opts.certificate is None && opts.private_key is None && opts.acme is None;
            &&& made == Err::<Hysteria2Inbound, SetupError>(SetupError::CertificateSource) <==> !(
            files || directory || own)
            &&& made matches Ok(inbound) ==> {
                &&& files ==> inbound.source == (CertSource::Files {
                    certificate: opts.certificate->0,
                    private_key: opts.private_key->0,
                })
                &&& directory ==> inbound.source == CertSource::Acme(opts.acme->0)
                &&& own ==> inbound.source == CertSource::SelfSigned
                &&& inbound.addr == opts.addr
                &&& inbound.allow_lan == opts.allow_lan
                &&& inbound.fw_mark == opts.fw_mark
                &&& inbound.sni_guard == opts.sni_guard
                &&& inbound.password == opts.password
                &&& inbound.obfs == opts.obfs
                &&& masquerade_matches(opts.masquerade, Ok(inbound.masquerade))
            }
            &&& made matches Err(SetupError::Masquerade { error, source, sni_guard }) ==> {
                &&& masquerade_matches(opts.masquerade, Err(error))
                &&& sni_guard == opts.sni_guard
                &&& files <==> source is Files
                &&& directory <==> source is Acme
            }
        }),
{
}

} // verus!
