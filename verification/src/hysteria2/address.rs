//! Destinations in the form `host:port`.

use vstd::prelude::*;
use vstd::utf8::*;

use crate::hysteria2::error::CodecError;
use crate::net::addr::{IpAddr, SocketAddr, SocksAddr, Target};
use crate::net::laws::{decimal_digits, reads_decimal, socket_addr_round_trip};
use crate::net::number::{char_at, digit_value, has_char, number_at, read_number, NumberForm};
use crate::net::parse::{parse_socket_addr, port_form, socket_addr_of_text};
use crate::net::print::{socket_addr_text, target_text};
use crate::text::{chars_of, decimal_text, find_last, last_at, text_of};

verus! {

/// The port that `s` writes from `at` to its end, with an optional plus sign.
pub open spec fn port_from(s: Seq<char>, at: int) -> Option<u16> {
    let start = if char_at(s, at, '+') {
        at + 1
    } else {
        at
    };
    match number_at(s, start, port_form()) {
        Some((port, end)) => if end == s.len() {
            Some(port as u16)
        } else {
            None
        },
        None => None,
    }
}

/// The destination that a byte string writes.
pub open spec fn address_spec(bytes: Seq<u8>) -> Result<Target, CodecError> {
    let s = decode_utf8(bytes);
    if !valid_utf8(bytes) {
        Err(CodecError::AddressUtf8)
    } else {
        match last_at(s, ':', s.len() as int) {
            None => Err(CodecError::AddressFormat),
            Some(colon) => match port_from(s, colon + 1) {
                None => Err(CodecError::AddressPort),
                Some(port) => match socket_addr_of_text(s) {
                    Some(addr) => Ok(Target::Ip(addr)),
                    None => Ok(Target::Domain(s.take(colon), port)),
                },
            },
        }
    }
}

/// Reads a destination.
pub fn to_socksaddr(bytes: &[u8]) -> (addr: Result<SocksAddr, CodecError>)
    ensures
        match addr {
            Ok(a) => address_spec(bytes@) == Ok::<Target, CodecError>(a@),
            Err(error) => address_spec(bytes@) == Err::<Target, CodecError>(error),
        },
{
    let text: &str = match core::str::from_utf8(bytes) {
        Ok(text) => text,
        Err(_) => {
            return Err(CodecError::AddressUtf8);
        },
    };
    let s = chars_of(text);
    let colon: usize = match find_last(s.as_slice(), ':') {
        Some(at) => at,
        None => {
            return Err(CodecError::AddressFormat);
        },
    };
    let form = NumberForm { hex: false, max_digits: None, leading_zero: true, max: 0xffff };
    let start: usize = if has_char(s.as_slice(), colon + 1, '+') {
        colon + 2
    } else {
        colon + 1
    };
    let port: u16 = match read_number(s.as_slice(), start, &form) {
        Some((port, end)) => {
            if end != s.len() {
                return Err(CodecError::AddressPort);
            }
            port as u16
        },
        None => {
            return Err(CodecError::AddressPort);
        },
    };
    match parse_socket_addr(text) {
        Some(addr) => Ok(SocksAddr::Ip(addr)),
        None => {
            let host = text_of(s.as_slice(), 0, colon);
            assert(host@ =~= s@.take(colon as int));
            Ok(SocksAddr::Domain(host, port))
        },
    }
}

proof fn last_colon_before_port(s: Seq<char>, front: Seq<char>, port: u16)
    requires
        s == front + ":"@ + decimal_text(port as nat),
    ensures
        last_at(s, ':', s.len() as int) == Some(front.len() as int),
        port_from(s, front.len() as int + 1) == Some(port),
        s.take(front.len() as int) == front,
{
    reveal_strlit(":");
    let digits = decimal_text(port as nat);
    let start = front.len() as int + 1;
    decimal_digits(port as nat);
    assert(s.len() == start + digits.len());
    assert(s[front.len() as int] == ':');
    assert forall|i: int| 0 <= i < digits.len() implies #[trigger] s[start + i] == digits[i] by {}
    no_colon_from(s, start, s.len() as int, digits);
    assert(s[start + 0] == digits[0]);
    assert(digit_value('+', false) is None);
    assert(s.subrange(start, s.len() as int) =~= digits);
    reads_decimal(s, start, port as nat, port_form());
    assert(s.take(front.len() as int) =~= front);
}

proof fn no_colon_from(s: Seq<char>, start: int, end: int, digits: Seq<char>)
    requires
        0 < start <= end <= s.len(),
        s.len() == start + digits.len(),
        s[start - 1] == ':',
        forall|i: int| 0 <= i < digits.len() ==> #[trigger] s[start + i] == digits[i],
        forall|i: int| 0 <= i < digits.len() ==> digit_value(#[trigger] digits[i], false) is Some,
    ensures
        last_at(s, ':', end) == Some(start - 1),
    decreases end - start,
{
    if end > start {
        let i = end - 1 - start;
        assert(s[start + i] == digits[i]);
        assert(digit_value(':', false) is None);
        no_colon_from(s, start, end - 1, digits);
    }
}

/// What the textual form of an address keeps: all but the flow label, and the
/// scope of version six only.
pub open spec fn addr_kept(addr: SocketAddr) -> SocketAddr {
    SocketAddr {
        flowinfo: 0,
        scope_id: if addr.ip is V4 {
            0
        } else {
            addr.scope_id
        },
        ..addr
    }
}

/// The destination that is read from the textual form of another: the same, but
/// for what the form does not keep of an address, and but for a name that makes
/// an address when its port is added.
pub open spec fn read_back(target: Target) -> Target {
    match target {
        Target::Ip(addr) => Target::Ip(addr_kept(addr)),
        Target::Domain(_, _) => match socket_addr_of_text(target_text(target)) {
            Some(addr) => Target::Ip(addr),
            None => target,
        },
    }
}

/// A destination that can be told from its textual form: an address without a
/// flow label, or a name that does not make an address when its port is added.
pub open spec fn is_plain(target: Target) -> bool {
    match target {
        Target::Ip(addr) => addr.flowinfo == 0 && (addr.ip is V4 ==> addr.scope_id == 0),
        Target::Domain(_, _) => socket_addr_of_text(target_text(target)) is None,
    }
}

/// The bytes of a destination in its textual form.
pub open spec fn address_bytes(target: Target) -> Seq<u8> {
    encode_utf8(target_text(target))
}

/// Every destination is read back from its textual form, as itself if it is
/// plain.
pub proof fn address_round_trip(target: Target)
    ensures
        address_spec(address_bytes(target)) == Ok::<Target, CodecError>(read_back(target)),
        is_plain(target) ==> read_back(target) == target,
{
    let s = target_text(target);
    encode_utf8_valid_utf8(s);
    encode_utf8_decode_utf8(s);
    match target {
        Target::Ip(addr) => {
            socket_addr_round_trip(addr_kept(addr));
            assert(socket_addr_text(addr_kept(addr)) == socket_addr_text(addr));
            reveal_strlit(":");
            reveal_strlit("]:");
            match addr.ip {
                IpAddr::V4(a, b, c, d) => {
                    let front = crate::net::print::ip_text(addr.ip);
                    last_colon_before_port(s, front, addr.port);
                },
                IpAddr::V6(_, _, _, _, _, _, _, _) => {
                    let digits = decimal_text(addr.port as nat);
                    let front = s.take(s.len() - digits.len() - 1);
                    assert(s =~= front + ":"@ + digits);
                    last_colon_before_port(s, front, addr.port);
                },
            }
        },
        Target::Domain(host, port) => {
            last_colon_before_port(s, host, port);
            assert(Target::Domain(s.take(host.len() as int), port) =~= target);
        },
    }
}

} // verus!
