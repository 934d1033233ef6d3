//! What is said where something goes wrong.

use vstd::prelude::*;

use crate::config::plan::Skipped;
use crate::hysteria2::certs::CertError;
use crate::hysteria2::dns01::AuthError;
use crate::hysteria2::error::{CodecError, ErrorKind as CodecKind};
use crate::hysteria2::inbound::SetupError;
use crate::hysteria2::masquerade::MasqueradeError;
use crate::net::print::hex_text;
use crate::snell::error::{ErrorKind as SnellKind, SnellError};
use crate::text::decimal_text;
use crate::vless::error::{ErrorKind as VlessKind, VlessError};

verus! {

/// What goes wrong on a Snell connection is told in words, and by whose fault.
pub proof fn snell_errors_are_told(fault: SnellError)
    ensures
        fault is UnsupportedVersion ==> fault.kind_spec() == SnellKind::InvalidInput,
        fault is PskLength ==> fault.kind_spec() == SnellKind::InvalidInput,
        fault is LoopbackRequired ==> fault.kind_spec() == SnellKind::InvalidInput,
        fault is UnknownMode ==> fault.kind_spec() == SnellKind::InvalidInput,
        fault is UserkeyLength ==> fault.kind_spec() == SnellKind::InvalidInput,
        fault is DuplicateUserkey ==> fault.kind_spec() == SnellKind::InvalidInput,
        fault is PacketTooLarge ==> fault.kind_spec() == SnellKind::InvalidInput,
        !(fault is UnsupportedVersion) && !(fault is PskLength) && !(fault is LoopbackRequired) && !(
        fault is UnknownMode) && !(fault is UserkeyLength) && !(fault is DuplicateUserkey) && !(
        fault is PacketTooLarge) ==> fault.kind_spec()
            == SnellKind::InvalidData,
        fault is UnsupportedVersion ==> fault.message_spec()
            == "snell inbound only supports version 6"@,
        fault is PskLength ==> fault.message_spec()
            == "snell v6 psk length must be between 12 and 255 bytes"@,
        fault is LoopbackRequired ==> fault.message_spec()
            == "snell inbound with allow-lan disabled must listen on loopback"@,
        fault matches SnellError::UnknownMode(mode) ==> fault.message_spec()
            == "snell: unknown v6 mode: "@ + mode@,
        fault is UserkeyLength ==> fault.message_spec()
            == "snell userkey length must be between 1 and 255 bytes"@,
        fault is DuplicateUserkey ==> fault.message_spec() == "duplicate snell userkey"@,
        fault is PacketTooLarge ==> fault.message_spec()
            == "snell UDP packet exceeds the current record payload limit"@,
        fault is RecordVersion ==> fault.message_spec() == "snell: invalid record version"@,
        fault is ReservedBytes ==> fault.message_spec()
            == "snell: reserved record bytes are non-zero"@,
        fault is RawPadding ==> fault.message_spec() == "snell: raw record contains padding"@,
        fault is UnshapedPadding ==> fault.message_spec()
            == "snell: unshaped record contains padding"@,
        fault is RecordAuthentication ==> fault.message_spec()
            == "snell: record authentication failed"@,
        fault is KeyDerivation ==> fault.message_spec()
            == "snell: key derivation failed: password is too long"@,
        fault is RequestIsEof ==> fault.message_spec() == "snell request cannot be an EOF record"@,
        fault is RequestVersion ==> fault.message_spec() == "snell invalid request version"@,
        fault is TruncatedClientId ==> fault.message_spec() == "snell truncated client id"@,
        fault matches SnellError::UnsupportedCommand(command) ==> fault.message_spec()
            == "snell unsupported command: "@ + decimal_text(command as nat),
        fault is MissingDestination ==> fault.message_spec()
            == "snell connect request is missing destination"@,
        fault is InlineDatagram ==> fault.message_spec()
            == "snell UDP request contains an inline datagram"@,
        fault is UserAuthentication ==> fault.message_spec() == "snell authentication failed"@,
        fault is DestinationUtf8 ==> fault.message_spec()
            == "snell destination is not valid UTF-8"@,
        fault is TruncatedRequest ==> fault.message_spec() == "snell truncated request"@,
        fault is UdpCommand ==> fault.message_spec() == "snell unsupported UDP command"@,
        fault is UdpHostUtf8 ==> fault.message_spec() == "snell UDP host is not valid UTF-8"@,
        fault is UdpAddressFamily ==> fault.message_spec() == "snell invalid UDP address family"@,
        fault is UdpResponseSource ==> fault.message_spec()
            == "snell UDP response source must be an IP"@,
{
}

/// What goes wrong with a VLESS listener or connection is told in words, and by
/// whose fault.
pub proof fn vless_errors_are_told(fault: VlessError)
    ensures
        fault is Path ==> fault.kind_spec() == VlessKind::InvalidInput,
        fault is NoUsers ==> fault.kind_spec() == VlessKind::InvalidInput,
        fault is DuplicateUuid ==> fault.kind_spec() == VlessKind::InvalidInput,
        fault is BadUuid ==> fault.kind_spec() == VlessKind::InvalidInput,
        fault is Version ==> fault.kind_spec() == VlessKind::InvalidData,
        fault is Command ==> fault.kind_spec() == VlessKind::InvalidData,
        fault is EmptyDomain ==> fault.kind_spec() == VlessKind::InvalidData,
        fault is DomainUtf8 ==> fault.kind_spec() == VlessKind::InvalidData,
        fault is AddressType ==> fault.kind_spec() == VlessKind::InvalidData,
        fault is UnknownUser ==> fault.kind_spec() == VlessKind::PermissionDenied,
        fault is Udp ==> fault.kind_spec() == VlessKind::Unsupported,
        fault is Mux ==> fault.kind_spec() == VlessKind::Unsupported,
        fault is HandshakeTimeout ==> fault.kind_spec() == VlessKind::TimedOut,
        fault is HeaderTimeout ==> fault.kind_spec() == VlessKind::TimedOut,
        fault is Path ==> fault.message_spec()
            == "vless ws inbound requires an absolute websocket path"@,
        fault is NoUsers ==> fault.message_spec() == "vless inbound requires uuid or users"@,
        fault matches VlessError::DuplicateUuid(uuid) ==> fault.message_spec()
            == "duplicate vless uuid "@ + uuid@,
        fault matches VlessError::BadUuid(uuid, cause) ==> fault.message_spec()
            == "invalid vless uuid "@ + uuid@ + ": "@ + cause@,
        fault matches VlessError::Version(version) ==> fault.message_spec()
            == "invalid vless version: "@ + decimal_text(version as nat),
        fault is UnknownUser ==> fault.message_spec() == "invalid vless uuid"@,
        fault matches VlessError::Command(command) ==> fault.message_spec()
            == "unsupported vless command: "@ + decimal_text(command as nat),
        fault is EmptyDomain ==> fault.message_spec() == "empty vless destination domain"@,
        fault is DomainUtf8 ==> fault.message_spec() == "invalid vless destination domain"@,
        fault matches VlessError::AddressType(atyp) ==> fault.message_spec()
            == "invalid vless address type: "@ + decimal_text(atyp as nat),
        fault is Udp ==> fault.message_spec()
            == "vless inbound UDP over websocket is not supported"@,
        fault is Mux ==> fault.message_spec() == "vless inbound mux command is not supported"@,
        fault is HandshakeTimeout ==> fault.message_spec() == "vless websocket handshake timeout"@,
        fault is HeaderTimeout ==> fault.message_spec() == "vless request header timeout"@,
{
}

/// What is wrong with a Hysteria2 message is told in words, and by whose fault.
pub proof fn codec_errors_are_told(fault: CodecError)
    ensures
        fault is RequestId ==> fault.kind_spec() == CodecKind::InvalidData,
        fault is AddressTooLong ==> fault.kind_spec() == CodecKind::InvalidData,
        fault is AddressLimit ==> fault.kind_spec() == CodecKind::InvalidData,
        fault is PaddingTooLong ==> fault.kind_spec() == CodecKind::InvalidData,
        fault is PaddingLimit ==> fault.kind_spec() == CodecKind::InvalidData,
        fault is MessageLength ==> fault.kind_spec() == CodecKind::InvalidData,
        fault is MessageUtf8 ==> fault.kind_spec() == CodecKind::InvalidData,
        fault is UnexpectedEof ==> fault.kind_spec() == CodecKind::UnexpectedEof,
        fault is AddressUtf8 ==> fault.kind_spec() == CodecKind::InvalidInput,
        fault is AddressFormat ==> fault.kind_spec() == CodecKind::InvalidInput,
        fault is AddressPort ==> fault.kind_spec() == CodecKind::InvalidInput,
        fault is UdpAddressTooLarge ==> fault.kind_spec() == CodecKind::InvalidInput,
        fault is UdpPayloadTooLarge ==> fault.kind_spec() == CodecKind::InvalidInput,
        fault is PacketTooShort ==> fault.kind_spec() == CodecKind::Other,
        fault is AddressLengthVarint ==> fault.kind_spec() == CodecKind::Other,
        fault is AddressExceedsPacket ==> fault.kind_spec() == CodecKind::Other,
        fault is NoDatagrams ==> fault.kind_spec() == CodecKind::Other,
        fault matches CodecError::RequestId(id) ==> fault.message_spec()
            == "unexpected hysteria2 TCP request ID: 0x"@ + hex_text(id as nat),
        fault is AddressTooLong ==> fault.message_spec() == "address too long"@,
        fault matches CodecError::AddressLimit(len) ==> fault.message_spec()
            == "hysteria2 TCP request address length exceeds limit: "@ + decimal_text(len as nat)
            + " > 1024"@,
        fault is PaddingTooLong ==> fault.message_spec() == "padding too long"@,
        fault matches CodecError::PaddingLimit(len) ==> fault.message_spec()
            == "hysteria2 TCP request padding length exceeds limit: "@ + decimal_text(len as nat)
            + " > 16384"@,
        fault is UnexpectedEof ==> fault.message_spec() == "unexpected end of file"@,
        fault is MessageLength ==> fault.message_spec() == "invalid data"@,
        fault matches CodecError::MessageUtf8(at, Some(len)) ==> fault.message_spec()
            == "invalid utf-8 sequence of "@ + decimal_text(len as nat)
            + " bytes from index "@ + decimal_text(at as nat),
        fault matches CodecError::MessageUtf8(at, None) ==> fault.message_spec()
            == "incomplete utf-8 byte sequence from index "@ + decimal_text(at as nat),
        fault is AddressUtf8 ==> fault.message_spec() == "Invalid UTF-8 in address"@,
        fault is AddressFormat ==> fault.message_spec() == "Address must be in host:port format"@,
        fault is AddressPort ==> fault.message_spec() == "Invalid port number"@,
        fault is PacketTooShort ==> fault.message_spec() == "packet too short"@,
        fault is AddressLengthVarint ==> fault.message_spec() == "invalid address length varint"@,
        fault matches CodecError::AddressExceedsPacket(len, left) ==> fault.message_spec()
            == "address length "@ + decimal_text(len as nat)
            + " exceeds remaining packet size "@ + decimal_text(left as nat),
        fault is UdpAddressTooLarge ==> fault.message_spec()
            == "hysteria2 UDP address is too large for QUIC datagram"@,
        fault is UdpPayloadTooLarge ==> fault.message_spec()
            == "hysteria2 UDP payload is too large to fragment"@,
        fault is NoDatagrams ==> fault.message_spec()
            == "hysteria2 max datagram size unavailable; check QUIC datagram support"@,
{
}

/// What is wrong with a certificate is told in words.
pub proof fn certificate_errors_are_told(fault: CertError)
    ensures
        fault is EmptyChain ==> fault.message_spec() == "certificate chain is empty"@,
        fault matches CertError::Parse(cause) ==> fault.message_spec()
            == "failed to parse certificate for SNI guard: "@ + cause@,
        fault matches CertError::AlternativeNames(cause) ==> fault.message_spec()
            == "failed to parse certificate SAN for SNI guard: "@ + cause@,
        fault is NoDnsName ==> fault.message_spec()
            == "hysteria2 TLS certificate has no DNS SAN for SNI guard"@,
        fault matches CertError::Pem(cause) ==> fault.message_spec() == cause@,
        fault is NoCertificate ==> fault.message_spec() == "no certificate found in cached PEM"@,
        fault is NoPrivateKey ==> fault.message_spec() == "no private key found in cached PEM"@,
        fault is NoCertificateGiven ==> fault.message_spec() == "no certificate found in PEM"@,
        fault is NoPrivateKeyGiven ==> fault.message_spec() == "no private key found in PEM"@,
        fault is NoCachedCertificate ==> fault.message_spec() == "cached PEM has no certificate"@,
        fault matches CertError::CachedParse(cause) ==> fault.message_spec()
            == "parse cached certificate: "@ + cause@,
{
}

/// What is wrong with what strangers get is told in words.
pub proof fn masquerade_errors_are_told(fault: MasqueradeError)
    ensures
        fault matches MasqueradeError::ProxyUrl(cause) ==> fault.message_spec()
            == "invalid hysteria2 masquerade proxy url: "@ + cause@,
        fault is Status ==> fault.message_spec()
            == "invalid hysteria2 masquerade string status: invalid status code"@,
        fault is ReservedStatus ==> fault.message_spec()
            == "hysteria2 masquerade string status 233 is reserved"@,
        fault is HeaderName ==> fault.message_spec()
            == "invalid hysteria2 masquerade header name: invalid HTTP header name"@,
        fault is HeaderValue ==> fault.message_spec()
            == "invalid hysteria2 masquerade header value: failed to parse header value"@,
        fault is BodyTooLarge ==> fault.message_spec()
            == "hysteria2 masquerade request body too large"@,
{
}

/// Why control over a domain could not be shown is told in words.
pub proof fn authorization_errors_are_told(fault: AuthError)
    ensures
        fault matches AuthError::NotPending(status) ==> fault.message_spec()
            == "acme authorization is not pending or valid: "@ + status@,
        fault is NoChallenge ==> fault.message_spec() == "no dns-01 challenge found"@,
        fault is Key ==> fault.message_spec() == "unexpected ACME account public key format"@,
        fault matches AuthError::Create(cause) ==> fault.message_spec()
            == "create cloudflare dns-01 TXT record: "@ + cause@,
        fault matches AuthError::Resolver(cause) ==> fault.message_spec() == cause@,
        fault matches AuthError::NotPropagated(name) ==> fault.message_spec()
            == "dns-01 TXT record "@ + name@ + " did not propagate"@,
        fault matches AuthError::Trigger(cause) ==> fault.message_spec()
            == "trigger acme dns-01 challenge: "@ + cause@,
        fault matches AuthError::Check(cause) ==> fault.message_spec() == cause@,
        fault matches AuthError::Refused(status) ==> fault.message_spec()
            == "acme dns-01 authorization failed: "@ + status@,
        fault is TimedOut ==> fault.message_spec() == "acme dns-01 authorization timed out"@,
{
}

/// Why a listener is left out is told in words.
pub proof fn skipped_listeners_are_told(fault: Skipped)
    ensures
        fault is TProxyPlatform ==> fault.message_spec()
            == "tproxy is not supported on this platform"@,
        fault is RedirPlatform ==> fault.message_spec()
            == "redir is not supported on this platform"@,
        fault matches Skipped::VlessTransport(name) ==> fault.message_spec()
            == "vless inbound "@ + name@ + " only supports websocket transport"@,
        fault matches Skipped::Vless(cause) ==> fault.message_spec()
            == "vless inbound failed to init: "@ + cause.message_spec(),
        fault matches Skipped::Hysteria2(cause) ==> fault.message_spec()
            == "hysteria2 inbound failed to init: "@ + cause.message_spec(),
{
}

/// Why an inbound cannot be set up is told in words.
pub proof fn setup_errors_are_told(fault: SetupError)
    ensures
        fault is CertificateSource ==> fault.message_spec()
            == "hysteria2 inbound: certificate and private-key must both be set, both omitted, or replaced by acme"@,
        fault matches SetupError::Masquerade { error, .. } ==> fault.message_spec()
            == error.message_spec(),
{
}

} // verus!
