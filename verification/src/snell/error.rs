//! What can go wrong on a Snell connection.

use vstd::prelude::*;
use vstd::string::*;

use crate::text::{decimal, decimal_text, joined};

verus! {

/// Whether a caller's argument or a peer's bytes are at fault.
#[derive(Clone, Copy, Debug, PartialEq, Eq, Structural)]
pub enum ErrorKind {
    InvalidInput,
    InvalidData,
}

#[derive(Debug)]
pub enum SnellError {
    UnsupportedVersion,
    PskLength,
    LoopbackRequired,
    UnknownMode(String),
    UserkeyLength,
    DuplicateUserkey,
    PacketTooLarge,
    RecordVersion,
    ReservedBytes,
    RawPadding,
    UnshapedPadding,
    RecordAuthentication,
    KeyDerivation,
    RequestIsEof,
    RequestVersion,
    TruncatedClientId,
    UnsupportedCommand(u8),
    MissingDestination,
    InlineDatagram,
    UserAuthentication,
    DestinationUtf8,
    TruncatedRequest,
    UdpCommand,
    UdpHostUtf8,
    UdpAddressFamily,
    UdpResponseSource,
}

impl SnellError {
    pub open spec fn kind_spec(self) -> ErrorKind {
        match self {
            SnellError::UnsupportedVersion
            | SnellError::PskLength
            | SnellError::LoopbackRequired
            | SnellError::UnknownMode(_)
            | SnellError::UserkeyLength
            | SnellError::DuplicateUserkey
            | SnellError::PacketTooLarge => ErrorKind::InvalidInput,
            _ => ErrorKind::InvalidData,
        }
    }

    pub fn kind(&self) -> (kind: ErrorKind)
        ensures
            kind == self.kind_spec(),
    {
        match self {
            SnellError::UnsupportedVersion
            | SnellError::PskLength
            | SnellError::LoopbackRequired
            | SnellError::UnknownMode(_)
            | SnellError::UserkeyLength
            | SnellError::DuplicateUserkey
            | SnellError::PacketTooLarge => ErrorKind::InvalidInput,
            _ => ErrorKind::InvalidData,
        }
    }

    pub open spec fn message_spec(self) -> Seq<char> {
        match self {
            SnellError::UnsupportedVersion => "snell inbound only supports version 6"@,
            SnellError::PskLength => "snell v6 psk length must be between 12 and 255 bytes"@,
            SnellError::LoopbackRequired =>
                "snell inbound with allow-lan disabled must listen on loopback"@,
            SnellError::UnknownMode(mode) => "snell: unknown v6 mode: "@ + mode@,
            SnellError::UserkeyLength => "snell userkey length must be between 1 and 255 bytes"@,
            SnellError::DuplicateUserkey => "duplicate snell userkey"@,
            SnellError::PacketTooLarge =>
                "snell UDP packet exceeds the current record payload limit"@,
            SnellError::RecordVersion => "snell: invalid record version"@,
            SnellError::ReservedBytes => "snell: reserved record bytes are non-zero"@,
            SnellError::RawPadding => "snell: raw record contains padding"@,
            SnellError::UnshapedPadding => "snell: unshaped record contains padding"@,
            SnellError::RecordAuthentication => "snell: record authentication failed"@,
            SnellError::KeyDerivation => "snell: key derivation failed: password is too long"@,
            SnellError::RequestIsEof => "snell request cannot be an EOF record"@,
            SnellError::RequestVersion => "snell invalid request version"@,
            SnellError::TruncatedClientId => "snell truncated client id"@,
            SnellError::UnsupportedCommand(command) => "snell unsupported command: "@
                + decimal_text(command as nat),
            SnellError::MissingDestination => "snell connect request is missing destination"@,
            SnellError::InlineDatagram => "snell UDP request contains an inline datagram"@,
            SnellError::UserAuthentication => "snell authentication failed"@,
            SnellError::DestinationUtf8 => "snell destination is not valid UTF-8"@,
            SnellError::TruncatedRequest => "snell truncated request"@,
            SnellError::UdpCommand => "snell unsupported UDP command"@,
            SnellError::UdpHostUtf8 => "snell UDP host is not valid UTF-8"@,
            SnellError::UdpAddressFamily => "snell invalid UDP address family"@,
            SnellError::UdpResponseSource => "snell UDP response source must be an IP"@,
        }
    }

    pub fn message(&self) -> (text: String)
        ensures
            text@ == self.message_spec(),
    {
        match self {
            SnellError::UnsupportedVersion => "snell inbound only supports version 6".to_owned(),
            SnellError::PskLength =>
                "snell v6 psk length must be between 12 and 255 bytes".to_owned(),
            SnellError::LoopbackRequired =>
                "snell inbound with allow-lan disabled must listen on loopback".to_owned(),
            SnellError::UnknownMode(mode) => joined("snell: unknown v6 mode: ", mode.as_str()),
            SnellError::UserkeyLength =>
                "snell userkey length must be between 1 and 255 bytes".to_owned(),
            SnellError::DuplicateUserkey => "duplicate snell userkey".to_owned(),
            SnellError::PacketTooLarge =>
                "snell UDP packet exceeds the current record payload limit".to_owned(),
            SnellError::RecordVersion => "snell: invalid record version".to_owned(),
            SnellError::ReservedBytes => "snell: reserved record bytes are non-zero".to_owned(),
            SnellError::RawPadding => "snell: raw record contains padding".to_owned(),
            SnellError::UnshapedPadding => "snell: unshaped record contains padding".to_owned(),
            SnellError::RecordAuthentication => "snell: record authentication failed".to_owned(),
            SnellError::KeyDerivation =>
                "snell: key derivation failed: password is too long".to_owned(),
            SnellError::RequestIsEof => "snell request cannot be an EOF record".to_owned(),
            SnellError::RequestVersion => "snell invalid request version".to_owned(),
            SnellError::TruncatedClientId => "snell truncated client id".to_owned(),
            SnellError::UnsupportedCommand(command) => {
                let number = decimal(*command as u64);
                joined("snell unsupported command: ", number.as_str())
            },
            SnellError::MissingDestination =>
                "snell connect request is missing destination".to_owned(),
            SnellError::InlineDatagram =>
                "snell UDP request contains an inline datagram".to_owned(),
            SnellError::UserAuthentication => "snell authentication failed".to_owned(),
            SnellError::DestinationUtf8 => "snell destination is not valid UTF-8".to_owned(),
            SnellError::TruncatedRequest => "snell truncated request".to_owned(),
            SnellError::UdpCommand => "snell unsupported UDP command".to_owned(),
            SnellError::UdpHostUtf8 => "snell UDP host is not valid UTF-8".to_owned(),
            SnellError::UdpAddressFamily => "snell invalid UDP address family".to_owned(),
            SnellError::UdpResponseSource => "snell UDP response source must be an IP".to_owned(),
        }
    }
}

} // verus!
