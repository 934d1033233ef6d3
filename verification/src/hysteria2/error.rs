//! What can be wrong with a Hysteria2 message.

use vstd::prelude::*;
use vstd::string::*;

use crate::net::print::{hex, hex_text};
use crate::text::{decimal, decimal_text, joined};

verus! {

#[derive(Clone, Copy, Debug, PartialEq, Eq, Structural)]
pub enum ErrorKind {
    InvalidInput,
    InvalidData,
    UnexpectedEof,
    TimedOut,
    Other,
}

#[derive(Clone, Copy, Debug, PartialEq, Eq, Structural)]
pub enum CodecError {
    RequestId(u64),
    AddressTooLong,
    AddressLimit(usize),
    PaddingTooLong,
    PaddingLimit(usize),
    UnexpectedEof,
    MessageLength,
    /// Up to where the message is UTF-8, and how many bytes there form no
    /// character; none if it ends in the middle of one.
    MessageUtf8(usize, Option<usize>),
    AddressUtf8,
    AddressFormat,
    AddressPort,
    PacketTooShort,
    AddressLengthVarint,
    AddressExceedsPacket(usize, usize),
    UdpAddressTooLarge,
    UdpPayloadTooLarge,
    NoDatagrams,
}

impl CodecError {
    pub open spec fn kind_spec(self) -> ErrorKind {
        match self {
            CodecError::RequestId(_)
            | CodecError::AddressTooLong
            | CodecError::AddressLimit(_)
            | CodecError::PaddingTooLong
            | CodecError::PaddingLimit(_)
            | CodecError::MessageLength
            | CodecError::MessageUtf8(_, _) => ErrorKind::InvalidData,
            CodecError::UnexpectedEof => ErrorKind::UnexpectedEof,
            CodecError::AddressUtf8
            | CodecError::AddressFormat
            | CodecError::AddressPort
            | CodecError::UdpAddressTooLarge
            | CodecError::UdpPayloadTooLarge => ErrorKind::InvalidInput,
            CodecError::PacketTooShort
            | CodecError::AddressLengthVarint
            | CodecError::AddressExceedsPacket(_, _)
            | CodecError::NoDatagrams => ErrorKind::Other,
        }
    }

    pub fn kind(&self) -> (kind: ErrorKind)
        ensures
            kind == self.kind_spec(),
    {
        match self {
            CodecError::RequestId(_)
            | CodecError::AddressTooLong
            | CodecError::AddressLimit(_)
            | CodecError::PaddingTooLong
            | CodecError::PaddingLimit(_)
            | CodecError::MessageLength
            | CodecError::MessageUtf8(_, _) => ErrorKind::InvalidData,
            CodecError::UnexpectedEof => ErrorKind::UnexpectedEof,
            CodecError::AddressUtf8
            | CodecError::AddressFormat
            | CodecError::AddressPort
            | CodecError::UdpAddressTooLarge
            | CodecError::UdpPayloadTooLarge => ErrorKind::InvalidInput,
            CodecError::PacketTooShort
            | CodecError::AddressLengthVarint
            | CodecError::AddressExceedsPacket(_, _)
            | CodecError::NoDatagrams => ErrorKind::Other,
        }
    }

    pub open spec fn message_spec(self) -> Seq<char> {
        match self {
            CodecError::RequestId(id) => "unexpected hysteria2 TCP request ID: 0x"@ + hex_text(
                id as nat,
            ),
            CodecError::AddressTooLong => "address too long"@,
            CodecError::AddressLimit(len) =>
                "hysteria2 TCP request address length exceeds limit: "@ + decimal_text(len as nat)
                    + " > 1024"@,
            CodecError::PaddingTooLong => "padding too long"@,
            CodecError::PaddingLimit(len) =>
                "hysteria2 TCP request padding length exceeds limit: "@ + decimal_text(len as nat)
                    + " > 16384"@,
            CodecError::UnexpectedEof => "unexpected end of file"@,
            CodecError::MessageLength => "invalid data"@,
            CodecError::MessageUtf8(at, Some(len)) => "invalid utf-8 sequence of "@ + decimal_text(
                len as nat,
            ) + " bytes from index "@ + decimal_text(at as nat),
            CodecError::MessageUtf8(at, None) =>
                "incomplete utf-8 byte sequence from index "@ + decimal_text(at as nat),
            CodecError::AddressUtf8 => "Invalid UTF-8 in address"@,
            CodecError::AddressFormat => "Address must be in host:port format"@,
            CodecError::AddressPort => "Invalid port number"@,
            CodecError::PacketTooShort => "packet too short"@,
            CodecError::AddressLengthVarint => "invalid address length varint"@,
            CodecError::AddressExceedsPacket(len, left) => "address length "@ + decimal_text(
                len as nat,
            ) + " exceeds remaining packet size "@ + decimal_text(left as nat),
            CodecError::UdpAddressTooLarge =>
                "hysteria2 UDP address is too large for QUIC datagram"@,
            CodecError::UdpPayloadTooLarge => "hysteria2 UDP payload is too large to fragment"@,
            CodecError::NoDatagrams =>
                "hysteria2 max datagram size unavailable; check QUIC datagram support"@,
        }
    }

    pub fn message(&self) -> (text: String)
        ensures
            text@ == self.message_spec(),
    {
        match *self {
            CodecError::RequestId(id) => joined(
                "unexpected hysteria2 TCP request ID: 0x",
                hex(id).as_str(),
            ),
            CodecError::AddressTooLong => "address too long".to_owned(),
            CodecError::AddressLimit(len) => {
                let mut text = joined(
                    "hysteria2 TCP request address length exceeds limit: ",
                    decimal(len as u64).as_str(),
                );
                text.append(" > 1024");
                text
            },
            CodecError::PaddingTooLong => "padding too long".to_owned(),
            CodecError::PaddingLimit(len) => {
                let mut text = joined(
                    "hysteria2 TCP request padding length exceeds limit: ",
                    decimal(len as u64).as_str(),
                );
                text.append(" > 16384");
                text
            },
            CodecError::UnexpectedEof => "unexpected end of file".to_owned(),
            CodecError::MessageLength => "invalid data".to_owned(),
            CodecError::MessageUtf8(at, Some(len)) => {
                let mut text = joined(
                    "invalid utf-8 sequence of ",
                    decimal(len as u64).as_str(),
                );
                text.append(" bytes from index ");
                text.append(decimal(at as u64).as_str());
                text
            },
            CodecError::MessageUtf8(at, None) => joined(
                "incomplete utf-8 byte sequence from index ",
                decimal(at as u64).as_str(),
            ),
            CodecError::AddressUtf8 => "Invalid UTF-8 in address".to_owned(),
            CodecError::AddressFormat => "Address must be in host:port format".to_owned(),
            CodecError::AddressPort => "Invalid port number".to_owned(),
            CodecError::PacketTooShort => "packet too short".to_owned(),
            CodecError::AddressLengthVarint => "invalid address length varint".to_owned(),
            CodecError::AddressExceedsPacket(len, left) => {
                let mut text = joined("address length ", decimal(len as u64).as_str());
                text.append(" exceeds remaining packet size ");
                text.append(decimal(left as u64).as_str());
                text
            },
            CodecError::UdpAddressTooLarge =>
                "hysteria2 UDP address is too large for QUIC datagram".to_owned(),
            CodecError::UdpPayloadTooLarge =>
                "hysteria2 UDP payload is too large to fragment".to_owned(),
            CodecError::NoDatagrams =>
                "hysteria2 max datagram size unavailable; check QUIC datagram support".to_owned(),
        }
    }
}

} // verus!
