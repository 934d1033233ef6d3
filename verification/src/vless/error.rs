//! What can go wrong with a listener or a connection.

use vstd::prelude::*;
use vstd::string::*;

use crate::text::{decimal, decimal_text, joined};

verus! {

#[derive(Clone, Copy, Debug, PartialEq, Eq, Structural)]
pub enum ErrorKind {
    InvalidInput,
    InvalidData,
    PermissionDenied,
    TimedOut,
    Unsupported,
}

#[derive(Debug)]
pub enum VlessError {
    Path,
    NoUsers,
    DuplicateUuid(String),
    /// A text that is no identifier, and why.
    BadUuid(String, String),
    Version(u8),
    UnknownUser,
    Command(u8),
    EmptyDomain,
    DomainUtf8,
    AddressType(u8),
    Udp,
    Mux,
    HandshakeTimeout,
    HeaderTimeout,
}

impl VlessError {
    pub open spec fn kind_spec(self) -> ErrorKind {
        match self {
            VlessError::Path
            | VlessError::NoUsers
            | VlessError::DuplicateUuid(_)
            | VlessError::BadUuid(_, _) => ErrorKind::InvalidInput,
            VlessError::Version(_)
            | VlessError::Command(_)
            | VlessError::EmptyDomain
            | VlessError::DomainUtf8
            | VlessError::AddressType(_) => ErrorKind::InvalidData,
            VlessError::UnknownUser => ErrorKind::PermissionDenied,
            VlessError::Udp | VlessError::Mux => ErrorKind::Unsupported,
            VlessError::HandshakeTimeout | VlessError::HeaderTimeout => ErrorKind::TimedOut,
        }
    }

    pub fn kind(&self) -> (kind: ErrorKind)
        ensures
            kind == self.kind_spec(),
    {
        match self {
            VlessError::Path
            | VlessError::NoUsers
            | VlessError::DuplicateUuid(_)
            | VlessError::BadUuid(_, _) => ErrorKind::InvalidInput,
            VlessError::Version(_)
            | VlessError::Command(_)
            | VlessError::EmptyDomain
            | VlessError::DomainUtf8
            | VlessError::AddressType(_) => ErrorKind::InvalidData,
            VlessError::UnknownUser => ErrorKind::PermissionDenied,
            VlessError::Udp | VlessError::Mux => ErrorKind::Unsupported,
            VlessError::HandshakeTimeout | VlessError::HeaderTimeout => ErrorKind::TimedOut,
        }
    }

    pub open spec fn message_spec(self) -> Seq<char> {
        match self {
            VlessError::Path => "vless ws inbound requires an absolute websocket path"@,
            VlessError::NoUsers => "vless inbound requires uuid or users"@,
            VlessError::DuplicateUuid(uuid) => "duplicate vless uuid "@ + uuid@,
            VlessError::BadUuid(uuid, error) => "invalid vless uuid "@ + uuid@ + ": "@ + error@,
            VlessError::Version(version) => "invalid vless version: "@ + decimal_text(
                version as nat,
            ),
            VlessError::UnknownUser => "invalid vless uuid"@,
            VlessError::Command(command) => "unsupported vless command: "@ + decimal_text(
                command as nat,
            ),
            VlessError::EmptyDomain => "empty vless destination domain"@,
            VlessError::DomainUtf8 => "invalid vless destination domain"@,
            VlessError::AddressType(atyp) => "invalid vless address type: "@ + decimal_text(
                atyp as nat,
            ),
            VlessError::Udp => "vless inbound UDP over websocket is not supported"@,
            VlessError::Mux => "vless inbound mux command is not supported"@,
            VlessError::HandshakeTimeout => "vless websocket handshake timeout"@,
            VlessError::HeaderTimeout => "vless request header timeout"@,
        }
    }

    pub fn message(&self) -> (text: String)
        ensures
            text@ == self.message_spec(),
    {
        match self {
            VlessError::Path => "vless ws inbound requires an absolute websocket path".to_owned(),
            VlessError::NoUsers => "vless inbound requires uuid or users".to_owned(),
            VlessError::DuplicateUuid(uuid) => joined("duplicate vless uuid ", uuid.as_str()),
            VlessError::BadUuid(uuid, error) => {
                let mut text = joined("invalid vless uuid ", uuid.as_str());
                text.append(": ");
                text.append(error.as_str());
                text
            },
            VlessError::Version(version) => joined(
                "invalid vless version: ",
                decimal(*version as u64).as_str(),
            ),
            VlessError::UnknownUser => "invalid vless uuid".to_owned(),
            VlessError::Command(command) => joined(
                "unsupported vless command: ",
                decimal(*command as u64).as_str(),
            ),
            VlessError::EmptyDomain => "empty vless destination domain".to_owned(),
            VlessError::DomainUtf8 => "invalid vless destination domain".to_owned(),
            VlessError::AddressType(atyp) => joined(
                "invalid vless address type: ",
                decimal(*atyp as u64).as_str(),
            ),
            VlessError::Udp => "vless inbound UDP over websocket is not supported".to_owned(),
            VlessError::Mux => "vless inbound mux command is not supported".to_owned(),
            VlessError::HandshakeTimeout => "vless websocket handshake timeout".to_owned(),
            VlessError::HeaderTimeout => "vless request header timeout".to_owned(),
        }
    }
}

} // verus!
