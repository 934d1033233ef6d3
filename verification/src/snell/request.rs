//! Requests, datagrams and replies inside records.

use vstd::prelude::*;
use vstd::utf8::*;

use crate::net::addr::{IpAddr, SocketAddr, SocksAddr, Target};
use crate::net::packet::UdpPacket;
use crate::net::parse::{ip_of_text, parse_ip};
use crate::snell::error::SnellError;
use crate::snell::users::UserTable;
use crate::text::bytes_between;

verus! {

pub const REQUEST_VERSION: u8 = 1;
pub const COMMAND_PING: u8 = 0;
pub const COMMAND_CONNECT: u8 = 1;
pub const COMMAND_CONNECT_V2: u8 = 5;
pub const COMMAND_UDP: u8 = 6;
pub const REPLY_TUNNEL: u8 = 0;
pub const REPLY_PONG: u8 = 1;
pub const REPLY_ERROR: u8 = 2;
pub const UDP_FORWARD: u8 = 1;
pub const ADDRESS_IPV4: u8 = 4;
pub const ADDRESS_IPV6: u8 = 6;

#[derive(Debug)]
pub struct Request {
    pub command: u8,
    pub client_id: Vec<u8>,
    pub destination: Option<SocksAddr>,
}

/// A request as a mathematical value.
#[verifier::ext_equal]
pub struct RequestModel {
    pub command: u8,
    pub client_id: Seq<u8>,
    pub destination: Option<Target>,
}

impl View for Request {
    type V = RequestModel;

    open spec fn view(&self) -> RequestModel {
        RequestModel {
            command: self.command,
            client_id: self.client_id@,
            destination: match self.destination {
                Some(destination) => Some(destination@),
                None => None,
            },
        }
    }
}

/// The big-endian number of two bytes at `at`.
pub open spec fn port_at(data: Seq<u8>, at: int) -> u16 {
    (data[at] * 256 + data[at + 1]) as u16
}

fn read_port(data: &[u8], at: usize) -> (port: u16)
    requires
        at + 2 <= data@.len(),
    ensures
        port == port_at(data@, at as int),
{
    data[at] as u16 * 256 + data[at + 1] as u16
}

/// A destination for a host as it was written: an IP literal, or a name.
pub open spec fn host_target(host: Seq<char>, port: u16) -> Target {
    match ip_of_text(host) {
        Some(ip) => Target::Ip(SocketAddr::new_spec(ip, port)),
        None => Target::Domain(host, port),
    }
}

/// The destination of a connect request at `offset`, with the position behind it.
pub open spec fn connect_address_spec(data: Seq<u8>, offset: int) -> Result<
    (Target, int),
    SnellError,
> {
    let host_len = data[offset] as int;
    let host = data.subrange(offset + 1, offset + 1 + host_len);
    let port_start = offset + 1 + host_len;
    if offset + 1 > data.len() || port_start > data.len() {
        Err(SnellError::TruncatedRequest)
    } else if !valid_utf8(host) {
        Err(SnellError::DestinationUtf8)
    } else if port_start + 2 > data.len() {
        Err(SnellError::TruncatedRequest)
    } else {
        Ok((host_target(decode_utf8(host), port_at(data, port_start)), port_start + 2))
    }
}

/// Reads the destination of a connect request.
pub fn read_connect_address(data: &[u8], offset: usize) -> (found: Result<
    (SocksAddr, usize),
    SnellError,
>)
    requires
        offset <= data@.len(),
    ensures
        match found {
            Ok((destination, next)) => {
                &&& connect_address_spec(data@, offset as int) == Ok::<(Target, int), SnellError>(
                    (destination@, next as int),
                )
                &&& next <= data@.len()
            },
            Err(error) => connect_address_spec(data@, offset as int) == Err::<
                (Target, int),
                SnellError,
            >(error),
        },
{
    if data.len() - offset < 1 {
        return Err(SnellError::TruncatedRequest);
    }
    let host_len: usize = data[offset] as usize;
    if data.len() - offset - 1 < host_len {
        return Err(SnellError::TruncatedRequest);
    }
    let port_start: usize = offset + 1 + host_len;
    let host_bytes = bytes_between(data, offset + 1, port_start);
    let host: &str = match core::str::from_utf8(host_bytes.as_slice()) {
        Ok(host) => host,
        Err(_) => {
            return Err(SnellError::DestinationUtf8);
        },
    };
    if data.len() - port_start < 2 {
        return Err(SnellError::TruncatedRequest);
    }
    let port: u16 = read_port(data, port_start);
    let destination = match parse_ip(host) {
        Some(ip) => SocksAddr::Ip(SocketAddr::new(ip, port)),
        None => SocksAddr::Domain(host.to_owned(), port),
    };
    Ok((destination, port_start + 2))
}

/// The request in a record, with the payload behind it.
pub open spec fn request_spec(record: Seq<u8>) -> Result<(RequestModel, Seq<u8>), SnellError> {
    let command = record[1];
    let client_end = 3 + record[2];
    let client_id = record.subrange(3, client_end);
    if record.len() < 3 || record[0] != REQUEST_VERSION {
        Err(SnellError::RequestVersion)
    } else if command == COMMAND_PING {
        Ok(
            (
                RequestModel { command, client_id: Seq::empty(), destination: None },
                record.skip(3),
            ),
        )
    } else if record.len() < client_end {
        Err(SnellError::TruncatedClientId)
    } else if command == COMMAND_CONNECT || command == COMMAND_CONNECT_V2 {
        match connect_address_spec(record, client_end) {
            Err(error) => Err(error),
            Ok((destination, next)) => Ok(
                (
                    RequestModel { command, client_id, destination: Some(destination) },
                    record.skip(next),
                ),
            ),
        }
    } else if command == COMMAND_UDP {
        Ok((RequestModel { command, client_id, destination: None }, record.skip(client_end)))
    } else {
        Err(SnellError::UnsupportedCommand(command))
    }
}

/// Splits a record into its request and the payload behind it.
pub fn parse_request(record: Vec<u8>) -> (parsed: Result<(Request, Vec<u8>), SnellError>)
    ensures
        match parsed {
            Ok((request, payload)) => request_spec(record@) == Ok::<
                (RequestModel, Seq<u8>),
                SnellError,
            >((request@, payload@)),
            Err(error) => request_spec(record@) == Err::<(RequestModel, Seq<u8>), SnellError>(
                error,
            ),
        },
{
    if record.len() < 3 || record[0] != REQUEST_VERSION {
        return Err(SnellError::RequestVersion);
    }
    let command: u8 = record[1];
    if command == COMMAND_PING {
        let payload = bytes_between(record.as_slice(), 3, record.len());
        assert(payload@ =~= record@.skip(3));
        let request = Request { command, client_id: Vec::new(), destination: None };
        assert(request@ =~= (RequestModel {
            command,
            client_id: Seq::empty(),
            destination: None,
        }));
        return Ok((request, payload));
    }
    let client_end: usize = 3 + record[2] as usize;
    if record.len() < client_end {
        return Err(SnellError::TruncatedClientId);
    }
    let client_id = bytes_between(record.as_slice(), 3, client_end);
    let (destination, next) = if command == COMMAND_CONNECT || command == COMMAND_CONNECT_V2 {
        match read_connect_address(record.as_slice(), client_end) {
            Ok((destination, next)) => (Some(destination), next),
            Err(error) => {
                return Err(error);
            },
        }
    } else if command == COMMAND_UDP {
        (None, client_end)
    } else {
        return Err(SnellError::UnsupportedCommand(command));
    };
    let payload = bytes_between(record.as_slice(), next, record.len());
    assert(payload@ =~= record@.skip(next as int));
    Ok((Request { command, client_id, destination }, payload))
}

/// The name of the user that a request comes from. A ping needs none, and
/// without users everyone is let in.
pub fn authenticate_user(users: &UserTable, command: u8, client_id: &[u8]) -> (user: Result<
    Option<String>,
    SnellError,
>)
    requires
        users.wf(),
    ensures
        match user {
            Ok(None) => command == COMMAND_PING || users@.len() == 0,
            Ok(Some(name)) => {
                &&& command != COMMAND_PING
                &&& users.name_of(client_id@) == Some(name@)
            },
            Err(error) => {
                &&& command != COMMAND_PING
                &&& users@.len() > 0
                &&& users.name_of(client_id@) is None
                &&& error == SnellError::UserAuthentication
            },
        },
        users@.len() == 0 ==> user == Ok::<Option<String>, SnellError>(None),
{
    if command == COMMAND_PING || users.is_empty() {
        return Ok(None);
    }
    match users.get(client_id) {
        Some(name) => Ok(Some(name)),
        None => Err(SnellError::UserAuthentication),
    }
}

/// The IP address and port at `offset`, with the position behind them.
pub open spec fn ip_address_spec(data: Seq<u8>, offset: int) -> Result<(Target, int), SnellError> {
    if offset + 1 > data.len() {
        Err(SnellError::TruncatedRequest)
    } else if data[offset] == ADDRESS_IPV4 {
        if offset + 7 > data.len() {
            Err(SnellError::TruncatedRequest)
        } else {
            Ok(
                (
                    Target::Ip(
                        SocketAddr::new_spec(
                            IpAddr::v4_at(data, offset + 1),
                            port_at(data, offset + 5),
                        ),
                    ),
                    offset + 7,
                ),
            )
        }
    } else if data[offset] == ADDRESS_IPV6 {
        if offset + 19 > data.len() {
            Err(SnellError::TruncatedRequest)
        } else {
            Ok(
                (
                    Target::Ip(
                        SocketAddr::new_spec(
                            IpAddr::v6_at(data, offset + 1),
                            port_at(data, offset + 17),
                        ),
                    ),
                    offset + 19,
                ),
            )
        }
    } else {
        Err(SnellError::UdpAddressFamily)
    }
}

/// Reads an IP address with its port.
pub fn read_ip_address(data: &[u8], offset: usize) -> (found: Result<
    (SocksAddr, usize),
    SnellError,
>)
    requires
        offset <= data@.len(),
    ensures
        match found {
            Ok((addr, next)) => {
                &&& ip_address_spec(data@, offset as int) == Ok::<(Target, int), SnellError>(
                    (addr@, next as int),
                )
                &&& next <= data@.len()
            },
            Err(error) => ip_address_spec(data@, offset as int) == Err::<(Target, int), SnellError>(
                error,
            ),
        },
{
    let left: usize = data.len() - offset;
    if left < 1 {
        return Err(SnellError::TruncatedRequest);
    }
    let family: u8 = data[offset];
    if family == ADDRESS_IPV4 {
        if left < 7 {
            return Err(SnellError::TruncatedRequest);
        }
        let ip = IpAddr::read_v4(data, offset + 1);
        let port: u16 = read_port(data, offset + 5);
        Ok((SocksAddr::Ip(SocketAddr::new(ip, port)), offset + 7))
    } else if family == ADDRESS_IPV6 {
        if left < 19 {
            return Err(SnellError::TruncatedRequest);
        }
        let ip = IpAddr::read_v6(data, offset + 1);
        let port: u16 = read_port(data, offset + 17);
        Ok((SocksAddr::Ip(SocketAddr::new(ip, port)), offset + 19))
    } else {
        Err(SnellError::UdpAddressFamily)
    }
}

/// The destination of a datagram at `offset`, with the position behind it: a
/// name with its length in front, or a zero and an IP address.
pub open spec fn udp_address_spec(data: Seq<u8>, offset: int) -> Result<(Target, int), SnellError> {
    let host_len = data[offset] as int;
    let host = data.subrange(offset + 1, offset + 1 + host_len);
    let port_start = offset + 1 + host_len;
    if offset + 1 > data.len() {
        Err(SnellError::TruncatedRequest)
    } else if host_len == 0 {
        ip_address_spec(data, offset + 1)
    } else if port_start > data.len() {
        Err(SnellError::TruncatedRequest)
    } else if !valid_utf8(host) {
        Err(SnellError::UdpHostUtf8)
    } else if port_start + 2 > data.len() {
        Err(SnellError::TruncatedRequest)
    } else {
        Ok((Target::Domain(decode_utf8(host), port_at(data, port_start)), port_start + 2))
    }
}

/// Reads the destination of a datagram.
pub fn read_udp_request_address(data: &[u8], offset: usize) -> (found: Result<
    (SocksAddr, usize),
    SnellError,
>)
    requires
        offset <= data@.len(),
    ensures
        match found {
            Ok((addr, next)) => {
                &&& udp_address_spec(data@, offset as int) == Ok::<(Target, int), SnellError>(
                    (addr@, next as int),
                )
                &&& next <= data@.len()
            },
            Err(error) => udp_address_spec(data@, offset as int) == Err::<
                (Target, int),
                SnellError,
            >(error),
        },
{
    if data.len() - offset < 1 {
        return Err(SnellError::TruncatedRequest);
    }
    let host_len: usize = data[offset] as usize;
    if host_len == 0 {
        return read_ip_address(data, offset + 1);
    }
    if data.len() - offset - 1 < host_len {
        return Err(SnellError::TruncatedRequest);
    }
    let port_start: usize = offset + 1 + host_len;
    let host_bytes = bytes_between(data, offset + 1, port_start);
    let host: &str = match core::str::from_utf8(host_bytes.as_slice()) {
        Ok(host) => host,
        Err(_) => {
            return Err(SnellError::UdpHostUtf8);
        },
    };
    if data.len() - port_start < 2 {
        return Err(SnellError::TruncatedRequest);
    }
    Ok((SocksAddr::Domain(host.to_owned(), read_port(data, port_start)), port_start + 2))
}

/// The destination and the payload of a datagram in a record.
pub open spec fn udp_request_spec(data: Seq<u8>) -> Result<(Target, Seq<u8>), SnellError> {
    if data.len() < 1 {
        Err(SnellError::TruncatedRequest)
    } else if data[0] != UDP_FORWARD {
        Err(SnellError::UdpCommand)
    } else {
        match udp_address_spec(data, 1) {
            Err(error) => Err(error),
            Ok((destination, next)) => Ok((destination, data.skip(next))),
        }
    }
}

/// Takes the datagram out of a record.
pub fn parse_udp_request(data: Vec<u8>, source: SocketAddr, inbound_user: Option<String>) -> (packet:
    Result<UdpPacket, SnellError>)
    ensures
        match packet {
            Ok(p) => {
                &&& udp_request_spec(data@) == Ok::<(Target, Seq<u8>), SnellError>(
                    (p.dst_addr@, p.data@),
                )
                &&& p.src_addr@ == Target::Ip(source)
                &&& p.inbound_user == inbound_user
            },
            Err(error) => udp_request_spec(data@) == Err::<(Target, Seq<u8>), SnellError>(error),
        },
{
    if data.len() < 1 {
        return Err(SnellError::TruncatedRequest);
    }
    if data[0] != UDP_FORWARD {
        return Err(SnellError::UdpCommand);
    }
    match read_udp_request_address(data.as_slice(), 1) {
        Err(error) => Err(error),
        Ok((destination, next)) => {
            let payload = bytes_between(data.as_slice(), next, data.len());
            assert(payload@ =~= data@.skip(next as int));
            Ok(
                UdpPacket {
                    data: payload,
                    src_addr: SocksAddr::Ip(source),
                    dst_addr: destination,
                    inbound_user,
                },
            )
        },
    }
}

/// A datagram for the client: where it comes from, then its payload.
pub open spec fn udp_response_spec(source: SocketAddr, data: Seq<u8>) -> Seq<u8> {
    let family = match source.ip {
        IpAddr::V4(_, _, _, _) => ADDRESS_IPV4,
        IpAddr::V6(_, _, _, _, _, _, _, _) => ADDRESS_IPV6,
    };
    seq![family] + source.ip.octets_spec() + seq![
        (source.port / 256) as u8,
        (source.port % 256) as u8,
    ] + data
}

/// Puts a datagram for the client into the form that it travels in.
pub fn encode_udp_response(packet: UdpPacket) -> (encoded: Result<Vec<u8>, SnellError>)
    ensures
        match (packet.src_addr@, encoded) {
            (Target::Ip(source), Ok(bytes)) => bytes@ == udp_response_spec(source, packet.data@),
            (Target::Domain(_, _), Err(error)) => error == SnellError::UdpResponseSource,
            _ => false,
        },
{
    match packet.src_addr {
        SocksAddr::Domain(_, _) => Err(SnellError::UdpResponseSource),
        SocksAddr::Ip(source) => {
            let mut output: Vec<u8> = Vec::new();
            match source.ip {
                IpAddr::V4(_, _, _, _) => {
                    output.push(ADDRESS_IPV4);
                },
                IpAddr::V6(_, _, _, _, _, _, _, _) => {
                    output.push(ADDRESS_IPV6);
                },
            }
            let octets = source.ip.octets();
            output.extend_from_slice(octets.as_slice());
            output.push((source.port / 256) as u8);
            output.push((source.port % 256) as u8);
            output.extend_from_slice(packet.data.as_slice());
            assert(output@ =~= udp_response_spec(source, packet.data@));
            Ok(output)
        },
    }
}

/// The source of a datagram for the client is read back as the IP address that
/// it was written from, with the payload behind it.
pub proof fn udp_response_round_trip(source: SocketAddr, data: Seq<u8>)
    ensures
        match ip_address_spec(udp_response_spec(source, data), 0) {
            Ok((target, next)) => {
                &&& target == Target::Ip(SocketAddr::new_spec(source.ip, source.port))
                &&& udp_response_spec(source, data).skip(next) == data
            },
            Err(_) => false,
        },
{
    let bytes = udp_response_spec(source, data);
    match source.ip {
        IpAddr::V4(_, _, _, _) => {
            assert(bytes.skip(7) =~= data);
        },
        IpAddr::V6(a, b, c, d, e, f, g, h) => {
            assert(bytes.skip(19) =~= data);
            assert(bytes.len() == 19 + data.len());
        },
    }
}

/// The reply to a client whose destination closed before it sent anything.
pub open spec fn remote_eof_spec() -> Seq<u8> {
    seq![REPLY_ERROR, 0x65u8, 10u8, 82u8, 101u8, 109u8, 111u8, 116u8, 101u8, 32u8, 69u8, 79u8, 70u8]
}

/// An error reply with code 0x65 and the text `Remote EOF`.
pub fn remote_eof_reply() -> (reply: Vec<u8>)
    ensures
        reply@ == remote_eof_spec(),
{
    let bytes: [u8; 13] = [REPLY_ERROR, 0x65, 10, 82, 101, 109, 111, 116, 101, 32, 69, 79, 70];
    let mut reply: Vec<u8> = Vec::new();
    reply.extend_from_slice(&bytes);
    assert(reply@ =~= remote_eof_spec());
    reply
}

} // verus!
