use clash_inbound::net::addr::{IpAddr, SocketAddr, SocksAddr};
use clash_inbound::net::parse::parse_socket_addr;
use clash_inbound::pending::PendingRead;
use clash_inbound::vless::error::{ErrorKind, VlessError};
use clash_inbound::vless::inbound::{
    source_allowed, InboundOptions, VlessInbound, VlessInboundUser, WsInboundOptions,
};
use clash_inbound::vless::request::{
    read_vless_request, serve, RequestStep, ServeStep, VlessCommand, VlessRequest,
};
use clash_inbound::vless::websocket::{validate_ws_request, WsVerdict};
use std::collections::HashMap;

const UUID: &str = "d4f2ad1c-f6db-481e-91de-9d551f8885c9";
const ID: u128 = 0xd4f2ad1c_f6db_481e_91de_9d551f8885c9;

#[test]
fn source_allowed_rejects_non_local_source_on_unspecified_listener() {
    let source = parse_socket_addr("192.0.2.10:50000").unwrap();
    let accepted_local = parse_socket_addr("203.0.113.5:60178").unwrap();

    assert!(!source_allowed(false, source, accepted_local));
    assert!(source_allowed(true, source, accepted_local));
}

#[test]
fn source_allowed_accepts_same_local_address() {
    let source = parse_socket_addr("127.0.0.1:50000").unwrap();
    let accepted_local = parse_socket_addr("127.0.0.1:60178").unwrap();

    assert!(source_allowed(false, source, accepted_local));
}

fn users() -> HashMap<u128, Option<String>> {
    let mut users = HashMap::new();
    users.insert(ID, Some("alice".to_owned()));
    users
}

fn request(command: u8, addon: &[u8], address: &[u8]) -> Vec<u8> {
    let mut bytes = vec![0u8];
    bytes.extend_from_slice(&ID.to_be_bytes());
    bytes.push(addon.len() as u8);
    bytes.extend_from_slice(addon);
    bytes.push(command);
    bytes.extend_from_slice(address);
    bytes
}

fn parsed(bytes: &[u8]) -> (VlessRequest, usize) {
    match read_vless_request(bytes, &users()) {
        RequestStep::Request(request, used) => (request, used),
        other => panic!("a request is complete: {other:?}"),
    }
}

fn refused(bytes: &[u8]) -> VlessError {
    match read_vless_request(bytes, &users()) {
        RequestStep::Bad(error) => error,
        other => panic!("the request is malformed: {other:?}"),
    }
}

#[test]
fn requests_are_read_with_their_user_and_destination() {
    let bytes = request(1, b"flow", &[1, 187, 1, 192, 0, 2, 7]);
    let (read, used) = parsed(&bytes);
    assert_eq!(used, bytes.len());
    assert_eq!(read.command, VlessCommand::Tcp);
    assert_eq!(read.inbound_user.as_deref(), Some("alice"));
    assert_eq!(
        read.destination,
        SocksAddr::Ip(SocketAddr::new(IpAddr::V4(192, 0, 2, 7), 443))
    );

    let mut address = vec![0, 80, 2, 11];
    address.extend_from_slice(b"example.com");
    let mut bytes = request(2, b"", &address);
    let len = bytes.len();
    bytes.extend_from_slice(b"payload");
    let (read, used) = parsed(&bytes);
    assert_eq!(used, len);
    assert_eq!(read.command, VlessCommand::Udp);
    assert_eq!(read.destination, SocksAddr::Domain("example.com".to_owned(), 80));

    let mut address = vec![0, 80, 3];
    address.extend_from_slice(&[0x20, 0x01, 0x0d, 0xb8, 0, 0, 0, 0, 0, 0, 0, 0, 0, 0, 0, 9]);
    let (read, _) = parsed(&request(3, b"", &address));
    assert_eq!(read.command, VlessCommand::Mux);
    assert_eq!(
        read.destination,
        SocksAddr::Ip(SocketAddr::new(IpAddr::V6(0x2001, 0xdb8, 0, 0, 0, 0, 0, 9), 80))
    );
}

#[test]
fn requests_are_read_byte_for_byte() {
    let mut address = vec![0, 80, 2, 11];
    address.extend_from_slice(b"example.com");
    let bytes = request(1, b"ab", &address);
    let mut have = 0;
    loop {
        match read_vless_request(&bytes[..have], &users()) {
            RequestStep::More(missing) => {
                assert!(missing > 0);
                have += missing;
                assert!(have <= bytes.len());
            }
            RequestStep::Request(_, used) => {
                assert_eq!(used, have);
                assert_eq!(have, bytes.len());
                return;
            }
            RequestStep::Bad(error) => panic!("{}", error.message()),
        }
    }
}

#[test]
fn malformed_requests_say_what_is_wrong() {
    let error = refused(&[7]);
    assert_eq!(error.message(), "invalid vless version: 7");
    assert_eq!(error.kind(), ErrorKind::InvalidData);

    let mut stranger = request(1, b"", &[]);
    stranger[5] ^= 1;
    let error = refused(&stranger);
    assert_eq!(error.message(), "invalid vless uuid");
    assert_eq!(error.kind(), ErrorKind::PermissionDenied);

    assert_eq!(refused(&request(9, b"", &[])).message(), "unsupported vless command: 9");
    assert_eq!(
        refused(&request(1, b"", &[0, 80, 5])).message(),
        "invalid vless address type: 5"
    );
    assert_eq!(
        refused(&request(1, b"", &[0, 80, 2, 0])).message(),
        "empty vless destination domain"
    );
    assert_eq!(
        refused(&request(1, b"", &[0, 80, 2, 1, 0xff])).message(),
        "invalid vless destination domain"
    );
}

#[test]
fn only_streams_are_served() {
    let request = |command| VlessRequest {
        command,
        destination: SocksAddr::Domain("example.com".to_owned(), 80),
        inbound_user: None,
    };
    match serve(request(VlessCommand::Tcp)) {
        ServeStep::Open {
            reply, destination, ..
        } => {
            assert_eq!(reply, [0, 0]);
            assert_eq!(destination, SocksAddr::Domain("example.com".to_owned(), 80));
        }
        ServeStep::Fail(error) => panic!("{}", error.message()),
    }
    for (command, message) in [
        (
            VlessCommand::Udp,
            "vless inbound UDP over websocket is not supported",
        ),
        (VlessCommand::Mux, "vless inbound mux command is not supported"),
    ] {
        match serve(request(command)) {
            ServeStep::Fail(error) => {
                assert_eq!(error.message(), message);
                assert_eq!(error.kind(), ErrorKind::Unsupported);
            }
            ServeStep::Open { .. } => panic!("only streams are carried"),
        }
    }
}

fn options(path: &str, uuid: Option<&str>, users: &[&str]) -> InboundOptions {
    InboundOptions {
        addr: SocketAddr::new(IpAddr::V4(127, 0, 0, 1), 60178),
        allow_lan: false,
        fw_mark: None,
        uuid: uuid.map(str::to_owned),
        users: users
            .iter()
            .map(|uuid| VlessInboundUser {
                uuid: (*uuid).to_owned(),
                name: Some("bob".to_owned()),
            })
            .collect(),
        ws: WsInboundOptions {
            path: path.to_owned(),
            early_data_header_name: None,
        },
    }
}

fn setup_error(options: InboundOptions) -> VlessError {
    match VlessInbound::new(options) {
        Err(error) => error,
        Ok(_) => panic!("the options are wrong"),
    }
}

#[test]
fn inbounds_know_their_users() {
    let other = "00000000-0000-0000-0000-000000000001";
    let inbound = match VlessInbound::new(options("/ws", Some(UUID), &[other])) {
        Ok(inbound) => inbound,
        Err(error) => panic!("{}", error.message()),
    };
    assert!(inbound.handle_tcp());
    assert!(!inbound.handle_udp());
    let mapped = IpAddr::V6(0, 0, 0, 0, 0, 0xffff, 0x7f00, 1);
    assert!(inbound.admits(mapped, IpAddr::V4(127, 0, 0, 1)));
    assert!(!inbound.admits(IpAddr::V4(127, 0, 0, 2), IpAddr::V4(127, 0, 0, 1)));
    assert_eq!(inbound.users.get(&ID), Some(&None));
    assert_eq!(inbound.users.get(&1), Some(&Some("bob".to_owned())));
    assert_eq!(inbound.users.len(), 2);
}

#[test]
fn wrong_options_are_named() {
    assert_eq!(
        setup_error(options("ws", Some(UUID), &[])).message(),
        "vless ws inbound requires an absolute websocket path"
    );
    assert_eq!(
        setup_error(options("/ws", None, &[])).message(),
        "vless inbound requires uuid or users"
    );
    assert_eq!(
        setup_error(options("/ws", Some(UUID), &[UUID])).message(),
        format!("duplicate vless uuid {UUID}")
    );
    let error = setup_error(options("/ws", Some("not-a-uuid"), &[]));
    assert!(error.message().starts_with("invalid vless uuid not-a-uuid: "));
    assert_eq!(error.kind(), ErrorKind::InvalidInput);
}

#[test]
fn handshakes_are_judged() {
    match validate_ws_request("/other", "/ws", None, None) {
        WsVerdict::Reject { status, body } => {
            assert_eq!((status, body.as_str()), (404, "websocket path not found"));
        }
        WsVerdict::Accept { .. } => panic!("the path is wrong"),
    }
    match validate_ws_request("/ws", "/ws", Some("Sec-WebSocket-Protocol"), None) {
        WsVerdict::Accept { early_data, echo } => {
            assert!(early_data.is_empty());
            assert!(echo.is_none());
        }
        WsVerdict::Reject { .. } => panic!("nothing was sent ahead"),
    }
    match validate_ws_request("/ws", "/ws", Some("Sec-WebSocket-Protocol"), Some(b"aGVsbG8_")) {
        WsVerdict::Accept { early_data, echo } => {
            assert_eq!(early_data, b"hello?");
            let echo = echo.unwrap();
            assert_eq!(echo.name, "sec-websocket-protocol");
            assert_eq!(echo.value, "aGVsbG8_");
        }
        WsVerdict::Reject { body, .. } => panic!("{body}"),
    }
    for (value, status, body) in [
        (&b"\xffabc"[..], 400, "invalid early data header"),
        (&b"a"[..], 400, "invalid early data encoding"),
        (&b"aGVsbG8+"[..], 400, "invalid early data encoding"),
        (&[b'A'; 2732][..], 413, "early data too large"),
    ] {
        match validate_ws_request("/ws", "/ws", Some("x-early"), Some(value)) {
            WsVerdict::Reject {
                status: seen,
                body: text,
            } => assert_eq!((seen, text.as_str()), (status, body)),
            WsVerdict::Accept { .. } => panic!("{body}"),
        }
    }
}

#[test]
fn what_was_read_ahead_comes_first() {
    let mut pending = PendingRead::new(b"hello");
    assert_eq!(pending.read(2).as_deref(), Some(&b"he"[..]));
    assert_eq!(pending.read(0).as_deref(), Some(&b""[..]));
    assert_eq!(pending.read(10).as_deref(), Some(&b"llo"[..]));
    assert_eq!(pending.read(10), None);
}
