//! What requests, datagrams and replies look like on the wire, and what they
//! lead to.

use vstd::prelude::*;
use vstd::utf8::*;

use crate::net::addr::{IpAddr, SocketAddr, Target};
use crate::net::laws::ip_round_trip;
use crate::net::parse::ip_of_text;
use crate::net::print::ip_text;
use crate::net::wire::{address_octets, addresses_are_read_from_their_octets, two_bytes};
use crate::snell::error::SnellError;
use crate::snell::inbound::{
    record_step_matches, serve_step_matches, user_entries, ReadEvent, RelayAction, RelayEvent,
    ServeStep, SnellInbound, SnellInboundUser, TcpRelay,
};
use crate::snell::request::{
    ip_address_spec, port_at, remote_eof_spec, request_spec,
    udp_request_spec, udp_response_spec, RequestModel,
};
use crate::snell::users::UserTable;

verus! {

/// The family of an address: four or six.
pub open spec fn family_byte(ip: IpAddr) -> u8 {
    if ip is V4 {
        4
    } else {
        6
    }
}

/// An address with its port, as it travels in front of a datagram.
pub open spec fn address_wire(ip: IpAddr, port: u16) -> Seq<u8> {
    seq![family_byte(ip)] + address_octets(ip) + two_bytes(port)
}

/// A name with its port: the length of the name goes first.
pub open spec fn name_wire(host: Seq<char>, port: u16) -> Seq<u8> {
    seq![encode_utf8(host).len() as u8] + encode_utf8(host) + two_bytes(port)
}

proof fn port_reads(data: Seq<u8>, at: int, port: u16)
    requires
        0 <= at,
        at + 2 <= data.len(),
        data[at] == two_bytes(port)[0],
        data[at + 1] == two_bytes(port)[1],
    ensures
        port_at(data, at) == port,
{
}

proof fn address_reads(front: Seq<u8>, ip: IpAddr, port: u16, rest: Seq<u8>)
    ensures
        ({
            let data = front + address_wire(ip, port) + rest;
            let end = front.len() + address_wire(ip, port).len();
            &&& ip_address_spec(data, front.len() as int) == Ok::<(Target, int), SnellError>(
                (
                    Target::Ip(SocketAddr { ip, port, flowinfo: 0, scope_id: 0 }),
                    end as int,
                ),
            )
            &&& data.skip(end as int) == rest
        }),
{
    let data = front + address_wire(ip, port) + rest;
    let at = front.len() as int;
    let octets = address_octets(ip);
    let longer = front.push(family_byte(ip));
    addresses_are_read_from_their_octets(ip, longer, two_bytes(port) + rest);
    assert(data =~= longer + octets + (two_bytes(port) + rest));
    assert(data[at] == family_byte(ip));
    let port_start = at + 1 + octets.len();
    assert(data[port_start] == two_bytes(port)[0]);
    assert(data[port_start + 1] == two_bytes(port)[1]);
    port_reads(data, port_start, port);
    assert(data.skip((front.len() + address_wire(ip, port).len()) as int) =~= rest);
    assert(octets.len() == if ip is V4 { 4int } else { 16 });
}

/// A datagram for an IP address is a one, a zero, the family, the bytes of the
/// address, its port and the payload: it is read as a datagram for that address
/// and port with exactly that payload.
pub proof fn datagrams_for_addresses_are_read(ip: IpAddr, port: u16, data: Seq<u8>)
    ensures
        udp_request_spec(seq![1u8, 0u8] + address_wire(ip, port) + data) == Ok::<
            (Target, Seq<u8>),
            SnellError,
        >((Target::Ip(SocketAddr { ip, port, flowinfo: 0, scope_id: 0 }), data)),
{
    address_reads(seq![1u8, 0u8], ip, port, data);
}

/// What the client gets from an address is what it would send to it, but for
/// the two bytes in front.
pub proof fn answers_mirror_datagrams(source: SocketAddr, data: Seq<u8>)
    ensures
        udp_response_spec(source, data) == address_wire(source.ip, source.port) + data,
        udp_request_spec(seq![1u8, 0u8] + udp_response_spec(source, data)) == Ok::<
            (Target, Seq<u8>),
            SnellError,
        >(
            (
                Target::Ip(
                    SocketAddr { ip: source.ip, port: source.port, flowinfo: 0, scope_id: 0 },
                ),
                data,
            ),
        ),
{
    addresses_are_read_from_their_octets(source.ip, Seq::empty(), Seq::empty());
    assert(udp_response_spec(source, data) =~= address_wire(source.ip, source.port) + data);
    datagrams_for_addresses_are_read(source.ip, source.port, data);
    assert(seq![1u8, 0u8] + udp_response_spec(source, data) =~= seq![1u8, 0u8] + address_wire(
        source.ip,
        source.port,
    ) + data);
}

/// A datagram for a name is a one, the name with its length in front, the port
/// and the payload. The name is kept as it is, even where it writes an address.
pub proof fn datagrams_for_names_are_read(host: Seq<char>, port: u16, data: Seq<u8>)
    requires
        1 <= encode_utf8(host).len() <= 255,
    ensures
        udp_request_spec(seq![1u8] + name_wire(host, port) + data) == Ok::<
            (Target, Seq<u8>),
            SnellError,
        >((Target::Domain(host, port), data)),
{
    let bytes = encode_utf8(host);
    let input = seq![1u8] + name_wire(host, port) + data;
    let end = 2 + bytes.len() as int;
    assert(input.subrange(2, end) =~= bytes);
    encode_utf8_valid_utf8(host);
    encode_utf8_decode_utf8(host);
    assert(input[1] == bytes.len() as u8);
    assert(input[end] == two_bytes(port)[0]);
    assert(input[end + 1] == two_bytes(port)[1]);
    port_reads(input, end, port);
    assert(input.skip(end + 2) =~= data);
}

/// Nothing but a one starts a datagram, and nothing but a four or a six an
/// address.
pub proof fn other_datagrams_are_refused(data: Seq<u8>)
    ensures
        data.len() == 0 ==> udp_request_spec(data) == Err::<(Target, Seq<u8>), SnellError>(
            SnellError::TruncatedRequest,
        ),
        data.len() > 0 && data[0] != 1 ==> udp_request_spec(data) == Err::<
            (Target, Seq<u8>),
            SnellError,
        >(SnellError::UdpCommand),
        data.len() > 2 && data[0] == 1 && data[1] == 0 && data[2] != 4 && data[2] != 6
            ==> udp_request_spec(data) == Err::<(Target, Seq<u8>), SnellError>(
            SnellError::UdpAddressFamily,
        ),
{
}

/// A datagram whose destination is cut short is refused.
pub proof fn short_datagrams_are_refused(ip: IpAddr, port: u16, len: int)
    requires
        0 <= len < 2 + address_wire(ip, port).len(),
    ensures
        udp_request_spec((seq![1u8, 0u8] + address_wire(ip, port)).take(len)) == Err::<
            (Target, Seq<u8>),
            SnellError,
        >(SnellError::TruncatedRequest),
{
    let short = (seq![1u8, 0u8] + address_wire(ip, port)).take(len);
    assert(address_octets(ip).len() == if ip is V4 { 4int } else { 16 });
    if len > 2 {
        assert(short[2] == family_byte(ip));
    }
}

/// A connect request: a one, the command, the client's identifier and the host
/// with their lengths in front, the port, and what follows it.
pub open spec fn connect_wire(
    command: u8,
    client_id: Seq<u8>,
    host: Seq<char>,
    port: u16,
    payload: Seq<u8>,
) -> Seq<u8> {
    seq![1u8, command, client_id.len() as u8] + client_id + name_wire(host, port) + payload
}

/// A connect request is read with its command, its client, its payload, and its
/// destination: an address where the host writes one, else the name.
pub proof fn connect_requests_are_read(
    command: u8,
    client_id: Seq<u8>,
    host: Seq<char>,
    port: u16,
    payload: Seq<u8>,
)
    requires
        command == 1 || command == 5,
        client_id.len() <= 255,
        encode_utf8(host).len() <= 255,
    ensures
        request_spec(connect_wire(command, client_id, host, port, payload)) == Ok::<
            (RequestModel, Seq<u8>),
            SnellError,
        >(
            (
                RequestModel {
                    command,
                    client_id,
                    destination: Some(
                        match ip_of_text(host) {
                            Some(ip) => Target::Ip(
                                SocketAddr { ip, port, flowinfo: 0, scope_id: 0 },
                            ),
                            None => Target::Domain(host, port),
                        },
                    ),
                },
                payload,
            ),
        ),
{
    let record = connect_wire(command, client_id, host, port, payload);
    let bytes = encode_utf8(host);
    let at = 3 + client_id.len() as int;
    let end = at + 1 + bytes.len();
    assert(record[2] == client_id.len() as u8);
    assert(record.subrange(3, at) =~= client_id);
    assert(record[at] == bytes.len() as u8);
    assert(record.subrange(at + 1, end) =~= bytes);
    encode_utf8_valid_utf8(host);
    encode_utf8_decode_utf8(host);
    assert(record[end] == two_bytes(port)[0]);
    assert(record[end + 1] == two_bytes(port)[1]);
    port_reads(record, end, port);
    assert(record.skip(end + 2) =~= payload);
}

/// A connect request for an IP address in its usual text is one for that
/// address.
pub proof fn literal_hosts_are_addresses(
    command: u8,
    client_id: Seq<u8>,
    ip: IpAddr,
    port: u16,
    payload: Seq<u8>,
)
    requires
        command == 1 || command == 5,
        client_id.len() <= 255,
        encode_utf8(ip_text(ip)).len() <= 255,
    ensures
        request_spec(connect_wire(command, client_id, ip_text(ip), port, payload)) == Ok::<
            (RequestModel, Seq<u8>),
            SnellError,
        >(
            (
                RequestModel {
                    command,
                    client_id,
                    destination: Some(
                        Target::Ip(SocketAddr { ip, port, flowinfo: 0, scope_id: 0 }),
                    ),
                },
                payload,
            ),
        ),
{
    ip_round_trip(ip);
    connect_requests_are_read(command, client_id, ip_text(ip), port, payload);
}

/// A ping is a one, a zero and any third byte; a request for datagrams is a
/// one, a six and the client's identifier with its length in front. Neither has
/// a destination.
pub proof fn other_requests_are_read(third: u8, client_id: Seq<u8>, rest: Seq<u8>)
    requires
        client_id.len() <= 255,
    ensures
        request_spec(seq![1u8, 0u8, third] + rest) == Ok::<(RequestModel, Seq<u8>), SnellError>(
            (
                RequestModel { command: 0, client_id: Seq::empty(), destination: None },
                rest,
            ),
        ),
        request_spec(seq![1u8, 6u8, client_id.len() as u8] + client_id + rest) == Ok::<
            (RequestModel, Seq<u8>),
            SnellError,
        >((RequestModel { command: 6, client_id, destination: None }, rest)),
{
    let ping = seq![1u8, 0u8, third] + rest;
    assert(ping.skip(3) =~= rest);
    let udp = seq![1u8, 6u8, client_id.len() as u8] + client_id + rest;
    let end = 3 + client_id.len() as int;
    assert(udp[2] == client_id.len() as u8);
    assert(udp.subrange(3, end) =~= client_id);
    assert(udp.skip(end) =~= rest);
}

/// A record that is no request is refused: one of another version, one that is
/// too short, and one with another command.
pub proof fn other_records_are_refused(record: Seq<u8>)
    ensures
        record.len() < 3 || record[0] != 1 ==> request_spec(record) == Err::<
            (RequestModel, Seq<u8>),
            SnellError,
        >(SnellError::RequestVersion),
        record.len() >= 3 && record[0] == 1 && record[1] != 0 && record.len() < 3 + record[2]
            ==> request_spec(record) == Err::<(RequestModel, Seq<u8>), SnellError>(
            SnellError::TruncatedClientId,
        ),
        record.len() >= 3 && record[0] == 1 && record.len() >= 3 + record[2] && record[1] != 0
            && record[1] != 1 && record[1] != 5 && record[1] != 6 ==> request_spec(record) == Err::<
            (RequestModel, Seq<u8>),
            SnellError,
        >(SnellError::UnsupportedCommand(record[1])),
{
}

/// Nothing is taken from the payload behind a request: whatever follows a
/// record that is a request comes behind its payload.
pub proof fn payloads_follow_requests(record: Seq<u8>, more: Seq<u8>)
    requires
        request_spec(record) is Ok,
    ensures
        request_spec(record + more) == Ok::<(RequestModel, Seq<u8>), SnellError>(
            (request_spec(record)->Ok_0.0, request_spec(record)->Ok_0.1 + more),
        ),
{
    let whole = record + more;
    assert(forall|i: int| 0 <= i < record.len() ==> whole[i] == record[i]);
    let end = 3 + record[2];
    let (request, payload) = request_spec(record)->Ok_0;
    if record[1] == 0 {
        assert(whole.skip(3) =~= record.skip(3) + more);
    } else {
        assert(whole.subrange(3, end) =~= record.subrange(3, end));
        if record[1] == 6 {
            assert(whole.skip(end) =~= record.skip(end) + more);
        } else {
            let port_start = end + 1 + record[end];
            assert(whole.subrange(end + 1, port_start) =~= record.subrange(end + 1, port_start));
            assert(whole.skip(port_start + 2) =~= record.skip(port_start + 2) + more);
        }
    }
}

/// Who a connection is served as: with users configured, the one whose key the
/// request brings; without users, nobody in particular.
pub open spec fn is_user(table: UserTable, key: Seq<u8>, user: Option<Seq<char>>) -> bool {
    if table@.len() == 0 {
        user is None
    } else {
        user is Some && table@.contains((key, user->0))
    }
}

pub open spec fn user_text(user: Option<String>) -> Option<Seq<char>> {
    match user {
        Some(name) => Some(name@),
        None => None,
    }
}

proof fn name_is_among_entries(table: UserTable, key: Seq<u8>)
    ensures
        table.name_of(key) matches Some(name) ==> table@.contains((key, name)),
        (exists|name: Seq<char>| #[trigger] table@.contains((key, name))) ==> table.name_of(
            key,
        ) is Some,
{
    if table.has_key(key) {
        let i = choose|i: int| 0 <= i < table@.len() && (#[trigger] table@[i]).0 == key;
        assert(table@[i] == (key, table@[i].1));
    }
    if exists|name: Seq<char>| #[trigger] table@.contains((key, name)) {
        let name = choose|name: Seq<char>| #[trigger] table@.contains((key, name));
        let i = choose|i: int| 0 <= i < table@.len() && table@[i] == (key, name);
        assert(table@[i].0 == key);
    }
}

/// A connect request is served: its destination, its payload and its user are
/// handed on, and the connection takes another request afterwards if and only
/// if the command is five. A client whose key is not in the table is refused.
pub proof fn connect_requests_are_served(
    inbound: SnellInbound,
    first: bool,
    event: ReadEvent,
    step: Result<ServeStep, SnellError>,
    command: u8,
    client_id: Seq<u8>,
    host: Seq<char>,
    port: u16,
    payload: Seq<u8>,
)
    requires
        serve_step_matches(&inbound, first, event, step),
        event is Record,
        event->Record_0@ == connect_wire(command, client_id, host, port, payload),
        command == 1 || command == 5,
        client_id.len() <= 255,
        encode_utf8(host).len() <= 255,
    ensures
        (inbound.users@.len() == 0 || exists|name: Seq<char>| #[trigger]
            inbound.users@.contains((client_id, name))) <==> step is Ok,
        step is Err ==> step == Err::<ServeStep, SnellError>(SnellError::UserAuthentication),
        step is Ok ==> {
            &&& step->Ok_0 matches ServeStep::Connect {
                destination,
                inbound_user,
                initial_payload,
                reusable,
            }
            &&& destination@ == match ip_of_text(host) {
                Some(ip) => Target::Ip(SocketAddr { ip, port, flowinfo: 0, scope_id: 0 }),
                None => Target::Domain(host, port),
            }
            &&& initial_payload@ == payload
            &&& reusable == (command == 5)
            &&& is_user(inbound.users, client_id, user_text(inbound_user))
        },
{
    connect_requests_are_read(command, client_id, host, port, payload);
    name_is_among_entries(inbound.users, client_id);
    if inbound.users@.len() > 0 && inbound.users.name_of(client_id) is Some {
        assert(inbound.users@.contains((client_id, inbound.users.name_of(client_id)->0)));
    }
}

/// A ping is answered whoever sends it; a request for datagrams is served if its
/// user is known and nothing follows it in its record.
pub proof fn other_requests_are_served(
    inbound: SnellInbound,
    first: bool,
    event: ReadEvent,
    step: Result<ServeStep, SnellError>,
    third: u8,
    client_id: Seq<u8>,
    rest: Seq<u8>,
)
    requires
        serve_step_matches(&inbound, first, event, step),
        event is Record,
        client_id.len() <= 255,
    ensures
        event->Record_0@ == seq![1u8, 0u8, third] + rest ==> step == Ok::<ServeStep, SnellError>(
            ServeStep::Pong,
        ),
        event->Record_0@ == seq![1u8, 6u8, client_id.len() as u8] + client_id + rest ==> {
            let known = inbound.users@.len() == 0 || exists|name: Seq<char>| #[trigger]
                inbound.users@.contains((client_id, name));
            if !known {
                step == Err::<ServeStep, SnellError>(SnellError::UserAuthentication)
            } else if rest.len() > 0 {
                step == Err::<ServeStep, SnellError>(SnellError::InlineDatagram)
            } else {
                &&& step matches Ok(ServeStep::Udp { inbound_user })
                &&& is_user(inbound.users, client_id, user_text(inbound_user))
            }
        },
{
    other_requests_are_read(third, client_id, rest);
    name_is_among_entries(inbound.users, client_id);
    if inbound.users@.len() > 0 && inbound.users.name_of(client_id) is Some {
        assert(inbound.users@.contains((client_id, inbound.users.name_of(client_id)->0)));
    }
}

/// A stream that ends before its first request is at fault; one that ends
/// behind a request is closed.
pub proof fn ends_are_told_apart(
    inbound: SnellInbound,
    first: bool,
    event: ReadEvent,
    step: Result<ServeStep, SnellError>,
)
    requires
        serve_step_matches(&inbound, first, event, step),
        !(event is Record),
    ensures
        !first && !(event is Failed) <==> step == Ok::<ServeStep, SnellError>(ServeStep::Close),
        first && event is End <==> step == Err::<ServeStep, SnellError>(SnellError::RequestIsEof),
        event is Failed || (first && event is Cut) <==> step == Ok::<ServeStep, SnellError>(
            ServeStep::Fail,
        ),
{
}

/// Users are known by the bytes of their keys, under their names; one without a
/// name goes by its place in the list.
pub proof fn users_are_known_by_their_keys(users: Seq<SnellInboundUser>, i: int)
    requires
        0 <= i < users.len(),
    ensures
        ({
            let entry = user_entries(users, users.len())[i];
            &&& user_entries(users, users.len()).len() == users.len()
            &&& entry.0 == encode_utf8(users[i].userkey@)
            &&& users[i].name@.len() > 0 ==> entry.1 == users[i].name@
            &&& users[i].name@.len() == 0 ==> entry.1 == crate::text::decimal_text(i as nat)
        }),
{
}

/// What a relay hands on: the client's bytes go to the destination unchanged.
/// Bytes of the destination go to the client, the first of them behind a zero.
/// Each end is passed on once, and a destination that ends before it has sent
/// anything is told to a client that may go on.
pub proof fn relays_hand_on(relay: TcpRelay, event: RelayEvent, action: RelayAction)
    requires
        relay.action_matches(event, action),
    ensures
        match event {
            RelayEvent::FromClient(data) => {
                &&& action matches RelayAction::ToDispatch(bytes)
                &&& bytes@ == data@
                &&& relay.after(event) == relay
            },
            RelayEvent::ClientEnd => {
                &&& action is ShutDispatch
                &&& !relay.after(event).client_open
                &&& relay.after(event).dispatch_open == relay.dispatch_open
                &&& relay.after(event).reply_written == relay.reply_written
            },
            RelayEvent::FromDispatch(data) => {
                &&& action matches RelayAction::ToClient(bytes)
                &&& relay.reply_written ==> bytes@ == data@
                &&& !relay.reply_written ==> bytes@.len() == data@.len() + 1 && bytes@[0] == 0
                    && bytes@.skip(1) == data@
                &&& relay.after(event).reply_written
                &&& relay.after(event).client_open == relay.client_open
                &&& relay.after(event).dispatch_open == relay.dispatch_open
            },
            RelayEvent::DispatchEnd => {
                &&& !relay.reusable <==> action is Finish
                &&& relay.reusable && relay.reply_written <==> action is EofToClient
                &&& relay.reusable && !relay.reply_written <==> action is Abort
                &&& action matches RelayAction::Abort(bytes) ==> bytes@ == seq![2u8, 101u8, 10u8]
                    + seq![82u8, 101, 109, 111, 116, 101, 32, 69, 79, 70]
                &&& !relay.after(event).dispatch_open
                &&& relay.after(event).client_open == relay.client_open
                &&& relay.after(event).reply_written == relay.reply_written
            },
        },
        relay.after(event).reusable == relay.reusable,
{
    if let RelayEvent::FromDispatch(data) = event {
        if !relay.reply_written {
            assert(relay.reply(data@).skip(1) =~= data@);
        }
    }
    assert(remote_eof_spec() =~= seq![2u8, 101u8, 10u8] + seq![
        82u8,
        101,
        109,
        111,
        116,
        101,
        32,
        69,
        79,
        70,
    ]);
}

} // verus!
