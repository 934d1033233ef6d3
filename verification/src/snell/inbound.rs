//! The Snell inbound: its set-up and the decisions of a connection.

use vstd::prelude::*;
use vstd::string::*;

use crate::net::addr::{SocketAddr, SocksAddr};
use crate::snell::error::SnellError;
use crate::snell::profile::{blake2b_256_digest, Profile, PROFILE_SEED};
use crate::snell::record::Mode;
use crate::snell::request::{
    authenticate_user, parse_request, remote_eof_reply, remote_eof_spec, request_spec,
    COMMAND_CONNECT, COMMAND_CONNECT_V2, COMMAND_PING, COMMAND_UDP, REPLY_TUNNEL,
};
use crate::snell::users::UserTable;
use crate::snell::writer::flat;
use crate::text::{byte_len, bytes_of, decimal, decimal_text};

verus! {

pub const DUPLEX_CAPACITY: usize = 0x4_0000;
pub const RELAY_BUFFER_SIZE: usize = 0x1_0000;

/// A user as it is configured.
#[derive(Debug)]
pub struct SnellInboundUser {
    pub name: String,
    pub userkey: String,
}

pub struct InboundOptions {
    pub addr: SocketAddr,
    pub version: u8,
    pub psk: String,
    pub users: Vec<SnellInboundUser>,
    pub mode: String,
    pub allow_lan: bool,
    pub fw_mark: Option<u32>,
}

impl InboundOptions {
    pub open spec fn psk_fits(self) -> bool {
        12 <= byte_len(self.psk@) <= 255
    }

    pub open spec fn reachable_as_asked(self) -> bool {
        self.allow_lan || self.addr.ip.is_loopback_spec()
    }
}

pub open spec fn userkey_fits(user: SnellInboundUser) -> bool {
    1 <= byte_len(user.userkey@) <= 255
}

/// The key of a user, as it arrives on the wire.
pub open spec fn key_bytes(user: SnellInboundUser) -> Seq<u8> {
    vstd::utf8::encode_utf8(user.userkey@)
}

/// The name of a user: the configured one, or its place in the list.
pub open spec fn user_name(users: Seq<SnellInboundUser>, index: int) -> Seq<char> {
    if users[index].name@.len() == 0 {
        decimal_text(index as nat)
    } else {
        users[index].name@
    }
}

/// Every key among the first `count` fits, and none occurs twice.
pub open spec fn users_fit(users: Seq<SnellInboundUser>, count: int) -> bool {
    &&& forall|i: int| 0 <= i < count ==> userkey_fits(#[trigger] users[i])
    &&& forall|i: int, j: int|
        0 <= i < j < count ==> key_bytes(#[trigger] users[i]) != key_bytes(#[trigger] users[j])
}

/// The users by key, in the order of the list.
pub open spec fn user_entries(users: Seq<SnellInboundUser>, count: nat) -> Seq<
    (Seq<u8>, Seq<char>),
> {
    Seq::new(count, |i: int| (key_bytes(users[i]), user_name(users, i)))
}

pub struct SnellInbound {
    pub addr: SocketAddr,
    pub psk: Vec<u8>,
    pub users: UserTable,
    pub mode: Mode,
    pub profile: Option<Profile>,
    pub fw_mark: Option<u32>,
}

/// The users of a list by key, or the first thing that is wrong with it.
pub fn build_user_table(users: &Vec<SnellInboundUser>) -> (table: Result<UserTable, SnellError>)
    ensures
        match table {
            Ok(t) => {
                &&& users_fit(users@, users@.len() as int)
                &&& t.wf()
                &&& t@ == user_entries(users@, users@.len())
            },
            Err(SnellError::UserkeyLength) => exists|i: int|
                0 <= i < users@.len() && users_fit(users@, i) && !userkey_fits(
                    #[trigger] users@[i],
                ),
            Err(SnellError::DuplicateUserkey) => exists|i: int|
                0 <= i < users@.len() && users_fit(users@, i) && userkey_fits(#[trigger] users@[i])
                    && !users_fit(users@, i + 1),
            Err(_) => false,
        },
{
    let mut table = UserTable::new();
    let mut index: usize = 0;
    assert(table@ =~= user_entries(users@, 0));
    while index < users.len()
        invariant
            index <= users@.len(),
            users_fit(users@, index as int),
            table.wf(),
            table@ == user_entries(users@, index as nat),
        decreases users@.len() - index,
    {
        let user = &users[index];
        let key = bytes_of(user.userkey.as_str().as_bytes());
        if key.len() == 0 || key.len() > 255 {
            assert(!userkey_fits(users@[index as int]));
            return Err(SnellError::UserkeyLength);
        }
        let name = if user.name.as_str().is_empty() {
            decimal(index as u64)
        } else {
            user.name.clone()
        };
        let ghost before = table;
        assert(userkey_fits(users@[index as int]));
        assert(key@ == key_bytes(users@[index as int]));
        assert(name@ == user_name(users@, index as int));
        if !table.insert(key, name) {
            assert(!users_fit(users@, index + 1)) by {
                let i = choose|i: int|
                    0 <= i < before@.len() && (#[trigger] before@[i]).0 == key_bytes(
                        users@[index as int],
                    );
                assert(before@[i].0 == key_bytes(users@[i]));
                assert(key_bytes(users@[i]) == key_bytes(users@[index as int]));
            }
            return Err(SnellError::DuplicateUserkey);
        }
        assert(users_fit(users@, index + 1)) by {
            assert forall|i: int, j: int| 0 <= i < j < index + 1 implies key_bytes(
                #[trigger] users@[i],
            ) != key_bytes(#[trigger] users@[j]) by {
                if j == index {
                    assert(before@[i].0 == key_bytes(users@[i]));
                }
            }
        }
        assert(table@ =~= user_entries(users@, (index + 1) as nat));
        index += 1;
    }
    Ok(table)
}

impl SnellInbound {
    pub open spec fn wf(&self) -> bool {
        &&& self.users.wf()
        &&& self.mode == Mode::Default <==> self.profile is Some
        &&& self.profile matches Some(profile) ==> profile.wf()
    }

    /// Sets an inbound up, or names the first thing that forbids it.
    pub fn new(options: InboundOptions) -> (inbound: Result<Self, SnellError>)
        ensures
            match inbound {
                Ok(this) => {
                    &&& options.version == 6
                    &&& options.psk_fits()
                    &&& options.reachable_as_asked()
                    &&& Mode::parse_spec(options.mode@) == Some(this.mode)
                    &&& users_fit(options.users@, options.users@.len() as int)
                    &&& this.wf()
                    &&& this.addr == options.addr
                    &&& this.fw_mark == options.fw_mark
                    &&& this.psk@ == vstd::utf8::encode_utf8(options.psk@)
                    &&& this.users@ == user_entries(options.users@, options.users@.len())
                    &&& this.profile matches Some(profile) ==> profile.derived_from(
                        blake2b_256_digest(PROFILE_SEED@ + this.psk@),
                    )
                },
                Err(SnellError::UnsupportedVersion) => options.version != 6,
                Err(SnellError::PskLength) => options.version == 6 && !options.psk_fits(),
                Err(SnellError::LoopbackRequired) => {
                    &&& options.version == 6
                    &&& options.psk_fits()
                    &&& !options.reachable_as_asked()
                },
                Err(SnellError::UnknownMode(text)) => {
                    &&& options.version == 6
                    &&& options.psk_fits()
                    &&& options.reachable_as_asked()
                    &&& Mode::parse_spec(options.mode@) is None
                    &&& text@ == options.mode@
                },
                Err(error) => {
                    &&& options.version == 6
                    &&& options.psk_fits()
                    &&& options.reachable_as_asked()
                    &&& Mode::parse_spec(options.mode@) is Some
                    &&& exists|i: int|
                        {
                            &&& 0 <= i < options.users@.len()
                            &&& users_fit(options.users@, i)
                            &&& !users_fit(options.users@, i + 1)
                            &&& error == if userkey_fits(#[trigger] options.users@[i]) {
                                SnellError::DuplicateUserkey
                            } else {
                                SnellError::UserkeyLength
                            }
                        }
                },
            },
    {
        if options.version != 6 {
            return Err(SnellError::UnsupportedVersion);
        }
        let psk = bytes_of(options.psk.as_str().as_bytes());
        if psk.len() < 12 || psk.len() > 255 {
            return Err(SnellError::PskLength);
        }
        if !options.allow_lan && !options.addr.ip.is_loopback() {
            return Err(SnellError::LoopbackRequired);
        }
        let mode = match Mode::parse(options.mode.as_str()) {
            Ok(mode) => mode,
            Err(error) => {
                return Err(error);
            },
        };
        let profile = if mode == Mode::Default {
            Some(Profile::new(psk.as_slice()))
        } else {
            None
        };
        let users = match build_user_table(&options.users) {
            Ok(users) => users,
            Err(error) => {
                return Err(error);
            },
        };
        Ok(
            SnellInbound {
                addr: options.addr,
                psk,
                users,
                mode,
                profile,
                fw_mark: options.fw_mark,
            },
        )
    }

    /// An inbound takes streams.
    pub fn handle_tcp(&self) -> (yes: bool)
        ensures
            yes,
    {
        true
    }

    /// Datagrams travel inside streams: there is no socket for them.
    pub fn handle_udp(&self) -> (yes: bool)
        ensures
            !yes,
    {
        false
    }

    /// What a connection does about the record that has arrived, where `first`
    /// tells whether it is the first of the connection.
    pub fn on_read(&self, first: bool, event: ReadEvent) -> (step: Result<ServeStep, SnellError>)
        requires
            self.wf(),
        ensures
            serve_step_matches(self, first, event, step),
    {
        let record = match event {
            ReadEvent::Record(record) => record,
            ReadEvent::End => {
                return if first {
                    Err(SnellError::RequestIsEof)
                } else {
                    Ok(ServeStep::Close)
                };
            },
            ReadEvent::Cut => {
                return if first {
                    Ok(ServeStep::Fail)
                } else {
                    Ok(ServeStep::Close)
                };
            },
            ReadEvent::Failed => {
                return Ok(ServeStep::Fail);
            },
        };
        let (request, initial_payload) = match parse_request(record) {
            Ok(parsed) => parsed,
            Err(error) => {
                return Err(error);
            },
        };
        let inbound_user = match authenticate_user(
            &self.users,
            request.command,
            request.client_id.as_slice(),
        ) {
            Ok(user) => user,
            Err(error) => {
                return Err(error);
            },
        };
        if request.command == COMMAND_PING {
            Ok(ServeStep::Pong)
        } else if request.command == COMMAND_CONNECT || request.command == COMMAND_CONNECT_V2 {
            match request.destination {
                Some(destination) => Ok(
                    ServeStep::Connect {
                        destination,
                        inbound_user,
                        initial_payload,
                        reusable: request.command == COMMAND_CONNECT_V2,
                    },
                ),
                None => Err(SnellError::MissingDestination),
            }
        } else if request.command == COMMAND_UDP {
            if initial_payload.len() > 0 {
                Err(SnellError::InlineDatagram)
            } else {
                Ok(ServeStep::Udp { inbound_user })
            }
        } else {
            Err(SnellError::UnsupportedCommand(request.command))
        }
    }
}

/// What reading from a client came to.
pub enum ReadEvent {
    Record(Vec<u8>),
    /// The client ended its stream.
    End,
    /// The connection ended in the middle, or was reset.
    Cut,
    /// Reading failed in another way.
    Failed,
}

/// What a connection does next.
#[derive(Debug)]
pub enum ServeStep {
    /// Answer the ping and close.
    Pong,
    /// Relay a stream; go on with the next request where it is reusable.
    Connect {
        destination: SocksAddr,
        inbound_user: Option<String>,
        initial_payload: Vec<u8>,
        reusable: bool,
    },
    /// Relay datagrams until the client is done.
    Udp { inbound_user: Option<String> },
    Close,
    /// Close with the error that reading gave.
    Fail,
}

/// The user that the table knows under `client_id`; none without users.
pub open spec fn user_matches(users: UserTable, client_id: Seq<u8>, user: Option<String>) -> bool {
    if users@.len() == 0 {
        user is None
    } else {
        user is Some && users.name_of(client_id) == Some(user->0@)
    }
}

pub open spec fn user_refused(users: UserTable, client_id: Seq<u8>) -> bool {
    users@.len() > 0 && users.name_of(client_id) is None
}

/// The step that follows from a record that was read.
pub open spec fn record_step_matches(
    users: UserTable,
    record: Seq<u8>,
    step: Result<ServeStep, SnellError>,
) -> bool {
    match request_spec(record) {
        Err(error) => step == Err::<ServeStep, SnellError>(error),
        Ok((request, payload)) => if request.command == COMMAND_PING {
            step == Ok::<ServeStep, SnellError>(ServeStep::Pong)
        } else if user_refused(users, request.client_id) {
            step == Err::<ServeStep, SnellError>(SnellError::UserAuthentication)
        } else if request.command == COMMAND_UDP {
            if payload.len() > 0 {
                step == Err::<ServeStep, SnellError>(SnellError::InlineDatagram)
            } else {
                step matches Ok(ServeStep::Udp { inbound_user }) && user_matches(
                    users,
                    request.client_id,
                    inbound_user,
                )
            }
        } else {
            &&& step matches Ok(
                ServeStep::Connect { destination, inbound_user, initial_payload, reusable },
            )
            &&& request.destination == Some(destination@)
            &&& user_matches(users, request.client_id, inbound_user)
            &&& initial_payload@ == payload
            &&& reusable == (request.command == COMMAND_CONNECT_V2)
        },
    }
}

pub open spec fn serve_step_matches(
    inbound: &SnellInbound,
    first: bool,
    event: ReadEvent,
    step: Result<ServeStep, SnellError>,
) -> bool {
    match event {
        ReadEvent::Record(record) => record_step_matches(inbound.users, record@, step),
        ReadEvent::End => if first {
            step == Err::<ServeStep, SnellError>(SnellError::RequestIsEof)
        } else {
            step == Ok::<ServeStep, SnellError>(ServeStep::Close)
        },
        ReadEvent::Cut => if first {
            step == Ok::<ServeStep, SnellError>(ServeStep::Fail)
        } else {
            step == Ok::<ServeStep, SnellError>(ServeStep::Close)
        },
        ReadEvent::Failed => step == Ok::<ServeStep, SnellError>(ServeStep::Fail),
    }
}

/// How relaying a stream ended.
#[derive(Clone, Copy, Debug, PartialEq, Eq, Structural)]
pub enum RelayOutcome {
    Complete,
    Abort,
}

/// Whether the connection reads another request after a relay.
pub fn goes_on(reusable: bool, outcome: RelayOutcome) -> (more: bool)
    ensures
        more == (reusable && outcome == RelayOutcome::Complete),
{
    reusable && outcome == RelayOutcome::Complete
}

/// A relayed stream between a client and its destination.
#[derive(Clone, Copy)]
pub struct TcpRelay {
    pub reusable: bool,
    pub client_open: bool,
    pub dispatch_open: bool,
    pub reply_written: bool,
}

/// What happened on one of the two sides.
pub enum RelayEvent {
    FromClient(Vec<u8>),
    ClientEnd,
    FromDispatch(Vec<u8>),
    DispatchEnd,
}

/// What is to be done about it.
pub enum RelayAction {
    /// Write to the destination.
    ToDispatch(Vec<u8>),
    /// End the stream to the destination.
    ShutDispatch,
    /// Send to the client.
    ToClient(Vec<u8>),
    /// End the stream to the client.
    EofToClient,
    /// Send to the client, then give the relay up.
    Abort(Vec<u8>),
    /// Stop relaying.
    Finish,
}

impl TcpRelay {
    pub fn new(reusable: bool) -> (relay: Self)
        ensures
            relay == (TcpRelay {
                reusable,
                client_open: true,
                dispatch_open: true,
                reply_written: false,
            }),
    {
        TcpRelay { reusable, client_open: true, dispatch_open: true, reply_written: false }
    }

    /// Whether the relay goes on: one of the sides is still open.
    pub fn is_open(&self) -> (open: bool)
        ensures
            open == (self.client_open || self.dispatch_open),
    {
        self.client_open || self.dispatch_open
    }

    /// What the client gets for `data` from its destination: the first reply
    /// says that the tunnel stands.
    pub open spec fn reply(self, data: Seq<u8>) -> Seq<u8> {
        if self.reply_written {
            data
        } else {
            seq![REPLY_TUNNEL] + data
        }
    }

    /// The relay after an event.
    pub open spec fn after(self, event: RelayEvent) -> TcpRelay {
        match event {
            RelayEvent::FromClient(_) => self,
            RelayEvent::ClientEnd => TcpRelay { client_open: false, ..self },
            RelayEvent::FromDispatch(_) => TcpRelay { reply_written: true, ..self },
            RelayEvent::DispatchEnd => TcpRelay { dispatch_open: false, ..self },
        }
    }

    pub open spec fn action_matches(self, event: RelayEvent, action: RelayAction) -> bool {
        match event {
            RelayEvent::FromClient(data) => action == RelayAction::ToDispatch(data),
            RelayEvent::ClientEnd => action == RelayAction::ShutDispatch,
            RelayEvent::FromDispatch(data) => action matches RelayAction::ToClient(bytes) && bytes@
                == self.reply(data@),
            RelayEvent::DispatchEnd => if !self.reusable {
                action == RelayAction::Finish
            } else if self.reply_written {
                action == RelayAction::EofToClient
            } else {
                action matches RelayAction::Abort(bytes) && bytes@ == remote_eof_spec()
            },
        }
    }

    /// What to do about an event.
    pub fn on_event(&mut self, event: RelayEvent) -> (action: RelayAction)
        ensures
            old(self).action_matches(event, action),
            *final(self) == old(self).after(event),
    {
        match event {
            RelayEvent::FromClient(data) => RelayAction::ToDispatch(data),
            RelayEvent::ClientEnd => {
                self.client_open = false;
                RelayAction::ShutDispatch
            },
            RelayEvent::FromDispatch(data) => {
                if self.reply_written {
                    RelayAction::ToClient(data)
                } else {
                    self.reply_written = true;
                    let mut reply: Vec<u8> = Vec::new();
                    reply.push(REPLY_TUNNEL);
                    reply.extend_from_slice(data.as_slice());
                    assert(reply@ =~= seq![REPLY_TUNNEL] + data@);
                    RelayAction::ToClient(reply)
                }
            },
            RelayEvent::DispatchEnd => {
                self.dispatch_open = false;
                if !self.reusable {
                    RelayAction::Finish
                } else if self.reply_written {
                    RelayAction::EofToClient
                } else {
                    RelayAction::Abort(remote_eof_reply())
                }
            },
        }
    }

    /// The replies to a row of pieces from the destination.
    pub open spec fn replies(self, pieces: Seq<Seq<u8>>) -> Seq<Seq<u8>> {
        Seq::new(
            pieces.len(),
            |i: int|
                if i == 0 {
                    self.reply(pieces[0])
                } else {
                    (TcpRelay { reply_written: true, ..self }).reply(pieces[i])
                },
        )
    }
}

/// However the destination cuts what it sends, the client gets one tunnel
/// reply and then exactly those bytes.
pub proof fn client_gets_one_tunnel_reply(reusable: bool, pieces: Seq<Seq<u8>>)
    requires
        pieces.len() > 0,
    ensures
        ({
            let relay = TcpRelay {
                reusable,
                client_open: true,
                dispatch_open: true,
                reply_written: false,
            };
            flat(relay.replies(pieces)) == seq![REPLY_TUNNEL] + flat(pieces)
        }),
    decreases pieces.len(),
{
    let relay = TcpRelay {
        reusable,
        client_open: true,
        dispatch_open: true,
        reply_written: false,
    };
    let replies = relay.replies(pieces);
    if pieces.len() == 1 {
        assert(replies.drop_last() =~= Seq::<Seq<u8>>::empty());
        assert(pieces.drop_last() =~= Seq::<Seq<u8>>::empty());
        assert(flat(replies) =~= seq![REPLY_TUNNEL] + flat(pieces)) by {
            assert(flat(replies) =~= replies[0]);
            assert(flat(pieces) =~= pieces[0]);
        }
    } else {
        client_gets_one_tunnel_reply(reusable, pieces.drop_last());
        assert(replies.drop_last() =~= relay.replies(pieces.drop_last()));
        assert(flat(replies) =~= seq![REPLY_TUNNEL] + flat(pieces));
    }
}

} // verus!
