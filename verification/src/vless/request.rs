//! The request at the front of a connection.

use std::collections::HashMap;
use vstd::prelude::*;
use vstd::string::*;
use vstd::utf8::{decode_utf8, valid_utf8};

use crate::net::addr::{group_of, make_group, IpAddr, SocketAddr, SocksAddr, Target};
use crate::text::{bytes_between, copy_text, maybe_view};
use crate::vless::error::VlessError;

verus! {

broadcast use vstd::std_specs::hash::group_hash_axioms;

pub const VLESS_VERSION: u8 = 0;

pub const VLESS_COMMAND_TCP: u8 = 1;

pub const VLESS_COMMAND_UDP: u8 = 2;

pub const VLESS_COMMAND_MUX: u8 = 3;

pub const VLESS_ADDR_IPV4: u8 = 1;

pub const VLESS_ADDR_DOMAIN: u8 = 2;

pub const VLESS_ADDR_IPV6: u8 = 3;

#[derive(Clone, Copy, Debug, PartialEq, Eq, Structural)]
pub enum VlessCommand {
    Tcp,
    Udp,
    Mux,
}

/// What a client asks for.
#[derive(Debug)]
pub struct VlessRequest {
    pub command: VlessCommand,
    pub destination: SocksAddr,
    pub inbound_user: Option<String>,
}

/// What reading a request has come to.
#[derive(Debug)]
pub enum RequestStep {
    /// So many bytes are to be read before the next look.
    More(usize),
    /// The request, and how many bytes it takes.
    Request(VlessRequest, usize),
    Bad(VlessError),
}

/// A request as a mathematical value.
#[verifier::ext_equal]
pub struct RequestModel {
    pub command: VlessCommand,
    pub destination: Target,
    pub inbound_user: Option<Seq<char>>,
}

/// What the front of an input holds.
#[verifier::ext_equal]
pub enum StepModel {
    More(int),
    Request(RequestModel, int),
    Bad(VlessError),
}

impl View for RequestStep {
    type V = StepModel;

    open spec fn view(&self) -> StepModel {
        match self {
            RequestStep::More(missing) => StepModel::More(*missing as int),
            RequestStep::Request(request, len) => StepModel::Request(
                RequestModel {
                    command: request.command,
                    destination: request.destination@,
                    inbound_user: maybe_view(request.inbound_user),
                },
                *len as int,
            ),
            RequestStep::Bad(error) => StepModel::Bad(*error),
        }
    }
}

/// The number that bytes write, highest byte first.
pub open spec fn number_of(bytes: Seq<u8>) -> nat
    decreases bytes.len(),
{
    if bytes.len() == 0 {
        0
    } else {
        256 * number_of(bytes.drop_last()) + bytes.last() as nat
    }
}

/// 256 to the power of `exponent`.
spec fn power_of_256(exponent: nat) -> nat
    decreases exponent,
{
    if exponent == 0 {
        1
    } else {
        256 * power_of_256((exponent - 1) as nat)
    }
}

proof fn number_fits(bytes: Seq<u8>)
    ensures
        number_of(bytes) < power_of_256(bytes.len()),
    decreases bytes.len(),
{
    if bytes.len() > 0 {
        number_fits(bytes.drop_last());
    }
}

proof fn power_grows(small: nat, large: nat)
    requires
        small <= large,
    ensures
        power_of_256(small) <= power_of_256(large),
    decreases large - small,
{
    if small < large {
        power_grows(small, (large - 1) as nat);
    }
}

/// The identifier in the sixteen bytes at `at`.
fn read_id(input: &[u8], at: usize) -> (id: u128)
    requires
        at + 16 <= input@.len(),
    ensures
        id == number_of(input@.subrange(at as int, at + 16)),
{
    let len: usize = input.len();
    let mut id: u128 = 0;
    let mut i: usize = 0;
    assert(input@.subrange(at as int, at as int) =~= Seq::<u8>::empty());
    while i < 16
        invariant
            i <= 16,
            at + 16 <= len == input@.len(),
            id == number_of(input@.subrange(at as int, at + i)),
        decreases 16 - i,
    {
        let ghost next = input@.subrange(at as int, at + i + 1);
        proof {
            assert(next.drop_last() =~= input@.subrange(at as int, at + i));
            assert(next.last() == input@[at + i]);
            number_fits(next);
            power_grows((i + 1) as nat, 16);
            assert(power_of_256(16) == 0x1_0000_0000_0000_0000_0000_0000_0000_0000) by {
                reveal_with_fuel(power_of_256, 17);
            }
        }
        id = id * 256 + input[at + i] as u128;
        i += 1;
    }
    id
}

/// The destination at `at`, with the position behind it.
pub enum AddressModel {
    More(int),
    Address(Target, int),
    Bad(VlessError),
}

/// The destination at `at`: port, kind, address.
pub open spec fn address_spec(input: Seq<u8>, at: int) -> AddressModel {
    let len = input.len() as int;
    let port = group_of(input[at], input[at + 1]);
    let atyp = input[at + 2];
    if len < at + 2 {
        AddressModel::More(at + 2 - len)
    } else if len < at + 3 {
        AddressModel::More(1)
    } else if atyp == VLESS_ADDR_IPV4 {
        if len < at + 7 {
            AddressModel::More(at + 7 - len)
        } else {
            AddressModel::Address(
                Target::Ip(SocketAddr::new_spec(IpAddr::v4_at(input, at + 3), port)),
                at + 7,
            )
        }
    } else if atyp == VLESS_ADDR_IPV6 {
        if len < at + 19 {
            AddressModel::More(at + 19 - len)
        } else {
            AddressModel::Address(
                Target::Ip(SocketAddr::new_spec(IpAddr::v6_at(input, at + 3), port)),
                at + 19,
            )
        }
    } else if atyp == VLESS_ADDR_DOMAIN {
        let end = at + 4 + input[at + 3];
        let domain = input.subrange(at + 4, end);
        if len < at + 4 {
            AddressModel::More(1)
        } else if input[at + 3] == 0 {
            AddressModel::Bad(VlessError::EmptyDomain)
        } else if len < end {
            AddressModel::More(end - len)
        } else if !valid_utf8(domain) {
            AddressModel::Bad(VlessError::DomainUtf8)
        } else {
            AddressModel::Address(Target::Domain(decode_utf8(domain), port), end)
        }
    } else {
        AddressModel::Bad(VlessError::AddressType(atyp))
    }
}

/// The request at the front of `input`: version, identifier, extras that are
/// passed over, command, destination.
pub open spec fn request_spec(input: Seq<u8>, users: Map<u128, Option<String>>) -> StepModel {
    let len = input.len() as int;
    let id = number_of(input.subrange(1, 17)) as u128;
    let command_at = 18 + input[17];
    let command = input[command_at];
    if len < 1 {
        StepModel::More(1)
    } else if input[0] != VLESS_VERSION {
        StepModel::Bad(VlessError::Version(input[0]))
    } else if len < 17 {
        StepModel::More(17 - len)
    } else if !users.contains_key(id) {
        StepModel::Bad(VlessError::UnknownUser)
    } else if len < 18 {
        StepModel::More(1)
    } else if len < command_at {
        StepModel::More(command_at - len)
    } else if len < command_at + 1 {
        StepModel::More(1)
    } else if command != VLESS_COMMAND_TCP && command != VLESS_COMMAND_UDP && command
        != VLESS_COMMAND_MUX {
        StepModel::Bad(VlessError::Command(command))
    } else {
        match address_spec(input, command_at + 1) {
            AddressModel::More(missing) => StepModel::More(missing),
            AddressModel::Bad(error) => StepModel::Bad(error),
            AddressModel::Address(destination, end) => StepModel::Request(
                RequestModel {
                    command: if command == VLESS_COMMAND_TCP {
                        VlessCommand::Tcp
                    } else if command == VLESS_COMMAND_UDP {
                        VlessCommand::Udp
                    } else {
                        VlessCommand::Mux
                    },
                    destination,
                    inbound_user: maybe_view(users[id]),
                },
                end,
            ),
        }
    }
}

/// What reading a destination has come to.
enum AddressStep {
    More(usize),
    Address(SocksAddr, usize),
    Bad(VlessError),
}

fn read_vless_addr(input: &[u8], at: usize) -> (step: AddressStep)
    requires
        at <= input@.len(),
        at <= 0x1000,
    ensures
        match step {
            AddressStep::More(missing) => address_spec(input@, at as int) == AddressModel::More(
                missing as int,
            ),
            AddressStep::Address(destination, end) => address_spec(input@, at as int)
                == AddressModel::Address(destination@, end as int),
            AddressStep::Bad(error) => address_spec(input@, at as int) == AddressModel::Bad(error),
        },
{
    let len: usize = input.len();
    if len < at + 2 {
        return AddressStep::More(at + 2 - len);
    }
    if len < at + 3 {
        return AddressStep::More(1);
    }
    let port: u16 = make_group(input[at], input[at + 1]);
    let atyp: u8 = input[at + 2];
    if atyp == VLESS_ADDR_IPV4 {
        if len < at + 7 {
            return AddressStep::More(at + 7 - len);
        }
        let ip = IpAddr::read_v4(input, at + 3);
        AddressStep::Address(SocksAddr::Ip(SocketAddr::new(ip, port)), at + 7)
    } else if atyp == VLESS_ADDR_IPV6 {
        if len < at + 19 {
            return AddressStep::More(at + 19 - len);
        }
        let ip = IpAddr::read_v6(input, at + 3);
        AddressStep::Address(SocksAddr::Ip(SocketAddr::new(ip, port)), at + 19)
    } else if atyp == VLESS_ADDR_DOMAIN {
        if len < at + 4 {
            return AddressStep::More(1);
        }
        let domain_len: usize = input[at + 3] as usize;
        if domain_len == 0 {
            return AddressStep::Bad(VlessError::EmptyDomain);
        }
        let end: usize = at + 4 + domain_len;
        if len < end {
            return AddressStep::More(end - len);
        }
        let domain = bytes_between(input, at + 4, end);
        match core::str::from_utf8(domain.as_slice()) {
            Ok(domain) => AddressStep::Address(SocksAddr::Domain(domain.to_owned(), port), end),
            Err(_) => AddressStep::Bad(VlessError::DomainUtf8),
        }
    } else {
        AddressStep::Bad(VlessError::AddressType(atyp))
    }
}

/// Reads the request at the front of `input`, or says how many more bytes it
/// takes to go on.
pub fn read_vless_request(
    input: &[u8],
    users: &HashMap<u128, Option<String>>,
) -> (step: RequestStep)
    ensures
        step@ == request_spec(input@, users@),
{
    let len: usize = input.len();
    if len < 1 {
        return RequestStep::More(1);
    }
    if input[0] != VLESS_VERSION {
        return RequestStep::Bad(VlessError::Version(input[0]));
    }
    if len < 17 {
        return RequestStep::More(17 - len);
    }
    let id: u128 = read_id(input, 1);
    let inbound_user = match users.get(&id) {
        Some(user) => copy_text(user),
        None => {
            return RequestStep::Bad(VlessError::UnknownUser);
        },
    };
    if len < 18 {
        return RequestStep::More(1);
    }
    let command_at: usize = 18 + input[17] as usize;
    if len < command_at {
        return RequestStep::More(command_at - len);
    }
    if len < command_at + 1 {
        return RequestStep::More(1);
    }
    let code: u8 = input[command_at];
    let command = if code == VLESS_COMMAND_TCP {
        VlessCommand::Tcp
    } else if code == VLESS_COMMAND_UDP {
        VlessCommand::Udp
    } else if code == VLESS_COMMAND_MUX {
        VlessCommand::Mux
    } else {
        return RequestStep::Bad(VlessError::Command(code));
    };
    match read_vless_addr(input, command_at + 1) {
        AddressStep::More(missing) => RequestStep::More(missing),
        AddressStep::Bad(error) => RequestStep::Bad(error),
        AddressStep::Address(destination, end) => RequestStep::Request(
            VlessRequest { command, destination, inbound_user },
            end,
        ),
    }
}

/// What a connection is worth.
#[derive(Debug)]
pub enum ServeStep {
    /// Send the reply, then carry the connection to its destination.
    Open { reply: Vec<u8>, destination: SocksAddr, inbound_user: Option<String> },
    Fail(VlessError),
}

/// Only streams are carried: the other commands are refused.
pub fn serve(request: VlessRequest) -> (step: ServeStep)
    ensures
        match request.command {
            VlessCommand::Tcp => {
                &&& step matches ServeStep::Open { reply, destination, inbound_user }
                &&& reply@ == seq![VLESS_VERSION, 0u8]
                &&& destination == request.destination
                &&& inbound_user == request.inbound_user
            },
            VlessCommand::Udp => step == ServeStep::Fail(VlessError::Udp),
            VlessCommand::Mux => step == ServeStep::Fail(VlessError::Mux),
        },
{
    match request.command {
        VlessCommand::Tcp => {
            let mut reply: Vec<u8> = Vec::new();
            reply.push(VLESS_VERSION);
            reply.push(0);
            ServeStep::Open {
                reply,
                destination: request.destination,
                inbound_user: request.inbound_user,
            }
        },
        VlessCommand::Udp => ServeStep::Fail(VlessError::Udp),
        VlessCommand::Mux => ServeStep::Fail(VlessError::Mux),
    }
}

/// Nothing of what follows a request is read with it: while a request is
/// incomplete, the bytes that are asked for belong to it.
pub proof fn only_the_request_is_read(
    input: Seq<u8>,
    rest: Seq<u8>,
    users: Map<u128, Option<String>>,
)
    requires
        request_spec(input, users) is More,
        request_spec(input + rest, users) is Request,
    ensures
        request_spec(input, users)->More_0 > 0,
        input.len() + request_spec(input, users)->More_0 <= request_spec(
            input + rest,
            users,
        )->Request_1,
{
    let whole = input + rest;
    assert(forall|i: int| 0 <= i < input.len() ==> whole[i] == input[i]);
    if input.len() >= 17 {
        assert(whole.subrange(1, 17) =~= input.subrange(1, 17));
    }
}

/// What a request is does not depend on what follows it.
pub proof fn requests_stand_alone(
    input: Seq<u8>,
    rest: Seq<u8>,
    users: Map<u128, Option<String>>,
)
    requires
        !(request_spec(input, users) is More),
    ensures
        request_spec(input + rest, users) == request_spec(input, users),
{
    let whole = input + rest;
    assert(forall|i: int| 0 <= i < input.len() ==> whole[i] == input[i]);
    if input.len() >= 17 {
        assert(whole.subrange(1, 17) =~= input.subrange(1, 17));
        if input.len() >= 18 {
            let at = 19 + input[17];
            let end = at + 4 + input[at + 3];
            if end <= input.len() {
                assert(whole.subrange(at + 4, end) =~= input.subrange(at + 4, end));
            }
        }
    }
}

/// Only a known user gets a request through.
pub proof fn strangers_are_refused(input: Seq<u8>, users: Map<u128, Option<String>>)
    requires
        request_spec(input, users) is Request,
    ensures
        input.len() >= 17,
        users.contains_key(number_of(input.subrange(1, 17)) as u128),
{
}

} // verus!
