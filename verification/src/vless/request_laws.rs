//! What requests look like on the wire.

use vstd::prelude::*;
use vstd::utf8::*;

use crate::net::addr::{SocketAddr, Target};
use crate::net::wire::{address_octets, addresses_are_read_from_their_octets, two_bytes};
use crate::vless::error::VlessError;
use crate::vless::request::{
    address_spec, number_of, request_spec, AddressModel, RequestModel, StepModel, VlessCommand,
};

verus! {

/// A destination: its port, then its kind and its bytes. A four-byte address is
/// of kind one, a name of kind two with its length in front, and an address of
/// sixteen bytes of kind three.
pub open spec fn destination_wire(destination: Target) -> Seq<u8> {
    match destination {
        Target::Ip(addr) => two_bytes(addr.port) + seq![
            if addr.ip is V4 {
                1u8
            } else {
                3u8
            },
        ] + address_octets(addr.ip),
        Target::Domain(host, port) => two_bytes(port) + seq![2u8, encode_utf8(host).len() as u8]
            + encode_utf8(host),
    }
}

/// What a destination on the wire can be: a plain address, or a name of 1 to
/// 255 bytes.
pub open spec fn can_travel(destination: Target) -> bool {
    match destination {
        Target::Ip(addr) => addr.flowinfo == 0 && addr.scope_id == 0,
        Target::Domain(host, _) => 1 <= encode_utf8(host).len() <= 255,
    }
}

/// A request: a zero, the sixteen bytes of the identifier, the addons with
/// their length in front, the command and the destination.
pub open spec fn request_wire(
    id: Seq<u8>,
    addons: Seq<u8>,
    command: u8,
    destination: Target,
) -> Seq<u8> {
    seq![0u8] + id + seq![addons.len() as u8] + addons + seq![command] + destination_wire(
        destination,
    )
}

pub open spec fn command_of(code: u8) -> VlessCommand {
    if code == 1 {
        VlessCommand::Tcp
    } else if code == 2 {
        VlessCommand::Udp
    } else {
        VlessCommand::Mux
    }
}

proof fn destinations_are_read(front: Seq<u8>, destination: Target, rest: Seq<u8>)
    requires
        can_travel(destination),
    ensures
        address_spec(front + destination_wire(destination) + rest, front.len() as int)
            == AddressModel::Address(
            destination,
            (front.len() + destination_wire(destination).len()) as int,
        ),
{
    let wire = destination_wire(destination);
    let input = front + wire + rest;
    let at = front.len() as int;
    assert(input[at] == wire[0]);
    assert(input[at + 1] == wire[1]);
    assert(input[at + 2] == wire[2]);
    match destination {
        Target::Ip(addr) => {
            let longer = front + wire.take(3);
            addresses_are_read_from_their_octets(addr.ip, longer, rest);
            assert(input =~= longer + address_octets(addr.ip) + rest);
            assert(address_octets(addr.ip).len() == if addr.ip is V4 { 4int } else { 16 });
        },
        Target::Domain(host, port) => {
            let bytes = encode_utf8(host);
            encode_utf8_valid_utf8(host);
            encode_utf8_decode_utf8(host);
            assert(input[at + 3] == wire[3]);
            assert(input.subrange(at + 4, at + 4 + bytes.len()) =~= bytes);
        },
    }
}

/// A request is read as it was written, whatever its addons are and whatever
/// follows it, and served as the user that the table holds for its identifier.
pub proof fn requests_are_read(
    id: Seq<u8>,
    addons: Seq<u8>,
    command: u8,
    destination: Target,
    rest: Seq<u8>,
    users: Map<u128, Option<String>>,
)
    requires
        id.len() == 16,
        addons.len() <= 255,
        1 <= command <= 3,
        can_travel(destination),
        users.contains_key(number_of(id) as u128),
    ensures
        request_spec(request_wire(id, addons, command, destination) + rest, users)
            == StepModel::Request(
            RequestModel {
                command: command_of(command),
                destination,
                inbound_user: match users[number_of(id) as u128] {
                    Some(name) => Some(name@),
                    None => None,
                },
            },
            (19 + addons.len() + destination_wire(destination).len()) as int,
        ),
{
    let front = seq![0u8] + id + seq![addons.len() as u8] + addons + seq![command];
    let input = request_wire(id, addons, command, destination) + rest;
    assert(input =~= front + destination_wire(destination) + rest);
    assert(input.subrange(1, 17) =~= id);
    assert(input[17] == addons.len() as u8);
    assert(input[18 + addons.len() as int] == command);
    destinations_are_read(front, destination, rest);
}

/// Whenever a request is read, its user is the one whom the table names for the
/// sixteen bytes behind the version, its command is one of the three, and it
/// ends within the input.
pub proof fn requests_name_their_users(input: Seq<u8>, users: Map<u128, Option<String>>)
    requires
        request_spec(input, users) is Request,
    ensures
        ({
            let id = number_of(input.subrange(1, 17)) as u128;
            let request = request_spec(input, users)->Request_0;
            let len = request_spec(input, users)->Request_1;
            let code = input[18 + input[17]];
            &&& input[0] == 0
            &&& users.contains_key(id)
            &&& users[id] is Some ==> request.inbound_user == Some(users[id]->0@)
            &&& users[id] is None ==> request.inbound_user is None
            &&& code == 1 || code == 2 || code == 3
            &&& request.command is Tcp <==> code == 1
            &&& request.command is Udp <==> code == 2
            &&& request.command is Mux <==> code == 3
            &&& 22 + input[17] < len <= input.len()
        }),
{
}

/// Addons change nothing: two requests that differ in them alone ask for the
/// same, as the same user.
pub proof fn addons_are_passed_over(
    front: Seq<u8>,
    addons: Seq<u8>,
    other: Seq<u8>,
    rest: Seq<u8>,
    users: Map<u128, Option<String>>,
)
    requires
        front.len() == 17,
        addons.len() <= 255,
        other.len() <= 255,
    ensures
        ({
            let one = request_spec(front + seq![addons.len() as u8] + addons + rest, users);
            let two = request_spec(front + seq![other.len() as u8] + other + rest, users);
            match one {
                StepModel::Request(request, len) => two == StepModel::Request(
                    request,
                    len - addons.len() + other.len(),
                ),
                StepModel::More(missing) => two == StepModel::More(missing),
                StepModel::Bad(error) => two == StepModel::Bad(error),
            }
        }),
{
    let one = front + seq![addons.len() as u8] + addons + rest;
    let two = front + seq![other.len() as u8] + other + rest;
    assert(one.subrange(1, 17) =~= two.subrange(1, 17));
    assert(one[0] == two[0]);
    assert(one[17] == addons.len() as u8);
    assert(two[17] == other.len() as u8);
    let a = 18 + addons.len() as int;
    let b = 18 + other.len() as int;
    assert forall|i: int| 0 <= i < rest.len() implies #[trigger] one[a + i] == rest[i] && two[b + i]
        == rest[i] by {}
    if rest.len() > 0 {
        assert(one[a + 0] == rest[0]);
    }
    if rest.len() > 1 {
        assert(one[a + 1] == rest[1]);
    }
    if rest.len() > 2 {
        assert(one[a + 2] == rest[2]);
    }
    if rest.len() > 3 {
        assert(one[a + 3] == rest[3]);
        if rest[3] == 1 && rest.len() >= 8 {
            assert(one[a + 4] == rest[4]);
            assert(one[a + 5] == rest[5]);
            assert(one[a + 6] == rest[6]);
            assert(one[a + 7] == rest[7]);
        }
        if rest[3] == 3 && rest.len() >= 20 {
            let x = one.subrange(a + 4, a + 20);
            assert(x =~= two.subrange(b + 4, b + 20)) by {
                assert forall|i: int| 0 <= i < 16 implies #[trigger] one[a + 4 + i] == two[b + 4 + i] by {
                    assert(one[a + (4 + i)] == rest[4 + i]);
                }
            }
            assert forall|i: int| 0 <= i < 16 implies #[trigger] one[a + 4 + i] == x[i] && two[b + 4
                + i] == x[i] by {}
        }
    }
    if rest.len() > 4 {
        assert(one[a + 4] == rest[4]);
        let end = 5 + rest[4];
        if rest.len() >= end {
            assert(one.subrange(a + 5, a + end) =~= two.subrange(b + 5, b + end)) by {
                assert forall|i: int| 0 <= i < rest[4] implies #[trigger] one[a + 5 + i] == two[b + 5 + i] by {
                    assert(one[a + (5 + i)] == rest[5 + i]);
                }
            }
        }
    }
}

/// Identifiers are numbers of sixteen bytes, the highest first.
pub proof fn identifiers_are_numbers(high: Seq<u8>, low: Seq<u8>)
    requires
        high.len() == 8,
        low.len() == 8,
    ensures
        number_of(high + low) == 0x1_0000_0000_0000_0000 * number_of(high) + number_of(low),
        number_of(high) == 0x100_0000_0000_0000 * high[0] + 0x1_0000_0000_0000 * high[1]
            + 0x100_0000_0000 * high[2] + 0x1_0000_0000 * high[3] + 0x100_0000 * high[4] + 0x1_0000
            * high[5] + 0x100 * high[6] + high[7],
{
    numbers_are_joined(high, low);
    reveal_with_fuel(number_of, 9);
}

spec fn shifted(value: nat, bytes: nat) -> nat
    decreases bytes,
{
    if bytes == 0 {
        value
    } else {
        256 * shifted(value, (bytes - 1) as nat)
    }
}

proof fn numbers_are_joined(high: Seq<u8>, low: Seq<u8>)
    requires
        low.len() <= 8,
    ensures
        number_of(high + low) == shifted(number_of(high), low.len()) + number_of(low),
        low.len() == 8 ==> shifted(number_of(high), 8) == 0x1_0000_0000_0000_0000 * number_of(high),
    decreases low.len(),
{
    reveal_with_fuel(shifted, 9);
    if low.len() == 0 {
        assert(high + low =~= high);
    } else {
        numbers_are_joined(high, low.drop_last());
        assert((high + low).drop_last() =~= high + low.drop_last());
        assert((high + low).last() == low.last());
    }
}

/// What is refused: another version, an identifier that the table does not
/// hold, another command, another kind of address and a name without a byte.
pub proof fn other_inputs_are_refused(
    id: Seq<u8>,
    addons: Seq<u8>,
    rest: Seq<u8>,
    users: Map<u128, Option<String>>,
)
    requires
        id.len() == 16,
        addons.len() <= 255,
    ensures
        forall|version: u8|
            version != 0 ==> #[trigger] request_spec(seq![version] + rest, users) == StepModel::Bad(
                VlessError::Version(version),
            ),
        !users.contains_key(number_of(id) as u128) ==> request_spec(
            seq![0u8] + id + rest,
            users,
        ) == StepModel::Bad(VlessError::UnknownUser),
        users.contains_key(number_of(id) as u128) ==> {
            let step = request_spec(
                seq![0u8] + id + seq![addons.len() as u8] + addons + rest,
                users,
            );
            let known = rest.len() > 0 && 1 <= rest[0] <= 3;
            &&& rest.len() == 0 ==> step == StepModel::More(1)
            &&& rest.len() > 0 && !known ==> step == StepModel::Bad(VlessError::Command(rest[0]))
            &&& known && rest.len() > 3 && (rest[3] == 0 || rest[3] > 3) ==> step == StepModel::Bad(
                VlessError::AddressType(rest[3]),
            )
            &&& known && rest.len() > 4 && rest[3] == 2 && rest[4] == 0 ==> step == StepModel::Bad(
                VlessError::EmptyDomain,
            )
        },
{
    assert forall|version: u8| version != 0 implies #[trigger] request_spec(
        seq![version] + rest,
        users,
    ) == StepModel::Bad(VlessError::Version(version)) by {
        assert((seq![version] + rest)[0] == version);
    }
    let short = seq![0u8] + id + rest;
    assert(short.subrange(1, 17) =~= id);
    let input = seq![0u8] + id + seq![addons.len() as u8] + addons + rest;
    assert(input.subrange(1, 17) =~= id);
    assert(input[17] == addons.len() as u8);
    let a = 18 + addons.len() as int;
    if rest.len() > 0 {
        assert(input[a] == rest[0]);
    }
    if rest.len() > 3 {
        assert(input[a + 3] == rest[3]);
    }
    if rest.len() > 4 {
        assert(input[a + 4] == rest[4]);
    }
}

} // verus!
