//! Whom a VLESS inbound knows, and which handshakes it accepts.

use vstd::prelude::*;
use vstd::utf8::encode_utf8;

use crate::config::parts::VlessUserKey;
use crate::digest::base64url_text;
use crate::text::maybe_view;
use crate::vless::error::VlessError;
use crate::vless::ids::uuid_parsed;
use crate::vless::inbound::{
    mapped_users, names_of, setup_matches, user_views, InboundOptions, UsersError, VlessInbound,
};
use crate::vless::websocket::{verdict_matches, WsVerdict};
use crate::web::{all_visible, is_header_name, visible_text};

verus! {

/// The identifier that a text writes.
pub open spec fn id_of(text: Seq<char>) -> u128 {
    uuid_parsed(text)->Ok_0
}

proof fn users_in_the_map(uuid: Option<Seq<char>>, users: Seq<VlessUserKey>, count: int)
    requires
        0 <= count <= users.len(),
        mapped_users(uuid, users, count) is Ok,
    ensures
        ({
            let map = mapped_users(uuid, users, count)->Ok_0;
            &&& uuid is Some ==> uuid_parsed(uuid->0) is Ok && map.contains_key(id_of(uuid->0))
                && map[id_of(uuid->0)] is None
            &&& forall|i: int|
                0 <= i < count ==> {
                    let id = id_of((#[trigger] users[i]).uuid);
                    &&& uuid_parsed(users[i].uuid) is Ok
                    &&& map.contains_key(id)
                    &&& map[id] == users[i].name
                }
            &&& forall|id: u128| #[trigger]
                map.contains_key(id) ==> (uuid is Some && id == id_of(uuid->0)) || exists|i: int|
                    0 <= i < count && id == id_of((#[trigger] users[i]).uuid)
        }),
    decreases count,
{
    if count > 0 {
        users_in_the_map(uuid, users, count - 1);
        let before = mapped_users(uuid, users, count - 1)->Ok_0;
        let map = mapped_users(uuid, users, count)->Ok_0;
        let own = id_of(users[count - 1].uuid);
        assert(map == before.insert(own, users[count - 1].name));
        assert forall|id: u128| #[trigger] map.contains_key(id) implies (uuid is Some && id
            == id_of(uuid->0)) || exists|i: int|
            0 <= i < count && id == id_of((#[trigger] users[i]).uuid) by {
            if id == own {
                assert(id == id_of(users[count - 1].uuid));
            } else {
                assert(before.contains_key(id));
            }
        }
    }
}

/// Each user is known by the identifier that is configured, under the name that
/// is; the common identifier has no name; and nobody else is known.
pub proof fn users_are_known_by_their_identifiers(
    uuid: Option<Seq<char>>,
    users: Seq<VlessUserKey>,
    i: int,
    id: u128,
)
    requires
        mapped_users(uuid, users, users.len() as int) is Ok,
        0 <= i < users.len(),
    ensures
        ({
            let map = mapped_users(uuid, users, users.len() as int)->Ok_0;
            let own = uuid_parsed(users[i].uuid);
            &&& own is Ok
            &&& map.contains_key(own->Ok_0)
            &&& map[own->Ok_0] == users[i].name
            &&& uuid is Some ==> map.contains_key(id_of(uuid->0)) && map[id_of(uuid->0)] is None
            &&& map.contains_key(id) ==> (uuid is Some && id == id_of(uuid->0)) || exists|j: int|
                0 <= j < users.len() && id == id_of((#[trigger] users[j]).uuid)
        }),
{
    users_in_the_map(uuid, users, users.len() as int);
    assert(id_of(users[i].uuid) == uuid_parsed(users[i].uuid)->Ok_0);
}

/// The first text that is no identifier, or that repeats one, is what is
/// complained of.
pub proof fn bad_identifiers_are_told(
    uuid: Option<Seq<char>>,
    users: Seq<VlessUserKey>,
    at: int,
)
    requires
        0 <= at < users.len(),
        mapped_users(uuid, users, at) is Ok,
        mapped_users(uuid, users, at + 1) is Err,
    ensures
        ({
            let all = mapped_users(uuid, users, users.len() as int);
            let text = users[at].uuid;
            &&& all is Err
            &&& uuid_parsed(text) matches Err(cause) ==> all->Err_0 == UsersError::Bad(text, cause)
            &&& uuid_parsed(text) is Ok ==> all->Err_0 == UsersError::Duplicate(text)
        }),
{
    error_stays(uuid, users, at + 1, users.len() as int);
}

proof fn error_stays(uuid: Option<Seq<char>>, users: Seq<VlessUserKey>, early: int, late: int)
    requires
        early <= late,
        mapped_users(uuid, users, early) is Err,
    ensures
        mapped_users(uuid, users, late) == mapped_users(uuid, users, early),
    decreases late - early,
{
    if early < late {
        error_stays(uuid, users, early, late - 1);
    }
}

/// An inbound is set up as its options say, if its path is absolute, its users
/// can be told apart, and there is one.
pub proof fn inbounds_are_set_up(opts: InboundOptions, made: Result<VlessInbound, VlessError>)
    requires
        setup_matches(opts, made),
    ensures
        ({
            let path = opts.ws.path@;
            let absolute = path.len() > 0 && path[0] == '/';
            let users = mapped_users(
                maybe_view(opts.uuid),
                user_views(opts.users@),
                opts.users@.len() as int,
            );
            let somebody = opts.uuid is Some || opts.users@.len() > 0;
            &&& made is Ok <==> absolute && users is Ok && somebody
            &&& !absolute ==> made == Err::<VlessInbound, VlessError>(VlessError::Path)
            &&& absolute && !somebody ==> made == Err::<VlessInbound, VlessError>(
                VlessError::NoUsers,
            )
            &&& absolute && users is Err ==> match users->Err_0 {
                UsersError::Bad(text, cause) => made matches Err(VlessError::BadUuid(t, c)) && t@
                    == text && c@ == cause,
                UsersError::Duplicate(text) => made matches Err(VlessError::DuplicateUuid(t)) && t@
                    == text,
            }
            &&& made matches Ok(inbound) ==> {
                &&& names_of(inbound.users@) == users->Ok_0
                &&& inbound.addr == opts.addr
                &&& inbound.allow_lan == opts.allow_lan
                &&& inbound.fw_mark == opts.fw_mark
                &&& inbound.ws_path@ == path
                &&& maybe_view(inbound.early_data_header_name) == maybe_view(
                    opts.ws.early_data_header_name,
                )
            }
        }),
{
}

/// A handshake for another path is not found. One for the listener's own path
/// is accepted, with nothing sent ahead, unless it holds the header for early
/// data.
pub proof fn handshakes_go_by_the_path(
    requested: Seq<char>,
    path: Seq<char>,
    name: Option<Seq<char>>,
    value: Option<Seq<u8>>,
    verdict: WsVerdict,
)
    requires
        verdict_matches(requested, path, name, value, verdict),
    ensures
        requested != path <==> verdict is Reject && verdict->status == 404,
        requested != path ==> verdict->body@ == "websocket path not found"@,
        requested == path && (name is None || value is None) ==> {
            &&& verdict matches WsVerdict::Accept { early_data, echo }
            &&& early_data@.len() == 0
            &&& echo is None
        },
{
}

/// Data sent ahead is taken, up to 2048 bytes of it, and its header is sent back
/// if it can be; what is no base64, or longer, is refused.
pub proof fn early_data_is_taken(
    path: Seq<char>,
    name: Seq<char>,
    value: Seq<u8>,
    verdict: WsVerdict,
)
    requires
        verdict_matches(path, path, Some(name), Some(value), verdict),
    ensures
        !all_visible(value) ==> verdict is Reject && verdict->status == 400 && verdict->body@
            == "invalid early data header"@,
        all_visible(value) ==> {
            &&& verdict matches WsVerdict::Accept { early_data, echo } ==> {
                &&& base64url_text(early_data@) == visible_text(value)
                &&& early_data@.len() <= 2048
                &&& echo is Some <==> is_header_name(encode_utf8(name))
                &&& echo is Some ==> echo->0.value@ == visible_text(value)
            }
            &&& verdict is Reject ==> (verdict->status == 400 && verdict->body@
                == "invalid early data encoding"@) || (verdict->status == 413 && verdict->body@
                == "early data too large"@)
            &&& (forall|data: Seq<u8>| #[trigger] base64url_text(data) != visible_text(value))
                ==> verdict is Reject && verdict->status == 400
            &&& verdict is Reject && verdict->status == 413 ==> exists|data: Seq<u8>| #[trigger]
                base64url_text(data) == visible_text(value) && data.len() > 2048
            &&& verdict is Reject && verdict->status == 400 ==> forall|data: Seq<u8>| #[trigger]
                base64url_text(data) != visible_text(value)
        },
{
}

} // verus!
