//! The inbound itself: its options and its users.

use std::collections::HashMap;
use vstd::prelude::*;
use vstd::string::*;

use crate::config::parts::VlessUserKey;
use crate::net::addr::{IpAddr, SocketAddr};
use crate::text::{chars_of, copy_text, maybe_view};
use crate::vless::error::VlessError;
use crate::vless::ids::{parse_uuid_text, uuid_parsed};

verus! {

broadcast use vstd::std_specs::hash::group_hash_axioms;

/// One who may connect.
#[derive(Clone, Debug)]
pub struct VlessInboundUser {
    pub uuid: String,
    pub name: Option<String>,
}

impl View for VlessInboundUser {
    type V = VlessUserKey;

    open spec fn view(&self) -> VlessUserKey {
        VlessUserKey { uuid: self.uuid@, name: maybe_view(self.name) }
    }
}

pub open spec fn user_views(users: Seq<VlessInboundUser>) -> Seq<VlessUserKey> {
    users.map_values(|user: VlessInboundUser| user@)
}

#[derive(Debug)]
pub struct WsInboundOptions {
    pub path: String,
    pub early_data_header_name: Option<String>,
}

#[derive(Debug)]
pub struct InboundOptions {
    pub addr: SocketAddr,
    pub allow_lan: bool,
    pub fw_mark: Option<u32>,
    pub uuid: Option<String>,
    pub users: Vec<VlessInboundUser>,
    pub ws: WsInboundOptions,
}

/// An inbound that was set up.
pub struct VlessInbound {
    pub addr: SocketAddr,
    pub allow_lan: bool,
    pub fw_mark: Option<u32>,
    pub users: HashMap<u128, Option<String>>,
    pub ws_path: String,
    pub early_data_header_name: Option<String>,
}

/// The names of users by their identifiers.
pub open spec fn names_of(users: Map<u128, Option<String>>) -> Map<u128, Option<Seq<char>>> {
    users.map_values(|name: Option<String>| maybe_view(name))
}

/// Why users cannot be told apart.
pub enum UsersError {
    Bad(Seq<char>, Seq<char>),
    Duplicate(Seq<char>),
}

/// The identifiers of the common user and of the first `count` users, each with
/// its name; the first text that is no identifier, or that repeats one, stands
/// in the way.
pub open spec fn mapped_users(
    uuid: Option<Seq<char>>,
    users: Seq<VlessUserKey>,
    count: int,
) -> Result<Map<u128, Option<Seq<char>>>, UsersError>
    decreases count,
{
    if count <= 0 {
        match uuid {
            None => Ok(Map::empty()),
            Some(text) => match uuid_parsed(text) {
                Err(error) => Err(UsersError::Bad(text, error)),
                Ok(id) => Ok(Map::empty().insert(id, None)),
            },
        }
    } else {
        match mapped_users(uuid, users, count - 1) {
            Err(error) => Err(error),
            Ok(map) => {
                let user = users[count - 1];
                match uuid_parsed(user.uuid) {
                    Err(error) => Err(UsersError::Bad(user.uuid, error)),
                    Ok(id) => if map.contains_key(id) {
                        Err(UsersError::Duplicate(user.uuid))
                    } else {
                        Ok(map.insert(id, user.name))
                    },
                }
            },
        }
    }
}

proof fn first_error_stays(
    uuid: Option<Seq<char>>,
    users: Seq<VlessUserKey>,
    early: int,
    late: int,
)
    requires
        early <= late,
        mapped_users(uuid, users, early) is Err,
    ensures
        mapped_users(uuid, users, late) == mapped_users(uuid, users, early),
    decreases late - early,
{
    if early < late {
        first_error_stays(uuid, users, early, late - 1);
    }
}

/// The error that stands for what is wrong with users.
pub open spec fn is_users_error(error: VlessError, wrong: UsersError) -> bool {
    match wrong {
        UsersError::Bad(text, cause) => {
            &&& error matches VlessError::BadUuid(t, c)
            &&& t@ == text
            &&& c@ == cause
        },
        UsersError::Duplicate(text) => {
            &&& error matches VlessError::DuplicateUuid(t)
            &&& t@ == text
        },
    }
}

fn parse_uuid(uuid: &str) -> (id: Result<u128, VlessError>)
    ensures
        match uuid_parsed(uuid@) {
            Ok(number) => id == Ok::<u128, VlessError>(number),
            Err(cause) => id matches Err(error) && is_users_error(
                error,
                UsersError::Bad(uuid@, cause),
            ),
        },
{
    match parse_uuid_text(uuid) {
        Ok(id) => Ok(id),
        Err(error) => Err(VlessError::BadUuid(uuid.to_owned(), error)),
    }
}

/// The users by their identifiers.
pub fn build_user_map(uuid: Option<String>, users: Vec<VlessInboundUser>) -> (map: Result<
    HashMap<u128, Option<String>>,
    VlessError,
>)
    ensures
        match mapped_users(maybe_view(uuid), user_views(users@), users@.len() as int) {
            Ok(names) => map matches Ok(m) && names_of(m@) == names,
            Err(wrong) => map matches Err(error) && is_users_error(error, wrong),
        },
{
    let ghost keys = user_views(users@);
    let ghost common = maybe_view(uuid);
    let ghost all = mapped_users(common, keys, keys.len() as int);
    let mut map: HashMap<u128, Option<String>> = HashMap::new();
    if let Some(text) = &uuid {
        match parse_uuid(text.as_str()) {
            Ok(id) => {
                map.insert(id, None);
            },
            Err(error) => {
                proof {
                    first_error_stays(common, keys, 0, keys.len() as int);
                }
                return Err(error);
            },
        }
    }
    assert(names_of(map@) =~= mapped_users(common, keys, 0)->Ok_0);
    let mut i: usize = 0;
    while i < users.len()
        invariant
            i <= users@.len(),
            keys == user_views(users@),
            common == maybe_view(uuid),
            mapped_users(common, keys, i as int) == Ok::<
                Map<u128, Option<Seq<char>>>,
                UsersError,
            >(names_of(map@)),
        decreases users@.len() - i,
    {
        assert(keys[i as int] == users@[i as int]@);
        let id: u128 = match parse_uuid(users[i].uuid.as_str()) {
            Ok(id) => id,
            Err(error) => {
                proof {
                    first_error_stays(common, keys, i + 1, keys.len() as int);
                }
                return Err(error);
            },
        };
        let ghost before = map@;
        let name = copy_text(&users[i].name);
        let held = map.insert(id, name);
        if held.is_some() {
            proof {
                first_error_stays(common, keys, i + 1, keys.len() as int);
            }
            return Err(VlessError::DuplicateUuid(users[i].uuid.as_str().to_owned()));
        }
        assert(names_of(map@) =~= names_of(before).insert(id, keys[i as int].name));
        i += 1;
    }
    Ok(map)
}

/// Whether a peer may connect: from anywhere if the network is let in, else
/// from the address that it reached.
pub fn source_allowed(allow_lan: bool, source: SocketAddr, local: SocketAddr) -> (allowed: bool)
    ensures
        allowed == (allow_lan || source.ip == local.ip),
{
    allow_lan || source.ip == local.ip
}

/// What setting an inbound up gives.
pub open spec fn setup_matches(
    opts: InboundOptions,
    made: Result<VlessInbound, VlessError>,
) -> bool {
    let path = opts.ws.path@;
    if path.len() == 0 || path[0] != '/' {
        made matches Err(error) && error == VlessError::Path
    } else {
        match mapped_users(
            maybe_view(opts.uuid),
            user_views(opts.users@),
            opts.users@.len() as int,
        ) {
            Err(wrong) => made matches Err(error) && is_users_error(error, wrong),
            Ok(names) => if opts.uuid is None && opts.users@.len() == 0 {
                made matches Err(error) && error == VlessError::NoUsers
            } else {
                &&& made matches Ok(inbound)
                &&& names_of(inbound.users@) == names
                &&& inbound.addr == opts.addr
                &&& inbound.allow_lan == opts.allow_lan
                &&& inbound.fw_mark == opts.fw_mark
                &&& inbound.ws_path == opts.ws.path
                &&& inbound.early_data_header_name == opts.ws.early_data_header_name
            },
        }
    }
}

/// Users that can be told apart are as many as were configured.
proof fn users_are_kept(uuid: Option<Seq<char>>, users: Seq<VlessUserKey>, count: int)
    requires
        mapped_users(uuid, users, count) is Ok,
        0 <= count,
    ensures
        mapped_users(uuid, users, count)->Ok_0.dom().finite(),
        mapped_users(uuid, users, count)->Ok_0.dom().len() == count + (if uuid is Some {
            1int
        } else {
            0
        }),
    decreases count,
{
    if count > 0 {
        users_are_kept(uuid, users, count - 1);
    }
}

impl VlessInbound {
    /// Checks the options: the path, then the users.
    pub fn new(opts: InboundOptions) -> (made: Result<Self, VlessError>)
        ensures
            setup_matches(opts, made),
    {
        let path = chars_of(opts.ws.path.as_str());
        if path.len() == 0 || path[0] != '/' {
            return Err(VlessError::Path);
        }
        let ghost count = opts.users@.len() as int;
        let ghost common = maybe_view(opts.uuid);
        let ghost keys = user_views(opts.users@);
        let users = match build_user_map(opts.uuid, opts.users) {
            Ok(users) => users,
            Err(error) => {
                return Err(error);
            },
        };
        proof {
            users_are_kept(common, keys, count);
            assert(names_of(users@).dom() =~= users@.dom());
        }
        if users.is_empty() {
            return Err(VlessError::NoUsers);
        }
        Ok(
            Self {
                addr: opts.addr,
                allow_lan: opts.allow_lan,
                fw_mark: opts.fw_mark,
                users,
                ws_path: opts.ws.path,
                early_data_header_name: opts.ws.early_data_header_name,
            },
        )
    }

    /// Whether a peer may connect that reached `local`.
    pub fn admits(&self, source: IpAddr, local: IpAddr) -> (admitted: bool)
        ensures
            admitted == (self.allow_lan || source.canonical() == local.canonical()),
    {
        source_allowed(
            self.allow_lan,
            SocketAddr::new(source.to_canonical(), 0),
            SocketAddr::new(local.to_canonical(), 0),
        )
    }

    pub fn handle_tcp(&self) -> (handles: bool)
        ensures
            handles,
    {
        true
    }

    /// It carries no packets.
    pub fn handle_udp(&self) -> (handles: bool)
        ensures
            !handles,
    {
        false
    }
}

/// No user stands for another: an inbound that was set up knows as many
/// identifiers as there are users.
pub proof fn every_user_counts(uuid: Option<Seq<char>>, users: Seq<VlessUserKey>)
    requires
        mapped_users(uuid, users, users.len() as int) is Ok,
    ensures
        mapped_users(uuid, users, users.len() as int)->Ok_0.dom().len() == users.len() + (
        if uuid is Some {
            1int
        } else {
            0
        }),
{
    users_are_kept(uuid, users, users.len() as int);
}

} // verus!
