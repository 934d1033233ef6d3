//! Who may connect, and as whom.

use vstd::prelude::*;

use crate::config::listener::InboundUser;
use crate::net::addr::{IpAddr, SocketAddr};
use crate::text::{ascii_lower_text, copy_text, maybe_view, same_ignoring_case, same_text};
use crate::web::{all_visible, read_visible, visible_text};

verus! {

/// Names by password. No password occurs twice.
pub struct UserMap {
    pub entries: Vec<(String, Option<String>)>,
}

pub open spec fn entry_model(entry: (String, Option<String>)) -> (Seq<char>, Option<Seq<char>>) {
    (entry.0@, maybe_view(entry.1))
}

impl View for UserMap {
    type V = Seq<(Seq<char>, Option<Seq<char>>)>;

    open spec fn view(&self) -> Seq<(Seq<char>, Option<Seq<char>>)> {
        self.entries@.map_values(|entry: (String, Option<String>)| entry_model(entry))
    }
}

impl UserMap {
    pub open spec fn wf(&self) -> bool {
        forall|i: int, j: int|
            0 <= i < j < self@.len() ==> (#[trigger] self@[i]).0 != (#[trigger] self@[j]).0
    }

    pub open spec fn has(&self, password: Seq<char>) -> bool {
        exists|i: int| 0 <= i < self@.len() && (#[trigger] self@[i]).0 == password
    }

    /// The name behind a password; none where the password has no name.
    pub open spec fn name_of(&self, password: Seq<char>) -> Option<Seq<char>> {
        let i = choose|i: int| 0 <= i < self@.len() && (#[trigger] self@[i]).0 == password;
        self@[i].1
    }

    pub fn new() -> (map: Self)
        ensures
            map.wf(),
            map@.len() == 0,
    {
        Self { entries: Vec::new() }
    }

    pub fn len(&self) -> (count: usize)
        ensures
            count == self@.len(),
    {
        self.entries.len()
    }

    fn find(&self, password: &str) -> (found: Option<usize>)
        ensures
            match found {
                Some(i) => i < self@.len() && self@[i as int].0 == password@,
                None => !self.has(password@),
            },
    {
        let mut i: usize = 0;
        while i < self.entries.len()
            invariant
                i <= self.entries@.len(),
                forall|j: int| 0 <= j < i ==> (#[trigger] self@[j]).0 != password@,
            decreases self.entries@.len() - i,
        {
            assert(self@[i as int] == entry_model(self.entries@[i as int]));
            if same_text(self.entries[i].0.as_str(), password) {
                return Some(i);
            }
            i += 1;
        }
        None
    }

    pub fn contains_key(&self, password: &str) -> (found: bool)
        ensures
            found == self.has(password@),
    {
        self.find(password).is_some()
    }

    /// The name that a password stands for, if the password is known.
    pub fn get(&self, password: &str) -> (name: Option<Option<String>>)
        requires
            self.wf(),
        ensures
            match name {
                Some(n) => self.has(password@) && self.name_of(password@) == maybe_view(n),
                None => !self.has(password@),
            },
    {
        match self.find(password) {
            Some(i) => {
                assert(self@[i as int] == entry_model(self.entries@[i as int]));
                proof {
                    let k = choose|k: int|
                        0 <= k < self@.len() && (#[trigger] self@[k]).0 == password@;
                    assert(k == i);
                }
                Some(copy_text(&self.entries[i].1))
            },
            None => None,
        }
    }

    /// Sets the name of a password; a later one replaces an earlier one.
    pub fn insert(&mut self, password: String, name: Option<String>)
        requires
            old(self).wf(),
        ensures
            final(self).wf(),
            final(self).has(password@),
            final(self).name_of(password@) == maybe_view(name),
            forall|other: Seq<char>|
                #![trigger final(self).has(other)]
                other != password@ ==> final(self).has(other) == old(self).has(other) && (old(
                    self,
                ).has(other) ==> final(self).name_of(other) == old(self).name_of(other)),
            final(self)@.len() == old(self)@.len() + if old(self).has(password@) {
                0int
            } else {
                1
            },
    {
        let ghost before = *self;
        let ghost key = password@;
        let ghost value = maybe_view(name);
        match self.find(password.as_str()) {
            Some(i) => {
                self.entries.set(i, (password, name));
                proof {
                    assert(self@ =~= before@.update(i as int, (key, value)));
                    updated(before, *self, i as int, key, value);
                }
            },
            None => {
                self.entries.push((password, name));
                proof {
                    assert(self@ =~= before@.push((key, value)));
                    pushed(before, *self, key, value);
                }
            },
        }
    }
}

proof fn updated(
    before: UserMap,
    after: UserMap,
    at: int,
    key: Seq<char>,
    value: Option<Seq<char>>,
)
    requires
        before.wf(),
        0 <= at < before@.len(),
        before@[at].0 == key,
        after@ == before@.update(at, (key, value)),
    ensures
        after.wf(),
        after.has(key),
        after.name_of(key) == value,
        forall|other: Seq<char>|
            #![trigger after.has(other)]
            other != key ==> after.has(other) == before.has(other) && (before.has(other)
                ==> after.name_of(other) == before.name_of(other)),
{
    assert forall|i: int, j: int| 0 <= i < j < after@.len() implies (#[trigger] after@[i]).0 != (
    #[trigger] after@[j]).0 by {
        assert(after@[i].0 == before@[i].0);
        assert(after@[j].0 == before@[j].0);
    }
    assert(after@[at].0 == key);
    names_are_found(after, at);
    assert forall|other: Seq<char>|
        #![trigger after.has(other)]
        other != key implies after.has(other) == before.has(other) && (before.has(other)
        ==> after.name_of(other) == before.name_of(other)) by {
        if before.has(other) {
            let i = choose|i: int| 0 <= i < before@.len() && (#[trigger] before@[i]).0 == other;
            assert(after@[i] == before@[i]);
            names_are_found(after, i);
            names_are_found(before, i);
        }
        if after.has(other) {
            let i = choose|i: int| 0 <= i < after@.len() && (#[trigger] after@[i]).0 == other;
            assert(after@[i] == before@[i]);
        }
    }
}

proof fn pushed(before: UserMap, after: UserMap, key: Seq<char>, value: Option<Seq<char>>)
    requires
        before.wf(),
        !before.has(key),
        after@ == before@.push((key, value)),
    ensures
        after.wf(),
        after.has(key),
        after.name_of(key) == value,
        forall|other: Seq<char>|
            #![trigger after.has(other)]
            other != key ==> after.has(other) == before.has(other) && (before.has(other)
                ==> after.name_of(other) == before.name_of(other)),
{
    let last = before@.len() as int;
    assert forall|i: int, j: int| 0 <= i < j < after@.len() implies (#[trigger] after@[i]).0 != (
    #[trigger] after@[j]).0 by {
        assert(after@[i] == before@[i]);
        if j < last {
            assert(after@[j] == before@[j]);
        }
    }
    assert(after@[last].0 == key);
    names_are_found(after, last);
    assert forall|other: Seq<char>|
        #![trigger after.has(other)]
        other != key implies after.has(other) == before.has(other) && (before.has(other)
        ==> after.name_of(other) == before.name_of(other)) by {
        if before.has(other) {
            let i = choose|i: int| 0 <= i < before@.len() && (#[trigger] before@[i]).0 == other;
            assert(after@[i] == before@[i]);
            names_are_found(after, i);
            names_are_found(before, i);
        }
        if after.has(other) {
            let i = choose|i: int| 0 <= i < after@.len() && (#[trigger] after@[i]).0 == other;
            assert(after@[i] == before@[i]);
        }
    }
}

proof fn names_are_found(map: UserMap, at: int)
    requires
        map.wf(),
        0 <= at < map@.len(),
    ensures
        map.has(map@[at].0),
        map.name_of(map@[at].0) == map@[at].1,
{
    let key = map@[at].0;
    let i = choose|i: int| 0 <= i < map@.len() && (#[trigger] map@[i]).0 == key;
    assert(i == at);
}

/// The last of the first `count` users with a password.
pub open spec fn last_with(users: Seq<InboundUser>, password: Seq<char>, count: int) -> Option<
    Seq<char>,
>
    decreases count,
{
    if count <= 0 {
        None
    } else if users[count - 1].password@ == password {
        Some(users[count - 1].name@)
    } else {
        last_with(users, password, count - 1)
    }
}

/// The passwords that let a client in: those of the users, each with the name
/// of its last user; without users the fallback password, unless it is empty.
pub open spec fn is_user_map(
    map: UserMap,
    users: Seq<InboundUser>,
    fallback_password: Seq<char>,
) -> bool {
    if users.len() == 0 {
        forall|password: Seq<char>|
            #![trigger map.has(password)]
            map.has(password) == (password == fallback_password && fallback_password.len() > 0) && (
            map.has(password) ==> map.name_of(password) is None)
    } else {
        maps_first(map, users, users.len() as int)
    }
}

pub open spec fn maps_first(map: UserMap, users: Seq<InboundUser>, count: int) -> bool {
    forall|password: Seq<char>|
        #![trigger map.has(password)]
        map.has(password) == (last_with(users, password, count) is Some) && (map.has(password)
            ==> map.name_of(password) == last_with(users, password, count))
}

pub fn build_user_map(users: &[InboundUser], fallback_password: &str) -> (map: UserMap)
    ensures
        map.wf(),
        is_user_map(map, users@, fallback_password@),
{
    let mut map = UserMap::new();
    if users.len() == 0 {
        if !fallback_password.is_empty() {
            map.insert(fallback_password.to_owned(), None);
        }
        return map;
    }
    let mut i: usize = 0;
    while i < users.len()
        invariant
            i <= users@.len(),
            map.wf(),
            maps_first(map, users@, i as int),
        decreases users@.len() - i,
    {
        let ghost before = map;
        map.insert(users[i].password.clone(), Some(users[i].name.clone()));
        proof {
            assert forall|password: Seq<char>|
                #![trigger map.has(password)]
                map.has(password) == (last_with(users@, password, i + 1) is Some) && (map.has(
                    password,
                ) ==> map.name_of(password) == last_with(users@, password, i + 1)) by {
                assert(before.has(password) == (last_with(users@, password, i as int) is Some));
            }
        }
        i += 1;
    }
    map
}

/// Whether a client may connect: from anywhere if the network is let in, else
/// from the listener's own address, or from the loopback where the listener is
/// bound to all addresses.
pub open spec fn source_allowed_spec(
    allow_lan: bool,
    source: SocketAddr,
    local_ip: IpAddr,
) -> bool {
    ||| allow_lan
    ||| source.ip == local_ip
    ||| local_ip.is_unspecified_spec() && source.ip.is_loopback_spec()
}

pub fn source_allowed(allow_lan: bool, source: SocketAddr, local_ip: IpAddr) -> (allowed: bool)
    ensures
        allowed == source_allowed_spec(allow_lan, source, local_ip),
{
    allow_lan || source.ip == local_ip || (local_ip.is_unspecified() && source.ip.is_loopback())
}

/// The head of an HTTP request.
#[derive(Debug)]
pub struct RequestHead {
    pub method: String,
    pub path: String,
    pub query: Option<String>,
    pub authority: Option<String>,
    pub headers: Vec<(String, Vec<u8>)>,
}

/// A POST to `/auth` on the host `hysteria`, in any case.
pub open spec fn is_auth_request_spec(request: RequestHead) -> bool {
    &&& request.method@ == "POST"@
    &&& request.path@ == "/auth"@
    &&& request.authority is Some
    &&& ascii_lower_text(request.authority->0@) == ascii_lower_text("hysteria"@)
}

pub fn is_hysteria_auth_request(request: &RequestHead) -> (yes: bool)
    ensures
        yes == is_auth_request_spec(*request),
{
    if !same_text(request.method.as_str(), "POST") || !same_text(request.path.as_str(), "/auth") {
        return false;
    }
    match &request.authority {
        Some(authority) => same_ignoring_case(authority.as_str(), "hysteria"),
        None => false,
    }
}

/// What an opening request comes to.
#[derive(Debug)]
pub enum AuthVerdict {
    /// It does not ask to be let in: answer it like any web server would.
    NotAuth,
    /// It asks with a wrong password or none: answer it in the same way.
    Refused,
    /// It is let in, as this user.
    Accepted(Option<String>),
}

/// The value of the first header with a name, in any case.
pub open spec fn first_header(headers: Seq<(String, Vec<u8>)>, name: Seq<char>) -> Option<Seq<u8>>
    decreases headers.len(),
{
    if headers.len() == 0 {
        None
    } else if ascii_lower_text(headers[0].0@) == ascii_lower_text(name) {
        Some(headers[0].1@)
    } else {
        first_header(headers.drop_first(), name)
    }
}

fn find_header(headers: &Vec<(String, Vec<u8>)>, name: &str) -> (found: Option<usize>)
    ensures
        match found {
            Some(i) => i < headers@.len() && first_header(headers@, name@) == Some(
                headers@[i as int].1@,
            ),
            None => first_header(headers@, name@) is None,
        },
{
    let mut i: usize = 0;
    assert(headers@.skip(0) =~= headers@);
    while i < headers.len()
        invariant
            i <= headers@.len(),
            first_header(headers@, name@) == first_header(headers@.skip(i as int), name@),
        decreases headers@.len() - i,
    {
        assert(headers@.skip(i as int)[0] == headers@[i as int]);
        assert(headers@.skip(i as int).drop_first() =~= headers@.skip(i + 1));
        if same_ignoring_case(headers[i].0.as_str(), name) {
            return Some(i);
        }
        i += 1;
    }
    None
}

/// The password that a request brings: its first `Hysteria-Auth` header, if
/// that is visible text.
pub open spec fn password_of(request: RequestHead) -> Option<Seq<char>> {
    match first_header(request.headers@, "hysteria-auth"@) {
        Some(value) => if all_visible(value) {
            Some(visible_text(value))
        } else {
            None
        },
        None => None,
    }
}

fn read_password(request: &RequestHead) -> (password: Option<String>)
    ensures
        maybe_view(password) == password_of(*request),
{
    match find_header(&request.headers, "hysteria-auth") {
        Some(i) => read_visible(request.headers[i].1.as_slice()),
        None => None,
    }
}

/// Judges an opening request.
pub fn judge_auth(request: &RequestHead, users: &UserMap) -> (verdict: AuthVerdict)
    requires
        users.wf(),
    ensures
        match verdict {
            AuthVerdict::NotAuth => !is_auth_request_spec(*request),
            AuthVerdict::Refused => is_auth_request_spec(*request) && (password_of(
                *request,
            ) is None || !users.has(password_of(*request)->0)),
            AuthVerdict::Accepted(user) => {
                &&& is_auth_request_spec(*request)
                &&& password_of(*request) is Some
                &&& users.has(password_of(*request)->0)
                &&& maybe_view(user) == users.name_of(password_of(*request)->0)
            },
        },
{
    if !is_hysteria_auth_request(request) {
        return AuthVerdict::NotAuth;
    }
    match read_password(request) {
        None => AuthVerdict::Refused,
        Some(password) => match users.get(password.as_str()) {
            Some(user) => AuthVerdict::Accepted(user),
            None => AuthVerdict::Refused,
        },
    }
}

/// Whom the passwords let in is fixed by the user list alone: with users, the
/// fallback password opens nothing of its own.
pub proof fn fallback_only_without_users(
    map: UserMap,
    users: Seq<InboundUser>,
    fallback_password: Seq<char>,
)
    requires
        is_user_map(map, users, fallback_password),
        users.len() > 0,
        forall|i: int|
            0 <= i < users.len() ==> (#[trigger] users[i]).password@ != fallback_password,
    ensures
        !map.has(fallback_password),
{
    nobody_with(users, fallback_password, users.len() as int);
}

proof fn nobody_with(users: Seq<InboundUser>, password: Seq<char>, count: int)
    requires
        0 <= count <= users.len(),
        forall|i: int| 0 <= i < users.len() ==> (#[trigger] users[i]).password@ != password,
    ensures
        last_with(users, password, count) is None,
    decreases count,
{
    if count > 0 {
        nobody_with(users, password, count - 1);
    }
}

} // verus!
