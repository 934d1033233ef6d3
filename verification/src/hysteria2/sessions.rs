//! The UDP sessions of a connection.

use bytes::BytesMut;
use std::time::Instant;
use vstd::prelude::*;

use crate::buffer::buffered;
use crate::hysteria2::clock::nanos_since;
use crate::hysteria2::defrag::{fed, frag_model, Defragger, Partial, DEFAULT_TTL_NANOS};
use crate::hysteria2::udp::{packet_spec, HysUdpPacket, PacketModel};
use crate::net::addr::{SocketAddr, SocksAddr, Target};
use crate::net::packet::UdpPacket;
use crate::text::{copy_text, maybe_view};

verus! {

pub const UDP_CHANNEL_SIZE: usize = 64;
pub const MAX_UDP_SESSIONS_PER_CONN: usize = 512;
pub const MAX_UDP_INFLIGHT_PACKETS_PER_SESSION: usize = 64;
pub const MAX_UDP_FRAGMENTS_PER_PACKET: u8 = 64;
/// Two minutes.
pub const UDP_SESSION_IDLE_NANOS: u128 = 120_000_000_000;

/// A session: the fragments that wait for others, and when it was last heard of.
pub struct UdpSessionEntry {
    pub session_id: u32,
    pub defragger: Defragger,
    /// Nanoseconds since the connection began.
    pub last_seen: u128,
}

/// A session as a mathematical value.
#[verifier::ext_equal]
pub struct SessionModel {
    pub session_id: u32,
    pub in_flight: Seq<Partial>,
    pub last_seen: u128,
}

impl View for UdpSessionEntry {
    type V = SessionModel;

    open spec fn view(&self) -> SessionModel {
        SessionModel {
            session_id: self.session_id,
            in_flight: self.defragger.in_flight(),
            last_seen: self.last_seen,
        }
    }
}

impl UdpSessionEntry {
    pub open spec fn wf(&self) -> bool {
        &&& self.defragger.wf()
        &&& self.defragger.max_packets == MAX_UDP_INFLIGHT_PACKETS_PER_SESSION
        &&& self.defragger.max_fragments_per_packet == MAX_UDP_FRAGMENTS_PER_PACKET
        &&& self.defragger.packet_ttl_nanos == DEFAULT_TTL_NANOS
    }
}

pub open spec fn idle_for(session: SessionModel, now: u128) -> int {
    if now >= session.last_seen {
        now - session.last_seen
    } else {
        0
    }
}

/// The sessions that have been heard of within two minutes.
pub open spec fn not_idle(sessions: Seq<SessionModel>, now: u128) -> Seq<SessionModel>
    decreases sessions.len(),
{
    if sessions.len() == 0 {
        Seq::empty()
    } else {
        let front = not_idle(sessions.drop_last(), now);
        if idle_for(sessions.last(), now) < UDP_SESSION_IDLE_NANOS {
            front.push(sessions.last())
        } else {
            front
        }
    }
}

/// Where the first of the sessions that were silent longest lies, among the
/// first `count`.
pub open spec fn longest_silent(sessions: Seq<SessionModel>, count: nat) -> int
    decreases count,
{
    if count <= 1 {
        0
    } else {
        let best = longest_silent(sessions, (count - 1) as nat);
        if sessions[count - 1].last_seen < sessions[best].last_seen {
            count - 1
        } else {
            best
        }
    }
}

pub open spec fn has_session(sessions: Seq<SessionModel>, session_id: u32) -> bool {
    exists|i: int| 0 <= i < sessions.len() && (#[trigger] sessions[i]).session_id == session_id
}

pub open spec fn session_place(sessions: Seq<SessionModel>, session_id: u32) -> int {
    choose|i: int| 0 <= i < sessions.len() && (#[trigger] sessions[i]).session_id == session_id
}

pub open spec fn distinct_sessions(sessions: Seq<SessionModel>) -> bool {
    forall|i: int, j: int|
        0 <= i < j < sessions.len() ==> (#[trigger] sessions[i]).session_id != (
        #[trigger] sessions[j]).session_id
}

/// The sessions with one for `session_id` among them: a new one takes the
/// place of the one that was silent longest where there are too many.
pub open spec fn with_session(sessions: Seq<SessionModel>, session_id: u32, now: u128) -> Seq<
    SessionModel,
> {
    if has_session(sessions, session_id) {
        sessions
    } else {
        let kept = if sessions.len() >= MAX_UDP_SESSIONS_PER_CONN {
            sessions.remove(longest_silent(sessions, sessions.len()))
        } else {
            sessions
        };
        kept.push(SessionModel { session_id, in_flight: Seq::empty(), last_seen: now })
    }
}

/// The session that makes room for one for `session_id`.
pub open spec fn makes_room(sessions: Seq<SessionModel>, session_id: u32) -> Option<u32> {
    if !has_session(sessions, session_id) && sessions.len() >= MAX_UDP_SESSIONS_PER_CONN {
        Some(sessions[longest_silent(sessions, sessions.len())].session_id)
    } else {
        None
    }
}

/// What a packet does to the sessions, and the datagram that it completes.
pub open spec fn received(
    sessions: Seq<SessionModel>,
    packet: PacketModel,
    now: u128,
    fed_at: u128,
) -> (Seq<SessionModel>, Option<PacketModel>) {
    let opened = with_session(sessions, packet.session_id, now);
    let place = session_place(opened, packet.session_id);
    let (in_flight, out) = fed(
        opened[place].in_flight,
        MAX_UDP_INFLIGHT_PACKETS_PER_SESSION,
        MAX_UDP_FRAGMENTS_PER_PACKET,
        DEFAULT_TTL_NANOS,
        packet,
        fed_at,
    );
    (
        opened.update(
            place,
            SessionModel { session_id: packet.session_id, in_flight, last_seen: now },
        ),
        out,
    )
}

/// What a datagram from the client comes to.
pub enum UdpStep {
    /// It is dropped.
    Drop,
    /// It belongs to a session, and may complete a datagram.
    Take {
        session_id: u32,
        /// Where the session goes, if it is new.
        opened: Option<SocksAddr>,
        /// The session that had to make room, if one had to.
        evicted: Option<u32>,
        /// What goes on to the session.
        complete: Option<HysUdpPacket>,
    },
}

pub struct UdpSessions {
    pub entries: Vec<UdpSessionEntry>,
    pub epoch: Instant,
}

impl View for UdpSessions {
    type V = Seq<SessionModel>;

    open spec fn view(&self) -> Seq<SessionModel> {
        self.entries@.map_values(|entry: UdpSessionEntry| entry@)
    }
}

impl UdpSessions {
    /// No session occurs twice, and there are never too many.
    pub open spec fn wf(&self) -> bool {
        &&& distinct_sessions(self@)
        &&& self@.len() <= MAX_UDP_SESSIONS_PER_CONN
        &&& forall|i: int| 0 <= i < self.entries@.len() ==> (#[trigger] self.entries@[i]).wf()
    }

    pub fn new() -> (sessions: Self)
        ensures
            sessions.wf(),
            sessions@ == Seq::<SessionModel>::empty(),
    {
        let sessions = Self { entries: Vec::new(), epoch: Instant::now() };
        assert(sessions@ =~= Seq::<SessionModel>::empty());
        sessions
    }

    fn find(&self, session_id: u32) -> (found: Option<usize>)
        ensures
            match found {
                Some(place) => place < self@.len() && self@[place as int].session_id == session_id,
                None => !has_session(self@, session_id),
            },
    {
        let mut place: usize = 0;
        while place < self.entries.len()
            invariant
                place <= self.entries@.len(),
                forall|i: int| 0 <= i < place ==> (#[trigger] self@[i]).session_id != session_id,
            decreases self.entries@.len() - place,
        {
            assert(self@[place as int] == self.entries@[place as int]@);
            if self.entries[place].session_id == session_id {
                return Some(place);
            }
            place += 1;
        }
        None
    }

    fn drop_oldest_udp_session(&mut self) -> (evicted: u32)
        requires
            old(self).wf(),
            old(self)@.len() > 0,
        ensures
            final(self).wf(),
            final(self)@ == old(self)@.remove(longest_silent(old(self)@, old(self)@.len())),
            final(self)@.len() == old(self)@.len() - 1,
            evicted == old(self)@[longest_silent(old(self)@, old(self)@.len())].session_id,
            final(self).epoch == old(self).epoch,
            forall|id: u32|
                !has_session(old(self)@, id) ==> !(#[trigger] has_session(final(self)@, id)),
    {
        let mut best: usize = 0;
        let mut count: usize = 1;
        while count < self.entries.len()
            invariant
                self.entries@ == old(self).entries@,
                self.epoch == old(self).epoch,
                1 <= count <= self.entries@.len(),
                best < count,
                best == longest_silent(self@, count as nat),
            decreases self.entries@.len() - count,
        {
            assert(self@[count as int] == self.entries@[count as int]@);
            assert(self@[best as int] == self.entries@[best as int]@);
            if self.entries[count].last_seen < self.entries[best].last_seen {
                best = count;
            }
            count += 1;
        }
        let ghost before = self@;
        assert(before[best as int] == self.entries@[best as int]@);
        let evicted: u32 = self.entries[best].session_id;
        self.entries.remove(best);
        proof {
            assert(self@ =~= before.remove(best as int));
            assert forall|i: int, j: int| 0 <= i < j < self@.len() implies (
            #[trigger] self@[i]).session_id != (#[trigger] self@[j]).session_id by {
                let a = if i < best {
                    i
                } else {
                    i + 1
                };
                let b = if j < best {
                    j
                } else {
                    j + 1
                };
                assert(self@[i] == before[a]);
                assert(self@[j] == before[b]);
            }
            assert forall|id: u32| !has_session(before, id) implies !(#[trigger] has_session(
                self@,
                id,
            )) by {
                assert forall|i: int| 0 <= i < self@.len() implies (
                #[trigger] self@[i]).session_id != id by {
                    let a = if i < best {
                        i
                    } else {
                        i + 1
                    };
                    assert(self@[i] == before[a]);
                }
            }
        }
        evicted
    }

    /// Takes a packet in, at the time `now` of the connection.
    pub fn receive(&mut self, packet: HysUdpPacket, now: u128) -> (step: UdpStep)
        requires
            old(self).wf(),
        ensures
            final(self).wf(),
            final(self).epoch == old(self).epoch,
            if packet.frag_count > 64 {
                step is Drop && final(self)@ == old(self)@
            } else {
                &&& step matches UdpStep::Take { session_id, opened, evicted, complete }
                &&& session_id == packet.session_id
                &&& match opened {
                    Some(addr) => addr@ == packet.addr@ && !has_session(
                        old(self)@,
                        packet.session_id,
                    ),
                    None => has_session(old(self)@, packet.session_id),
                }
                &&& evicted == makes_room(old(self)@, packet.session_id)
                &&& exists|fed_at: u128|
                    (final(self)@, frag_model(complete)) == #[trigger] received(
                        old(self)@,
                        packet@,
                        now,
                        fed_at,
                    )
            },
    {
        if packet.frag_count > MAX_UDP_FRAGMENTS_PER_PACKET {
            return UdpStep::Drop;
        }
        let session_id: u32 = packet.session_id;
        let mut opened: Option<SocksAddr> = None;
        let mut evicted: Option<u32> = None;
        let ghost start = self@;
        let place: usize = match self.find(session_id) {
            Some(place) => place,
            None => {
                if self.entries.len() >= MAX_UDP_SESSIONS_PER_CONN {
                    let id: u32 = self.drop_oldest_udp_session();
                    evicted = Some(id);
                }
                let ghost kept = self@;
                let place: usize = self.entries.len();
                let entry = UdpSessionEntry {
                    session_id,
                    defragger: Defragger::new(
                        MAX_UDP_INFLIGHT_PACKETS_PER_SESSION,
                        MAX_UDP_FRAGMENTS_PER_PACKET,
                        DEFAULT_TTL_NANOS,
                    ),
                    last_seen: now,
                };
                assert(entry.wf());
                let ghost before_entries = self.entries@;
                self.entries.push(entry);
                proof {
                    let model = SessionModel {
                        session_id,
                        in_flight: Seq::empty(),
                        last_seen: now,
                    };
                    assert(entry@ =~= model);
                    assert(self@ =~= kept.push(model));
                    assert(!has_session(kept, session_id));
                    assert forall|i: int, j: int| 0 <= i < j < self@.len() implies (
                    #[trigger] self@[i]).session_id != (#[trigger] self@[j]).session_id by {
                        assert(self@[i] == kept[i]);
                        if j < kept.len() {
                            assert(self@[j] == kept[j]);
                        } else {
                            assert(self@[j] == model);
                        }
                    }
                    assert forall|i: int| 0 <= i < self.entries@.len() implies (
                    #[trigger] self.entries@[i]).wf() by {
                        if i < before_entries.len() {
                            assert(self.entries@[i] == before_entries[i]);
                        }
                    }
                    assert(self@[place as int].session_id == session_id);
                }
                opened = Some(packet.addr.clone());
                place
            },
        };
        let ghost held = self@;
        let ghost held_entries = self.entries@;
        proof {
            assert(held == with_session(start, session_id, now));
            assert(held[place as int].session_id == session_id);
            assert(session_place(held, session_id) == place);
            assert(held[place as int] == self.entries@[place as int]@);
        }
        let ghost model = packet@;
        let mut entry = self.entries.remove(place);
        let ghost in_flight = entry.defragger.in_flight();
        entry.last_seen = now;
        let complete = entry.defragger.feed(packet);
        let ghost fed_at = choose|fed_at: u128|
            (entry.defragger.in_flight(), frag_model(complete)) == #[trigger] fed(
                in_flight,
                MAX_UDP_INFLIGHT_PACKETS_PER_SESSION,
                MAX_UDP_FRAGMENTS_PER_PACKET,
                DEFAULT_TTL_NANOS,
                model,
                fed_at,
            );
        self.entries.insert(place, entry);
        proof {
            let updated = SessionModel {
                session_id,
                in_flight: entry.defragger.in_flight(),
                last_seen: now,
            };
            assert(entry@ =~= updated);
            assert(self@ =~= held.update(place as int, updated));
            assert forall|i: int, j: int| 0 <= i < j < self@.len() implies (
            #[trigger] self@[i]).session_id != (#[trigger] self@[j]).session_id by {
                assert(self@[i].session_id == held[i].session_id);
                assert(self@[j].session_id == held[j].session_id);
            }
            assert forall|i: int| 0 <= i < self.entries@.len() implies (
            #[trigger] self.entries@[i]).wf() by {
                if i != place {
                    assert(self.entries@[i] == held_entries[i]);
                }
            }
            assert((self@, frag_model(complete)) == received(start, model, now, fed_at));
        }
        UdpStep::Take { session_id, opened, evicted, complete }
    }

    /// Takes a datagram from the client in, at the present moment.
    pub fn on_datagram(&mut self, buf: &mut BytesMut) -> (step: UdpStep)
        requires
            old(self).wf(),
        ensures
            final(self).wf(),
            final(self).epoch == old(self).epoch,
            match packet_spec(buffered(*old(buf))) {
                Err(_) => step is Drop && final(self)@ == old(self)@,
                Ok(packet) => if packet.frag_count > 64 {
                    step is Drop && final(self)@ == old(self)@
                } else {
                    &&& step matches UdpStep::Take { session_id, opened, evicted, complete }
                    &&& session_id == packet.session_id
                    &&& opened is Some <==> !has_session(old(self)@, packet.session_id)
                    &&& opened matches Some(addr) ==> addr@ == packet.addr
                    &&& evicted == makes_room(old(self)@, packet.session_id)
                    &&& exists|now: u128, fed_at: u128|
                        (final(self)@, frag_model(complete)) == #[trigger] received(
                            old(self)@,
                            packet,
                            now,
                            fed_at,
                        )
                },
            },
    {
        match HysUdpPacket::decode(buf) {
            Err(_) => UdpStep::Drop,
            Ok(packet) => {
                let now: u128 = nanos_since(self.epoch);
                self.receive(packet, now)
            },
        }
    }

    /// Forgets the sessions that have been silent for two minutes.
    pub fn prune_idle(&mut self, now: u128)
        requires
            old(self).wf(),
        ensures
            final(self).wf(),
            final(self).epoch == old(self).epoch,
            final(self)@ == not_idle(old(self)@, now),
    {
        let ghost whole = self@;
        let mut index: usize = 0;
        let ghost mut seen: int = 0;
        assert(whole.take(0) =~= Seq::<SessionModel>::empty());
        assert(self@ =~= not_idle(whole.take(0), now) + whole.skip(0));
        while index < self.entries.len()
            invariant
                self.epoch == old(self).epoch,
                whole == old(self)@,
                0 <= seen <= whole.len(),
                index == not_idle(whole.take(seen), now).len(),
                self@ == not_idle(whole.take(seen), now) + whole.skip(seen),
                index <= self.entries@.len(),
                forall|i: int| 0 <= i < self.entries@.len() ==> (#[trigger] self.entries@[i]).wf(),
            decreases self.entries@.len() - index,
        {
            let last_seen: u128 = self.entries[index].last_seen;
            let silent: u128 = if now >= last_seen {
                now - last_seen
            } else {
                0
            };
            proof {
                assert(self@[index as int] == self.entries@[index as int]@);
                assert(self@[index as int] == whole[seen]);
                assert(whole.take(seen + 1).drop_last() =~= whole.take(seen));
                assert(whole.take(seen + 1).last() == whole[seen]);
            }
            let ghost before = self@;
            if silent < UDP_SESSION_IDLE_NANOS {
                index += 1;
                assert(self@ =~= not_idle(whole.take(seen + 1), now) + whole.skip(seen + 1));
            } else {
                self.entries.remove(index);
                assert(self@ =~= before.remove(index as int));
                assert(self@ =~= not_idle(whole.take(seen + 1), now) + whole.skip(seen + 1));
            }
            proof {
                seen = seen + 1;
            }
        }
        proof {
            assert(whole.skip(seen).len() == 0);
            assert(whole.take(seen) =~= whole);
            not_idle_are_among(whole, now);
        }
    }

    /// Forgets the sessions that have been silent for two minutes, at the
    /// present moment.
    pub fn prune_idle_now(&mut self)
        requires
            old(self).wf(),
        ensures
            final(self).wf(),
            final(self).epoch == old(self).epoch,
            exists|now: u128| final(self)@ == #[trigger] not_idle(old(self)@, now),
    {
        let now: u128 = nanos_since(self.epoch);
        self.prune_idle(now);
    }

    /// Forgets a session whose receiver has gone.
    pub fn remove(&mut self, session_id: u32)
        requires
            old(self).wf(),
        ensures
            final(self).wf(),
            final(self).epoch == old(self).epoch,
            final(self)@ == if has_session(old(self)@, session_id) {
                old(self)@.remove(session_place(old(self)@, session_id))
            } else {
                old(self)@
            },
    {
        let ghost before = self@;
        match self.find(session_id) {
            Some(place) => {
                assert(session_place(before, session_id) == place);
                self.entries.remove(place);
                proof {
                    assert(self@ =~= before.remove(place as int));
                    assert forall|i: int, j: int| 0 <= i < j < self@.len() implies (
                    #[trigger] self@[i]).session_id != (#[trigger] self@[j]).session_id by {
                        let a = if i < place {
                            i
                        } else {
                            i + 1
                        };
                        let b = if j < place {
                            j
                        } else {
                            j + 1
                        };
                        assert(self@[i] == before[a]);
                        assert(self@[j] == before[b]);
                    }
                }
            },
            None => {},
        }
    }
}

proof fn not_idle_are_among(sessions: Seq<SessionModel>, now: u128)
    ensures
        not_idle(sessions, now).len() <= sessions.len(),
        forall|i: int|
            0 <= i < not_idle(sessions, now).len() ==> exists|j: int|
                0 <= j < sessions.len() && #[trigger] not_idle(sessions, now)[i]
                    == #[trigger] sessions[j],
        distinct_sessions(sessions) ==> distinct_sessions(not_idle(sessions, now)),
    decreases sessions.len(),
{
    if sessions.len() > 0 {
        let front = sessions.drop_last();
        let kept_front = not_idle(front, now);
        let kept = not_idle(sessions, now);
        not_idle_are_among(front, now);
        assert forall|i: int| 0 <= i < kept.len() implies exists|j: int|
            0 <= j < sessions.len() && #[trigger] kept[i] == #[trigger] sessions[j] by {
            if i < kept_front.len() {
                let j = choose|j: int|
                    0 <= j < front.len() && #[trigger] kept_front[i] == #[trigger] front[j];
                assert(kept[i] == kept_front[i]);
                assert(sessions[j] == front[j]);
            } else {
                assert(kept[i] == sessions[sessions.len() - 1]);
            }
        }
        if distinct_sessions(sessions) {
            assert(distinct_sessions(front)) by {
                assert forall|i: int, j: int| 0 <= i < j < front.len() implies (
                #[trigger] front[i]).session_id != (#[trigger] front[j]).session_id by {
                    assert(sessions[i] == front[i]);
                    assert(sessions[j] == front[j]);
                }
            }
            assert forall|i: int, j: int| 0 <= i < j < kept.len() implies (
            #[trigger] kept[i]).session_id != (#[trigger] kept[j]).session_id by {
                assert(kept[i] == kept_front[i]);
                if j < kept_front.len() {
                    assert(kept[j] == kept_front[j]);
                } else {
                    let k = choose|k: int|
                        0 <= k < front.len() && #[trigger] kept_front[i] == #[trigger] front[k];
                    assert(sessions[k] == front[k]);
                    assert(kept[j] == sessions[sessions.len() - 1]);
                }
            }
        }
    }
}

/// A datagram from a client, as it goes on to its session.
pub fn incoming_packet(
    packet: HysUdpPacket,
    source: SocketAddr,
    inbound_user: &Option<String>,
) -> (passed: UdpPacket)
    ensures
        passed.data == packet.data,
        passed.src_addr@ == Target::Ip(source),
        passed.dst_addr == packet.addr,
        maybe_view(passed.inbound_user) == maybe_view(*inbound_user),
{
    UdpPacket {
        data: packet.data,
        src_addr: SocksAddr::Ip(source),
        dst_addr: packet.addr,
        inbound_user: copy_text(inbound_user),
    }
}

/// The numbers of the packets that a session sends.
pub struct PacketIds {
    pub next: u32,
}

impl PacketIds {
    pub fn new() -> (ids: Self)
        ensures
            ids.next == 0,
    {
        Self { next: 0 }
    }

    /// The number of the next packet: counts up, and starts over after 65535.
    pub fn take(&mut self) -> (id: u16)
        ensures
            id == old(self).next % 0x1_0000,
            final(self).next == old(self).next.wrapping_add(1),
    {
        let id: u16 = (self.next % 0x1_0000) as u16;
        self.next = self.next.wrapping_add(1);
        id
    }
}

} // verus!
