//! Which sessions and datagrams are kept, and which make room.

use vstd::prelude::*;

use crate::hysteria2::defrag::{
    distinct_ids, fed, holds, oldest, unexpired, with_room, without_oldest, Partial,
};
use crate::hysteria2::sessions::{
    distinct_sessions, has_session, longest_silent, makes_room, not_idle, received, session_place,
    with_session, SessionModel,
};
use crate::hysteria2::udp::PacketModel;

verus! {

/// Sessions that were heard of within the last two minutes are kept, in their
/// order; the others are forgotten. The clock counts nanoseconds.
pub proof fn silent_sessions_are_forgotten(sessions: Seq<SessionModel>, now: u128)
    ensures
        not_idle(sessions, now) == sessions.filter(
            |session: SessionModel| now < session.last_seen + 120_000_000_000,
        ),
    decreases sessions.len(),
{
    reveal(Seq::filter);
    if sessions.len() > 0 {
        silent_sessions_are_forgotten(sessions.drop_last(), now);
    }
}

/// Datagrams that are younger than the limit are kept, in their order; the
/// others are forgotten.
pub proof fn old_datagrams_are_forgotten(partials: Seq<Partial>, now: u128, ttl: u128)
    ensures
        ttl > 0 ==> unexpired(partials, now, ttl) == partials.filter(
            |partial: Partial| now < partial.created_at + ttl,
        ),
        ttl == 0 ==> unexpired(partials, now, ttl).len() == 0,
    decreases partials.len(),
{
    reveal(Seq::filter);
    if partials.len() > 0 {
        old_datagrams_are_forgotten(partials.drop_last(), now, ttl);
    }
}

proof fn silent_longest(sessions: Seq<SessionModel>, count: nat)
    requires
        1 <= count <= sessions.len(),
    ensures
        0 <= longest_silent(sessions, count) < count,
        forall|i: int|
            0 <= i < count ==> sessions[longest_silent(sessions, count)].last_seen <= (
            #[trigger] sessions[i]).last_seen,
        forall|i: int|
            0 <= i < longest_silent(sessions, count) ==> sessions[longest_silent(
                sessions,
                count,
            )].last_seen < (#[trigger] sessions[i]).last_seen,
    decreases count,
{
    if count > 1 {
        silent_longest(sessions, (count - 1) as nat);
    }
}

/// The session that makes room for a new one is the first of those that were
/// heard of least recently. It makes room if and only if 512 are there.
pub proof fn the_most_silent_session_makes_room(
    sessions: Seq<SessionModel>,
    session_id: u32,
    now: u128,
)
    requires
        distinct_sessions(sessions),
    ensures
        has_session(sessions, session_id) ==> {
            &&& with_session(sessions, session_id, now) == sessions
            &&& makes_room(sessions, session_id) is None
        },
        !has_session(sessions, session_id) && sessions.len() < 512 ==> {
            let held = with_session(sessions, session_id, now);
            &&& makes_room(sessions, session_id) is None
            &&& held.len() == sessions.len() + 1
            &&& held.drop_last() == sessions
            &&& held.last().session_id == session_id
            &&& held.last().last_seen == now
            &&& held.last().in_flight.len() == 0
        },
        !has_session(sessions, session_id) && sessions.len() >= 512 ==> exists|at: int|
            {
                let held = with_session(sessions, session_id, now);
                &&& 0 <= at < sessions.len()
                &&& makes_room(sessions, session_id) == Some(sessions[at].session_id)
                &&& held.len() == sessions.len()
                &&& held.drop_last() == #[trigger] sessions.remove(at)
                &&& held.last().session_id == session_id
                &&& held.last().last_seen == now
                &&& held.last().in_flight.len() == 0
                &&& forall|i: int|
                    0 <= i < sessions.len() ==> sessions[at].last_seen <= (
                    #[trigger] sessions[i]).last_seen
                &&& forall|i: int|
                    0 <= i < at ==> sessions[at].last_seen < (#[trigger] sessions[i]).last_seen
            },
{
    let held = with_session(sessions, session_id, now);
    if !has_session(sessions, session_id) {
        if sessions.len() >= 512 {
            silent_longest(sessions, sessions.len());
            let at = longest_silent(sessions, sessions.len());
            assert(held.drop_last() =~= sessions.remove(at));
        } else {
            assert(held.drop_last() =~= sessions);
        }
    }
}

/// A packet reaches its own session alone: that one is heard of now, and takes
/// the packet in among at most 64 datagrams of at most 64 fragments that wait
/// for 30 seconds. No other session changes.
pub proof fn packets_reach_their_session(
    sessions: Seq<SessionModel>,
    packet: PacketModel,
    now: u128,
    fed_at: u128,
    i: int,
)
    requires
        distinct_sessions(sessions),
        0 <= i < with_session(sessions, packet.session_id, now).len(),
    ensures
        ({
            let before = with_session(sessions, packet.session_id, now);
            let (after, out) = received(sessions, packet, now, fed_at);
            &&& after.len() == before.len()
            &&& before[i].session_id != packet.session_id ==> after[i] == before[i]
            &&& before[i].session_id == packet.session_id ==> {
                &&& after[i].session_id == packet.session_id
                &&& after[i].last_seen == now
                &&& (after[i].in_flight, out) == fed(
                    before[i].in_flight,
                    64,
                    64,
                    30_000_000_000,
                    packet,
                    fed_at,
                )
            }
        }),
{
    let before = with_session(sessions, packet.session_id, now);
    if !has_session(sessions, packet.session_id) {
        if sessions.len() >= 512 {
            silent_longest(sessions, sessions.len());
        }
        assert(before.last().session_id == packet.session_id);
        assert forall|j: int| 0 <= j < before.len() - 1 implies (
        #[trigger] before[j]).session_id != packet.session_id by {
            let at = longest_silent(sessions, sessions.len());
            if sessions.len() >= 512 {
                assert(before[j] == sessions[if j < at {
                    j
                } else {
                    j + 1
                }]);
            } else {
                assert(before[j] == sessions[j]);
            }
        }
    }
    let place = session_place(before, packet.session_id);
    if has_session(sessions, packet.session_id) {
        let k = choose|k: int|
            0 <= k < sessions.len() && (#[trigger] sessions[k]).session_id == packet.session_id;
        assert(before[k].session_id == packet.session_id);
    } else {
        assert(before[before.len() - 1].session_id == packet.session_id);
    }
    assert(0 <= place < before.len() && before[place].session_id == packet.session_id);
    if before[i].session_id == packet.session_id {
        assert(i == place);
    }
}

proof fn oldest_of(partials: Seq<Partial>, count: nat)
    requires
        1 <= count <= partials.len(),
    ensures
        0 <= oldest(partials, count) < count,
        forall|i: int|
            0 <= i < count ==> partials[oldest(partials, count)].created_at <= (
            #[trigger] partials[i]).created_at,
        forall|i: int|
            0 <= i < oldest(partials, count) ==> partials[oldest(partials, count)].created_at < (
            #[trigger] partials[i]).created_at,
    decreases count,
{
    if count > 1 {
        oldest_of(partials, (count - 1) as nat);
    }
}

/// The datagram that makes room for another is the first of those whose first
/// fragment came earliest, and it makes room if and only if as many are there
/// as there may be.
pub proof fn the_oldest_datagram_makes_room(
    partials: Seq<Partial>,
    max_packets: usize,
    packet: PacketModel,
    now: u128,
)
    requires
        partials.len() <= max_packets,
    ensures
        ({
            let (held, room) = with_room(partials, max_packets, packet, now);
            &&& room <==> max_packets > 0 || holds(partials, packet.pkt_id)
            &&& held.len() <= max_packets
            &&& holds(partials, packet.pkt_id) ==> held == partials
            &&& !holds(partials, packet.pkt_id) && partials.len() < max_packets ==> {
                &&& held.drop_last() == partials
                &&& held.last().pkt_id == packet.pkt_id
                &&& held.last().addr == packet.addr
                &&& held.last().created_at == now
                &&& held.last().frags.len() == packet.frag_count
                &&& forall|i: int|
                    0 <= i < packet.frag_count ==> (#[trigger] held.last().frags[i]) is None
            }
            &&& !holds(partials, packet.pkt_id) && 0 < max_packets == partials.len() ==> exists|
                at: int,
            |
                {
                    &&& 0 <= at < partials.len()
                    &&& held.drop_last() == #[trigger] partials.remove(at)
                    &&& held.last().pkt_id == packet.pkt_id
                    &&& held.last().created_at == now
                    &&& forall|i: int|
                        0 <= i < partials.len() ==> partials[at].created_at <= (
                        #[trigger] partials[i]).created_at
                    &&& forall|i: int|
                        0 <= i < at ==> partials[at].created_at < (#[trigger] partials[i]).created_at
                }
        }),
{
    let (held, room) = with_room(partials, max_packets, packet, now);
    if !holds(partials, packet.pkt_id) {
        if partials.len() >= max_packets && partials.len() > 0 {
            oldest_of(partials, partials.len());
            let at = oldest(partials, partials.len());
            assert(without_oldest(partials) == partials.remove(at));
            assert(held.drop_last() =~= partials.remove(at));
        } else if max_packets > 0 {
            assert(held.drop_last() =~= partials);
        }
    }
}

/// A datagram in one piece comes out at once and as it is, and touches nothing;
/// a fragment whose number is not below its count, or with too many beside it,
/// is dropped and touches nothing.
pub proof fn whole_datagrams_pass(
    partials: Seq<Partial>,
    max_packets: usize,
    max_fragments: u8,
    ttl: u128,
    packet: PacketModel,
    now: u128,
)
    ensures
        ({
            let (held, out) = fed(partials, max_packets, max_fragments, ttl, packet, now);
            &&& packet.frag_count == 1 && packet.frag_id == 0 ==> held == partials && out == Some(
                packet,
            )
            &&& packet.frag_id >= packet.frag_count || (packet.frag_count > max_fragments
                && packet.frag_count > 1) ==> held == partials && out is None
        }),
{
}

/// What comes out of a fragment is a whole datagram for the fragment's
/// destination, and nothing comes out while a fragment is missing.
pub proof fn datagrams_come_out_whole(
    partials: Seq<Partial>,
    max_packets: usize,
    max_fragments: u8,
    ttl: u128,
    packet: PacketModel,
    now: u128,
)
    requires
        distinct_ids(partials),
        forall|i: int| 0 <= i < partials.len() ==> (#[trigger] partials[i]).wf(),
    ensures
        fed(partials, max_packets, max_fragments, ttl, packet, now).1 matches Some(whole) ==> {
            &&& whole.frag_id == 0
            &&& whole.frag_count == 1
            &&& whole.pkt_id == packet.pkt_id
            &&& whole.addr == packet.addr
        },
{
    if packet.frag_count != 1 && packet.frag_id < packet.frag_count <= max_fragments {
        let young = unexpired(partials, now, ttl);
        crate::hysteria2::defrag::unexpired_are_among(partials, now, ttl);
        assert forall|i: int| 0 <= i < young.len() implies (#[trigger] young[i]).wf() by {
            let j = choose|j: int| 0 <= j < partials.len() && young[i] == #[trigger] partials[j];
            assert(partials[j].wf());
        }
        let (held, room) = with_room(young, max_packets, packet, now);
        if room {
            let place = crate::hysteria2::defrag::place_of(held, packet.pkt_id);
            if holds(young, packet.pkt_id) {
                assert(held[place].wf());
                assert(held[place].pkt_id == packet.pkt_id);
            } else {
                let last = held.len() - 1;
                assert(held[last].pkt_id == packet.pkt_id);
                assert(held[place].pkt_id == packet.pkt_id);
                if place < last {
                    if young.len() >= max_packets {
                        oldest_of(young, young.len());
                        let at = oldest(young, young.len());
                        assert(held[place] == young[if place < at {
                            place
                        } else {
                            place + 1
                        }]);
                    } else {
                        assert(held[place] == young[place]);
                    }
                }
            }
            let partial = held[place];
            let after = Partial {
                frags: partial.frags.update(packet.frag_id as int, Some(packet)),
                ..partial
            };
            if partial.frags.len() == packet.frag_count && packet.addr == partial.addr
                && after.complete() {
                assert(after.packets()[0] == after.frags[0]->0);
                assert(after.frags[0] is Some);
                if packet.frag_id != 0 {
                    assert(after.frags[0] == partial.frags[0]);
                }
            }
        }
    }
}

} // verus!
