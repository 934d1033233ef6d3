//! Reassembly where fragments of several datagrams arrive in turn.

use vstd::prelude::*;

use crate::hysteria2::defrag::{
    age, blank, distinct_ids, fed, holds, is_fragmented, place_of, push_keeps_distinct,
    removal_keeps_distinct, unexpired, unexpired_are_among, with_room, Partial,
};
use crate::hysteria2::udp::{
    fragment_packets, fragment_total, fragments_make_up_payload, joined_data, PacketModel,
};
use crate::net::addr::Target;
use crate::num::max_int;

verus! {

/// Whether a packet is a fragment that is taken in. A datagram in one piece and
/// a fragment with impossible numbers touch nothing in flight.
pub open spec fn is_taken_in(packet: PacketModel, max_fragments: u8) -> bool {
    packet.frag_count != 1 && packet.frag_id < packet.frag_count <= max_fragments
}

/// Whether a fragment finds the datagram that it belongs to, or room for one
/// more.
pub open spec fn finds_room(
    partials: Seq<Partial>,
    max_packets: usize,
    ttl: u128,
    packet: PacketModel,
    now: u128,
) -> bool {
    let young = unexpired(partials, now, ttl);
    holds(young, packet.pkt_id) || young.len() < max_packets
}

/// The datagrams in flight, and what came out last, once every packet of the
/// row has been fed at its time.
pub open spec fn fed_row(
    start: Seq<Partial>,
    max_packets: usize,
    max_fragments: u8,
    ttl: u128,
    row: Seq<(PacketModel, u128)>,
) -> (Seq<Partial>, Option<PacketModel>)
    decreases row.len(),
{
    if row.len() == 0 {
        (start, None)
    } else {
        fed(
            fed_row(start, max_packets, max_fragments, ttl, row.drop_last()).0,
            max_packets,
            max_fragments,
            ttl,
            row.last().0,
            row.last().1,
        )
    }
}

/// When the first packet of a datagram was fed.
pub open spec fn opened_at(row: Seq<(PacketModel, u128)>, pkt_id: u16) -> Option<u128>
    decreases row.len(),
{
    if row.len() == 0 {
        None
    } else {
        match opened_at(row.drop_last(), pkt_id) {
            Some(time) => Some(time),
            None => if row.last().0.pkt_id == pkt_id {
                Some(row.last().1)
            } else {
                None
            },
        }
    }
}

/// What the row holds of the datagram are its fragments, none of them twice.
pub open spec fn each_once(row: Seq<(PacketModel, u128)>, packets: Seq<PacketModel>) -> bool {
    &&& forall|n: int|
        0 <= n < row.len() && (#[trigger] row[n]).0.pkt_id == packets[0].pkt_id ==> {
            &&& row[n].0.frag_id < packets.len()
            &&& row[n].0 == packets[row[n].0.frag_id as int]
        }
    &&& forall|m: int, n: int|
        0 <= m < n < row.len() && (#[trigger] row[m]).0.pkt_id == packets[0].pkt_id && (
        #[trigger] row[n]).0.pkt_id == packets[0].pkt_id ==> row[m].0.frag_id != row[n].0.frag_id
}

/// The row holds this fragment of the datagram.
pub open spec fn arrived(
    row: Seq<(PacketModel, u128)>,
    packets: Seq<PacketModel>,
    frag_id: int,
) -> bool {
    exists|n: int|
        0 <= n < row.len() && (#[trigger] row[n]).0.pkt_id == packets[0].pkt_id && row[n].0.frag_id
            == frag_id
}

pub open spec fn all_arrived(row: Seq<(PacketModel, u128)>, packets: Seq<PacketModel>) -> bool {
    forall|i: int| 0 <= i < packets.len() ==> #[trigger] arrived(row, packets, i)
}

/// Room never runs out, and no fragment is taken in once the datagram has
/// expired. Other datagrams may expire.
pub open spec fn undisturbed(
    start: Seq<Partial>,
    max_packets: usize,
    max_fragments: u8,
    ttl: u128,
    row: Seq<(PacketModel, u128)>,
    pkt_id: u16,
) -> bool {
    forall|n: int|
        #![trigger row.take(n)]
        0 <= n < row.len() && is_taken_in(row[n].0, max_fragments) ==> {
            &&& finds_room(
                fed_row(start, max_packets, max_fragments, ttl, row.take(n)).0,
                max_packets,
                ttl,
                row[n].0,
                row[n].1,
            )
            &&& opened_at(row.take(n), pkt_id) matches Some(time) ==> max_int(row[n].1 - time, 0) < ttl
        }
}

/// The datagram as far as the row holds its fragments.
pub open spec fn gathered(row: Seq<(PacketModel, u128)>, packets: Seq<PacketModel>) -> Partial {
    Partial {
        pkt_id: packets[0].pkt_id,
        addr: packets[0].addr,
        created_at: opened_at(row, packets[0].pkt_id)->0,
        frags: Seq::new(
            packets.len(),
            |i: int|
                if arrived(row, packets, i) {
                    Some(packets[i])
                } else {
                    None
                },
        ),
    }
}

proof fn young_is_kept(partials: Seq<Partial>, now: u128, ttl: u128, i: int)
    requires
        0 <= i < partials.len(),
        age(partials[i], now) < ttl,
    ensures
        unexpired(partials, now, ttl).contains(partials[i]),
    decreases partials.len(),
{
    let front = unexpired(partials.drop_last(), now, ttl);
    let kept = unexpired(partials, now, ttl);
    if i == partials.len() - 1 {
        assert(kept[kept.len() - 1] == partials[i]);
    } else {
        young_is_kept(partials.drop_last(), now, ttl, i);
        let j = choose|j: int| 0 <= j < front.len() && front[j] == partials[i];
        assert(kept[j] == partials[i]);
    }
}

proof fn unexpired_holds_no_more(partials: Seq<Partial>, now: u128, ttl: u128, pkt_id: u16)
    requires
        !holds(partials, pkt_id),
    ensures
        !holds(unexpired(partials, now, ttl), pkt_id),
{
    let kept = unexpired(partials, now, ttl);
    unexpired_are_among(partials, now, ttl);
    if holds(kept, pkt_id) {
        let i = choose|i: int| 0 <= i < kept.len() && (#[trigger] kept[i]).pkt_id == pkt_id;
        let j = choose|j: int|
            0 <= j < partials.len() && #[trigger] kept[i] == #[trigger] partials[j];
        assert(partials[j].pkt_id == pkt_id);
    }
}

/// While there is room, no identifier comes to stand for two datagrams, and an
/// identifier that is not in flight comes into flight by its own fragments only.
pub proof fn feeding_keeps_apart(
    partials: Seq<Partial>,
    max_packets: usize,
    max_fragments: u8,
    ttl: u128,
    packet: PacketModel,
    now: u128,
)
    requires
        distinct_ids(partials),
        is_taken_in(packet, max_fragments) ==> finds_room(partials, max_packets, ttl, packet, now),
    ensures
        ({
            let held = fed(partials, max_packets, max_fragments, ttl, packet, now).0;
            &&& distinct_ids(held)
            &&& forall|pkt_id: u16|
                pkt_id != packet.pkt_id && !holds(partials, pkt_id) ==> !(#[trigger] holds(
                    held,
                    pkt_id,
                ))
        }),
{
    let young = unexpired(partials, now, ttl);
    unexpired_are_among(partials, now, ttl);
    let out = fed(partials, max_packets, max_fragments, ttl, packet, now).0;
    if packet.frag_count == 1 || packet.frag_count <= packet.frag_id || packet.frag_count
        > max_fragments {
        assert(out == partials);
    } else {
        let held = with_room(young, max_packets, packet, now).0;
        if !holds(young, packet.pkt_id) {
            push_keeps_distinct(young, blank(packet, now));
            assert(held[young.len() as int].pkt_id == packet.pkt_id);
        }
        assert(holds(held, packet.pkt_id));
        let place = place_of(held, packet.pkt_id);
        removal_keeps_distinct(held, place);
        assert forall|i: int, j: int| 0 <= i < j < out.len() implies (#[trigger] out[i]).pkt_id
            != (#[trigger] out[j]).pkt_id by {
            if out.len() == held.len() {
                assert(out[i].pkt_id == held[i].pkt_id);
                assert(out[j].pkt_id == held[j].pkt_id);
            }
        }
        assert forall|pkt_id: u16|
            pkt_id != packet.pkt_id && !holds(partials, pkt_id) implies !(#[trigger] holds(
            out,
            pkt_id,
        )) by {
            unexpired_holds_no_more(partials, now, ttl, pkt_id);
            if holds(out, pkt_id) {
                let i = choose|i: int| 0 <= i < out.len() && (#[trigger] out[i]).pkt_id == pkt_id;
                let from = if out.len() == held.len() || i < place {
                    i
                } else {
                    i + 1
                };
                assert(held[from].pkt_id == pkt_id);
                assert(young[from] == held[from]);
            }
        }
    }
}

/// A packet of another datagram leaves a datagram in flight as it was, while
/// that one is young and there is room.
pub proof fn others_leave_it_alone(
    partials: Seq<Partial>,
    max_packets: usize,
    max_fragments: u8,
    ttl: u128,
    packet: PacketModel,
    now: u128,
    partial: Partial,
)
    requires
        partials.contains(partial),
        packet.pkt_id != partial.pkt_id,
        is_taken_in(packet, max_fragments) ==> age(partial, now) < ttl && finds_room(
            partials,
            max_packets,
            ttl,
            packet,
            now,
        ),
    ensures
        fed(partials, max_packets, max_fragments, ttl, packet, now).0.contains(partial),
{
    let young = unexpired(partials, now, ttl);
    let at = choose|i: int| 0 <= i < partials.len() && partials[i] == partial;
    let out = fed(partials, max_packets, max_fragments, ttl, packet, now).0;
    if packet.frag_count == 1 || packet.frag_count <= packet.frag_id || packet.frag_count
        > max_fragments {
        assert(out == partials);
    } else {
        young_is_kept(partials, now, ttl, at);
        let held = with_room(young, max_packets, packet, now).0;
        let i = choose|i: int| 0 <= i < young.len() && young[i] == partial;
        assert(held[i] == partial);
        if !holds(young, packet.pkt_id) {
            assert(held[young.len() as int].pkt_id == packet.pkt_id);
        }
        assert(holds(held, packet.pkt_id));
        let place = place_of(held, packet.pkt_id);
        assert(place != i);
        if out.len() == held.len() {
            assert(out[i] == partial);
        } else if i < place {
            assert(out[i] == partial);
        } else {
            assert(out[i - 1] == partial);
        }
    }
}

/// A fragment that does not go with a datagram in flight under its identifier:
/// of another count or destination, or one that is there already.
pub open spec fn is_unfitting(packet: PacketModel, partial: Partial) -> bool {
    &&& packet.pkt_id == partial.pkt_id
    &&& {
        ||| packet.frag_count != partial.frags.len()
        ||| packet.addr != partial.addr
        ||| partial.frags[packet.frag_id as int] is Some
    }
}

proof fn expiry_goes_on(partials: Seq<Partial>, now: u128, later: u128, ttl: u128)
    requires
        now <= later,
    ensures
        unexpired(unexpired(partials, now, ttl), later, ttl) == unexpired(partials, later, ttl),
    decreases partials.len(),
{
    if partials.len() > 0 {
        let front = partials.drop_last();
        expiry_goes_on(front, now, later, ttl);
        if age(partials.last(), now) < ttl {
            let kept = unexpired(front, now, ttl);
            assert(kept.push(partials.last()).drop_last() =~= kept);
        }
    }
}

/// A repeated or inconsistent fragment is discarded: nothing comes out, and the
/// datagram stays as it was; all that happens is that old datagrams expire.
pub proof fn unfitting_fragments_are_discarded(
    partials: Seq<Partial>,
    max_packets: usize,
    max_fragments: u8,
    ttl: u128,
    packet: PacketModel,
    now: u128,
    partial: Partial,
)
    requires
        distinct_ids(partials),
        partials.contains(partial),
        is_taken_in(packet, max_fragments),
        is_unfitting(packet, partial),
        age(partial, now) < ttl,
    ensures
        fed(partials, max_packets, max_fragments, ttl, packet, now) == (
            unexpired(partials, now, ttl),
            None::<PacketModel>,
        ),
        unexpired(partials, now, ttl).contains(partial),
{
    let young = unexpired(partials, now, ttl);
    let at = choose|i: int| 0 <= i < partials.len() && partials[i] == partial;
    young_is_kept(partials, now, ttl, at);
    unexpired_are_among(partials, now, ttl);
    let i = choose|i: int| 0 <= i < young.len() && young[i] == partial;
    assert(holds(young, packet.pkt_id));
    assert(place_of(young, packet.pkt_id) == i);
}

/// The rest of a row goes on as if a repeated or inconsistent fragment had not
/// come: whatever follows it brings out the same, and once another fragment is
/// taken in, the same datagrams are in flight.
pub proof fn discarded_fragments_change_nothing(
    start: Seq<Partial>,
    max_packets: usize,
    max_fragments: u8,
    ttl: u128,
    before: Seq<(PacketModel, u128)>,
    packet: PacketModel,
    now: u128,
    partial: Partial,
    rest: Seq<(PacketModel, u128)>,
)
    requires
        distinct_ids(fed_row(start, max_packets, max_fragments, ttl, before).0),
        fed_row(start, max_packets, max_fragments, ttl, before).0.contains(partial),
        is_taken_in(packet, max_fragments),
        is_unfitting(packet, partial),
        age(partial, now) < ttl,
        forall|n: int| 0 <= n < rest.len() ==> now <= (#[trigger] rest[n]).1,
    ensures
        fed_row(start, max_packets, max_fragments, ttl, before.push((packet, now))).1 is None,
        ({
            let with = fed_row(
                start,
                max_packets,
                max_fragments,
                ttl,
                before.push((packet, now)) + rest,
            );
            let without = fed_row(start, max_packets, max_fragments, ttl, before + rest);
            &&& rest.len() > 0 ==> with.1 == without.1
            &&& with.0 == without.0 || with.0 == unexpired(without.0, now, ttl)
            &&& rest.len() > 0 && is_taken_in(rest.last().0, max_fragments) ==> with.0 == without.0
        }),
    decreases rest.len(),
{
    let longer = before.push((packet, now));
    let state = fed_row(start, max_packets, max_fragments, ttl, before).0;
    unfitting_fragments_are_discarded(
        state,
        max_packets,
        max_fragments,
        ttl,
        packet,
        now,
        partial,
    );
    assert(longer.drop_last() =~= before);
    if rest.len() == 0 {
        assert(longer + rest =~= longer);
        assert(before + rest =~= before);
    } else {
        let front = rest.drop_last();
        let (next, later) = rest.last();
        assert(rest[rest.len() - 1] == rest.last());
        assert forall|n: int| 0 <= n < front.len() implies now <= (#[trigger] front[n]).1 by {
            assert(front[n] == rest[n]);
        }
        discarded_fragments_change_nothing(
            start,
            max_packets,
            max_fragments,
            ttl,
            before,
            packet,
            now,
            partial,
            front,
        );
        assert((longer + rest).drop_last() =~= longer + front);
        assert((before + rest).drop_last() =~= before + front);
        assert((longer + rest).last() == rest.last());
        assert((before + rest).last() == rest.last());
        let without = fed_row(start, max_packets, max_fragments, ttl, before + front).0;
        expiry_goes_on(without, now, later, ttl);
    }
}

/// What one more packet of the row adds to the datagram.
proof fn one_more_gathered(row: Seq<(PacketModel, u128)>, packets: Seq<PacketModel>)
    requires
        row.len() > 0,
        is_fragmented(packets),
        each_once(row, packets),
    ensures
        ({
            let front = row.drop_last();
            let (packet, now) = row.last();
            let id = packets[0].pkt_id;
            let before = gathered(front, packets);
            let after = gathered(row, packets);
            &&& each_once(front, packets)
            &&& opened_at(front, id) is None <==> forall|i: int|
                0 <= i < packets.len() ==> !(#[trigger] arrived(front, packets, i))
            &&& packet.pkt_id != id ==> {
                &&& opened_at(row, id) == opened_at(front, id)
                &&& after == before
                &&& all_arrived(row, packets) == all_arrived(front, packets)
            }
            &&& packet.pkt_id == id ==> {
                &&& !arrived(front, packets, packet.frag_id as int)
                &&& arrived(row, packets, packet.frag_id as int)
                &&& !all_arrived(front, packets)
                &&& opened_at(row, id) is Some
                &&& opened_at(front, id) is Some ==> after == (Partial {
                    frags: before.frags.update(packet.frag_id as int, Some(packet)),
                    ..before
                })
                &&& opened_at(front, id) is None ==> after == (Partial {
                    frags: blank(packet, now).frags.update(packet.frag_id as int, Some(packet)),
                    ..blank(packet, now)
                })
                &&& after.complete() <==> all_arrived(row, packets)
                &&& after.complete() ==> after.packets() == packets
            }
        }),
    decreases row.len(),
{
    let front = row.drop_last();
    let (packet, now) = row.last();
    let id = packets[0].pkt_id;
    let before = gathered(front, packets);
    let after = gathered(row, packets);
    assert(forall|n: int| 0 <= n < front.len() ==> front[n] == row[n]);
    assert(row[row.len() - 1] == row.last());
    assert(each_once(front, packets));
    opened_by_own(front, packets);
    assert forall|i: int| #[trigger] arrived(row, packets, i) <==> arrived(front, packets, i) || (
    packet.pkt_id == id && packet.frag_id == i) by {
        if arrived(row, packets, i) {
            let n = choose|n: int|
                0 <= n < row.len() && (#[trigger] row[n]).0.pkt_id == id && row[n].0.frag_id == i;
            if n < front.len() {
                assert(front[n].0.frag_id == i);
            }
        }
        if arrived(front, packets, i) {
            let n = choose|n: int|
                0 <= n < front.len() && (#[trigger] front[n]).0.pkt_id == id && front[n].0.frag_id
                    == i;
            assert(row[n].0.frag_id == i);
        }
    }
    if packet.pkt_id == id {
        let at = packet.frag_id as int;
        assert(packet == packets[at]);
        if arrived(front, packets, at) {
            let n = choose|n: int|
                0 <= n < front.len() && (#[trigger] front[n]).0.pkt_id == id && front[n].0.frag_id
                    == at;
            assert(row[n].0.frag_id == at);
        }
        if opened_at(front, id) is None {
            assert(after.frags =~= blank(packet, now).frags.update(at, Some(packet)));
        } else {
            assert(after.frags =~= before.frags.update(at, Some(packet)));
        }
        assert(forall|i: int|
            0 <= i < packets.len() ==> ((#[trigger] after.frags[i]) is Some <==> arrived(
                row,
                packets,
                i,
            )));
        if after.complete() {
            assert forall|i: int| 0 <= i < packets.len() implies #[trigger] arrived(
                row,
                packets,
                i,
            ) by {
                assert(after.frags[i] is Some);
            }
            assert(after.packets() =~= packets);
        }
        if all_arrived(row, packets) {
            assert forall|i: int| 0 <= i < after.frags.len() implies (
            #[trigger] after.frags[i]) is Some by {
                assert(arrived(row, packets, i));
            }
        }
    } else {
        assert(after.frags =~= before.frags);
        if all_arrived(row, packets) {
            assert forall|i: int| 0 <= i < packets.len() implies #[trigger] arrived(
                front,
                packets,
                i,
            ) by {
                assert(arrived(row, packets, i));
            }
        }
        if all_arrived(front, packets) {
            assert forall|i: int| 0 <= i < packets.len() implies #[trigger] arrived(
                row,
                packets,
                i,
            ) by {
                assert(arrived(front, packets, i));
            }
        }
    }
}

proof fn opened_by_own(row: Seq<(PacketModel, u128)>, packets: Seq<PacketModel>)
    requires
        is_fragmented(packets),
        each_once(row, packets),
    ensures
        opened_at(row, packets[0].pkt_id) is None <==> forall|i: int|
            0 <= i < packets.len() ==> !(#[trigger] arrived(row, packets, i)),
    decreases row.len(),
{
    if row.len() > 0 {
        let front = row.drop_last();
        let id = packets[0].pkt_id;
        assert(forall|n: int| 0 <= n < front.len() ==> front[n] == row[n]);
        assert(row[row.len() - 1] == row.last());
        opened_by_own(front, packets);
        if row.last().0.pkt_id == id {
            assert(arrived(row, packets, row.last().0.frag_id as int));
        }
        assert forall|i: int| arrived(front, packets, i) implies #[trigger] arrived(
            row,
            packets,
            i,
        ) by {
            let n = choose|n: int|
                0 <= n < front.len() && (#[trigger] front[n]).0.pkt_id == id && front[n].0.frag_id
                    == i;
            assert(row[n].0.frag_id == i);
        }
        assert forall|i: int| row.last().0.pkt_id != id && #[trigger] arrived(
            row,
            packets,
            i,
        ) implies arrived(front, packets, i) by {
            let n = choose|n: int|
                0 <= n < row.len() && (#[trigger] row[n]).0.pkt_id == id && row[n].0.frag_id == i;
            assert(front[n].0.frag_id == i);
        }
        if opened_at(front, id) is Some {
            let i = choose|i: int| 0 <= i < packets.len() && #[trigger] arrived(front, packets, i);
            assert(arrived(row, packets, i));
        } else if row.last().0.pkt_id != id {
            assert forall|i: int| 0 <= i < packets.len() implies !(#[trigger] arrived(
                row,
                packets,
                i,
            )) by {
                assert(!arrived(front, packets, i));
            }
        }
    }
}

/// What one of its own fragments does to a datagram: `before` stands for it as
/// it was, or for a blank one if it was not in flight.
proof fn own_fragment_is_added(
    partials: Seq<Partial>,
    max_packets: usize,
    max_fragments: u8,
    ttl: u128,
    packet: PacketModel,
    now: u128,
    before: Partial,
)
    requires
        distinct_ids(partials),
        2 <= packet.frag_count <= max_fragments,
        packet.frag_id < packet.frag_count,
        finds_room(partials, max_packets, ttl, packet, now),
        before.pkt_id == packet.pkt_id,
        before.addr == packet.addr,
        before.frags.len() == packet.frag_count,
        before.frags[packet.frag_id as int] is None,
        partials.contains(before) && age(before, now) < ttl || !holds(partials, packet.pkt_id)
            && before == blank(packet, now),
    ensures
        ({
            let (held, out) = fed(partials, max_packets, max_fragments, ttl, packet, now);
            let after = Partial {
                frags: before.frags.update(packet.frag_id as int, Some(packet)),
                ..before
            };
            if after.complete() {
                !holds(held, packet.pkt_id) && out == Some(after.whole())
            } else {
                held.contains(after) && out is None
            }
        }),
{
    let id = packet.pkt_id;
    let young = unexpired(partials, now, ttl);
    unexpired_are_among(partials, now, ttl);
    let held = with_room(young, max_packets, packet, now).0;
    let at: int;
    if partials.contains(before) && age(before, now) < ttl {
        let i = choose|i: int| 0 <= i < partials.len() && partials[i] == before;
        young_is_kept(partials, now, ttl, i);
        at = choose|j: int| 0 <= j < young.len() && young[j] == before;
        assert(holds(young, id));
    } else {
        unexpired_holds_no_more(partials, now, ttl, id);
        push_keeps_distinct(young, before);
        at = young.len() as int;
    }
    assert(held[at] == before);
    assert(distinct_ids(held));
    assert(place_of(held, id) == at);
    let after = Partial {
        frags: before.frags.update(packet.frag_id as int, Some(packet)),
        ..before
    };
    if after.complete() {
        removal_keeps_distinct(held, at);
        let rest = held.remove(at);
        if holds(rest, id) {
            let i = choose|i: int| 0 <= i < rest.len() && (#[trigger] rest[i]).pkt_id == id;
            let from = if i < at {
                i
            } else {
                i + 1
            };
            assert(held[from].pkt_id == id);
        }
    } else {
        assert(held.update(at, after)[at] == after);
    }
}

/// Interleaved datagrams are put together by their identifiers. Over any row of
/// packets that holds no fragment of a datagram twice, with fragments of other
/// datagrams in between, a fragment of the datagram brings nothing out before
/// the last of them has come, whatever their order; the last one brings the
/// whole datagram out, with the parts of its payload in order, and its
/// identifier is then free again. Room must never run out, and no fragment may be
/// taken in once the datagram has expired; other datagrams may expire.
pub proof fn interleaved_fragments_come_together(
    start: Seq<Partial>,
    max_packets: usize,
    max_fragments: u8,
    ttl: u128,
    packets: Seq<PacketModel>,
    row: Seq<(PacketModel, u128)>,
)
    requires
        distinct_ids(start),
        is_fragmented(packets),
        packets.len() <= max_fragments,
        !holds(start, packets[0].pkt_id),
        each_once(row, packets),
        undisturbed(start, max_packets, max_fragments, ttl, row, packets[0].pkt_id),
    ensures
        ({
            let (held, out) = fed_row(start, max_packets, max_fragments, ttl, row);
            let id = packets[0].pkt_id;
            &&& distinct_ids(held)
            &&& if opened_at(row, id) is None || all_arrived(row, packets) {
                !holds(held, id)
            } else {
                held.contains(gathered(row, packets))
            }
            &&& row.len() > 0 && row.last().0.pkt_id == id ==> out == if all_arrived(
                row,
                packets,
            ) {
                Some(
                    PacketModel {
                        frag_id: 0,
                        frag_count: 1,
                        data: joined_data(packets),
                        ..packets[0]
                    },
                )
            } else {
                None
            }
        }),
    decreases row.len(),
{
    let id = packets[0].pkt_id;
    if row.len() > 0 {
        let front = row.drop_last();
        let last = row.len() - 1;
        let (packet, now) = row.last();
        one_more_gathered(row, packets);
        assert(row.take(last) =~= front);
        assert forall|n: int|
            #![trigger front.take(n)]
            0 <= n < front.len() && is_taken_in(front[n].0, max_fragments) implies {
            &&& finds_room(
                fed_row(start, max_packets, max_fragments, ttl, front.take(n)).0,
                max_packets,
                ttl,
                front[n].0,
                front[n].1,
            )
            &&& opened_at(front.take(n), id) matches Some(time) ==> max_int(
                front[n].1 - time,
                0,
            ) < ttl
        } by {
            assert(row.take(n) =~= front.take(n));
            assert(row[n] == front[n]);
        }
        interleaved_fragments_come_together(
            start,
            max_packets,
            max_fragments,
            ttl,
            packets,
            front,
        );
        let state = fed_row(start, max_packets, max_fragments, ttl, front).0;
        feeding_keeps_apart(state, max_packets, max_fragments, ttl, packet, now);
        let before = gathered(front, packets);
        if packet.pkt_id == id {
            assert(row[last].0.pkt_id == id);
            assert(packet == packets[packet.frag_id as int]);
            if opened_at(front, id) is None {
                own_fragment_is_added(
                    state,
                    max_packets,
                    max_fragments,
                    ttl,
                    packet,
                    now,
                    blank(packet, now),
                );
            } else {
                assert(before.frags[packet.frag_id as int] is None);
                own_fragment_is_added(state, max_packets, max_fragments, ttl, packet, now, before);
            }
        } else if opened_at(front, id) is Some && !all_arrived(front, packets) {
            others_leave_it_alone(state, max_packets, max_fragments, ttl, packet, now, before);
        }
    }
}

/// A datagram arrives as it was sent, whatever arrives between its fragments:
/// once the row holds them all, the last of them brings the destination and the
/// whole payload out.
pub proof fn interleaved_datagrams_arrive(
    session_id: u32,
    pkt_id: u16,
    addr: Target,
    payload: Seq<u8>,
    max_data: int,
    start: Seq<Partial>,
    max_packets: usize,
    max_fragments: u8,
    ttl: u128,
    row: Seq<(PacketModel, u128)>,
)
    requires
        max_data > 0,
        1 <= fragment_total(payload.len() as int, max_data) <= max_fragments,
        distinct_ids(start),
        !holds(start, pkt_id),
        each_once(row, fragment_packets(session_id, pkt_id, addr, payload, max_data)),
        all_arrived(row, fragment_packets(session_id, pkt_id, addr, payload, max_data)),
        undisturbed(start, max_packets, max_fragments, ttl, row, pkt_id),
        row.len() > 0,
        row.last().0.pkt_id == pkt_id,
    ensures
        fed_row(start, max_packets, max_fragments, ttl, row).1 == Some(
            PacketModel { session_id, pkt_id, frag_id: 0, frag_count: 1, addr, data: payload },
        ),
{
    let packets = fragment_packets(session_id, pkt_id, addr, payload, max_data);
    fragments_make_up_payload(session_id, pkt_id, addr, payload, max_data);
    if packets.len() == 1 {
        let last = row[row.len() - 1].0;
        assert(last == packets[last.frag_id as int]);
        assert(packets.drop_last() =~= Seq::<PacketModel>::empty());
        assert(joined_data(packets.drop_last()) =~= Seq::<u8>::empty());
        assert(packets.last().data =~= payload);
    } else {
        interleaved_fragments_come_together(
            start,
            max_packets,
            max_fragments,
            ttl,
            packets,
            row,
        );
    }
}

} // verus!
