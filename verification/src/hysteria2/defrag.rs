//! Putting fragmented datagrams together again.

use std::time::Instant;
use vstd::prelude::*;

use crate::hysteria2::clock::nanos_since;
use crate::hysteria2::udp::{
    fragment_packets, fragment_total, fragments_make_up_payload, joined_data, HysUdpPacket,
    PacketModel,
};
use crate::net::addr::{SocksAddr, Target};

verus! {

/// Thirty seconds.
pub const DEFAULT_TTL_NANOS: u128 = 30_000_000_000;

/// A datagram of which some fragments have arrived.
pub struct FragmentedPacket {
    pub pkt_id: u16,
    pub addr: SocksAddr,
    /// Nanoseconds since the defragger was made.
    pub created_at: u128,
    pub frags: Vec<Option<HysUdpPacket>>,
}

/// A datagram of which some fragments have arrived, as a mathematical value.
#[verifier::ext_equal]
pub struct Partial {
    pub pkt_id: u16,
    pub addr: Target,
    pub created_at: u128,
    pub frags: Seq<Option<PacketModel>>,
}

pub open spec fn frag_model(frag: Option<HysUdpPacket>) -> Option<PacketModel> {
    match frag {
        Some(packet) => Some(packet@),
        None => None,
    }
}

impl View for FragmentedPacket {
    type V = Partial;

    open spec fn view(&self) -> Partial {
        Partial {
            pkt_id: self.pkt_id,
            addr: self.addr@,
            created_at: self.created_at,
            frags: self.frags@.map_values(|frag: Option<HysUdpPacket>| frag_model(frag)),
        }
    }
}

impl Partial {
    pub open spec fn complete(self) -> bool {
        forall|i: int| 0 <= i < self.frags.len() ==> (#[trigger] self.frags[i]) is Some
    }

    /// The fragments of a datagram that is complete.
    pub open spec fn packets(self) -> Seq<PacketModel> {
        self.frags.map_values(|frag: Option<PacketModel>| frag->0)
    }

    /// The datagram that the fragments make up.
    pub open spec fn whole(self) -> PacketModel {
        PacketModel {
            frag_id: 0,
            frag_count: 1,
            data: joined_data(self.packets()),
            ..self.packets()[0]
        }
    }

    /// Every fragment belongs to this datagram and stands in its place.
    pub open spec fn wf(self) -> bool {
        &&& 2 <= self.frags.len() <= 255
        &&& forall|i: int|
            0 <= i < self.frags.len() ==> ((#[trigger] self.frags[i]) matches Some(packet)
                ==> packet.pkt_id == self.pkt_id && packet.frag_id == i && packet.frag_count
                == self.frags.len() && packet.addr == self.addr)
    }
}

/// Datagrams in the order in which their first fragments arrived.
pub open spec fn distinct_ids(partials: Seq<Partial>) -> bool {
    forall|i: int, j: int|
        0 <= i < j < partials.len() ==> (#[trigger] partials[i]).pkt_id != (
        #[trigger] partials[j]).pkt_id
}

/// The datagrams that are younger than `ttl`.
pub open spec fn unexpired(partials: Seq<Partial>, now: u128, ttl: u128) -> Seq<Partial>
    decreases partials.len(),
{
    if partials.len() == 0 {
        Seq::empty()
    } else {
        let front = unexpired(partials.drop_last(), now, ttl);
        if age(partials.last(), now) < ttl {
            front.push(partials.last())
        } else {
            front
        }
    }
}

pub open spec fn age(partial: Partial, now: u128) -> int {
    if now >= partial.created_at {
        now - partial.created_at
    } else {
        0
    }
}

/// Where the first of the oldest datagrams among the first `count` lies.
pub open spec fn oldest(partials: Seq<Partial>, count: nat) -> int
    decreases count,
{
    if count <= 1 {
        0
    } else {
        let best = oldest(partials, (count - 1) as nat);
        if partials[count - 1].created_at < partials[best].created_at {
            count - 1
        } else {
            best
        }
    }
}

pub open spec fn without_oldest(partials: Seq<Partial>) -> Seq<Partial> {
    if partials.len() == 0 {
        partials
    } else {
        partials.remove(oldest(partials, partials.len()))
    }
}

pub open spec fn holds(partials: Seq<Partial>, pkt_id: u16) -> bool {
    exists|i: int| 0 <= i < partials.len() && (#[trigger] partials[i]).pkt_id == pkt_id
}

pub open spec fn place_of(partials: Seq<Partial>, pkt_id: u16) -> int {
    choose|i: int| 0 <= i < partials.len() && (#[trigger] partials[i]).pkt_id == pkt_id
}

/// A datagram of which nothing has arrived.
pub open spec fn blank(packet: PacketModel, now: u128) -> Partial {
    Partial {
        pkt_id: packet.pkt_id,
        addr: packet.addr,
        created_at: now,
        frags: Seq::new(packet.frag_count as nat, |i: int| None),
    }
}

/// Room for a fragment: the datagrams in flight with the one that the fragment
/// belongs to among them; none where there is no room for another.
pub open spec fn with_room(
    partials: Seq<Partial>,
    max_packets: usize,
    packet: PacketModel,
    now: u128,
) -> (Seq<Partial>, bool) {
    if holds(partials, packet.pkt_id) {
        (partials, true)
    } else {
        let kept = if partials.len() >= max_packets {
            without_oldest(partials)
        } else {
            partials
        };
        if kept.len() >= max_packets {
            (kept, false)
        } else {
            (kept.push(blank(packet, now)), true)
        }
    }
}

/// Putting a fragment into the datagram at `place`.
pub open spec fn placed(partials: Seq<Partial>, place: int, packet: PacketModel) -> (
    Seq<Partial>,
    Option<PacketModel>,
) {
    let partial = partials[place];
    if packet.frag_count != partial.frags.len() || packet.addr != partial.addr
        || partial.frags[packet.frag_id as int] is Some {
        (partials, None)
    } else {
        let after = Partial {
            frags: partial.frags.update(packet.frag_id as int, Some(packet)),
            ..partial
        };
        if after.complete() {
            (partials.remove(place), Some(after.whole()))
        } else {
            (partials.update(place, after), None)
        }
    }
}

/// What a fragment does to the datagrams in flight, and the datagram that it
/// completes.
pub open spec fn fed(
    partials: Seq<Partial>,
    max_packets: usize,
    max_fragments: u8,
    ttl: u128,
    packet: PacketModel,
    now: u128,
) -> (Seq<Partial>, Option<PacketModel>) {
    if packet.frag_count == 1 {
        if packet.frag_id == 0 {
            (partials, Some(packet))
        } else {
            (partials, None)
        }
    } else if packet.frag_count <= packet.frag_id || packet.frag_count > max_fragments {
        (partials, None)
    } else {
        let (held, room) = with_room(unexpired(partials, now, ttl), max_packets, packet, now);
        if room {
            placed(held, place_of(held, packet.pkt_id), packet)
        } else {
            (held, None)
        }
    }
}

pub struct Defragger {
    pub packets: Vec<FragmentedPacket>,
    pub max_packets: usize,
    pub max_fragments_per_packet: u8,
    pub packet_ttl_nanos: u128,
    pub epoch: Instant,
}

impl Default for Defragger {
    /// Up to 64 datagrams of up to 64 fragments, for up to thirty seconds.
    fn default() -> (defragger: Self)
        ensures
            defragger.wf(),
            defragger.in_flight() == Seq::<Partial>::empty(),
            defragger.max_packets == 64,
            defragger.max_fragments_per_packet == 64,
            defragger.packet_ttl_nanos == 30_000_000_000,
    {
        Self::new(64, 64, DEFAULT_TTL_NANOS)
    }
}

impl Defragger {
    /// The datagrams of which some fragments have arrived.
    pub open spec fn in_flight(&self) -> Seq<Partial> {
        self.packets@.map_values(|packet: FragmentedPacket| packet@)
    }

    /// No identifier occurs twice, every datagram in flight is incomplete and
    /// holds its own fragments, and the limits are kept.
    pub open spec fn wf(&self) -> bool {
        &&& distinct_ids(self.in_flight())
        &&& self.in_flight().len() <= self.max_packets
        &&& forall|i: int|
            0 <= i < self.in_flight().len() ==> (#[trigger] self.in_flight()[i]).wf()
                && !self.in_flight()[i].complete() && self.in_flight()[i].frags.len()
                <= self.max_fragments_per_packet
    }

    pub fn new(max_packets: usize, max_fragments_per_packet: u8, packet_ttl_nanos: u128) -> (defragger:
        Self)
        ensures
            defragger.wf(),
            defragger.in_flight() == Seq::<Partial>::empty(),
            defragger.max_packets == max_packets,
            defragger.max_fragments_per_packet == max_fragments_per_packet,
            defragger.packet_ttl_nanos == packet_ttl_nanos,
    {
        let defragger = Self {
            packets: Vec::new(),
            max_packets,
            max_fragments_per_packet,
            packet_ttl_nanos,
            epoch: Instant::now(),
        };
        assert(defragger.in_flight() =~= Seq::<Partial>::empty());
        defragger
    }

    pub open spec fn same_limits(&self, other: &Defragger) -> bool {
        &&& self.max_packets == other.max_packets
        &&& self.max_fragments_per_packet == other.max_fragments_per_packet
        &&& self.packet_ttl_nanos == other.packet_ttl_nanos
        &&& self.epoch == other.epoch
    }

    fn prune_expired(&mut self, now: u128)
        requires
            old(self).wf(),
        ensures
            final(self).wf(),
            final(self).same_limits(old(self)),
            final(self).in_flight() == unexpired(
                old(self).in_flight(),
                now,
                old(self).packet_ttl_nanos,
            ),
    {
        let ghost whole = self.in_flight();
        let mut index: usize = 0;
        let ghost mut seen: int = 0;
        assert(whole.take(0) =~= Seq::<Partial>::empty());
        assert(self.in_flight() =~= unexpired(whole.take(0), now, self.packet_ttl_nanos)
            + whole.skip(0));
        while index < self.packets.len()
            invariant
                self.same_limits(old(self)),
                whole == old(self).in_flight(),
                old(self).wf(),
                0 <= seen <= whole.len(),
                index == unexpired(whole.take(seen), now, self.packet_ttl_nanos).len(),
                self.in_flight() == unexpired(whole.take(seen), now, self.packet_ttl_nanos)
                    + whole.skip(seen),
                index <= self.packets@.len(),
            decreases self.packets@.len() - index,
        {
            let created_at: u128 = self.packets[index].created_at;
            let elapsed: u128 = if now >= created_at {
                now - created_at
            } else {
                0
            };
            proof {
                assert(self.in_flight()[index as int] == self.packets@[index as int]@);
                assert(self.in_flight()[index as int] == whole[seen]);
                assert(whole.take(seen + 1).drop_last() =~= whole.take(seen));
                assert(whole.take(seen + 1).last() == whole[seen]);
            }
            let ghost before = self.in_flight();
            if elapsed < self.packet_ttl_nanos {
                index += 1;
                assert(self.in_flight() =~= unexpired(
                    whole.take(seen + 1),
                    now,
                    self.packet_ttl_nanos,
                ) + whole.skip(seen + 1));
            } else {
                self.packets.remove(index);
                assert(self.in_flight() =~= before.remove(index as int));
                assert(self.in_flight() =~= unexpired(
                    whole.take(seen + 1),
                    now,
                    self.packet_ttl_nanos,
                ) + whole.skip(seen + 1));
            }
            proof {
                seen = seen + 1;
            }
        }
        proof {
            assert(whole.skip(seen).len() == 0);
            assert(seen == whole.len());
            assert(whole.take(seen) =~= whole);
            unexpired_are_among(whole, now, self.packet_ttl_nanos);
        }
    }

    fn find(&self, pkt_id: u16) -> (found: Option<usize>)
        ensures
            match found {
                Some(place) => place < self.in_flight().len() && self.in_flight()[place as int].pkt_id
                    == pkt_id,
                None => !holds(self.in_flight(), pkt_id),
            },
    {
        let mut place: usize = 0;
        while place < self.packets.len()
            invariant
                place <= self.packets@.len(),
                forall|i: int| 0 <= i < place ==> (#[trigger] self.in_flight()[i]).pkt_id != pkt_id,
            decreases self.packets@.len() - place,
        {
            assert(self.in_flight()[place as int] == self.packets@[place as int]@);
            if self.packets[place].pkt_id == pkt_id {
                return Some(place);
            }
            place += 1;
        }
        None
    }

    fn drop_oldest_packet(&mut self)
        requires
            old(self).wf(),
        ensures
            final(self).wf(),
            final(self).same_limits(old(self)),
            final(self).in_flight() == without_oldest(old(self).in_flight()),
    {
        if self.packets.len() == 0 {
            return ;
        }
        let mut best: usize = 0;
        let mut count: usize = 1;
        while count < self.packets.len()
            invariant
                self.packets@ == old(self).packets@,
                1 <= count <= self.packets@.len(),
                best < count,
                best == oldest(self.in_flight(), count as nat),
            decreases self.packets@.len() - count,
        {
            assert(self.in_flight()[count as int] == self.packets@[count as int]@);
            assert(self.in_flight()[best as int] == self.packets@[best as int]@);
            if self.packets[count].created_at < self.packets[best].created_at {
                best = count;
            }
            count += 1;
        }
        let ghost before = self.in_flight();
        self.packets.remove(best);
        assert(self.in_flight() =~= before.remove(best as int));
        proof {
            removal_keeps_distinct(before, best as int);
        }
    }

    /// Takes a fragment in. Once the last fragment of a datagram is there, the
    /// datagram comes out.
    pub fn feed_at(&mut self, pkt: HysUdpPacket, now: u128) -> (whole: Option<HysUdpPacket>)
        requires
            old(self).wf(),
        ensures
            final(self).wf(),
            final(self).same_limits(old(self)),
            (final(self).in_flight(), frag_model(whole)) == fed(
                old(self).in_flight(),
                old(self).max_packets,
                old(self).max_fragments_per_packet,
                old(self).packet_ttl_nanos,
                pkt@,
                now,
            ),
    {
        if pkt.frag_count == 1 {
            if pkt.frag_id == 0 {
                return Some(pkt);
            }
            return None;
        }
        if pkt.frag_count <= pkt.frag_id {
            return None;
        }
        if pkt.frag_count > self.max_fragments_per_packet {
            return None;
        }
        self.prune_expired(now);
        let ghost young = self.in_flight();
        let place: usize = match self.find(pkt.pkt_id) {
            Some(place) => place,
            None => {
                if self.packets.len() >= self.max_packets {
                    self.drop_oldest_packet();
                }
                if self.packets.len() >= self.max_packets {
                    return None;
                }
                let ghost kept = self.in_flight();
                let place: usize = self.packets.len();
                let entry = new_entry(&pkt, now);
                self.packets.push(entry);
                proof {
                    assert(self.in_flight() =~= kept.push(blank(pkt@, now)));
                    without_oldest_are_among(young);
                    blank_is_incomplete(pkt@, now);
                    push_keeps_distinct(kept, blank(pkt@, now));
                }
                place
            },
        };
        let ghost held = self.in_flight();
        proof {
            assert(held[place as int].pkt_id == pkt.pkt_id);
            let chosen = place_of(held, pkt.pkt_id);
            assert(chosen == place);
        }
        self.place_fragment(place, pkt)
    }

    fn place_fragment(&mut self, place: usize, pkt: HysUdpPacket) -> (whole: Option<HysUdpPacket>)
        requires
            old(self).wf(),
            place < old(self).in_flight().len(),
            old(self).in_flight()[place as int].pkt_id == pkt.pkt_id,
            pkt.frag_id < pkt.frag_count,
        ensures
            final(self).wf(),
            final(self).same_limits(old(self)),
            (final(self).in_flight(), frag_model(whole)) == placed(
                old(self).in_flight(),
                place as int,
                pkt@,
            ),
    {
        let ghost held = self.in_flight();
        let frag_id: usize = pkt.frag_id as usize;
        assert(held[place as int] == self.packets@[place as int]@);
        assert(held[place as int].frags.len() == self.packets@[place as int].frags@.len());
        if pkt.frag_count as usize != self.packets[place].frags.len() || !pkt.addr.same(
            &self.packets[place].addr,
        ) {
            return None;
        }
        assert(held[place as int].frags[frag_id as int] == frag_model(
            self.packets@[place as int].frags@[frag_id as int],
        ));
        if self.packets[place].frags[frag_id].is_some() {
            return None;
        }
        let ghost packet = pkt@;
        let mut entry = self.packets.remove(place);
        let ghost partial = entry@;
        assert(self.in_flight() =~= held.remove(place as int));
        entry.frags.set(frag_id, Some(pkt));
        assert(entry@.frags =~= partial.frags.update(frag_id as int, Some(packet)));
        let ghost after = Partial {
            frags: partial.frags.update(packet.frag_id as int, Some(packet)),
            ..partial
        };
        assert(entry@ =~= after);
        assert(after.wf());
        if all_there(&entry) {
            proof {
                removal_keeps_distinct(held, place as int);
            }
            Some(put_together(&entry))
        } else {
            self.packets.insert(place, entry);
            assert(self.in_flight() =~= held.update(place as int, after));
            None
        }
    }

    /// Takes a fragment in at the present moment.
    pub fn feed(&mut self, pkt: HysUdpPacket) -> (whole: Option<HysUdpPacket>)
        requires
            old(self).wf(),
        ensures
            final(self).wf(),
            final(self).same_limits(old(self)),
            exists|now: u128|
                (final(self).in_flight(), frag_model(whole)) == #[trigger] fed(
                    old(self).in_flight(),
                    old(self).max_packets,
                    old(self).max_fragments_per_packet,
                    old(self).packet_ttl_nanos,
                    pkt@,
                    now,
                ),
    {
        let now: u128 = nanos_since(self.epoch);
        self.feed_at(pkt, now)
    }
}

fn new_entry(pkt: &HysUdpPacket, now: u128) -> (entry: FragmentedPacket)
    ensures
        entry@ == blank(pkt@, now),
{
    let mut frags: Vec<Option<HysUdpPacket>> = Vec::new();
    let count: usize = pkt.frag_count as usize;
    while frags.len() < count
        invariant
            frags@.len() <= count,
            forall|i: int| 0 <= i < frags@.len() ==> (#[trigger] frags@[i]) is None,
        decreases count - frags@.len(),
    {
        frags.push(None);
    }
    let entry = FragmentedPacket {
        pkt_id: pkt.pkt_id,
        addr: pkt.addr.clone(),
        created_at: now,
        frags,
    };
    assert(entry@.frags =~= blank(pkt@, now).frags);
    entry
}

fn all_there(entry: &FragmentedPacket) -> (complete: bool)
    ensures
        complete == entry@.complete(),
{
    let mut i: usize = 0;
    while i < entry.frags.len()
        invariant
            i <= entry.frags@.len(),
            forall|j: int| 0 <= j < i ==> (#[trigger] entry@.frags[j]) is Some,
        decreases entry.frags@.len() - i,
    {
        assert(entry@.frags[i as int] == frag_model(entry.frags@[i as int]));
        if entry.frags[i].is_none() {
            return false;
        }
        i += 1;
    }
    true
}

fn put_together(entry: &FragmentedPacket) -> (whole: HysUdpPacket)
    requires
        entry@.complete(),
        entry@.frags.len() >= 2,
    ensures
        whole@ == entry@.whole(),
{
    let ghost packets = entry@.packets();
    assert(entry@.frags[0] == frag_model(entry.frags@[0]));
    assert(entry@.frags[0] is Some);
    let mut data: Vec<u8> = Vec::new();
    let mut i: usize = 0;
    assert(packets.take(0) =~= Seq::<PacketModel>::empty());
    while i < entry.frags.len()
        invariant
            entry@.complete(),
            packets == entry@.packets(),
            i <= entry.frags@.len(),
            data@ == joined_data(packets.take(i as int)),
        decreases entry.frags@.len() - i,
    {
        assert(entry@.frags[i as int] == frag_model(entry.frags@[i as int]));
        assert(entry@.frags[i as int] is Some);
        if let Some(packet) = &entry.frags[i] {
            data.extend_from_slice(packet.data.as_slice());
            assert(packets[i as int] == packet@);
        }
        assert(packets.take(i + 1).drop_last() =~= packets.take(i as int));
        assert(packets.take(i + 1).last() == packets[i as int]);
        i += 1;
    }
    assert(packets.take(i as int) =~= packets);
    match &entry.frags[0] {
        Some(first) => {
            let whole = HysUdpPacket {
                session_id: first.session_id,
                pkt_id: first.pkt_id,
                frag_id: 0,
                frag_count: 1,
                addr: first.addr.clone(),
                data,
            };
            assert(packets[0] == first@);
            assert(whole@ =~= entry@.whole());
            whole
        },
        None => HysUdpPacket {
            session_id: 0,
            pkt_id: entry.pkt_id,
            frag_id: 0,
            frag_count: 1,
            addr: entry.addr.clone(),
            data,
        },
    }
}

proof fn oldest_in_range(partials: Seq<Partial>, count: nat)
    requires
        1 <= count <= partials.len(),
    ensures
        0 <= oldest(partials, count) < count,
    decreases count,
{
    if count > 1 {
        oldest_in_range(partials, (count - 1) as nat);
    }
}

proof fn without_oldest_are_among(partials: Seq<Partial>)
    ensures
        forall|pkt_id: u16|
            !holds(partials, pkt_id) ==> !(#[trigger] holds(without_oldest(partials), pkt_id)),
{
    if partials.len() > 0 {
        oldest_in_range(partials, partials.len());
        let at = oldest(partials, partials.len());
        let rest = partials.remove(at);
        assert forall|pkt_id: u16| !holds(partials, pkt_id) implies !(#[trigger] holds(
            without_oldest(partials),
            pkt_id,
        )) by {
            assert forall|i: int| 0 <= i < rest.len() implies (#[trigger] rest[i]).pkt_id
                != pkt_id by {
                let j = if i < at {
                    i
                } else {
                    i + 1
                };
                assert(rest[i] == partials[j]);
            }
        }
    }
}

pub(crate) proof fn removal_keeps_distinct(partials: Seq<Partial>, at: int)
    requires
        distinct_ids(partials),
        0 <= at < partials.len(),
    ensures
        distinct_ids(partials.remove(at)),
        forall|i: int|
            0 <= i < partials.len() - 1 ==> #[trigger] partials.remove(at)[i] == partials[if i
                < at {
                i
            } else {
                i + 1
            }],
{
    let rest = partials.remove(at);
    assert forall|i: int, j: int| 0 <= i < j < rest.len() implies (#[trigger] rest[i]).pkt_id != (
    #[trigger] rest[j]).pkt_id by {
        let a = if i < at {
            i
        } else {
            i + 1
        };
        let b = if j < at {
            j
        } else {
            j + 1
        };
        assert(rest[i] == partials[a]);
        assert(rest[j] == partials[b]);
    }
}

pub(crate) proof fn push_keeps_distinct(partials: Seq<Partial>, partial: Partial)
    requires
        distinct_ids(partials),
        !holds(partials, partial.pkt_id),
    ensures
        distinct_ids(partials.push(partial)),
{
    let longer = partials.push(partial);
    assert forall|i: int, j: int| 0 <= i < j < longer.len() implies (#[trigger] longer[i]).pkt_id
        != (#[trigger] longer[j]).pkt_id by {
        assert(longer[i] == partials[i]);
        if j < partials.len() {
            assert(longer[j] == partials[j]);
        }
    }
}

proof fn blank_is_incomplete(packet: PacketModel, now: u128)
    requires
        packet.frag_count >= 2,
    ensures
        blank(packet, now).wf(),
        !blank(packet, now).complete(),
{
    assert(blank(packet, now).frags[0] is None);
}

pub(crate) proof fn unexpired_are_among(partials: Seq<Partial>, now: u128, ttl: u128)
    ensures
        unexpired(partials, now, ttl).len() <= partials.len(),
        forall|i: int|
            0 <= i < unexpired(partials, now, ttl).len() ==> exists|j: int|
                0 <= j < partials.len() && #[trigger] unexpired(partials, now, ttl)[i]
                    == #[trigger] partials[j],
        distinct_ids(partials) ==> distinct_ids(unexpired(partials, now, ttl)),
    decreases partials.len(),
{
    if partials.len() > 0 {
        let front = partials.drop_last();
        let kept_front = unexpired(front, now, ttl);
        let kept = unexpired(partials, now, ttl);
        unexpired_are_among(front, now, ttl);
        assert forall|i: int| 0 <= i < kept.len() implies exists|j: int|
            0 <= j < partials.len() && #[trigger] kept[i] == #[trigger] partials[j] by {
            if i < kept_front.len() {
                let j = choose|j: int|
                    0 <= j < front.len() && #[trigger] kept_front[i] == #[trigger] front[j];
                assert(kept[i] == kept_front[i]);
                assert(partials[j] == front[j]);
            } else {
                assert(kept[i] == partials[partials.len() - 1]);
            }
        }
        if distinct_ids(partials) {
            assert(distinct_ids(front)) by {
                assert forall|i: int, j: int| 0 <= i < j < front.len() implies (
                #[trigger] front[i]).pkt_id != (#[trigger] front[j]).pkt_id by {
                    assert(partials[i] == front[i]);
                    assert(partials[j] == front[j]);
                }
            }
            assert forall|i: int, j: int| 0 <= i < j < kept.len() implies (
            #[trigger] kept[i]).pkt_id != (#[trigger] kept[j]).pkt_id by {
                if j < kept_front.len() {
                    assert(kept[i] == kept_front[i]);
                    assert(kept[j] == kept_front[j]);
                } else {
                    assert(kept[i] == kept_front[i]);
                    let k = choose|k: int|
                        0 <= k < front.len() && #[trigger] kept_front[i] == #[trigger] front[k];
                    assert(partials[k] == front[k]);
                    assert(kept[j] == partials[partials.len() - 1]);
                }
            }
        }
    }
}

/// The fragments of one datagram, in order.
pub open spec fn is_fragmented(packets: Seq<PacketModel>) -> bool {
    &&& 2 <= packets.len() <= 255
    &&& forall|i: int|
        0 <= i < packets.len() ==> (#[trigger] packets[i]).frag_id == i && packets[i].frag_count
            == packets.len() && packets[i].pkt_id == packets[0].pkt_id && packets[i].addr
            == packets[0].addr
}

/// A row of places that names each of `count` places once.
pub open spec fn is_order(order: Seq<int>, count: nat) -> bool {
    &&& order.len() == count
    &&& forall|i: int| 0 <= i < order.len() ==> 0 <= #[trigger] order[i] < count
    &&& forall|i: int, j: int|
        0 <= i < j < order.len() ==> #[trigger] order[i] != #[trigger] order[j]
}

pub open spec fn all_young(partials: Seq<Partial>, now: u128, ttl: u128) -> bool {
    forall|i: int| 0 <= i < partials.len() ==> age(#[trigger] partials[i], now) < ttl
}

/// The datagrams in flight, and what came out last, once `count` fragments have
/// been fed in the given order at the given times.
pub open spec fn fed_in_order(
    start: Seq<Partial>,
    max_packets: usize,
    max_fragments: u8,
    ttl: u128,
    packets: Seq<PacketModel>,
    order: Seq<int>,
    times: Seq<u128>,
    count: nat,
) -> (Seq<Partial>, Option<PacketModel>)
    decreases count,
{
    if count == 0 {
        (start, None)
    } else {
        fed(
            fed_in_order(
                start,
                max_packets,
                max_fragments,
                ttl,
                packets,
                order,
                times,
                (count - 1) as nat,
            ).0,
            max_packets,
            max_fragments,
            ttl,
            packets[order[count - 1]],
            times[count - 1],
        )
    }
}

/// The datagram of which the first `count` fragments of the order have arrived.
pub open spec fn partly(
    packets: Seq<PacketModel>,
    order: Seq<int>,
    created_at: u128,
    count: int,
) -> Partial {
    Partial {
        pkt_id: packets[0].pkt_id,
        addr: packets[0].addr,
        created_at,
        frags: Seq::new(
            packets.len(),
            |i: int|
                if order.take(count).contains(i) {
                    Some(packets[i])
                } else {
                    None
                },
        ),
    }
}

proof fn young_stay(partials: Seq<Partial>, now: u128, ttl: u128)
    requires
        all_young(partials, now, ttl),
    ensures
        unexpired(partials, now, ttl) == partials,
    decreases partials.len(),
{
    if partials.len() > 0 {
        let front = partials.drop_last();
        assert forall|i: int| 0 <= i < front.len() implies age(#[trigger] front[i], now) < ttl by {
            assert(front[i] == partials[i]);
        }
        young_stay(front, now, ttl);
        assert(partials[partials.len() - 1] == partials.last());
        assert(front.push(partials.last()) =~= partials);
    } else {
        assert(partials =~= Seq::<Partial>::empty());
    }
}

proof fn order_is_complete_only_at_the_end(order: Seq<int>, total: nat, count: int)
    requires
        is_order(order, total),
        0 <= count < total,
    ensures
        !order.take(count).contains(order[count]),
        exists|i: int| 0 <= i < total && !(#[trigger] order.take(count).contains(i)),
{
    let taken = order.take(count);
    if taken.contains(order[count]) {
        let j = choose|j: int| 0 <= j < taken.len() && taken[j] == order[count];
        assert(order[j] == order[count]);
    }
    assert(!taken.contains(order[count]));
}

/// Pigeonhole: a full order names every place.
proof fn order_names_all(order: Seq<int>, total: nat, place: int)
    requires
        is_order(order, total),
        0 <= place < total,
    ensures
        order.contains(place),
{
    let all = vstd::set_lib::set_int_range(0, total as int);
    vstd::set_lib::lemma_int_range(0, total as int);
    assert(order.no_duplicates());
    order.unique_seq_to_set();
    assert(order.to_set().subset_of(all)) by {
        assert forall|i: int| order.to_set().contains(i) implies all.contains(i) by {
            let j = choose|j: int| 0 <= j < order.len() && order[j] == i;
            assert(0 <= order[j] < total);
        }
    }
    vstd::set_lib::lemma_subset_equality(order.to_set(), all);
    assert(all.contains(place));
    assert(order.to_set().contains(place));
}

proof fn one_more_fragment(
    packets: Seq<PacketModel>,
    order: Seq<int>,
    created_at: u128,
    count: int,
)
    requires
        is_fragmented(packets),
        is_order(order, packets.len()),
        0 <= count < packets.len(),
    ensures
        ({
            let before = partly(packets, order, created_at, count);
            let after = partly(packets, order, created_at, count + 1);
            let packet = packets[order[count]];
            &&& before.frags[order[count]] is None
            &&& after == (Partial {
                frags: before.frags.update(packet.frag_id as int, Some(packet)),
                ..before
            })
            &&& after.complete() <==> count + 1 == packets.len()
            &&& after.complete() ==> after.packets() == packets
        }),
{
    let before = partly(packets, order, created_at, count);
    let after = partly(packets, order, created_at, count + 1);
    let at = order[count];
    let packet = packets[at];
    order_is_complete_only_at_the_end(order, packets.len(), count);
    assert(order.take(count + 1) =~= order.take(count).push(at));
    assert forall|i: int| 0 <= i < packets.len() implies after.frags[i] == before.frags.update(
        at,
        Some(packet),
    )[i] by {
        let taken = order.take(count);
        let longer = taken.push(at);
        if longer.contains(i) && i != at {
            let j = choose|j: int| 0 <= j < longer.len() && longer[j] == i;
            assert(taken[j] == i);
        }
        if taken.contains(i) {
            let j = choose|j: int| 0 <= j < taken.len() && taken[j] == i;
            assert(longer[j] == i);
        }
        if i == at {
            assert(longer[count] == at);
        }
    }
    assert(after.frags =~= before.frags.update(at, Some(packet)));
    if count + 1 < packets.len() {
        order_is_complete_only_at_the_end(order, packets.len(), count + 1);
        let i = choose|i: int|
            0 <= i < packets.len() && !(#[trigger] order.take(count + 1).contains(i));
        assert(after.frags[i] is None);
    } else {
        assert(order.take(count + 1) =~= order);
        assert forall|i: int| 0 <= i < after.frags.len() implies (
        #[trigger] after.frags[i]) is Some by {
            order_names_all(order, packets.len(), i);
        }
        assert(after.packets() =~= packets) by {
            assert forall|i: int| 0 <= i < packets.len() implies after.packets()[i]
                == packets[i] by {
                order_names_all(order, packets.len(), i);
            }
        }
    }
}

/// Whatever the order in which the fragments of a datagram arrive, nothing
/// comes out before the last of them, and then the whole datagram does, with
/// the parts of its payload in order; the other datagrams in flight are left
/// alone. There must be room for one more, and no datagram may expire meanwhile.
pub proof fn fragments_come_together(
    start: Seq<Partial>,
    max_packets: usize,
    max_fragments: u8,
    ttl: u128,
    packets: Seq<PacketModel>,
    order: Seq<int>,
    times: Seq<u128>,
    count: nat,
)
    requires
        is_fragmented(packets),
        packets.len() <= max_fragments,
        is_order(order, packets.len()),
        times.len() == packets.len(),
        !holds(start, packets[0].pkt_id),
        start.len() < max_packets,
        forall|i: int|
            0 <= i < times.len() ==> all_young(start, #[trigger] times[i], ttl) && times[0]
                <= times[i] && times[i] - times[0] < ttl,
        count <= packets.len(),
    ensures
        ({
            let (held, out) = fed_in_order(
                start,
                max_packets,
                max_fragments,
                ttl,
                packets,
                order,
                times,
                count,
            );
            if count == 0 {
                held == start && out is None
            } else if count < packets.len() {
                held == start.push(partly(packets, order, times[0], count as int)) && out is None
            } else {
                held == start && out == Some(
                    PacketModel {
                        frag_id: 0,
                        frag_count: 1,
                        data: joined_data(packets),
                        ..packets[0]
                    },
                )
            }
        }),
    decreases count,
{
    if count > 0 {
        let before_count = (count - 1) as nat;
        fragments_come_together(
            start,
            max_packets,
            max_fragments,
            ttl,
            packets,
            order,
            times,
            before_count,
        );
        let at = order[count - 1];
        let packet = packets[at];
        let now = times[count - 1];
        let id = packets[0].pkt_id;
        assert(packet.pkt_id == id && packet.frag_id == at);
        let before = partly(packets, order, times[0], count - 1);
        let after = partly(packets, order, times[0], count as int);
        one_more_fragment(packets, order, times[0], count - 1);
        let state = fed_in_order(
            start,
            max_packets,
            max_fragments,
            ttl,
            packets,
            order,
            times,
            before_count,
        ).0;
        let held = start.push(before);
        assert(all_young(state, now, ttl)) by {
            assert forall|i: int| 0 <= i < state.len() implies age(#[trigger] state[i], now)
                < ttl by {
                if i < start.len() {
                    assert(state[i] == start[i]);
                } else {
                    assert(state[i] == before);
                }
            }
        }
        young_stay(state, now, ttl);
        if count == 1 {
            assert(order.take(0) =~= Seq::<int>::empty());
            assert(before.frags =~= blank(packet, now).frags);
            assert(before =~= blank(packet, now));
        } else {
            assert(held[start.len() as int].pkt_id == id);
            assert(holds(held, id));
        }
        assert(with_room(state, max_packets, packet, now) == (held, true));
        let place = place_of(held, id);
        assert(place == start.len()) by {
            assert(held[start.len() as int].pkt_id == id);
            if place < start.len() {
                assert(start[place] == held[place]);
            }
        }
        assert(held[place] == before);
        assert(held.remove(place) =~= start);
        assert(held.update(place, after) =~= start.push(after));
    }
}

/// A datagram arrives as it was sent: whatever the order in which its fragments
/// come in, the last of them brings the destination and the whole payload out.
/// There must be room for one more datagram and for its fragments, and none may
/// expire meanwhile.
pub proof fn sent_datagrams_arrive(
    session_id: u32,
    pkt_id: u16,
    addr: Target,
    payload: Seq<u8>,
    max_data: int,
    start: Seq<Partial>,
    max_packets: usize,
    max_fragments: u8,
    ttl: u128,
    order: Seq<int>,
    times: Seq<u128>,
)
    requires
        max_data > 0,
        1 <= fragment_total(payload.len() as int, max_data) <= max_fragments,
        is_order(order, fragment_total(payload.len() as int, max_data) as nat),
        times.len() == order.len(),
        !holds(start, pkt_id),
        start.len() < max_packets,
        forall|i: int|
            0 <= i < times.len() ==> all_young(start, #[trigger] times[i], ttl) && times[0]
                <= times[i] && times[i] - times[0] < ttl,
    ensures
        fed_in_order(
            start,
            max_packets,
            max_fragments,
            ttl,
            fragment_packets(session_id, pkt_id, addr, payload, max_data),
            order,
            times,
            order.len(),
        ) == (
            start,
            Some(
                PacketModel {
                    session_id,
                    pkt_id,
                    frag_id: 0,
                    frag_count: 1,
                    addr,
                    data: payload,
                },
            ),
        ),
{
    let packets = fragment_packets(session_id, pkt_id, addr, payload, max_data);
    fragments_make_up_payload(session_id, pkt_id, addr, payload, max_data);
    if packets.len() == 1 {
        assert(order[0] == 0);
        assert(packets.drop_last() =~= Seq::<PacketModel>::empty());
        assert(joined_data(packets.drop_last()) =~= Seq::<u8>::empty());
        assert(packets.last().data =~= payload);
        reveal_with_fuel(fed_in_order, 2);
    } else {
        fragments_come_together(
            start,
            max_packets,
            max_fragments,
            ttl,
            packets,
            order,
            times,
            order.len(),
        );
    }
}

} // verus!
