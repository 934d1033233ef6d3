//! Datagrams: their wire form and how they are cut into fragments.

use bytes::BytesMut;
use vstd::prelude::*;

use crate::hysteria2::address::{
    address_bytes, address_round_trip, address_spec, is_plain, read_back, to_socksaddr,
};
use crate::buffer::{
    buffer_advance, buffer_bytes, buffer_extend, buffer_new, buffered,
};
use crate::hysteria2::error::CodecError;
use crate::hysteria2::varint::{
    var_size, varint_bytes, varint_decode, varint_encode, varint_fits, varint_round_trip,
    varint_rest, varint_size, varint_spec,
};
use crate::net::addr::{SocksAddr, Target};
use crate::num::{min_int, min_usize};
use crate::text::{bytes_between, bytes_of};

verus! {

/// Session, packet and fragment numbers, the fragment count, the destination
/// as `host:port` with its length in front, and the payload.
#[derive(Debug)]
pub struct HysUdpPacket {
    pub session_id: u32,
    pub pkt_id: u16,
    pub frag_id: u8,
    pub frag_count: u8,
    pub addr: SocksAddr,
    pub data: Vec<u8>,
}

/// A packet as a mathematical value.
#[verifier::ext_equal]
pub struct PacketModel {
    pub session_id: u32,
    pub pkt_id: u16,
    pub frag_id: u8,
    pub frag_count: u8,
    pub addr: Target,
    pub data: Seq<u8>,
}

impl View for HysUdpPacket {
    type V = PacketModel;

    open spec fn view(&self) -> PacketModel {
        PacketModel {
            session_id: self.session_id,
            pkt_id: self.pkt_id,
            frag_id: self.frag_id,
            frag_count: self.frag_count,
            addr: self.addr@,
            data: self.data@,
        }
    }
}

impl Clone for HysUdpPacket {
    fn clone(&self) -> (copy: Self)
        ensures
            copy@ == self@,
    {
        HysUdpPacket {
            session_id: self.session_id,
            pkt_id: self.pkt_id,
            frag_id: self.frag_id,
            frag_count: self.frag_count,
            addr: self.addr.clone(),
            data: bytes_of(self.data.as_slice()),
        }
    }
}

pub open spec fn u32_bytes(value: u32) -> Seq<u8> {
    seq![
        (value / 0x100_0000) as u8,
        ((value / 0x1_0000) % 0x100) as u8,
        ((value / 0x100) % 0x100) as u8,
        (value % 0x100) as u8,
    ]
}

pub open spec fn u32_at(bytes: Seq<u8>, at: int) -> u32 {
    (bytes[at] * 0x100_0000 + bytes[at + 1] * 0x1_0000 + bytes[at + 2] * 0x100 + bytes[at
        + 3]) as u32
}

pub open spec fn u16_bytes(value: u16) -> Seq<u8> {
    seq![(value / 0x100) as u8, (value % 0x100) as u8]
}

pub open spec fn u16_at(bytes: Seq<u8>, at: int) -> u16 {
    (bytes[at] * 0x100 + bytes[at + 1]) as u16
}

/// The packet that a datagram holds.
pub open spec fn packet_spec(input: Seq<u8>) -> Result<PacketModel, CodecError> {
    if input.len() < 8 {
        Err(CodecError::PacketTooShort)
    } else {
        match varint_spec(input.skip(8)) {
            None => Err(CodecError::AddressLengthVarint),
            Some((addr_len, len_len)) => {
                let addr_start = 8 + len_len;
                let addr_end = addr_start + (addr_len as usize);
                if input.len() < addr_end {
                    Err(
                        CodecError::AddressExceedsPacket(
                            addr_len as usize,
                            (input.len() - addr_start) as usize,
                        ),
                    )
                } else {
                    match address_spec(input.subrange(addr_start, addr_end)) {
                        Err(error) => Err(error),
                        Ok(addr) => Ok(
                            PacketModel {
                                session_id: u32_at(input, 0),
                                pkt_id: u16_at(input, 4),
                                frag_id: input[6],
                                frag_count: input[7],
                                addr,
                                data: input.skip(addr_end),
                            },
                        ),
                    }
                }
            },
        }
    }
}

/// What is left of a datagram once reading it has come to an end: nothing,
/// unless it broke off in front of the address.
pub open spec fn packet_rest(input: Seq<u8>) -> Seq<u8> {
    if input.len() < 8 {
        input
    } else {
        match packet_spec(input) {
            Err(CodecError::AddressLengthVarint) => varint_rest(input.skip(8)),
            Err(CodecError::AddressExceedsPacket(_, _)) => varint_rest(input.skip(8)),
            _ => Seq::empty(),
        }
    }
}

impl HysUdpPacket {
    /// Reads the packet that a datagram holds.
    pub fn decode(buf: &mut BytesMut) -> (packet: Result<Self, CodecError>)
        ensures
            match packet {
                Ok(p) => packet_spec(buffered(*old(buf))) == Ok::<PacketModel, CodecError>(p@),
                Err(error) => packet_spec(buffered(*old(buf))) == Err::<PacketModel, CodecError>(
                    error,
                ),
            },
            buffered(*final(buf)) == packet_rest(buffered(*old(buf))),
    {
        let ghost input = buffered(*buf);
        let head: &[u8] = buffer_bytes(buf);
        if head.len() < 8 {
            return Err(CodecError::PacketTooShort);
        }
        let session_id: u32 = head[0] as u32 * 0x100_0000 + head[1] as u32 * 0x1_0000
            + head[2] as u32 * 0x100 + head[3] as u32;
        let pkt_id: u16 = head[4] as u16 * 0x100 + head[5] as u16;
        let frag_id: u8 = head[6];
        let frag_count: u8 = head[7];
        buffer_advance(buf, 8);
        proof {
            varint_fits(input.skip(8));
        }
        let addr_len: usize = match varint_decode(buf) {
            Some(len) => len as usize,
            None => {
                return Err(CodecError::AddressLengthVarint);
            },
        };
        let ghost addr_start = 8 + (varint_spec(input.skip(8))->0).1;
        assert(buffered(*buf) =~= input.skip(addr_start));
        let left: usize = buffer_bytes(buf).len();
        if left < addr_len {
            return Err(CodecError::AddressExceedsPacket(addr_len, left));
        }
        let addr_bytes = bytes_between(buffer_bytes(buf), 0, addr_len);
        assert(addr_bytes@ =~= input.subrange(addr_start, addr_start + addr_len));
        let data = bytes_between(buffer_bytes(buf), addr_len, left);
        assert(data@ =~= input.skip(addr_start + addr_len));
        buffer_advance(buf, left);
        match to_socksaddr(addr_bytes.as_slice()) {
            Ok(addr) => Ok(
                HysUdpPacket { session_id, pkt_id, frag_id, frag_count, addr, data },
            ),
            Err(error) => Err(error),
        }
    }
}

/// The bytes of a packet for `addr`. The length of the address is written as far
/// as 32 bits hold it.
pub open spec fn packet_bytes(
    session_id: u32,
    pkt_id: u16,
    frag_id: u8,
    frag_count: u8,
    addr: Seq<u8>,
    data: Seq<u8>,
) -> Seq<u8> {
    u32_bytes(session_id) + u16_bytes(pkt_id) + seq![frag_id, frag_count] + varint_bytes(
        addr.len() as u32 as u64,
    ) + addr + data
}

/// A packet that was written is read back field by field, its destination as
/// its textual form tells it.
pub proof fn packet_round_trip(packet: PacketModel)
    requires
        address_bytes(packet.addr).len() <= u32::MAX,
    ensures
        packet_spec(
            packet_bytes(
                packet.session_id,
                packet.pkt_id,
                packet.frag_id,
                packet.frag_count,
                address_bytes(packet.addr),
                packet.data,
            ),
        ) == Ok::<PacketModel, CodecError>(
            PacketModel { addr: read_back(packet.addr), ..packet },
        ),
        is_plain(packet.addr) ==> read_back(packet.addr) == packet.addr,
{
    let addr = address_bytes(packet.addr);
    let input = packet_bytes(
        packet.session_id,
        packet.pkt_id,
        packet.frag_id,
        packet.frag_count,
        addr,
        packet.data,
    );
    let addr_len = varint_bytes(addr.len() as u64);
    let tail = addr + packet.data;
    varint_round_trip(addr.len() as u64, tail);
    assert(input.skip(8) =~= addr_len + tail);
    let addr_start = 8 + addr_len.len() as int;
    let addr_end = addr_start + addr.len();
    assert(input.subrange(addr_start, addr_end) =~= addr);
    assert(input.skip(addr_end) =~= packet.data);
    address_round_trip(packet.addr);
    let id = packet.session_id;
    assert(id == (id / 0x100_0000) * 0x100_0000 + ((id / 0x1_0000) % 0x100) * 0x1_0000 + ((id
        / 0x100) % 0x100) * 0x100 + id % 0x100) by {
        let q1 = id / 0x100;
        let q2 = id / 0x1_0000;
        let q3 = id / 0x100_0000;
        assert(q2 == q1 / 0x100);
        assert(q3 == q2 / 0x100);
    }
    assert(input[0] == u32_bytes(id)[0]);
    assert(input[1] == u32_bytes(id)[1]);
    assert(input[2] == u32_bytes(id)[2]);
    assert(input[3] == u32_bytes(id)[3]);
    assert(u32_at(input, 0) == id);
    assert(input[4] == u16_bytes(packet.pkt_id)[0]);
    assert(input[5] == u16_bytes(packet.pkt_id)[1]);
    assert(u16_at(input, 4) == packet.pkt_id);
    assert(input[6] == packet.frag_id);
    assert(input[7] == packet.frag_count);
}

/// The fragments of one datagram, made one after the other.
pub struct Fragments<'a> {
    pub session_id: u32,
    pub pkt_id: u16,
    pub addr: Vec<u8>,
    pub frag_total: u8,
    pub next_frag_id: u8,
    pub next_frag_start: usize,
    pub payload: &'a [u8],
    pub max_pkt_size: usize,
    pub fixed_size: usize,
}

/// Bytes of a packet in front of its payload.
pub open spec fn fixed_size_spec(addr: Seq<u8>) -> int {
    8 + addr.len() + varint_size(addr.len() as u32 as u64)
}

/// How many fragments a payload takes.
pub open spec fn fragment_total(payload_len: int, max_data: int) -> int {
    if payload_len == 0 {
        1
    } else {
        (payload_len + max_data - 1) / max_data
    }
}

/// The part of a payload that fragment `index` carries.
pub open spec fn fragment_data(payload: Seq<u8>, max_data: int, index: int) -> Seq<u8> {
    let start = min_int(index * max_data, payload.len() as int);
    let end = min_int(start + max_data, payload.len() as int);
    payload.subrange(start, end)
}

impl<'a> Fragments<'a> {
    /// How much payload one fragment carries.
    pub open spec fn max_data(&self) -> int {
        self.max_pkt_size - self.fixed_size
    }

    pub open spec fn wf(&self) -> bool {
        &&& self.fixed_size == fixed_size_spec(self.addr@)
        &&& self.fixed_size < self.max_pkt_size
        &&& self.frag_total == fragment_total(self.payload@.len() as int, self.max_data())
        &&& self.next_frag_id <= self.frag_total
        &&& self.next_frag_start == min_int(
            self.next_frag_id * self.max_data(),
            self.payload@.len() as int,
        )
    }

    /// Fragment `index` as it is sent.
    pub open spec fn fragment(&self, index: int) -> Seq<u8> {
        packet_bytes(
            self.session_id,
            self.pkt_id,
            index as u8,
            self.frag_total,
            self.addr@,
            fragment_data(self.payload@, self.max_data(), index),
        )
    }

    /// Prepares the fragments of a datagram, each at most `max_pkt_size` bytes.
    pub fn try_new(
        session_id: u32,
        pkt_id: u16,
        addr: SocksAddr,
        max_pkt_size: usize,
        payload: &'a [u8],
    ) -> (fragments: Result<Self, CodecError>)
        requires
            fixed_size_spec(address_bytes(addr@)) <= usize::MAX,
        ensures
            ({
                let fixed = fixed_size_spec(address_bytes(addr@));
                let total = fragment_total(payload@.len() as int, max_pkt_size - fixed);
                match fragments {
                    Ok(f) => {
                        &&& fixed < max_pkt_size
                        &&& total <= 255
                        &&& f.wf()
                        &&& f.session_id == session_id
                        &&& f.pkt_id == pkt_id
                        &&& f.addr@ == address_bytes(addr@)
                        &&& f.max_pkt_size == max_pkt_size
                        &&& f.payload@ == payload@
                        &&& f.next_frag_id == 0
                    },
                    Err(CodecError::UdpAddressTooLarge) => fixed >= max_pkt_size,
                    Err(CodecError::UdpPayloadTooLarge) => fixed < max_pkt_size && total > 255,
                    Err(_) => false,
                }
            }),
    {
        let text = addr.text();
        let addr_bytes = bytes_of(text.as_str().as_bytes());
        let fixed_size: usize = 8 + addr_bytes.len() + var_size(addr_bytes.len() as u32 as u64);
        if max_pkt_size <= fixed_size {
            return Err(CodecError::UdpAddressTooLarge);
        }
        let max_data: usize = max_pkt_size - fixed_size;
        let total: usize = if payload.len() == 0 {
            1
        } else {
            ceil_div(payload.len(), max_data)
        };
        if total > 255 {
            return Err(CodecError::UdpPayloadTooLarge);
        }
        Ok(
            Fragments {
                session_id,
                pkt_id,
                addr: addr_bytes,
                frag_total: total as u8,
                next_frag_id: 0,
                next_frag_start: 0,
                payload,
                max_pkt_size,
                fixed_size,
            },
        )
    }

    /// How many fragments are left.
    pub fn len(&self) -> (left: usize)
        requires
            self.wf(),
        ensures
            left == self.frag_total - self.next_frag_id,
    {
        (self.frag_total - self.next_frag_id) as usize
    }

    /// The next fragment, until all have been made.
    pub fn next(&mut self) -> (fragment: Option<Vec<u8>>)
        requires
            old(self).wf(),
        ensures
            final(self).wf(),
            match fragment {
                Some(bytes) => {
                    &&& old(self).next_frag_id < old(self).frag_total
                    &&& bytes@ == old(self).fragment(old(self).next_frag_id as int)
                    &&& bytes@.len() <= old(self).max_pkt_size
                    &&& final(self).next_frag_id == old(self).next_frag_id + 1
                },
                None => {
                    &&& old(self).next_frag_id == old(self).frag_total
                    &&& final(self).next_frag_id == old(self).next_frag_id
                },
            },
            final(self).session_id == old(self).session_id,
            final(self).pkt_id == old(self).pkt_id,
            final(self).addr == old(self).addr,
            final(self).frag_total == old(self).frag_total,
            final(self).payload == old(self).payload,
            final(self).max_pkt_size == old(self).max_pkt_size,
            final(self).fixed_size == old(self).fixed_size,
    {
        if self.next_frag_id >= self.frag_total {
            return None;
        }
        let max_data: usize = self.max_pkt_size - self.fixed_size;
        let start: usize = self.next_frag_start;
        let end: usize = start + min_usize(max_data, self.payload.len() - start);
        let data = bytes_between(self.payload, start, end);
        let ghost index = self.next_frag_id as int;
        assert(data@ == fragment_data(self.payload@, self.max_data(), index));

        let mut buf = buffer_new();
        let head: [u8; 8] = [
            (self.session_id / 0x100_0000) as u8,
            ((self.session_id / 0x1_0000) % 0x100) as u8,
            ((self.session_id / 0x100) % 0x100) as u8,
            (self.session_id % 0x100) as u8,
            (self.pkt_id / 0x100) as u8,
            (self.pkt_id % 0x100) as u8,
            self.next_frag_id,
            self.frag_total,
        ];
        assert(head@ =~= u32_bytes(self.session_id) + u16_bytes(self.pkt_id) + seq![
            self.next_frag_id,
            self.frag_total,
        ]);
        buffer_extend(&mut buf, &head);
        varint_encode(self.addr.len() as u32, &mut buf);
        buffer_extend(&mut buf, self.addr.as_slice());
        buffer_extend(&mut buf, data.as_slice());
        let fragment = bytes_of(buffer_bytes(&buf));
        assert(fragment@ =~= self.fragment(index));
        proof {
            varint_round_trip(self.addr@.len() as u32 as u64, Seq::empty());
            assert((index + 1) * self.max_data() == index * self.max_data() + self.max_data())
                by (nonlinear_arith);
        }
        self.next_frag_id = self.next_frag_id + 1;
        self.next_frag_start = end;
        Some(fragment)
    }
}

/// What sending a datagram comes to over a connection whose datagrams hold
/// `max_size` bytes; `None` where it carries none.
pub open spec fn sending_matches(
    session_id: u32,
    pkt_id: u16,
    addr: Seq<u8>,
    max_size: Option<usize>,
    payload: Seq<u8>,
    sent: Result<Vec<Vec<u8>>, CodecError>,
) -> bool {
    match max_size {
        None => sent matches Err(error) && error == CodecError::NoDatagrams,
        Some(max) => {
            let max_data = max - fixed_size_spec(addr);
            let total = fragment_total(payload.len() as int, max_data);
            if max_data <= 0 {
                sent matches Err(error) && error == CodecError::UdpAddressTooLarge
            } else if total > 255 {
                sent matches Err(error) && error == CodecError::UdpPayloadTooLarge
            } else {
                &&& sent matches Ok(list)
                &&& list@.len() == total
                &&& forall|i: int|
                    0 <= i < total ==> (#[trigger] list@[i])@ == packet_bytes(
                        session_id,
                        pkt_id,
                        i as u8,
                        total as u8,
                        addr,
                        fragment_data(payload, max_data, i),
                    ) && list@[i]@.len() <= max
            }
        },
    }
}

/// The datagrams that carry a payload to the client.
pub fn send_hys_datagram(
    session_id: u32,
    pkt_id: u16,
    addr: SocksAddr,
    max_size: Option<usize>,
    payload: &[u8],
) -> (sent: Result<Vec<Vec<u8>>, CodecError>)
    requires
        fixed_size_spec(address_bytes(addr@)) <= usize::MAX,
    ensures
        sending_matches(session_id, pkt_id, address_bytes(addr@), max_size, payload@, sent),
{
    let max: usize = match max_size {
        Some(max) => max,
        None => {
            return Err(CodecError::NoDatagrams);
        },
    };
    let mut fragments = match Fragments::try_new(session_id, pkt_id, addr, max, payload) {
        Ok(fragments) => fragments,
        Err(error) => {
            return Err(error);
        },
    };
    let ghost whole = fragments;
    let mut sent: Vec<Vec<u8>> = Vec::new();
    while fragments.len() > 0
        invariant
            fragments.wf(),
            whole.wf(),
            fragments.session_id == whole.session_id,
            fragments.pkt_id == whole.pkt_id,
            fragments.addr == whole.addr,
            fragments.frag_total == whole.frag_total,
            fragments.payload == whole.payload,
            fragments.max_pkt_size == whole.max_pkt_size,
            fragments.fixed_size == whole.fixed_size,
            sent@.len() == fragments.next_frag_id,
            forall|i: int|
                0 <= i < sent@.len() ==> (#[trigger] sent@[i])@ == whole.fragment(i)
                    && sent@[i]@.len() <= whole.max_pkt_size,
        decreases fragments.frag_total - fragments.next_frag_id,
    {
        if let Some(fragment) = fragments.next() {
            sent.push(fragment);
        }
    }
    Ok(sent)
}

/// The packets of the fragments of a payload, as their receiver reads them.
pub open spec fn fragment_packets(
    session_id: u32,
    pkt_id: u16,
    addr: Target,
    payload: Seq<u8>,
    max_data: int,
) -> Seq<PacketModel> {
    let total = fragment_total(payload.len() as int, max_data);
    Seq::new(
        total as nat,
        |i: int|
            PacketModel {
                session_id,
                pkt_id,
                frag_id: i as u8,
                frag_count: total as u8,
                addr,
                data: fragment_data(payload, max_data, i),
            },
    )
}

/// The payloads of several packets, one behind the other.
pub open spec fn joined_data(packets: Seq<PacketModel>) -> Seq<u8>
    decreases packets.len(),
{
    if packets.len() == 0 {
        Seq::empty()
    } else {
        joined_data(packets.drop_last()) + packets.last().data
    }
}

/// Every fragment is read back with its numbers, the count, its part of the
/// payload, and the destination as its textual form tells it.
pub proof fn fragment_round_trip<'a>(fragments: Fragments<'a>, addr: Target, index: int)
    requires
        fragments.wf(),
        fragments.addr@ == address_bytes(addr),
        address_bytes(addr).len() <= u32::MAX,
        0 <= index < fragments.frag_total,
    ensures
        packet_spec(fragments.fragment(index)) == Ok::<PacketModel, CodecError>(
            fragment_packets(
                fragments.session_id,
                fragments.pkt_id,
                read_back(addr),
                fragments.payload@,
                fragments.max_data(),
            )[index],
        ),
        is_plain(addr) ==> read_back(addr) == addr,
{
    packet_round_trip(
        fragment_packets(
            fragments.session_id,
            fragments.pkt_id,
            addr,
            fragments.payload@,
            fragments.max_data(),
        )[index],
    );
}

/// What was sent is read as the fragments of the payload.
pub proof fn sent_fragments_are_read(
    session_id: u32,
    pkt_id: u16,
    addr: Target,
    max_size: usize,
    payload: Seq<u8>,
    sent: Vec<Vec<u8>>,
    index: int,
)
    requires
        address_bytes(addr).len() <= u32::MAX,
        sending_matches(
            session_id,
            pkt_id,
            address_bytes(addr),
            Some(max_size),
            payload,
            Ok(sent),
        ),
        0 <= index < sent@.len(),
    ensures
        packet_spec(sent@[index]@) == Ok::<PacketModel, CodecError>(
            fragment_packets(
                session_id,
                pkt_id,
                read_back(addr),
                payload,
                max_size - fixed_size_spec(address_bytes(addr)),
            )[index],
        ),
        is_plain(addr) ==> read_back(addr) == addr,
{
    packet_round_trip(
        fragment_packets(
            session_id,
            pkt_id,
            addr,
            payload,
            max_size - fixed_size_spec(address_bytes(addr)),
        )[index],
    );
}

/// No fragment is longer than the limit, and all but the last reach it.
pub proof fn fragments_fill_the_limit<'a>(fragments: Fragments<'a>, index: int)
    requires
        fragments.wf(),
        0 <= index < fragments.frag_total,
    ensures
        fragments.fragment(index).len() <= fragments.max_pkt_size,
        index + 1 < fragments.frag_total ==> fragments.fragment(index).len()
            == fragments.max_pkt_size,
{
    let len = fragments.payload@.len() as int;
    let max_data = fragments.max_data();
    let total = fragments.frag_total as int;
    varint_round_trip(fragments.addr@.len() as u32 as u64, Seq::empty());
    assert(index * max_data >= 0) by (nonlinear_arith)
        requires
            index >= 0,
            max_data > 0,
    ;
    if index + 1 < total {
        vstd::arithmetic::div_mod::lemma_fundamental_div_mod(len + max_data - 1, max_data);
        assert((index + 1) * max_data <= len) by (nonlinear_arith)
            requires
                index + 1 < total,
                max_data > 0,
                len + max_data - 1 == max_data * total + (len + max_data - 1) % max_data,
                (len + max_data - 1) % max_data < max_data,
                (len + max_data - 1) % max_data >= 0,
        ;
        assert((index + 1) * max_data == index * max_data + max_data) by (nonlinear_arith);
    }
}

/// The parts that the fragments carry make up the payload, each once and in order.
pub proof fn fragments_make_up_payload(
    session_id: u32,
    pkt_id: u16,
    addr: Target,
    payload: Seq<u8>,
    max_data: int,
)
    requires
        max_data > 0,
    ensures
        joined_data(fragment_packets(session_id, pkt_id, addr, payload, max_data)) == payload,
{
    let packets = fragment_packets(session_id, pkt_id, addr, payload, max_data);
    let total = fragment_total(payload.len() as int, max_data);
    let len = payload.len() as int;
    assert(total >= 1 && total * max_data >= len) by {
        if len > 0 {
            vstd::arithmetic::div_mod::lemma_fundamental_div_mod(len + max_data - 1, max_data);
            assert(total * max_data >= len) by (nonlinear_arith)
                requires
                    len + max_data - 1 == max_data * total + (len + max_data - 1) % max_data,
                    (len + max_data - 1) % max_data < max_data,
            ;
            assert(total >= 1) by (nonlinear_arith)
                requires
                    total * max_data >= len,
                    len > 0,
                    max_data > 0,
            ;
        } else {
            assert(total * max_data >= len) by (nonlinear_arith)
                requires
                    total == 1,
                    max_data > 0,
                    len == 0,
            ;
        }
    }
    first_fragments_make_up(session_id, pkt_id, addr, payload, max_data, total);
    assert(packets.take(total) =~= packets);
    assert(payload.take(len) =~= payload);
}

proof fn first_fragments_make_up(
    session_id: u32,
    pkt_id: u16,
    addr: Target,
    payload: Seq<u8>,
    max_data: int,
    count: int,
)
    requires
        max_data > 0,
        0 <= count <= fragment_total(payload.len() as int, max_data),
    ensures
        joined_data(
            fragment_packets(session_id, pkt_id, addr, payload, max_data).take(count),
        ) == payload.take(min_int(count * max_data, payload.len() as int)),
    decreases count,
{
    let packets = fragment_packets(session_id, pkt_id, addr, payload, max_data);
    let len = payload.len() as int;
    if count == 0 {
        assert(packets.take(0) =~= Seq::<PacketModel>::empty());
        assert(payload.take(0) =~= Seq::<u8>::empty());
    } else {
        first_fragments_make_up(session_id, pkt_id, addr, payload, max_data, count - 1);
        assert(packets.take(count).drop_last() =~= packets.take(count - 1));
        assert(count * max_data == (count - 1) * max_data + max_data) by (nonlinear_arith);
        assert((count - 1) * max_data >= 0) by (nonlinear_arith)
            requires
                count >= 1,
                max_data > 0,
        ;
        let before = payload.take(min_int((count - 1) * max_data, len));
        let data = fragment_data(payload, max_data, count - 1);
        assert(packets.take(count).last().data == data);
        assert(before + data =~= payload.take(min_int(count * max_data, len)));
    }
}

/// Division that rounds up.
fn ceil_div(value: usize, by: usize) -> (quotient: usize)
    requires
        by > 0,
        value > 0,
    ensures
        quotient == (value + by - 1) / by as int,
{
    let below: usize = (value - 1) / by;
    proof {
        vstd::arithmetic::div_mod::lemma_div_plus_one(value - 1, by as int);
    }
    if by == 1 {
        assert((value - 1) / 1 == value - 1);
    }
    assert(below < usize::MAX) by {
        vstd::arithmetic::div_mod::lemma_div_is_ordered_by_denominator(value - 1, 1, by as int);
        assert((value - 1) / 1 == value - 1);
    }
    below + 1
}

} // verus!
