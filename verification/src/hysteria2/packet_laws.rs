//! What streams and datagrams look like on the wire.

use vstd::prelude::*;
use vstd::utf8::*;

use crate::hysteria2::address::{address_bytes, address_round_trip, address_spec, port_from};
use crate::hysteria2::codec::{
    request_bytes, request_spec, response_bytes, response_rest, response_spec, Decoded,
};
use crate::hysteria2::error::CodecError;
use crate::hysteria2::udp::{
    fixed_size_spec, fragment_total, packet_bytes, packet_spec, sending_matches, PacketModel,
};
use crate::hysteria2::varint::{
    varint_bytes, varint_round_trip, varint_size, varint_spec,
};
use crate::net::addr::{SocketAddr, Target};
use crate::net::laws::socket_addr_round_trip;
use crate::net::parse::socket_addr_of_text;
use crate::net::print::{ip_text, target_text};
use crate::text::{decimal_text, last_at};

verus! {

/// A short number is one byte; a longer one takes two, four or eight bytes, the
/// highest first, and is marked by the two highest bits of the first.
pub proof fn numbers_take_one_to_eight_bytes(value: u64)
    ensures
        value < 64 ==> varint_bytes(value) == seq![value as u8],
        64 <= value < 16384 ==> varint_bytes(value) == seq![
            (64 + value / 256) as u8,
            (value % 256) as u8,
        ],
        16384 <= value < 1073741824 ==> varint_bytes(value).len() == 4 && varint_bytes(value)[0]
            == 128 + value / 16777216 && varint_bytes(value)[1] == (value / 65536) % 256
            && varint_bytes(value)[2] == (value / 256) % 256 && varint_bytes(value)[3] == value
            % 256,
        1073741824 <= value < 4611686018427387904 ==> varint_bytes(value).len() == 8
            && varint_bytes(value)[0] == 192 + value / 72057594037927936,
{
    reveal(varint_bytes);
}

/// The bytes of a stream's request: the identifier, the address with its length
/// in front, and the padding with its length in front.
pub open spec fn stream_request(address: Seq<u8>, padding: Seq<u8>) -> Seq<u8> {
    seq![0x44u8, 0x01u8] + varint_bytes(address.len() as u64) + address + varint_bytes(
        padding.len() as u64,
    ) + padding
}

proof fn request_id_bytes(rest: Seq<u8>)
    ensures
        varint_bytes(0x401) == seq![0x44u8, 0x01u8],
        varint_spec(seq![0x44u8, 0x01u8] + rest) == Some((0x401u64, 2int)),
{
    numbers_take_one_to_eight_bytes(0x401);
    varint_round_trip(0x401, rest);
    assert(varint_bytes(0x401) =~= seq![0x44u8, 0x01u8]);
}

/// A request with an address of up to 1024 bytes and padding of up to 16384 is
/// read, whatever follows it: as what its address says.
pub proof fn stream_requests_are_read(address: Seq<u8>, padding: Seq<u8>, rest: Seq<u8>)
    requires
        address.len() <= 1024,
        padding.len() <= 16384,
    ensures
        request_spec(stream_request(address, padding) + rest) == match address_spec(address) {
            Ok(target) => Decoded::Request(target, stream_request(address, padding).len() as int),
            Err(error) => Decoded::Bad(error),
        },
{
    let input = stream_request(address, padding) + rest;
    let alen = varint_bytes(address.len() as u64);
    let plen = varint_bytes(padding.len() as u64);
    request_id_bytes(alen + address + plen + padding + rest);
    assert(input =~= seq![0x44u8, 0x01u8] + (alen + address + plen + padding + rest));
    varint_round_trip(address.len() as u64, address + plen + padding + rest);
    assert(input.skip(2) =~= alen + (address + plen + padding + rest));
    let start = 2 + alen.len() as int;
    let end = start + address.len();
    varint_round_trip(padding.len() as u64, padding + rest);
    assert(input.skip(end) =~= plen + (padding + rest));
    assert(input.subrange(start, end) =~= address);
}

/// A longer address or longer padding is refused as soon as its length is there.
pub proof fn long_stream_requests_are_refused(address: Seq<u8>, len: u64, rest: Seq<u8>)
    requires
        address.len() <= 1024,
        len <= 0xffff_ffff,
    ensures
        len > 1024 ==> request_spec(seq![0x44u8, 0x01u8] + varint_bytes(len) + rest)
            == Decoded::Bad(CodecError::AddressLimit(len as usize)),
        len > 16384 ==> request_spec(
            seq![0x44u8, 0x01u8] + varint_bytes(address.len() as u64) + address + varint_bytes(len)
                + rest,
        ) == Decoded::Bad(CodecError::PaddingLimit(len as usize)),
{
    let one = seq![0x44u8, 0x01u8] + varint_bytes(len) + rest;
    request_id_bytes(varint_bytes(len) + rest);
    assert(one =~= seq![0x44u8, 0x01u8] + (varint_bytes(len) + rest));
    varint_round_trip(len, rest);
    assert(one.skip(2) =~= varint_bytes(len) + rest);
    let alen = varint_bytes(address.len() as u64);
    let two = seq![0x44u8, 0x01u8] + alen + address + varint_bytes(len) + rest;
    request_id_bytes(alen + address + varint_bytes(len) + rest);
    assert(two =~= seq![0x44u8, 0x01u8] + (alen + address + varint_bytes(len) + rest));
    varint_round_trip(address.len() as u64, address + varint_bytes(len) + rest);
    assert(two.skip(2) =~= alen + (address + varint_bytes(len) + rest));
    assert(two.skip(2 + alen.len() + address.len() as int) =~= varint_bytes(len) + rest);
}

/// Another identifier is refused.
pub proof fn other_identifiers_are_refused(id: u64, rest: Seq<u8>)
    requires
        id < 4611686018427387904,
        id != 0x401,
    ensures
        request_spec(varint_bytes(id) + rest) == Decoded::Bad(CodecError::RequestId(id)),
{
    varint_round_trip(id, rest);
}

/// A request that lacks a byte of its address, or of its padding, is waited for.
pub proof fn short_stream_requests_are_waited_for(address: Seq<u8>, padding: Seq<u8>)
    requires
        address.len() <= 1024,
        padding.len() <= 16384,
    ensures
        address.len() > 0 ==> request_spec(
            seq![0x44u8, 0x01u8] + varint_bytes(address.len() as u64) + address.drop_last(),
        ) is More,
        padding.len() > 0 ==> request_spec(stream_request(address, padding).drop_last()) is More,
{
    if address.len() > 0 {
        short_address(address);
    }
    if padding.len() > 0 {
        short_padding(address, padding);
    }
}

proof fn short_address(address: Seq<u8>)
    requires
        0 < address.len() <= 1024,
    ensures
        request_spec(
            seq![0x44u8, 0x01u8] + varint_bytes(address.len() as u64) + address.drop_last(),
        ) is More,
{
    let alen = varint_bytes(address.len() as u64);
    let left = address.drop_last();
    let short = seq![0x44u8, 0x01u8] + alen + left;
    request_id_bytes(alen + left);
    assert(short =~= seq![0x44u8, 0x01u8] + (alen + left));
    varint_round_trip(address.len() as u64, left);
    assert(short.skip(2) =~= alen + left);
}

proof fn short_padding(address: Seq<u8>, padding: Seq<u8>)
    requires
        address.len() <= 1024,
        0 < padding.len() <= 16384,
    ensures
        request_spec(stream_request(address, padding).drop_last()) is More,
{
    let alen = varint_bytes(address.len() as u64);
    let plen = varint_bytes(padding.len() as u64);
    let left = padding.drop_last();
    let short = stream_request(address, padding).drop_last();
    assert(short =~= seq![0x44u8, 0x01u8] + (alen + address + plen + left));
    request_id_bytes(alen + address + plen + left);
    varint_round_trip(address.len() as u64, address + plen + left);
    assert(short.skip(2) =~= alen + (address + plen + left));
    varint_round_trip(padding.len() as u64, left);
    assert(short.skip(2 + alen.len() + address.len() as int) =~= plen + left);
}

/// A client's request is written in the same form.
pub proof fn stream_requests_are_written(target: Target, padding: Seq<u8>)
    requires
        address_bytes(target).len() <= 0xffff_ffff,
    ensures
        request_bytes(target, padding) == stream_request(encode_utf8(target_text(target)), padding),
{
    request_id_bytes(Seq::empty());
    assert(request_bytes(target, padding) =~= stream_request(
        encode_utf8(target_text(target)),
        padding,
    ));
}

/// An answer is its status, the message with its length in front, and the
/// padding with its length in front; what follows it is left.
pub proof fn stream_answers_are_framed(
    status: u8,
    msg: Seq<char>,
    padding: Seq<u8>,
    rest: Seq<u8>,
)
    requires
        encode_utf8(msg).len() <= 0xffff_ffff,
        padding.len() <= 0xffff_ffff,
    ensures
        ({
            let bytes = encode_utf8(msg);
            let answer = seq![status] + varint_bytes(bytes.len() as u64) + bytes + varint_bytes(
                padding.len() as u64,
            ) + padding;
            &&& response_bytes(status, bytes, padding) == answer
            &&& response_spec(answer + rest) == Ok::<(u8, Seq<char>, int), CodecError>(
                (status, msg, answer.len() as int),
            )
            &&& response_rest(answer + rest) == rest
        }),
{
    let bytes = encode_utf8(msg);
    let mlen = varint_bytes(bytes.len() as u64);
    let answer = seq![status] + mlen + bytes + varint_bytes(padding.len() as u64) + padding;
    assert(response_bytes(status, bytes, padding) =~= answer);
    crate::hysteria2::codec::response_round_trip(status, msg, padding, rest);
    let input = answer + rest;
    varint_round_trip(
        bytes.len() as u64,
        bytes + varint_bytes(padding.len() as u64) + padding + rest,
    );
    assert(input.skip(1) =~= mlen + (bytes + varint_bytes(padding.len() as u64) + padding + rest));
    assert(input.subrange(1 + mlen.len() as int, 1 + mlen.len() + bytes.len() as int) =~= bytes);
    encode_utf8_valid_utf8(msg);
    assert(input.skip(answer.len() as int) =~= rest);
}

/// The eight bytes in front of a datagram's address: session, packet, fragment
/// and count, the highest byte of each number first.
pub open spec fn datagram_head(session_id: u32, pkt_id: u16, frag_id: u8, frag_count: u8) -> Seq<
    u8,
> {
    seq![
        (session_id / 16777216) as u8,
        ((session_id / 65536) % 256) as u8,
        ((session_id / 256) % 256) as u8,
        (session_id % 256) as u8,
        (pkt_id / 256) as u8,
        (pkt_id % 256) as u8,
        frag_id,
        frag_count,
    ]
}

/// A datagram is its head, the address with its length in front, and the
/// payload; it is read as such.
pub proof fn datagrams_are_framed(
    session_id: u32,
    pkt_id: u16,
    frag_id: u8,
    frag_count: u8,
    addr: Seq<u8>,
    data: Seq<u8>,
)
    requires
        addr.len() <= 0xffff_ffff,
    ensures
        ({
            let bytes = datagram_head(session_id, pkt_id, frag_id, frag_count) + varint_bytes(
                addr.len() as u64,
            ) + addr + data;
            &&& packet_bytes(session_id, pkt_id, frag_id, frag_count, addr, data) == bytes
            &&& packet_spec(bytes) == match address_spec(addr) {
                Ok(target) => Ok::<PacketModel, CodecError>(
                    PacketModel { session_id, pkt_id, frag_id, frag_count, addr: target, data },
                ),
                Err(error) => Err(error),
            }
            &&& fixed_size_spec(addr) == bytes.len() - data.len()
        }),
{
    let head = datagram_head(session_id, pkt_id, frag_id, frag_count);
    let alen = varint_bytes(addr.len() as u64);
    let bytes = head + alen + addr + data;
    assert(packet_bytes(session_id, pkt_id, frag_id, frag_count, addr, data) =~= bytes);
    varint_round_trip(addr.len() as u64, addr + data);
    assert(bytes.skip(8) =~= alen + (addr + data));
    let start = 8 + alen.len() as int;
    assert(bytes.subrange(start, start + addr.len()) =~= addr);
    assert(bytes.skip(start + addr.len()) =~= data);
    assert(forall|i: int| 0 <= i < 8 ==> bytes[i] == #[trigger] head[i]);
    assert(bytes[0] == head[0]);
    assert(bytes[1] == head[1]);
    assert(bytes[2] == head[2]);
    assert(bytes[3] == head[3]);
    assert(bytes[4] == head[4]);
    assert(bytes[5] == head[5]);
    assert(bytes[6] == head[6]);
    assert(bytes[7] == head[7]);
}

/// A datagram of fewer than eight bytes is too short, and one whose address is
/// cut off is refused.
pub proof fn short_datagrams_are_refused(head: Seq<u8>, addr_len: u64, rest: Seq<u8>)
    requires
        head.len() == 8,
        rest.len() < addr_len <= 0xffff_ffff,
    ensures
        forall|short: Seq<u8>|
            short.len() < 8 ==> #[trigger] packet_spec(short) == Err::<PacketModel, CodecError>(
                CodecError::PacketTooShort,
            ),
        packet_spec(head) == Err::<PacketModel, CodecError>(CodecError::AddressLengthVarint),
        packet_spec(head + varint_bytes(addr_len) + rest) == Err::<PacketModel, CodecError>(
            CodecError::AddressExceedsPacket(addr_len as usize, rest.len() as usize),
        ),
{
    assert(varint_spec(head.skip(8)) is None) by {
        reveal(varint_spec);
    }
    let bytes = head + varint_bytes(addr_len) + rest;
    varint_round_trip(addr_len, rest);
    assert(bytes.skip(8) =~= varint_bytes(addr_len) + rest);
}

/// A name with its port is read as that name and port, unless the two together
/// write an address; an address with its port is read as that address.
pub proof fn destinations_are_read(host: Seq<char>, port: u16, addr: SocketAddr)
    requires
        addr.flowinfo == 0,
        addr.ip is V4 ==> addr.scope_id == 0,
    ensures
        socket_addr_of_text(host + ":"@ + decimal_text(port as nat)) is None ==> address_spec(
            encode_utf8(host + ":"@ + decimal_text(port as nat)),
        ) == Ok::<Target, CodecError>(Target::Domain(host, port)),
        addr.ip is V4 ==> address_spec(
            encode_utf8(ip_text(addr.ip) + ":"@ + decimal_text(addr.port as nat)),
        ) == Ok::<Target, CodecError>(Target::Ip(addr)),
        addr.ip is V6 && addr.scope_id == 0 ==> address_spec(
            encode_utf8("["@ + ip_text(addr.ip) + "]:"@ + decimal_text(addr.port as nat)),
        ) == Ok::<Target, CodecError>(Target::Ip(addr)),
{
    address_round_trip(Target::Domain(host, port));
    address_round_trip(Target::Ip(addr));
    socket_addr_round_trip(addr);
    if addr.ip is V6 && addr.scope_id == 0 {
        assert("["@ + ip_text(addr.ip) + Seq::<char>::empty() + "]:"@ + decimal_text(
            addr.port as nat,
        ) =~= "["@ + ip_text(addr.ip) + "]:"@ + decimal_text(addr.port as nat));
    }
}

/// A destination is refused if it is no text, if it has no colon, or if what
/// follows its last colon is no port.
pub proof fn other_destinations_are_refused(s: Seq<char>, bytes: Seq<u8>, at: int)
    ensures
        !valid_utf8(bytes) ==> address_spec(bytes) == Err::<Target, CodecError>(
            CodecError::AddressUtf8,
        ),
        !s.contains(':') ==> address_spec(encode_utf8(s)) == Err::<Target, CodecError>(
            CodecError::AddressFormat,
        ),
        0 <= at < s.len() && s[at] == ':' && (forall|i: int|
            at < i < s.len() ==> #[trigger] s[i] != ':') && port_from(s, at + 1) is None
            ==> address_spec(encode_utf8(s)) == Err::<Target, CodecError>(CodecError::AddressPort),
{
    encode_utf8_valid_utf8(s);
    encode_utf8_decode_utf8(s);
    last_is(s, ':', s.len() as int, at);
}

proof fn last_is(s: Seq<char>, c: char, end: int, at: int)
    requires
        0 <= end <= s.len(),
    ensures
        !s.contains(c) ==> last_at(s, c, end) is None,
        0 <= at < end && s[at] == c && (forall|i: int| at < i < end ==> #[trigger] s[i] != c)
            ==> last_at(s, c, end) == Some(at),
    decreases end,
{
    if end > 0 {
        if s[end - 1] == c {
            assert(s.contains(c));
        }
        last_is(s, c, end - 1, at);
    }
}

/// A payload takes as few fragments as hold it, and an empty one takes one.
pub proof fn as_few_fragments_as_possible(len: int, max_data: int)
    requires
        0 <= len,
        max_data > 0,
    ensures
        fragment_total(0, max_data) == 1,
        len > 0 ==> (fragment_total(len, max_data) - 1) * max_data < len <= fragment_total(
            len,
            max_data,
        ) * max_data,
{
    if len > 0 {
        let total = (len + max_data - 1) / max_data;
        vstd::arithmetic::div_mod::lemma_fundamental_div_mod(len + max_data - 1, max_data);
        let rem = (len + max_data - 1) % max_data;
        assert(0 <= rem < max_data) by {
            vstd::arithmetic::div_mod::lemma_mod_bound(len + max_data - 1, max_data);
        }
        assert((total - 1) * max_data == total * max_data - max_data) by (nonlinear_arith);
        assert(max_data * total == total * max_data) by (nonlinear_arith);
    }
}

/// When a datagram can be sent: there must be room for a byte behind the
/// address, and 255 fragments must hold the payload.
pub proof fn datagrams_that_can_be_sent(
    session_id: u32,
    pkt_id: u16,
    addr: Seq<u8>,
    max_size: Option<usize>,
    payload: Seq<u8>,
    sent: Result<Vec<Vec<u8>>, CodecError>,
)
    requires
        sending_matches(session_id, pkt_id, addr, max_size, payload, sent),
    ensures
        max_size is None <==> sent == Err::<Vec<Vec<u8>>, CodecError>(CodecError::NoDatagrams),
        max_size matches Some(max) ==> {
            let room = max - fixed_size_spec(addr);
            &&& room <= 0 <==> sent == Err::<Vec<Vec<u8>>, CodecError>(
                CodecError::UdpAddressTooLarge,
            )
            &&& room > 0 && payload.len() > 255 * room <==> sent == Err::<
                Vec<Vec<u8>>,
                CodecError,
            >(CodecError::UdpPayloadTooLarge)
            &&& room > 0 && payload.len() <= 255 * room <==> sent is Ok
        },
{
    if let Some(max) = max_size {
        let room = max - fixed_size_spec(addr);
        if room > 0 {
            let len = payload.len() as int;
            as_few_fragments_as_possible(len, room);
            let total = fragment_total(len, room);
            if len > 0 {
                assert(total <= 255 ==> total * room <= 255 * room) by (nonlinear_arith)
                    requires
                        room > 0,
                ;
                assert(total > 255 ==> (total - 1) * room >= 255 * room) by (nonlinear_arith)
                    requires
                        room > 0,
                ;
            }
        }
    }
}

} // verus!
