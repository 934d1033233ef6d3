//! What becomes of answers and datagrams that are broken or long.

use vstd::prelude::*;
use vstd::utf8::*;

use crate::hysteria2::codec::{response_rest, response_spec};
use crate::hysteria2::error::CodecError;
use crate::hysteria2::sessions::UdpSessions;
use crate::hysteria2::udp::{packet_rest, packet_spec};
use crate::hysteria2::varint::{varint_bytes, varint_round_trip, varint_spec};
use crate::text::utf8_fault;
use crate::web::{all_visible, escaped_len, is_header_value, is_visible, visible_text};

verus! {

/// The two highest bits of the first byte tell how many bytes a number takes,
/// even where fewer would do; the others are its highest bits. Without all of
/// its bytes there is no number.
pub proof fn numbers_are_read_in_every_length(top: u8, a: u8, b: u8, c: u8, rest: Seq<u8>)
    requires
        top < 64,
    ensures
        varint_spec(seq![top] + rest) == Some((top as u64, 1int)),
        varint_spec(seq![(64 + top) as u8, a] + rest) == Some(((256 * top + a) as u64, 2int)),
        varint_spec(seq![(128 + top) as u8, a, b, c] + rest) == Some(
            ((16777216 * top + 65536 * a + 256 * b + c) as u64, 4int),
        ),
        varint_spec(Seq::<u8>::empty()) is None,
        varint_spec(seq![(64 + top) as u8]) is None,
        varint_spec(seq![(128 + top) as u8, a, b]) is None,
        rest.len() < 7 ==> varint_spec(seq![(192 + top) as u8] + rest) is None,
        rest.len() >= 7 ==> varint_spec(seq![(192 + top) as u8] + rest) == Some(
            (
                (72057594037927936 * top + 281474976710656 * rest[0] + 1099511627776 * rest[1]
                    + 4294967296 * rest[2] + 16777216 * rest[3] + 65536 * rest[4] + 256 * rest[5]
                    + rest[6]) as u64,
                8int,
            ),
        ),
{
    reveal(varint_spec);
    assert(((64 + top) as u8) % 64 == top && ((128 + top) as u8) % 64 == top && ((192
        + top) as u8) % 64 == top);
}

/// An answer breaks off where its status, its message or its padding is missing,
/// and is refused where its message is no text.
pub proof fn broken_answers_are_told(status: u8, msg: Seq<u8>, len: u64, rest: Seq<u8>)
    requires
        msg.len() <= 0xffff_ffff,
        rest.len() < len <= 0xffff_ffff,
    ensures
        ({
            let head = seq![status] + varint_bytes(msg.len() as u64) + msg;
            let eof = Err::<(u8, Seq<char>, int), CodecError>(CodecError::UnexpectedEof);
            &&& response_spec(Seq::empty()) == eof
            &&& response_spec(seq![status]) == Err::<(u8, Seq<char>, int), CodecError>(
                CodecError::MessageLength,
            )
            &&& response_spec(seq![status] + varint_bytes(len) + rest) == eof
            &&& response_rest(seq![status] + varint_bytes(len) + rest) == rest
            &&& !valid_utf8(msg) ==> response_spec(head + rest) == Err::<
                (u8, Seq<char>, int),
                CodecError,
            >(CodecError::MessageUtf8(utf8_fault(msg).0, utf8_fault(msg).1)) && response_rest(
                head + rest,
            ) == rest
            &&& valid_utf8(msg) ==> response_spec(head) == eof && response_spec(
                head + varint_bytes(len) + rest,
            ) == eof && response_rest(head + varint_bytes(len) + rest) == rest
        }),
{
    let none = Seq::<u8>::empty();
    let mlen = varint_bytes(msg.len() as u64);
    let plen = varint_bytes(len);
    let head = seq![status] + mlen + msg;
    assert(varint_spec(none) is None) by {
        reveal(varint_spec);
    }
    assert(seq![status].skip(1) =~= none);
    let short = seq![status] + plen + rest;
    varint_round_trip(len, rest);
    assert(short.skip(1) =~= plen + rest);
    assert(short.skip(1 + plen.len() as int) =~= rest);
    let first = head + rest;
    varint_round_trip(msg.len() as u64, msg + rest);
    assert(first.skip(1) =~= mlen + (msg + rest));
    assert(first.subrange(1 + mlen.len() as int, 1 + mlen.len() as int + msg.len()) =~= msg);
    assert(first.skip(1 + mlen.len() as int + msg.len()) =~= rest);
    varint_round_trip(msg.len() as u64, msg);
    assert(head.skip(1) =~= mlen + msg);
    assert(head.subrange(1 + mlen.len() as int, 1 + mlen.len() as int + msg.len()) =~= msg);
    assert(head.skip(1 + mlen.len() as int + msg.len()) =~= none);
    let second = head + plen + rest;
    varint_round_trip(msg.len() as u64, msg + plen + rest);
    assert(second.skip(1) =~= mlen + (msg + plen + rest));
    assert(second.subrange(1 + mlen.len() as int, 1 + mlen.len() as int + msg.len()) =~= msg);
    assert(second.skip(1 + mlen.len() as int + msg.len()) =~= plen + rest);
    assert((plen + rest).skip(plen.len() as int) =~= rest);
}

/// A datagram that is read is taken whole, and one that is too short is left as
/// it is. Where the length of the address is too much for it, what follows that
/// length is left.
pub proof fn datagrams_are_taken_whole(input: Seq<u8>, head: Seq<u8>, len: u64, rest: Seq<u8>)
    requires
        head.len() == 8,
        rest.len() < len <= 0xffff_ffff,
    ensures
        packet_spec(input) is Ok ==> packet_rest(input).len() == 0,
        input.len() < 8 ==> packet_rest(input) == input,
        packet_rest(head + varint_bytes(len) + rest) == rest,
        packet_rest(head).len() == 0,
{
    let broken = head + varint_bytes(len) + rest;
    varint_round_trip(len, rest);
    assert(broken.skip(8) =~= varint_bytes(len) + rest);
    assert((varint_bytes(len) + rest).skip(varint_bytes(len).len() as int) =~= rest);
    assert(varint_spec(head.skip(8)) is None) by {
        reveal(varint_spec);
    }
}

/// A connection keeps at most 512 sessions, each with at most 64 datagrams that
/// are on their way, of at most 64 fragments, for half a minute.
pub proof fn connections_keep_to_their_limits(sessions: UdpSessions, i: int)
    requires
        sessions.wf(),
        0 <= i < sessions.entries@.len(),
    ensures
        sessions@.len() <= 512,
        sessions.entries@[i].defragger.max_packets == 64,
        sessions.entries@[i].defragger.max_fragments_per_packet == 64,
        sessions.entries@[i].defragger.packet_ttl_nanos == 30_000_000_000,
        forall|a: int, b: int|
            0 <= a < b < sessions@.len() ==> (#[trigger] sessions@[a]).session_id != (
            #[trigger] sessions@[b]).session_id,
{
}

/// A header shows its bytes as they are, one character each, if all of them are
/// printable ASCII or tabs; any other value is not shown.
pub proof fn headers_show_plain_bytes(front: Seq<u8>, byte: u8, back: Seq<u8>)
    ensures
        ({
            let value = front + seq![byte] + back;
            &&& visible_text(value).len() == value.len()
            &&& byte < 128 ==> visible_text(value)[front.len() as int] as u32 == byte
            &&& all_visible(value) <==> (byte == 9 || 32 <= byte <= 126) && all_visible(front)
                && all_visible(back)
            &&& is_header_value(value) <==> (byte == 9 || 32 <= byte <= 126 || byte >= 128)
                && is_header_value(front) && is_header_value(back)
            &&& all_visible(Seq::empty())
        }),
{
    let value = front + seq![byte] + back;
    let n = front.len() as int;
    assert(value[n] == byte);
    assert forall|i: int| 0 <= i < front.len() implies #[trigger] front[i] == value[i] by {}
    assert forall|i: int| 0 <= i < back.len() implies #[trigger] back[i] == value[n + 1 + i] by {}
    if all_visible(front) && all_visible(back) && (byte == 9 || 32 <= byte <= 126) {
        assert forall|i: int| 0 <= i < value.len() implies is_visible(
            #[trigger] value[i],
        ) by {
            if i < n {
                assert(is_visible(front[i]));
            } else if i > n {
                assert(is_visible(back[i - n - 1]));
            }
        }
    }
    if all_visible(value) {
        assert forall|i: int| 0 <= i < front.len() implies is_visible(
            #[trigger] front[i],
        ) by {
            assert(is_visible(value[i]));
        }
        assert forall|i: int| 0 <= i < back.len() implies is_visible(
            #[trigger] back[i],
        ) by {
            assert(is_visible(value[n + 1 + i]));
        }
        assert(is_visible(value[n]));
    }
    if is_header_value(value) {
        assert forall|i: int| 0 <= i < back.len() implies ((#[trigger] back[i]) >= 0x20 && back[i]
            != 0x7f) || back[i] == 0x09 by {
            assert(back[i] == value[n + 1 + i]);
        }
        assert forall|i: int| 0 <= i < front.len() implies ((#[trigger] front[i]) >= 0x20 && front[i]
            != 0x7f) || front[i] == 0x09 by {
            assert(front[i] == value[i]);
        }
        assert(value[n] == byte);
    }
    if is_header_value(front) && is_header_value(back) && (byte == 9 || 32 <= byte <= 126 || byte
        >= 128) {
        assert forall|i: int| 0 <= i < value.len() implies ((#[trigger] value[i]) >= 0x20 && value[i]
            != 0x7f) || value[i] == 0x09 by {
            if i < n {
                assert(value[i] == front[i]);
            } else if i > n {
                assert(value[i] == back[i - n - 1]);
            }
        }
    }
}

/// The room that bytes take in a URL is counted byte by byte: one for each that
/// can stand in it as it is, three for each that cannot.
pub proof fn room_in_urls_is_counted(bytes: Seq<u8>, byte: u8)
    ensures
        escaped_len(Seq::empty(), true) == 0,
        escaped_len(Seq::empty(), false) == 0,
        escaped_len(bytes.push(byte), true) == escaped_len(bytes, true) + (if byte <= 32 || byte
            >= 127 || byte == 34 || byte == 35 || byte == 39 || byte == 60 || byte == 62 {
            3int
        } else {
            1
        }),
        escaped_len(bytes.push(byte), false) == escaped_len(bytes, false) + (if byte <= 32 || byte
            >= 127 || byte == 34 || byte == 35 || byte == 60 || byte == 62 || byte == 63 || byte
            == 96 || byte == 123 || byte == 125 {
            3int
        } else {
            1
        }),
{
    assert(bytes.push(byte).drop_last() =~= bytes);
}

} // verus!
