//! Variable-length integers of QUIC.

use bytes::BytesMut;
use quinn_proto::coding::Codec;
use quinn_proto::VarInt;
use vstd::prelude::*;

use crate::buffer::buffered;

verus! {

/// One more than the largest number that a variable-length integer holds.
pub const VARINT_END: u64 = 0x4000_0000_0000_0000;

/// Byte `index` of a number, counted from the lowest.
pub open spec fn byte_of(value: u64, index: int) -> u8 {
    if index == 0 {
        (value % 0x100) as u8
    } else if index == 1 {
        ((value / 0x100) % 0x100) as u8
    } else if index == 2 {
        ((value / 0x1_0000) % 0x100) as u8
    } else if index == 3 {
        ((value / 0x100_0000) % 0x100) as u8
    } else if index == 4 {
        ((value / 0x1_0000_0000) % 0x100) as u8
    } else if index == 5 {
        ((value / 0x100_0000_0000) % 0x100) as u8
    } else if index == 6 {
        ((value / 0x1_0000_0000_0000) % 0x100) as u8
    } else {
        (value / 0x100_0000_0000_0000) as u8
    }
}

/// How many bytes a number takes.
pub open spec fn varint_size(value: u64) -> int {
    if value < 0x40 {
        1
    } else if value < 0x4000 {
        2
    } else if value < 0x4000_0000 {
        4
    } else {
        8
    }
}

/// A number in the shortest of four lengths, big-endian; the two highest bits
/// of the first byte tell the length.
#[verifier::opaque]
pub open spec fn varint_bytes(value: u64) -> Seq<u8> {
    if value < 0x40 {
        seq![value as u8]
    } else if value < 0x4000 {
        seq![(0x40 + byte_of(value, 1)) as u8, byte_of(value, 0)]
    } else if value < 0x4000_0000 {
        seq![
            (0x80 + byte_of(value, 3)) as u8,
            byte_of(value, 2),
            byte_of(value, 1),
            byte_of(value, 0),
        ]
    } else {
        seq![
            (0xc0 + byte_of(value, 7)) as u8,
            byte_of(value, 6),
            byte_of(value, 5),
            byte_of(value, 4),
            byte_of(value, 3),
            byte_of(value, 2),
            byte_of(value, 1),
            byte_of(value, 0),
        ]
    }
}

/// Length of the integer that starts with `first`.
pub open spec fn varint_len(first: u8) -> int {
    if first < 0x40 {
        1
    } else if first < 0x80 {
        2
    } else if first < 0xc0 {
        4
    } else {
        8
    }
}

/// The number at the front of `bytes`, and how many bytes it takes.
#[verifier::opaque]
pub open spec fn varint_spec(bytes: Seq<u8>) -> Option<(u64, int)> {
    let len = varint_len(bytes[0]);
    let top = bytes[0] % 64;
    if bytes.len() == 0 || bytes.len() < len {
        None
    } else if len == 1 {
        Some((top as u64, 1))
    } else if len == 2 {
        Some(((top * 0x100 + bytes[1]) as u64, 2))
    } else if len == 4 {
        Some(
            (
                (top * 0x100_0000 + bytes[1] * 0x1_0000 + bytes[2] * 0x100 + bytes[3]) as u64,
                4,
            ),
        )
    } else {
        Some(
            (
                (top * 0x100_0000_0000_0000 + bytes[1] * 0x1_0000_0000_0000 + bytes[2]
                    * 0x100_0000_0000 + bytes[3] * 0x1_0000_0000 + bytes[4] * 0x100_0000 + bytes[5]
                    * 0x1_0000 + bytes[6] * 0x100 + bytes[7]) as u64,
                8,
            ),
        )
    }
}

/// A number that was written is read back, whatever follows it.
pub proof fn varint_round_trip(value: u64, rest: Seq<u8>)
    requires
        value < VARINT_END,
    ensures
        varint_spec(varint_bytes(value) + rest) == Some((value, varint_size(value))),
        varint_bytes(value).len() == varint_size(value),
{
    reveal(varint_bytes);
    reveal(varint_spec);
    let bytes = varint_bytes(value) + rest;
    bytes_make_up_number(value);
    if value < 0x40 {
        assert(bytes[0] == value);
    } else if value < 0x4000 {
        assert(byte_of(value, 1) < 0x40);
        assert(bytes[0] == 0x40 + byte_of(value, 1));
        assert(bytes[1] == byte_of(value, 0));
    } else if value < 0x4000_0000 {
        assert(byte_of(value, 3) < 0x40);
        assert(bytes[0] == 0x80 + byte_of(value, 3));
        assert(bytes[1] == byte_of(value, 2));
        assert(bytes[2] == byte_of(value, 1));
        assert(bytes[3] == byte_of(value, 0));
    } else {
        eight_bytes_read_back(value, rest);
    }
}

proof fn bytes_make_up_number(value: u64)
    ensures
        value < 0x1_0000 ==> value == byte_of(value, 1) * 0x100 + byte_of(value, 0),
        value < 0x1_0000_0000 ==> value == byte_of(value, 3) * 0x100_0000 + byte_of(value, 2)
            * 0x1_0000 + byte_of(value, 1) * 0x100 + byte_of(value, 0),
{
    let q1 = value / 0x100;
    let q2 = value / 0x1_0000;
    let q3 = value / 0x100_0000;
    assert(q2 == q1 / 0x100);
    assert(q3 == q2 / 0x100);
}

proof fn eight_bytes_read_back(value: u64, rest: Seq<u8>)
    requires
        0x4000_0000 <= value < VARINT_END,
    ensures
        varint_spec(varint_bytes(value) + rest) == Some((value, 8int)),
{
    reveal(varint_bytes);
    reveal(varint_spec);
    let bytes = varint_bytes(value) + rest;
    let q1 = value / 0x100;
    let q2 = value / 0x1_0000;
    let q3 = value / 0x100_0000;
    let q4 = value / 0x1_0000_0000;
    let q5 = value / 0x100_0000_0000;
    let q6 = value / 0x1_0000_0000_0000;
    let q7 = value / 0x100_0000_0000_0000;
    assert(q2 == q1 / 0x100);
    assert(q3 == q2 / 0x100);
    assert(q4 == q3 / 0x100);
    assert(q5 == q4 / 0x100);
    assert(q6 == q5 / 0x100);
    assert(q7 == q6 / 0x100);
    assert(q7 < 0x40);
    assert(bytes[0] == 0xc0 + q7);
    assert(bytes[1] == q6 % 0x100);
    assert(bytes[2] == q5 % 0x100);
    assert(bytes[3] == q4 % 0x100);
    assert(bytes[4] == q3 % 0x100);
    assert(bytes[5] == q2 % 0x100);
    assert(bytes[6] == q1 % 0x100);
    assert(bytes[7] == value % 0x100);
    assert(value == 0x100 * q1 + value % 0x100);
    assert(q1 == 0x100 * q2 + q1 % 0x100);
    assert(q2 == 0x100 * q3 + q2 % 0x100);
    assert(q3 == 0x100 * q4 + q3 % 0x100);
    assert(q4 == 0x100 * q5 + q4 % 0x100);
    assert(q5 == 0x100 * q6 + q5 % 0x100);
    assert(q6 == 0x100 * q7 + q6 % 0x100);
    assert(bytes[0] % 64 == q7);
}

/// An integer takes at least one byte, and no more than there are.
pub proof fn varint_fits(bytes: Seq<u8>)
    ensures
        varint_spec(bytes) matches Some((value, len)) ==> 1 <= len <= bytes.len() && value
            < VARINT_END,
{
    reveal(varint_spec);
}

/// `VarInt::from_u32` and its `Codec::encode`: appends the number in the
/// shortest length that holds it.
#[verifier::external_body]
pub(crate) fn varint_encode(value: u32, buffer: &mut BytesMut)
    ensures
        buffered(*final(buffer)) == buffered(*old(buffer)) + varint_bytes(value as u64),
{
    VarInt::from_u32(value).encode(buffer)
}

/// What is left once an integer has been taken from the front. Where bytes are
/// missing, the first byte is gone if there is one.
pub open spec fn varint_rest(bytes: Seq<u8>) -> Seq<u8> {
    match varint_spec(bytes) {
        Some((_, len)) => bytes.skip(len),
        None => if bytes.len() == 0 {
            bytes
        } else {
            bytes.skip(1)
        },
    }
}

/// `VarInt`'s `Codec::decode`: takes the number at the front of the buffer.
/// Where bytes are missing it fails, with the first byte taken if there is one.
#[verifier::external_body]
pub(crate) fn varint_decode(buffer: &mut BytesMut) -> (value: Option<u64>)
    ensures
        value == match varint_spec(buffered(*old(buffer))) {
            Some((number, _)) => Some(number),
            None => None,
        },
        buffered(*final(buffer)) == varint_rest(buffered(*old(buffer))),
{
    VarInt::decode(buffer).ok().map(|number| number.into_inner())
}

/// The number of bytes that a number takes.
pub fn var_size(value: u64) -> (size: usize)
    requires
        value < VARINT_END,
    ensures
        size == varint_size(value),
        size == varint_bytes(value).len(),
{
    proof {
        reveal(varint_bytes);
    }
    if value < 0x40 {
        1
    } else if value < 0x4000 {
        2
    } else if value < 0x4000_0000 {
        4
    } else {
        8
    }
}

/// The number that starts at `at`, and how many bytes it takes; none while
/// bytes are missing.
pub fn peek_varint(bytes: &[u8], at: usize) -> (found: Option<(u64, usize)>)
    requires
        at <= bytes@.len(),
    ensures
        match found {
            Some((value, len)) => {
                &&& varint_spec(bytes@.skip(at as int)) == Some((value, len as int))
                &&& at + len <= bytes@.len()
                &&& at + len <= usize::MAX
                &&& value < VARINT_END
            },
            None => varint_spec(bytes@.skip(at as int)) is None,
        },
{
    proof {
        reveal(varint_spec);
    }
    let left: usize = bytes.len() - at;
    if left == 0 {
        return None;
    }
    let first: u8 = bytes[at];
    let ghost tail = bytes@.skip(at as int);
    assert(tail[0] == first);
    let top: u64 = (first % 64) as u64;
    if first < 0x40 {
        Some((top, 1))
    } else if first < 0x80 {
        if left < 2 {
            return None;
        }
        assert(tail[1] == bytes@[at + 1]);
        Some((top * 0x100 + bytes[at + 1] as u64, 2))
    } else if first < 0xc0 {
        if left < 4 {
            return None;
        }
        assert(tail[1] == bytes@[at + 1]);
        assert(tail[2] == bytes@[at + 2]);
        assert(tail[3] == bytes@[at + 3]);
        Some(
            (
                top * 0x100_0000 + bytes[at + 1] as u64 * 0x1_0000 + bytes[at + 2] as u64 * 0x100
                    + bytes[at + 3] as u64,
                4,
            ),
        )
    } else {
        if left < 8 {
            return None;
        }
        assert(tail[1] == bytes@[at + 1]);
        assert(tail[2] == bytes@[at + 2]);
        assert(tail[3] == bytes@[at + 3]);
        assert(tail[4] == bytes@[at + 4]);
        assert(tail[5] == bytes@[at + 5]);
        assert(tail[6] == bytes@[at + 6]);
        assert(tail[7] == bytes@[at + 7]);
        Some(
            (
                top * 0x100_0000_0000_0000 + bytes[at + 1] as u64 * 0x1_0000_0000_0000 + bytes[at
                    + 2] as u64 * 0x100_0000_0000 + bytes[at + 3] as u64 * 0x1_0000_0000 + bytes[at
                    + 4] as u64 * 0x100_0000 + bytes[at + 5] as u64 * 0x1_0000 + bytes[at
                    + 6] as u64 * 0x100 + bytes[at + 7] as u64,
                8,
            ),
        )
    }
}

} // verus!
