//! The bytes that padding is made of.

use vstd::prelude::*;

use crate::num::{max_int, max_usize};
use crate::snell::prf::{
    pick, pick_spec, pick_u32, LABEL_BIT_PERCENT, LABEL_MOTIF, LABEL_PADDING,
};
use crate::snell::profile::{Profile, BIT_ROTATE_TABLE};

verus! {

/// Rotates the bits of a byte to the left by `count` below eight.
pub open spec fn rotl8_spec(value: u8, count: u8) -> u8 {
    if count == 0 {
        value
    } else {
        (value << count) | (value >> ((8 - count) as u8))
    }
}

fn rotl8(value: u8, count: u8) -> (rotated: u8)
    requires
        count < 8,
    ensures
        rotated == rotl8_spec(value, count),
{
    if count == 0 {
        value
    } else {
        (value << count) | (value >> (8 - count))
    }
}

/// Row of the bit table for a share of set bits given in percent.
pub open spec fn bit_row(percent: int) -> int {
    let scaled = percent * 8;
    if scaled <= 0x31 {
        1
    } else if scaled <= 0x02ed {
        max_int((scaled + 0x32) / 100, 1)
    } else {
        7
    }
}

impl Profile {
    /// The share of set bits, in percent, that the padding of a record aims at.
    pub open spec fn bit_percent(self, sequence: u32) -> int {
        pick_spec(
            self.namespaces.prf_spec(LABEL_BIT_PERCENT, sequence, 0),
            self.bit_min as int,
            self.bit_max as int,
        )
    }

    /// A byte with a chosen share of set bits.
    pub open spec fn bit_byte(row: int, raw: u8, index: usize) -> u8 {
        let shifted = raw.wrapping_add(index as u8);
        rotl8_spec(
            BIT_ROTATE_TABLE[row * 16 + ((shifted ^ raw) & 0x0f)],
            (shifted ^ (raw >> 4)) & 7,
        )
    }

    /// A byte drawn from printable ASCII, continuation bytes or lead bytes.
    pub open spec fn range_byte(self, raw: u8, index: usize) -> u8 {
        let g1 = self.generator_weights[0];
        let g2 = self.generator_weights[1];
        let g3 = self.generator_weights[2];
        let bucket = (raw as int) % (g1 + g2 + g3);
        let low = index as u8;
        if bucket < g1 {
            pick_spec(raw.wrapping_add(low) as u32, 0x20, 0x7e) as u8
        } else if bucket < g1 + g2 {
            pick_spec((raw ^ low) as u32, 0x80, 0xbf) as u8
        } else {
            pick_spec(raw.wrapping_add(low.wrapping_mul(7)) as u32, 0xc0, 0xff) as u8
        }
    }

    /// A byte whose low half is a decimal digit.
    pub open spec fn digit_byte(self, raw: u8, index: usize) -> u8 {
        let low: usize = (((raw & 0x0f) + self.generator_weights[3] + (index & 1)) % 10) as usize;
        let high: usize = ((raw + ((index & 3) << 4) + 0x30) as usize) & 0xf0;
        (high | low) as u8
    }

    /// A byte of a repeated motif, broken by digits and raw bytes.
    pub open spec fn motif_byte(self, sequence: u32, raw: u8, index: usize) -> u8 {
        let period = max_int(self.generator_weights[5] as int, 5);
        let motif_len = max_int(self.generator_weights[4] * 4, 4);
        let position = (index as int) % period;
        if position < period - 3 {
            ((self.generator_weights[4] + 3) as u8).wrapping_mul(index as u8)
                ^ self.namespaces.fill_byte(LABEL_MOTIF, sequence, 32, (index as int) % motif_len)
        } else if position < period - 1 {
            0x30 | (raw % 10)
        } else {
            raw
        }
    }

    /// Byte `index` of `len` bytes of padding.
    pub open spec fn padding_byte(self, sequence: u32, len: nat, index: int) -> u8 {
        let raw = self.namespaces.fill_byte(LABEL_PADDING, sequence, len, index);
        let i = index as usize;
        if self.generator == 0 {
            Self::bit_byte(bit_row(self.bit_percent(sequence)), raw, i)
        } else if self.generator == 1 {
            self.range_byte(raw, i)
        } else if self.generator == 2 {
            self.digit_byte(raw, i)
        } else {
            self.motif_byte(sequence, raw, i)
        }
    }

    /// Padding of `len` bytes for record `sequence`.
    pub open spec fn padding_bytes(self, sequence: u32, len: nat) -> Seq<u8> {
        Seq::new(len, |i: int| self.padding_byte(sequence, len, i))
    }

    fn make_bit_byte(row: usize, raw: u8, index: usize) -> (byte: u8)
        requires
            1 <= row <= 7,
        ensures
            byte == Self::bit_byte(row as int, raw, index),
    {
        let shifted: u8 = raw.wrapping_add(index as u8);
        let column: u8 = (shifted ^ raw) & 0x0f;
        let turn: u8 = (shifted ^ (raw >> 4)) & 7;
        assert((shifted ^ raw) & 0x0f < 16) by (bit_vector);
        assert((shifted ^ (raw >> 4)) & 7 < 8) by (bit_vector);
        rotl8(BIT_ROTATE_TABLE[row * 16 + column as usize], turn)
    }

    fn make_range_byte(&self, raw: u8, index: usize) -> (byte: u8)
        requires
            self.wf(),
        ensures
            byte == self.range_byte(raw, index),
    {
        let g1: usize = self.generator_weights[0];
        let g2: usize = self.generator_weights[1];
        let g3: usize = self.generator_weights[2];
        let bucket: usize = raw as usize % (g1 + g2 + g3);
        let low: u8 = index as u8;
        if bucket < g1 {
            pick(raw.wrapping_add(low) as u32, 0x20, 0x7e) as u8
        } else if bucket < g1 + g2 {
            pick((raw ^ low) as u32, 0x80, 0xbf) as u8
        } else {
            pick(raw.wrapping_add(low.wrapping_mul(7)) as u32, 0xc0, 0xff) as u8
        }
    }

    fn make_digit_byte(&self, raw: u8, index: usize) -> (byte: u8)
        requires
            self.wf(),
        ensures
            byte == self.digit_byte(raw, index),
    {
        assert(raw & 0x0f <= 15) by (bit_vector);
        assert(index & 1 <= 1) by (bit_vector);
        assert((index & 3) << 4 <= 48) by (bit_vector);
        let low: usize = ((raw & 0x0f) as usize + self.generator_weights[3] + (index & 1)) % 10;
        let high: usize = (raw as usize + ((index & 3) << 4) + 0x30) & 0xf0;
        (high | low) as u8
    }

    fn make_motif_byte(&self, motif: &[u8; 32], sequence: u32, raw: u8, index: usize) -> (byte: u8)
        requires
            self.wf(),
            forall|i: int|
                0 <= i < 32 ==> #[trigger] motif@[i] == self.namespaces.fill_byte(
                    LABEL_MOTIF,
                    sequence,
                    32,
                    i,
                ),
        ensures
            byte == self.motif_byte(sequence, raw, index),
    {
        let motif_len: usize = max_usize(self.generator_weights[4] * 4, 4);
        let period: usize = max_usize(self.generator_weights[5], 5);
        let position: usize = index % period;
        if position < period - 3 {
            let step: u8 = (self.generator_weights[4] + 3) as u8;
            step.wrapping_mul(index as u8) ^ motif[index % motif_len]
        } else if position < period - 1 {
            0x30 | (raw % 10)
        } else {
            raw
        }
    }

    /// Overwrites `output` with the padding of record `sequence`.
    pub fn fill_padding(&self, sequence: u32, output: &mut [u8])
        requires
            self.wf(),
        ensures
            final(output)@ == self.padding_bytes(sequence, old(output)@.len()),
    {
        self.namespaces.fill(LABEL_PADDING, sequence, output);
        let percent: usize = pick_u32(
            self.namespaces.prf(LABEL_BIT_PERCENT, sequence, 0),
            self.bit_min,
            self.bit_max,
        ) as usize;
        let scaled: usize = percent * 8;
        let row: usize = if scaled <= 0x31 {
            1
        } else if scaled <= 0x02ed {
            max_usize((scaled + 0x32) / 100, 1)
        } else {
            7
        };
        let mut motif: [u8; 32] = [0; 32];
        self.namespaces.fill(LABEL_MOTIF, sequence, &mut motif);
        let ghost raw_bytes = output@;
        let len: usize = output.len();
        let mut index: usize = 0;
        while index < len
            invariant
                self.wf(),
                index <= len,
                len == output@.len(),
                len == old(output)@.len(),
                1 <= row <= 7,
                row == bit_row(self.bit_percent(sequence)),
                raw_bytes.len() == len,
                forall|i: int|
                    0 <= i < len ==> #[trigger] raw_bytes[i] == self.namespaces.fill_byte(
                        LABEL_PADDING,
                        sequence,
                        len as nat,
                        i,
                    ),
                forall|i: int|
                    0 <= i < 32 ==> #[trigger] motif@[i] == self.namespaces.fill_byte(
                        LABEL_MOTIF,
                        sequence,
                        32,
                        i,
                    ),
                forall|i: int| index <= i < len ==> #[trigger] output@[i] == raw_bytes[i],
                forall|i: int|
                    0 <= i < index ==> #[trigger] output@[i] == self.padding_byte(
                        sequence,
                        len as nat,
                        i,
                    ),
            decreases len - index,
        {
            let raw: u8 = output[index];
            assert(raw == raw_bytes[index as int]);
            output[index] = if self.generator == 0 {
                Self::make_bit_byte(row, raw, index)
            } else if self.generator == 1 {
                self.make_range_byte(raw, index)
            } else if self.generator == 2 {
                self.make_digit_byte(raw, index)
            } else {
                self.make_motif_byte(&motif, sequence, raw, index)
            };
            index += 1;
        }
    }
}

/// How many bits of a byte are set.
pub open spec fn set_bits(byte: u8) -> int {
    byte % 2 + byte / 2 % 2 + byte / 4 % 2 + byte / 8 % 2 + byte / 16 % 2 + byte / 32 % 2 + byte
        / 64 % 2 + byte / 128
}

proof fn turning_keeps_set_bits(value: u8, count: u8)
    requires
        count < 8,
    ensures
        set_bits(rotl8_spec(value, count)) == set_bits(value),
{
    assert(set_bits(rotl8_spec(value, count)) == set_bits(value)) by (bit_vector)
        requires
            count < 8,
    ;
}

/// In every row of the bit table, each entry has as many set bits as the row's
/// number says.
proof fn table_rows_count_bits(row: int, column: int)
    requires
        2 <= row <= 6,
        0 <= column < 16,
    ensures
        set_bits(BIT_ROTATE_TABLE[row * 16 + column]) == row,
{
}

/// What padding looks like, whatever the record and the length. By the
/// profile's generator: all bytes have one common number of set bits, from two
/// to six; or each is printable ASCII or has its high bit set; or the low half
/// of each is a decimal digit; or there are two ASCII digits at fixed places of
/// every period.
pub proof fn padding_looks(profile: Profile, sequence: u32, len: nat)
    requires
        profile.wf(),
        len <= usize::MAX,
    ensures
        ({
            let bytes = profile.padding_bytes(sequence, len);
            let common = bit_row(profile.bit_percent(sequence));
            let period = profile.generator_weights[5] as int;
            &&& bytes.len() == len
            &&& profile.generator == 0 ==> 2 <= common <= 6 && forall|i: int|
                0 <= i < len ==> set_bits(#[trigger] bytes[i]) == common
            &&& profile.generator == 1 ==> forall|i: int|
                0 <= i < len ==> 0x20 <= #[trigger] bytes[i] <= 0x7e || bytes[i] >= 0x80
            &&& profile.generator == 2 ==> forall|i: int|
                0 <= i < len ==> (#[trigger] bytes[i]) & 0x0f <= 9
            &&& profile.generator == 3 ==> forall|i: int|
                0 <= i < len && period - 3 <= i % period <= period - 2 ==> 0x30 <= #[trigger] bytes[i]
                    <= 0x39
        }),
{
    let bytes = profile.padding_bytes(sequence, len);
    let common = bit_row(profile.bit_percent(sequence));
    let period = profile.generator_weights[5] as int;
    if profile.generator == 0 {
        assert(0x18 <= profile.bit_percent(sequence) <= 0x4c);
    }
    assert forall|i: int| 0 <= i < len implies {
        let byte = #[trigger] bytes[i];
        &&& profile.generator == 0 ==> set_bits(byte) == common
        &&& profile.generator == 1 ==> 0x20 <= byte <= 0x7e || byte >= 0x80
        &&& profile.generator == 2 ==> byte & 0x0f <= 9
        &&& profile.generator == 3 && period - 3 <= i % period <= period - 2 ==> 0x30 <= byte
            <= 0x39
    } by {
        let raw = profile.namespaces.fill_byte(LABEL_PADDING, sequence, len, i);
        let index = i as usize;
        if profile.generator == 0 {
            let shifted = raw.wrapping_add(index as u8);
            let column = (shifted ^ raw) & 0x0f;
            let turn = (shifted ^ (raw >> 4)) & 7;
            assert((shifted ^ raw) & 0x0f < 16) by (bit_vector);
            assert((shifted ^ (raw >> 4)) & 7 < 8) by (bit_vector);
            table_rows_count_bits(common, column as int);
            turning_keeps_set_bits(BIT_ROTATE_TABLE[common * 16 + column], turn);
        } else if profile.generator == 2 {
            let low: usize = (((raw & 0x0f) + profile.generator_weights[3] + (index & 1))
                % 10) as usize;
            let sum: usize = (raw + ((index & 3) << 4) + 0x30) as usize;
            assert((((sum & 0xf0) | low) as u8) & 0x0f <= 9) by (bit_vector)
                requires
                    low <= 9,
            ;
        } else if profile.generator == 3 {
            assert(0x30 <= (0x30u8 | (raw % 10)) <= 0x39) by (bit_vector);
        }
    }
}

} // verus!
