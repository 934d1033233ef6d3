//! How a secret fixes a profile, its padding and the place of its salt.

use vstd::prelude::*;

use crate::snell::prf::{
    fill_seed, pick_spec, prf32_spec, splitmix64_spec, stepped, stream_byte, Namespaces,
};
use crate::snell::padding::{bit_row, rotl8_spec};
use crate::snell::profile::{Profile, BIT_ROTATE_TABLE};
use crate::snell::salt::{
    is_permutation, salt_mask_spec, shuffle_is_permutation, shuffle_target, shuffled,
};

verus! {

/// A draw lies in its range, every value of the range can be drawn, and raw
/// numbers that differ by the size of the range draw the same.
pub proof fn draws_cover_their_range(raw: u32, low: int, high: int, value: int)
    requires
        0 <= low <= high < 0x1_0000,
        low <= value <= high,
    ensures
        low <= pick_spec(raw, low, high) <= high,
        raw <= high - low ==> pick_spec(raw, low, high) == low + raw,
        raw > high - low ==> pick_spec(raw, low, high) == pick_spec(
            (raw - (high - low + 1)) as u32,
            low,
            high,
        ),
        pick_spec((value - low) as u32, low, high) == value,
{
    let size = high - low + 1;
    vstd::arithmetic::div_mod::lemma_mod_bound(raw as int, size);
    if raw <= high - low {
        vstd::arithmetic::div_mod::lemma_small_mod(raw as nat, size as nat);
    } else {
        vstd::arithmetic::div_mod::lemma_mod_sub_multiples_vanish(raw as int, size);
    }
    vstd::arithmetic::div_mod::lemma_small_mod((value - low) as nat, size as nat);
}

/// Each purpose has its own namespace, and each label belongs to one purpose.
pub proof fn labels_have_their_namespaces(namespaces: Namespaces, secret: Seq<u8>, label: u32)
    requires
        namespaces.derived_from(secret),
    ensures
        ({
            let of = |label: u32, seed: u64| crate::snell::prf::namespace_spec(secret, label, seed);
            &&& namespaces.profile == of(5, 0xb46c_2e7d_9a15_38f1)
            &&& namespaces.prefix == of(0, 0x5d92_17c0_83e6_4ab9)
            &&& namespaces.motif == of(2, 0xa71f_0c54_d839_6e2b)
            &&& namespaces.salt == of(3, 0x3e8a_91b5_2740_f6cd)
            &&& namespaces.mix == of(16, 0xc9f4_260b_7d1e_835a)
            &&& namespaces.chunk == of(21, 0x62d0_b5e1_9c4a_783f)
            &&& namespaces.write == of(28, 0x917b_3c48_e6a2_05d4)
        }),
        label <= 1 || label == 14 || label == 15 || label == 33 || label == 34
            ==> namespaces.namespace_of(label) == namespaces.prefix,
        label == 2 ==> namespaces.namespace_of(label) == namespaces.motif,
        label == 3 || 16 <= label <= 20 ==> namespaces.namespace_of(label) == namespaces.mix,
        21 <= label <= 26 || label == 38 || label == 39 ==> namespaces.namespace_of(label)
            == namespaces.chunk,
        28 <= label <= 32 || 35 <= label <= 37 ==> namespaces.namespace_of(label)
            == namespaces.write,
        4 <= label <= 13 || label == 27 || label > 39 ==> namespaces.namespace_of(label)
            == namespaces.profile,
{
}

/// The bytes of a stream come eight at a time, the lowest of each word first,
/// and each word is one step of the generator after the one before.
pub proof fn streams_go_word_by_word(
    namespaces: Namespaces,
    label: u32,
    sequence: u32,
    len: nat,
    word: nat,
    byte: nat,
)
    requires
        byte < 8,
    ensures
        ({
            let seed = namespaces.namespace_of(label) ^ (sequence as u64).wrapping_mul(
                0xd6e8_feb8_6659_fd93,
            ).wrapping_add(0xb57d_e1f3_f82c_b33f) ^ (label as u64).wrapping_mul(
                0xa24b_aed4_963e_e407,
            ) ^ (len as u64).wrapping_mul(0x1656_67b1_9e37_79f9).wrapping_add(
                0x0d4c_d3e7_b14a_36d7,
            );
            &&& namespaces.fill_byte(label, sequence, len, 8 * word as int + byte) == (splitmix64_spec(
                stepped(seed, word + 1),
            ) >> (8 * byte) as u64) as u8
            &&& stepped(seed, word + 1) == stepped(seed, word).wrapping_add(0x9e37_79b9_7f4a_7c15)
            &&& stepped(seed, 0) == seed
        }),
{
    reveal(Namespaces::fill_byte);
    let index = 8 * word as int + byte;
    vstd::arithmetic::div_mod::lemma_fundamental_div_mod_converse(
        index,
        8,
        word as int,
        byte as int,
    );
}

/// Every parameter of a profile is drawn under its own label from its own range.
pub proof fn parameters_are_drawn(profile: Profile, secret: Seq<u8>)
    requires
        profile.derived_from(secret),
    ensures
        ({
            let raw = |label: u32, domain: u32| profile.namespaces.static_prf_spec(label, domain);
            &&& profile.namespaces.derived_from(secret)
            &&& profile.generator == raw(6, 0) % 4
            &&& profile.pad_min == 24 + raw(7, 0) as int % 137
            &&& profile.pad_max == 730 || profile.pad_max == profile.pad_min + 160 + raw(8, 0) as int
                % 801
            &&& profile.pad_max <= 730
            &&& profile.pad_count == 2 + raw(9, 0) as int % 7
            &&& profile.pad_interval == 2 + raw(10, 0) as int % 10
            &&& profile.small_limit == 96 + raw(11, 0) as int % 673
            &&& profile.bit_min == 24 + raw(12, 0) as int % 18
            &&& profile.bit_max == 58 + raw(13, 0) as int % 19
            &&& profile.prefix_min == 8 + raw(14, 0) as int % 73
            &&& profile.prefix_max == 128 || profile.prefix_max == profile.prefix_min + 16 + raw(
                15,
                0,
            ) as int % 145
            &&& profile.prefix_max <= 128
            &&& profile.mix_mode == raw(16, 0) % 3
            &&& profile.mix_rounds == 1 + raw(17, 0) as int % 3
            &&& profile.mix_stride == 2 + raw(18, 0) as int % 12
            &&& profile.mix_offset == raw(19, 0) as int % 16
            &&& profile.mix_block == 8 + raw(20, 0) as int % 57
            &&& profile.chunk_policy == raw(21, 0) % 3
            &&& profile.chunk_initial == 512 + raw(22, 0) as int % 949
            &&& profile.chunk_max == 8192 + raw(23, 0) as int % 8192
            &&& profile.chunk_step == 2920 || profile.chunk_step == 1024 + raw(24, 0) as int % 3073
            &&& profile.chunk_step <= 2920
            &&& profile.chunk_jitter == 182 || profile.chunk_jitter == 16 + raw(25, 0) as int % 177
            &&& profile.chunk_jitter <= 182
            &&& profile.idle_reset_secs == 12 + raw(27, 0) as int % 79
            &&& profile.write_policy == raw(28, 0) % 3
            &&& profile.write_first == 4 + raw(29, 0) as int % 5
            &&& profile.write_jitter == 8 + raw(32, 0) as int % 89
            &&& profile.write_jitter_percent == 8 + raw(28, 0x504c) as int % 41
            &&& profile.generator_weights[0] == 24 + raw(6, 1) as int % 105
            &&& profile.generator_weights[1] == 16 + raw(6, 2) as int % 81
            &&& profile.generator_weights[2] == 16 + raw(6, 3) as int % 81
            &&& profile.generator_weights[3] == raw(6, 4) as int % 10
            &&& profile.generator_weights[4] == 1 + raw(6, 5) as int % 8
            &&& profile.generator_weights[5] == 7 + raw(6, 6) as int % 17
            &&& profile.handshake_mix_stride == 17 + raw(18, 0x51a7) as int % 235
            &&& profile.handshake_mix_rounds == 1 + raw(17, 0x51a7) as int % 4
        }),
{
}

/// The rows of eight are drawn place by place, and what depends on two draws is
/// kept between its bounds.
pub proof fn rows_are_drawn(profile: Profile, secret: Seq<u8>, i: int)
    requires
        profile.derived_from(secret),
        0 <= i < 8,
    ensures
        ({
            let raw = |label: u32, domain: u32| profile.namespaces.static_prf_spec(label, domain);
            let cap = 256 + raw(22, 0xf17c) as int % 513;
            let least = 16 + raw(14, 0x7053) as int % 81;
            let most = if least + 16 + raw(15, 0x7053) as int % 145 <= 128 {
                least + 16 + raw(15, 0x7053) as int % 145
            } else {
                128
            };
            &&& profile.chunk_buckets[i] == 4096 + raw(26, i as u32) as int % (profile.chunk_max
                - 4095)
            &&& profile.write_buckets[i] == 320 + raw(30, i as u32) as int % 1141
            &&& profile.write_sequence[i] == 360 + raw(31, i as u32) as int % 1101
            &&& profile.first_record_cap == if cap <= profile.chunk_initial {
                cap
            } else {
                profile.chunk_initial as int
            }
            &&& profile.salt_block_len == 16 + least + raw(33, 0x7053) as int % (most - least + 1)
        }),
{
}

/// The padding of each generator, byte by byte.
pub proof fn padding_bytes_by_generator(
    profile: Profile,
    sequence: u32,
    len: nat,
    index: int,
)
    requires
        profile.wf(),
        0 <= index < len <= usize::MAX,
    ensures
        ({
            let raw = profile.namespaces.fill_byte(0, sequence, len, index);
            let byte = profile.padding_bytes(sequence, len)[index];
            let i = index as usize;
            let w = profile.generator_weights;
            let bucket = raw as int % (w[0] + w[1] + w[2]);
            &&& profile.generator == 0 ==> {
                let share = profile.bit_min + profile.namespaces.prf_spec(1, sequence, 0) as int % (
                profile.bit_max - profile.bit_min + 1);
                let turned = raw.wrapping_add(i as u8);
                byte == rotl8_spec(
                    BIT_ROTATE_TABLE[bit_row(share) * 16 + ((turned ^ raw) & 0x0f)],
                    (turned ^ (raw >> 4)) & 7,
                )
            }
            &&& profile.generator == 1 && bucket < w[0] ==> byte == 32 + raw.wrapping_add(
                i as u8,
            ) as int % 95
            &&& profile.generator == 1 && w[0] <= bucket < w[0] + w[1] ==> byte == 128 + (raw ^ (
            i as u8)) as int % 64
            &&& profile.generator == 1 && w[0] + w[1] <= bucket ==> byte == 192 + raw.wrapping_add(
                (i as u8).wrapping_mul(7),
            ) as int % 64
            &&& profile.generator == 3 ==> {
                let place = index % w[5] as int;
                &&& place < w[5] - 3 ==> byte == ((w[4] + 3) as u8).wrapping_mul(i as u8)
                    ^ profile.namespaces.fill_byte(2, sequence, 32, index % (4 * w[4]) as int)
                &&& w[5] - 3 <= place < w[5] - 1 ==> byte == 0x30 | (raw % 10)
                &&& place == w[5] - 1 ==> byte == raw
            }
        }),
{
    assert((index as usize) as int == index);
}

/// A share of set bits given in percent is rounded to eighths.
pub proof fn shares_are_rounded_to_eighths(percent: int)
    requires
        7 <= percent <= 93,
    ensures
        100 * bit_row(percent) - 50 <= 8 * percent < 100 * bit_row(percent) + 50,
{
}

/// A step of a shuffle exchanges its own position with one that is not yet
/// settled.
pub proof fn shuffles_exchange_with_what_follows(
    namespace: u64,
    length: nat,
    round: nat,
    index: nat,
)
    requires
        index < length <= usize::MAX,
        round <= 4,
    ensures
        ({
            let before = shuffled(namespace, length, round, index);
            let after = shuffled(namespace, length, round, index + 1);
            let target = shuffle_target(namespace, round as u32, length as int, index as int);
            &&& index <= target < length
            &&& after[index as int] == before[target]
            &&& target != index ==> after[target] == before[index as int]
            &&& forall|i: int|
                0 <= i < length && i != index && i != target ==> #[trigger] after[i] == before[i]
        }),
        shuffled(namespace, length, round + 1, 0) == shuffled(namespace, length, round, length),
        forall|i: int| 0 <= i < length ==> #[trigger] shuffled(namespace, length, 0, 0)[i] == i,
{
    shuffle_is_permutation(namespace, length, round, index);
    vstd::arithmetic::div_mod::lemma_mod_bound(
        crate::snell::prf::fold32_spec(
            splitmix64_spec(
                (index as u64).wrapping_mul(crate::snell::prf::COEF_B).wrapping_add(
                    crate::snell::prf::ADD_B,
                ) ^ (namespace ^ crate::snell::salt::SHUFFLE_KEY) ^ ((
                crate::snell::profile::MIX_HANDSHAKE_DOMAIN + round as u32) as u64).wrapping_mul(
                    crate::snell::prf::COEF_A,
                ).wrapping_add(crate::snell::prf::ADD_A),
            ),
        ) as int,
        length - index,
    );
}

/// Hiding a salt changes nothing but the sixteen bytes that hold it, each of
/// which is the salt's byte under its mask.
pub proof fn salts_take_sixteen_bytes(profile: Profile, salt: Seq<u8>, block: Seq<u8>)
    requires
        profile.wf(),
        salt.len() == 16,
        16 <= block.len() <= usize::MAX,
    ensures
        ({
            let places = shuffled(
                profile.namespaces.salt,
                block.len(),
                profile.handshake_mix_rounds as nat,
                0,
            );
            let hidden = profile.with_salt(salt, block);
            &&& hidden.len() == block.len()
            &&& forall|i: int|
                0 <= i < 16 ==> hidden[#[trigger] places[i] as int] == salt_mask_spec(
                    profile.namespaces.salt,
                    profile.handshake_mix_stride,
                    i as u32,
                ) ^ salt[i]
            &&& forall|i: int|
                16 <= i < block.len() ==> hidden[#[trigger] places[i] as int]
                    == block[places[i] as int]
        }),
{
    let places = profile.salt_positions(block.len());
    shuffle_is_permutation(
        profile.namespaces.salt,
        block.len(),
        profile.handshake_mix_rounds as nat,
        0,
    );
    salt_is_placed(profile, salt, block, 16);
}

proof fn salt_is_placed(profile: Profile, salt: Seq<u8>, block: Seq<u8>, count: nat)
    requires
        profile.wf(),
        salt.len() == 16,
        16 <= block.len() <= usize::MAX,
        count <= 16,
        is_permutation(profile.salt_positions(block.len())),
        profile.salt_positions(block.len()).len() == block.len(),
    ensures
        ({
            let places = profile.salt_positions(block.len());
            let hidden = profile.with_salt_upto(salt, block, count);
            &&& hidden.len() == block.len()
            &&& forall|i: int|
                0 <= i < count ==> hidden[#[trigger] places[i] as int] == profile.salt_mask_at(i)
                    ^ salt[i]
            &&& forall|i: int|
                count <= i < block.len() ==> hidden[#[trigger] places[i] as int]
                    == block[places[i] as int]
        }),
    decreases count,
{
    if count > 0 {
        salt_is_placed(profile, salt, block, (count - 1) as nat);
    }
}

/// The mask of a byte of the salt: its place times the stride, mixed with a
/// value that the key draws for the place.
pub proof fn masks_are_drawn(namespace: u64, stride: usize, index: u32)
    ensures
        salt_mask_spec(namespace, stride, index) == (index as u8).wrapping_mul(stride as u8) ^ (
        prf32_spec(namespace, 2, 0x51a7, index as u64) as u8),
{
}

} // verus!
