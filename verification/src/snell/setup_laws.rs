//! Which inbounds can be set up, and what is drawn for them.

use vstd::prelude::*;
use vstd::utf8::encode_utf8;

use crate::net::addr::IpAddr;
use crate::snell::inbound::{
    key_bytes, user_entries, userkey_fits, users_fit, InboundOptions, SnellInboundUser,
};
use crate::snell::padding::rotl8_spec;
use crate::snell::prf::{
    fold32_spec, le_word, namespace_spec, prf32_spec, splitmix64_spec,
};
use crate::snell::profile::Profile;
use crate::snell::salt::shuffle_target;
use crate::text::decimal_text;

verus! {

/// A secret has 12 to 255 bytes, a user's key 1 to 255.
pub proof fn secrets_are_neither_short_nor_long(options: InboundOptions, user: SnellInboundUser)
    ensures
        options.psk_fits() <==> 12 <= encode_utf8(options.psk@).len() && encode_utf8(
            options.psk@,
        ).len() < 256,
        userkey_fits(user) <==> 0 < encode_utf8(user.userkey@).len() && encode_utf8(
            user.userkey@,
        ).len() < 256,
{
}

/// An inbound that is not open to the network listens where only the machine
/// itself can reach it: on 127.x.x.x or ::1.
pub proof fn closed_inbounds_listen_at_home(options: InboundOptions)
    ensures
        options.allow_lan ==> options.reachable_as_asked(),
        !options.allow_lan ==> (options.reachable_as_asked() <==> (match options.addr.ip {
            IpAddr::V4(first, _, _, _) => first == 127,
            ip => ip == IpAddr::V6(0, 0, 0, 0, 0, 0, 0, 1),
        })),
{
}

/// No address is both the machine's own and none, and of version six each is one
/// address.
pub proof fn special_addresses(ip: IpAddr, b: u8, c: u8, d: u8)
    ensures
        IpAddr::V4(127, b, c, d).is_loopback_spec(),
        IpAddr::V4(0, 0, 0, 0).is_unspecified_spec(),
        ip is V4 && ip.is_unspecified_spec() ==> ip == IpAddr::V4(0, 0, 0, 0),
        ip is V6 ==> (ip.is_loopback_spec() <==> ip == IpAddr::V6(0, 0, 0, 0, 0, 0, 0, 1)),
        ip is V6 ==> (ip.is_unspecified_spec() <==> ip == IpAddr::V6(0, 0, 0, 0, 0, 0, 0, 0)),
        !(ip.is_loopback_spec() && ip.is_unspecified_spec()),
{
}

/// Every user stands in the table under the bytes of their key, with their name
/// or, without one, with their place in the list.
pub proof fn users_stand_under_their_keys(users: Seq<SnellInboundUser>, i: int)
    requires
        0 <= i < users.len(),
    ensures
        user_entries(users, users.len()).len() == users.len(),
        users[i].name@.len() > 0 ==> user_entries(users, users.len())[i] == (
            encode_utf8(users[i].userkey@),
            users[i].name@,
        ),
        users[i].name@.len() == 0 ==> user_entries(users, users.len())[i] == (
            encode_utf8(users[i].userkey@),
            decimal_text(i as nat),
        ),
{
}

/// A list of users works if and only if each key has a length that fits, and no
/// two users share one.
pub proof fn keys_tell_users_apart(users: Seq<SnellInboundUser>)
    ensures
        users_fit(users, users.len() as int) <==> (forall|i: int|
            0 <= i < users.len() ==> 1 <= encode_utf8((#[trigger] users[i]).userkey@).len() <= 255)
            && (forall|i: int, j: int|
            0 <= i < users.len() && 0 <= j < users.len() && i != j ==> encode_utf8(
                (#[trigger] users[i]).userkey@,
            ) != encode_utf8((#[trigger] users[j]).userkey@)),
{
    let fit = forall|i: int|
        0 <= i < users.len() ==> 1 <= encode_utf8((#[trigger] users[i]).userkey@).len() <= 255;
    let apart = forall|i: int, j: int|
        0 <= i < users.len() && 0 <= j < users.len() && i != j ==> encode_utf8(
            (#[trigger] users[i]).userkey@,
        ) != encode_utf8((#[trigger] users[j]).userkey@);
    if users_fit(users, users.len() as int) {
        assert forall|i: int| 0 <= i < users.len() implies 1 <= encode_utf8(
            (#[trigger] users[i]).userkey@,
        ).len() <= 255 by {
            assert(userkey_fits(users[i]));
        }
        assert forall|i: int, j: int|
            0 <= i < users.len() && 0 <= j < users.len() && i != j implies encode_utf8(
            (#[trigger] users[i]).userkey@,
        ) != encode_utf8((#[trigger] users[j]).userkey@) by {
            if i < j {
                assert(key_bytes(users[i]) != key_bytes(users[j]));
            } else {
                assert(key_bytes(users[j]) != key_bytes(users[i]));
            }
        }
    }
    if fit && apart {
        assert forall|i: int| 0 <= i < users.len() implies userkey_fits(#[trigger] users[i]) by {}
        assert forall|i: int, j: int| 0 <= i < j < users.len() implies key_bytes(
            #[trigger] users[i],
        ) != key_bytes(#[trigger] users[j]) by {}
    }
}

/// What is drawn for a label and two numbers: each goes through a product and a
/// sum of its own, all are mixed with the namespace, and the halves of the mixed
/// word are folded.
pub proof fn values_are_drawn(namespace: u64, label: u32, a: u64, b: u64)
    ensures
        ({
            let word = splitmix64_spec(
                namespace ^ b.wrapping_mul(0x5899_65cc_7537_4cc3).wrapping_add(
                    0x33a2_13ec_50ff_e2e9,
                ) ^ (label as u64).wrapping_mul(0x9e37_79b9_7f4a_7c15) ^ a.wrapping_mul(
                    0xe703_7ed1_a0b4_28db,
                ).wrapping_add(0x8f39_07f7_b2b8_0c35),
            );
            let high: u32 = (word / 0x1_0000_0000) as u32;
            let low: u32 = (word % 0x1_0000_0000) as u32;
            prf32_spec(namespace, label, a, b) == high ^ low
        }),
{
    let word = splitmix64_spec(
        namespace ^ b.wrapping_mul(0x5899_65cc_7537_4cc3).wrapping_add(0x33a2_13ec_50ff_e2e9) ^ (
        label as u64).wrapping_mul(0x9e37_79b9_7f4a_7c15) ^ a.wrapping_mul(
            0xe703_7ed1_a0b4_28db,
        ).wrapping_add(0x8f39_07f7_b2b8_0c35),
    );
    halves_are_folded(word);
}

/// Folding a word gives the two halves of it, one over the other.
pub proof fn halves_are_folded(word: u64)
    ensures
        fold32_spec(word) == ((word / 0x1_0000_0000) as u32) ^ ((word % 0x1_0000_0000) as u32),
{
    assert((word ^ (word >> 32)) as u32 == ((word / 0x1_0000_0000) as u32) ^ ((word
        % 0x1_0000_0000) as u32)) by (bit_vector);
}

/// A word of a secret counts its bytes from the lowest to the highest.
pub proof fn words_count_from_the_lowest(bytes: Seq<u8>, offset: int)
    ensures
        le_word(bytes, offset) == bytes[offset] + 0x100 * bytes[offset + 1] + 0x1_0000
            * bytes[offset + 2] + 0x100_0000 * bytes[offset + 3] + 0x1_0000_0000 * bytes[offset + 4]
            + 0x100_0000_0000 * bytes[offset + 5] + 0x1_0000_0000_0000 * bytes[offset + 6]
            + 0x100_0000_0000_0000 * bytes[offset + 7],
{
    let a = bytes[offset];
    let b = bytes[offset + 1];
    let c = bytes[offset + 2];
    let d = bytes[offset + 3];
    let e = bytes[offset + 4];
    let f = bytes[offset + 5];
    let g = bytes[offset + 6];
    let h = bytes[offset + 7];
    assert(((a as u64) | (b as u64) << 8 | (c as u64) << 16 | (d as u64) << 24 | (e as u64) << 32 | (
    f as u64) << 40 | (g as u64) << 48 | (h as u64) << 56) == a + 0x100 * b + 0x1_0000 * c
        + 0x100_0000 * d + 0x1_0000_0000 * e + 0x100_0000_0000 * f + 0x1_0000_0000_0000 * g
        + 0x100_0000_0000_0000 * h) by (bit_vector);
}

/// A namespace mixes the four words of the secret, the third turned by 17 bits
/// to the left and the fourth by 11 to the right.
pub proof fn namespaces_mix_the_secret(secret: Seq<u8>, label: u32, seed: u64)
    ensures
        namespace_spec(secret, label, seed) == splitmix64_spec(
            (label as u64).wrapping_mul(0xd6e8_feb8_6659_fd93) ^ seed.wrapping_add(
                0xa076_1d64_78bd_642f,
            ) ^ le_word(secret, 0) ^ le_word(secret, 8).wrapping_add(0x9e37_79b9_7f4a_7c15) ^ (
            le_word(secret, 16) << 17 | le_word(secret, 16) >> 47) ^ (le_word(secret, 24) >> 11
                | le_word(secret, 24) << 53),
        ),
{
}

/// The position that a step of a shuffle exchanges with is drawn from those that
/// are left.
pub proof fn shuffles_draw_from_what_is_left(namespace: u64, round: u32, length: int, index: int)
    requires
        0 <= index < length,
        round <= 4,
    ensures
        ({
            let word = splitmix64_spec(
                (index as u64).wrapping_mul(0x5899_65cc_7537_4cc3).wrapping_add(
                    0x33a2_13ec_50ff_e2e9,
                ) ^ (namespace ^ 0xdaa6_6d2c_7ddf_743f) ^ ((0x51a7 + round) as u64).wrapping_mul(
                    0xe703_7ed1_a0b4_28db,
                ).wrapping_add(0x8f39_07f7_b2b8_0c35),
            );
            let raw = ((word / 0x1_0000_0000) as u32) ^ ((word % 0x1_0000_0000) as u32);
            &&& index <= shuffle_target(namespace, round, length, index) < length
            &&& shuffle_target(namespace, round, length, index) - index == raw as int % (length
                - index)
        }),
{
    let word = splitmix64_spec(
        (index as u64).wrapping_mul(0x5899_65cc_7537_4cc3).wrapping_add(0x33a2_13ec_50ff_e2e9) ^ (
        namespace ^ 0xdaa6_6d2c_7ddf_743f) ^ ((0x51a7 + round) as u64).wrapping_mul(
            0xe703_7ed1_a0b4_28db,
        ).wrapping_add(0x8f39_07f7_b2b8_0c35),
    );
    halves_are_folded(word);
    vstd::arithmetic::div_mod::lemma_mod_bound(
        fold32_spec(word) as int,
        length - index,
    );
}

/// Turning a byte to the left moves its high bits to the low end.
pub proof fn turned_bytes_come_round(value: u8)
    ensures
        rotl8_spec(value, 0) == value,
        rotl8_spec(value, 1) == value % 128 * 2 + value / 128,
        rotl8_spec(value, 2) == value % 64 * 4 + value / 64,
        rotl8_spec(value, 3) == value % 32 * 8 + value / 32,
        rotl8_spec(value, 4) == value % 16 * 16 + value / 16,
        rotl8_spec(value, 5) == value % 8 * 32 + value / 8,
        rotl8_spec(value, 6) == value % 4 * 64 + value / 4,
        rotl8_spec(value, 7) == value % 2 * 128 + value / 2,
{
    assert((value << 1u8) | (value >> 7u8) == value % 128 * 2 + value / 128) by (bit_vector);
    assert((value << 2u8) | (value >> 6u8) == value % 64 * 4 + value / 64) by (bit_vector);
    assert((value << 3u8) | (value >> 5u8) == value % 32 * 8 + value / 32) by (bit_vector);
    assert((value << 4u8) | (value >> 4u8) == value % 16 * 16 + value / 16) by (bit_vector);
    assert((value << 5u8) | (value >> 3u8) == value % 8 * 32 + value / 8) by (bit_vector);
    assert((value << 6u8) | (value >> 2u8) == value % 4 * 64 + value / 4) by (bit_vector);
    assert((value << 7u8) | (value >> 1u8) == value % 2 * 128 + value / 2) by (bit_vector);
}

/// A byte of the third generator: its low half is a digit that turns with the
/// weight and with the parity of its place, its high half the raw byte's, three
/// up and further by the place in a row of four.
pub proof fn digits_turn_with_their_place(profile: Profile, sequence: u32, len: nat, index: int)
    requires
        profile.wf(),
        profile.generator == 2,
        0 <= index < len <= usize::MAX,
    ensures
        ({
            let raw = profile.namespaces.fill_byte(0, sequence, len, index) as int;
            let byte = profile.padding_bytes(sequence, len)[index] as int;
            &&& byte % 16 == (raw % 16 + profile.generator_weights[3] + index % 2) % 10
            &&& byte / 16 == (raw / 16 + index % 4 + 3) % 16
        }),
{
    let raw = profile.namespaces.fill_byte(0, sequence, len, index);
    let weight = profile.generator_weights[3];
    let i = index as usize;
    assert(i as int == index);
    assert(weight <= 9);
    assert(raw & 0x0f == raw % 16) by (bit_vector);
    assert(i & 1 == i % 2) by (bit_vector);
    let low: usize = (((raw & 0x0f) + weight + (i & 1)) % 10) as usize;
    assert((i & 3) << 4 == 16 * (i % 4)) by (bit_vector);
    let sum: usize = (raw + ((i & 3) << 4) + 0x30) as usize;
    assert(sum == raw + 16 * (index % 4) + 48);
    assert(low < 10);
    assert(((sum & 0xf0) | low) as u8 == sum / 16 % 16 * 16 + low) by (bit_vector)
        requires
            low < 10,
            sum < 400,
    ;
    assert(sum / 16 == raw / 16 + index % 4 + 3);
}

/// Mixing a word takes three steps: each puts the word over itself, moved down by
/// 30, 27 and 31 bits, and the first two then multiply it.
pub proof fn words_are_mixed_in_three_steps(word: u64)
    ensures
        ({
            let first: u64 = (word ^ (word / 0x4000_0000)).wrapping_mul(0xbf58_476d_1ce4_e5b9);
            let second: u64 = (first ^ (first / 0x800_0000)).wrapping_mul(0x94d0_49bb_1331_11eb);
            splitmix64_spec(word) == second ^ (second / 0x8000_0000)
        }),
{
    let first: u64 = (word ^ (word / 0x4000_0000)).wrapping_mul(0xbf58_476d_1ce4_e5b9);
    let second: u64 = (first ^ (first / 0x800_0000)).wrapping_mul(0x94d0_49bb_1331_11eb);
    assert(word >> 30 == word / 0x4000_0000) by (bit_vector);
    assert(first >> 27 == first / 0x800_0000) by (bit_vector);
    assert(second >> 31 == second / 0x8000_0000) by (bit_vector);
}

} // verus!
