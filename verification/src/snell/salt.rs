//! Hiding the handshake salt in a block of padding.

use vstd::prelude::*;

use crate::snell::prf::{
    fold32_spec, prf32, prf32_spec, splitmix64, splitmix64_spec, ADD_A, ADD_B, COEF_A, COEF_B,
    LABEL_MOTIF,
};
use crate::snell::profile::{Profile, MIX_HANDSHAKE_DOMAIN};

verus! {

pub const SHUFFLE_KEY: u64 = 0xdaa6_6d2c_7ddf_743f;

/// Position that step `index` of a shuffle round exchanges with.
pub open spec fn shuffle_target(namespace: u64, round: u32, length: int, index: int) -> int {
    let left = (index as u64).wrapping_mul(COEF_B).wrapping_add(ADD_B);
    let right = ((MIX_HANDSHAKE_DOMAIN + round) as u64).wrapping_mul(COEF_A).wrapping_add(ADD_A);
    let raw = fold32_spec(splitmix64_spec(left ^ (namespace ^ SHUFFLE_KEY) ^ right));
    index + (raw as int) % (length - index)
}

pub open spec fn exchanged(items: Seq<usize>, i: int, j: int) -> Seq<usize> {
    items.update(i, items[j]).update(j, items[i])
}

/// The positions `0 .. length` after `round` full rounds of a keyed
/// Fisher-Yates shuffle and `index` steps of the next.
pub open spec fn shuffled(namespace: u64, length: nat, round: nat, index: nat) -> Seq<usize>
    decreases round, index,
{
    if index > 0 {
        exchanged(
            shuffled(namespace, length, round, (index - 1) as nat),
            index - 1,
            shuffle_target(namespace, round as u32, length as int, index - 1),
        )
    } else if round > 0 {
        shuffled(namespace, length, (round - 1) as nat, length)
    } else {
        Seq::new(length, |i: int| i as usize)
    }
}

pub open spec fn shuffle_rounds(rounds: u32) -> nat {
    if rounds == 0 {
        1
    } else {
        rounds as nat
    }
}

/// Every position of the sequence lies below its length and none repeats.
pub open spec fn is_permutation(items: Seq<usize>) -> bool {
    &&& forall|i: int| 0 <= i < items.len() ==> #[trigger] items[i] < items.len()
    &&& forall|i: int, j: int|
        0 <= i < items.len() && 0 <= j < items.len() && i != j ==> #[trigger] items[i]
            != #[trigger] items[j]
}

proof fn exchange_keeps_permutation(items: Seq<usize>, i: int, j: int)
    requires
        is_permutation(items),
        0 <= i < items.len(),
        0 <= j < items.len(),
    ensures
        is_permutation(exchanged(items, i, j)),
        exchanged(items, i, j).len() == items.len(),
{
    let after = exchanged(items, i, j);
    assert forall|a: int, b: int|
        0 <= a < after.len() && 0 <= b < after.len() && a != b implies #[trigger] after[a]
        != #[trigger] after[b] by {
        let a0 = if a == i { j } else if a == j { i } else { a };
        let b0 = if b == i { j } else if b == j { i } else { b };
        assert(after[a] == items[a0]);
        assert(after[b] == items[b0]);
    }
    assert forall|a: int| 0 <= a < after.len() implies #[trigger] after[a] < after.len() by {
        let a0 = if a == i { j } else if a == j { i } else { a };
        assert(after[a] == items[a0]);
    }
}

/// A shuffle rearranges: whatever the key, no position is lost or repeated.
pub proof fn shuffle_is_permutation(namespace: u64, length: nat, round: nat, index: nat)
    requires
        index <= length <= usize::MAX,
    ensures
        shuffled(namespace, length, round, index).len() == length,
        is_permutation(shuffled(namespace, length, round, index)),
    decreases round, index,
{
    if index > 0 {
        shuffle_is_permutation(namespace, length, round, (index - 1) as nat);
        let target = shuffle_target(namespace, round as u32, length as int, index - 1);
        exchange_keeps_permutation(
            shuffled(namespace, length, round, (index - 1) as nat),
            index - 1,
            target,
        );
    } else if round > 0 {
        shuffle_is_permutation(namespace, length, (round - 1) as nat, length);
    }
}

/// Every position occurs in a shuffle.
pub proof fn shuffle_names_every_position(
    namespace: u64,
    length: nat,
    round: nat,
    index: nat,
    position: usize,
)
    requires
        index <= length <= usize::MAX,
        position < length,
    ensures
        shuffled(namespace, length, round, index).contains(position),
{
    let items = shuffled(namespace, length, round, index);
    shuffle_is_permutation(namespace, length, round, index);
    let places = items.map_values(|item: usize| item as int);
    let all = vstd::set_lib::set_int_range(0, length as int);
    vstd::set_lib::lemma_int_range(0, length as int);
    assert(places.no_duplicates());
    places.unique_seq_to_set();
    assert(places.to_set().subset_of(all)) by {
        assert forall|i: int| places.to_set().contains(i) implies all.contains(i) by {
            let j = choose|j: int| 0 <= j < places.len() && places[j] == i;
            assert(items[j] < items.len());
        }
    }
    vstd::set_lib::lemma_subset_equality(places.to_set(), all);
    assert(all.contains(position as int));
    assert(places.to_set().contains(position as int));
    let j = choose|j: int| 0 <= j < places.len() && places[j] == position as int;
    assert(items[j] == position);
}

/// A shuffle of no rounds is one of a single round.
pub proof fn no_rounds_count_as_one(namespace: u64, length: nat)
    ensures
        shuffled(namespace, length, shuffle_rounds(0), 0) == shuffled(
            namespace,
            length,
            shuffle_rounds(1),
            0,
        ),
{
}

/// The positions below `length`, rearranged as the key says.
pub fn shuffle(namespace: u64, rounds: u32, length: usize) -> (positions: Vec<usize>)
    requires
        rounds + MIX_HANDSHAKE_DOMAIN <= u32::MAX,
    ensures
        positions@ == shuffled(namespace, length as nat, shuffle_rounds(rounds), 0),
        positions@.len() == length,
        is_permutation(positions@),
{
    let mut positions: Vec<usize> = Vec::new();
    let mut next: usize = 0;
    while next < length
        invariant
            next <= length,
            positions@.len() == next,
            forall|i: int| 0 <= i < next ==> #[trigger] positions@[i] == i,
        decreases length - next,
    {
        positions.push(next);
        next += 1;
    }
    assert(positions@ =~= shuffled(namespace, length as nat, 0, 0));
    let total: u32 = if rounds == 0 {
        1
    } else {
        rounds
    };
    let mut round: u32 = 0;
    while round < total
        invariant
            round <= total,
            total + MIX_HANDSHAKE_DOMAIN <= u32::MAX,
            positions@.len() == length,
            positions@ == shuffled(namespace, length as nat, round as nat, 0),
        decreases total - round,
    {
        let mut index: usize = 0;
        while index < length
            invariant
                round < total,
                total + MIX_HANDSHAKE_DOMAIN <= u32::MAX,
                index <= length,
                positions@.len() == length,
                positions@ == shuffled(namespace, length as nat, round as nat, index as nat),
            decreases length - index,
        {
            let left: u64 = (index as u64).wrapping_mul(COEF_B).wrapping_add(ADD_B);
            let right: u64 = ((MIX_HANDSHAKE_DOMAIN + round) as u64).wrapping_mul(
                COEF_A,
            ).wrapping_add(ADD_A);
            let mixed: u64 = splitmix64(left ^ (namespace ^ SHUFFLE_KEY) ^ right);
            let raw: usize = ((mixed ^ (mixed >> 32)) as u32) as usize;
            let target: usize = index + raw % (length - index);
            assert(target == shuffle_target(namespace, round, length as int, index as int));
            let held: usize = positions[index];
            let other: usize = positions[target];
            positions.set(index, other);
            positions.set(target, held);
            index += 1;
        }
        assert(shuffled(namespace, length as nat, (round + 1) as nat, 0) == shuffled(
            namespace,
            length as nat,
            round as nat,
            length as nat,
        ));
        round += 1;
    }
    proof {
        shuffle_is_permutation(namespace, length as nat, total as nat, 0);
    }
    positions
}

/// Byte that hides salt byte `index`.
pub open spec fn salt_mask_spec(namespace: u64, stride: usize, index: u32) -> u8 {
    (index as u8).wrapping_mul(stride as u8) ^ (prf32_spec(
        namespace,
        LABEL_MOTIF,
        MIX_HANDSHAKE_DOMAIN as u64,
        index as u64,
    ) as u8)
}

fn salt_mask(namespace: u64, stride: usize, index: u32) -> (mask: u8)
    ensures
        mask == salt_mask_spec(namespace, stride, index),
{
    (index as u8).wrapping_mul(stride as u8) ^ (prf32(
        namespace,
        LABEL_MOTIF,
        MIX_HANDSHAKE_DOMAIN as u64,
        index as u64,
    ) as u8)
}

impl Profile {
    /// Where the salt bytes stand in a block of `length` bytes.
    pub open spec fn salt_positions(self, length: nat) -> Seq<usize> {
        shuffled(self.namespaces.salt, length, shuffle_rounds(self.handshake_mix_rounds), 0)
    }

    pub open spec fn salt_mask_at(self, index: int) -> u8 {
        salt_mask_spec(self.namespaces.salt, self.handshake_mix_stride, index as u32)
    }

    /// The salt hidden in `block`.
    pub open spec fn salt_of(self, block: Seq<u8>) -> Seq<u8> {
        Seq::new(
            16,
            |i: int| self.salt_mask_at(i) ^ block[self.salt_positions(block.len())[i] as int],
        )
    }

    /// Reads the salt out of a handshake block.
    pub fn extract_salt(&self, block: &[u8]) -> (salt: [u8; 16])
        requires
            self.wf(),
            block@.len() >= 16,
        ensures
            salt@ == self.salt_of(block@),
    {
        let positions = shuffle(self.namespaces.salt, self.handshake_mix_rounds, block.len());
        let mut salt: [u8; 16] = [0; 16];
        let mut index: usize = 0;
        while index < 16
            invariant
                index <= 16,
                block@.len() >= 16,
                positions@.len() == block@.len(),
                positions@ == self.salt_positions(block@.len()),
                is_permutation(positions@),
                forall|i: int|
                    0 <= i < index ==> #[trigger] salt@[i] == self.salt_mask_at(i)
                        ^ block@[positions@[i] as int],
            decreases 16 - index,
        {
            let mask: u8 = salt_mask(
                self.namespaces.salt,
                self.handshake_mix_stride,
                index as u32,
            );
            salt[index] = mask ^ block[positions[index]];
            index += 1;
        }
        assert(salt@ =~= self.salt_of(block@));
        salt
    }

    /// Hides `salt` in `block`: sixteen positions change, the rest stay.
    pub fn write_salt(&self, salt: &[u8; 16], block: &mut [u8])
        requires
            self.wf(),
            old(block)@.len() >= 16,
        ensures
            final(block)@ == self.with_salt(salt@, old(block)@),
            self.salt_of(final(block)@) == salt@,
    {
        let positions = shuffle(self.namespaces.salt, self.handshake_mix_rounds, block.len());
        let mut index: usize = 0;
        let ghost before = block@;
        while index < 16
            invariant
                index <= 16,
                before.len() >= 16,
                block@.len() == before.len(),
                positions@.len() == before.len(),
                positions@ == self.salt_positions(before.len()),
                is_permutation(positions@),
                block@ == self.with_salt_upto(salt@, before, index as nat),
            decreases 16 - index,
        {
            let mask: u8 = salt_mask(
                self.namespaces.salt,
                self.handshake_mix_stride,
                index as u32,
            );
            let place: usize = positions[index];
            block[place] = mask ^ salt[index];
            index += 1;
        }
        proof {
            salt_round_trip(*self, salt@, before);
        }
    }

    /// `block` after the first `count` salt bytes have been put in place.
    pub open spec fn with_salt_upto(self, salt: Seq<u8>, block: Seq<u8>, count: nat) -> Seq<u8>
        decreases count,
    {
        if count == 0 {
            block
        } else {
            let i = count - 1;
            self.with_salt_upto(salt, block, i as nat).update(
                self.salt_positions(block.len())[i] as int,
                self.salt_mask_at(i) ^ salt[i],
            )
        }
    }

    /// `block` with `salt` hidden in it.
    pub open spec fn with_salt(self, salt: Seq<u8>, block: Seq<u8>) -> Seq<u8> {
        self.with_salt_upto(salt, block, 16)
    }
}

proof fn with_salt_upto_places(profile: Profile, salt: Seq<u8>, block: Seq<u8>, count: nat)
    requires
        salt.len() == 16,
        16 <= block.len() <= usize::MAX,
        count <= 16,
    ensures
        profile.with_salt_upto(salt, block, count).len() == block.len(),
        forall|i: int|
            0 <= i < count ==> #[trigger] profile.with_salt_upto(
                salt,
                block,
                count,
            )[profile.salt_positions(block.len())[i] as int] == profile.salt_mask_at(i) ^ salt[i],
    decreases count,
{
    let positions = profile.salt_positions(block.len());
    shuffle_is_permutation(
        profile.namespaces.salt,
        block.len(),
        shuffle_rounds(profile.handshake_mix_rounds),
        0,
    );
    if count > 0 {
        with_salt_upto_places(profile, salt, block, (count - 1) as nat);
        let last = count - 1;
        let previous = profile.with_salt_upto(salt, block, last as nat);
        let after = profile.with_salt_upto(salt, block, count);
        assert forall|i: int| 0 <= i < count implies #[trigger] after[positions[i] as int]
            == profile.salt_mask_at(i) ^ salt[i] by {
            if i < last {
                assert(previous[positions[i] as int] == profile.salt_mask_at(i) ^ salt[i]);
                assert(positions[i] != positions[last]);
            }
        }
    }
}

/// The salt read from a block is the salt that was hidden in it, whatever
/// else the block holds.
pub proof fn salt_round_trip(profile: Profile, salt: Seq<u8>, block: Seq<u8>)
    requires
        salt.len() == 16,
        16 <= block.len() <= usize::MAX,
    ensures
        profile.with_salt(salt, block).len() == block.len(),
        profile.salt_of(profile.with_salt(salt, block)) == salt,
{
    with_salt_upto_places(profile, salt, block, 16);
    let after = profile.with_salt(salt, block);
    let positions = profile.salt_positions(block.len());
    assert forall|i: int| 0 <= i < 16 implies #[trigger] profile.salt_of(after)[i] == salt[i] by {
        let m = profile.salt_mask_at(i);
        let s = salt[i];
        assert(after[positions[i] as int] == m ^ s);
        assert(m ^ (m ^ s) == s) by (bit_vector);
    }
    assert(profile.salt_of(after) =~= salt);
}

} // verus!
