//! What mixing does to the padding and the body of a record.

use vstd::arithmetic::div_mod::{
    lemma_fundamental_div_mod, lemma_fundamental_div_mod_converse,
};
use vstd::prelude::*;

use crate::num::min_int;
use crate::snell::prf::LABEL_MIX_OFFSET;
use crate::snell::profile::Profile;

verus! {

/// The same profile with another number of rounds.
pub open spec fn with_rounds(profile: Profile, rounds: u32) -> Profile {
    Profile { mix_rounds: rounds, ..profile }
}

/// Position `index` lies in a block that a round exchanges: blocks and gaps of
/// the same length take turns, the first round of two starts with a block, and
/// a block that does not end within the common part is left alone.
pub open spec fn lies_in_block(block: int, round: int, count: int, index: int) -> bool {
    exists|k: int|
        {
            let from = #[trigger] (2 * k * block) + if round % 2 == 0 {
                0
            } else {
                block
            };
            k >= 0 && from <= index < from + block <= count
        }
}

/// Position `index` is reached from `offset` by whole strides.
pub open spec fn lies_on_stride(stride: int, offset: int, index: int) -> bool {
    exists|k: int| k >= 0 && index == offset % stride + #[trigger] (k * stride)
}

proof fn swaps_are_fixed_by_rounds(
    profile: Profile,
    sequence: u32,
    count: int,
    rounds: nat,
    index: int,
    other: u32,
)
    ensures
        with_rounds(profile, other).swapped(sequence, count, rounds, index) == profile.swapped(
            sequence,
            count,
            rounds,
            index,
        ),
    decreases rounds,
{
    if rounds > 0 {
        swaps_are_fixed_by_rounds(profile, sequence, count, (rounds - 1) as nat, index, other);
    }
}

proof fn block_round(profile: Profile, sequence: u32, count: int, round: int, index: int)
    requires
        profile.mix_block > 0,
        profile.mix_mode == 1,
        round >= 0,
        0 <= index < count,
    ensures
        profile.round_swaps(sequence, count, round, index) == lies_in_block(
            profile.mix_block as int,
            round,
            count,
            index,
        ),
{
    let b = profile.mix_block as int;
    let start = (round % 2) * b;
    assert(start == if round % 2 == 0 { 0 } else { b }) by (nonlinear_arith)
        requires
            start == (round % 2) * b,
            round >= 0,
    ;
    let within = index - start;
    lemma_fundamental_div_mod(within, b);
    let q = within / b;
    let r = within % b;
    if profile.round_swaps(sequence, count, round, index) {
        let k = q / 2;
        assert(q >= 0) by (nonlinear_arith)
            requires
                within >= 0,
                within == b * q + r,
                0 <= r < b,
                b > 0,
        ;
        assert(q == 2 * k);
        assert(b * q == 2 * k * b) by (nonlinear_arith)
            requires
                q == 2 * k,
        ;
        let from = 2 * k * b + if round % 2 == 0 {
            0
        } else {
            b
        };
        assert(from <= index < from + b <= count);
    }
    if lies_in_block(b, round, count, index) {
        let k = choose|k: int|
            {
                let from = #[trigger] (2 * k * b) + if round % 2 == 0 {
                    0
                } else {
                    b
                };
                k >= 0 && from <= index < from + b <= count
            };
        let phase = within - 2 * k * b;
        assert(within == 2 * k * b + phase);
        assert((2 * k) * b == 2 * k * b);
        assert(2 * k * b >= 0) by (nonlinear_arith)
            requires
                k >= 0,
                b > 0,
        ;
        lemma_fundamental_div_mod_converse(within, b, 2 * k, phase);
    }
}

proof fn stride_round(stride: int, offset: int, index: int)
    requires
        stride > 0,
        index >= 0,
    ensures
        (index % stride == offset % stride) == lies_on_stride(stride, offset, index),
{
    let r = offset % stride;
    lemma_fundamental_div_mod(offset, stride);
    if index % stride == r {
        let k = index / stride;
        lemma_fundamental_div_mod(index, stride);
        assert(k * stride == stride * k) by (nonlinear_arith);
        assert(k >= 0) by (nonlinear_arith)
            requires
                index >= 0,
                index == stride * k + r,
                0 <= r < stride,
                stride > 0,
        ;
    }
    if lies_on_stride(stride, offset, index) {
        let k = choose|k: int| k >= 0 && index == r + #[trigger] (k * stride);
        lemma_fundamental_div_mod_converse(index, stride, k, r);
    }
}

/// What one round more does to a record: at the positions that the round takes,
/// the two sides exchange what the rounds before have left there, and nothing
/// else changes. A round takes whole blocks, or every position at a stride from
/// an offset that the profile fixes or that is drawn for the round; strides
/// grow by none, one and two in turn.
pub proof fn a_round_exchanges_its_positions(
    profile: Profile,
    sequence: u32,
    rounds: u32,
    own: Seq<u8>,
    other: Seq<u8>,
    index: int,
)
    requires
        profile.wf(),
        rounds < u32::MAX,
        0 <= index < own.len(),
    ensures
        ({
            let before = with_rounds(profile, rounds);
            let after = with_rounds(profile, (rounds + 1) as u32);
            let count = min_int(own.len() as int, other.len() as int);
            let stride = profile.mix_stride + rounds % 3;
            let drawn = profile.namespaces.prf_spec(3, sequence, rounds);
            let taken = index < count && if profile.mix_mode == 1 {
                lies_in_block(profile.mix_block as int, rounds as int, count, index)
            } else if profile.mix_mode == 0 {
                lies_on_stride(stride, profile.mix_offset as int, index)
            } else {
                lies_on_stride(stride, drawn + profile.mix_offset, index)
            };
            &&& after.mixed(sequence, own, other)[index] == if taken {
                before.mixed(sequence, other, own)[index]
            } else {
                before.mixed(sequence, own, other)[index]
            }
            &&& after.mixed(sequence, own, other).len() == own.len()
        }),
{
    let before = with_rounds(profile, rounds);
    let after = with_rounds(profile, (rounds + 1) as u32);
    let count = min_int(own.len() as int, other.len() as int);
    assert(count == min_int(other.len() as int, own.len() as int));
    swaps_are_fixed_by_rounds(profile, sequence, count, rounds as nat, index, rounds);
    swaps_are_fixed_by_rounds(
        profile,
        sequence,
        count,
        (rounds + 1) as nat,
        index,
        (rounds + 1) as u32,
    );
    assert(LABEL_MIX_OFFSET == 3);
    let stride = profile.mix_stride_spec(rounds as int);
    assert(stride == profile.mix_stride + rounds % 3);
    if index < count {
        if profile.mix_mode == 1 {
            block_round(profile, sequence, count, rounds as int, index);
        } else if profile.mix_mode == 0 {
            stride_round(stride, profile.mix_offset as int, index);
        } else {
            let drawn = profile.namespaces.prf_spec(3, sequence, rounds);
            stride_round(stride, drawn + profile.mix_offset, index);
        }
        assert(((rounds + 1) as nat - 1) as nat == rounds as nat);
        assert(profile.swapped(sequence, count, (rounds + 1) as nat, index) == (profile.swapped(
            sequence,
            count,
            rounds as nat,
            index,
        ) != profile.round_swaps(sequence, count, rounds as int, index)));
    }
}

/// Without rounds nothing is mixed.
pub proof fn no_round_mixes_nothing(
    profile: Profile,
    sequence: u32,
    own: Seq<u8>,
    other: Seq<u8>,
)
    ensures
        with_rounds(profile, 0).mixed(sequence, own, other) == own,
{
    assert(with_rounds(profile, 0).mixed(sequence, own, other) =~= own);
}

/// In block mode a single round exchanges the first block, and leaves the gap
/// behind it alone.
pub proof fn one_round_exchanges_the_first_block(
    profile: Profile,
    sequence: u32,
    own: Seq<u8>,
    other: Seq<u8>,
    index: int,
)
    requires
        profile.wf(),
        profile.mix_mode == 1,
        profile.mix_rounds == 1,
        own.len() >= profile.mix_block,
        other.len() >= profile.mix_block,
        0 <= index < 2 * profile.mix_block,
        index < own.len(),
    ensures
        profile.mixed(sequence, own, other)[index] == if index < profile.mix_block {
            other[index]
        } else {
            own[index]
        },
{
    let b = profile.mix_block as int;
    let count = min_int(own.len() as int, other.len() as int);
    a_round_exchanges_its_positions(profile, sequence, 0, own, other, index);
    no_round_mixes_nothing(profile, sequence, own, other);
    no_round_mixes_nothing(profile, sequence, other, own);
    assert(with_rounds(profile, 1).mix_rounds == profile.mix_rounds);
    assert(with_rounds(profile, 1).mixed(sequence, own, other) =~= profile.mixed(
        sequence,
        own,
        other,
    )) by {
        assert forall|i: int| 0 <= i < own.len() implies with_rounds(profile, 1).mixed(
            sequence,
            own,
            other,
        )[i] == profile.mixed(sequence, own, other)[i] by {
            swaps_are_fixed_by_rounds(profile, sequence, count, 1, i, 1);
        }
    }
    if index < count {
        if index < b {
            let k: int = 0;
            assert(2 * k * b == 0) by (nonlinear_arith)
                requires
                    k == 0,
            ;
            assert(lies_in_block(b, 0, count, index));
        } else if lies_in_block(b, 0, count, index) {
            let k = choose|k: int|
                {
                    let from = #[trigger] (2 * k * b) + if 0int % 2 == 0 {
                        0
                    } else {
                        b
                    };
                    k >= 0 && from <= index < from + b <= count
                };
            assert(2 * k * b >= 2 * b || 2 * k * b == 0) by (nonlinear_arith)
                requires
                    k >= 0,
                    b > 0,
            ;
        }
    }
}

/// Mixing moves no byte to another position: at every common position the two
/// sides keep their bytes or exchange them, and behind it nothing changes.
pub proof fn mixing_keeps_positions(
    profile: Profile,
    sequence: u32,
    own: Seq<u8>,
    other: Seq<u8>,
    index: int,
)
    requires
        0 <= index < own.len(),
    ensures
        ({
            let mine = profile.mixed(sequence, own, other);
            let theirs = profile.mixed(sequence, other, own);
            &&& mine.len() == own.len()
            &&& index >= other.len() ==> mine[index] == own[index]
            &&& index < other.len() ==> {
                ||| mine[index] == own[index] && theirs[index] == other[index]
                ||| mine[index] == other[index] && theirs[index] == own[index]
            }
        }),
{
    assert(min_int(own.len() as int, other.len() as int) == min_int(
        other.len() as int,
        own.len() as int,
    ));
}

} // verus!
