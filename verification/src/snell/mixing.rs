//! Exchanging bytes between a record's padding and its body.

use vstd::prelude::*;

use crate::num::{max_int, max_usize, min_int, min_usize};
use crate::snell::prf::LABEL_MIX_OFFSET;
use crate::snell::profile::Profile;

verus! {

impl Profile {
    /// Distance between exchanged positions in a round of a striding mode.
    pub open spec fn mix_stride_spec(self, round: int) -> int {
        max_int(self.mix_stride + round % 3, 1)
    }

    /// Whether a round exchanges position `index` of `count` common positions.
    pub open spec fn round_swaps(self, sequence: u32, count: int, round: int, index: int) -> bool {
        let stride = self.mix_stride_spec(round);
        if self.mix_mode == 0 {
            index % stride == (self.mix_offset as int) % stride
        } else if self.mix_mode == 1 {
            let start = (round % 2) * self.mix_block;
            let within = index - start;
            &&& start <= index
            &&& (within / (self.mix_block as int)) % 2 == 0
            &&& index - within % (self.mix_block as int) + self.mix_block <= count
        } else {
            let raw = self.namespaces.prf_spec(LABEL_MIX_OFFSET, sequence, round as u32);
            index % stride == (raw + self.mix_offset) % stride
        }
    }

    /// Whether `rounds` rounds together leave position `index` exchanged: an
    /// odd number of them exchange it.
    pub open spec fn swapped(self, sequence: u32, count: int, rounds: nat, index: int) -> bool
        decreases rounds,
    {
        rounds > 0 && self.swapped(sequence, count, (rounds - 1) as nat, index)
            != self.round_swaps(sequence, count, rounds - 1, index)
    }

    /// `own` after mixing with `other`: the exchanged positions come from `other`.
    pub open spec fn mixed(self, sequence: u32, own: Seq<u8>, other: Seq<u8>) -> Seq<u8> {
        let count = min_int(own.len() as int, other.len() as int);
        Seq::new(
            own.len(),
            |i: int|
                if i < count && self.swapped(sequence, count, self.mix_rounds as nat, i) {
                    other[i]
                } else {
                    own[i]
                },
        )
    }

    fn swaps_in_round(&self, offset: usize, count: usize, round: u32, index: usize) -> (swaps: bool)
        requires
            self.wf(),
            round < self.mix_rounds,
            index < count,
            self.mix_mode != 1 ==> offset < self.mix_stride_spec(round as int),
        ensures
            self.mix_mode != 1 ==> swaps == ((index as int) % self.mix_stride_spec(round as int)
                == offset),
            self.mix_mode == 1 ==> forall|sequence: u32|
                swaps == #[trigger] self.round_swaps(
                    sequence,
                    count as int,
                    round as int,
                    index as int,
                ),
    {
        if self.mix_mode == 1 {
            let start: usize = if round % 2 == 0 {
                0
            } else {
                self.mix_block
            };
            assert(start == (round as int % 2) * self.mix_block) by (nonlinear_arith)
                requires
                    start == (if round % 2 == 0 { 0int } else { self.mix_block as int }),
                    round >= 0,
            ;
            if index < start {
                return false;
            }
            let within: usize = index - start;
            let phase: usize = within % self.mix_block;
            proof {
                vstd::arithmetic::div_mod::lemma_mod_decreases(
                    within as nat,
                    self.mix_block as nat,
                );
            }
            (within / self.mix_block) % 2 == 0 && count - (index - phase) >= self.mix_block
        } else {
            let stride: usize = max_usize(self.mix_stride + (round % 3) as usize, 1);
            index % stride == offset
        }
    }

    /// Position of the first exchange in a round of a striding mode.
    fn round_offset(&self, sequence: u32, round: u32) -> (offset: usize)
        requires
            self.wf(),
            round < self.mix_rounds,
        ensures
            self.mix_mode == 0 ==> offset == (self.mix_offset as int) % self.mix_stride_spec(
                round as int,
            ),
            self.mix_mode == 2 ==> offset == (self.namespaces.prf_spec(
                LABEL_MIX_OFFSET,
                sequence,
                round,
            ) + self.mix_offset) % self.mix_stride_spec(round as int),
            self.mix_mode != 1 ==> offset < self.mix_stride_spec(round as int),
    {
        let stride: usize = max_usize(self.mix_stride + (round % 3) as usize, 1);
        if self.mix_mode == 2 {
            let raw: u32 = self.namespaces.prf(LABEL_MIX_OFFSET, sequence, round);
            ((raw as u64 + self.mix_offset as u64) % stride as u64) as usize
        } else {
            self.mix_offset % stride
        }
    }

    /// Exchanges bytes between `padding` and `body` at the positions that the
    /// profile selects for record `sequence`.
    pub fn mix_payload(&self, sequence: u32, padding: &mut [u8], body: &mut [u8])
        requires
            self.wf(),
        ensures
            final(padding)@ == self.mixed(sequence, old(padding)@, old(body)@),
            final(body)@ == self.mixed(sequence, old(body)@, old(padding)@),
    {
        let count: usize = min_usize(padding.len(), body.len());
        let ghost padding0 = padding@;
        let ghost body0 = body@;
        let mut round: u32 = 0;
        while round < self.mix_rounds
            invariant
                self.wf(),
                round <= self.mix_rounds,
                padding@.len() == padding0.len(),
                body@.len() == body0.len(),
                count == min_int(padding0.len() as int, body0.len() as int),
                forall|i: int|
                    0 <= i < padding0.len() ==> #[trigger] padding@[i] == (if i < count
                        && self.swapped(sequence, count as int, round as nat, i) {
                        body0[i]
                    } else {
                        padding0[i]
                    }),
                forall|i: int|
                    0 <= i < body0.len() ==> #[trigger] body@[i] == (if i < count && self.swapped(
                        sequence,
                        count as int,
                        round as nat,
                        i,
                    ) {
                        padding0[i]
                    } else {
                        body0[i]
                    }),
            decreases self.mix_rounds - round,
        {
            let offset: usize = self.round_offset(sequence, round);
            let mut index: usize = 0;
            while index < count
                invariant
                    self.wf(),
                    round < self.mix_rounds,
                    index <= count,
                    padding@.len() == padding0.len(),
                    body@.len() == body0.len(),
                    count == min_int(padding0.len() as int, body0.len() as int),
                    self.mix_mode == 0 ==> offset == (self.mix_offset as int)
                        % self.mix_stride_spec(round as int),
                    self.mix_mode == 2 ==> offset == (self.namespaces.prf_spec(
                        LABEL_MIX_OFFSET,
                        sequence,
                        round,
                    ) + self.mix_offset) % self.mix_stride_spec(round as int),
                    self.mix_mode != 1 ==> offset < self.mix_stride_spec(round as int),
                    forall|i: int|
                        0 <= i < padding0.len() ==> #[trigger] padding@[i] == (if i < count
                            && self.swapped(
                            sequence,
                            count as int,
                            (round + if i < index {
                                1int
                            } else {
                                0
                            }) as nat,
                            i,
                        ) {
                            body0[i]
                        } else {
                            padding0[i]
                        }),
                    forall|i: int|
                        0 <= i < body0.len() ==> #[trigger] body@[i] == (if i < count
                            && self.swapped(
                            sequence,
                            count as int,
                            (round + if i < index {
                                1int
                            } else {
                                0
                            }) as nat,
                            i,
                        ) {
                            padding0[i]
                        } else {
                            body0[i]
                        }),
                decreases count - index,
            {
                let swaps = self.swaps_in_round(offset, count, round, index);
                assert(swaps == self.round_swaps(
                    sequence,
                    count as int,
                    round as int,
                    index as int,
                ));
                assert(self.swapped(sequence, count as int, (round + 1) as nat, index as int) == (
                self.swapped(sequence, count as int, round as nat, index as int) != swaps));
                if swaps {
                    let held: u8 = padding[index];
                    padding[index] = body[index];
                    body[index] = held;
                }
                index += 1;
            }
            round += 1;
        }
        assert(padding@ =~= self.mixed(sequence, padding0, body0));
        assert(body@ =~= self.mixed(sequence, body0, padding0));
    }
}

/// Mixing twice restores both sides: the reader undoes the writer's exchange
/// by applying the same exchange again.
pub proof fn mixing_twice_is_identity(
    profile: Profile,
    sequence: u32,
    padding: Seq<u8>,
    body: Seq<u8>,
)
    ensures
        profile.mixed(
            sequence,
            profile.mixed(sequence, padding, body),
            profile.mixed(sequence, body, padding),
        ) == padding,
        profile.mixed(
            sequence,
            profile.mixed(sequence, body, padding),
            profile.mixed(sequence, padding, body),
        ) == body,
{
    let p = profile.mixed(sequence, padding, body);
    let b = profile.mixed(sequence, body, padding);
    assert(profile.mixed(sequence, p, b) =~= padding);
    assert(profile.mixed(sequence, b, p) =~= body);
}

} // verus!
