//! Sizes: how much payload a record takes and how much padding it gets.

use vstd::prelude::*;

use crate::num::{max_int, max_usize, min_int, min_usize};
use crate::snell::prf::{
    pick, pick_spec, LABEL_CHUNK_JITTER_VALUE, LABEL_CHUNK_SIZE, LABEL_PAYLOAD_PAD,
    LABEL_RECORD_PREFIX, LABEL_WRITE_JITTER_VALUE, LABEL_WRITE_NEXT, LABEL_WRITE_TARGET,
};
use crate::snell::profile::{Profile, MAX_EXTRA_PADDING};

verus! {

/// Frames up to this length are padded towards a write target.
pub const TARGET_FRAME_LIMIT: usize = 0x05b3;

pub const FRAME_MAX: usize = 0xffff;

impl Profile {
    pub open spec fn prefix_len_spec(self, sequence: u32) -> int {
        pick_spec(
            self.namespaces.prf_spec(LABEL_RECORD_PREFIX, sequence, 0),
            self.prefix_min as int,
            self.prefix_max as int,
        )
    }

    /// Length of the padding between a record's header and its body.
    pub fn prefix_len(&self, sequence: u32) -> (len: usize)
        requires
            self.wf(),
        ensures
            len == self.prefix_len_spec(sequence),
            self.prefix_min <= len <= self.prefix_max,
    {
        pick(
            self.namespaces.prf(LABEL_RECORD_PREFIX, sequence, 0),
            self.prefix_min,
            self.prefix_max,
        )
    }

    pub open spec fn payload_limit_spec(self, sequence: u32, chunk_size: usize) -> int {
        let base: usize = if chunk_size == 0 {
            self.chunk_initial
        } else {
            chunk_size
        };
        let wanted: int = if self.chunk_policy == 1 {
            self.chunk_buckets[self.namespaces.prf_spec(LABEL_CHUNK_SIZE, sequence, base as u32)
                as int % 8] as int
        } else if self.chunk_policy == 2 {
            let raw = self.namespaces.prf_spec(LABEL_CHUNK_JITTER_VALUE, sequence, base as u32);
            base + (raw as int) % (self.chunk_jitter * 2 + 1) - self.chunk_jitter
        } else {
            base as int
        };
        max_int(0x40, min_int(wanted, self.chunk_max as int))
    }

    /// Largest payload that one record may carry at this point.
    pub fn payload_limit(&self, sequence: u32, chunk_size: usize) -> (limit: usize)
        requires
            self.wf(),
        ensures
            limit == self.payload_limit_spec(sequence, chunk_size),
            0x40 <= limit <= self.chunk_max,
    {
        let base: usize = if chunk_size == 0 {
            self.chunk_initial
        } else {
            chunk_size
        };
        let wanted: usize = if self.chunk_policy == 1 {
            let raw: u32 = self.namespaces.prf(LABEL_CHUNK_SIZE, sequence, base as u32);
            self.chunk_buckets[raw as usize % 8]
        } else if self.chunk_policy == 2 {
            let raw: u32 = self.namespaces.prf(LABEL_CHUNK_JITTER_VALUE, sequence, base as u32);
            base.saturating_add(raw as usize % (self.chunk_jitter * 2 + 1)).saturating_sub(
                self.chunk_jitter,
            )
        } else {
            base
        };
        max_usize(0x40, min_usize(wanted, self.chunk_max))
    }

    pub open spec fn next_chunk_size_spec(self, chunk_size: usize) -> int {
        if chunk_size == 0 {
            self.chunk_initial as int
        } else {
            min_int(chunk_size + self.chunk_step, self.chunk_max as int)
        }
    }

    /// Chunk size after one more record has been sent without an idle pause.
    pub fn next_chunk_size(&self, chunk_size: usize) -> (next: usize)
        requires
            self.wf(),
            chunk_size + self.chunk_step <= usize::MAX,
        ensures
            next == self.next_chunk_size_spec(chunk_size),
            chunk_size <= self.chunk_max ==> next <= self.chunk_max,
    {
        if chunk_size == 0 {
            self.chunk_initial
        } else {
            min_usize(chunk_size + self.chunk_step, self.chunk_max)
        }
    }

    /// The target before jitter: the first writes follow the profile's
    /// sequence, later ones draw from the buckets.
    pub open spec fn write_target_base(self, sequence: u32, frame_len: usize) -> int {
        let base: int = if sequence < self.write_first {
            self.write_sequence[sequence as int] as int
        } else {
            self.write_buckets[self.namespaces.prf_spec(
                LABEL_WRITE_TARGET,
                sequence,
                frame_len as u32,
            ) as int % 8] as int
        };
        if self.write_policy == 2 {
            let raw = self.namespaces.prf_spec(LABEL_WRITE_JITTER_VALUE, sequence, 0);
            max_int(base + (raw as int) % (self.write_jitter * 2 + 1) - self.write_jitter, 1)
        } else {
            base
        }
    }

    /// The target after the spread that grows with the frame.
    pub open spec fn write_target_spread(self, sequence: u32, frame_len: usize) -> int {
        let base = self.write_target_base(sequence, frame_len);
        let spread: usize = min_int(
            MAX_EXTRA_PADDING as int,
            frame_len * self.write_jitter_percent / 100,
        ) as usize;
        if self.namespaces.prf_spec(LABEL_WRITE_TARGET, sequence, spread as u32) & 1 == 0 {
            min_int(base + spread, FRAME_MAX as int)
        } else {
            max_int(base - (spread >> 1), 0)
        }
    }

    /// The next larger target above `target`.
    pub open spec fn raised_target(self, sequence: u32, target: int) -> int {
        let bucket = self.write_buckets[self.namespaces.prf_spec(
            LABEL_WRITE_NEXT,
            sequence,
            target as u32,
        ) as int % 8] as int;
        if bucket <= target {
            min_int(target + self.pad_max, FRAME_MAX as int)
        } else {
            bucket
        }
    }

    /// Raises `target` until the frame fits or the largest frame is reached.
    pub open spec fn climbed_target(self, sequence: u32, frame_len: int, target: int) -> int
        decreases max_int(frame_len - target, 0),
    {
        if frame_len <= target {
            target
        } else {
            let next = self.raised_target(sequence, target);
            if next == FRAME_MAX || next <= target {
                next
            } else {
                self.climbed_target(sequence, frame_len, next)
            }
        }
    }

    pub open spec fn write_target_spec(self, sequence: u32, frame_len: usize) -> int {
        if frame_len > TARGET_FRAME_LIMIT {
            min_int(frame_len as int, FRAME_MAX as int)
        } else {
            self.climbed_target(
                sequence,
                frame_len as int,
                self.write_target_spread(sequence, frame_len),
            )
        }
    }

    fn write_target(&self, sequence: u32, frame_len: usize) -> (target: usize)
        requires
            self.wf(),
        ensures
            target == self.write_target_spec(sequence, frame_len),
            target >= min_int(frame_len as int, FRAME_MAX as int),
            target <= FRAME_MAX,
    {
        if frame_len > TARGET_FRAME_LIMIT {
            return min_usize(frame_len, FRAME_MAX);
        }
        let mut target: usize = if sequence < self.write_first {
            self.write_sequence[sequence as usize]
        } else {
            let raw: u32 = self.namespaces.prf(LABEL_WRITE_TARGET, sequence, frame_len as u32);
            self.write_buckets[raw as usize % 8]
        };
        if self.write_policy == 2 {
            let raw: u32 = self.namespaces.prf(LABEL_WRITE_JITTER_VALUE, sequence, 0);
            target = target.saturating_add(
                raw as usize % (self.write_jitter * 2 + 1),
            ).saturating_sub(self.write_jitter);
            target = max_usize(target, 1);
        }
        assert(target == self.write_target_base(sequence, frame_len));
        assert(frame_len * self.write_jitter_percent <= 0x05b3 * 0x30) by (nonlinear_arith)
            requires
                frame_len <= 0x05b3,
                self.write_jitter_percent <= 0x30,
        ;
        assert(0 <= frame_len * self.write_jitter_percent) by (nonlinear_arith)
            requires
                frame_len >= 0,
                self.write_jitter_percent >= 0,
        ;
        let spread: usize = min_usize(
            MAX_EXTRA_PADDING,
            frame_len * self.write_jitter_percent / 100,
        );
        assert(spread >> 1 == spread / 2) by (bit_vector);
        let coin: u32 = self.namespaces.prf(LABEL_WRITE_TARGET, sequence, spread as u32);
        if coin & 1 == 0 {
            target = min_usize(target + spread, FRAME_MAX);
        } else {
            target = target.saturating_sub(spread >> 1);
        }
        assert(target == self.write_target_spread(sequence, frame_len));
        let ghost start = target as int;
        while frame_len > target
            invariant_except_break
                self.climbed_target(sequence, frame_len as int, start) == self.climbed_target(
                    sequence,
                    frame_len as int,
                    target as int,
                ),
            invariant
                self.wf(),
                frame_len <= TARGET_FRAME_LIMIT,
                target <= FRAME_MAX,
            ensures
                target == self.climbed_target(sequence, frame_len as int, start),
                target >= frame_len,
            decreases max_int(frame_len - target, 0),
        {
            let raw: u32 = self.namespaces.prf(LABEL_WRITE_NEXT, sequence, target as u32);
            let next: usize = self.write_buckets[raw as usize % 8];
            let ghost before = target as int;
            target = if next <= target {
                min_usize(target + self.pad_max, FRAME_MAX)
            } else {
                next
            };
            assert(target == self.raised_target(sequence, before));
            if target == FRAME_MAX {
                break;
            }
        }
        target
    }

    /// Padding drawn for the record itself, before it is widened to a target.
    pub open spec fn base_padding(self, sequence: u32, payload_len: usize) -> int {
        if sequence < self.pad_count || 0 < payload_len <= self.small_limit || sequence
            % self.pad_interval == 0 {
            pick_spec(
                self.namespaces.prf_spec(LABEL_PAYLOAD_PAD, sequence, payload_len as u32),
                self.pad_min as int,
                self.pad_max as int,
            )
        } else {
            0
        }
    }

    /// Bytes on the wire of a record with `padding` bytes of padding.
    pub open spec fn frame_len_spec(
        payload_len: int,
        prefix_len: int,
        salt_block_len: int,
        padding: int,
    ) -> int {
        salt_block_len + prefix_len + 23 + padding + payload_len + (if payload_len > 0 {
            16int
        } else {
            0
        })
    }

    /// Padding widened so that the frame reaches its write target.
    pub open spec fn targeted_padding(
        self,
        sequence: u32,
        payload_len: usize,
        prefix_len: usize,
        salt_block_len: usize,
    ) -> int {
        let base = self.base_padding(sequence, payload_len);
        let frame_len = Self::frame_len_spec(
            payload_len as int,
            prefix_len as int,
            salt_block_len as int,
            base,
        );
        let target = self.write_target_spec(sequence, frame_len as usize);
        if target > frame_len {
            base + min_int(target - frame_len, MAX_EXTRA_PADDING as int)
        } else {
            base
        }
    }

    /// The least overhead of a record that opens a stream: a third of what it
    /// carries, rounded up, and never below 192 bytes.
    pub open spec fn opening_threshold(payload_len: int) -> int {
        let input = payload_len + (if payload_len == 0 {
            0x27int
        } else {
            0x37
        });
        max_int((input * 25 + 74) / 75, 0xc0)
    }

    pub open spec fn padding_len_spec(
        self,
        sequence: u32,
        payload_len: usize,
        prefix_len: usize,
        salt_prefix_len: usize,
        salt_block_len: usize,
    ) -> int {
        let padding = self.targeted_padding(sequence, payload_len, prefix_len, salt_block_len);
        let threshold = Self::opening_threshold(payload_len as int);
        let opened = if salt_block_len > 0 && salt_prefix_len + prefix_len + padding < threshold {
            min_int(
                max_int(threshold - (salt_prefix_len + prefix_len), 0),
                self.pad_max + MAX_EXTRA_PADDING,
            )
        } else {
            padding
        };
        min_int(opened, 0xffff)
    }

    /// Length of the padding block of a record.
    pub fn padding_len(
        &self,
        sequence: u32,
        payload_len: usize,
        prefix_len: usize,
        salt_prefix_len: usize,
        salt_block_len: usize,
    ) -> (len: usize)
        requires
            self.wf(),
            (payload_len + 0x37) * 25 <= usize::MAX,
            Self::frame_len_spec(
                payload_len as int,
                prefix_len as int,
                salt_block_len as int,
                self.pad_max as int,
            ) <= usize::MAX,
            salt_prefix_len + prefix_len + self.pad_max + MAX_EXTRA_PADDING <= usize::MAX,
        ensures
            len == self.padding_len_spec(
                sequence,
                payload_len,
                prefix_len,
                salt_prefix_len,
                salt_block_len,
            ),
            len <= 0xffff,
    {
        let mut padding: usize = 0;
        if sequence < self.pad_count || (payload_len > 0 && payload_len <= self.small_limit)
            || sequence % self.pad_interval == 0 {
            padding = pick(
                self.namespaces.prf(LABEL_PAYLOAD_PAD, sequence, payload_len as u32),
                self.pad_min,
                self.pad_max,
            );
        }
        assert(padding == self.base_padding(sequence, payload_len));
        let tag_len: usize = if payload_len > 0 {
            16
        } else {
            0
        };
        let frame_len: usize = salt_block_len + prefix_len + 23 + padding + payload_len + tag_len;
        let target: usize = self.write_target(sequence, frame_len);
        if target > frame_len {
            padding += min_usize(target - frame_len, MAX_EXTRA_PADDING);
        }
        assert(padding == self.targeted_padding(sequence, payload_len, prefix_len, salt_block_len));
        if salt_block_len > 0 {
            let overhead: usize = salt_prefix_len + prefix_len + padding;
            let input: usize = payload_len + (if payload_len == 0 {
                0x27
            } else {
                0x37
            });
            let scaled: usize = input * 25;
            let third: usize = if scaled % 75 == 0 {
                scaled / 75
            } else {
                scaled / 75 + 1
            };
            let threshold: usize = max_usize(third, 0xc0);
            if overhead < threshold {
                padding = min_usize(
                    threshold.saturating_sub(salt_prefix_len + prefix_len),
                    self.pad_max + MAX_EXTRA_PADDING,
                );
            }
        }
        min_usize(padding, 0xffff)
    }
}

} // verus!
