//! How large records are, and how much padding they get.

use vstd::prelude::*;

use crate::snell::clock::seconds_between;
use crate::snell::profile::Profile;
use crate::snell::record::Mode;
use crate::snell::writer::Pace;

verus! {

/// A record carries at least 64 bytes and at most the profile's largest chunk.
/// Between the two the limit is the chunk itself, one of the eight buckets, or
/// the chunk with a jitter, as the policy says.
pub proof fn limits_follow_the_policy(profile: Profile, sequence: u32, chunk_size: usize)
    requires
        profile.wf(),
    ensures
        ({
            let base: usize = if chunk_size == 0 {
                profile.chunk_initial
            } else {
                chunk_size
            };
            let limit = profile.payload_limit_spec(sequence, chunk_size);
            &&& 64 <= limit <= profile.chunk_max
            &&& profile.chunk_policy == 0 && 64 <= base <= profile.chunk_max ==> limit == base
            &&& profile.chunk_policy == 0 && base > profile.chunk_max ==> limit == profile.chunk_max
            &&& profile.chunk_policy == 1 ==> limit
                == profile.chunk_buckets[profile.namespaces.prf_spec(38, sequence, base as u32)
                as int % 8]
            &&& profile.chunk_policy == 2 && 512 <= base && base + profile.chunk_jitter
                <= profile.chunk_max ==> {
                &&& base - profile.chunk_jitter <= limit <= base + profile.chunk_jitter
                &&& limit - (base - profile.chunk_jitter) == profile.namespaces.prf_spec(
                    39,
                    sequence,
                    base as u32,
                ) as int % (2 * profile.chunk_jitter + 1)
            }
        }),
{
    let base: usize = if chunk_size == 0 {
        profile.chunk_initial
    } else {
        chunk_size
    };
    let at = profile.namespaces.prf_spec(38, sequence, base as u32) as int % 8;
    assert(0 <= at < 8);
    assert(profile.chunk_buckets[at] <= profile.chunk_max);
    vstd::arithmetic::div_mod::lemma_mod_bound(
        profile.namespaces.prf_spec(39, sequence, base as u32) as int,
        profile.chunk_jitter * 2 + 1,
    );
}

/// A chunk grows by one step at a time up to the largest; the first is the
/// profile's own.
pub proof fn chunks_grow_by_steps(profile: Profile, chunk_size: usize)
    requires
        profile.wf(),
    ensures
        profile.next_chunk_size_spec(0) == profile.chunk_initial,
        chunk_size > 0 && chunk_size + profile.chunk_step <= profile.chunk_max
            ==> profile.next_chunk_size_spec(chunk_size) == chunk_size + profile.chunk_step,
        chunk_size > 0 && chunk_size + profile.chunk_step > profile.chunk_max
            ==> profile.next_chunk_size_spec(chunk_size) == profile.chunk_max,
{
}

/// The padding in front of a header lies between the profile's bounds, and is
/// drawn for the record.
pub proof fn prefixes_are_drawn(profile: Profile, sequence: u32)
    requires
        profile.wf(),
    ensures
        profile.prefix_min <= profile.prefix_len_spec(sequence) <= profile.prefix_max,
        profile.prefix_len_spec(sequence) - profile.prefix_min == profile.namespaces.prf_spec(
            33,
            sequence,
            0,
        ) as int % (profile.prefix_max - profile.prefix_min + 1),
{
    vstd::arithmetic::div_mod::lemma_mod_bound(
        profile.namespaces.prf_spec(33, sequence, 0) as int,
        profile.prefix_max - profile.prefix_min + 1,
    );
}

/// Padding is drawn for the first records of a stream, for every record at an
/// interval, and for every record with a small payload; for no other.
pub proof fn padding_is_drawn_when_due(profile: Profile, sequence: u32, payload_len: usize)
    requires
        profile.wf(),
    ensures
        ({
            let due = sequence < profile.pad_count || sequence % profile.pad_interval == 0 || (1
                <= payload_len && payload_len <= profile.small_limit);
            let padding = profile.base_padding(sequence, payload_len);
            &&& !due ==> padding == 0
            &&& due ==> {
                &&& profile.pad_min <= padding <= profile.pad_max
                &&& padding - profile.pad_min == profile.namespaces.prf_spec(
                    34,
                    sequence,
                    payload_len as u32,
                ) as int % (profile.pad_max - profile.pad_min + 1)
            }
        }),
{
    vstd::arithmetic::div_mod::lemma_mod_bound(
        profile.namespaces.prf_spec(34, sequence, payload_len as u32) as int,
        profile.pad_max - profile.pad_min + 1,
    );
}

/// The bytes of a record: the block of the salt, the prefix, a header of 7 bytes
/// and a tag of 16, the padding, and a body with a tag of its own, if it has one.
pub proof fn frames_count_all_parts(payload_len: int, prefix_len: int, block_len: int, padding: int)
    ensures
        Profile::frame_len_spec(0, prefix_len, block_len, padding) == block_len + prefix_len + 7 + 16
            + padding,
        payload_len > 0 ==> Profile::frame_len_spec(payload_len, prefix_len, block_len, padding)
            == block_len + prefix_len + 7 + 16 + padding + payload_len + 16,
{
}

/// Where a record is to be written up to: for one of more than 1459 bytes its
/// own length; else at least its own length, unless that is beyond the largest.
pub proof fn targets_hold_the_frame(profile: Profile, sequence: u32, frame_len: usize)
    requires
        profile.wf(),
    ensures
        1459 < frame_len <= 65535 ==> profile.write_target_spec(sequence, frame_len) == frame_len,
        frame_len > 65535 ==> profile.write_target_spec(sequence, frame_len) == 65535,
        frame_len <= 1459 ==> frame_len <= profile.write_target_spec(sequence, frame_len) <= 65535,
{
    if frame_len <= 1459 {
        let start = profile.write_target_spread(sequence, frame_len);
        spread_is_bounded(profile, sequence, frame_len);
        climbing_reaches(profile, sequence, frame_len as int, start);
    }
}

proof fn spread_is_bounded(profile: Profile, sequence: u32, frame_len: usize)
    requires
        profile.wf(),
        frame_len <= 1459,
    ensures
        0 <= profile.write_target_spread(sequence, frame_len) <= 65535,
{
    let base = profile.write_target_base(sequence, frame_len);
    let at = profile.namespaces.prf_spec(35, sequence, frame_len as u32) as int % 8;
    assert(0 <= at < 8);
    assert(profile.write_buckets[at] >= 0x140);
    if sequence < profile.write_first {
        assert(profile.write_sequence[sequence as int] >= 0x168);
    }
}

proof fn climbing_reaches(profile: Profile, sequence: u32, frame_len: int, target: int)
    requires
        profile.wf(),
        0 <= frame_len <= 1459,
        0 <= target <= 65535,
    ensures
        frame_len <= profile.climbed_target(sequence, frame_len, target) <= 65535,
    decreases 65536 - target,
{
    if frame_len > target {
        let at = profile.namespaces.prf_spec(37, sequence, target as u32) as int % 8;
        assert(0 <= at < 8);
        assert(0x140 <= profile.write_buckets[at] <= 0x05b4);
        let next = profile.raised_target(sequence, target);
        assert(target < next <= 65535);
        if next != 65535 {
            climbing_reaches(profile, sequence, frame_len, next);
        }
    }
}

/// Before it grows, a target is the profile's own for the first writes and one
/// of eight buckets for later ones; the policy of two moves it by a jitter.
pub proof fn targets_start_from_the_profile(profile: Profile, sequence: u32, frame_len: usize)
    requires
        profile.wf(),
    ensures
        ({
            let target = profile.write_target_base(sequence, frame_len);
            let own: int = if sequence < profile.write_first {
                profile.write_sequence[sequence as int] as int
            } else {
                profile.write_buckets[profile.namespaces.prf_spec(35, sequence, frame_len as u32)
                    as int % 8] as int
            };
            let jitter = profile.write_jitter as int;
            &&& profile.write_policy != 2 ==> target == own
            &&& profile.write_policy == 2 ==> own - jitter <= target <= own + jitter && target - (
            own - jitter) == profile.namespaces.prf_spec(36, sequence, 0) as int % (2 * jitter + 1)
        }),
{
    let at = profile.namespaces.prf_spec(35, sequence, frame_len as u32) as int % 8;
    assert(0 <= at < 8);
    assert(profile.write_buckets[at] >= 0x140);
    if sequence < profile.write_first {
        assert(profile.write_sequence[sequence as int] >= 0x168);
    }
    vstd::arithmetic::div_mod::lemma_mod_bound(
        profile.namespaces.prf_spec(36, sequence, 0) as int,
        profile.write_jitter * 2 + 1,
    );
}

/// A target then grows by a share of the frame, or falls by half of it, as the
/// key says; the share is at most 730 bytes.
pub proof fn targets_spread_with_the_frame(profile: Profile, sequence: u32, frame_len: usize)
    requires
        profile.wf(),
        frame_len <= 1459,
    ensures
        ({
            let base = profile.write_target_base(sequence, frame_len);
            let target = profile.write_target_spread(sequence, frame_len);
            let share = frame_len * profile.write_jitter_percent / 100;
            let bit = profile.namespaces.prf_spec(35, sequence, share as u32) & 1;
            &&& 0 <= share <= 730
            &&& bit == 0 ==> target == base + share
            &&& bit != 0 && base >= share ==> target == base - share / 2
        }),
{
    let share = frame_len * profile.write_jitter_percent / 100;
    assert(0 <= frame_len * profile.write_jitter_percent <= 1459 * 0x30) by (nonlinear_arith)
        requires
            0 <= frame_len <= 1459,
            0 <= profile.write_jitter_percent <= 0x30,
    ;
    let spread = share as usize;
    assert(spread >> 1 == spread / 2) by (bit_vector);
    let at = profile.namespaces.prf_spec(35, sequence, frame_len as u32) as int % 8;
    assert(0 <= at < 8);
    assert(profile.write_buckets[at] <= 0x05b4);
    if sequence < profile.write_first {
        assert(profile.write_sequence[sequence as int] <= 0x05b4);
    }
}

/// A target that a frame does not fit goes to a bucket above it, if the key
/// draws one, or else up by the largest padding.
pub proof fn targets_rise(profile: Profile, sequence: u32, target: int)
    requires
        profile.wf(),
        0 <= target <= 1459,
    ensures
        ({
            let drawn = profile.write_buckets[profile.namespaces.prf_spec(
                37,
                sequence,
                target as u32,
            ) as int % 8] as int;
            &&& drawn > target ==> profile.raised_target(sequence, target) == drawn
            &&& drawn <= target ==> profile.raised_target(sequence, target) == target
                + profile.pad_max
        }),
{
}

/// Padding that was drawn is widened so that the record reaches its target, by
/// at most 730 bytes.
pub proof fn padding_reaches_the_target(
    profile: Profile,
    sequence: u32,
    payload_len: usize,
    prefix_len: usize,
    block_len: usize,
)
    requires
        profile.wf(),
        payload_len + prefix_len + block_len + 1000 <= usize::MAX,
    ensures
        ({
            let base = profile.base_padding(sequence, payload_len);
            let frame = Profile::frame_len_spec(
                payload_len as int,
                prefix_len as int,
                block_len as int,
                base,
            );
            let target = profile.write_target_spec(sequence, frame as usize);
            let padding = profile.targeted_padding(sequence, payload_len, prefix_len, block_len);
            &&& base <= padding <= base + 730
            &&& target <= frame ==> padding == base
            &&& frame < target <= frame + 730 ==> frame - base + padding == target
            &&& target > frame + 730 ==> padding == base + 730
        }),
{
    padding_is_drawn_when_due(profile, sequence, payload_len);
}

/// A record that opens a stream carries at least a third of its bytes, and at
/// least 192, as padding of some kind, as far as padding may go; any other
/// record has the padding that its target asks for. No padding is longer than
/// two bytes can say.
pub proof fn openings_are_padded(
    profile: Profile,
    sequence: u32,
    payload_len: usize,
    prefix_len: usize,
    salt_prefix_len: usize,
    block_len: usize,
)
    requires
        profile.wf(),
        payload_len <= 65535,
        prefix_len <= 128,
        salt_prefix_len <= 128,
        block_len <= 144,
    ensures
        ({
            let wanted = profile.targeted_padding(sequence, payload_len, prefix_len, block_len);
            let padding = profile.padding_len_spec(
                sequence,
                payload_len,
                prefix_len,
                salt_prefix_len,
                block_len,
            );
            let carried = payload_len + 23 + 16 + if payload_len > 0 {
                16int
            } else {
                0
            };
            let overhead = salt_prefix_len + prefix_len + padding;
            &&& 0 <= padding <= 65535
            &&& block_len == 0 ==> padding == wanted
            &&& block_len > 0 ==> {
                ||| padding == wanted && overhead >= 192 && 3 * overhead >= carried
                ||| padding > wanted && (overhead == 192 || 3 * (overhead - 1) < carried) && overhead
                    >= 192 && 3 * overhead >= carried
                ||| padding == profile.pad_max + 730
            }
        }),
{
    padding_is_drawn_when_due(profile, sequence, payload_len);
    padding_reaches_the_target(profile, sequence, payload_len, prefix_len, block_len);
}

/// The whole seconds between two moments; a clock that went backwards tells
/// nothing.
pub proof fn seconds_are_counted(earlier: i128, now: i128)
    ensures
        now < earlier <==> seconds_between(earlier, now) is None,
        seconds_between(earlier, now) matches Some(seconds) ==> {
            ||| seconds == u64::MAX
            ||| earlier + seconds * 1_000_000_000 <= now < earlier + (seconds + 1) * 1_000_000_000
        },
{
}

/// Only a shaped stream paces its records: others may fill each up to 65535
/// bytes. The first record of a shaped stream is held below its own cap.
pub proof fn only_shaped_streams_are_paced(pace: Pace, now: i128)
    requires
        pace.mode == Mode::Default ==> pace.profile is Some && pace.profile->0.wf(),
    ensures
        pace.mode != Mode::Default ==> pace.limit(now) == 65535 && pace.asked(now) == pace
            && pace.sent() == pace,
        pace.mode == Mode::Default ==> {
            let profile = pace.profile->0;
            let shaped = profile.payload_limit_spec(pace.sequence, pace.chunk_in_force(now));
            &&& pace.sequence > 0 ==> pace.limit(now) == shaped
            &&& pace.sequence == 0 ==> pace.limit(now) <= profile.first_record_cap
            &&& pace.sequence == 0 && shaped <= profile.first_record_cap ==> pace.limit(now)
                == shaped
            &&& pace.sequence == 0 && shaped > profile.first_record_cap ==> pace.limit(now)
                == profile.first_record_cap
            &&& pace.asked(now).last_write == Some(now)
            &&& pace.asked(now).sequence == pace.sequence
            &&& pace.sequence < 0xffff_ffff ==> pace.sent().sequence == pace.sequence + 1
            &&& pace.sent().chunk_size == pace.chunk_size
            &&& pace.sent().last_write == pace.last_write
        },
{
    if pace.mode == Mode::Default {
        limits_follow_the_policy(pace.profile->0, pace.sequence, pace.chunk_in_force(now));
    }
}

/// A chunk goes on as it is while no pause is longer than the profile's.
pub proof fn chunks_last_without_a_pause(pace: Pace, now: i128)
    requires
        pace.profile is Some,
        pace.profile->0.wf(),
        pace.last_write is Some,
        pace.last_write->0 <= now,
        pace.chunk_size > 0,
        now - pace.last_write->0 < u64::MAX,
    ensures
        now - pace.last_write->0 < (pace.profile->0.idle_reset_secs + 1) * 1_000_000_000
            ==> pace.chunk_in_force(now) == pace.chunk_size,
        now - pace.last_write->0 >= (pace.profile->0.idle_reset_secs + 1) * 1_000_000_000
            ==> pace.chunk_in_force(now) == pace.profile->0.chunk_initial,
{
}

} // verus!
