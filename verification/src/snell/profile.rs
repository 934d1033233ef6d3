//! The traffic shape that a pre-shared key selects.
//!
//! A profile fixes how much padding a record carries, how large records grow,
//! how padding bytes look, and where the handshake salt is hidden. Both ends
//! derive the same profile, so nothing of it is ever sent.

use blake2::digest::{Update, VariableOutput};
use blake2::Blake2bVar;
use vstd::prelude::*;

use crate::num::{max_int, max_usize, min_int, min_usize};
use crate::snell::prf::{
    pick, pick_spec, pick_u32, Namespaces, LABEL_GENERATOR, LABEL_PAD_MIN, LABEL_PAD_MAX,
    LABEL_PAD_COUNT, LABEL_PAD_INTERVAL, LABEL_SMALL_LIMIT, LABEL_BIT_MIN, LABEL_BIT_MAX,
    LABEL_PREFIX_MIN, LABEL_PREFIX_MAX, LABEL_MIX_MODE, LABEL_MIX_ROUNDS, LABEL_MIX_STRIDE,
    LABEL_MIX_OFFSET_BASE, LABEL_MIX_BLOCK, LABEL_CHUNK_POLICY, LABEL_CHUNK_INITIAL,
    LABEL_CHUNK_FIRST_CAP, LABEL_CHUNK_MAX, LABEL_CHUNK_STEP, LABEL_CHUNK_JITTER,
    LABEL_CHUNK_BUCKET, LABEL_IDLE_RESET, LABEL_WRITE_POLICY, LABEL_WRITE_FIRST, LABEL_WRITE_BUCKET,
    LABEL_WRITE_SEQ, LABEL_WRITE_JITTER, LABEL_RECORD_PREFIX,
};

verus! {

pub const MAX_EXTRA_PADDING: usize = 0x02da;
pub const HANDSHAKE_DOMAIN: u32 = 0x7053;
pub const MIX_HANDSHAKE_DOMAIN: u32 = 0x51a7;
pub const CHUNK_INITIAL_DOMAIN: u32 = 0xf17c;
pub const WRITE_PERCENT_DOMAIN: u32 = 0x504c;

pub const PROFILE_SEED: [u8; 24] = [
    0x8d, 0x41, 0xa7, 0x13, 0x5c, 0xe2, 0x09, 0xbb, 0x70, 0x2f, 0xd6, 0x94, 0x33, 0x18, 0xc0, 0x6e,
    0x4a, 0x91, 0x25, 0xfd, 0xb8, 0x03, 0x77, 0xac,
];

pub const BIT_ROTATE_TABLE: [u8; 128] = [
    0x00, 0x00, 0x00, 0x00, 0x00, 0x00, 0x00, 0x00, 0x00, 0x00, 0x00, 0x00, 0x00, 0x00, 0x00, 0x00,
    0x01, 0x02, 0x04, 0x08, 0x10, 0x20, 0x40, 0x80, 0x01, 0x02, 0x04, 0x08, 0x10, 0x20, 0x40, 0x80,
    0x03, 0x05, 0x09, 0x11, 0x21, 0x41, 0x81, 0x06, 0x0a, 0x12, 0x22, 0x42, 0x82, 0x0c, 0x18, 0x24,
    0x07, 0x0b, 0x13, 0x23, 0x43, 0x83, 0x0d, 0x19, 0x31, 0x61, 0xc1, 0x0e, 0x1c, 0x38, 0x70, 0xe0,
    0x0f, 0x17, 0x27, 0x47, 0x87, 0x1b, 0x33, 0x63, 0xc3, 0x1d, 0x39, 0x71, 0xe1, 0x3c, 0x78, 0xf0,
    0xf8, 0xf4, 0xec, 0xdc, 0xbc, 0x7c, 0xf2, 0xe6, 0xce, 0x9e, 0x3e, 0xf1, 0xe3, 0xc7, 0x8f, 0x1f,
    0xfc, 0xfa, 0xf6, 0xee, 0xde, 0xbe, 0x7e, 0xf9, 0xf5, 0xed, 0xdd, 0xbd, 0x7d, 0xf3, 0xe7, 0xdb,
    0xfe, 0xfd, 0xfb, 0xf7, 0xef, 0xdf, 0xbf, 0x7f, 0xfe, 0xfd, 0xfb, 0xf7, 0xef, 0xdf, 0xbf, 0x7f,
];

/// The 32-byte BLAKE2b digest of `input`, without key, salt or personalisation.
pub uninterp spec fn blake2b_256_digest(input: Seq<u8>) -> Seq<u8>;

/// `blake2::Blake2bVar` with a 32-byte output, updated once with `input` and
/// finalised: the result depends on `input` alone and is named, not described.
#[verifier::external_body]
fn blake2b_256(input: &[u8]) -> (digest: [u8; 32])
    ensures
        digest@ == blake2b_256_digest(input@),
{
    let mut output = [0u8; 32];
    let mut hasher = Blake2bVar::new(32).expect("valid digest size");
    hasher.update(input);
    hasher.finalize_variable(&mut output).expect("valid digest output");
    output
}

#[derive(Clone, Copy)]
pub struct Profile {
    pub namespaces: Namespaces,
    pub generator: u32,
    pub pad_min: usize,
    pub pad_max: usize,
    pub pad_count: u32,
    pub pad_interval: u32,
    pub small_limit: usize,
    pub bit_min: u32,
    pub bit_max: u32,
    pub prefix_min: usize,
    pub prefix_max: usize,
    pub mix_mode: u32,
    pub mix_rounds: u32,
    pub mix_stride: usize,
    pub mix_offset: usize,
    pub mix_block: usize,
    pub chunk_policy: u32,
    pub chunk_initial: usize,
    pub first_record_cap: usize,
    pub chunk_max: usize,
    pub chunk_step: usize,
    pub chunk_jitter: usize,
    pub idle_reset_secs: i64,
    pub write_policy: u32,
    pub write_first: u32,
    pub chunk_buckets: [usize; 8],
    pub write_buckets: [usize; 8],
    pub write_sequence: [usize; 8],
    pub write_jitter: usize,
    pub write_jitter_percent: usize,
    pub generator_weights: [usize; 6],
    pub salt_block_len: usize,
    pub handshake_mix_stride: usize,
    pub handshake_mix_rounds: u32,
}

impl Profile {
    /// The ranges within which every derived profile lies.
    pub open spec fn wf(self) -> bool {
        &&& self.generator <= 3
        &&& 0x18 <= self.pad_min <= 0xa0
        &&& self.pad_min <= self.pad_max <= MAX_EXTRA_PADDING
        &&& 0xb8 <= self.pad_max
        &&& 2 <= self.pad_count <= 8
        &&& 2 <= self.pad_interval <= 0x0b
        &&& 0x60 <= self.small_limit <= 0x300
        &&& 0x18 <= self.bit_min <= 0x29
        &&& 0x3a <= self.bit_max <= 0x4c
        &&& 0x08 <= self.prefix_min <= self.prefix_max <= 0x80
        &&& self.mix_mode <= 2
        &&& 1 <= self.mix_rounds <= 3
        &&& 2 <= self.mix_stride <= 13
        &&& self.mix_offset <= 15
        &&& 8 <= self.mix_block <= 0x40
        &&& self.chunk_policy <= 2
        &&& 0x200 <= self.chunk_initial <= 0x05b4
        &&& 0x100 <= self.first_record_cap <= 0x300
        &&& 0x2000 <= self.chunk_max <= 0x3fff
        &&& 0x400 <= self.chunk_step <= 0x0b68
        &&& 0x10 <= self.chunk_jitter <= 0xb6
        &&& 0x0c <= self.idle_reset_secs <= 0x5a
        &&& self.write_policy <= 2
        &&& 4 <= self.write_first <= 8
        &&& forall|i: int|
            0 <= i < 8 ==> 0x1000 <= #[trigger] self.chunk_buckets[i] <= self.chunk_max
        &&& forall|i: int| 0 <= i < 8 ==> 0x140 <= #[trigger] self.write_buckets[i] <= 0x05b4
        &&& forall|i: int| 0 <= i < 8 ==> 0x168 <= #[trigger] self.write_sequence[i] <= 0x05b4
        &&& 0x08 <= self.write_jitter <= 0x60
        &&& 8 <= self.write_jitter_percent <= 0x30
        &&& 0x18 <= self.generator_weights[0] <= 0x80
        &&& 0x10 <= self.generator_weights[1] <= 0x60
        &&& 0x10 <= self.generator_weights[2] <= 0x60
        &&& self.generator_weights[3] <= 9
        &&& 1 <= self.generator_weights[4] <= 8
        &&& 7 <= self.generator_weights[5] <= 0x17
        &&& 0x20 <= self.salt_block_len <= 0x90
        &&& 0x11 <= self.handshake_mix_stride <= 0xfb
        &&& 1 <= self.handshake_mix_rounds <= 4
    }

    /// Every parameter as the secret's namespaces select it.
    pub open spec fn derived_from(self, secret: Seq<u8>) -> bool {
        let ns = self.namespaces;
        let at = |label: u32, domain: u32, low: int, high: int|
            pick_spec(ns.static_prf_spec(label, domain), low, high);
        let hs_min = at(LABEL_PREFIX_MIN, HANDSHAKE_DOMAIN, 0x10, 0x60);
        let hs_max = min_int(hs_min + at(LABEL_PREFIX_MAX, HANDSHAKE_DOMAIN, 0x10, 0xa0), 0x80);
        let prefix_min = at(LABEL_PREFIX_MIN, 0, 0x08, 0x50);
        &&& ns.derived_from(secret)
        &&& self.generator == ns.static_prf_spec(LABEL_GENERATOR, 0) % 4
        &&& self.pad_min == at(LABEL_PAD_MIN, 0, 0x18, 0xa0)
        &&& self.pad_max == min_int(
            self.pad_min + at(LABEL_PAD_MAX, 0, 0xa0, 0x3c0),
            MAX_EXTRA_PADDING as int,
        )
        &&& self.pad_count == at(LABEL_PAD_COUNT, 0, 2, 8)
        &&& self.pad_interval == at(LABEL_PAD_INTERVAL, 0, 2, 0x0b)
        &&& self.small_limit == at(LABEL_SMALL_LIMIT, 0, 0x60, 0x300)
        &&& self.bit_min == at(LABEL_BIT_MIN, 0, 0x18, 0x29)
        &&& self.bit_max == at(LABEL_BIT_MAX, 0, 0x3a, 0x4c)
        &&& self.prefix_max == min_int(prefix_min + at(LABEL_PREFIX_MAX, 0, 0x10, 0xa0), 0x80)
        &&& self.prefix_min == min_int(prefix_min, self.prefix_max as int)
        &&& self.mix_mode == ns.static_prf_spec(LABEL_MIX_MODE, 0) % 3
        &&& self.mix_rounds == at(LABEL_MIX_ROUNDS, 0, 1, 3)
        &&& self.mix_stride == at(LABEL_MIX_STRIDE, 0, 2, 13)
        &&& self.mix_offset == at(LABEL_MIX_OFFSET_BASE, 0, 0, 15)
        &&& self.mix_block == at(LABEL_MIX_BLOCK, 0, 8, 0x40)
        &&& self.chunk_policy == ns.static_prf_spec(LABEL_CHUNK_POLICY, 0) % 3
        &&& self.chunk_initial == at(LABEL_CHUNK_INITIAL, 0, 0x200, 0x05b4)
        &&& self.first_record_cap == max_int(
            0x100,
            min_int(
                at(LABEL_CHUNK_FIRST_CAP, CHUNK_INITIAL_DOMAIN, 0x100, 0x300),
                min_int(self.chunk_initial as int, 0x300),
            ),
        )
        &&& self.chunk_max == max_int(
            at(LABEL_CHUNK_MAX, 0, 0x2000, 0x3fff),
            self.chunk_initial as int,
        )
        &&& self.chunk_step == min_int(at(LABEL_CHUNK_STEP, 0, 0x400, 0x1000), 0x0b68)
        &&& self.chunk_jitter == min_int(at(LABEL_CHUNK_JITTER, 0, 0x10, 0xc0), 0x0b6)
        &&& self.idle_reset_secs == at(LABEL_IDLE_RESET, 0, 0x0c, 0x5a)
        &&& self.write_policy == ns.static_prf_spec(LABEL_WRITE_POLICY, 0) % 3
        &&& self.write_first == at(LABEL_WRITE_FIRST, 0, 4, 8)
        &&& forall|i: int|
            0 <= i < 8 ==> #[trigger] self.chunk_buckets[i] == at(
                LABEL_CHUNK_BUCKET,
                i as u32,
                0x1000,
                self.chunk_max as int,
            )
        &&& forall|i: int|
            0 <= i < 8 ==> #[trigger] self.write_buckets[i] == at(
                LABEL_WRITE_BUCKET,
                i as u32,
                0x140,
                0x05b4,
            )
        &&& forall|i: int|
            0 <= i < 8 ==> #[trigger] self.write_sequence[i] == at(
                LABEL_WRITE_SEQ,
                i as u32,
                0x168,
                0x05b4,
            )
        &&& self.write_jitter == at(LABEL_WRITE_JITTER, 0, 0x08, 0x60)
        &&& self.write_jitter_percent == at(LABEL_WRITE_POLICY, WRITE_PERCENT_DOMAIN, 8, 0x30)
        &&& self.generator_weights[0] == at(LABEL_GENERATOR, 1, 0x18, 0x80)
        &&& self.generator_weights[1] == at(LABEL_GENERATOR, 2, 0x10, 0x60)
        &&& self.generator_weights[2] == at(LABEL_GENERATOR, 3, 0x10, 0x60)
        &&& self.generator_weights[3] == at(LABEL_GENERATOR, 4, 0, 9)
        &&& self.generator_weights[4] == at(LABEL_GENERATOR, 5, 1, 8)
        &&& self.generator_weights[5] == at(LABEL_GENERATOR, 6, 7, 0x17)
        &&& self.salt_block_len == 16 + at(
            LABEL_RECORD_PREFIX,
            HANDSHAKE_DOMAIN,
            min_int(hs_min, hs_max),
            hs_max,
        )
        &&& self.handshake_mix_stride == at(LABEL_MIX_STRIDE, MIX_HANDSHAKE_DOMAIN, 0x11, 0xfb)
        &&& self.handshake_mix_rounds == at(LABEL_MIX_ROUNDS, MIX_HANDSHAKE_DOMAIN, 1, 4)
    }

    /// The profile of a pre-shared key.
    pub fn new(psk: &[u8]) -> (profile: Self)
        ensures
            profile.wf(),
            profile.derived_from(blake2b_256_digest(PROFILE_SEED@ + psk@)),
    {
        let mut input: Vec<u8> = Vec::new();
        input.extend_from_slice(&PROFILE_SEED);
        input.extend_from_slice(psk);
        assert(input@ =~= PROFILE_SEED@ + psk@);
        let secret = blake2b_256(input.as_slice());
        Self::from_secret(&secret)
    }

    /// The profile of a 32-byte secret.
    pub fn from_secret(secret: &[u8; 32]) -> (profile: Self)
        ensures
            profile.wf(),
            profile.derived_from(secret@),
    {
        let ns = Namespaces::new(secret);

        let pad_min: usize = pick(ns.static_prf(LABEL_PAD_MIN, 0), 0x18, 0xa0);
        let pad_max: usize = min_usize(
            pad_min + pick(ns.static_prf(LABEL_PAD_MAX, 0), 0xa0, 0x3c0),
            MAX_EXTRA_PADDING,
        );
        let hs_min: usize = pick(ns.static_prf(LABEL_PREFIX_MIN, HANDSHAKE_DOMAIN), 0x10, 0x60);
        let hs_max: usize = min_usize(
            hs_min + pick(ns.static_prf(LABEL_PREFIX_MAX, HANDSHAKE_DOMAIN), 0x10, 0xa0),
            0x80,
        );
        let salt_block_len: usize = 16 + pick(
            ns.static_prf(LABEL_RECORD_PREFIX, HANDSHAKE_DOMAIN),
            min_usize(hs_min, hs_max),
            hs_max,
        );
        let prefix_min: usize = pick(ns.static_prf(LABEL_PREFIX_MIN, 0), 0x08, 0x50);
        let prefix_max: usize = min_usize(
            prefix_min + pick(ns.static_prf(LABEL_PREFIX_MAX, 0), 0x10, 0xa0),
            0x80,
        );
        let chunk_initial: usize = pick(ns.static_prf(LABEL_CHUNK_INITIAL, 0), 0x200, 0x05b4);
        let first_record_cap: usize = max_usize(
            0x100,
            min_usize(
                pick(ns.static_prf(LABEL_CHUNK_FIRST_CAP, CHUNK_INITIAL_DOMAIN), 0x100, 0x300),
                min_usize(chunk_initial, 0x300),
            ),
        );
        let chunk_max: usize = max_usize(
            pick(ns.static_prf(LABEL_CHUNK_MAX, 0), 0x2000, 0x3fff),
            chunk_initial,
        );

        let mut chunk_buckets: [usize; 8] = [0; 8];
        let mut write_buckets: [usize; 8] = [0; 8];
        let mut write_sequence: [usize; 8] = [0; 8];
        let mut index: usize = 0;
        while index < 8
            invariant
                index <= 8,
                0x2000 <= chunk_max <= 0x3fff,
                forall|i: int|
                    0 <= i < index ==> {
                        &&& #[trigger] chunk_buckets[i] == pick_spec(
                            ns.static_prf_spec(LABEL_CHUNK_BUCKET, i as u32),
                            0x1000,
                            chunk_max as int,
                        )
                        &&& 0x1000 <= chunk_buckets[i] <= chunk_max
                    },
                forall|i: int|
                    0 <= i < index ==> {
                        &&& #[trigger] write_buckets[i] == pick_spec(
                            ns.static_prf_spec(LABEL_WRITE_BUCKET, i as u32),
                            0x140,
                            0x05b4,
                        )
                        &&& 0x140 <= write_buckets[i] <= 0x05b4
                    },
                forall|i: int|
                    0 <= i < index ==> {
                        &&& #[trigger] write_sequence[i] == pick_spec(
                            ns.static_prf_spec(LABEL_WRITE_SEQ, i as u32),
                            0x168,
                            0x05b4,
                        )
                        &&& 0x168 <= write_sequence[i] <= 0x05b4
                    },
            decreases 8 - index,
        {
            let domain: u32 = index as u32;
            chunk_buckets[index] = pick(
                ns.static_prf(LABEL_CHUNK_BUCKET, domain),
                0x1000,
                chunk_max,
            );
            write_buckets[index] = pick(ns.static_prf(LABEL_WRITE_BUCKET, domain), 0x140, 0x05b4);
            write_sequence[index] = pick(ns.static_prf(LABEL_WRITE_SEQ, domain), 0x168, 0x05b4);
            index += 1;
        }

        Self {
            namespaces: ns,
            generator: ns.static_prf(LABEL_GENERATOR, 0) % 4,
            pad_min,
            pad_max,
            pad_count: pick_u32(ns.static_prf(LABEL_PAD_COUNT, 0), 2, 8),
            pad_interval: pick_u32(ns.static_prf(LABEL_PAD_INTERVAL, 0), 2, 0x0b),
            small_limit: pick(ns.static_prf(LABEL_SMALL_LIMIT, 0), 0x60, 0x300),
            bit_min: pick_u32(ns.static_prf(LABEL_BIT_MIN, 0), 0x18, 0x29),
            bit_max: pick_u32(ns.static_prf(LABEL_BIT_MAX, 0), 0x3a, 0x4c),
            prefix_min: min_usize(prefix_min, prefix_max),
            prefix_max,
            mix_mode: ns.static_prf(LABEL_MIX_MODE, 0) % 3,
            mix_rounds: pick_u32(ns.static_prf(LABEL_MIX_ROUNDS, 0), 1, 3),
            mix_stride: pick(ns.static_prf(LABEL_MIX_STRIDE, 0), 2, 13),
            mix_offset: pick(ns.static_prf(LABEL_MIX_OFFSET_BASE, 0), 0, 15),
            mix_block: pick(ns.static_prf(LABEL_MIX_BLOCK, 0), 8, 0x40),
            chunk_policy: ns.static_prf(LABEL_CHUNK_POLICY, 0) % 3,
            chunk_initial,
            first_record_cap,
            chunk_max,
            chunk_step: min_usize(pick(ns.static_prf(LABEL_CHUNK_STEP, 0), 0x400, 0x1000), 0x0b68),
            chunk_jitter: min_usize(pick(ns.static_prf(LABEL_CHUNK_JITTER, 0), 0x10, 0xc0), 0x0b6),
            idle_reset_secs: pick(ns.static_prf(LABEL_IDLE_RESET, 0), 0x0c, 0x5a) as i64,
            write_policy: ns.static_prf(LABEL_WRITE_POLICY, 0) % 3,
            write_first: pick_u32(ns.static_prf(LABEL_WRITE_FIRST, 0), 4, 8),
            chunk_buckets,
            write_buckets,
            write_sequence,
            write_jitter: pick(ns.static_prf(LABEL_WRITE_JITTER, 0), 0x08, 0x60),
            write_jitter_percent: pick(
                ns.static_prf(LABEL_WRITE_POLICY, WRITE_PERCENT_DOMAIN),
                8,
                0x30,
            ),
            generator_weights: [
                pick(ns.static_prf(LABEL_GENERATOR, 1), 0x18, 0x80),
                pick(ns.static_prf(LABEL_GENERATOR, 2), 0x10, 0x60),
                pick(ns.static_prf(LABEL_GENERATOR, 3), 0x10, 0x60),
                pick(ns.static_prf(LABEL_GENERATOR, 4), 0, 9),
                pick(ns.static_prf(LABEL_GENERATOR, 5), 1, 8),
                pick(ns.static_prf(LABEL_GENERATOR, 6), 7, 0x17),
            ],
            salt_block_len,
            handshake_mix_stride: pick(
                ns.static_prf(LABEL_MIX_STRIDE, MIX_HANDSHAKE_DOMAIN),
                0x11,
                0xfb,
            ),
            handshake_mix_rounds: pick_u32(
                ns.static_prf(LABEL_MIX_ROUNDS, MIX_HANDSHAKE_DOMAIN),
                1,
                4,
            ),
        }
    }
}

} // verus!
