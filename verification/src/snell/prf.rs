//! Keyed pseudo-random values from which a shaping profile is drawn.
//!
//! Every value is a pure function of a 64-bit namespace, a label and up to two
//! numbers, so that both ends of a connection compute the same shape.

use vstd::prelude::*;

verus! {

pub const GOLDEN_GAMMA: u64 = 0x9e37_79b9_7f4a_7c15;
pub const DOMAIN_MUL: u64 = 0xd6e8_feb8_6659_fd93;
pub const NAMESPACE_ADD: u64 = 0xa076_1d64_78bd_642f;
pub const COEF_A: u64 = 0xe703_7ed1_a0b4_28db;
pub const ADD_A: u64 = 0x8f39_07f7_b2b8_0c35;
pub const COEF_B: u64 = 0x5899_65cc_7537_4cc3;
pub const ADD_B: u64 = 0x33a2_13ec_50ff_e2e9;

pub const NS_PROFILE: u64 = 0xb46c_2e7d_9a15_38f1;
pub const NS_PREFIX: u64 = 0x5d92_17c0_83e6_4ab9;
pub const NS_MOTIF: u64 = 0xa71f_0c54_d839_6e2b;
pub const NS_SALT: u64 = 0x3e8a_91b5_2740_f6cd;
pub const NS_MIX: u64 = 0xc9f4_260b_7d1e_835a;
pub const NS_CHUNK: u64 = 0x62d0_b5e1_9c4a_783f;
pub const NS_WRITE: u64 = 0x917b_3c48_e6a2_05d4;

pub const LABEL_PADDING: u32 = 0;
pub const LABEL_BIT_PERCENT: u32 = 1;
pub const LABEL_MOTIF: u32 = 2;
pub const LABEL_MIX_OFFSET: u32 = 3;
pub const LABEL_SALT: u32 = 3;
pub const LABEL_PROFILE_ID: u32 = 5;
pub const LABEL_GENERATOR: u32 = 6;
pub const LABEL_PAD_MIN: u32 = 7;
pub const LABEL_PAD_MAX: u32 = 8;
pub const LABEL_PAD_COUNT: u32 = 9;
pub const LABEL_PAD_INTERVAL: u32 = 10;
pub const LABEL_SMALL_LIMIT: u32 = 11;
pub const LABEL_BIT_MIN: u32 = 12;
pub const LABEL_BIT_MAX: u32 = 13;
pub const LABEL_PREFIX_MIN: u32 = 14;
pub const LABEL_PREFIX_MAX: u32 = 15;
pub const LABEL_MIX_MODE: u32 = 16;
pub const LABEL_MIX_ROUNDS: u32 = 17;
pub const LABEL_MIX_STRIDE: u32 = 18;
pub const LABEL_MIX_OFFSET_BASE: u32 = 19;
pub const LABEL_MIX_BLOCK: u32 = 20;
pub const LABEL_CHUNK_POLICY: u32 = 21;
pub const LABEL_CHUNK_INITIAL: u32 = 22;
pub const LABEL_CHUNK_FIRST_CAP: u32 = 22;
pub const LABEL_CHUNK_MAX: u32 = 23;
pub const LABEL_CHUNK_STEP: u32 = 24;
pub const LABEL_CHUNK_JITTER: u32 = 25;
pub const LABEL_CHUNK_BUCKET: u32 = 26;
pub const LABEL_IDLE_RESET: u32 = 27;
pub const LABEL_WRITE_POLICY: u32 = 28;
pub const LABEL_WRITE_FIRST: u32 = 29;
pub const LABEL_WRITE_BUCKET: u32 = 30;
pub const LABEL_WRITE_SEQ: u32 = 31;
pub const LABEL_WRITE_JITTER: u32 = 32;
pub const LABEL_RECORD_PREFIX: u32 = 33;
pub const LABEL_PAYLOAD_PAD: u32 = 34;
pub const LABEL_WRITE_TARGET: u32 = 35;
pub const LABEL_WRITE_JITTER_VALUE: u32 = 36;
pub const LABEL_WRITE_NEXT: u32 = 37;
pub const LABEL_CHUNK_SIZE: u32 = 38;
pub const LABEL_CHUNK_JITTER_VALUE: u32 = 39;

/// The finaliser of the splitmix64 generator.
pub open spec fn splitmix64_spec(value: u64) -> u64 {
    let a = (value ^ (value >> 30)).wrapping_mul(0xbf58_476d_1ce4_e5b9);
    let b = (a ^ (a >> 27)).wrapping_mul(0x94d0_49bb_1331_11eb);
    b ^ (b >> 31)
}

pub fn splitmix64(value: u64) -> (mixed: u64)
    ensures
        mixed == splitmix64_spec(value),
{
    let a: u64 = (value ^ (value >> 30)).wrapping_mul(0xbf58_476d_1ce4_e5b9);
    let b: u64 = (a ^ (a >> 27)).wrapping_mul(0x94d0_49bb_1331_11eb);
    b ^ (b >> 31)
}

/// The two halves of a mixed word folded into 32 bits.
pub open spec fn fold32_spec(mixed: u64) -> u32 {
    (mixed ^ (mixed >> 32)) as u32
}

pub open spec fn prf32_spec(namespace: u64, label: u32, a: u64, b: u64) -> u32 {
    fold32_spec(
        splitmix64_spec(
            namespace ^ b.wrapping_mul(COEF_B).wrapping_add(ADD_B) ^ (label as u64).wrapping_mul(
                GOLDEN_GAMMA,
            ) ^ a.wrapping_mul(COEF_A).wrapping_add(ADD_A),
        ),
    )
}

pub fn prf32(namespace: u64, label: u32, a: u64, b: u64) -> (value: u32)
    ensures
        value == prf32_spec(namespace, label, a, b),
{
    let input: u64 = namespace ^ b.wrapping_mul(COEF_B).wrapping_add(ADD_B) ^ (
    label as u64).wrapping_mul(GOLDEN_GAMMA) ^ a.wrapping_mul(COEF_A).wrapping_add(ADD_A);
    let mixed: u64 = splitmix64(input);
    (mixed ^ (mixed >> 32)) as u32
}

/// A value drawn from `low ..= high` by a raw 32-bit number.
pub open spec fn pick_spec(raw: u32, low: int, high: int) -> int {
    low + (raw as int) % (high - low + 1)
}

pub fn pick(raw: u32, low: usize, high: usize) -> (value: usize)
    requires
        low <= high,
        high - low < usize::MAX,
    ensures
        value == pick_spec(raw, low as int, high as int),
        low <= value <= high,
{
    low + raw as usize % (high - low + 1)
}

pub fn pick_u32(raw: u32, low: u32, high: u32) -> (value: u32)
    requires
        low <= high,
        high - low < u32::MAX,
    ensures
        value == pick_spec(raw, low as int, high as int),
        low <= value <= high,
{
    low + raw % (high - low + 1)
}

/// The little-endian 64-bit word that starts at `offset`.
pub open spec fn le_word(bytes: Seq<u8>, offset: int) -> u64 {
    (bytes[offset] as u64) | (bytes[offset + 1] as u64) << 8 | (bytes[offset + 2] as u64) << 16 | (
    bytes[offset + 3] as u64) << 24 | (bytes[offset + 4] as u64) << 32 | (bytes[offset
        + 5] as u64) << 40 | (bytes[offset + 6] as u64) << 48 | (bytes[offset + 7] as u64) << 56
}

fn read_le_word(bytes: &[u8; 32], offset: usize) -> (word: u64)
    requires
        offset + 8 <= 32,
    ensures
        word == le_word(bytes@, offset as int),
{
    (bytes[offset] as u64) | (bytes[offset + 1] as u64) << 8 | (bytes[offset + 2] as u64) << 16 | (
    bytes[offset + 3] as u64) << 24 | (bytes[offset + 4] as u64) << 32 | (bytes[offset
        + 5] as u64) << 40 | (bytes[offset + 6] as u64) << 48 | (bytes[offset + 7] as u64) << 56
}

/// The namespace that a 32-byte secret yields for a label and a domain seed.
pub open spec fn namespace_spec(secret: Seq<u8>, label: u32, seed: u64) -> u64 {
    let w2 = le_word(secret, 16);
    let w3 = le_word(secret, 24);
    splitmix64_spec(
        (label as u64).wrapping_mul(DOMAIN_MUL) ^ seed.wrapping_add(NAMESPACE_ADD) ^ le_word(
            secret,
            0,
        ) ^ le_word(secret, 8).wrapping_add(GOLDEN_GAMMA) ^ (w2 << 17 | w2 >> 47) ^ (w3 >> 11 | w3
            << 53),
    )
}

pub fn derive_namespace(secret: &[u8; 32], label: u32, seed: u64) -> (namespace: u64)
    ensures
        namespace == namespace_spec(secret@, label, seed),
{
    let w0: u64 = read_le_word(secret, 0);
    let w1: u64 = read_le_word(secret, 8);
    let w2: u64 = read_le_word(secret, 16);
    let w3: u64 = read_le_word(secret, 24);
    splitmix64(
        (label as u64).wrapping_mul(DOMAIN_MUL) ^ seed.wrapping_add(NAMESPACE_ADD) ^ w0
            ^ w1.wrapping_add(GOLDEN_GAMMA) ^ (w2 << 17 | w2 >> 47) ^ (w3 >> 11 | w3 << 53),
    )
}


/// One namespace per purpose, all drawn from one secret.
#[derive(Clone, Copy)]
pub struct Namespaces {
    pub profile: u64,
    pub prefix: u64,
    pub motif: u64,
    pub salt: u64,
    pub mix: u64,
    pub chunk: u64,
    pub write: u64,
}

/// The first generator state of a byte stream of `len` bytes.
pub open spec fn fill_seed(namespace: u64, label: u32, sequence: u32, len: u64) -> u64 {
    namespace ^ (sequence as u64).wrapping_mul(DOMAIN_MUL).wrapping_add(0xb57d_e1f3_f82c_b33f) ^ (
    label as u64).wrapping_mul(0xa24b_aed4_963e_e407) ^ len.wrapping_mul(
        0x1656_67b1_9e37_79f9,
    ).wrapping_add(0x0d4c_d3e7_b14a_36d7)
}

/// The generator state after `steps` steps from `seed`.
pub open spec fn stepped(seed: u64, steps: nat) -> u64
    decreases steps,
{
    if steps == 0 {
        seed
    } else {
        stepped(seed, (steps - 1) as nat).wrapping_add(GOLDEN_GAMMA)
    }
}

/// Byte `index` of the stream that starts at `seed`: each step of the generator
/// gives eight bytes, lowest first.
pub open spec fn stream_byte(seed: u64, index: int) -> u8 {
    (splitmix64_spec(stepped(seed, (index / 8 + 1) as nat)) >> (8 * (index % 8)) as u64) as u8
}

impl Namespaces {
    /// The namespaces that `secret` yields.
    pub open spec fn derived_from(self, secret: Seq<u8>) -> bool {
        &&& self.profile == namespace_spec(secret, LABEL_PROFILE_ID, NS_PROFILE)
        &&& self.prefix == namespace_spec(secret, LABEL_PADDING, NS_PREFIX)
        &&& self.motif == namespace_spec(secret, LABEL_MOTIF, NS_MOTIF)
        &&& self.salt == namespace_spec(secret, LABEL_SALT, NS_SALT)
        &&& self.mix == namespace_spec(secret, LABEL_MIX_MODE, NS_MIX)
        &&& self.chunk == namespace_spec(secret, LABEL_CHUNK_POLICY, NS_CHUNK)
        &&& self.write == namespace_spec(secret, LABEL_WRITE_POLICY, NS_WRITE)
    }

    pub fn new(secret: &[u8; 32]) -> (namespaces: Self)
        ensures
            namespaces.derived_from(secret@),
    {
        Self {
            profile: derive_namespace(secret, LABEL_PROFILE_ID, NS_PROFILE),
            prefix: derive_namespace(secret, LABEL_PADDING, NS_PREFIX),
            motif: derive_namespace(secret, LABEL_MOTIF, NS_MOTIF),
            salt: derive_namespace(secret, LABEL_SALT, NS_SALT),
            mix: derive_namespace(secret, LABEL_MIX_MODE, NS_MIX),
            chunk: derive_namespace(secret, LABEL_CHUNK_POLICY, NS_CHUNK),
            write: derive_namespace(secret, LABEL_WRITE_POLICY, NS_WRITE),
        }
    }

    /// The namespace that a label belongs to.
    pub open spec fn namespace_of(self, label: u32) -> u64 {
        if label == LABEL_PADDING || label == LABEL_BIT_PERCENT || label == LABEL_PREFIX_MIN
            || label == LABEL_PREFIX_MAX || label == LABEL_RECORD_PREFIX || label
            == LABEL_PAYLOAD_PAD {
            self.prefix
        } else if label == LABEL_MOTIF {
            self.motif
        } else if label == LABEL_MIX_OFFSET || LABEL_MIX_MODE <= label <= LABEL_MIX_BLOCK {
            self.mix
        } else if LABEL_CHUNK_POLICY <= label <= LABEL_CHUNK_BUCKET || label == LABEL_CHUNK_SIZE
            || label == LABEL_CHUNK_JITTER_VALUE {
            self.chunk
        } else if LABEL_WRITE_POLICY <= label <= LABEL_WRITE_JITTER || LABEL_WRITE_TARGET <= label
            <= LABEL_WRITE_NEXT {
            self.write
        } else {
            self.profile
        }
    }

    pub fn namespace(self, label: u32) -> (namespace: u64)
        ensures
            namespace == self.namespace_of(label),
    {
        match label {
            LABEL_PADDING
            | LABEL_BIT_PERCENT
            | LABEL_PREFIX_MIN
            | LABEL_PREFIX_MAX
            | LABEL_RECORD_PREFIX
            | LABEL_PAYLOAD_PAD => self.prefix,
            LABEL_MOTIF => self.motif,
            LABEL_MIX_OFFSET
            | LABEL_MIX_MODE
            | LABEL_MIX_ROUNDS
            | LABEL_MIX_STRIDE
            | LABEL_MIX_OFFSET_BASE
            | LABEL_MIX_BLOCK => self.mix,
            LABEL_CHUNK_POLICY
            | LABEL_CHUNK_INITIAL
            | LABEL_CHUNK_MAX
            | LABEL_CHUNK_STEP
            | LABEL_CHUNK_JITTER
            | LABEL_CHUNK_BUCKET
            | LABEL_CHUNK_SIZE
            | LABEL_CHUNK_JITTER_VALUE => self.chunk,
            LABEL_WRITE_POLICY
            | LABEL_WRITE_FIRST
            | LABEL_WRITE_BUCKET
            | LABEL_WRITE_SEQ
            | LABEL_WRITE_JITTER
            | LABEL_WRITE_TARGET
            | LABEL_WRITE_JITTER_VALUE
            | LABEL_WRITE_NEXT => self.write,
            _ => self.profile,
        }
    }

    #[verifier::opaque]
    pub open spec fn prf_spec(self, label: u32, a: u32, b: u32) -> u32 {
        prf32_spec(self.namespace_of(label), label, a as u64, b as u64)
    }

    pub fn prf(self, label: u32, a: u32, b: u32) -> (value: u32)
        ensures
            value == self.prf_spec(label, a, b),
    {
        proof {
            reveal(Namespaces::prf_spec);
        }
        prf32(self.namespace(label), label, a as u64, b as u64)
    }

    #[verifier::opaque]
    pub open spec fn static_prf_spec(self, label: u32, domain: u32) -> u32 {
        self.prf_spec(label, 0, domain)
    }

    pub fn static_prf(self, label: u32, domain: u32) -> (value: u32)
        ensures
            value == self.static_prf_spec(label, domain),
    {
        proof {
            reveal(Namespaces::static_prf_spec);
            reveal(Namespaces::prf_spec);
        }
        prf32(self.namespace(label), label, 0, domain as u64)
    }

    /// Byte `index` of a filled buffer of `len` bytes.
    #[verifier::opaque]
    pub open spec fn fill_byte(self, label: u32, sequence: u32, len: nat, index: int) -> u8 {
        stream_byte(fill_seed(self.namespace_of(label), label, sequence, len as u64), index)
    }

    /// Overwrites `output` with the stream of `label` and `sequence`.
    pub fn fill(self, label: u32, sequence: u32, output: &mut [u8])
        ensures
            final(output)@.len() == old(output)@.len(),
            forall|i: int|
                0 <= i < final(output)@.len() ==> #[trigger] final(output)@[i] == self.fill_byte(
                    label,
                    sequence,
                    old(output)@.len(),
                    i,
                ),
    {
        proof {
            reveal(Namespaces::fill_byte);
        }
        let len: usize = output.len();
        let ghost seed0 = fill_seed(self.namespace_of(label), label, sequence, len as u64);
        let mut seed: u64 = self.namespace(label) ^ (sequence as u64).wrapping_mul(
            DOMAIN_MUL,
        ).wrapping_add(0xb57d_e1f3_f82c_b33f) ^ (label as u64).wrapping_mul(0xa24b_aed4_963e_e407)
            ^ (len as u64).wrapping_mul(0x1656_67b1_9e37_79f9).wrapping_add(0x0d4c_d3e7_b14a_36d7);
        let mut block: u64 = 0;
        let mut offset: usize = 0;
        while offset < len
            invariant
                offset <= len,
                len == output@.len(),
                len == old(output)@.len(),
                seed == stepped(seed0, ((offset + 7) / 8) as nat),
                offset % 8 != 0 ==> block == splitmix64_spec(seed),
                forall|i: int| 0 <= i < offset ==> #[trigger] output@[i] == stream_byte(seed0, i),
            decreases len - offset,
        {
            if offset % 8 == 0 {
                seed = seed.wrapping_add(GOLDEN_GAMMA);
                block = splitmix64(seed);
            }
            output[offset] = (block >> (8 * (offset % 8)) as u64) as u8;
            offset += 1;
        }
    }
}

} // verus!
