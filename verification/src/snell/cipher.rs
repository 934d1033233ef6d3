//! Keys, nonces and the authenticated cipher of a record stream.

use aes_gcm::aead::{Aead, KeyInit, Payload};
use aes_gcm::{Aes128Gcm, Nonce};
use argon2::{Algorithm, Argon2, Params, Version};
use vstd::prelude::*;

use crate::snell::error::SnellError;

verus! {

/// The longest password that Argon2 takes.
pub const PASSWORD_MAX: u64 = 0xffff_ffff;

/// The most memory that a hash is given here, in KiB.
pub const MEMORY_MAX: u32 = 0x1_0000;

/// The longest message and the longest associated data that AES-GCM takes.
pub const MESSAGE_MAX: u64 = 0x10_0000_0000;

#[verifier::external_type_specification]
#[verifier::external_body]
pub struct ExArgon2Error(argon2::Error);

/// The 32-byte Argon2id (version 0x13) hash of a password under a salt, with
/// the given memory, time and parallelism costs.
pub uninterp spec fn argon2id_hash(
    m_cost: u32,
    t_cost: u32,
    p_cost: u32,
    password: Seq<u8>,
    salt: Seq<u8>,
) -> Seq<u8>;

/// `Argon2::hash_password_into` with Argon2id, version 0x13 and a 32-byte
/// output. With costs that `Params::new` accepts and a salt of 16 bytes it
/// fails on one input alone: a password above the length limit. The hash
/// itself is named, not described.
#[verifier::external_body]
fn argon2id(m_cost: u32, t_cost: u32, p_cost: u32, password: &[u8], salt: &[u8; 16]) -> (hash:
    Result<[u8; 32], argon2::Error>)
    requires
        8 <= m_cost <= MEMORY_MAX,
        8 * p_cost <= m_cost,
        1 <= t_cost,
        1 <= p_cost <= 0xff_ffff,
    ensures
        hash is Ok <==> password@.len() <= PASSWORD_MAX,
        hash matches Ok(bytes) ==> bytes@ == argon2id_hash(
            m_cost,
            t_cost,
            p_cost,
            password@,
            salt@,
        ),
{
    let params = Params::new(m_cost, t_cost, p_cost, Some(32))?;
    let mut output = [0u8; 32];
    Argon2::new(Algorithm::Argon2id, Version::V0x13, params).hash_password_into(
        password,
        salt,
        &mut output,
    )?;
    Ok(output)
}

/// Ciphertext and tag that AES-128-GCM makes of a message.
pub uninterp spec fn aes128gcm_seal(
    key: Seq<u8>,
    nonce: Seq<u8>,
    aad: Seq<u8>,
    message: Seq<u8>,
) -> Seq<u8>;

/// The message that AES-128-GCM recovers, if the tag fits.
pub uninterp spec fn aes128gcm_open(
    key: Seq<u8>,
    nonce: Seq<u8>,
    aad: Seq<u8>,
    sealed: Seq<u8>,
) -> Option<Seq<u8>>;

/// `Aead::encrypt` of `aes_gcm::Aes128Gcm`: within the length limits it
/// succeeds, appends a 16-byte tag, and what it returns decrypts to the
/// message again under the same key, nonce and associated data.
#[verifier::external_body]
fn aes128gcm_encrypt(key: &[u8; 16], nonce: &[u8; 12], aad: &[u8], message: &[u8]) -> (sealed:
    Vec<u8>)
    requires
        message@.len() <= MESSAGE_MAX,
        aad@.len() <= MESSAGE_MAX,
    ensures
        sealed@ == aes128gcm_seal(key@, nonce@, aad@, message@),
        sealed@.len() == message@.len() + 16,
        aes128gcm_open(key@, nonce@, aad@, sealed@) == Some(message@),
{
    Aes128Gcm::new(key.into())
        .encrypt(Nonce::from_slice(nonce), Payload { msg: message, aad })
        .expect("message within the cipher's limits")
}

/// `Aead::decrypt` of `aes_gcm::Aes128Gcm`: the message without its 16-byte
/// tag, or nothing where the tag does not fit.
#[verifier::external_body]
fn aes128gcm_decrypt(key: &[u8; 16], nonce: &[u8; 12], aad: &[u8], sealed: &[u8]) -> (message:
    Option<Vec<u8>>)
    ensures
        message is Some <==> aes128gcm_open(key@, nonce@, aad@, sealed@) is Some,
        message matches Some(bytes) ==> aes128gcm_open(key@, nonce@, aad@, sealed@) == Some(
            bytes@,
        ) && bytes@.len() + 16 == sealed@.len(),
{
    Aes128Gcm::new(key.into()).decrypt(Nonce::from_slice(nonce), Payload { msg: sealed, aad }).ok()
}

/// The cipher key of a stream that opens with `salt`: the first half of the
/// Argon2id hash.
pub open spec fn stream_key(psk: Seq<u8>, salt: Seq<u8>) -> Option<Seq<u8>> {
    if psk.len() <= PASSWORD_MAX {
        Some(argon2id_hash(8, 3, 1, psk, salt).take(16))
    } else {
        None
    }
}

pub fn make_cipher(psk: &[u8], salt: &[u8; 16]) -> (key: Result<[u8; 16], SnellError>)
    ensures
        match key {
            Ok(bytes) => stream_key(psk@, salt@) == Some(bytes@),
            Err(error) => stream_key(psk@, salt@) is None && error == SnellError::KeyDerivation,
        },
        key is Ok <==> psk@.len() <= 0xffff_ffff,
        key matches Ok(bytes) ==> bytes@.len() == 16 && forall|i: int|
            0 <= i < 16 ==> #[trigger] bytes@[i] == argon2id_hash(8, 3, 1, psk@, salt@)[i],
{
    match argon2id(8, 3, 1, psk, salt) {
        Ok(hash) => {
            let mut key: [u8; 16] = [0; 16];
            let mut i: usize = 0;
            while i < 16
                invariant
                    i <= 16,
                    forall|j: int| 0 <= j < i ==> #[trigger] key@[j] == hash@[j],
                decreases 16 - i,
            {
                key[i] = hash[i];
                i += 1;
            }
            assert(key@ =~= hash@.take(16));
            Ok(key)
        },
        Err(_) => Err(SnellError::KeyDerivation),
    }
}

/// The nonce after `nonce`: a little-endian counter, one higher.
pub open spec fn next_nonce(nonce: Seq<u8>) -> Seq<u8> {
    Seq::new(
        nonce.len(),
        |i: int|
            if forall|j: int| 0 <= j < i ==> #[trigger] nonce[j] == 255 {
                nonce[i].wrapping_add(1)
            } else {
                nonce[i]
            },
    )
}

/// The number that a little-endian byte string stands for.
pub open spec fn le_value(bytes: Seq<u8>) -> nat
    decreases bytes.len(),
{
    if bytes.len() == 0 {
        0
    } else {
        bytes[0] as nat + 256 * le_value(bytes.drop_first())
    }
}

pub open spec fn pow256(exponent: nat) -> nat
    decreases exponent,
{
    if exponent == 0 {
        1
    } else {
        256 * pow256((exponent - 1) as nat)
    }
}

/// Every nonce is the previous one plus one, and the counter returns to zero
/// only after all values of its length.
pub proof fn nonce_counts_up(nonce: Seq<u8>)
    ensures
        le_value(nonce) < pow256(nonce.len()),
        le_value(next_nonce(nonce)) == if le_value(nonce) + 1 == pow256(nonce.len()) {
            0
        } else {
            le_value(nonce) + 1
        },
    decreases nonce.len(),
{
    if nonce.len() > 0 {
        let tail = nonce.drop_first();
        let next = next_nonce(nonce);
        nonce_counts_up(tail);
        if nonce[0] == 255 {
            assert(next.drop_first() =~= next_nonce(tail)) by {
                assert forall|i: int| 0 <= i < tail.len() implies next[i + 1] == next_nonce(
                    tail,
                )[i] by {
                    if forall|j: int| 0 <= j < i ==> #[trigger] tail[j] == 255 {
                        assert forall|j: int| 0 <= j < i + 1 implies #[trigger] nonce[j] == 255 by {
                            if j > 0 {
                                assert(tail[j - 1] == 255);
                            }
                        }
                    } else {
                        let j = choose|j: int| 0 <= j < i && #[trigger] tail[j] != 255;
                        assert(nonce[j + 1] != 255);
                    }
                }
            }
        } else {
            assert(next.drop_first() =~= tail);
        }
    }
}

pub fn increase_nonce(nonce: &mut [u8; 12])
    ensures
        final(nonce)@ == next_nonce(old(nonce)@),
{
    let ghost before = nonce@;
    let mut i: usize = 0;
    while i < 12
        invariant
            i <= 12,
            before.len() == 12,
            before == old(nonce)@,
            forall|j: int| 0 <= j < i ==> #[trigger] before[j] == 255,
            forall|j: int| 0 <= j < i ==> #[trigger] nonce@[j] == 0,
            forall|j: int| i <= j < 12 ==> #[trigger] nonce@[j] == before[j],
        decreases 12 - i,
    {
        let byte: u8 = nonce[i].wrapping_add(1);
        nonce[i] = byte;
        if byte != 0 {
            assert(before[i as int] != 255);
            assert(nonce@ =~= next_nonce(before));
            return ;
        }
        i += 1;
    }
    assert(nonce@ =~= next_nonce(before));
}

/// Seals a message and moves the nonce on.
pub fn encrypt(key: &[u8; 16], nonce: &mut [u8; 12], aad: &[u8], message: &[u8]) -> (sealed: Vec<
    u8,
>)
    requires
        message@.len() <= MESSAGE_MAX,
        aad@.len() <= MESSAGE_MAX,
    ensures
        sealed@ == aes128gcm_seal(key@, old(nonce)@, aad@, message@),
        sealed@.len() == message@.len() + 16,
        aes128gcm_open(key@, old(nonce)@, aad@, sealed@) == Some(message@),
        final(nonce)@ == next_nonce(old(nonce)@),
{
    let sealed = aes128gcm_encrypt(key, nonce, aad, message);
    increase_nonce(nonce);
    sealed
}

/// Opens a sealed message. The nonce moves on only where the tag fits.
pub fn decrypt(key: &[u8; 16], nonce: &mut [u8; 12], aad: &[u8], sealed: &[u8]) -> (message: Result<
    Vec<u8>,
    SnellError,
>)
    ensures
        match message {
            Ok(bytes) => {
                &&& aes128gcm_open(key@, old(nonce)@, aad@, sealed@) == Some(bytes@)
                &&& bytes@.len() + 16 == sealed@.len()
                &&& final(nonce)@ == next_nonce(old(nonce)@)
            },
            Err(error) => {
                &&& aes128gcm_open(key@, old(nonce)@, aad@, sealed@) is None
                &&& error == SnellError::RecordAuthentication
                &&& final(nonce)@ == old(nonce)@
            },
        },
{
    match aes128gcm_decrypt(key, nonce, aad, sealed) {
        Some(bytes) => {
            increase_nonce(nonce);
            Ok(bytes)
        },
        None => Err(SnellError::RecordAuthentication),
    }
}

} // verus!
