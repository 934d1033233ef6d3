//! Digests and the base64 text form of bytes.

use base64::engine::general_purpose::URL_SAFE_NO_PAD;
use base64::Engine;
use sha2::{Digest, Sha256};
use vstd::prelude::*;

verus! {

/// The SHA-256 digest of `input`.
pub uninterp spec fn sha256_digest(input: Seq<u8>) -> Seq<u8>;

/// `sha2::Sha256::digest`: the result depends on `input` alone and is named,
/// not described.
#[verifier::external_body]
pub(crate) fn sha256(input: &[u8]) -> (digest: Vec<u8>)
    ensures
        digest@ == sha256_digest(input@),
        digest@.len() == 32,
{
    Sha256::digest(input).to_vec()
}

/// A character of the alphabet that is safe in URLs and file names.
pub open spec fn base64url_char(value: int) -> char {
    if value < 26 {
        (0x41 + value) as char
    } else if value < 52 {
        (0x61 + (value - 26)) as char
    } else if value < 62 {
        (0x30 + (value - 52)) as char
    } else if value == 62 {
        '-'
    } else {
        '_'
    }
}

/// The six bits of `data` from bit `6 * index` on, highest first; zeros follow
/// the last byte.
pub open spec fn sextet(data: Seq<u8>, index: int) -> int {
    let at = 6 * index / 8;
    let offset = (6 * index) % 8;
    let shift: int = if offset == 0 {
        0x400
    } else if offset == 2 {
        0x100
    } else if offset == 4 {
        0x40
    } else {
        0x10
    };
    let next: int = if at + 1 < data.len() {
        data[at + 1] as int
    } else {
        0
    };
    ((data[at] * 0x100 + next) / shift) % 64
}

/// Base64 with the URL-safe alphabet and without padding.
pub open spec fn base64url_text(data: Seq<u8>) -> Seq<char> {
    Seq::new(((8 * data.len() + 5) / 6) as nat, |i: int| base64url_char(sextet(data, i)))
}

/// `Engine::encode` of `base64`'s `URL_SAFE_NO_PAD`: six bits to a character,
/// without padding.
#[verifier::external_body]
pub(crate) fn base64url_encode(data: &[u8]) -> (text: String)
    ensures
        text@ == base64url_text(data@),
{
    URL_SAFE_NO_PAD.encode(data)
}

/// `Engine::decode` of `base64`'s `URL_SAFE_NO_PAD`: accepts exactly the texts
/// that encoding gives, and gives back the bytes that they stand for.
#[verifier::external_body]
pub(crate) fn base64url_decode(text: &str) -> (data: Option<Vec<u8>>)
    ensures
        match data {
            Some(bytes) => base64url_text(bytes@) == text@,
            None => forall|bytes: Seq<u8>| #[trigger] base64url_text(bytes) != text@,
        },
{
    URL_SAFE_NO_PAD.decode(text).ok()
}

} // verus!
