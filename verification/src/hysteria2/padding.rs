//! Random padding.

use rand::distr::Distribution;
use vstd::prelude::*;

verus! {

pub open spec fn is_alphanumeric(byte: u8) -> bool {
    ||| 0x30 <= byte <= 0x39
    ||| 0x41 <= byte <= 0x5a
    ||| 0x61 <= byte <= 0x7a
}

/// `rand::random_range` draws from a range that is not empty.
#[verifier::external_body]
fn random_between(low: u32, high: u32) -> (value: u32)
    requires
        low <= high,
    ensures
        low <= value <= high,
{
    rand::random_range(low..=high)
}

/// `rand::distr::Alphanumeric` draws an ASCII letter or digit.
#[verifier::external_body]
fn random_alphanumeric() -> (byte: u8)
    ensures
        is_alphanumeric(byte),
{
    rand::distr::Alphanumeric.sample(&mut rand::rng())
}

/// Letters and digits, in a number between `low` and `high`.
pub fn padding(low: u32, high: u32) -> (bytes: Vec<u8>)
    requires
        low <= high,
    ensures
        low <= bytes@.len() <= high,
        forall|i: int| 0 <= i < bytes@.len() ==> is_alphanumeric(#[trigger] bytes@[i]),
{
    let len: u32 = random_between(low, high);
    let mut bytes: Vec<u8> = Vec::new();
    let mut count: u32 = 0;
    while count < len
        invariant
            count <= len,
            bytes@.len() == count,
            forall|i: int| 0 <= i < bytes@.len() ==> is_alphanumeric(#[trigger] bytes@[i]),
        decreases len - count,
    {
        bytes.push(random_alphanumeric());
        count += 1;
    }
    bytes
}

} // verus!
