//! Hashing and hexadecimal text.
use crate::primitives::{h256, H256};
use sha3::Digest;
use vstd::prelude::*;

verus! {

/// The Keccak-256 digest of `data`: 32 bytes.
pub uninterp spec fn keccak256(data: Seq<u8>) -> Seq<u8>;

/// Calls `sha3::Keccak256::digest`, whose output always has 32 bytes and
/// depends on `data` alone.
#[verifier::external_body]
fn keccak256_digest(data: &[u8]) -> (r: Vec<u8>)
    ensures
        r@ == keccak256(data@),
        r@.len() == 32,
{
    sha3::Keccak256::digest(data).to_vec()
}

/// The Keccak-256 hash of `data`.
pub open spec fn hash_of(data: Seq<u8>) -> H256 {
    h256(keccak256(data))
}

/// Hashes `data` with Keccak-256.
pub fn keccak_hash(data: &[u8]) -> (r: H256)
    ensures
        r == hash_of(data@),
        r.0@ == keccak256(data@),
{
    let digest = keccak256_digest(data);
    H256::from_slice(digest.as_slice())
}

/// The lower-case hexadecimal digit of a number below 16.
pub open spec fn hex_digit(n: int) -> char {
    if n < 10 {
        (n + '0' as int) as char
    } else {
        (n - 10 + 'a' as int) as char
    }
}

/// The text with two lower-case hexadecimal digits for each byte, the high
/// digit first.
pub open spec fn hex_text(data: Seq<u8>) -> Seq<char> {
    Seq::new(
        2 * data.len(),
        |i: int|
            if i % 2 == 0 {
                hex_digit(data[i / 2] as int / 16)
            } else {
                hex_digit(data[i / 2] as int % 16)
            },
    )
}

/// Calls `hex::encode`: two lower-case hexadecimal digits for each byte.
#[verifier::external_body]
pub(crate) fn hex_encode(data: &[u8]) -> (r: String)
    ensures
        r@ == hex_text(data@),
{
    hex::encode(data)
}

} // verus!
