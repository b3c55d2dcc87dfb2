//! Content hashing: a file's raw bytes are fingerprinted by a fixed-size
//! digest, rendered as a lowercase hex string. Staleness of a cache entry is
//! detected solely by comparing these digests.

use vstd::prelude::*;
use sha2::Digest;

verus! {

/// The sixteen lowercase hex digit characters, low nibble values first.
pub open spec fn hex_digits() -> Seq<char> {
    seq!['0', '1', '2', '3', '4', '5', '6', '7', '8', '9', 'a', 'b', 'c', 'd', 'e', 'f']
}

/// The hex digit character for a nibble value.
pub open spec fn hex_digit(n: int) -> char
    recommends
        0 <= n < 16,
{
    hex_digits()[n]
}

/// Lowercase hex encoding of a byte sequence: two digits per byte, high
/// nibble first.
pub open spec fn hex_encoding(b: Seq<u8>) -> Seq<char>
    decreases b.len(),
{
    if b.len() == 0 {
        Seq::empty()
    } else {
        seq![hex_digit(b[0] as int / 16), hex_digit(b[0] as int % 16)] + hex_encoding(
            b.drop_first(),
        )
    }
}

pub proof fn lemma_hex_encoding_len(b: Seq<u8>)
    ensures
        hex_encoding(b).len() == 2 * b.len(),
    decreases b.len(),
{
    if b.len() > 0 {
        lemma_hex_encoding_len(b.drop_first());
    }
}

/// The 32-byte SHA-256 digest of a byte sequence, determined by the bytes
/// alone; its exact value is not spelled out here.
pub uninterp spec fn sha256_of(b: Seq<u8>) -> Seq<u8>;

/// Relies on sha2::Sha256::digest: a 32-byte digest that is a function of
/// the input bytes alone.
#[verifier::external_body]
fn sha256_bytes(b: &Vec<u8>) -> (r: Vec<u8>)
    ensures
        r@ == sha256_of(b@),
        r@.len() == 32,
{
    sha2::Sha256::digest(b.as_slice()).to_vec()
}

/// Relies on hex::encode: lowercase hex, two digits per byte, high nibble
/// first.
#[verifier::external_body]
fn hex_lower(b: &Vec<u8>) -> (r: String)
    ensures
        r@ == hex_encoding(b@),
{
    hex::encode(b.as_slice())
}

/// The content digest of a byte sequence: its SHA-256 digest as a lowercase
/// hex string.
pub open spec fn digest_of(b: Seq<u8>) -> Seq<char> {
    hex_encoding(sha256_of(b))
}

/// Computes the content digest of raw file bytes: always 64 hex characters.
pub fn content_digest(b: &Vec<u8>) -> (d: String)
    ensures
        d@ == digest_of(b@),
        d@.len() == 64,
{
    let h = sha256_bytes(b);
    proof {
        lemma_hex_encoding_len(h@);
    }
    hex_lower(&h)
}

} // verus!
