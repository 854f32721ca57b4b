//! The randomness source: a bounded pseudo-random number derived from the
//! block timestamp and an engine-wide counter (the salt).
//!
//! The seed bytes are hashed with Keccak-256; the first two digest bytes,
//! read as a little-endian 16-bit integer, are reduced modulo 999 and
//! shifted by one, yielding a value in `[1, 999]`. This is a convenience
//! generator, not a security primitive.

use vstd::prelude::*;

verus! {

/// The Keccak-256 digest of a byte sequence.
pub uninterp spec fn keccak_of(input: Seq<u8>) -> Seq<u8>;

/// Relies on `ink::env::hash_bytes` with the `Keccak256` algorithm: the
/// 32-byte digest depends on the input bytes alone.
#[verifier::external_body]
fn keccak256(input: &Vec<u8>) -> (out: Vec<u8>)
    ensures
        out@ == keccak_of(input@),
        out@.len() == 32,
{
    let mut output = [0u8; 32];
    ink::env::hash_bytes::<ink::env::hash::Keccak256>(input.as_slice(), &mut output);
    output.to_vec()
}

/// The big-endian bytes of a 64-bit integer.
pub open spec fn be_bytes_u64(x: u64) -> Seq<u8> {
    seq![
        (x >> 56) as u8,
        (x >> 48) as u8,
        (x >> 40) as u8,
        (x >> 32) as u8,
        (x >> 24) as u8,
        (x >> 16) as u8,
        (x >> 8) as u8,
        x as u8,
    ]
}

/// The big-endian bytes of a 32-bit integer.
pub open spec fn be_bytes_u32(x: u32) -> Seq<u8> {
    seq![(x >> 24) as u8, (x >> 16) as u8, (x >> 8) as u8, x as u8]
}

/// The seed handed to the digest: the timestamp concatenated with the
/// salt, both big-endian.
pub open spec fn seed_input(timestamp: u64, salt: u32) -> Seq<u8> {
    be_bytes_u64(timestamp) + be_bytes_u32(salt)
}

/// The winning number read off two digest bytes: the little-endian 16-bit
/// value, reduced modulo 999 and shifted by one.
pub open spec fn number_from_bytes(b0: u8, b1: u8) -> u16 {
    (((b0 + 256 * b1) % 999) + 1) as u16
}

/// The winning number derived from a timestamp and a salt.
pub open spec fn spec_winning_number(timestamp: u64, salt: u32) -> u16 {
    let digest = keccak_of(seed_input(timestamp, salt));
    number_from_bytes(digest[0], digest[1])
}

/// Reads the winning number off a digest: bytes are combined
/// little-endian, reduced modulo 999 and shifted into `[1, 999]`.
pub fn number_from_digest(digest: &Vec<u8>) -> (n: u16)
    requires
        digest@.len() >= 2,
    ensures
        n == number_from_bytes(digest@[0], digest@[1]),
        1 <= n <= 999,
{
    let b0 = digest[0];
    let b1 = digest[1];
    let raw: u16 = (b0 as u16) + (b1 as u16) * 256;
    raw % 999 + 1
}

/// Derives the winning number for one processing step from the current
/// block timestamp and the engine's salt. The result always lies in
/// `[1, 999]`.
pub fn derive_winning_number(timestamp: u64, salt: u32) -> (n: u16)
    ensures
        n == spec_winning_number(timestamp, salt),
        1 <= n <= 999,
{
    let mut input: Vec<u8> = Vec::new();
    input.push((timestamp >> 56) as u8);
    input.push((timestamp >> 48) as u8);
    input.push((timestamp >> 40) as u8);
    input.push((timestamp >> 32) as u8);
    input.push((timestamp >> 24) as u8);
    input.push((timestamp >> 16) as u8);
    input.push((timestamp >> 8) as u8);
    input.push(timestamp as u8);
    input.push((salt >> 24) as u8);
    input.push((salt >> 16) as u8);
    input.push((salt >> 8) as u8);
    input.push(salt as u8);
    proof {
        assert(input@ =~= seed_input(timestamp, salt));
    }
    let digest = keccak256(&input);
    number_from_digest(&digest)
}

} // verus!
