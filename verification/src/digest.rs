//! The two pure encodings the address computer relies on: the SHA-256
//! digest and the lowercase Crockford base32 alphabet.  Both results are
//! functions of the input alone; their values are named rather than
//! restated, and everything downstream is specified over those names.

use vstd::prelude::*;

verus! {

/// The SHA-256 digest of the UTF-8 encoding of a character sequence.
pub uninterp spec fn sha256_of(s: Seq<char>) -> Seq<u8>;

/// Relies on sha2::Sha256::digest: the digest is a function of the input
/// bytes alone and is always 32 bytes long.
#[verifier::external_body]
pub(crate) fn sha256(s: &str) -> (r: Vec<u8>)
    ensures
        r@ == sha256_of(s@),
        r@.len() == 32,
{
    let d = <sha2::Sha256 as sha2::Digest>::digest(s.as_bytes());
    d.as_slice().to_vec()
}

/// The lowercase Crockford base32 rendering of a byte sequence.
pub uninterp spec fn crockford_lower_of(s: Seq<u8>) -> Seq<char>;

/// Relies on fast32::base32::CROCKFORD_LOWER.encode: the unpadded encoding
/// is a function of the input bytes alone and renders every 5 input bits
/// as one character, so `n` bytes give `ceil(8n / 5)` characters.
#[verifier::external_body]
pub(crate) fn base32_crockford_lower(data: &Vec<u8>) -> (r: String)
    ensures
        r@ == crockford_lower_of(data@),
        r@.len() == (data@.len() * 8 + 4) / 5,
{
    fast32::base32::CROCKFORD_LOWER.encode(data.as_slice())
}

} // verus!
