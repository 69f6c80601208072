//! The digest function that diffuses the entropy pool: SHA3-512.

use sha3::Digest;
use sha3::Sha3_512;
use vstd::prelude::*;

verus! {

/// The width of a SHA3-512 digest in bytes.
pub const DIGEST_LEN: usize = 64;

/// What the `sha3` crate computes as the SHA3-512 digest of `message`.
pub uninterp spec fn sha3_512(message: Seq<u8>) -> Seq<u8>;

/// The digest of `message` as the generator's model reads it. It is
/// `sha3_512(message)`, which is always one digest width long; the other
/// branch only makes that width a property of the definition.
pub open spec fn digest(message: Seq<u8>) -> Seq<u8> {
    if sha3_512(message).len() == DIGEST_LEN {
        sha3_512(message)
    } else {
        Seq::new(DIGEST_LEN as nat, |i: int| 0u8)
    }
}

/// Calls `Digest::digest` of the `sha3` crate on `Sha3_512`, which absorbs the
/// whole message into a fresh hasher and finalizes it. Trusted: the result is
/// a function of the message bytes alone, and it is always 64 bytes long.
#[verifier::external_body]
fn sha3_512_digest(message: &[u8]) -> (out: Vec<u8>)
    ensures
        out@ == sha3_512(message@),
        out@.len() == DIGEST_LEN,
{
    Sha3_512::digest(message).to_vec()
}

/// The SHA3-512 digest of `message`.
pub fn digest_of(message: &[u8]) -> (out: Vec<u8>)
    ensures
        out@ == digest(message@),
        out@.len() == DIGEST_LEN,
{
    sha3_512_digest(message)
}

} // verus!
