use vstd::prelude::*;

use crate::BlockHash;

verus! {

/// The SHA-256 digest of a byte sequence, named abstractly: the digest is a
/// function of the input bytes alone, and nothing more is assumed of it here.
pub uninterp spec fn sha256_of(bytes: Seq<u8>) -> Seq<u8>;

/// Relies on crypto_hash::digest with Algorithm::SHA256: a deterministic
/// 32-byte digest computed from the input bytes alone.
#[verifier::external_body]
fn sha256(bytes: &Vec<u8>) -> (r: BlockHash)
    ensures
        r@ == sha256_of(bytes@),
        r@.len() == 32,
{
    crypto_hash::digest(crypto_hash::Algorithm::SHA256, bytes)
}

/// An entity with a canonical byte encoding, from which its digest is derived.
pub trait Hashable {
    /// The canonical byte encoding, as a mathematical sequence of bytes.
    spec fn spec_bytes(&self) -> Seq<u8>;

    /// Produces the canonical byte encoding of this entity.
    fn bytes(&self) -> (r: Vec<u8>)
        ensures
            r@ == self.spec_bytes(),
    ;

    /// The digest of the canonical byte encoding.
    fn hash(&self) -> (r: BlockHash)
        ensures
            r@ == sha256_of(self.spec_bytes()),
            r@.len() == 32,
    {
        let b = self.bytes();
        sha256(&b)
    }
}

} // verus!
