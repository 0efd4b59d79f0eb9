use crate::backend::digest::{sha256, sha256_accepts, sha256_digest};
use vstd::prelude::*;

verus! {

/// Anything that fixes a byte encoding of itself gains a SHA-256 digest of that encoding.
pub trait Hashable {
    /// The canonical byte encoding of `self`.
    spec fn spec_bytes(&self) -> Seq<u8>;

    /// Whether every input that encoding and hashing `self` feeds to SHA-256 is short
    /// enough for the engine.
    spec fn hashable(&self) -> bool;

    /// Writes out the canonical encoding, which is short enough for the engine.
    fn bytes(&self) -> (out: Vec<u8>)
        requires
            self.hashable(),
        ensures
            out@ == self.spec_bytes(),
            sha256_accepts(out@.len()),
    ;

    /// The SHA-256 digest of the canonical encoding.
    fn hash(&self) -> (out: [u8; 32])
        requires
            self.hashable(),
        ensures
            out@ == sha256_digest(self.spec_bytes()),
    {
        let data = self.bytes();
        sha256(data.as_slice())
    }

    /// Copies a digest into a vector.
    fn get_vec(hash: &[u8; 32]) -> (out: Vec<u8>)
        ensures
            out@ == hash@,
    {
        let mut out: Vec<u8> = Vec::new();
        out.extend_from_slice(hash.as_slice());
        out
    }
}

} // verus!
