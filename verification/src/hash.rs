//! BLAKE3 digests.

use vstd::prelude::*;

verus! {

/// The 32-byte BLAKE3 digest of a byte string.
pub uninterp spec fn blake3_digest(data: Seq<u8>) -> Seq<u8>;

/// A 32-byte digest.
#[derive(Clone, Copy, Debug, PartialEq, Eq)]
pub struct Hash {
    bytes: [u8; 32],
}

impl View for Hash {
    type V = Seq<u8>;

    /// The 32 bytes of the digest.
    closed spec fn view(&self) -> Seq<u8> {
        self.bytes@
    }
}

impl Hash {
    /// The digest with the given bytes.
    pub fn from_bytes(bytes: [u8; 32]) -> (r: Self)
        ensures
            r@ == bytes@,
    {
        Hash { bytes }
    }

    /// The bytes of the digest.
    pub fn as_bytes(&self) -> (r: &[u8; 32])
        ensures
            r@ == self@,
    {
        &self.bytes
    }

    /// Whether two digests hold the same bytes.
    pub fn equals(&self, other: &Hash) -> (r: bool)
        ensures
            r == (self@ == other@),
    {
        let mut i: usize = 0;
        while i < 32
            invariant
                i <= 32,
                forall|t: int| 0 <= t < i ==> self.bytes@[t] == other.bytes@[t],
            decreases 32 - i,
        {
            if self.bytes[i] != other.bytes[i] {
                return false;
            }
            i += 1;
        }
        assert(self.bytes@ =~= other.bytes@);
        true
    }
}

/// Feeds `left` and then `right` to a fresh `blake3::Hasher` and finalizes it: the BLAKE3
/// digest of the two strings joined.
#[verifier::external_body]
pub(crate) fn digest_of_pair(left: &[u8], right: &[u8]) -> (r: Hash)
    ensures
        r@ == blake3_digest(left@ + right@),
{
    let mut hasher = blake3::Hasher::new();
    hasher.update(left);
    hasher.update(right);
    Hash { bytes: *hasher.finalize().as_bytes() }
}

} // verus!
