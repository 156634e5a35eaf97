//! The content digest that tells one text from another.

use vstd::prelude::*;
use vstd::string::*;
use sha2::{Digest, Sha256};

verus! {

/// The SHA-256 digest of a byte string.
pub uninterp spec fn sha256(data: Seq<u8>) -> Seq<u8>;

/// Calls `sha2::Sha256::digest`, the one-shot form of the hasher, and copies
/// the digest it returns into a vector. The digest is a function of the bytes
/// alone, so the contract gives it its name; beside the name it claims only
/// the digest's size, 256 bits.
#[verifier::external_body]
pub(crate) fn sha256_of(data: &[u8]) -> (digest: Vec<u8>)
    ensures
        digest@ == sha256(data@),
        digest@.len() == 32,
{
    Sha256::digest(data).to_vec()
}

/// The digest of a text, taken over its UTF-8 bytes.
pub fn content_digest(content: &str) -> (digest: Vec<u8>)
    ensures
        digest@ == sha256(content.spec_bytes()),
        digest@.len() == 32,
{
    sha256_of(content.as_bytes())
}

/// Whether two digests are different byte strings.
pub fn digests_differ(new_digest: &[u8], old_digest: &[u8]) -> (differ: bool)
    ensures
        differ == (new_digest@ != old_digest@),
{
    if new_digest.len() != old_digest.len() {
        return true;
    }
    let mut i: usize = 0;
    while i < new_digest.len()
        invariant
            i <= new_digest.len(),
            new_digest.len() == old_digest.len(),
            forall|j: int| 0 <= j < i ==> new_digest[j] == old_digest[j],
        decreases new_digest.len() - i,
    {
        if new_digest[i] != old_digest[i] {
            return true;
        }
        i += 1;
    }
    assert(new_digest@ =~= old_digest@);
    false
}

} // verus!
