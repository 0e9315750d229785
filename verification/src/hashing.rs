//! The 64-bit string hash that places keys and virtual nodes on the ring.

use vstd::prelude::*;

verus! {

/// Digest of a string under the fixed 64-bit hash with seed 0. The result is
/// a pure function of the characters alone.
pub uninterp spec fn hash_of(s: Seq<char>) -> u64;

/// Relies on twox_hash::XxHash64 with seed 0: `write` followed by `finish`
/// digests exactly the bytes written, a deterministic function of the input.
#[verifier::external_body]
pub fn xxhash64(s: &str) -> (r: u64)
    ensures
        r == hash_of(s@),
{
    let mut h = twox_hash::XxHash64::with_seed(0);
    std::hash::Hasher::write(&mut h, s.as_bytes());
    std::hash::Hasher::finish(&h)
}

} // verus!
