//! The hash capability consumed by the binary codec: (k-mer text, seed) to
//! a 64-bit hash value.

use vstd::prelude::*;

verus! {

/// The sketch hash of k-mer text at a seed: the low 64 bits of the
/// 128-bit x64 MurmurHash3 of the text's bytes. A pure function of text
/// and seed, identical across processes and machines.
pub uninterp spec fn hash_of(kmer: Seq<char>, seed: u64) -> u64;

/// Relies on murmurhash3::murmurhash3_x64_128: a digest of the byte slice
/// and seed alone, whose low word this library names `hash_of`.
#[verifier::external_body]
pub(crate) fn hash_kmer(kmer: &str, seed: u64) -> (r: u64)
    ensures
        r == hash_of(kmer@, seed),
{
    murmurhash3::murmurhash3_x64_128(kmer.as_bytes(), seed).0
}

} // verus!
