//! Codec layer for genomic MinHash sketches: converts collections of
//! (hash, k-mer, count) records to and from a textual sketch form and a
//! compact fixed-width binary form, with an explicit hash-seed contract.

use vstd::prelude::*;

pub mod binary;
pub mod hashing;
pub mod json;
pub mod kmer;
pub mod multi;
pub mod numtext;

verus! {

/// One sketch record: a hash value, a packed k-mer (value and length),
/// a primary counter and a secondary counter.
#[derive(Clone, Copy, Debug, PartialEq, Eq)]
pub struct KmerCount {
    pub hash: u64,
    pub kmer: (u64, u8),
    pub count: u16,
    pub extra_count: u16,
}

impl KmerCount {
    /// A packed k-mer is well formed when its length fits in a 64-bit
    /// value at two bits per base and its value uses only those bits.
    pub open spec fn kmer_wf(self) -> bool {
        self.kmer.1 <= 32 && self.kmer.0 < pow4(self.kmer.1 as nat)
    }
}

/// 4^n, the number of distinct packed k-mers of length n.
pub open spec fn pow4(n: nat) -> nat
    decreases n,
{
    if n == 0 {
        1
    } else {
        4 * pow4((n - 1) as nat)
    }
}

} // verus!
