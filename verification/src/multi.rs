//! The multi-sketch container: sketch-family metadata beside an ordered
//! list of textual sketches. A pure aggregate — decode exposes both
//! without cross-validation — plus an explicit, optional consistency
//! check of each sketch's k-mer text lengths against the declared length.

use vstd::prelude::*;
use crate::json::JSONSketch;

verus! {

/// Shared sketch-family metadata with the sketches it governs.
#[allow(non_snake_case)]
pub struct JSONMultiSketch {
    pub kmer: u8,
    pub alphabet: String,
    pub preserveCase: bool,
    pub canonical: bool,
    pub sketchSize: u32,
    pub hashType: String,
    pub hashBits: u16,
    pub hashSeed: u64,
    pub sketches: Vec<JSONSketch>,
}

/// Every k-mer text of every member sketch has the container's declared
/// k-mer length.
pub open spec fn kmer_lengths_consistent(ms: JSONMultiSketch) -> bool {
    forall|s: int, i: int|
        0 <= s < ms.sketches@.len() && (#[trigger] ms.sketches@[s]).kmers is Some && 0 <= i
            < ms.sketches@[s].kmers->Some_0@.len() ==> (#[trigger] ms.sketches@[s]
            .kmers->Some_0@[i])@.len() == ms.kmer as nat
}

impl JSONMultiSketch {
    /// Reports whether every member sketch's k-mer texts match the
    /// declared k-mer length. Containers are aggregated and decoded
    /// without this validation; it is the caller's explicit toggle.
    pub fn kmer_lengths_ok(&self) -> (r: bool)
        ensures
            r == kmer_lengths_consistent(*self),
    {
        let ns = self.sketches.len();
        let mut s: usize = 0;
        while s < ns
            invariant
                s <= ns,
                ns == self.sketches@.len(),
                forall|t: int, i: int|
                    0 <= t < s && (#[trigger] self.sketches@[t]).kmers is Some && 0 <= i
                        < self.sketches@[t].kmers->Some_0@.len() ==> (#[trigger] self.sketches@[t]
                        .kmers->Some_0@[i])@.len() == self.kmer as nat,
            decreases ns - s,
        {
            match &self.sketches[s].kmers {
                Some(texts) => {
                    let nk = texts.len();
                    let mut i: usize = 0;
                    while i < nk
                        invariant
                            i <= nk,
                            0 <= s < self.sketches@.len(),
                            self.sketches@[s as int].kmers is Some,
                            nk == self.sketches@[s as int].kmers->Some_0@.len(),
                            texts@ == self.sketches@[s as int].kmers->Some_0@,
                            forall|j: int|
                                0 <= j < i ==> (#[trigger] self.sketches@[s as int]
                                    .kmers->Some_0@[j])@.len() == self.kmer as nat,
                        decreases nk - i,
                    {
                        if texts[i].as_str().unicode_len() != self.kmer as usize {
                            return false;
                        }
                        i = i + 1;
                    }
                },
                None => {},
            }
            s = s + 1;
        }
        true
    }
}

} // verus!
