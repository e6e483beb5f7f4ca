//! The textual sketch form: a named record collection held as three
//! parallel sequences of hash text, k-mer text and counts, with the
//! metadata the wire format carries beside them.

use vstd::prelude::*;
use crate::KmerCount;
use crate::kmer::{pack_spec, unpack_spec, pack_kmer, unpack_kmer, lemma_pack_bound,
    lemma_pack_unpack, lemma_unpack_len, lemma_pow4_monotonic, lemma_pow4_32};
use crate::numtext::{parses_to_u64, dec_value, dec_chars, u64_to_dec, parse_dec,
    lemma_dec_chars_value};

verus! {

/// A sketch in its textual form. The three parallel lists are expected to
/// share one length, the record count; that expectation is not enforced
/// field by field, but `get_kmers` refuses a sketch whose lists disagree.
#[allow(non_snake_case)]
pub struct JSONSketch {
    pub name: String,
    pub seqLength: Option<u64>,
    pub comment: Option<String>,
    pub filters: Option<Vec<(String, String)>>,
    pub hashes: Vec<String>,
    pub kmers: Option<Vec<String>>,
    pub counts: Option<Vec<u16>>,
}

/// The sketch's three lists are exactly the encoding of `records`: hash
/// values as decimal text, packed k-mers as base text, counts as given,
/// all in record order.
pub open spec fn json_encodes(sk: JSONSketch, records: Seq<KmerCount>) -> bool {
    &&& sk.kmers is Some
    &&& sk.counts is Some
    &&& sk.hashes@.len() == records.len()
    &&& sk.kmers->Some_0@.len() == records.len()
    &&& sk.counts->Some_0@.len() == records.len()
    &&& (forall|i: int|
        0 <= i < records.len() ==> (#[trigger] sk.hashes@[i])@ == dec_chars(
            records[i].hash as nat,
        ))
    &&& (forall|i: int|
        0 <= i < records.len() ==> (#[trigger] sk.kmers->Some_0@[i])@ == unpack_spec(
            records[i].kmer.0 as nat,
            records[i].kmer.1 as nat,
        ))
    &&& (forall|i: int|
        0 <= i < records.len() ==> (#[trigger] sk.counts->Some_0@[i]) == records[i].count)
}

/// Decoding succeeds exactly when every hash text parses as a 64-bit
/// value, and whichever optional lists are present match the hash list in
/// length, with every k-mer text short enough to pack.
pub open spec fn decode_ok(sk: JSONSketch) -> bool {
    &&& (forall|i: int|
        0 <= i < sk.hashes@.len() ==> parses_to_u64((#[trigger] sk.hashes@[i])@))
    &&& (sk.kmers is Some ==> sk.kmers->Some_0@.len() == sk.hashes@.len())
    &&& (sk.kmers is Some ==> forall|i: int|
        0 <= i < sk.kmers->Some_0@.len() ==> (#[trigger] sk.kmers->Some_0@[i])@.len() <= 32)
    &&& (sk.counts is Some ==> sk.counts->Some_0@.len() == sk.hashes@.len())
}

/// The count of the i-th decoded record: taken from the count list, or 1
/// when the sketch carries none.
pub open spec fn decoded_count(sk: JSONSketch, i: int) -> u16 {
    if sk.counts is Some {
        sk.counts->Some_0@[i]
    } else {
        1
    }
}

/// The i-th decoded record: hash from its decimal text, k-mer packed from
/// its base text (or empty when absent), count as stored, and the
/// secondary counter defaulted to half the count.
pub open spec fn decoded_at(sk: JSONSketch, i: int) -> KmerCount {
    KmerCount {
        hash: dec_value(sk.hashes@[i]@) as u64,
        kmer: if sk.kmers is Some {
            (pack_spec(sk.kmers->Some_0@[i]@) as u64, sk.kmers->Some_0@[i]@.len() as u8)
        } else {
            (0u64, 0u8)
        },
        count: decoded_count(sk, i),
        extra_count: (decoded_count(sk, i) / 2) as u16,
    }
}

/// All records a successful decode yields, in order.
pub open spec fn json_decoded(sk: JSONSketch) -> Seq<KmerCount> {
    Seq::new(sk.hashes@.len() as nat, |i: int| decoded_at(sk, i))
}

/// Builds the three parallel lists that encode `records`.
fn encode_lists(records: &Vec<KmerCount>) -> (r: (Vec<String>, Vec<String>, Vec<u16>))
    ensures
        r.0@.len() == records@.len(),
        r.1@.len() == records@.len(),
        r.2@.len() == records@.len(),
        forall|i: int|
            0 <= i < records@.len() ==> (#[trigger] r.0@[i])@ == dec_chars(
                records@[i].hash as nat,
            ),
        forall|i: int|
            0 <= i < records@.len() ==> (#[trigger] r.1@[i])@ == unpack_spec(
                records@[i].kmer.0 as nat,
                records@[i].kmer.1 as nat,
            ),
        forall|i: int| 0 <= i < records@.len() ==> (#[trigger] r.2@[i]) == records@[i].count,
{
    let n = records.len();
    let mut hash_list: Vec<String> = Vec::new();
    let mut kmer_list: Vec<String> = Vec::new();
    let mut count_list: Vec<u16> = Vec::new();
    let mut i: usize = 0;
    while i < n
        invariant
            i <= n,
            n == records@.len(),
            hash_list@.len() == i,
            kmer_list@.len() == i,
            count_list@.len() == i,
            forall|j: int|
                0 <= j < i ==> (#[trigger] hash_list@[j])@ == dec_chars(records@[j].hash as nat),
            forall|j: int|
                0 <= j < i ==> (#[trigger] kmer_list@[j])@ == unpack_spec(
                    records@[j].kmer.0 as nat,
                    records@[j].kmer.1 as nat,
                ),
            forall|j: int| 0 <= j < i ==> (#[trigger] count_list@[j]) == records@[j].count,
        decreases n - i,
    {
        let rec = records[i];
        hash_list.push(u64_to_dec(rec.hash));
        kmer_list.push(unpack_kmer(rec.kmer.0, rec.kmer.1));
        count_list.push(rec.count);
        i = i + 1;
    }
    (hash_list, kmer_list, count_list)
}

impl JSONSketch {
    /// Encodes `kmercounts` as a named textual sketch, preserving record
    /// order. The comment defaults to empty text; the filter mapping is
    /// taken by value. The mapping's keys are the caller's to keep unique.
    pub fn new(
        name: &str,
        length: u64,
        kmercounts: Vec<KmerCount>,
        filters: Vec<(String, String)>,
    ) -> (r: Self)
        ensures
            r.name@ == name@,
            r.seqLength == Some(length),
            r.comment is Some && r.comment->Some_0@ == Seq::<char>::empty(),
            r.filters == Some(filters),
            json_encodes(r, kmercounts@),
    {
        let (hash_list, kmer_list, count_list) = encode_lists(&kmercounts);
        let comment = String::new();
        proof {
            assert(comment@ =~= Seq::<char>::empty());
        }
        JSONSketch {
            name: String::from_str(name),
            seqLength: Some(length),
            comment: Some(comment),
            filters: Some(filters),
            hashes: hash_list,
            kmers: Some(kmer_list),
            counts: Some(count_list),
        }
    }

    /// The record count, defined as the length of the hash list.
    pub fn len(&self) -> (r: usize)
        ensures
            r == self.hashes@.len(),
    {
        self.hashes.len()
    }

    /// Decodes the sketch back into records: all-or-nothing. One hash
    /// text that fails to parse, a list length mismatch, or a k-mer text
    /// too long to pack yields nothing; no partial result is exposed.
    pub fn get_kmers(&self) -> (r: Option<Vec<KmerCount>>)
        ensures
            r is Some <==> decode_ok(*self),
            r is Some ==> r->Some_0@ == json_decoded(*self),
    {
        let n = self.hashes.len();
        match &self.kmers {
            Some(v) => {
                if v.len() != n {
                    return None;
                }
            },
            None => {},
        }
        match &self.counts {
            Some(v) => {
                if v.len() != n {
                    return None;
                }
            },
            None => {},
        }
        let mut out: Vec<KmerCount> = Vec::new();
        let mut i: usize = 0;
        while i < n
            invariant
                i <= n,
                n == self.hashes@.len(),
                self.kmers is Some ==> self.kmers->Some_0@.len() == n,
                self.counts is Some ==> self.counts->Some_0@.len() == n,
                out@.len() == i,
                forall|j: int|
                    0 <= j < i ==> parses_to_u64((#[trigger] self.hashes@[j])@),
                self.kmers is Some ==> forall|j: int|
                    0 <= j < i ==> (#[trigger] self.kmers->Some_0@[j])@.len() <= 32,
                forall|j: int| 0 <= j < i ==> #[trigger] out@[j] == decoded_at(*self, j),
            decreases n - i,
        {
            let hash: u64 = match parse_dec(self.hashes[i].as_str()) {
                Some(h) => h,
                None => {
                    proof {
                        assert(!parses_to_u64(self.hashes@[i as int]@));
                    }
                    return None;
                },
            };
            let kmer: (u64, u8) = match &self.kmers {
                Some(v) => {
                    let text: &String = &v[i];
                    if text.as_str().unicode_len() > 32 {
                        proof {
                            assert(self.kmers->Some_0@[i as int]@.len() > 32);
                        }
                        return None;
                    }
                    let packed = pack_kmer(text.as_str());
                    proof {
                        lemma_pack_bound(text@);
                        lemma_pow4_monotonic(text@.len(), 32);
                        lemma_pow4_32();
                    }
                    packed
                },
                None => (0, 0),
            };
            let count: u16 = match &self.counts {
                Some(v) => v[i],
                None => 1,
            };
            let rec = KmerCount { hash, kmer, count, extra_count: count / 2 };
            proof {
                assert(rec == decoded_at(*self, i as int));
            }
            out.push(rec);
            i = i + 1;
        }
        proof {
            assert(out@ =~= json_decoded(*self));
        }
        Some(out)
    }

    /// Replaces this sketch's record lists with the given filtered set and
    /// its metadata with the filter's statistics mapping, in place. The
    /// filtering pass itself is an outside capability: callers decode with
    /// `get_kmers`, run their filter, and hand its results here. When the
    /// current contents fail to decode, nothing is touched and the call
    /// reports failure, mirroring the all-or-nothing decode. The
    /// replacement is destructive: the prior lists and metadata are gone.
    pub fn apply_filtering(
        &mut self,
        filtered: &Vec<KmerCount>,
        stats: Vec<(String, String)>,
    ) -> (r: bool)
        ensures
            r == decode_ok(*old(self)),
            !r ==> *final(self) == *old(self),
            r ==> json_encodes(*final(self), filtered@),
            r ==> final(self).filters == Some(stats),
            r ==> final(self).name == old(self).name,
            r ==> final(self).seqLength == old(self).seqLength,
            r ==> final(self).comment == old(self).comment,
    {
        match self.get_kmers() {
            Some(_) => {},
            None => {
                return false;
            },
        }
        let (hash_list, kmer_list, count_list) = encode_lists(filtered);
        self.hashes = hash_list;
        self.kmers = Some(kmer_list);
        self.counts = Some(count_list);
        self.filters = Some(stats);
        true
    }
}

/// Law: a sketch that encodes `records` reports exactly their number as
/// its length.
pub proof fn lemma_len_is_record_count(sk: JSONSketch, records: Seq<KmerCount>)
    requires
        json_encodes(sk, records),
    ensures
        sk.hashes@.len() == records.len(),
{
}

/// Law: decoding a sketch that encodes `records` succeeds and returns the
/// same (hash, k-mer, count) triple for each record, in order, provided
/// every record's packed k-mer is well formed.
pub proof fn lemma_json_round_trip(sk: JSONSketch, records: Seq<KmerCount>)
    requires
        json_encodes(sk, records),
        forall|i: int| 0 <= i < records.len() ==> (#[trigger] records[i]).kmer_wf(),
    ensures
        decode_ok(sk),
        json_decoded(sk).len() == records.len(),
        forall|i: int|
            0 <= i < records.len() ==> {
                &&& (#[trigger] json_decoded(sk)[i]).hash == records[i].hash
                &&& json_decoded(sk)[i].kmer == records[i].kmer
                &&& json_decoded(sk)[i].count == records[i].count
            },
{
    assert forall|i: int| 0 <= i < sk.hashes@.len() implies parses_to_u64(
        (#[trigger] sk.hashes@[i])@,
    ) by {
        lemma_dec_chars_value(records[i].hash as nat);
    }
    assert forall|i: int| 0 <= i < sk.kmers->Some_0@.len() implies (
    #[trigger] sk.kmers->Some_0@[i])@.len() <= 32 by {
        lemma_unpack_len(records[i].kmer.0 as nat, records[i].kmer.1 as nat);
        assert(records[i].kmer_wf());
    }
    assert forall|i: int| 0 <= i < records.len() implies {
        &&& (#[trigger] json_decoded(sk)[i]).hash == records[i].hash
        &&& json_decoded(sk)[i].kmer == records[i].kmer
        &&& json_decoded(sk)[i].count == records[i].count
    } by {
        lemma_dec_chars_value(records[i].hash as nat);
        lemma_unpack_len(records[i].kmer.0 as nat, records[i].kmer.1 as nat);
        assert(records[i].kmer_wf());
        lemma_pack_unpack(records[i].kmer.0 as nat, records[i].kmer.1 as nat);
    }
}

} // verus!
