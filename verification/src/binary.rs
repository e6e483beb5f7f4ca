//! The compact binary sketch form: a record count and one shared k-mer
//! length, then parallel fixed-width lists of packed k-mers and counts.
//! No hash value is stored; decoding recomputes each hash from the k-mer
//! text, so the hash seed is an explicit decode parameter.

use vstd::prelude::*;
use vstd::bytes::{spec_u16_from_le_bytes, spec_u16_to_le_bytes, spec_u32_from_le_bytes,
    spec_u32_to_le_bytes, spec_u64_from_le_bytes, spec_u64_to_le_bytes, u16_from_le_bytes,
    u16_to_le_bytes, u32_from_le_bytes, u32_to_le_bytes, u64_from_le_bytes, u64_to_le_bytes};
use vstd::slice::{slice_index_get, slice_subrange};
use crate::KmerCount;
use crate::kmer::{unpack_spec, unpack_kmer};
use crate::hashing::{hash_of, hash_kmer};

verus! {

/// A sketch in its binary form, immutable once constructed.
pub struct BinarySketch {
    pub len: u32,
    pub kmer_size: u8,
    pub kmers: Vec<u64>,
    pub counts: Vec<u16>,
}

impl BinarySketch {
    /// Both fixed-width lists hold exactly `len` entries.
    pub open spec fn wf(self) -> bool {
        &&& self.kmers@.len() == self.len as nat
        &&& self.counts@.len() == self.len as nat
    }
}

/// The sketch's fields are exactly the encoding of `records`: their
/// packed k-mer values and counts in order, and the first record's k-mer
/// length as the shared length. Hash values are not persisted.
pub open spec fn binary_encodes(sk: BinarySketch, records: Seq<KmerCount>) -> bool {
    &&& sk.len as nat == records.len()
    &&& records.len() > 0 ==> sk.kmer_size == records[0].kmer.1
    &&& sk.kmers@.len() == records.len()
    &&& sk.counts@.len() == records.len()
    &&& (forall|i: int| 0 <= i < records.len() ==> (#[trigger] sk.kmers@[i]) == records[i].kmer.0)
    &&& (forall|i: int| 0 <= i < records.len() ==> (#[trigger] sk.counts@[i]) == records[i].count)
}

/// The i-th record a decode at `seed` yields: the stored packed k-mer
/// under the shared length, the stored count, a zero secondary counter,
/// and the hash recomputed from the k-mer text at `seed`.
pub open spec fn binary_decoded_at(sk: BinarySketch, seed: u64, i: int) -> KmerCount {
    KmerCount {
        hash: hash_of(unpack_spec(sk.kmers@[i] as nat, sk.kmer_size as nat), seed),
        kmer: (sk.kmers@[i], sk.kmer_size),
        count: sk.counts@[i],
        extra_count: 0,
    }
}

/// All records a decode at `seed` yields, in order.
pub open spec fn binary_decoded(sk: BinarySketch, seed: u64) -> Seq<KmerCount> {
    Seq::new(sk.kmers@.len(), |i: int| binary_decoded_at(sk, seed, i))
}

impl BinarySketch {
    /// Encodes `kmercounts`, reading the shared k-mer length from the
    /// first record. An empty record sequence is refused outright — the
    /// binary form has no length to read from it — as is one whose count
    /// exceeds the 32-bit record counter.
    pub fn new(kmercounts: Vec<KmerCount>) -> (r: Option<BinarySketch>)
        ensures
            r is Some <==> 0 < kmercounts@.len() <= u32::MAX,
            r is Some ==> r->Some_0.wf() && binary_encodes(r->Some_0, kmercounts@),
    {
        let n = kmercounts.len();
        if n == 0 {
            return None;
        }
        if n > u32::MAX as usize {
            return None;
        }
        let mut kmer_list: Vec<u64> = Vec::new();
        let mut count_list: Vec<u16> = Vec::new();
        let mut i: usize = 0;
        while i < n
            invariant
                i <= n,
                n == kmercounts@.len(),
                kmer_list@.len() == i,
                count_list@.len() == i,
                forall|j: int| 0 <= j < i ==> (#[trigger] kmer_list@[j]) == kmercounts@[j].kmer.0,
                forall|j: int| 0 <= j < i ==> (#[trigger] count_list@[j]) == kmercounts@[j].count,
            decreases n - i,
        {
            kmer_list.push(kmercounts[i].kmer.0);
            count_list.push(kmercounts[i].count);
            i = i + 1;
        }
        Some(
            BinarySketch {
                len: n as u32,
                kmer_size: kmercounts[0].kmer.1,
                kmers: kmer_list,
                counts: count_list,
            },
        )
    }

    /// Decodes the sketch at an explicit hash seed: each record carries
    /// its stored packed k-mer and count, and a hash recomputed from the
    /// k-mer text at `seed`. A sketch written from records hashed at a
    /// different seed decodes to different hash values; the seed is the
    /// caller's contract to keep. The fixed layout has no failure path.
    pub fn get_kmers(&self, seed: u64) -> (r: Option<Vec<KmerCount>>)
        requires
            self.wf(),
        ensures
            r is Some,
            r->Some_0@ == binary_decoded(*self, seed),
    {
        let n = self.kmers.len();
        let mut out: Vec<KmerCount> = Vec::new();
        let mut i: usize = 0;
        while i < n
            invariant
                i <= n,
                self.wf(),
                n == self.kmers@.len(),
                out@.len() == i,
                forall|j: int|
                    0 <= j < i ==> #[trigger] out@[j] == binary_decoded_at(*self, seed, j),
            decreases n - i,
        {
            let text = unpack_kmer(self.kmers[i], self.kmer_size);
            let hash = hash_kmer(text.as_str(), seed);
            out.push(
                KmerCount {
                    hash,
                    kmer: (self.kmers[i], self.kmer_size),
                    count: self.counts[i],
                    extra_count: 0,
                },
            );
            i = i + 1;
        }
        proof {
            assert(out@ =~= binary_decoded(*self, seed));
        }
        Some(out)
    }
}

/// The little-endian bytes of the packed k-mer values, in order.
pub open spec fn u64s_le_bytes(vals: Seq<u64>) -> Seq<u8>
    decreases vals.len(),
{
    if vals.len() == 0 {
        Seq::empty()
    } else {
        u64s_le_bytes(vals.drop_last()) + spec_u64_to_le_bytes(vals.last())
    }
}

/// The little-endian bytes of the count values, in order.
pub open spec fn u16s_le_bytes(vals: Seq<u16>) -> Seq<u8>
    decreases vals.len(),
{
    if vals.len() == 0 {
        Seq::empty()
    } else {
        u16s_le_bytes(vals.drop_last()) + spec_u16_to_le_bytes(vals.last())
    }
}

/// The byte-exact wire form: a five-byte header (record count as a
/// little-endian 32-bit value, then the k-mer length byte), the packed
/// k-mer values as little-endian 64-bit words, then the counts as
/// little-endian 16-bit words. No padding, no magic number, no version
/// tag — callers that need framing must add their own.
pub open spec fn wire_bytes(sk: BinarySketch) -> Seq<u8> {
    spec_u32_to_le_bytes(sk.len) + seq![sk.kmer_size] + u64s_le_bytes(sk.kmers@) + u16s_le_bytes(
        sk.counts@,
    )
}

/// The record count a byte string declares in its header.
pub open spec fn wire_count(bytes: Seq<u8>) -> nat {
    spec_u32_from_le_bytes(bytes.subrange(0, 4)) as nat
}

/// The byte string parses: it holds the header and exactly the ten bytes
/// per record that the declared count demands.
pub open spec fn wire_parse_ok(bytes: Seq<u8>) -> bool {
    bytes.len() >= 5 && bytes.len() == 5 + wire_count(bytes) * 10
}

/// The i-th packed k-mer value a byte string carries.
pub open spec fn wire_kmer_at(bytes: Seq<u8>, i: int) -> u64 {
    spec_u64_from_le_bytes(bytes.subrange(5 + 8 * i, 13 + 8 * i))
}

/// The i-th count value a byte string carries.
pub open spec fn wire_count_at(bytes: Seq<u8>, i: int) -> u16 {
    spec_u16_from_le_bytes(
        bytes.subrange(
            5 + 8 * wire_count(bytes) + 2 * i,
            7 + 8 * wire_count(bytes) + 2 * i,
        ),
    )
}

impl BinarySketch {
    /// Writes the sketch field by field into its byte-exact wire form,
    /// independent of in-memory layout and platform byte order.
    pub fn to_bytes(&self) -> (r: Vec<u8>)
        requires
            self.wf(),
        ensures
            r@ == wire_bytes(*self),
    {
        let n = self.kmers.len();
        let mut out: Vec<u8> = u32_to_le_bytes(self.len);
        out.push(self.kmer_size);
        let ghost header = spec_u32_to_le_bytes(self.len) + seq![self.kmer_size];
        proof {
            assert(out@ =~= header);
            assert(self.kmers@.take(0) =~= Seq::<u64>::empty());
            assert(out@ =~= header + u64s_le_bytes(self.kmers@.take(0)));
        }
        let mut i: usize = 0;
        while i < n
            invariant
                i <= n,
                self.wf(),
                n == self.kmers@.len(),
                out@ == header + u64s_le_bytes(self.kmers@.take(i as int)),
                header == spec_u32_to_le_bytes(self.len) + seq![self.kmer_size],
            decreases n - i,
        {
            let mut chunk = u64_to_le_bytes(self.kmers[i]);
            out.append(&mut chunk);
            proof {
                let taken = self.kmers@.take(i + 1);
                assert(taken.drop_last() =~= self.kmers@.take(i as int));
                assert(taken.last() == self.kmers@[i as int]);
                assert(out@ =~= header + u64s_le_bytes(taken));
            }
            i = i + 1;
        }
        proof {
            assert(self.kmers@.take(n as int) =~= self.kmers@);
            assert(self.counts@.take(0) =~= Seq::<u16>::empty());
            assert(out@ =~= header + u64s_le_bytes(self.kmers@) + u16s_le_bytes(
                self.counts@.take(0),
            ));
        }
        let mut i: usize = 0;
        while i < n
            invariant
                i <= n,
                self.wf(),
                n == self.counts@.len(),
                out@ == header + u64s_le_bytes(self.kmers@) + u16s_le_bytes(
                    self.counts@.take(i as int),
                ),
                header == spec_u32_to_le_bytes(self.len) + seq![self.kmer_size],
            decreases n - i,
        {
            let mut chunk = u16_to_le_bytes(self.counts[i]);
            out.append(&mut chunk);
            proof {
                let taken = self.counts@.take(i + 1);
                assert(taken.drop_last() =~= self.counts@.take(i as int));
                assert(taken.last() == self.counts@[i as int]);
                assert(out@ =~= header + u64s_le_bytes(self.kmers@) + u16s_le_bytes(taken));
            }
            i = i + 1;
        }
        proof {
            assert(self.counts@.take(n as int) =~= self.counts@);
            assert(out@ =~= wire_bytes(*self));
        }
        out
    }

    /// Reads a sketch from its wire form, field by field. Succeeds exactly
    /// when the byte string's length agrees with the record count its
    /// header declares; every field of the result is the value the bytes
    /// carry at its fixed offset.
    pub fn from_bytes(bytes: &[u8]) -> (r: Option<BinarySketch>)
        ensures
            r is Some <==> wire_parse_ok(bytes@),
            r is Some ==> {
                let sk = r->Some_0;
                &&& sk.wf()
                &&& sk.len as nat == wire_count(bytes@)
                &&& sk.kmer_size == bytes@[4]
                &&& (forall|i: int|
                    0 <= i < sk.kmers@.len() ==> (#[trigger] sk.kmers@[i]) == wire_kmer_at(
                        bytes@,
                        i,
                    ))
                &&& (forall|i: int|
                    0 <= i < sk.counts@.len() ==> (#[trigger] sk.counts@[i]) == wire_count_at(
                        bytes@,
                        i,
                    ))
            },
    {
        if bytes.len() < 5 {
            return None;
        }
        let count: u32 = u32_from_le_bytes(slice_subrange(bytes, 0, 4));
        if bytes.len() as u64 != 5 + count as u64 * 10 {
            return None;
        }
        let n: usize = count as usize;
        let blen: usize = bytes.len();
        let kmer_size: u8 = *slice_index_get(bytes, 4);
        proof {
            assert(bytes@.len() == 5 + (n as int) * 10);
        }
        let mut kmer_list: Vec<u64> = Vec::new();
        let mut i: usize = 0;
        while i < n
            invariant
                i <= n,
                blen == bytes@.len(),
                bytes@.len() == 5 + n * 10,
                kmer_list@.len() == i,
                forall|j: int|
                    0 <= j < i ==> (#[trigger] kmer_list@[j]) == wire_kmer_at(bytes@, j),
            decreases n - i,
        {
            proof {
                assert(8 * i + 13 <= 8 * n + 5 <= bytes@.len());
            }
            let off: usize = 5 + i * 8;
            kmer_list.push(u64_from_le_bytes(slice_subrange(bytes, off, off + 8)));
            i = i + 1;
        }
        let base: usize = 5 + n * 8;
        let mut count_list: Vec<u16> = Vec::new();
        let mut i: usize = 0;
        while i < n
            invariant
                i <= n,
                blen == bytes@.len(),
                bytes@.len() == 5 + n * 10,
                base == 5 + n * 8,
                count_list@.len() == i,
                n as nat == wire_count(bytes@),
                forall|j: int|
                    0 <= j < i ==> (#[trigger] count_list@[j]) == wire_count_at(bytes@, j),
            decreases n - i,
        {
            proof {
                assert(8 * n + 2 * i + 7 <= 10 * n + 5 <= bytes@.len());
            }
            let off: usize = base + i * 2;
            count_list.push(u16_from_le_bytes(slice_subrange(bytes, off, off + 2)));
            i = i + 1;
        }
        Some(BinarySketch { len: count, kmer_size, kmers: kmer_list, counts: count_list })
    }
}

proof fn lemma_u64s_le_bytes_len(vals: Seq<u64>)
    ensures
        u64s_le_bytes(vals).len() == 8 * vals.len(),
    decreases vals.len(),
{
    vstd::bytes::lemma_auto_spec_u64_to_from_le_bytes();
    if vals.len() > 0 {
        lemma_u64s_le_bytes_len(vals.drop_last());
    }
}

proof fn lemma_u16s_le_bytes_len(vals: Seq<u16>)
    ensures
        u16s_le_bytes(vals).len() == 2 * vals.len(),
    decreases vals.len(),
{
    vstd::bytes::lemma_auto_spec_u16_to_from_le_bytes();
    if vals.len() > 0 {
        lemma_u16s_le_bytes_len(vals.drop_last());
    }
}

proof fn lemma_u64s_le_bytes_chunk(vals: Seq<u64>, i: int)
    requires
        0 <= i < vals.len(),
    ensures
        u64s_le_bytes(vals).subrange(8 * i, 8 * i + 8) == spec_u64_to_le_bytes(vals[i]),
    decreases vals.len(),
{
    vstd::bytes::lemma_auto_spec_u64_to_from_le_bytes();
    lemma_u64s_le_bytes_len(vals);
    let front = vals.drop_last();
    lemma_u64s_le_bytes_len(front);
    if i == vals.len() - 1 {
        assert(u64s_le_bytes(vals).subrange(8 * i, 8 * i + 8) =~= spec_u64_to_le_bytes(
            vals.last(),
        ));
    } else {
        lemma_u64s_le_bytes_chunk(front, i);
        assert(u64s_le_bytes(vals).subrange(8 * i, 8 * i + 8) =~= u64s_le_bytes(front).subrange(
            8 * i,
            8 * i + 8,
        ));
    }
}

proof fn lemma_u16s_le_bytes_chunk(vals: Seq<u16>, i: int)
    requires
        0 <= i < vals.len(),
    ensures
        u16s_le_bytes(vals).subrange(2 * i, 2 * i + 2) == spec_u16_to_le_bytes(vals[i]),
    decreases vals.len(),
{
    vstd::bytes::lemma_auto_spec_u16_to_from_le_bytes();
    lemma_u16s_le_bytes_len(vals);
    let front = vals.drop_last();
    lemma_u16s_le_bytes_len(front);
    if i == vals.len() - 1 {
        assert(u16s_le_bytes(vals).subrange(2 * i, 2 * i + 2) =~= spec_u16_to_le_bytes(
            vals.last(),
        ));
    } else {
        lemma_u16s_le_bytes_chunk(front, i);
        assert(u16s_le_bytes(vals).subrange(2 * i, 2 * i + 2) =~= u16s_le_bytes(front).subrange(
            2 * i,
            2 * i + 2,
        ));
    }
}

/// Law: a sketch's wire form parses, and every value read from it at its
/// fixed offset is the field that was written — so reading what
/// `to_bytes` wrote recovers the sketch exactly.
pub proof fn lemma_wire_round_trip(sk: BinarySketch)
    requires
        sk.wf(),
    ensures
        wire_parse_ok(wire_bytes(sk)),
        wire_count(wire_bytes(sk)) == sk.len as nat,
        wire_bytes(sk)[4] == sk.kmer_size,
        forall|i: int|
            0 <= i < sk.kmers@.len() ==> wire_kmer_at(wire_bytes(sk), i) == (
            #[trigger] sk.kmers@[i]),
        forall|i: int|
            0 <= i < sk.counts@.len() ==> wire_count_at(wire_bytes(sk), i) == (
            #[trigger] sk.counts@[i]),
{
    vstd::bytes::lemma_auto_spec_u32_to_from_le_bytes();
    vstd::bytes::lemma_auto_spec_u64_to_from_le_bytes();
    vstd::bytes::lemma_auto_spec_u16_to_from_le_bytes();
    lemma_u64s_le_bytes_len(sk.kmers@);
    lemma_u16s_le_bytes_len(sk.counts@);
    let b = wire_bytes(sk);
    assert(b.subrange(0, 4) =~= spec_u32_to_le_bytes(sk.len));
    assert(wire_count(b) == sk.len as nat);
    assert(b.len() == 5 + 10 * (sk.len as nat));
    assert(b[4] == sk.kmer_size);
    assert forall|i: int| 0 <= i < sk.kmers@.len() implies wire_kmer_at(b, i) == (
    #[trigger] sk.kmers@[i]) by {
        lemma_u64s_le_bytes_chunk(sk.kmers@, i);
        assert(b.subrange(5 + 8 * i, 13 + 8 * i) =~= u64s_le_bytes(sk.kmers@).subrange(
            8 * i,
            8 * i + 8,
        ));
    }
    assert forall|i: int| 0 <= i < sk.counts@.len() implies wire_count_at(b, i) == (
    #[trigger] sk.counts@[i]) by {
        lemma_u16s_le_bytes_chunk(sk.counts@, i);
        assert(b.subrange(5 + 8 * (sk.len as int) + 2 * i, 7 + 8 * (sk.len as int) + 2 * i)
            =~= u16s_le_bytes(sk.counts@).subrange(2 * i, 2 * i + 2));
    }
}

/// Law: binary decode of an encode returns the same (k-mer, count) pair
/// for each record, in order, provided all records share the first
/// record's k-mer length — the binary form stores only that one length.
pub proof fn lemma_binary_round_trip(sk: BinarySketch, records: Seq<KmerCount>, seed: u64)
    requires
        records.len() > 0,
        binary_encodes(sk, records),
        forall|i: int| 0 <= i < records.len() ==> (#[trigger] records[i]).kmer.1 == records[0].kmer.1,
    ensures
        binary_decoded(sk, seed).len() == records.len(),
        forall|i: int|
            0 <= i < records.len() ==> {
                &&& (#[trigger] binary_decoded(sk, seed)[i]).kmer == records[i].kmer
                &&& binary_decoded(sk, seed)[i].count == records[i].count
            },
{
}

/// Law: the hashes a binary decode recomputes agree with the records'
/// own hashes exactly on the premise that those hashes were taken from
/// the records' k-mer text at the same seed the decode uses.
pub proof fn lemma_binary_hash_consistency(sk: BinarySketch, records: Seq<KmerCount>, seed: u64)
    requires
        records.len() > 0,
        binary_encodes(sk, records),
        forall|i: int| 0 <= i < records.len() ==> (#[trigger] records[i]).kmer.1 == records[0].kmer.1,
        forall|i: int|
            0 <= i < records.len() ==> (#[trigger] records[i]).hash == hash_of(
                unpack_spec(records[i].kmer.0 as nat, records[i].kmer.1 as nat),
                seed,
            ),
    ensures
        forall|i: int|
            0 <= i < records.len() ==> (#[trigger] binary_decoded(sk, seed)[i]).hash
                == records[i].hash,
{
}

} // verus!

