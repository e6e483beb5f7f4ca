//! Two-bit packing of k-mer base text into a `(value, length)` pair.
//!
//! Bases map to two-bit codes (A = 0, C = 1, G = 2, T = 3, case
//! insensitive); the leftmost base lands in the most significant bits.
//! Characters outside the base alphabet pack as 0, so only text over
//! A/C/G/T round-trips exactly.

use vstd::prelude::*;
use crate::pow4;

verus! {

/// The two-bit code of one base character; unknown characters code as 0.
pub open spec fn base_val(c: char) -> nat {
    if c == 'A' || c == 'a' {
        0
    } else if c == 'C' || c == 'c' {
        1
    } else if c == 'G' || c == 'g' {
        2
    } else if c == 'T' || c == 't' {
        3
    } else {
        0
    }
}

/// The upper-case base character of one two-bit code.
pub open spec fn base_char(d: nat) -> char {
    if d == 0 {
        'A'
    } else if d == 1 {
        'C'
    } else if d == 2 {
        'G'
    } else {
        'T'
    }
}

/// The packed value of a base string: the leftmost base is most significant.
pub open spec fn pack_spec(s: Seq<char>) -> nat
    decreases s.len(),
{
    if s.len() == 0 {
        0
    } else {
        pack_spec(s.drop_last()) * 4 + base_val(s.last())
    }
}

/// The base string of a packed value, reading k two-bit codes from the
/// most significant end; bits above the low 2k are ignored.
pub open spec fn unpack_spec(v: nat, k: nat) -> Seq<char>
    decreases k,
{
    if k == 0 {
        Seq::empty()
    } else {
        unpack_spec(v / 4, (k - 1) as nat).push(base_char(v % 4))
    }
}

pub proof fn lemma_pow4_32()
    ensures
        pow4(32) == 0x10000000000000000,
{
    reveal_with_fuel(pow4, 33);
}

pub proof fn lemma_pow4_pos(n: nat)
    ensures
        pow4(n) >= 1,
    decreases n,
{
    if n > 0 {
        lemma_pow4_pos((n - 1) as nat);
    }
}

pub proof fn lemma_pow4_monotonic(i: nat, j: nat)
    requires
        i <= j,
    ensures
        pow4(i) <= pow4(j),
    decreases j,
{
    lemma_pow4_pos(i);
    if i < j {
        lemma_pow4_monotonic(i, (j - 1) as nat);
    }
}

/// A packed base string of length k uses fewer than 4^k values.
pub proof fn lemma_pack_bound(s: Seq<char>)
    ensures
        pack_spec(s) < pow4(s.len()),
    decreases s.len(),
{
    if s.len() > 0 {
        lemma_pack_bound(s.drop_last());
    }
}

/// Unpacking yields exactly k characters.
pub proof fn lemma_unpack_len(v: nat, k: nat)
    ensures
        unpack_spec(v, k).len() == k,
    decreases k,
{
    if k > 0 {
        lemma_unpack_len(v / 4, (k - 1) as nat);
    }
}

/// Packing the text unpacked from a value recovers the value, provided the
/// value fits in k two-bit codes.
pub proof fn lemma_pack_unpack(v: nat, k: nat)
    requires
        v < pow4(k),
    ensures
        pack_spec(unpack_spec(v, k)) == v,
    decreases k,
{
    if k == 0 {
        assert(v == 0);
    } else {
        let rest = unpack_spec(v / 4, (k - 1) as nat);
        let whole = rest.push(base_char(v % 4));
        assert(whole.drop_last() =~= rest);
        assert(whole.last() == base_char(v % 4));
        assert(v / 4 < pow4((k - 1) as nat)) by {
            assert(pow4(k) == 4 * pow4((k - 1) as nat));
            assert(v / 4 < pow4((k - 1) as nat)) by (nonlinear_arith)
                requires
                    v < 4 * pow4((k - 1) as nat),
            ;
        }
        lemma_pack_unpack(v / 4, (k - 1) as nat);
        assert(base_val(base_char(v % 4)) == v % 4);
        assert(pack_spec(whole) == (v / 4) * 4 + v % 4);
        assert((v / 4) * 4 + v % 4 == v) by (nonlinear_arith);
    }
}

/// Unpacking the value packed from upper-case base text recovers the text.
pub proof fn lemma_unpack_pack(s: Seq<char>)
    requires
        forall|i: int| 0 <= i < s.len() ==> s[i] == base_char(base_val(#[trigger] s[i])),
    ensures
        unpack_spec(pack_spec(s), s.len()) =~= s,
    decreases s.len(),
{
    if s.len() > 0 {
        let front = s.drop_last();
        let p = pack_spec(s);
        assert(p == pack_spec(front) * 4 + base_val(s.last()));
        assert(forall|i: int|
            0 <= i < front.len() ==> front[i] == base_char(base_val(#[trigger] front[i])));
        assert(p / 4 == pack_spec(front) && p % 4 == base_val(s.last())) by (nonlinear_arith)
            requires
                p == pack_spec(front) * 4 + base_val(s.last()),
                base_val(s.last()) < 4,
        ;
        lemma_unpack_pack(front);
        assert(base_char(base_val(s.last())) == s.last());
    }
}

/// Packs base text into a `(value, length)` pair, leftmost base most
/// significant. The text must fit in a 64-bit value at two bits per base.
pub fn pack_kmer(s: &str) -> (r: (u64, u8))
    requires
        s@.len() <= 32,
    ensures
        r.0 == pack_spec(s@),
        r.1 == s@.len(),
{
    let len = s.unicode_len();
    let mut acc: u64 = 0;
    let mut i: usize = 0;
    proof {
        assert(s@.take(0) =~= Seq::<char>::empty());
    }
    while i < len
        invariant
            i <= len,
            len == s@.len() <= 32,
            acc == pack_spec(s@.take(i as int)),
            acc < pow4(i as nat),
        decreases len - i,
    {
        let c = s.get_char(i);
        let b: u64 = match c {
            'A' | 'a' => 0,
            'C' | 'c' => 1,
            'G' | 'g' => 2,
            'T' | 't' => 3,
            _ => 0,
        };
        proof {
            assert(b == base_val(s@[i as int]));
            lemma_pow4_monotonic((i + 1) as nat, 32);
            lemma_pow4_32();
            assert(acc * 4 + b < pow4((i + 1) as nat));
            assert(s@.take(i + 1).drop_last() =~= s@.take(i as int));
            assert(s@.take(i + 1).last() == s@[i as int]);
        }
        acc = acc * 4 + b;
        i = i + 1;
    }
    proof {
        assert(s@.take(len as int) =~= s@);
    }
    (acc, len as u8)
}

/// Unpacks a `(value, length)` pair into upper-case base text.
pub fn unpack_kmer(v: u64, k: u8) -> (s: String)
    ensures
        s@ == unpack_spec(v as nat, k as nat),
    decreases k,
{
    if k == 0 {
        let s = String::new();
        proof {
            assert(s@ =~= unpack_spec(v as nat, 0));
        }
        s
    } else {
        let mut s = unpack_kmer(v / 4, k - 1);
        let d = v % 4;
        let piece: &'static str = if d == 0 {
            "A"
        } else if d == 1 {
            "C"
        } else if d == 2 {
            "G"
        } else {
            "T"
        };
        proof {
            reveal_strlit("A");
            reveal_strlit("C");
            reveal_strlit("G");
            reveal_strlit("T");
            assert(piece@ =~= seq![base_char((v % 4) as nat)]);
        }
        s.append(piece);
        proof {
            assert(s@ =~= unpack_spec((v / 4) as nat, (k - 1) as nat).push(base_char(
                (v % 4) as nat,
            )));
        }
        s
    }
}

} // verus!
