//! Decimal text for hash values. Hashes travel as decimal strings so that
//! 64-bit values survive platforms whose native number type loses
//! precision; this module renders and parses that text with exact
//! contracts.

use vstd::prelude::*;

verus! {

pub open spec fn is_digit(c: char) -> bool {
    48 <= c as u32 <= 57
}

pub open spec fn digit_val(c: char) -> nat {
    (c as u32 - 48) as nat
}

pub open spec fn digit_char(d: nat) -> char {
    ((48 + d) as u8) as char
}

/// The canonical decimal rendering of n: no sign, no leading zero
/// except for n == 0 itself.
pub open spec fn dec_chars(n: nat) -> Seq<char>
    decreases n,
{
    if n < 10 {
        seq![digit_char(n)]
    } else {
        dec_chars(n / 10) + seq![digit_char(n % 10)]
    }
}

/// Non-empty text made of decimal digits only. Leading zeros are
/// accepted on input.
pub open spec fn digits_wf(s: Seq<char>) -> bool {
    s.len() > 0 && forall|i: int| 0 <= i < s.len() ==> is_digit(#[trigger] s[i])
}

/// The number the digit text stands for.
pub open spec fn dec_value(s: Seq<char>) -> nat
    decreases s.len(),
{
    if s.len() == 0 {
        0
    } else {
        dec_value(s.drop_last()) * 10 + digit_val(s.last())
    }
}

/// The text parses as a 64-bit value: digits only, and small enough.
pub open spec fn parses_to_u64(s: Seq<char>) -> bool {
    digits_wf(s) && dec_value(s) <= u64::MAX
}

proof fn lemma_dec_value_step(s: Seq<char>, j: int)
    requires
        0 <= j < s.len(),
    ensures
        dec_value(s.take(j + 1)) == dec_value(s.take(j)) * 10 + digit_val(s[j]),
{
    assert(s.take(j + 1).drop_last() =~= s.take(j));
    assert(s.take(j + 1).last() == s[j]);
}

/// Extending digit text never shrinks its value.
proof fn lemma_dec_value_prefix(s: Seq<char>, i: int)
    requires
        0 <= i <= s.len(),
    ensures
        dec_value(s) >= dec_value(s.take(i)),
    decreases s.len() - i,
{
    if i < s.len() {
        lemma_dec_value_step(s, i);
        lemma_dec_value_prefix(s, i + 1);
        assert(dec_value(s.take(i + 1)) >= dec_value(s.take(i)));
    } else {
        assert(s.take(i) =~= s);
    }
}

/// The canonical rendering is digit text whose value is the number
/// rendered.
pub proof fn lemma_dec_chars_value(n: nat)
    ensures
        digits_wf(dec_chars(n)),
        dec_value(dec_chars(n)) == n,
    decreases n,
{
    if n < 10 {
        reveal_with_fuel(dec_value, 3);
        let s = seq![digit_char(n)];
        assert(s.drop_last() =~= Seq::<char>::empty());
        assert(s.last() == digit_char(n));
        assert(digit_val(digit_char(n)) == n);
        assert(dec_value(s) == n);
    } else {
        lemma_dec_chars_value(n / 10);
        let front = dec_chars(n / 10);
        let s = dec_chars(n);
        assert(s == front + seq![digit_char(n % 10)]);
        assert(s.drop_last() =~= front);
        assert(s.last() == digit_char(n % 10));
        assert(digit_val(digit_char(n % 10)) == n % 10);
        assert(dec_value(s) == (n / 10) * 10 + n % 10);
        assert((n / 10) * 10 + n % 10 == n) by (nonlinear_arith);
        assert(forall|i: int| 0 <= i < s.len() ==> is_digit(#[trigger] s[i]));
    }
}

fn digit_str(d: u64) -> (s: &'static str)
    requires
        d < 10,
    ensures
        s@ =~= seq![digit_char(d as nat)],
{
    proof {
        reveal_strlit("0");
        reveal_strlit("1");
        reveal_strlit("2");
        reveal_strlit("3");
        reveal_strlit("4");
        reveal_strlit("5");
        reveal_strlit("6");
        reveal_strlit("7");
        reveal_strlit("8");
        reveal_strlit("9");
    }
    match d {
        0 => "0",
        1 => "1",
        2 => "2",
        3 => "3",
        4 => "4",
        5 => "5",
        6 => "6",
        7 => "7",
        8 => "8",
        _ => "9",
    }
}

/// Renders a 64-bit value as canonical decimal text.
pub fn u64_to_dec(n: u64) -> (s: String)
    ensures
        s@ == dec_chars(n as nat),
    decreases n,
{
    if n < 10 {
        let s = String::from_str(digit_str(n));
        proof {
            assert(s@ =~= dec_chars(n as nat));
        }
        s
    } else {
        proof {
            assert(n / 10 < n) by (nonlinear_arith)
                requires
                    n >= 10,
            ;
        }
        let mut s = u64_to_dec(n / 10);
        s.append(digit_str(n % 10));
        proof {
            assert(s@ =~= dec_chars(n as nat));
        }
        s
    }
}

/// Parses decimal digit text as a 64-bit value. Returns the value
/// exactly when the text is non-empty, all digits, and in range;
/// otherwise nothing. Leading zeros are accepted; signs are not.
pub fn parse_dec(s: &str) -> (r: Option<u64>)
    ensures
        r is Some <==> parses_to_u64(s@),
        r is Some ==> r->Some_0 == dec_value(s@),
{
    let len = s.unicode_len();
    if len == 0 {
        return None;
    }
    let mut acc: u64 = 0;
    let mut i: usize = 0;
    proof {
        assert(s@.take(0) =~= Seq::<char>::empty());
    }
    while i < len
        invariant
            0 <= i <= len,
            len == s@.len(),
            acc == dec_value(s@.take(i as int)),
            dec_value(s@.take(i as int)) <= u64::MAX,
            forall|j: int| 0 <= j < i ==> is_digit(#[trigger] s@[j]),
        decreases len - i,
    {
        let c = s.get_char(i);
        let code = c as u32;
        if code < 48 || code > 57 {
            proof {
                assert(!is_digit(s@[i as int]));
            }
            return None;
        }
        let d: u64 = (code - 48) as u64;
        let wide: u128 = acc as u128 * 10 + d as u128;
        proof {
            lemma_dec_value_step(s@, i as int);
            assert(digit_val(s@[i as int]) == d);
        }
        if wide > u64::MAX as u128 {
            proof {
                assert(dec_value(s@.take(i + 1)) > u64::MAX);
                lemma_dec_value_prefix(s@, i + 1);
            }
            return None;
        }
        acc = (wide) as u64;
        i = i + 1;
    }
    proof {
        assert(s@.take(len as int) =~= s@);
    }
    Some(acc)
}

} // verus!
