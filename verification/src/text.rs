//! Verified decimal text machinery: parsing signed integers out of
//! text payloads and rendering unsigned integers into text, with the
//! exact grammar stated as spec functions.

use vstd::prelude::*;

verus! {

pub open spec fn is_digit(c: char) -> bool {
    '0' <= c && c <= '9'
}

pub open spec fn digit_val(c: char) -> int {
    c as int - '0' as int
}

pub open spec fn all_digits(s: Seq<char>) -> bool {
    forall|i: int| 0 <= i < s.len() ==> is_digit(#[trigger] s[i])
}

/// The non-negative integer a digit string denotes.
pub open spec fn digits_val(s: Seq<char>) -> int
    decreases s.len(),
{
    if s.len() == 0 {
        0
    } else {
        digits_val(s.drop_last()) * 10 + digit_val(s.last())
    }
}

/// The strict signed decimal grammar: an optional leading minus sign,
/// then one or more digits and nothing else.  `None` when the text is
/// not of that shape.
pub open spec fn dec_val(s: Seq<char>) -> Option<int> {
    if s.len() == 0 {
        None
    } else if s[0] == '-' {
        if s.len() > 1 && all_digits(s.skip(1)) {
            Some(-digits_val(s.skip(1)))
        } else {
            None
        }
    } else if all_digits(s) {
        Some(digits_val(s))
    } else {
        None
    }
}

pub proof fn lemma_digits_val_nonneg(s: Seq<char>)
    requires
        all_digits(s),
    ensures
        digits_val(s) >= 0,
    decreases s.len(),
{
    if s.len() > 0 {
        assert(all_digits(s.drop_last())) by {
            assert(forall|i: int|
                0 <= i < s.len() - 1 ==> is_digit(#[trigger] s.drop_last()[i]) == is_digit(s[i]));
        }
        lemma_digits_val_nonneg(s.drop_last());
    }
}

/// A digit string's value only grows as more digits are appended.
pub proof fn lemma_digits_val_mono(s: Seq<char>, i: int)
    requires
        all_digits(s),
        0 <= i <= s.len(),
    ensures
        digits_val(s.take(i)) <= digits_val(s),
    decreases s.len() - i,
{
    if i < s.len() {
        lemma_digits_val_mono(s, i + 1);
        let t = s.take(i + 1);
        assert(t.drop_last() =~= s.take(i));
        assert(all_digits(t.drop_last())) by {
            assert(forall|j: int|
                0 <= j < i ==> is_digit(#[trigger] t.drop_last()[j]) == is_digit(s[j]));
        }
        lemma_digits_val_nonneg(t.drop_last());
        assert(t.last() == s[i]);
        assert(is_digit(s[i]));
        assert(digits_val(t) == digits_val(s.take(i)) * 10 + digit_val(t.last()));
        assert(digits_val(s.take(i)) * 10 >= digits_val(s.take(i)));
        assert(digits_val(s.take(i)) <= digits_val(t));
    } else {
        assert(s.take(i) =~= s);
    }
}

/// Parses the magnitude and sign of a strict decimal string, as far
/// as a `u64` can hold the magnitude.
///
/// Returns `Some((neg, mag))` with `dec_val` equal to the signed
/// value; `None` when the grammar is violated or the magnitude
/// exceeds `u64::MAX`.
pub fn parse_decimal(s: &str) -> (r: Option<(bool, u64)>)
    ensures
        match r {
            Some((neg, mag)) => dec_val(s@) == Some(
                if neg {
                    -(mag as int)
                } else {
                    mag as int
                },
            ),
            None => dec_val(s@) is None || (dec_val(s@) matches Some(v) && (v > u64::MAX || v
                < -(u64::MAX as int))),
        },
{
    let n = s.unicode_len();
    if n == 0 {
        return None;
    }
    let first = s.get_char(0);
    let neg = first == '-';
    let start: usize = if neg {
        1
    } else {
        0
    };
    if start >= n {
        return None;
    }
    let ghost digits = if neg {
        s@.skip(1)
    } else {
        s@
    };
    let mut mag: u64 = 0;
    let mut i: usize = start;
    while i < n
        invariant
            start <= i <= n,
            n == s@.len(),
            n > 0,
            neg == (s@[0] == '-'),
            start == (if neg { 1int } else { 0int }),
            digits == (if neg { s@.skip(1) } else { s@ }),
            all_digits(digits.take(i - start)),
            mag == digits_val(digits.take(i - start)),
        decreases n - i,
    {
        let c = s.get_char(i);
        if !('0' <= c && c <= '9') {
            proof {
                assert(digits[i - start] == s@[i as int]);
                assert(!is_digit(digits[i - start]));
                assert(!all_digits(digits));
                if neg {
                    assert(s@[0] == '-');
                    assert(dec_val(s@) is None);
                } else {
                    assert(s@[0] != '-');
                    assert(dec_val(s@) is None);
                }
            }
            return None;
        }
        let d: u64 = (c as u32 as u64) - 48;
        if mag > (u64::MAX - d) / 10 {
            proof {
                let p = digits.take(i + 1 - start);
                assert(p.drop_last() =~= digits.take(i - start));
                assert(digits[i - start] == s@[i as int]);
                assert(p.last() == digits[i - start]);
                assert(digit_val(p.last()) == d);
                assert(digits_val(p) == mag * 10 + d);
                assert(mag * 10 + d > u64::MAX) by {
                    assert(mag >= (u64::MAX - d) / 10 + 1);
                    assert(((u64::MAX - d) / 10 + 1) * 10 + d > u64::MAX) by (nonlinear_arith)
                        requires
                            d < 10,
                    ;
                    assert(mag * 10 >= ((u64::MAX - d) / 10 + 1) * 10) by (nonlinear_arith)
                        requires
                            mag >= (u64::MAX - d) / 10 + 1,
                    ;
                }
                if all_digits(digits) {
                    lemma_digits_val_mono(digits, i + 1 - start);
                    assert(digits_val(digits) > u64::MAX);
                    if neg {
                        assert(s@[0] == '-');
                        assert(dec_val(s@) == Some(-digits_val(digits)));
                    } else {
                        assert(s@[0] != '-');
                        assert(dec_val(s@) == Some(digits_val(digits)));
                    }
                } else {
                    assert(dec_val(s@) is None);
                }
            }
            return None;
        }
        mag = mag * 10 + d;
        proof {
            let p = digits.take(i + 1 - start);
            assert(p.drop_last() =~= digits.take(i - start));
            assert(p.last() == digits[i - start]);
            assert(all_digits(p)) by {
                assert(forall|j: int|
                    0 <= j < p.len() ==> is_digit(#[trigger] p[j]) == is_digit(
                        digits.take(i - start).push(digits[i - start])[j],
                    ));
            }
        }
        i += 1;
    }
    proof {
        assert(digits.take(n - start) =~= digits);
    }
    Some((neg, mag))
}

pub open spec fn spec_digit_char(d: int) -> char {
    if d == 0 { '0' }
    else if d == 1 { '1' }
    else if d == 2 { '2' }
    else if d == 3 { '3' }
    else if d == 4 { '4' }
    else if d == 5 { '5' }
    else if d == 6 { '6' }
    else if d == 7 { '7' }
    else if d == 8 { '8' }
    else { '9' }
}

/// The canonical decimal rendering of a non-negative integer.
pub open spec fn dec_seq(n: int) -> Seq<char>
    decreases n,
{
    if n < 10 {
        seq![spec_digit_char(n)]
    } else {
        dec_seq(n / 10) + seq![spec_digit_char(n % 10)]
    }
}

fn digit_str(d: u64) -> (r: &'static str)
    requires
        d < 10,
    ensures
        r@ =~= seq![spec_digit_char(d as int)],
{
    proof {
        reveal_strlit("0");
        reveal_strlit("1");
        reveal_strlit("2");
        reveal_strlit("3");
        reveal_strlit("4");
        reveal_strlit("5");
        reveal_strlit("6");
        reveal_strlit("7");
        reveal_strlit("8");
        reveal_strlit("9");
    }
    if d == 0 { "0" }
    else if d == 1 { "1" }
    else if d == 2 { "2" }
    else if d == 3 { "3" }
    else if d == 4 { "4" }
    else if d == 5 { "5" }
    else if d == 6 { "6" }
    else if d == 7 { "7" }
    else if d == 8 { "8" }
    else { "9" }
}

/// Renders `n` in decimal.
pub fn u64_to_string(n: u64) -> (r: String)
    ensures
        r@ == dec_seq(n as int),
    decreases n,
{
    if n < 10 {
        String::from_str(digit_str(n))
    } else {
        let mut s = u64_to_string(n / 10);
        s.append(digit_str(n % 10));
        s
    }
}


/// Facts tying the decimal rendering back to its value: it is all
/// digits, non-empty, and denotes exactly `n`.
pub proof fn lemma_dec_seq_val(n: int)
    requires
        n >= 0,
    ensures
        all_digits(dec_seq(n)),
        digits_val(dec_seq(n)) == n,
        dec_seq(n).len() >= 1,
    decreases n,
{
    if n < 10 {
        assert(digits_val(dec_seq(n)) == digits_val(dec_seq(n).drop_last()) * 10 + digit_val(
            spec_digit_char(n),
        ));
        assert(dec_seq(n).drop_last() =~= Seq::<char>::empty());
    } else {
        lemma_dec_seq_val(n / 10);
        let s = dec_seq(n);
        assert(s.drop_last() =~= dec_seq(n / 10));
        assert(s.last() == spec_digit_char(n % 10));
        assert(digit_val(spec_digit_char(n % 10)) == n % 10);
        assert(digits_val(s) == (n / 10) * 10 + n % 10);
        assert(forall|i: int| 0 <= i < s.len() - 1 ==> s[i] == dec_seq(n / 10)[i]);
        assert(forall|i: int| 0 <= i < s.len() ==> is_digit(#[trigger] s[i]));
    }
}

/// The canonical text of a signed integer: the magnitude in decimal,
/// with a leading minus sign when negative.
pub open spec fn sint_dec(v: int) -> Seq<char> {
    if v >= 0 {
        dec_seq(v)
    } else {
        seq!['-'] + dec_seq(-v)
    }
}

/// The canonical signed rendering parses back to its value.
pub proof fn lemma_sint_dec_val(v: int)
    ensures
        dec_val(sint_dec(v)) == Some(v),
{
    if v >= 0 {
        lemma_dec_seq_val(v);
        let s = dec_seq(v);
        assert(s[0] != '-') by {
            assert(is_digit(s[0]));
        }
        assert(dec_val(sint_dec(v)) == Some(digits_val(s)));
    } else {
        lemma_dec_seq_val(-v);
        let s = seq!['-'] + dec_seq(-v);
        assert(s[0] == '-');
        assert(s.skip(1) =~= dec_seq(-v));
        assert(s.len() > 1);
        assert(dec_val(s) == Some(-digits_val(dec_seq(-v))));
    }
}

/// Renders a signed integer in decimal.
pub fn i64_to_string(v: i64) -> (r: String)
    ensures
        r@ == sint_dec(v as int),
{
    if v >= 0 {
        u64_to_string(v as u64)
    } else {
        let mag: u64 = if v == i64::MIN {
            9223372036854775808
        } else {
            (-v) as u64
        };
        proof {
            reveal_strlit("-");
        }
        let mut s = String::from_str("-");
        s.append(u64_to_string(mag).as_str());
        proof {
            assert(s@ =~= seq!['-'] + dec_seq(-(v as int)));
        }
        s
    }
}


/// Character-by-character string equality, with its meaning proved.
pub fn str_eq(a: &str, b: &str) -> (r: bool)
    ensures
        r == (a@ == b@),
{
    let la = a.unicode_len();
    let lb = b.unicode_len();
    if la != lb {
        return false;
    }
    let mut i: usize = 0;
    while i < la
        invariant
            0 <= i <= la,
            la == a@.len(),
            la == b@.len(),
            forall|k: int| 0 <= k < i ==> a@[k] == b@[k],
        decreases la - i,
    {
        if a.get_char(i) != b.get_char(i) {
            return false;
        }
        i += 1;
    }
    proof {
        assert(a@ =~= b@);
    }
    true
}

} // verus!
