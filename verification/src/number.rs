//! The numeric-literal grammar: decides whether a lexeme text reads fully
//! as a signed integer or a floating-point number.
//!
//! The grammar is the decimal format accepted by the standard library's
//! number parsing:
//!
//! ```text
//! Number   ::= Sign? ( 'inf' | 'infinity' | 'nan' | Decimal )
//! Decimal  ::= ( Digit+ | Digit+ '.' Digit* | Digit* '.' Digit+ ) Exp?
//! Exp      ::= ('e' | 'E') Sign? Digit+
//! ```
//!
//! with the three special words matched case-insensitively.

use vstd::prelude::*;

use crate::text::chars_of;
use crate::vocab::is_digit_char;

verus! {

/// `s` without its leading sign character, if it has one.
pub open spec fn strip_sign(s: Seq<char>) -> Seq<char> {
    if s.len() >= 1 && (s[0] == '+' || s[0] == '-') {
        s.skip(1)
    } else {
        s
    }
}

/// Every character of `s` is a decimal digit.
pub open spec fn all_digits(s: Seq<char>) -> bool {
    forall|i: int| 0 <= i < s.len() ==> is_digit_char(#[trigger] s[i])
}

/// `a` matches the lowercase ASCII letter `l`, ignoring case.
pub open spec fn ci_eq_char(a: char, l: char) -> bool {
    a == l || ('a' <= l && l <= 'z' && a as u32 == l as u32 - 32)
}

/// `b` is one of the special floating-point words `inf`, `infinity`,
/// `nan`, in any letter case.
pub open spec fn is_special_float_text(b: Seq<char>) -> bool {
    ||| (b.len() == 3 && ci_eq_char(b[0], 'i') && ci_eq_char(b[1], 'n') && ci_eq_char(b[2], 'f'))
    ||| (b.len() == 8 && ci_eq_char(b[0], 'i') && ci_eq_char(b[1], 'n') && ci_eq_char(b[2], 'f')
        && ci_eq_char(b[3], 'i') && ci_eq_char(b[4], 'n') && ci_eq_char(b[5], 'i') && ci_eq_char(
        b[6],
        't',
    ) && ci_eq_char(b[7], 'y'))
    ||| (b.len() == 3 && ci_eq_char(b[0], 'n') && ci_eq_char(b[1], 'a') && ci_eq_char(b[2], 'n'))
}

/// An exponent marker.
pub open spec fn is_exp_char(c: char) -> bool {
    c == 'e' || c == 'E'
}

/// Index of the first exponent marker in `s`, or `s.len()` if there is
/// none.
pub open spec fn first_exp_index(s: Seq<char>) -> int
    decreases s.len(),
{
    if s.len() == 0 {
        0
    } else if is_exp_char(s[0]) {
        0
    } else {
        1 + first_exp_index(s.skip(1))
    }
}

/// Index of the first `.` in `s`, or `s.len()` if there is none.
pub open spec fn first_dot_index(s: Seq<char>) -> int
    decreases s.len(),
{
    if s.len() == 0 {
        0
    } else if s[0] == '.' {
        0
    } else {
        1 + first_dot_index(s.skip(1))
    }
}

/// The mantissa: digits, with at most one decimal point and at least one
/// digit overall.
pub open spec fn is_mantissa_text(m: Seq<char>) -> bool {
    let d = first_dot_index(m);
    if d == m.len() {
        m.len() >= 1 && all_digits(m)
    } else {
        all_digits(m.take(d)) && all_digits(m.skip(d + 1)) && m.len() >= 2
    }
}

/// The exponent body after its marker: an optional sign, then at least
/// one digit.
pub open spec fn is_exponent_text(t: Seq<char>) -> bool {
    let u = strip_sign(t);
    u.len() >= 1 && all_digits(u)
}

/// `b` (sign already stripped) is a decimal number: a mantissa, then
/// optionally an exponent marker with its exponent.
pub open spec fn is_decimal_text(b: Seq<char>) -> bool {
    let k = first_exp_index(b);
    is_mantissa_text(b.take(k)) && (k == b.len() || is_exponent_text(b.skip(k + 1)))
}

/// `s` reads fully as a number under the numeric-literal grammar.
pub open spec fn is_number_text(s: Seq<char>) -> bool {
    let b = strip_sign(s);
    is_special_float_text(b) || is_decimal_text(b)
}

proof fn lemma_first_exp_index_at(s: Seq<char>, m: int)
    requires
        0 <= m <= s.len(),
        forall|j: int| 0 <= j < m ==> !is_exp_char(#[trigger] s[j]),
        m < s.len() ==> is_exp_char(s[m]),
    ensures
        first_exp_index(s) == m,
    decreases s.len(),
{
    if s.len() == 0 {
    } else if is_exp_char(s[0]) {
        assert(m == 0);
    } else {
        assert(m >= 1);
        let t = s.skip(1);
        assert(forall|j: int| 0 <= j < m - 1 ==> !is_exp_char(#[trigger] t[j]));
        assert(m - 1 < t.len() ==> is_exp_char(t[m - 1]));
        lemma_first_exp_index_at(t, m - 1);
    }
}

proof fn lemma_first_dot_index_at(s: Seq<char>, m: int)
    requires
        0 <= m <= s.len(),
        forall|j: int| 0 <= j < m ==> #[trigger] s[j] != '.',
        m < s.len() ==> s[m] == '.',
    ensures
        first_dot_index(s) == m,
    decreases s.len(),
{
    if s.len() == 0 {
    } else if s[0] == '.' {
        assert(m == 0);
    } else {
        assert(m >= 1);
        let t = s.skip(1);
        assert(forall|j: int| 0 <= j < m - 1 ==> #[trigger] t[j] != '.');
        lemma_first_dot_index_at(t, m - 1);
    }
}

/// Exec check that every character of `v` in `[lo, hi)` is a digit.
fn digits_in_range(v: &Vec<char>, lo: usize, hi: usize) -> (r: bool)
    requires
        lo <= hi <= v@.len(),
    ensures
        r == all_digits(v@.subrange(lo as int, hi as int)),
{
    let mut i: usize = lo;
    while i < hi
        invariant
            lo <= i <= hi <= v@.len(),
            forall|j: int| lo <= j < i ==> is_digit_char(#[trigger] v@[j]),
        decreases hi - i,
    {
        if !('0' <= v[i] && v[i] <= '9') {
            assert(!all_digits(v@.subrange(lo as int, hi as int))) by {
                assert(v@.subrange(lo as int, hi as int)[i - lo] == v@[i as int]);
            }
            return false;
        }
        i = i + 1;
    }
    assert(all_digits(v@.subrange(lo as int, hi as int))) by {
        assert(forall|j: int|
            0 <= j < hi - lo ==> #[trigger] v@.subrange(lo as int, hi as int)[j] == v@[j + lo]);
    }
    true
}

/// Exec check that `a` matches the lowercase letter `l` ignoring case.
fn ci_char(a: char, l: char) -> (r: bool)
    ensures
        r == ci_eq_char(a, l),
{
    a == l || ('a' <= l && l <= 'z' && a as u32 == l as u32 - 32)
}

/// Exec check that the characters of `v` from `start` on spell one of
/// the special floating-point words, ignoring case.
fn special_word(v: &Vec<char>, start: usize) -> (r: bool)
    requires
        start <= v@.len(),
    ensures
        r == is_special_float_text(v@.skip(start as int)),
{
    let ghost b = v@.skip(start as int);
    let n = v.len();
    let m = n - start;
    if m == 3 && ci_char(v[start], 'i') && ci_char(v[start + 1], 'n') && ci_char(v[start + 2], 'f')
    {
        return true;
    }
    if m == 8 && ci_char(v[start], 'i') && ci_char(v[start + 1], 'n') && ci_char(v[start + 2], 'f')
        && ci_char(v[start + 3], 'i') && ci_char(v[start + 4], 'n') && ci_char(v[start + 5], 'i')
        && ci_char(v[start + 6], 't') && ci_char(v[start + 7], 'y') {
        return true;
    }
    if m == 3 && ci_char(v[start], 'n') && ci_char(v[start + 1], 'a') && ci_char(v[start + 2], 'n')
    {
        return true;
    }
    proof {
        assert(!is_special_float_text(b));
    }
    false
}

/// Exec check that the characters of `v` in `[start, k)` form a
/// mantissa.
fn mantissa_in_range(v: &Vec<char>, start: usize, k: usize) -> (r: bool)
    requires
        start <= k <= v@.len(),
    ensures
        r == is_mantissa_text(v@.subrange(start as int, k as int)),
{
    let ghost mant = v@.subrange(start as int, k as int);
    let mut d: usize = start;
    while d < k && v[d] != '.'
        invariant
            start <= d <= k <= v@.len(),
            forall|j: int| start <= j < d ==> #[trigger] v@[j] != '.',
        decreases k - d,
    {
        d = d + 1;
    }
    proof {
        assert(forall|j: int| 0 <= j < d - start ==> #[trigger] mant[j] != '.');
        if d < k {
            assert(mant[d - start] == '.');
        }
        lemma_first_dot_index_at(mant, d - start);
    }
    if d == k {
        // No decimal point: at least one digit, all digits.
        let all = k - start >= 1 && digits_in_range(v, start, k);
        proof {
            assert(v@.subrange(start as int, k as int) =~= mant);
            assert(all == is_mantissa_text(mant));
        }
        all
    } else {
        // One decimal point at `d`: digits on both sides, one somewhere.
        let all = digits_in_range(v, start, d) && digits_in_range(v, d + 1, k) && k - start >= 2;
        proof {
            assert(v@.subrange(start as int, d as int) =~= mant.take(d - start));
            assert(v@.subrange(d + 1 as int, k as int) =~= mant.skip(d - start + 1));
            assert(all == is_mantissa_text(mant));
        }
        all
    }
}

/// Exec check that the characters of `v` from `after_marker` on form an
/// exponent body: an optional sign, then at least one digit.
fn exponent_in_range(v: &Vec<char>, after_marker: usize) -> (r: bool)
    requires
        after_marker <= v@.len(),
    ensures
        r == is_exponent_text(v@.skip(after_marker as int)),
{
    let ghost expb = v@.skip(after_marker as int);
    let n = v.len();
    let es: usize = if after_marker < n && (v[after_marker] == '+' || v[after_marker] == '-') {
        after_marker + 1
    } else {
        after_marker
    };
    proof {
        assert(strip_sign(expb) =~= v@.subrange(es as int, n as int));
    }
    let exp_ok = n - es >= 1 && digits_in_range(v, es, n);
    proof {
        assert(v@.subrange(es as int, n as int) =~= strip_sign(expb));
    }
    exp_ok
}

/// Decides whether `s` reads fully as a number: a signed integer or a
/// floating-point literal (including the special words `inf`, `infinity`
/// and `nan` in any case, as the standard decimal format has them).
pub fn is_number(s: &str) -> (r: bool)
    ensures
        r == is_number_text(s@),
{
    let v = chars_of(s);
    let n = v.len();
    let start: usize = if n >= 1 && (v[0] == '+' || v[0] == '-') {
        1
    } else {
        0
    };
    let ghost b = strip_sign(s@);
    proof {
        assert(b =~= s@.skip(start as int));
    }
    if special_word(&v, start) {
        return true;
    }
    // Split at the first exponent marker.
    let mut k: usize = start;
    while k < n && !(v[k] == 'e' || v[k] == 'E')
        invariant
            start <= k <= n,
            n == v@.len(),
            forall|j: int| start <= j < k ==> !is_exp_char(#[trigger] v@[j]),
        decreases n - k,
    {
        k = k + 1;
    }
    proof {
        assert(forall|j: int| 0 <= j < k - start ==> !is_exp_char(#[trigger] b[j]));
        lemma_first_exp_index_at(b, k - start);
    }
    let mantissa_ok = mantissa_in_range(&v, start, k);
    proof {
        assert(v@.subrange(start as int, k as int) =~= b.take(k - start));
    }
    if !mantissa_ok {
        return false;
    }
    if k == n {
        return true;
    }
    let exp_ok = exponent_in_range(&v, k + 1);
    proof {
        assert(v@.skip(k + 1 as int) =~= b.skip(k - start + 1));
    }
    exp_ok
}

} // verus!
