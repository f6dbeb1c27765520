//! Conversions between strings and character vectors.  The scanner works
//! over a character vector so that each character is read once, and turns
//! accumulated characters back into `String` lexeme texts.

use vstd::prelude::*;

verus! {

/// Collects the characters of a string slice into a vector, in order.
pub fn chars_of(s: &str) -> (r: Vec<char>)
    ensures
        r@ == s@,
{
    let n = s.unicode_len();
    let mut v: Vec<char> = Vec::new();
    let mut i: usize = 0;
    while i < n
        invariant
            i <= n,
            n == s@.len(),
            v@ =~= s@.take(i as int),
        decreases n - i,
    {
        v.push(s.get_char(i));
        i = i + 1;
    }
    proof {
        assert(v@ =~= s@);
    }
    v
}

/// Relies on `String: FromIterator<&char>`: collecting the characters of
/// the vector yields the string with exactly those characters, in order.
#[verifier::external_body]
pub(crate) fn string_from_chars(v: &Vec<char>) -> (r: String)
    ensures
        r@ == v@,
{
    v.iter().collect()
}

/// The one-character string holding `c`.
pub fn char_lexeme_string(c: char) -> (r: String)
    ensures
        r@ == seq![c],
{
    let mut t: Vec<char> = Vec::new();
    t.push(c);
    proof {
        assert(t@ =~= seq![c]);
    }
    string_from_chars(&t)
}

} // verus!
