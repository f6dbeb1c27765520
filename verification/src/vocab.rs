//! The closed vocabularies of the language: character classes the scanner
//! works with, and the word lists the classifier checks lexeme texts
//! against.

use vstd::prelude::*;

verus! {

/// The quote character that opens and closes a literal.
pub const LITERAL_DELIMITER: char = '"';

/// Structural whitespace: ends the current lexeme outside a literal.
pub const WHITESPACE: char = ' ';

/// Structural newline: ends the current lexeme and advances the line
/// counter outside a literal.
pub const NEWLINE: char = '\n';

/// The operator character set.
pub open spec fn is_operator_char(c: char) -> bool {
    c == '+' || c == '-' || c == '*' || c == '/' || c == '=' || c == '<' || c == '>' || c == '%'
        || c == '^'
}

/// Exec check for membership in the operator character set.
pub fn operator_char(c: char) -> (r: bool)
    ensures
        r == is_operator_char(c),
{
    c == '+' || c == '-' || c == '*' || c == '/' || c == '=' || c == '<' || c == '>' || c == '%'
        || c == '^'
}

/// The punctuation character set.
pub open spec fn is_punctuation_char(c: char) -> bool {
    c == ':' || c == '.' || c == ',' || c == '(' || c == ')' || c == '{' || c == '}' || c == ';'
}

/// Exec check for membership in the punctuation character set.
pub fn punctuation_char(c: char) -> (r: bool)
    ensures
        r == is_punctuation_char(c),
{
    c == ':' || c == '.' || c == ',' || c == '(' || c == ')' || c == '{' || c == '}' || c == ';'
}

/// Leading characters that may start a two-character operator.
pub open spec fn is_two_char_lead(c: char) -> bool {
    c == '>' || c == '!' || c == '<' || c == '='
}

/// The decimal digits.
pub open spec fn is_digit_char(c: char) -> bool {
    '0' <= c && c <= '9'
}

/// Exec check for a decimal digit.
pub fn digit_char(c: char) -> (r: bool)
    ensures
        r == is_digit_char(c),
{
    '0' <= c && c <= '9'
}

/// The reserved words of the language.
pub open spec fn is_keyword_text(s: Seq<char>) -> bool {
    ||| s == "structure"@
    ||| s == "function"@
    ||| s == "const"@
    ||| s == "let"@
    ||| s == "if"@
    ||| s == "else"@
    ||| s == "elif"@
    ||| s == "while"@
    ||| s == "for"@
    ||| s == "nothing"@
    ||| s == "num"@
    ||| s == "float"@
    ||| s == "char"@
    ||| s == "bool"@
    ||| s == "addr"@
    ||| s == "addrOf"@
    ||| s == "dataAt"@
}

/// The relational-operator lexemes.
pub open spec fn is_relop_text(s: Seq<char>) -> bool {
    ||| s == "<"@
    ||| s == "<="@
    ||| s == ">="@
    ||| s == "=="@
    ||| s == ">"@
    ||| s == "!="@
}

/// The mathematical-operator lexemes.  The set overlaps the relational set
/// on nothing, but a bare `=` belongs here and only here.
pub open spec fn is_mathematical_op_text(s: Seq<char>) -> bool {
    ||| s == "="@
    ||| s == "+"@
    ||| s == "-"@
    ||| s == "*"@
    ||| s == "/"@
    ||| s == "%"@
    ||| s == "^"@
}

/// The logical-operator lexemes: textual identifiers, not symbols.
pub open spec fn is_logical_op_text(s: Seq<char>) -> bool {
    ||| s == "and"@
    ||| s == "or"@
    ||| s == "xor"@
    ||| s == "bitwiseAnd"@
    ||| s == "bitwiseOr"@
    ||| s == "bitwiseXor"@
}

/// Character-by-character string comparison, decided by the views alone.
pub fn text_eq(a: &str, b: &str) -> (r: bool)
    ensures
        r == (a@ == b@),
{
    let n = a.unicode_len();
    if n != b.unicode_len() {
        return false;
    }
    let mut i: usize = 0;
    while i < n
        invariant
            i <= n,
            n == a@.len(),
            n == b@.len(),
            forall|j: int| 0 <= j < i ==> a@[j] == b@[j],
        decreases n - i,
    {
        if a.get_char(i) != b.get_char(i) {
            return false;
        }
        i = i + 1;
    }
    proof {
        assert(a@ =~= b@);
    }
    true
}

/// Exec check for membership in the keyword list.
pub fn keyword_text(s: &str) -> (r: bool)
    ensures
        r == is_keyword_text(s@),
{
    text_eq(s, "structure") || text_eq(s, "function") || text_eq(s, "const") || text_eq(s, "let")
        || text_eq(s, "if") || text_eq(s, "else") || text_eq(s, "elif") || text_eq(s, "while")
        || text_eq(s, "for") || text_eq(s, "nothing") || text_eq(s, "num") || text_eq(s, "float")
        || text_eq(s, "char") || text_eq(s, "bool") || text_eq(s, "addr") || text_eq(s, "addrOf")
        || text_eq(s, "dataAt")
}

/// Exec check for membership in the relational-operator list.
pub fn relop_text(s: &str) -> (r: bool)
    ensures
        r == is_relop_text(s@),
{
    text_eq(s, "<") || text_eq(s, "<=") || text_eq(s, ">=") || text_eq(s, "==") || text_eq(s, ">")
        || text_eq(s, "!=")
}

/// Exec check for membership in the mathematical-operator list.
pub fn mathematical_op_text(s: &str) -> (r: bool)
    ensures
        r == is_mathematical_op_text(s@),
{
    text_eq(s, "=") || text_eq(s, "+") || text_eq(s, "-") || text_eq(s, "*") || text_eq(s, "/")
        || text_eq(s, "%") || text_eq(s, "^")
}

/// Exec check for membership in the logical-operator list.
pub fn logical_op_text(s: &str) -> (r: bool)
    ensures
        r == is_logical_op_text(s@),
{
    text_eq(s, "and") || text_eq(s, "or") || text_eq(s, "xor") || text_eq(s, "bitwiseAnd")
        || text_eq(s, "bitwiseOr") || text_eq(s, "bitwiseXor")
}

} // verus!
