//! The scanner: a single forward pass over the source characters with one
//! character of lookahead, producing the intermediate lexeme sequence or
//! failing at the first lexical error.
//!
//! The pass keeps an accumulator — nothing, a partially built identifier
//! or literal, or the first character of a pending two-character operator
//! — plus a running line counter and the character index, which is used
//! verbatim as a lexeme's starting column (it is not reset per line).
//!
//! The whole pass is mirrored, step for step, by the specification
//! function [`scan_loop`], and the executable scanner is proved to return
//! exactly what that function describes.

use vstd::prelude::*;

use crate::text::char_lexeme_string;
use crate::text::chars_of;
use crate::text::string_from_chars;
use crate::token::IntermediateToken;
use crate::token::IntermediateTokenType;
use crate::token::LexError;
use crate::token::LexemeView;
use crate::token::views_of_lexemes;
use crate::vocab::LITERAL_DELIMITER;
use crate::vocab::NEWLINE;
use crate::vocab::WHITESPACE;
use crate::vocab::is_operator_char;
use crate::vocab::is_punctuation_char;
use crate::vocab::is_digit_char;
use crate::vocab::is_two_char_lead;
use crate::vocab::operator_char;
use crate::vocab::punctuation_char;

verus! {

/// The scanner's accumulator: the lexeme being built, if any.
pub enum Accumulator {
    Empty,
    BuildingIdentifier { text: Vec<char>, line: u32, column: u32 },
    BuildingLiteral { text: Vec<char>, line: u32, column: u32 },
    PendingTwoCharOperator { first: char, line: u32, column: u32 },
}

/// Mathematical view of the accumulator.
pub ghost enum AccView {
    Empty,
    BuildingIdentifier { text: Seq<char>, line: u32, column: u32 },
    BuildingLiteral { text: Seq<char>, line: u32, column: u32 },
    PendingTwoCharOperator { first: char, line: u32, column: u32 },
}

impl View for Accumulator {
    type V = AccView;

    open spec fn view(&self) -> AccView {
        match self {
            Accumulator::Empty => AccView::Empty,
            Accumulator::BuildingIdentifier { text, line, column } => AccView::BuildingIdentifier {
                text: text@,
                line: *line,
                column: *column,
            },
            Accumulator::BuildingLiteral { text, line, column } => AccView::BuildingLiteral {
                text: text@,
                line: *line,
                column: *column,
            },
            Accumulator::PendingTwoCharOperator { first, line, column } => AccView::PendingTwoCharOperator {
                first: *first,
                line: *line,
                column: *column,
            },
        }
    }
}

/// The lexeme that flushing the accumulator would emit, if any.  A pending
/// two-character operator flushes as the one character it holds so far.
pub open spec fn acc_lexeme(acc: AccView) -> Option<LexemeView> {
    match acc {
        AccView::Empty => None,
        AccView::BuildingIdentifier { text, line, column } => Some(
            LexemeView {
                token_type: IntermediateTokenType::Identifier,
                text,
                line,
                column,
            },
        ),
        AccView::BuildingLiteral { text, line, column } => Some(
            LexemeView { token_type: IntermediateTokenType::Literal, text, line, column },
        ),
        AccView::PendingTwoCharOperator { first, line, column } => Some(
            LexemeView {
                token_type: IntermediateTokenType::Operator,
                text: seq![first],
                line,
                column,
            },
        ),
    }
}

/// The output sequence after flushing the accumulator into it.
pub open spec fn flushed(acc: AccView, out: Seq<LexemeView>) -> Seq<LexemeView> {
    match acc_lexeme(acc) {
        None => out,
        Some(l) => out.push(l),
    }
}

/// Whether `c` followed by `next` forms one of the two-character
/// operators `<=`, `>=`, `==`, `!=`.
pub open spec fn is_two_char_pair(c: char, next: Option<char>) -> bool {
    &&& next is Some
    &&& is_two_char_lead(c)
    &&& {
        ||| (c == '<' && next == Some('='))
        ||| (c == '>' && next == Some('='))
        ||| (c == '=' && next == Some('='))
        ||| (c == '!' && next == Some('='))
    }
}

/// The character after position `i`, if any.
pub open spec fn lookahead(s: Seq<char>, i: int) -> Option<char> {
    if i + 1 < s.len() {
        Some(s[i + 1])
    } else {
        None
    }
}

/// What the scanner returns at end of input: an open literal is an error,
/// any other open accumulator is flushed.
pub open spec fn scan_finish(line: u32, acc: AccView, out: Seq<LexemeView>) -> Result<
    Seq<LexemeView>,
    LexError,
> {
    match acc {
        AccView::BuildingLiteral { text, line: l, column } => Err(
            LexError::UnterminatedLiteral { line: l, column },
        ),
        _ => Ok(flushed(acc, out)),
    }
}

/// One pass of the scanner from position `i` onward, starting from line
/// counter `line`, accumulator `acc` and already-emitted lexemes `out`.
/// Each recursive step consumes exactly one character and mirrors one
/// iteration of the executable scanner.
pub open spec fn scan_loop(
    s: Seq<char>,
    i: nat,
    line: u32,
    acc: AccView,
    out: Seq<LexemeView>,
) -> Result<Seq<LexemeView>, LexError>
    decreases s.len() - i,
{
    if i >= s.len() {
        scan_finish(line, acc, out)
    } else {
        let c = s[i as int];
        let lit = acc is BuildingLiteral;
        if c == WHITESPACE && !lit {
            scan_loop(s, i + 1, line, AccView::Empty, flushed(acc, out))
        } else if c == NEWLINE && !lit {
            scan_loop(s, i + 1, (line + 1) as u32, AccView::Empty, flushed(acc, out))
        } else if is_punctuation_char(c) && !lit {
            scan_loop(
                s,
                i + 1,
                line,
                AccView::Empty,
                flushed(acc, out).push(
                    LexemeView {
                        token_type: IntermediateTokenType::Punctuation,
                        text: seq![c],
                        line,
                        column: i as u32,
                    },
                ),
            )
        } else if is_operator_char(c) && !lit {
            match acc {
                AccView::PendingTwoCharOperator { first, line: l, column } => scan_loop(
                    s,
                    i + 1,
                    line,
                    AccView::Empty,
                    out.push(
                        LexemeView {
                            token_type: IntermediateTokenType::Operator,
                            text: seq![first, c],
                            line: l,
                            column,
                        },
                    ),
                ),
                _ => {
                    if is_two_char_pair(c, lookahead(s, i as int)) {
                        scan_loop(
                            s,
                            i + 1,
                            line,
                            AccView::PendingTwoCharOperator { first: c, line, column: i as u32 },
                            flushed(acc, out),
                        )
                    } else {
                        scan_loop(
                            s,
                            i + 1,
                            line,
                            AccView::Empty,
                            flushed(acc, out).push(
                                LexemeView {
                                    token_type: IntermediateTokenType::Operator,
                                    text: seq![c],
                                    line,
                                    column: i as u32,
                                },
                            ),
                        )
                    }
                },
            }
        } else if c == LITERAL_DELIMITER && !lit {
            scan_loop(
                s,
                i + 1,
                line,
                AccView::BuildingLiteral { text: Seq::empty(), line, column: i as u32 },
                flushed(acc, out),
            )
        } else if c == LITERAL_DELIMITER {
            // `lit` holds: the literal closes; the delimiter is consumed.
            scan_loop(s, i + 1, line, AccView::Empty, flushed(acc, out))
        } else if lit {
            // Inside a literal every other character is kept verbatim.
            match acc {
                AccView::BuildingLiteral { text, line: l, column } => scan_loop(
                    s,
                    i + 1,
                    line,
                    AccView::BuildingLiteral { text: text.push(c), line: l, column },
                    out,
                ),
                _ => arbitrary(),
            }
        } else if is_alphabetic_char(c) || is_digit_char(c) {
            match acc {
                AccView::BuildingIdentifier { text, line: l, column } => scan_loop(
                    s,
                    i + 1,
                    line,
                    AccView::BuildingIdentifier { text: text.push(c), line: l, column },
                    out,
                ),
                AccView::Empty => scan_loop(
                    s,
                    i + 1,
                    line,
                    AccView::BuildingIdentifier { text: seq![c], line, column: i as u32 },
                    out,
                ),
                _ => Err(LexError::UnexpectedCharacter { character: c, line, column: i as u32 }),
            }
        } else {
            Err(LexError::UnexpectedCharacter { character: c, line, column: i as u32 })
        }
    }
}

/// The intermediate lexeme sequence of `s`, or the first lexical error.
pub open spec fn scan_lexemes(s: Seq<char>) -> Result<Seq<LexemeView>, LexError> {
    scan_loop(s, 0, 0, AccView::Empty, Seq::empty())
}

/// Whether the character has the Unicode `Alphabetic` property, as
/// `char::is_alphabetic` decides it.
pub uninterp spec fn is_alphabetic_char(c: char) -> bool;

/// Relies on `char::is_alphabetic`: a pure predicate of the character
/// (the Unicode `Alphabetic` property).
#[verifier::external_body]
fn alphabetic(c: char) -> (r: bool)
    ensures
        r == is_alphabetic_char(c),
{
    c.is_alphabetic()
}

/// Whether the accumulator currently holds a partially built literal.
pub fn currently_literal(acc: &Accumulator) -> (r: bool)
    ensures
        r == (acc@ is BuildingLiteral),
{
    match acc {
        Accumulator::BuildingLiteral { .. } => true,
        _ => false,
    }
}

proof fn lemma_views_push(v: Seq<IntermediateToken>, t: IntermediateToken)
    ensures
        views_of_lexemes(v.push(t)) == views_of_lexemes(v).push(t@),
{
    assert(views_of_lexemes(v.push(t)) =~= views_of_lexemes(v).push(t@));
}

/// Flushes the accumulator, if it holds anything, onto the lexeme
/// sequence.
pub fn push_if_not_none(tokens: &mut Vec<IntermediateToken>, curr: &Accumulator)
    ensures
        views_of_lexemes(final(tokens)@) == flushed(curr@, views_of_lexemes(old(tokens)@)),
{
    match curr {
        Accumulator::Empty => {},
        Accumulator::BuildingIdentifier { text, line, column } => {
            let tok = IntermediateToken {
                token_type: IntermediateTokenType::Identifier,
                value: string_from_chars(text),
                line: *line,
                column: *column,
            };
            proof {
                lemma_views_push(tokens@, tok);
            }
            tokens.push(tok);
        },
        Accumulator::BuildingLiteral { text, line, column } => {
            let tok = IntermediateToken {
                token_type: IntermediateTokenType::Literal,
                value: string_from_chars(text),
                line: *line,
                column: *column,
            };
            proof {
                lemma_views_push(tokens@, tok);
            }
            tokens.push(tok);
        },
        Accumulator::PendingTwoCharOperator { first, line, column } => {
            let tok = IntermediateToken {
                token_type: IntermediateTokenType::Operator,
                value: char_lexeme_string(*first),
                line: *line,
                column: *column,
            };
            proof {
                lemma_views_push(tokens@, tok);
            }
            tokens.push(tok);
        },
    }
}

/// Whether `character` followed by the lookahead character starts one of
/// the two-character operators.
pub fn is_two_char_seq(character: &char, next_char: Option<char>) -> (r: bool)
    ensures
        r == is_two_char_pair(*character, next_char),
{
    if next_char.is_none() || !(*character == '>' || *character == '!' || *character == '<'
        || *character == '=') {
        return false;
    }
    let next = next_char.unwrap();
    (*character == '<' && next == '=') || (*character == '>' && next == '=') || (*character == '='
        && next == '=') || (*character == '!' && next == '=')
}

/// Scans the whole source into its intermediate lexeme sequence, or fails
/// with the first lexical error.  The result is exactly what
/// [`scan_lexemes`] describes.
pub fn scan(code: &str) -> (r: Result<Vec<IntermediateToken>, LexError>)
    requires
        code@.len() <= u32::MAX,
    ensures
        match r {
            Ok(lexemes) => scan_lexemes(code@) == Ok::<_, LexError>(
                views_of_lexemes(lexemes@),
            ),
            Err(e) => scan_lexemes(code@) == Err::<Seq<LexemeView>, _>(e),
        },
{
    let ghost s = code@;
    let chars = chars_of(code);
    let n = chars.len();
    let mut tokens: Vec<IntermediateToken> = Vec::new();
    let mut acc = Accumulator::Empty;
    let mut line_num: u32 = 0;
    let mut i: usize = 0;
    proof {
        assert(views_of_lexemes(tokens@) =~= Seq::<LexemeView>::empty());
    }
    while i < n
        invariant
            s == code@,
            n == s.len(),
            chars@ == s,
            i <= n,
            line_num <= i,
            n <= u32::MAX,
            scan_loop(s, i as nat, line_num, acc@, views_of_lexemes(tokens@)) == scan_lexemes(s),
        decreases n - i,
    {
        let c = chars[i];
        let ghost pre_acc = acc@;
        let ghost pre_out = views_of_lexemes(tokens@);
        if c == WHITESPACE && !currently_literal(&acc) {
            push_if_not_none(&mut tokens, &acc);
            acc = Accumulator::Empty;
        } else if c == NEWLINE && !currently_literal(&acc) {
            push_if_not_none(&mut tokens, &acc);
            acc = Accumulator::Empty;
            line_num = line_num + 1;
        } else if punctuation_char(c) && !currently_literal(&acc) {
            push_if_not_none(&mut tokens, &acc);
            let tok = IntermediateToken {
                token_type: IntermediateTokenType::Punctuation,
                value: char_lexeme_string(c),
                line: line_num,
                column: i as u32,
            };
            proof {
                lemma_views_push(tokens@, tok);
            }
            tokens.push(tok);
            acc = Accumulator::Empty;
        } else if operator_char(c) && !currently_literal(&acc) {
            match acc {
                Accumulator::PendingTwoCharOperator { first, line, column } => {
                    let mut t: Vec<char> = Vec::new();
                    t.push(first);
                    t.push(c);
                    proof {
                        assert(t@ =~= seq![first, c]);
                    }
                    let tok = IntermediateToken {
                        token_type: IntermediateTokenType::Operator,
                        value: string_from_chars(&t),
                        line,
                        column,
                    };
                    proof {
                        lemma_views_push(tokens@, tok);
                    }
                    tokens.push(tok);
                    acc = Accumulator::Empty;
                },
                other => {
                    let next: Option<char> = if i + 1 < n {
                        Some(chars[i + 1])
                    } else {
                        None
                    };
                    if is_two_char_seq(&c, next) {
                        push_if_not_none(&mut tokens, &other);
                        acc = Accumulator::PendingTwoCharOperator {
                            first: c,
                            line: line_num,
                            column: i as u32,
                        };
                    } else {
                        push_if_not_none(&mut tokens, &other);
                        let tok = IntermediateToken {
                            token_type: IntermediateTokenType::Operator,
                            value: char_lexeme_string(c),
                            line: line_num,
                            column: i as u32,
                        };
                        proof {
                            lemma_views_push(tokens@, tok);
                        }
                        tokens.push(tok);
                        acc = Accumulator::Empty;
                    }
                },
            }
        } else if c == LITERAL_DELIMITER && !currently_literal(&acc) {
            push_if_not_none(&mut tokens, &acc);
            acc = Accumulator::BuildingLiteral {
                text: Vec::new(),
                line: line_num,
                column: i as u32,
            };
        } else if c == LITERAL_DELIMITER {
            // The literal closes; the delimiter is consumed, not kept.
            push_if_not_none(&mut tokens, &acc);
            acc = Accumulator::Empty;
        } else if currently_literal(&acc) {
            match acc {
                Accumulator::BuildingLiteral { mut text, line, column } => {
                    text.push(c);
                    acc = Accumulator::BuildingLiteral { text, line, column };
                },
                _ => {
                    acc = vstd::pervasive::unreached();
                },
            }
        } else if alphabetic(c) || ('0' <= c && c <= '9') {
            match acc {
                Accumulator::BuildingIdentifier { mut text, line, column } => {
                    text.push(c);
                    acc = Accumulator::BuildingIdentifier { text, line, column };
                },
                Accumulator::Empty => {
                    let mut t: Vec<char> = Vec::new();
                    t.push(c);
                    proof {
                        assert(t@ =~= seq![c]);
                    }
                    acc = Accumulator::BuildingIdentifier {
                        text: t,
                        line: line_num,
                        column: i as u32,
                    };
                },
                _ => {
                    let e = LexError::UnexpectedCharacter {
                        character: c,
                        line: line_num,
                        column: i as u32,
                    };
                    proof {
                        assert(scan_loop(s, i as nat, line_num, pre_acc, pre_out)
                            == Err::<Seq<LexemeView>, LexError>(e));
                    }
                    return Err(e);
                },
            }
        } else {
            let e = LexError::UnexpectedCharacter {
                character: c,
                line: line_num,
                column: i as u32,
            };
            proof {
                assert(scan_loop(s, i as nat, line_num, pre_acc, pre_out)
                    == Err::<Seq<LexemeView>, LexError>(e));
            }
            return Err(e);
        }
        i = i + 1;
    }
    if currently_literal(&acc) {
        match acc {
            Accumulator::BuildingLiteral { text: _, line, column } => {
                return Err(LexError::UnterminatedLiteral { line, column });
            },
            _ => {
                return vstd::pervasive::unreached();
            },
        }
    }
    push_if_not_none(&mut tokens, &acc);
    Ok(tokens)
}

} // verus!
