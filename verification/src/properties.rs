//! Proved laws of the scanner: every lexeme it emits reads verbatim from
//! the source at its recorded position, lexeme spans are disjoint and in
//! source order, lines never decrease, two-character operators are taken
//! greedily, literals capture their span transparently, and the
//! concatenated lexeme texts reconstruct the kept content of the source.

use vstd::prelude::*;

use crate::classifier::classify_kind;
use crate::scanner::AccView;
use crate::scanner::acc_lexeme;
use crate::scanner::flushed;
use crate::scanner::is_alphabetic_char;
use crate::scanner::is_two_char_pair;
use crate::scanner::lookahead;
use crate::scanner::scan_lexemes;
use crate::scanner::scan_loop;
use crate::token::IntermediateTokenType;
use crate::token::LexError;
use crate::token::LexemeView;
use crate::token::TokenView;
use crate::classifier::classifies;
use crate::vocab::LITERAL_DELIMITER;
use crate::vocab::NEWLINE;
use crate::vocab::WHITESPACE;
use crate::vocab::is_digit_char;
use crate::vocab::is_mathematical_op_text;
use crate::vocab::is_relop_text;
use crate::vocab::is_operator_char;
use crate::vocab::is_punctuation_char;
use crate::vocab::is_two_char_lead;

verus! {

/// One past the last source position the lexeme covers.  A literal also
/// covers its two delimiters, which are not part of its text.
pub open spec fn lexeme_end(lex: LexemeView) -> int {
    if lex.token_type is Literal {
        lex.column + lex.text.len() + 2
    } else {
        lex.column + lex.text.len()
    }
}

/// The lexeme reads verbatim from the source `s` at its recorded column,
/// and its text has the shape its category promises.
#[verifier::opaque]
pub open spec fn lexeme_wf(s: Seq<char>, lex: LexemeView) -> bool {
    match lex.token_type {
        IntermediateTokenType::Identifier => {
            &&& lex.text.len() >= 1
            &&& lex.column + lex.text.len() <= s.len()
            &&& lex.text == s.subrange(lex.column as int, lex.column + lex.text.len())
            &&& forall|j: int|
                0 <= j < lex.text.len() ==> is_alphabetic_char(#[trigger] lex.text[j])
                    || is_digit_char(lex.text[j])
        },
        IntermediateTokenType::Literal => {
            &&& lex.column + lex.text.len() + 2 <= s.len()
            &&& s[lex.column as int] == LITERAL_DELIMITER
            &&& lex.text == s.subrange(lex.column + 1, lex.column + 1 + lex.text.len())
            &&& s[lex.column + 1 + lex.text.len()] == LITERAL_DELIMITER
            &&& forall|j: int| 0 <= j < lex.text.len() ==> #[trigger] lex.text[j]
                != LITERAL_DELIMITER
        },
        IntermediateTokenType::Operator => {
            &&& lex.column + lex.text.len() <= s.len()
            &&& lex.text == s.subrange(lex.column as int, lex.column + lex.text.len())
            &&& (lex.text.len() == 1 || lex.text.len() == 2)
            &&& (lex.text.len() == 1 ==> is_operator_char(lex.text[0]) && !is_two_char_pair(
                lex.text[0],
                lookahead(s, lex.column as int),
            ))
            &&& (lex.text.len() == 2 ==> is_operator_char(lex.text[0]) && is_two_char_lead(
                lex.text[0],
            ) && lex.text[1] == '=')
        },
        IntermediateTokenType::Punctuation => {
            &&& lex.text.len() == 1
            &&& lex.column < s.len()
            &&& lex.text == s.subrange(lex.column as int, lex.column + 1)
            &&& is_punctuation_char(lex.text[0])
        },
    }
}

/// Every lexeme reads verbatim from the source, spans are disjoint and
/// in source order, and lines never decrease.
pub open spec fn scan_output_wf(s: Seq<char>, lexs: Seq<LexemeView>) -> bool {
    &&& forall|k: int| 0 <= k < lexs.len() ==> lexeme_wf(s, #[trigger] lexs[k])
    &&& forall|k: int|
        0 <= k && k + 1 < lexs.len() ==> lexeme_end(#[trigger] lexs[k]) <= lexs[k + 1].column
    &&& forall|k: int|
        0 <= k && k + 1 < lexs.len() ==> (#[trigger] lexs[k]).line <= lexs[k + 1].line
}

/// What the accumulator promises about the source while the pass stands
/// at position `i` on line `line`.
pub open spec fn acc_wf(s: Seq<char>, i: nat, line: u32, acc: AccView) -> bool {
    match acc {
        AccView::Empty => true,
        AccView::BuildingIdentifier { text, line: l, column } => {
            &&& l == line
            &&& column < i <= s.len()
            &&& text.len() == i - column
            &&& text == s.subrange(column as int, i as int)
            &&& forall|j: int|
                0 <= j < text.len() ==> is_alphabetic_char(#[trigger] text[j]) || is_digit_char(
                    text[j],
                )
        },
        AccView::BuildingLiteral { text, line: l, column } => {
            &&& l == line
            &&& column < i <= s.len()
            &&& s[column as int] == LITERAL_DELIMITER
            &&& text.len() == i - column - 1
            &&& text == s.subrange(column + 1, i as int)
            &&& forall|j: int| 0 <= j < text.len() ==> #[trigger] text[j] != LITERAL_DELIMITER
        },
        AccView::PendingTwoCharOperator { first, line: l, column } => {
            &&& l == line
            &&& column + 1 == i
            &&& i < s.len()
            &&& s[column as int] == first
            &&& is_operator_char(first)
            &&& is_two_char_lead(first)
            &&& s[i as int] == '='
            &&& is_two_char_pair(first, lookahead(s, column as int))
        },
    }
}

/// No emitted lexeme may end past this position: the accumulator's own
/// start, or the current position when nothing is being built.
pub open spec fn emit_floor(i: nat, acc: AccView) -> int {
    match acc {
        AccView::Empty => i as int,
        AccView::BuildingIdentifier { column, .. } => column as int,
        AccView::BuildingLiteral { column, .. } => column as int,
        AccView::PendingTwoCharOperator { column, .. } => column as int,
    }
}

/// The scanner's full induction invariant at position `i`.
pub open spec fn state_wf(
    s: Seq<char>,
    i: nat,
    line: u32,
    acc: AccView,
    out: Seq<LexemeView>,
) -> bool {
    &&& i <= s.len()
    &&& line <= i
    &&& acc_wf(s, i, line, acc)
    &&& forall|k: int| 0 <= k < out.len() ==> lexeme_wf(s, #[trigger] out[k])
    &&& forall|k: int|
        0 <= k && k + 1 < out.len() ==> lexeme_end(#[trigger] out[k]) <= out[k + 1].column
    &&& forall|k: int| 0 <= k && k + 1 < out.len() ==> (#[trigger] out[k]).line <= out[k + 1].line
    &&& forall|k: int| 0 <= k < out.len() ==> (#[trigger] out[k]).line <= line
    &&& forall|k: int| 0 <= k < out.len() ==> lexeme_end(#[trigger] out[k]) <= emit_floor(i, acc)
}

/// Flushing the accumulator preserves the invariant, with the floor
/// moved up to the current position.
#[verifier::rlimit(100)]
proof fn lemma_flush_wf(s: Seq<char>, i: nat, line: u32, acc: AccView, out: Seq<LexemeView>)
    requires
        state_wf(s, i, line, acc, out),
        !(acc is PendingTwoCharOperator),
        !(acc is BuildingLiteral),
    ensures
        state_wf(s, i, line, AccView::Empty, flushed(acc, out)),
{
    reveal(lexeme_wf);
    match acc {
        AccView::Empty => {},
        AccView::BuildingIdentifier { text, line: l, column } => {
            let lex = acc_lexeme(acc)->Some_0;
            assert(lexeme_wf(s, lex));
            assert(lexeme_end(lex) == i);
        },
        _ => {},
    }
}

/// Stepping past a structural character: the accumulator is flushed and
/// the line counter may advance.
#[verifier::rlimit(50)]
proof fn lemma_step_flush(
    s: Seq<char>,
    i: nat,
    line: u32,
    acc: AccView,
    out: Seq<LexemeView>,
    line2: u32,
)
    requires
        state_wf(s, i, line, acc, out),
        !(acc is PendingTwoCharOperator),
        !(acc is BuildingLiteral),
        i < s.len(),
        line <= line2 <= i + 1,
    ensures
        state_wf(s, i + 1, line2, AccView::Empty, flushed(acc, out)),
{
    lemma_flush_wf(s, i, line, acc, out);
}

/// Pushing one well-formed lexeme that starts at or after the floor
/// and ends at or before the next position.
#[verifier::rlimit(100)]
proof fn lemma_push_state(
    s: Seq<char>,
    i: nat,
    line: u32,
    acc: AccView,
    out: Seq<LexemeView>,
    lex: LexemeView,
)
    requires
        state_wf(s, i, line, acc, out),
        emit_floor(i, acc) <= lex.column,
        i < s.len(),
        lexeme_wf(s, lex),
        lex.line == line,
        lexeme_end(lex) <= i + 1,
    ensures
        state_wf(s, i + 1, line, AccView::Empty, out.push(lex)),
{
    let out2 = out.push(lex);
    assert forall|k: int| 0 <= k < out2.len() implies lexeme_wf(s, #[trigger] out2[k]) by {
        if k < out.len() {
            assert(out2[k] == out[k]);
        } else {
            assert(out2[k] == lex);
        }
    }
    assert forall|k: int| 0 <= k && k + 1 < out2.len() implies lexeme_end(#[trigger] out2[k])
        <= out2[k + 1].column by {
        assert(out2[k] == out[k]);
        if k + 1 < out.len() {
            assert(out2[k + 1] == out[k + 1]);
        } else {
            assert(out2[k + 1] == lex);
            assert(lexeme_end(out[k]) <= emit_floor(i, acc));
        }
    }
    assert forall|k: int| 0 <= k && k + 1 < out2.len() implies (#[trigger] out2[k]).line <= out2[k
        + 1].line by {
        assert(out2[k] == out[k]);
        if k + 1 < out.len() {
            assert(out2[k + 1] == out[k + 1]);
        } else {
            assert(out2[k + 1] == lex);
        }
    }
    assert forall|k: int| 0 <= k < out2.len() implies (#[trigger] out2[k]).line <= line by {
        if k < out.len() {
            assert(out2[k] == out[k]);
        } else {
            assert(out2[k] == lex);
        }
    }
    assert forall|k: int| 0 <= k < out2.len() implies lexeme_end(#[trigger] out2[k]) <= emit_floor(
        i + 1,
        AccView::Empty,
    ) by {
        if k < out.len() {
            assert(out2[k] == out[k]);
            assert(lexeme_end(out[k]) <= emit_floor(i, acc));
        } else {
            assert(out2[k] == lex);
        }
    }
}

/// Opening a new accumulator at the current position, after a flush.
#[verifier::rlimit(50)]
proof fn lemma_step_open(
    s: Seq<char>,
    i: nat,
    line: u32,
    acc: AccView,
    out: Seq<LexemeView>,
    acc2: AccView,
)
    requires
        state_wf(s, i, line, acc, out),
        !(acc is PendingTwoCharOperator),
        !(acc is BuildingLiteral),
        i < s.len(),
        acc_wf(s, i + 1, line, acc2),
        emit_floor(i + 1, acc2) == i,
    ensures
        state_wf(s, i + 1, line, acc2, flushed(acc, out)),
{
    lemma_flush_wf(s, i, line, acc, out);
}

/// Growing the open accumulator in place: nothing is emitted and the
/// floor does not move back.
#[verifier::rlimit(50)]
proof fn lemma_step_append(
    s: Seq<char>,
    i: nat,
    line: u32,
    acc: AccView,
    out: Seq<LexemeView>,
    acc2: AccView,
)
    requires
        state_wf(s, i, line, acc, out),
        i < s.len(),
        acc_wf(s, i + 1, line, acc2),
        emit_floor(i + 1, acc2) >= emit_floor(i, acc),
    ensures
        state_wf(s, i + 1, line, acc2, out),
{
}

/// The scanner's invariant carries from any intermediate state to the
/// final output: if the pass succeeds from a well-formed state, the
/// whole result is well-formed.
#[verifier::rlimit(100)]
proof fn lemma_scan_loop_wf(s: Seq<char>, i: nat, line: u32, acc: AccView, out: Seq<LexemeView>)
    requires
        s.len() <= u32::MAX,
        state_wf(s, i, line, acc, out),
    ensures
        scan_loop(s, i, line, acc, out) matches Ok(lexs) ==> scan_output_wf(s, lexs),
    decreases s.len() - i,
{
    reveal(lexeme_wf);
    if i >= s.len() {
        match acc {
            AccView::BuildingLiteral { .. } => {},
            AccView::PendingTwoCharOperator { .. } => {
                // The pending state always has a next character.
                assert(false);
            },
            _ => {
                lemma_flush_wf(s, i, line, acc, out);
            },
        }
    } else {
        let c = s[i as int];
        let lit = acc is BuildingLiteral;
        if c == WHITESPACE && !lit {
            assert(!(acc is PendingTwoCharOperator));  // a pending operator sees `=` next
            lemma_step_flush(s, i, line, acc, out, line);
            lemma_scan_loop_wf(s, i + 1, line, AccView::Empty, flushed(acc, out));
        } else if c == NEWLINE && !lit {
            assert(!(acc is PendingTwoCharOperator));
            lemma_step_flush(s, i, line, acc, out, (line + 1) as u32);
            lemma_scan_loop_wf(s, i + 1, (line + 1) as u32, AccView::Empty, flushed(acc, out));
        } else if is_punctuation_char(c) && !lit {
            assert(!(acc is PendingTwoCharOperator));
            let lex = LexemeView {
                token_type: IntermediateTokenType::Punctuation,
                text: seq![c],
                line,
                column: i as u32,
            };
            assert(lex.text =~= s.subrange(i as int, i as int + 1));
            assert(lexeme_wf(s, lex));
            lemma_flush_wf(s, i, line, acc, out);
            lemma_push_state(s, i, line, AccView::Empty, flushed(acc, out), lex);
            lemma_scan_loop_wf(s, i + 1, line, AccView::Empty, flushed(acc, out).push(lex));
        } else if is_operator_char(c) && !lit {
            match acc {
                AccView::PendingTwoCharOperator { first, line: l, column } => {
                    let lex = LexemeView {
                        token_type: IntermediateTokenType::Operator,
                        text: seq![first, c],
                        line: l,
                        column,
                    };
                    assert(lex.text =~= s.subrange(column as int, column + 2));
                    assert(lexeme_wf(s, lex));
                    lemma_push_state(s, i, line, acc, out, lex);
                    lemma_scan_loop_wf(s, i + 1, line, AccView::Empty, out.push(lex));
                },
                _ => {
                    if is_two_char_pair(c, lookahead(s, i as int)) {
                        let acc2 = AccView::PendingTwoCharOperator {
                            first: c,
                            line,
                            column: i as u32,
                        };
                        assert(acc_wf(s, i + 1, line, acc2));
                        lemma_step_open(s, i, line, acc, out, acc2);
                        lemma_scan_loop_wf(s, i + 1, line, acc2, flushed(acc, out));
                    } else {
                        let lex = LexemeView {
                            token_type: IntermediateTokenType::Operator,
                            text: seq![c],
                            line,
                            column: i as u32,
                        };
                        assert(lex.text =~= s.subrange(i as int, i as int + 1));
                        assert(lexeme_wf(s, lex));
                        lemma_flush_wf(s, i, line, acc, out);
                        lemma_push_state(s, i, line, AccView::Empty, flushed(acc, out), lex);
                        lemma_scan_loop_wf(s, i + 1, line, AccView::Empty, flushed(acc, out).push(lex));
                    }
                },
            }
        } else if c == LITERAL_DELIMITER && !lit {
            assert(!(acc is PendingTwoCharOperator));
            let acc2 = AccView::BuildingLiteral { text: Seq::empty(), line, column: i as u32 };
            assert(acc2->BuildingLiteral_text =~= s.subrange(i as int + 1, i as int + 1));
            assert(acc_wf(s, i + 1, line, acc2));
            lemma_step_open(s, i, line, acc, out, acc2);
            lemma_scan_loop_wf(s, i + 1, line, acc2, flushed(acc, out));
        } else if c == LITERAL_DELIMITER {
            match acc {
                AccView::BuildingLiteral { text, line: l, column } => {
                    let lex = LexemeView {
                        token_type: IntermediateTokenType::Literal,
                        text,
                        line: l,
                        column,
                    };
                    assert(lexeme_wf(s, lex));
                    lemma_push_state(s, i, line, acc, out, lex);
                    lemma_scan_loop_wf(s, i + 1, line, AccView::Empty, out.push(lex));
                },
                _ => {},
            }
        } else if lit {
            match acc {
                AccView::BuildingLiteral { text, line: l, column } => {
                    let acc2 = AccView::BuildingLiteral { text: text.push(c), line: l, column };
                    assert(text.push(c) =~= s.subrange(column + 1, i as int + 1));
                    assert(acc_wf(s, i + 1, line, acc2));
                    lemma_step_append(s, i, line, acc, out, acc2);
                    lemma_scan_loop_wf(s, i + 1, line, acc2, out);
                },
                _ => {},
            }
        } else if is_alphabetic_char(c) || is_digit_char(c) {
            match acc {
                AccView::BuildingIdentifier { text, line: l, column } => {
                    let acc2 = AccView::BuildingIdentifier { text: text.push(c), line: l, column };
                    assert(text.push(c) =~= s.subrange(column as int, i as int + 1));
                    assert(acc_wf(s, i + 1, line, acc2));
                    lemma_step_append(s, i, line, acc, out, acc2);
                    lemma_scan_loop_wf(s, i + 1, line, acc2, out);
                },
                AccView::Empty => {
                    let acc2 = AccView::BuildingIdentifier {
                        text: seq![c],
                        line,
                        column: i as u32,
                    };
                    assert(seq![c] =~= s.subrange(i as int, i as int + 1));
                    assert(acc_wf(s, i + 1, line, acc2));
                    lemma_step_open(s, i, line, acc, out, acc2);
                    lemma_scan_loop_wf(s, i + 1, line, acc2, out);
                },
                _ => {},
            }
        } else {
        }
    }
}

/// Every successful scan is well-formed: the lexemes read verbatim from
/// the source at their recorded positions, cover disjoint spans in
/// source order, and their line numbers never decrease.
pub proof fn lemma_scan_wf(s: Seq<char>, lexs: Seq<LexemeView>)
    requires
        s.len() <= u32::MAX,
        scan_lexemes(s) == Ok::<Seq<LexemeView>, LexError>(lexs),
    ensures
        scan_output_wf(s, lexs),
{
    lemma_scan_loop_wf(s, 0, 0, AccView::Empty, Seq::empty());
}

/// Inside a literal every token ends up verbatim in the lexeme text:
/// the delimiters stand in the source around exactly the span the text
/// reads from, and the text never holds a delimiter.
pub proof fn lemma_literal_transparency(s: Seq<char>, lexs: Seq<LexemeView>, k: int)
    requires
        s.len() <= u32::MAX,
        scan_lexemes(s) == Ok::<Seq<LexemeView>, LexError>(lexs),
        0 <= k < lexs.len(),
        lexs[k].token_type is Literal,
    ensures
        lexs[k].column + lexs[k].text.len() + 2 <= s.len(),
        s[lexs[k].column as int] == LITERAL_DELIMITER,
        s[lexs[k].column + 1 + lexs[k].text.len()] == LITERAL_DELIMITER,
        lexs[k].text == s.subrange(lexs[k].column + 1, lexs[k].column + 1 + lexs[k].text.len()),
        forall|j: int|
            0 <= j < lexs[k].text.len() ==> #[trigger] lexs[k].text[j] != LITERAL_DELIMITER,
{
    lemma_scan_wf(s, lexs);
    reveal(lexeme_wf);
    assert(lexeme_wf(s, lexs[k]));
}

/// Two-character operators are taken greedily: a one-character operator
/// lexeme is never followed in the source by a character that would have
/// completed one of `<=`, `>=`, `==`, `!=`.  In particular `<=` always
/// scans as the single operator lexeme `<=`, never as `<` then `=`.
pub proof fn lemma_two_char_operator_greedy(s: Seq<char>, lexs: Seq<LexemeView>, k: int)
    requires
        s.len() <= u32::MAX,
        scan_lexemes(s) == Ok::<Seq<LexemeView>, LexError>(lexs),
        0 <= k < lexs.len(),
        lexs[k].token_type is Operator,
        lexs[k].text.len() == 1,
    ensures
        !is_two_char_pair(lexs[k].text[0], lookahead(s, lexs[k].column as int)),
{
    lemma_scan_wf(s, lexs);
    reveal(lexeme_wf);
    assert(lexeme_wf(s, lexs[k]));
}

/// An operator text the scanner can emit lies in one of the two
/// operator vocabularies.
#[verifier::rlimit(100)]
proof fn lemma_operator_text_in_vocab(text: Seq<char>)
    requires
        text.len() == 1 || text.len() == 2,
        is_operator_char(text[0]),
        text.len() == 2 ==> is_two_char_lead(text[0]) && text[1] == '=',
    ensures
        is_relop_text(text) || is_mathematical_op_text(text),
        text.len() == 2 ==> is_relop_text(text),
{
    let c = text[0];
    if text.len() == 1 {
        if c == '<' {
            reveal_strlit("<");
            assert(text =~= "<"@);
        } else if c == '>' {
            reveal_strlit(">");
            assert(text =~= ">"@);
        } else if c == '=' {
            reveal_strlit("=");
            assert(text =~= "="@);
        } else if c == '+' {
            reveal_strlit("+");
            assert(text =~= "+"@);
        } else if c == '-' {
            reveal_strlit("-");
            assert(text =~= "-"@);
        } else if c == '*' {
            reveal_strlit("*");
            assert(text =~= "*"@);
        } else if c == '/' {
            reveal_strlit("/");
            assert(text =~= "/"@);
        } else if c == '%' {
            reveal_strlit("%");
            assert(text =~= "%"@);
        } else {
            reveal_strlit("^");
            assert(c == '^');
            assert(text =~= "^"@);
        }
    } else {
        if c == '<' {
            reveal_strlit("<=");
            assert(text =~= "<="@);
        } else if c == '>' {
            reveal_strlit(">=");
            assert(text =~= ">="@);
        } else {
            reveal_strlit("==");
            assert(c == '=');
            assert(text =~= "=="@);
        }
    }
}

/// Every lexeme of a successful scan has a kind: in particular each
/// operator lexeme's text lies in the relational or the mathematical
/// vocabulary, so classification is total over scanner output.
pub proof fn lemma_scan_output_classifiable(s: Seq<char>, lexs: Seq<LexemeView>)
    requires
        s.len() <= u32::MAX,
        scan_lexemes(s) == Ok::<Seq<LexemeView>, LexError>(lexs),
    ensures
        forall|k: int| 0 <= k < lexs.len() ==> (#[trigger] classify_kind(lexs[k])) is Some,
{
    lemma_scan_wf(s, lexs);
    assert forall|k: int| 0 <= k < lexs.len() implies (#[trigger] classify_kind(lexs[k])) is Some by {
        reveal(lexeme_wf);
        let lex = lexs[k];
        assert(lexeme_wf(s, lex));
        if lex.token_type is Operator {
            lemma_operator_text_in_vocab(lex.text);
        }
    }
}

/// The classification half of two-character greediness: every
/// two-character operator lexeme the scanner emits is relational, so
/// `<=` becomes one `Relop` token of text `<=`.
pub proof fn lemma_two_char_operator_is_relational(s: Seq<char>, lexs: Seq<LexemeView>, k: int)
    requires
        s.len() <= u32::MAX,
        scan_lexemes(s) == Ok::<Seq<LexemeView>, LexError>(lexs),
        0 <= k < lexs.len(),
        lexs[k].token_type is Operator,
        lexs[k].text.len() == 2,
    ensures
        classify_kind(lexs[k]) == Some(crate::token::TokenType::Relop),
{
    lemma_scan_wf(s, lexs);
    reveal(lexeme_wf);
    assert(lexeme_wf(s, lexs[k]));
    lemma_operator_text_in_vocab(lexs[k].text);
}


/// The text each accumulator state holds so far.
pub open spec fn acc_text(acc: AccView) -> Seq<char> {
    match acc {
        AccView::Empty => Seq::empty(),
        AccView::BuildingIdentifier { text, .. } => text,
        AccView::BuildingLiteral { text, .. } => text,
        AccView::PendingTwoCharOperator { first, .. } => seq![first],
    }
}

/// The source content from position `i` on that the scanner keeps:
/// everything except structural whitespace, newlines and literal
/// delimiters, where what counts as structural depends on whether a
/// literal is open.
pub open spec fn kept_content(s: Seq<char>, i: nat, in_literal: bool) -> Seq<char>
    decreases s.len() - i,
{
    if i >= s.len() {
        Seq::empty()
    } else {
        let c = s[i as int];
        if in_literal {
            if c == LITERAL_DELIMITER {
                kept_content(s, i + 1, false)
            } else {
                seq![c] + kept_content(s, i + 1, true)
            }
        } else if c == WHITESPACE || c == NEWLINE {
            kept_content(s, i + 1, false)
        } else if c == LITERAL_DELIMITER {
            kept_content(s, i + 1, true)
        } else {
            seq![c] + kept_content(s, i + 1, false)
        }
    }
}

/// The lexeme texts, concatenated in order.
pub open spec fn texts_concat(lexs: Seq<LexemeView>) -> Seq<char>
    decreases lexs.len(),
{
    if lexs.len() == 0 {
        Seq::empty()
    } else {
        lexs[0].text + texts_concat(lexs.drop_first())
    }
}

proof fn lemma_texts_concat_push(lexs: Seq<LexemeView>, lex: LexemeView)
    ensures
        texts_concat(lexs.push(lex)) == texts_concat(lexs) + lex.text,
    decreases lexs.len(),
{
    if lexs.len() == 0 {
        assert(lexs.push(lex).drop_first() =~= lexs);
        assert(lexs.push(lex)[0] == lex);
        assert(texts_concat(lexs.push(lex)) =~= texts_concat(lexs) + lex.text);
    } else {
        assert(lexs.push(lex).drop_first() =~= lexs.drop_first().push(lex));
        assert(lexs.push(lex)[0] == lexs[0]);
        lemma_texts_concat_push(lexs.drop_first(), lex);
        assert(texts_concat(lexs.push(lex)) =~= texts_concat(lexs) + lex.text);
    }
}

proof fn lemma_flushed_concat(acc: AccView, out: Seq<LexemeView>)
    ensures
        texts_concat(flushed(acc, out)) == texts_concat(out) + acc_text(acc),
{
    match acc_lexeme(acc) {
        Some(l) => {
            lemma_texts_concat_push(out, l);
            assert(l.text == acc_text(acc));
        },
        None => {
            assert(texts_concat(out) + acc_text(acc) =~= texts_concat(out));
        },
    }
}

/// From any intermediate state, the concatenated texts of a successful
/// scan are what was already emitted, what the accumulator holds, and
/// the kept content of the rest of the source.
proof fn lemma_scan_loop_content(s: Seq<char>, i: nat, line: u32, acc: AccView, out: Seq<LexemeView>)
    requires
        i <= s.len(),
    ensures
        scan_loop(s, i, line, acc, out) matches Ok(lexs) ==> texts_concat(lexs) == texts_concat(
            out,
        ) + acc_text(acc) + kept_content(s, i, acc is BuildingLiteral),
    decreases s.len() - i,
{
    if i >= s.len() {
        match acc {
            AccView::BuildingLiteral { .. } => {},
            _ => {
                lemma_flushed_concat(acc, out);
                assert(texts_concat(out) + acc_text(acc) + kept_content(s, i, false)
                    =~= texts_concat(out) + acc_text(acc));
            },
        }
    } else {
        let c = s[i as int];
        let lit = acc is BuildingLiteral;
        if c == WHITESPACE && !lit {
            lemma_scan_loop_content(s, i + 1, line, AccView::Empty, flushed(acc, out));
            lemma_flushed_concat(acc, out);
            assert(texts_concat(flushed(acc, out)) + acc_text(AccView::Empty) + kept_content(
                s,
                i + 1,
                false,
            ) =~= texts_concat(out) + acc_text(acc) + kept_content(s, i, false));
        } else if c == NEWLINE && !lit {
            lemma_scan_loop_content(s, i + 1, (line + 1) as u32, AccView::Empty, flushed(acc, out));
            lemma_flushed_concat(acc, out);
            assert(texts_concat(flushed(acc, out)) + acc_text(AccView::Empty) + kept_content(
                s,
                i + 1,
                false,
            ) =~= texts_concat(out) + acc_text(acc) + kept_content(s, i, false));
        } else if is_punctuation_char(c) && !lit {
            let lex = LexemeView {
                token_type: IntermediateTokenType::Punctuation,
                text: seq![c],
                line,
                column: i as u32,
            };
            let out2 = flushed(acc, out).push(lex);
            lemma_scan_loop_content(s, i + 1, line, AccView::Empty, out2);
            lemma_flushed_concat(acc, out);
            lemma_texts_concat_push(flushed(acc, out), lex);
            assert(texts_concat(out2) + acc_text(AccView::Empty) + kept_content(s, i + 1, false)
                =~= texts_concat(out) + acc_text(acc) + kept_content(s, i, false));
        } else if is_operator_char(c) && !lit {
            match acc {
                AccView::PendingTwoCharOperator { first, line: l, column } => {
                    let lex = LexemeView {
                        token_type: IntermediateTokenType::Operator,
                        text: seq![first, c],
                        line: l,
                        column,
                    };
                    let out2 = out.push(lex);
                    lemma_scan_loop_content(s, i + 1, line, AccView::Empty, out2);
                    lemma_texts_concat_push(out, lex);
                    assert(texts_concat(out2) + acc_text(AccView::Empty) + kept_content(
                        s,
                        i + 1,
                        false,
                    ) =~= texts_concat(out) + acc_text(acc) + kept_content(s, i, false));
                },
                _ => {
                    if is_two_char_pair(c, lookahead(s, i as int)) {
                        let acc2 = AccView::PendingTwoCharOperator {
                            first: c,
                            line,
                            column: i as u32,
                        };
                        lemma_scan_loop_content(s, i + 1, line, acc2, flushed(acc, out));
                        lemma_flushed_concat(acc, out);
                        assert(texts_concat(flushed(acc, out)) + acc_text(acc2) + kept_content(
                            s,
                            i + 1,
                            false,
                        ) =~= texts_concat(out) + acc_text(acc) + kept_content(s, i, false));
                    } else {
                        let lex = LexemeView {
                            token_type: IntermediateTokenType::Operator,
                            text: seq![c],
                            line,
                            column: i as u32,
                        };
                        let out2 = flushed(acc, out).push(lex);
                        lemma_scan_loop_content(s, i + 1, line, AccView::Empty, out2);
                        lemma_flushed_concat(acc, out);
                        lemma_texts_concat_push(flushed(acc, out), lex);
                        assert(texts_concat(out2) + acc_text(AccView::Empty) + kept_content(
                            s,
                            i + 1,
                            false,
                        ) =~= texts_concat(out) + acc_text(acc) + kept_content(s, i, false));
                    }
                },
            }
        } else if c == LITERAL_DELIMITER && !lit {
            let acc2 = AccView::BuildingLiteral { text: Seq::empty(), line, column: i as u32 };
            lemma_scan_loop_content(s, i + 1, line, acc2, flushed(acc, out));
            lemma_flushed_concat(acc, out);
            assert(texts_concat(flushed(acc, out)) + acc_text(acc2) + kept_content(s, i + 1, true)
                =~= texts_concat(out) + acc_text(acc) + kept_content(s, i, false));
        } else if c == LITERAL_DELIMITER {
            lemma_scan_loop_content(s, i + 1, line, AccView::Empty, flushed(acc, out));
            lemma_flushed_concat(acc, out);
            assert(texts_concat(flushed(acc, out)) + acc_text(AccView::Empty) + kept_content(
                s,
                i + 1,
                false,
            ) =~= texts_concat(out) + acc_text(acc) + kept_content(s, i, true));
        } else if lit {
            match acc {
                AccView::BuildingLiteral { text, line: l, column } => {
                    let acc2 = AccView::BuildingLiteral { text: text.push(c), line: l, column };
                    lemma_scan_loop_content(s, i + 1, line, acc2, out);
                    assert(texts_concat(out) + acc_text(acc2) + kept_content(s, i + 1, true)
                        =~= texts_concat(out) + acc_text(acc) + kept_content(s, i, true));
                },
                _ => {},
            }
        } else if is_alphabetic_char(c) || is_digit_char(c) {
            match acc {
                AccView::BuildingIdentifier { text, line: l, column } => {
                    let acc2 = AccView::BuildingIdentifier { text: text.push(c), line: l, column };
                    lemma_scan_loop_content(s, i + 1, line, acc2, out);
                    assert(texts_concat(out) + acc_text(acc2) + kept_content(s, i + 1, false)
                        =~= texts_concat(out) + acc_text(acc) + kept_content(s, i, false));
                },
                AccView::Empty => {
                    let acc2 = AccView::BuildingIdentifier {
                        text: seq![c],
                        line,
                        column: i as u32,
                    };
                    lemma_scan_loop_content(s, i + 1, line, acc2, out);
                    assert(texts_concat(out) + acc_text(acc2) + kept_content(s, i + 1, false)
                        =~= texts_concat(out) + acc_text(acc) + kept_content(s, i, false));
                },
                _ => {},
            }
        } else {
        }
    }
}

/// Concatenating the texts of a successful scan, in order, reconstructs
/// the kept content of the source: everything but structural whitespace,
/// newlines and the literal delimiters.
pub proof fn lemma_scan_coverage(s: Seq<char>, lexs: Seq<LexemeView>)
    requires
        scan_lexemes(s) == Ok::<Seq<LexemeView>, LexError>(lexs),
    ensures
        texts_concat(lexs) == kept_content(s, 0, false),
{
    lemma_scan_loop_content(s, 0, 0, AccView::Empty, Seq::empty());
    assert(texts_concat(Seq::<LexemeView>::empty()) + acc_text(AccView::Empty) + kept_content(
        s,
        0,
        false,
    ) =~= kept_content(s, 0, false));
}



/// The token texts, concatenated in order.
pub open spec fn token_texts_concat(toks: Seq<TokenView>) -> Seq<char>
    decreases toks.len(),
{
    if toks.len() == 0 {
        Seq::empty()
    } else {
        toks[0].text + token_texts_concat(toks.drop_first())
    }
}

proof fn lemma_token_texts_eq(lexs: Seq<LexemeView>, toks: Seq<TokenView>)
    requires
        toks.len() == lexs.len(),
        forall|k: int| 0 <= k < lexs.len() ==> (#[trigger] toks[k]).text == lexs[k].text,
    ensures
        token_texts_concat(toks) == texts_concat(lexs),
    decreases lexs.len(),
{
    if lexs.len() > 0 {
        assert forall|k: int| 0 <= k < lexs.drop_first().len() implies (#[trigger] toks.drop_first()[k]).text
            == lexs.drop_first()[k].text by {
            assert(toks.drop_first()[k] == toks[k + 1]);
            assert(lexs.drop_first()[k] == lexs[k + 1]);
        }
        lemma_token_texts_eq(lexs.drop_first(), toks.drop_first());
        assert(toks[0].text == lexs[0].text);
    }
}

/// Concatenating the texts of a successful tokenization, in order,
/// reconstructs the kept content of the source: everything except the
/// structural whitespace, newlines and literal delimiters that the
/// scanner discards.
pub proof fn lemma_tokenize_coverage(s: Seq<char>, toks: Seq<TokenView>)
    requires
        crate::tokenize_result_matches(s, Ok(toks)),
    ensures
        token_texts_concat(toks) == kept_content(s, 0, false),
{
    let lexs = scan_lexemes(s)->Ok_0;
    lemma_scan_coverage(s, lexs);
    assert forall|k: int| 0 <= k < lexs.len() implies (#[trigger] toks[k]).text
        == lexs[k].text by {
        assert(classifies(lexs[k], toks[k]));
    }
    lemma_token_texts_eq(lexs, toks);
}

} // verus!
