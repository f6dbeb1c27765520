//! The classifier: a total, order-preserving pass that reinterprets each
//! intermediate lexeme's category against the closed vocabularies, first
//! match deciding.  The relational check runs before the mathematical one,
//! so a bare `=` — which only the mathematical list holds — falls through
//! to `MathematicalOp` while `==` stays relational.

use vstd::prelude::*;

use crate::number::is_number;
use crate::number::is_number_text;
use crate::token::IntermediateToken;
use crate::token::IntermediateTokenType;
use crate::token::LexemeView;
use crate::token::Token;
use crate::token::TokenType;
use crate::token::TokenView;
use crate::vocab::is_keyword_text;
use crate::vocab::is_logical_op_text;
use crate::vocab::is_mathematical_op_text;
use crate::vocab::is_relop_text;
use crate::vocab::keyword_text;
use crate::vocab::logical_op_text;
use crate::vocab::mathematical_op_text;
use crate::vocab::relop_text;

verus! {

/// The final kind of a lexeme, decided by the first matching check.
/// An operator lexeme outside both operator vocabularies has no kind:
/// the scanner never produces one, and the classifier rejects one.
pub open spec fn classify_kind(lex: LexemeView) -> Option<TokenType> {
    if lex.token_type is Identifier && is_keyword_text(lex.text) {
        Some(TokenType::Keyword)
    } else if lex.token_type is Operator && is_relop_text(lex.text) {
        Some(TokenType::Relop)
    } else if lex.token_type is Operator && is_mathematical_op_text(lex.text) {
        Some(TokenType::MathematicalOp)
    } else if lex.token_type is Identifier && is_logical_op_text(lex.text) {
        Some(TokenType::LogicalOp)
    } else if lex.token_type is Identifier && is_number_text(lex.text) {
        Some(TokenType::Number)
    } else {
        match lex.token_type {
            IntermediateTokenType::Identifier => Some(TokenType::Identifier),
            IntermediateTokenType::Literal => Some(TokenType::Literal),
            IntermediateTokenType::Punctuation => Some(TokenType::Punctuation),
            IntermediateTokenType::Operator => None,
        }
    }
}

/// The token is the classification of the lexeme: same text and position,
/// and the kind that [`classify_kind`] decides.
pub open spec fn classifies(lex: LexemeView, tok: TokenView) -> bool {
    &&& classify_kind(lex) == Some(tok.token_type)
    &&& tok.text == lex.text
    &&& tok.line == lex.line
    &&& tok.column == lex.column
}

/// Maps a category straight to its kind, for the categories that survive
/// classification unchanged.  An operator category is refused: operator
/// lexemes are classified against the operator vocabularies instead.
pub fn intermediate_token_type_to_token_type(it: &IntermediateTokenType) -> (r: Result<
    TokenType,
    String,
>)
    ensures
        match r {
            Ok(t) => match *it {
                IntermediateTokenType::Literal => t == TokenType::Literal,
                IntermediateTokenType::Identifier => t == TokenType::Identifier,
                IntermediateTokenType::Punctuation => t == TokenType::Punctuation,
                IntermediateTokenType::Operator => false,
            },
            Err(_) => *it is Operator,
        },
{
    match it {
        IntermediateTokenType::Literal => Ok(TokenType::Literal),
        IntermediateTokenType::Identifier => Ok(TokenType::Identifier),
        IntermediateTokenType::Punctuation => Ok(TokenType::Punctuation),
        IntermediateTokenType::Operator => Err(
            String::from_str("an operator lexeme takes its kind from the operator vocabularies"),
        ),
    }
}

/// Decides the final kind of one lexeme.
fn classify_one(lex: &IntermediateToken) -> (kind: TokenType)
    requires
        classify_kind(lex@) is Some,
    ensures
        classify_kind(lex@) == Some(kind),
{
    let is_ident = matches!(lex.token_type, IntermediateTokenType::Identifier);
    let is_op = matches!(lex.token_type, IntermediateTokenType::Operator);
    if is_ident && keyword_text(lex.value.as_str()) {
        TokenType::Keyword
    } else if is_op && relop_text(lex.value.as_str()) {
        TokenType::Relop
    } else if is_op && mathematical_op_text(lex.value.as_str()) {
        TokenType::MathematicalOp
    } else if is_ident && logical_op_text(lex.value.as_str()) {
        TokenType::LogicalOp
    } else if is_ident && is_number(lex.value.as_str()) {
        TokenType::Number
    } else {
        match intermediate_token_type_to_token_type(&lex.token_type) {
            Ok(t) => t,
            Err(_) => vstd::pervasive::unreached(),
        }
    }
}

/// Classifies every lexeme, in order, one token per lexeme.  Total over
/// any sequence the scanner can produce; the `requires` excludes only
/// operator lexemes that lie outside both operator vocabularies, which
/// the scanner never emits.
pub fn classify(lexemes: &Vec<IntermediateToken>) -> (r: Vec<Token>)
    requires
        forall|k: int| 0 <= k < lexemes@.len() ==> (#[trigger] classify_kind(lexemes@[k]@)) is Some,
    ensures
        r@.len() == lexemes@.len(),
        forall|k: int| 0 <= k < r@.len() ==> classifies(lexemes@[k]@, #[trigger] r@[k]@),
{
    let mut out: Vec<Token> = Vec::new();
    let mut idx: usize = 0;
    while idx < lexemes.len()
        invariant
            idx <= lexemes@.len(),
            out@.len() == idx,
            forall|k: int| 0 <= k < lexemes@.len() ==> (#[trigger] classify_kind(
                lexemes@[k]@,
            )) is Some,
            forall|k: int| 0 <= k < idx ==> classifies(lexemes@[k]@, #[trigger] out@[k]@),
        decreases lexemes@.len() - idx,
    {
        let lex = &lexemes[idx];
        let kind = classify_one(lex);
        out.push(
            Token { token_type: kind, value: lex.value.clone(), line: lex.line, column: lex.column },
        );
        idx = idx + 1;
    }
    out
}


/// Classification is a strict refinement of the scanner's category, and
/// assigns exactly one kind: a literal lexeme stays a literal and a
/// punctuation lexeme stays punctuation; an identifier lexeme becomes a
/// keyword, a logical operator, a number or stays an identifier; an
/// operator lexeme becomes a relational or a mathematical operator.
pub proof fn lemma_classification_refinement(lex: LexemeView, tok: TokenView)
    requires
        classifies(lex, tok),
    ensures
        lex.token_type is Literal ==> tok.token_type is Literal,
        lex.token_type is Punctuation ==> tok.token_type is Punctuation,
        lex.token_type is Identifier ==> (tok.token_type is Keyword || tok.token_type is LogicalOp
            || tok.token_type is Number || tok.token_type is Identifier),
        lex.token_type is Operator ==> (tok.token_type is Relop
            || tok.token_type is MathematicalOp),
{
}

} // verus!
