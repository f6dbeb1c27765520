//! Token data model: the scanner's intermediate lexemes, the classifier's
//! final tokens, and the lexical errors.

use vstd::prelude::*;

verus! {

/// Coarse category the scanner assigns to a lexeme before classification.
#[derive(Clone, Copy, Debug, PartialEq, Eq, Structural)]
pub enum IntermediateTokenType {
    Identifier,
    Literal,
    Operator,
    Punctuation,
}

/// A raw text fragment produced by the scanner, with its provisional
/// category and the line/column where it starts.  The column is the index
/// of the character within the whole source, not within its line.
#[derive(Debug, PartialEq, Eq)]
pub struct IntermediateToken {
    pub token_type: IntermediateTokenType,
    pub value: String,
    pub line: u32,
    pub column: u32,
}

/// Mathematical view of an intermediate lexeme: its text as a sequence of
/// characters, with the category and position unchanged.
pub ghost struct LexemeView {
    pub token_type: IntermediateTokenType,
    pub text: Seq<char>,
    pub line: u32,
    pub column: u32,
}

impl View for IntermediateToken {
    type V = LexemeView;

    open spec fn view(&self) -> LexemeView {
        LexemeView {
            token_type: self.token_type,
            text: self.value@,
            line: self.line,
            column: self.column,
        }
    }
}

/// Final kind of a classified token.
#[derive(Clone, Copy, Debug, PartialEq, Eq, Structural)]
pub enum TokenType {
    Keyword,
    Identifier,
    Number,
    Literal,
    Punctuation,
    Relop,
    MathematicalOp,
    LogicalOp,
}

/// A classified token: one intermediate lexeme whose final kind has been
/// decided against the closed vocabularies.
#[derive(Debug, PartialEq, Eq)]
pub struct Token {
    pub token_type: TokenType,
    pub value: String,
    pub line: u32,
    pub column: u32,
}

/// Mathematical view of a token.
pub ghost struct TokenView {
    pub token_type: TokenType,
    pub text: Seq<char>,
    pub line: u32,
    pub column: u32,
}

impl View for Token {
    type V = TokenView;

    open spec fn view(&self) -> TokenView {
        TokenView {
            token_type: self.token_type,
            text: self.value@,
            line: self.line,
            column: self.column,
        }
    }
}

/// A lexical error; both variants are fatal to the whole tokenization call.
#[derive(Clone, Copy, Debug, PartialEq, Eq, Structural)]
pub enum LexError {
    /// A character outside a literal matches no recognized class, or an
    /// alphanumeric character arrived while a non-identifier lexeme was
    /// still being built.
    UnexpectedCharacter { character: char, line: u32, column: u32 },
    /// The input ended while a literal was still open; the position is
    /// where the literal started.
    UnterminatedLiteral { line: u32, column: u32 },
}

/// The views of a sequence of intermediate lexemes, element by element.
pub open spec fn views_of_lexemes(v: Seq<IntermediateToken>) -> Seq<LexemeView> {
    Seq::new(v.len(), |i: int| v[i]@)
}

/// The views of a sequence of tokens, element by element.
pub open spec fn views_of_tokens(v: Seq<Token>) -> Seq<TokenView> {
    Seq::new(v.len(), |i: int| v[i]@)
}

} // verus!
