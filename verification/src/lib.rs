//! A verified lexical analyzer for a small C-like language.
//!
//! The analyzer runs in two passes over one in-memory string.  The
//! scanner turns the source into an ordered sequence of intermediate
//! lexemes with their line/column origin, failing on the first lexical
//! error.  The classifier then reinterprets each lexeme against the
//! closed vocabularies (keywords, relational, mathematical and logical
//! operators, and the numeric-literal grammar) to produce the final
//! token sequence.

pub mod classifier;
pub mod number;
pub mod properties;
pub mod scanner;
pub mod text;
pub mod token;
pub mod vocab;

use vstd::prelude::*;

use crate::classifier::classifies;
use crate::classifier::classify;
use crate::classifier::classify_kind;
use crate::properties::lemma_scan_output_classifiable;
use crate::scanner::scan;
use crate::scanner::scan_lexemes;
use crate::token::LexError;
use crate::token::Token;
use crate::token::TokenView;
use crate::token::views_of_lexemes;
use crate::token::views_of_tokens;

verus! {

/// The views of a whole tokenization result.
pub open spec fn tokens_result_view(r: Result<Vec<Token>, LexError>) -> Result<
    Seq<TokenView>,
    LexError,
> {
    match r {
        Ok(v) => Ok(views_of_tokens(v@)),
        Err(e) => Err(e),
    }
}

/// What tokenizing `s` must return: the classification of the scanned
/// lexeme sequence, one token per lexeme in order, or the scanner's
/// error, exactly when the scanner fails.
pub open spec fn tokenize_result_matches(
    s: Seq<char>,
    r: Result<Seq<TokenView>, LexError>,
) -> bool {
    match scan_lexemes(s) {
        Ok(lexs) => match r {
            Ok(toks) => toks.len() == lexs.len() && (forall|k: int|
                0 <= k < lexs.len() ==> classifies(#[trigger] lexs[k], toks[k])),
            Err(_) => false,
        },
        Err(e) => r == Err::<Seq<TokenView>, LexError>(e),
    }
}

/// Tokenizes the whole source: scans it into intermediate lexemes, then
/// classifies each against the closed vocabularies.  Fails with the
/// first lexical error; no partial token list is returned.
pub fn tokenize(code: String) -> (r: Result<Vec<Token>, LexError>)
    requires
        code@.len() <= u32::MAX,
    ensures
        tokenize_result_matches(code@, tokens_result_view(r)),
{
    match scan(code.as_str()) {
        Ok(lexemes) => {
            proof {
                let lexs = views_of_lexemes(lexemes@);
                lemma_scan_output_classifiable(code@, lexs);
                assert forall|k: int|
                    0 <= k < lexemes@.len() implies (#[trigger] classify_kind(
                    lexemes@[k]@,
                )) is Some by {
                    assert(lexs[k] == lexemes@[k]@);
                    assert(classify_kind(lexs[k]) is Some);
                }
            }
            let tokens = classify(&lexemes);
            proof {
                let lexs = views_of_lexemes(lexemes@);
                let toks = views_of_tokens(tokens@);
                assert forall|k: int| 0 <= k < lexs.len() implies classifies(
                    #[trigger] lexs[k],
                    toks[k],
                ) by {
                    assert(lexs[k] == lexemes@[k]@);
                    assert(toks[k] == tokens@[k]@);
                    assert(classifies(lexemes@[k]@, tokens@[k]@));
                }
            }
            Ok(tokens)
        },
        Err(e) => Err(e),
    }
}

/// Tokenization is deterministic: any two results that the contract of
/// [`tokenize`] admits for the same source are equal.
pub proof fn lemma_tokenize_deterministic(
    s: Seq<char>,
    r1: Result<Seq<TokenView>, LexError>,
    r2: Result<Seq<TokenView>, LexError>,
)
    requires
        tokenize_result_matches(s, r1),
        tokenize_result_matches(s, r2),
    ensures
        r1 == r2,
{
    match scan_lexemes(s) {
        Ok(lexs) => {
            let t1 = r1->Ok_0;
            let t2 = r2->Ok_0;
            assert forall|k: int| 0 <= k < t1.len() implies t1[k] == t2[k] by {
                assert(classifies(lexs[k], t1[k]));
                assert(classifies(lexs[k], t2[k]));
            }
            assert(t1 =~= t2);
        },
        Err(_) => {},
    }
}

} // verus!
