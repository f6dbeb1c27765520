use tokenizer::classifier::classify;
use tokenizer::classifier::intermediate_token_type_to_token_type;
use tokenizer::scanner::Accumulator;
use tokenizer::scanner::currently_literal;
use tokenizer::scanner::is_two_char_seq;
use tokenizer::scanner::push_if_not_none;
use tokenizer::scanner::scan;
use tokenizer::token::IntermediateToken;
use tokenizer::token::IntermediateTokenType;
use tokenizer::token::TokenType;

fn lexeme(
    token_type: IntermediateTokenType,
    value: &str,
    line: u32,
    column: u32,
) -> IntermediateToken {
    IntermediateToken { token_type, value: value.to_string(), line, column }
}

#[test]
fn scan_produces_coarse_categories() {
    let lexemes = scan("x+1").unwrap();
    assert_eq!(
        lexemes,
        vec![
            lexeme(IntermediateTokenType::Identifier, "x", 0, 0),
            lexeme(IntermediateTokenType::Operator, "+", 0, 1),
            lexeme(IntermediateTokenType::Identifier, "1", 0, 2),
        ]
    );
}

#[test]
fn scan_keeps_keywords_as_identifiers() {
    let lexemes = scan("let \"s\"").unwrap();
    assert_eq!(
        lexemes,
        vec![
            lexeme(IntermediateTokenType::Identifier, "let", 0, 0),
            lexeme(IntermediateTokenType::Literal, "s", 0, 4),
        ]
    );
}

#[test]
fn is_two_char_seq_accepts_only_the_four_pairs() {
    assert!(is_two_char_seq(&'<', Some('=')));
    assert!(is_two_char_seq(&'>', Some('=')));
    assert!(is_two_char_seq(&'=', Some('=')));
    assert!(is_two_char_seq(&'!', Some('=')));
    assert!(!is_two_char_seq(&'<', Some('<')));
    assert!(!is_two_char_seq(&'=', Some('<')));
    assert!(!is_two_char_seq(&'+', Some('=')));
    assert!(!is_two_char_seq(&'<', None));
}

#[test]
fn currently_literal_only_for_open_literal() {
    assert!(currently_literal(&Accumulator::BuildingLiteral {
        text: vec!['a'],
        line: 0,
        column: 0
    }));
    assert!(!currently_literal(&Accumulator::Empty));
    assert!(!currently_literal(&Accumulator::BuildingIdentifier {
        text: vec!['a'],
        line: 0,
        column: 0
    }));
    assert!(!currently_literal(&Accumulator::PendingTwoCharOperator {
        first: '<',
        line: 0,
        column: 0
    }));
}

#[test]
fn push_if_not_none_flushes_only_open_accumulators() {
    let mut tokens: Vec<IntermediateToken> = Vec::new();
    push_if_not_none(&mut tokens, &Accumulator::Empty);
    assert_eq!(tokens.len(), 0);
    push_if_not_none(
        &mut tokens,
        &Accumulator::BuildingIdentifier { text: vec!['a', 'b'], line: 1, column: 7 },
    );
    assert_eq!(tokens, vec![lexeme(IntermediateTokenType::Identifier, "ab", 1, 7)]);
    push_if_not_none(
        &mut tokens,
        &Accumulator::PendingTwoCharOperator { first: '<', line: 1, column: 9 },
    );
    assert_eq!(tokens[1], lexeme(IntermediateTokenType::Operator, "<", 1, 9));
}

#[test]
fn intermediate_type_maps_directly_except_operator() {
    assert_eq!(
        intermediate_token_type_to_token_type(&IntermediateTokenType::Literal),
        Ok(TokenType::Literal)
    );
    assert_eq!(
        intermediate_token_type_to_token_type(&IntermediateTokenType::Identifier),
        Ok(TokenType::Identifier)
    );
    assert_eq!(
        intermediate_token_type_to_token_type(&IntermediateTokenType::Punctuation),
        Ok(TokenType::Punctuation)
    );
    assert!(intermediate_token_type_to_token_type(&IntermediateTokenType::Operator).is_err());
}

#[test]
fn classify_refines_each_category() {
    let lexemes = vec![
        lexeme(IntermediateTokenType::Identifier, "while", 0, 0),
        lexeme(IntermediateTokenType::Operator, "<=", 0, 6),
        lexeme(IntermediateTokenType::Operator, "^", 0, 9),
        lexeme(IntermediateTokenType::Identifier, "xor", 0, 11),
        lexeme(IntermediateTokenType::Identifier, "12", 0, 15),
        lexeme(IntermediateTokenType::Identifier, "w", 0, 18),
        lexeme(IntermediateTokenType::Literal, "let", 0, 20),
        lexeme(IntermediateTokenType::Punctuation, ";", 0, 25),
    ];
    let tokens = classify(&lexemes);
    let kinds: Vec<TokenType> = tokens.iter().map(|t| t.token_type).collect();
    assert_eq!(
        kinds,
        vec![
            TokenType::Keyword,
            TokenType::Relop,
            TokenType::MathematicalOp,
            TokenType::LogicalOp,
            TokenType::Number,
            TokenType::Identifier,
            TokenType::Literal,
            TokenType::Punctuation,
        ]
    );
    for (t, l) in tokens.iter().zip(lexemes.iter()) {
        assert_eq!(t.value, l.value);
        assert_eq!(t.line, l.line);
        assert_eq!(t.column, l.column);
    }
}

#[test]
fn literal_inside_classify_is_never_reinterpreted() {
    let lexemes = vec![
        lexeme(IntermediateTokenType::Literal, "42", 0, 0),
        lexeme(IntermediateTokenType::Literal, "if", 0, 5),
    ];
    let tokens = classify(&lexemes);
    assert_eq!(tokens[0].token_type, TokenType::Literal);
    assert_eq!(tokens[1].token_type, TokenType::Literal);
}
