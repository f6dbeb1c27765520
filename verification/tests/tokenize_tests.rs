use tokenizer::token::LexError;
use tokenizer::token::Token;
use tokenizer::token::TokenType;
use tokenizer::tokenize;

fn tok(token_type: TokenType, value: &str, line: u32, column: u32) -> Token {
    Token { token_type, value: value.to_string(), line, column }
}

#[test]
fn let_statement() {
    let tokens = tokenize("let x = 5;".to_string()).unwrap();
    assert_eq!(
        tokens,
        vec![
            tok(TokenType::Keyword, "let", 0, 0),
            tok(TokenType::Identifier, "x", 0, 4),
            tok(TokenType::MathematicalOp, "=", 0, 6),
            tok(TokenType::Number, "5", 0, 8),
            tok(TokenType::Punctuation, ";", 0, 9),
        ]
    );
}

#[test]
fn if_statement_with_relop() {
    let tokens = tokenize("if x >= 10 { }".to_string()).unwrap();
    assert_eq!(
        tokens,
        vec![
            tok(TokenType::Keyword, "if", 0, 0),
            tok(TokenType::Identifier, "x", 0, 3),
            tok(TokenType::Relop, ">=", 0, 5),
            tok(TokenType::Number, "10", 0, 8),
            tok(TokenType::Punctuation, "{", 0, 11),
            tok(TokenType::Punctuation, "}", 0, 13),
        ]
    );
}

#[test]
fn quoted_literal() {
    let tokens = tokenize("\"hello world\"".to_string()).unwrap();
    assert_eq!(tokens, vec![tok(TokenType::Literal, "hello world", 0, 0)]);
}

#[test]
fn unterminated_literal_fails() {
    let result = tokenize("\"unterminated".to_string());
    assert_eq!(result, Err(LexError::UnterminatedLiteral { line: 0, column: 0 }));
}

#[test]
fn unexpected_character_fails() {
    let result = tokenize("x $ y".to_string());
    assert_eq!(
        result,
        Err(LexError::UnexpectedCharacter { character: '$', line: 0, column: 2 })
    );
}

#[test]
fn logical_operator_word() {
    let tokens = tokenize("a and b".to_string()).unwrap();
    assert_eq!(
        tokens,
        vec![
            tok(TokenType::Identifier, "a", 0, 0),
            tok(TokenType::LogicalOp, "and", 0, 2),
            tok(TokenType::Identifier, "b", 0, 6),
        ]
    );
}

#[test]
fn tokenizing_twice_gives_identical_sequences() {
    let source = "function f ( num a ) { let b = a <= 3 ; \"s t r\" }";
    let first = tokenize(source.to_string());
    let second = tokenize(source.to_string());
    assert_eq!(first, second);
    let bad = tokenize("x $".to_string());
    let bad_again = tokenize("x $".to_string());
    assert_eq!(bad, bad_again);
}

#[test]
fn two_char_operator_is_greedy() {
    let tokens = tokenize("<=".to_string()).unwrap();
    assert_eq!(tokens, vec![tok(TokenType::Relop, "<=", 0, 0)]);
    let tokens = tokenize("a<=b".to_string()).unwrap();
    assert_eq!(
        tokens,
        vec![
            tok(TokenType::Identifier, "a", 0, 0),
            tok(TokenType::Relop, "<=", 0, 1),
            tok(TokenType::Identifier, "b", 0, 3),
        ]
    );
}

#[test]
fn equals_tie_break() {
    let tokens = tokenize("a = b == c".to_string()).unwrap();
    assert_eq!(tokens[1], tok(TokenType::MathematicalOp, "=", 0, 2));
    assert_eq!(tokens[3], tok(TokenType::Relop, "==", 0, 6));
}

#[test]
fn literal_keeps_structural_characters_verbatim() {
    let tokens = tokenize("\"a + b; {x}\"".to_string()).unwrap();
    assert_eq!(tokens, vec![tok(TokenType::Literal, "a + b; {x}", 0, 0)]);
}

#[test]
fn token_texts_cover_non_whitespace_content() {
    let source = "let x = 5;\n\"a b\" y";
    let tokens = tokenize(source.to_string()).unwrap();
    let concatenated: String = tokens.iter().map(|t| t.value.as_str()).collect::<Vec<_>>().join("");
    assert_eq!(concatenated, "letx=5;a by");
}

#[test]
fn newline_advances_line_and_column_is_global() {
    let tokens = tokenize("a\nb".to_string()).unwrap();
    assert_eq!(
        tokens,
        vec![tok(TokenType::Identifier, "a", 0, 0), tok(TokenType::Identifier, "b", 1, 2)]
    );
}

#[test]
fn all_keywords_are_keywords() {
    let words = [
        "structure", "function", "const", "let", "if", "else", "elif", "while", "for", "nothing",
        "num", "float", "char", "bool", "addr", "addrOf", "dataAt",
    ];
    for w in words {
        let tokens = tokenize(w.to_string()).unwrap();
        assert_eq!(tokens.len(), 1);
        assert_eq!(tokens[0].token_type, TokenType::Keyword, "{}", w);
    }
}

#[test]
fn all_logical_operators_are_logical() {
    let words = ["and", "or", "xor", "bitwiseAnd", "bitwiseOr", "bitwiseXor"];
    for w in words {
        let tokens = tokenize(w.to_string()).unwrap();
        assert_eq!(tokens.len(), 1);
        assert_eq!(tokens[0].token_type, TokenType::LogicalOp, "{}", w);
    }
}

#[test]
fn single_operators_classify() {
    let tokens = tokenize("+ - * / % ^ =".to_string()).unwrap();
    for t in &tokens {
        assert_eq!(t.token_type, TokenType::MathematicalOp, "{}", t.value);
    }
    let tokens = tokenize("< >".to_string()).unwrap();
    for t in &tokens {
        assert_eq!(t.token_type, TokenType::Relop, "{}", t.value);
    }
}

#[test]
fn bang_alone_is_unexpected() {
    let result = tokenize("!".to_string());
    assert_eq!(
        result,
        Err(LexError::UnexpectedCharacter { character: '!', line: 0, column: 0 })
    );
}

#[test]
fn tab_is_unexpected() {
    let result = tokenize("a\tb".to_string());
    assert_eq!(
        result,
        Err(LexError::UnexpectedCharacter { character: '\t', line: 0, column: 1 })
    );
}

#[test]
fn unterminated_literal_position_after_newlines() {
    let result = tokenize("a\nb\n\"open".to_string());
    assert_eq!(result, Err(LexError::UnterminatedLiteral { line: 2, column: 4 }));
}

#[test]
fn empty_source_gives_no_tokens() {
    let tokens = tokenize("".to_string()).unwrap();
    assert_eq!(tokens, vec![]);
}

#[test]
fn empty_literal() {
    let tokens = tokenize("\"\"".to_string()).unwrap();
    assert_eq!(tokens, vec![tok(TokenType::Literal, "", 0, 0)]);
}

#[test]
fn adjacent_literals() {
    let tokens = tokenize("\"a\"\"b\"".to_string()).unwrap();
    assert_eq!(
        tokens,
        vec![tok(TokenType::Literal, "a", 0, 0), tok(TokenType::Literal, "b", 0, 3)]
    );
}

#[test]
fn alphanumeric_identifier_and_numbers() {
    let tokens = tokenize("x1 42 5e3 nan".to_string()).unwrap();
    assert_eq!(
        tokens,
        vec![
            tok(TokenType::Identifier, "x1", 0, 0),
            tok(TokenType::Number, "42", 0, 3),
            tok(TokenType::Number, "5e3", 0, 6),
            tok(TokenType::Number, "nan", 0, 10),
        ]
    );
}

#[test]
fn unicode_letter_is_an_identifier() {
    let tokens = tokenize("école".to_string()).unwrap();
    assert_eq!(tokens, vec![tok(TokenType::Identifier, "école", 0, 0)]);
}

#[test]
fn punctuation_splits_identifiers() {
    let tokens = tokenize("f(a,b);".to_string()).unwrap();
    assert_eq!(
        tokens,
        vec![
            tok(TokenType::Identifier, "f", 0, 0),
            tok(TokenType::Punctuation, "(", 0, 1),
            tok(TokenType::Identifier, "a", 0, 2),
            tok(TokenType::Punctuation, ",", 0, 3),
            tok(TokenType::Identifier, "b", 0, 4),
            tok(TokenType::Punctuation, ")", 0, 5),
            tok(TokenType::Punctuation, ";", 0, 6),
        ]
    );
}
