use rust_less::error::Error;
use rust_less::lexer::{Lexer, TokenType};

#[test]
fn test_basic_tokens() {
    let mut lexer = Lexer::new("+ - * / %".to_string());
    let tokens = lexer.tokenize().unwrap();

    assert_eq!(tokens.len(), 6);
    assert!(matches!(tokens[0].token_type, TokenType::Plus));
    assert!(matches!(tokens[1].token_type, TokenType::Minus));
    assert!(matches!(tokens[2].token_type, TokenType::Multiply));
    assert!(matches!(tokens[3].token_type, TokenType::Divide));
    assert!(matches!(tokens[4].token_type, TokenType::Modulo));
    assert!(matches!(tokens[5].token_type, TokenType::Eof));
}

#[test]
fn test_string_literal() {
    let mut lexer = Lexer::new("\"hello world\"".to_string());
    let tokens = lexer.tokenize().unwrap();

    assert_eq!(tokens.len(), 2);
    if let TokenType::String(s) = &tokens[0].token_type {
        assert_eq!(s, "hello world");
    } else {
        panic!("Expected string token");
    }
}

#[test]
fn test_number() {
    let mut lexer = Lexer::new("123.45".to_string());
    let tokens = lexer.tokenize().unwrap();

    assert_eq!(tokens.len(), 2);
    if let TokenType::Number(n) = &tokens[0].token_type {
        let value: f64 = n.parse().unwrap();
        assert_eq!(value, 123.45);
    } else {
        panic!("Expected number token");
    }
}

#[test]
fn test_at_keyword() {
    let mut lexer = Lexer::new("@variable @media".to_string());
    let tokens = lexer.tokenize().unwrap();

    assert_eq!(tokens.len(), 3);
    if let TokenType::AtKeyword(s) = &tokens[0].token_type {
        assert_eq!(s, "variable");
    } else {
        panic!("Expected at-keyword token");
    }
}

#[test]
fn test_hash() {
    let mut lexer = Lexer::new("#ff0000".to_string());
    let tokens = lexer.tokenize().unwrap();

    assert_eq!(tokens.len(), 2);
    if let TokenType::Hash(s) = &tokens[0].token_type {
        assert_eq!(s, "ff0000");
    } else {
        panic!("Expected hash token");
    }
}

#[test]
fn test_comment() {
    let mut lexer = Lexer::new("// line comment".to_string());
    let tokens = lexer.tokenize().unwrap();

    assert_eq!(tokens.len(), 2);
    if let TokenType::Comment(s) = &tokens[0].token_type {
        assert_eq!(s, "// line comment");
    } else {
        panic!("Expected comment token");
    }

    let mut lexer2 = Lexer::new("/* block comment */".to_string());
    let tokens2 = lexer2.tokenize().unwrap();

    assert_eq!(tokens2.len(), 2);
    if let TokenType::Comment(s) = &tokens2[0].token_type {
        assert_eq!(s, "/* block comment */");
    } else {
        panic!("Expected block comment token");
    }
}

#[test]
fn positions_follow_lines_and_columns() {
    let mut lexer = Lexer::new("a\n  b".to_string());
    let tokens = lexer.tokenize().unwrap();
    assert_eq!(tokens.len(), 3);
    assert_eq!((tokens[0].position.line, tokens[0].position.column), (1, 1));
    assert_eq!((tokens[1].position.line, tokens[1].position.column), (2, 3));
    assert_eq!(tokens[1].lexeme, "b");
}

#[test]
fn keywords_operators_and_merges() {
    let mut lexer = Lexer::new("when and or not <= >= ... +: +_: !important !default".to_string());
    let kinds: Vec<&'static str> = lexer
        .tokenize()
        .unwrap()
        .iter()
        .map(|t| t.token_type.to_display_string())
        .collect();
    assert_eq!(
        kinds,
        vec![
            "When",
            "And",
            "Or",
            "Not",
            "LessThanOrEqual",
            "GreaterThanOrEqual",
            "Ellipsis",
            "MergeComma",
            "MergeSpace",
            "Important",
            "Default",
            "Eof"
        ]
    );
}

#[test]
fn percentages_interpolation_and_escapes() {
    let mut lexer = Lexer::new("50% @{name} 'a\\'b' -webkit-box".to_string());
    let tokens = lexer.tokenize().unwrap();
    assert_eq!(tokens[0].token_type, TokenType::Percentage("50".to_string()));
    assert_eq!(tokens[0].lexeme, "50%");
    assert_eq!(tokens[1].token_type, TokenType::VariableInterpolation("name".to_string()));
    assert_eq!(tokens[1].lexeme, "@{name}");
    assert_eq!(tokens[2].token_type, TokenType::String("a'b".to_string()));
    assert_eq!(tokens[3].token_type, TokenType::Identifier("-webkit-box".to_string()));
}

#[test]
fn lexical_errors() {
    let err = Lexer::new("\"open".to_string()).tokenize().unwrap_err();
    assert!(matches!(err, Error::LexError { .. }));
    assert!(err.message().contains("Unterminated string literal"));

    let err = Lexer::new("a ?".to_string()).tokenize().unwrap_err();
    assert_eq!(err.message(), "Lexical error: Unexpected character: '?'");
    assert_eq!((err.line(), err.column()), (Some(1), Some(3)));

    let err = Lexer::new("!nope".to_string()).tokenize().unwrap_err();
    assert_eq!(err.message(), "Lexical error: Unknown directive: !nope");

    let err = Lexer::new("@{}".to_string()).tokenize().unwrap_err();
    assert!(err.message().contains("Empty variable interpolation"));

    let err = Lexer::new("/* open".to_string()).tokenize().unwrap_err();
    assert!(matches!(err, Error::ParseError { .. }));
    assert!(err.message().contains("Unterminated block comment"));
}
