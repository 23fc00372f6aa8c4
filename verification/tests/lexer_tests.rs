use compiler::lexer::{lex_source, LexingError, SlicedError, Token};

#[test]
fn test_lex_valid_tokens() {
    let source = r#"let x = 42; let y = 3.14; return x + y;"#;
    let tokens = lex_source(source);

    assert_eq!(tokens.len(), 15);
    assert!(tokens.iter().all(|t| t.is_ok()));

    let expected = vec![
        Token::Let,
        Token::Ident("x".to_string()),
        Token::Eq,
        Token::Integer(42),
        Token::Semi,
        Token::Let,
        Token::Ident("y".to_string()),
        Token::Eq,
        Token::Float("3.14".to_string()),
        Token::Semi,
        Token::Return,
        Token::Ident("x".to_string()),
        Token::Plus,
        Token::Ident("y".to_string()),
        Token::Semi,
    ];

    for (token, expected) in tokens.into_iter().map(Result::unwrap).zip(expected) {
        assert_eq!(token.token, expected);
    }
}

#[test]
fn test_lex_unexpected_character() {
    let source = "let x = @;";
    let tokens = lex_source(source);

    assert_eq!(tokens.len(), 5);

    assert_eq!(tokens[0].as_ref().unwrap().token, Token::Let);
    assert!(matches!(
        tokens[3],
        Err(SlicedError {
            error: LexingError::NonAsciiCharacter,
            ..
        })
    ));
}

#[test]
fn test_lex_keywords_and_identifiers() {
    let source = "fn foo() { let bar = 42; }";
    let tokens = lex_source(source);

    assert_eq!(tokens.len(), 11);
    assert!(tokens.iter().all(|t| t.is_ok()));

    let expected = vec![
        Token::Fn,
        Token::Ident("foo".to_string()),
        Token::LParen,
        Token::RParen,
        Token::LBrace,
        Token::Let,
        Token::Ident("bar".to_string()),
        Token::Eq,
        Token::Integer(42),
        Token::Semi,
        Token::RBrace,
    ];

    for (token, expected) in tokens.into_iter().map(Result::unwrap).zip(expected) {
        assert_eq!(token.token, expected);
    }
}

#[test]
fn test_lex_strings() {
    let source = r#"let greeting = "Hello, World!";"#;
    let tokens = lex_source(source);

    assert_eq!(tokens.len(), 5);
    assert!(tokens.iter().all(|t| t.is_ok()));

    let expected = vec![
        Token::Let,
        Token::Ident("greeting".to_string()),
        Token::Eq,
        Token::String("Hello, World!".to_string()),
        Token::Semi,
    ];

    for (token, expected) in tokens.into_iter().map(Result::unwrap).zip(expected) {
        assert_eq!(token.token, expected);
    }
}

#[test]
fn test_lex_nested_expressions() {
    let source = "let result = (1 + 2) * (3 - 4);";
    let tokens = lex_source(source);

    assert_eq!(tokens.len(), 15);
    assert!(tokens.iter().all(|t| t.is_ok()));

    let expected = vec![
        Token::Let,
        Token::Ident("result".to_string()),
        Token::Eq,
        Token::LParen,
        Token::Integer(1),
        Token::Plus,
        Token::Integer(2),
        Token::RParen,
        Token::Star,
        Token::LParen,
        Token::Integer(3),
        Token::Minus,
        Token::Integer(4),
        Token::RParen,
        Token::Semi,
    ];

    for (token, expected) in tokens.into_iter().map(Result::unwrap).zip(expected) {
        assert_eq!(token.token, expected);
    }
}

#[test]
fn test_empty_source() {
    let source = "";
    let tokens = lex_source(source);

    assert!(tokens.is_empty());
}

#[test]
fn test_whitespace_only() {
    let source = "   \n\t   ";
    let tokens = lex_source(source);

    assert!(tokens.is_empty());
}

#[test]
fn test_comments_skipped() {
    let source = r#"
            // This is a single-line comment
            let x = 10;
        "#;
    let tokens = lex_source(source);

    assert_eq!(tokens.len(), 5);

    let expected = vec![
        Token::Let,
        Token::Ident("x".to_string()),
        Token::Eq,
        Token::Integer(10),
        Token::Semi,
    ];

    for (token, expected) in tokens.into_iter().map(Result::unwrap).zip(expected) {
        assert_eq!(token.token, expected);
    }
}
