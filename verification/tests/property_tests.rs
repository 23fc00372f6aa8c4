use compiler::lexer::{lex_source, LexingError, Token};

fn all_fixed_tokens() -> Vec<Token> {
    vec![
        Token::Period,
        Token::Comma,
        Token::Semi,
        Token::Bang,
        Token::Question,
        Token::Colon,
        Token::ColonColon,
        Token::LParen,
        Token::RParen,
        Token::LSquare,
        Token::RSquare,
        Token::LBrace,
        Token::RBrace,
        Token::StraightArrow,
        Token::EqArrow,
        Token::Plus,
        Token::Minus,
        Token::Star,
        Token::Slash,
        Token::Modulus,
        Token::EqEq,
        Token::EqEqEq,
        Token::Ne,
        Token::Nee,
        Token::Less,
        Token::LessEq,
        Token::Greater,
        Token::GreaterEq,
        Token::AndAnd,
        Token::OrOr,
        Token::Eq,
        Token::PlusEq,
        Token::MinusEq,
        Token::StarEq,
        Token::SlashEq,
        Token::Let,
        Token::Fn,
        Token::If,
        Token::Else,
        Token::While,
        Token::For,
        Token::Return,
        Token::Class,
        Token::Impl,
        Token::Struct,
        Token::Enum,
        Token::SelfValue,
        Token::Super,
        Token::Use,
        Token::Mod,
        Token::Const,
        Token::Static,
    ]
}

// Round-trip: rendering a fixed-text token yields exactly the literal that
// re-tokenizes to that same token, spanning the whole text.
#[test]
fn test_fixed_token_round_trip() {
    for token in all_fixed_tokens() {
        let text = token.render();
        let results = lex_source(&text);
        assert_eq!(results.len(), 1, "{} lexed to {} results", text, results.len());
        let lexed = results[0].as_ref().unwrap();
        assert_eq!(lexed.token, token);
        assert_eq!(lexed.span.start, 0);
        assert_eq!(lexed.span.end, text.chars().count());
        assert_eq!(lexed.slice(), text);
    }
}

// Span soundness: each token's slice is the lexeme text that produced it,
// and spans are non-overlapping and strictly ordered by start.
#[test]
fn test_span_soundness() {
    let source = "let x = 42; // count\nwhile x >= 7 { x -= 1; }";
    let results = lex_source(source);
    assert!(!results.is_empty());

    let lexemes = [
        "let", "x", "=", "42", ";", "while", "x", ">=", "7", "{", "x", "-=", "1", ";", "}",
    ];
    assert_eq!(results.len(), lexemes.len());

    let mut prev_end = 0;
    for (result, lexeme) in results.iter().zip(lexemes) {
        let token = result.as_ref().unwrap();
        assert_eq!(token.slice(), lexeme);
        assert_eq!(&source[token.span.start..token.span.end], lexeme);
        assert!(token.span.start >= prev_end);
        assert!(token.span.start < token.span.end);
        assert!(token.span.end <= source.len());
        prev_end = token.span.end;
    }
}

// Longest match: `===` is one token, not `==` then `=`; `!==` likewise.
#[test]
fn test_longest_match() {
    let results = lex_source("===");
    assert_eq!(results.len(), 1);
    assert_eq!(results[0].as_ref().unwrap().token, Token::EqEqEq);

    let results = lex_source("!==");
    assert_eq!(results.len(), 1);
    assert_eq!(results[0].as_ref().unwrap().token, Token::Nee);
}

// Keyword precedence: a keyword prefix does not split an identifier.
#[test]
fn test_keyword_precedence() {
    let results = lex_source("selfish");
    assert_eq!(results.len(), 1);
    assert_eq!(
        results[0].as_ref().unwrap().token,
        Token::Ident("selfish".to_string())
    );
}

// Whitespace and comments do not change the token sequence.
#[test]
fn test_whitespace_idempotence() {
    let plain: Vec<Token> = lex_source("let x=1;")
        .into_iter()
        .map(|r| r.unwrap().token)
        .collect();
    let spaced: Vec<Token> = lex_source("  let   x = 1 ;  // trailing\n")
        .into_iter()
        .map(|r| r.unwrap().token)
        .collect();
    assert_eq!(plain, spaced);
}

// Error resumption: scanning continues after an invalid character.
#[test]
fn test_error_resumption() {
    let source = "let x = @;";
    let results = lex_source(source);
    assert_eq!(results.len(), 5);
    assert_eq!(results[0].as_ref().unwrap().token, Token::Let);
    assert_eq!(
        results[1].as_ref().unwrap().token,
        Token::Ident("x".to_string())
    );
    assert_eq!(results[2].as_ref().unwrap().token, Token::Eq);
    let err = results[3].as_ref().unwrap_err();
    assert_eq!(err.error, LexingError::NonAsciiCharacter);
    assert_eq!(err.span.start, 8);
    assert_eq!(err.span.end, 9);
    assert_eq!(err.slice(), "@");
    assert_eq!(results[4].as_ref().unwrap().token, Token::Semi);
}

// Integer literals past i32::MAX are reported as an overflow error and
// scanning resumes after them.
#[test]
fn test_integer_overflow() {
    let results = lex_source("let x = 1000000000000000000000000000;");
    assert_eq!(results.len(), 5);
    let err = results[3].as_ref().unwrap_err();
    assert_eq!(err.error, LexingError::InvalidInteger("overflow"));
    assert_eq!(results[4].as_ref().unwrap().token, Token::Semi);

    let edge = lex_source("2147483647 2147483648");
    assert_eq!(edge.len(), 2);
    assert_eq!(edge[0].as_ref().unwrap().token, Token::Integer(2147483647));
    assert_eq!(
        edge[1].as_ref().unwrap_err().error,
        LexingError::InvalidInteger("overflow")
    );
}

// Block comments are skipped; an unterminated one runs to end of input.
#[test]
fn test_block_comments() {
    let results = lex_source("a /* comment ** with * stars */ b");
    let tokens: Vec<Token> = results.into_iter().map(|r| r.unwrap().token).collect();
    assert_eq!(
        tokens,
        vec![
            Token::Ident("a".to_string()),
            Token::Ident("b".to_string())
        ]
    );

    let unterminated = lex_source("a /* never closed");
    assert_eq!(unterminated.len(), 1);
    assert_eq!(
        unterminated[0].as_ref().unwrap().token,
        Token::Ident("a".to_string())
    );
}

// A string literal's payload strips the quotes and keeps backslashes
// literally; an unterminated string yields one error for its quote.
#[test]
fn test_string_payloads() {
    let results = lex_source(r#""a\"b" "\\""#);
    assert_eq!(results.len(), 2);
    assert_eq!(
        results[0].as_ref().unwrap().token,
        Token::String(r#"a\"b"#.to_string())
    );
    assert_eq!(
        results[1].as_ref().unwrap().token,
        Token::String(r#"\\"#.to_string())
    );

    let unterminated = lex_source("\"abc");
    assert_eq!(unterminated.len(), 2);
    assert_eq!(
        unterminated[0].as_ref().unwrap_err().error,
        LexingError::NonAsciiCharacter
    );
    assert_eq!(
        unterminated[1].as_ref().unwrap().token,
        Token::Ident("abc".to_string())
    );
}

// Floats need digits on both sides of the point; a bare trailing point
// lexes as an integer followed by a period.
#[test]
fn test_float_shapes() {
    let results = lex_source("3.14 3. .5");
    let tokens: Vec<Token> = results.into_iter().map(|r| r.unwrap().token).collect();
    assert_eq!(
        tokens,
        vec![
            Token::Float("3.14".to_string()),
            Token::Integer(3),
            Token::Period,
            Token::Period,
            Token::Integer(5),
        ]
    );
}

// A lone `&` or `|` is not a token: each yields one error and scanning
// resumes.
#[test]
fn test_lone_ampersand_and_pipe() {
    let results = lex_source("a & b | c && d");
    assert_eq!(results.len(), 7);
    assert_eq!(
        results[1].as_ref().unwrap_err().error,
        LexingError::NonAsciiCharacter
    );
    assert_eq!(
        results[3].as_ref().unwrap_err().error,
        LexingError::NonAsciiCharacter
    );
    assert_eq!(results[5].as_ref().unwrap().token, Token::AndAnd);
}

// Underscores start and continue identifiers; `::` beats `:` on length.
#[test]
fn test_identifier_and_colon_shapes() {
    let tokens: Vec<Token> = lex_source("_x::y_1:z")
        .into_iter()
        .map(|r| r.unwrap().token)
        .collect();
    assert_eq!(
        tokens,
        vec![
            Token::Ident("_x".to_string()),
            Token::ColonColon,
            Token::Ident("y_1".to_string()),
            Token::Colon,
            Token::Ident("z".to_string()),
        ]
    );
}

// Display forms of literal tokens.
#[test]
fn test_render_forms() {
    assert_eq!(Token::Integer(42).render(), "42");
    assert_eq!(Token::Integer(0).render(), "0");
    assert_eq!(Token::Integer(-2147483648).render(), "-2147483648");
    assert_eq!(Token::Float("3.14".to_string()).render(), "3.14");
    assert_eq!(
        Token::String("Hello".to_string()).render(),
        "str(\"Hello\")"
    );
    assert_eq!(Token::Ident("x".to_string()).render(), "ident(x)");
}

// Error descriptions, including the variants the scanner itself never
// produces.
#[test]
fn test_error_descriptions() {
    assert_eq!(
        LexingError::NonAsciiCharacter.describe(),
        "non ascii character"
    );
    assert_eq!(
        LexingError::InvalidInteger("overflow").describe(),
        "invalid integer: overflow"
    );
    assert_eq!(
        LexingError::InvalidInteger("other").describe(),
        "invalid integer: other"
    );
    assert_eq!(LexingError::InvalidFloat.describe(), "invalid float");
}

// The three-line diagnostic for an error names its 1-based position.
#[test]
fn test_diagnostic_rendering() {
    let source = "let x = 1;\nlet y = @;";
    let results = lex_source(source);
    let err = results
        .into_iter()
        .find_map(|r| r.err())
        .expect("one lexeme is malformed");
    assert_eq!(err.render(), "error at 2:9:\n@\n^ non ascii character\n");
}
