use chibi_script::lexer as legacy;
use chibi_script::lexer::Lexer as LegacyLexer;
use chibi_script::syntax::lexer::{Keyword, LexError, Lexer, PrimitiveType, Span, StringLexer, TokenKind};

fn get_token_kinds<'src>(input: &'src str) -> Result<Vec<TokenKind<'src>>, LexError> {
    let mut lexer = StringLexer::new(input);
    lexer.lex().map(|tokens| tokens.into_iter().map(|t| t.0).collect())
}

fn legacy_tokens(input: &str) -> Result<Vec<legacy::Token>, legacy::LexError> {
    let mut lexer = legacy::StringLexer::new(input);
    lexer.lex()
}

#[test]
fn lexer_test_lex_symbols() {
    let input = ":(){ :|:& };: -> -";
    let expect = vec![
        TokenKind::Colon,
        TokenKind::LParen,
        TokenKind::RParen,
        TokenKind::LBrace,
        TokenKind::Colon,
        TokenKind::VBar,
        TokenKind::Colon,
        TokenKind::Ampersand,
        TokenKind::RBrace,
        TokenKind::Semicolon,
        TokenKind::Colon,
        TokenKind::Arrow,
        TokenKind::Minus,
        TokenKind::EOF,
    ];
    assert_eq!(get_token_kinds(input).unwrap(), expect);
}

#[test]
fn test_lex_symbols() {
    let input = ":(){ :|:& };:";
    let expect = vec![
        legacy::Token::Colon,
        legacy::Token::LParen,
        legacy::Token::RParen,
        legacy::Token::LBrace,
        legacy::Token::Colon,
        legacy::Token::VBar,
        legacy::Token::Colon,
        legacy::Token::Ampersand,
        legacy::Token::RBrace,
        legacy::Token::Semicolon,
        legacy::Token::Colon,
        legacy::Token::EOF,
    ];
    let Ok(tokens) = legacy_tokens(input) else { panic!() };
    assert_eq!(tokens, expect);
}

#[test]
fn lexer_test_lex_number() {
    let patterns = vec![
        ("32767", Ok(vec![TokenKind::Number(32767), TokenKind::EOF])),
        ("0", Ok(vec![TokenKind::Number(0), TokenKind::EOF])),
        ("-42", Ok(vec![TokenKind::Minus, TokenKind::Number(42), TokenKind::EOF])),
        ("042", Err(LexError::ParseNumberError)),
        ("-042", Err(LexError::ParseNumberError)),
    ];
    for (input, expect) in patterns {
        assert_eq!(get_token_kinds(input), expect);
    }
}

#[test]
fn test_lex_number() {
    let patterns = vec![
        ("32767", Ok(vec![legacy::Token::Number(32767), legacy::Token::EOF])),
        ("0", Ok(vec![legacy::Token::Number(0), legacy::Token::EOF])),
        ("-42", Ok(vec![legacy::Token::Number(-42), legacy::Token::EOF])),
        ("042", Err(legacy::LexError::ParseNumberError)),
        ("-042", Err(legacy::LexError::ParseNumberError)),
    ];
    for (input, expect) in patterns {
        assert_eq!(legacy_tokens(input), expect);
    }
}

#[test]
fn test_lex_identifiers_and_keywords() {
    let input = "fn main let i32 u64 _variable_name";
    let expect = vec![
        TokenKind::Keyword(Keyword::Fn),
        TokenKind::Identifier("main"),
        TokenKind::Keyword(Keyword::Let),
        TokenKind::Type(PrimitiveType::I32),
        TokenKind::Type(PrimitiveType::U64),
        TokenKind::Identifier("_variable_name"),
        TokenKind::EOF,
    ];
    assert_eq!(get_token_kinds(input).unwrap(), expect);
}

#[test]
fn test_lex_complex() {
    let input = "fn add(a: i32, b: i32) -> i32 { let sum = a + b; sum }";
    let expect = vec![
        TokenKind::Keyword(Keyword::Fn),
        TokenKind::Identifier("add"),
        TokenKind::LParen,
        TokenKind::Identifier("a"),
        TokenKind::Colon,
        TokenKind::Type(PrimitiveType::I32),
        TokenKind::Comma,
        TokenKind::Identifier("b"),
        TokenKind::Colon,
        TokenKind::Type(PrimitiveType::I32),
        TokenKind::RParen,
        TokenKind::Arrow,
        TokenKind::Type(PrimitiveType::I32),
        TokenKind::LBrace,
        TokenKind::Keyword(Keyword::Let),
        TokenKind::Identifier("sum"),
        TokenKind::Equal,
        TokenKind::Identifier("a"),
        TokenKind::Plus,
        TokenKind::Identifier("b"),
        TokenKind::Semicolon,
        TokenKind::Identifier("sum"),
        TokenKind::RBrace,
        TokenKind::EOF,
    ];
    assert_eq!(get_token_kinds(input).unwrap(), expect);
}

#[test]
fn lex_spans_count_bytes() {
    let mut lexer = StringLexer::new("é x");
    let tokens = lexer.lex();
    assert!(tokens.is_err());
    let mut lexer = StringLexer::new("ab  cd");
    let tokens: Vec<_> = lexer.lex().unwrap().into_iter().collect();
    assert_eq!(tokens[0].1, Span(0, 2));
    assert_eq!(tokens[1].1, Span(4, 6));
}

#[test]
fn lex_two_char_operators() {
    let expect = vec![
        TokenKind::DoubleEqual,
        TokenKind::NE,
        TokenKind::LE,
        TokenKind::GE,
        TokenKind::LT,
        TokenKind::GT,
        TokenKind::DoubleAmpersand,
        TokenKind::DoubleVbar,
        TokenKind::Exclamation,
        TokenKind::Equal,
        TokenKind::EOF,
    ];
    assert_eq!(get_token_kinds("== != <= >= < > && || ! =").unwrap(), expect);
}

#[test]
fn lex_number_limits() {
    assert_eq!(
        get_token_kinds("18446744073709551615").unwrap(),
        vec![TokenKind::Number(u64::MAX), TokenKind::EOF]
    );
    assert_eq!(get_token_kinds("18446744073709551616"), Err(LexError::ParseNumberError));
    assert_eq!(get_token_kinds("$"), Err(LexError::UnsupportedToken));
}

#[test]
fn legacy_lexer_words_and_minus() {
    let tokens = legacy_tokens("fn let x u8 i8 i32 -> -a").unwrap();
    assert_eq!(
        tokens,
        vec![
            legacy::Token::Keyword(legacy::Keyword::Fn),
            legacy::Token::Keyword(legacy::Keyword::Let),
            legacy::Token::Identifier("x".to_string()),
            legacy::Token::Type(legacy::PrimitiveType::I8),
            legacy::Token::Type(legacy::PrimitiveType::U8),
            legacy::Token::Type(legacy::PrimitiveType::I32),
            legacy::Token::Arrow,
            legacy::Token::Minus,
            legacy::Token::EOF,
        ]
    );
    assert_eq!(legacy_tokens("-0 09"), Ok(vec![legacy::Token::Number(0), legacy::Token::Number(0), legacy::Token::Number(9), legacy::Token::EOF]));
    assert_eq!(legacy_tokens("%"), Err(legacy::LexError::UnsupportedToken));
    assert_eq!(legacy_tokens("99999999999999999999"), Err(legacy::LexError::ParseNumberError));
}

#[test]
fn unicode_letters_and_numerals_continue_words() {
    let mut lexer = StringLexer::new("x\u{b2}y + \u{e9}");
    assert_eq!(lexer.lex().err(), Some(LexError::UnsupportedToken));
    let mut lexer = StringLexer::new("x\u{b2}\u{e9} 7");
    let tokens: Vec<_> = lexer.lex().unwrap().into_iter().collect();
    assert_eq!(tokens[0].kind(), &TokenKind::Identifier("x\u{b2}\u{e9}"));
    assert_eq!(tokens[0].span(), Span(0, 5));
    assert_eq!(tokens[1].kind(), &TokenKind::Number(7));
    assert_eq!(tokens[1].span(), Span(6, 7));
    assert_eq!(get_token_kinds("1\u{b2}"), Err(LexError::ParseNumberError));
    assert_eq!(get_token_kinds("4\u{663}"), Err(LexError::ParseNumberError));
    assert_eq!(get_token_kinds("4 \u{663}"), Err(LexError::UnsupportedToken));
}
