use nova::lexer::{tokenize, Lexer};
use nova::token::{lookup_ident, TokenType};

fn tokens_of(source: &str) -> Vec<TokenType> {
    tokenize(source.to_string()).expect("every literal fits")
}

fn ident(name: &str) -> TokenType {
    TokenType::Ident(name.to_string())
}

#[test]
fn single_character_tokens() {
    assert_eq!(
        tokens_of("=+-!*/<>,;(){}"),
        vec![
            TokenType::Assign,
            TokenType::Plus,
            TokenType::Minus,
            TokenType::Bang,
            TokenType::Asterisk,
            TokenType::Slash,
            TokenType::LT,
            TokenType::GT,
            TokenType::Comma,
            TokenType::Semicolon,
            TokenType::LParen,
            TokenType::RParen,
            TokenType::LBrace,
            TokenType::RBrace,
            TokenType::EOF,
        ]
    );
}

#[test]
fn two_character_tokens_need_one_character_of_lookahead() {
    assert_eq!(
        tokens_of("== != -> = ! -"),
        vec![
            TokenType::Eq,
            TokenType::NotEq,
            TokenType::Arrow,
            TokenType::Assign,
            TokenType::Bang,
            TokenType::Minus,
            TokenType::EOF,
        ]
    );
    assert_eq!(
        tokens_of("==="),
        vec![TokenType::Eq, TokenType::Assign, TokenType::EOF]
    );
    assert_eq!(
        tokens_of("!=="),
        vec![TokenType::NotEq, TokenType::Assign, TokenType::EOF]
    );
    assert_eq!(
        tokens_of("-->"),
        vec![TokenType::Minus, TokenType::Arrow, TokenType::EOF]
    );
}

#[test]
fn every_keyword_is_recognised() {
    assert_eq!(
        tokens_of("fn let mut true false if else return unsafe zone"),
        vec![
            TokenType::Function,
            TokenType::Let,
            TokenType::Mut,
            TokenType::True,
            TokenType::False,
            TokenType::If,
            TokenType::Else,
            TokenType::Return,
            TokenType::Unsafe,
            TokenType::Zone,
            TokenType::EOF,
        ]
    );
}

#[test]
fn words_outside_the_keyword_table_are_identifiers() {
    assert_eq!(
        tokens_of("foo _bar lets iff Fn"),
        vec![
            ident("foo"),
            ident("_bar"),
            ident("lets"),
            ident("iff"),
            ident("Fn"),
            TokenType::EOF,
        ]
    );
}

#[test]
fn identifiers_take_letters_and_underscores_only() {
    assert_eq!(
        tokens_of("abc123"),
        vec![ident("abc"), TokenType::Int(123), TokenType::EOF]
    );
    assert_eq!(
        tokens_of("snake_case"),
        vec![ident("snake_case"), TokenType::EOF]
    );
    assert_eq!(tokens_of("été"), vec![ident("été"), TokenType::EOF]);
}

#[test]
fn integers_are_maximal_digit_runs() {
    assert_eq!(
        tokens_of("5 10 007 9223372036854775807"),
        vec![
            TokenType::Int(5),
            TokenType::Int(10),
            TokenType::Int(7),
            TokenType::Int(9223372036854775807),
            TokenType::EOF,
        ]
    );
}

#[test]
fn white_space_is_skipped() {
    assert_eq!(
        tokens_of(" \t\r\n let \n\n x\t=\r5 ;  "),
        vec![
            TokenType::Let,
            ident("x"),
            TokenType::Assign,
            TokenType::Int(5),
            TokenType::Semicolon,
            TokenType::EOF,
        ]
    );
}

#[test]
fn unrecognised_characters_are_illegal_tokens() {
    assert_eq!(
        tokens_of("@ # 5"),
        vec![
            TokenType::Illegal,
            TokenType::Illegal,
            TokenType::Int(5),
            TokenType::EOF,
        ]
    );
    assert_eq!(
        tokens_of("a\0b"),
        vec![ident("a"), TokenType::Illegal, ident("b"), TokenType::EOF]
    );
}

#[test]
fn end_of_input_keeps_yielding_eof() {
    let mut lexer = Lexer::new("x".to_string());
    assert_eq!(lexer.next_token(), ident("x"));
    assert_eq!(lexer.next_token(), TokenType::EOF);
    assert_eq!(lexer.next_token(), TokenType::EOF);
    assert_eq!(lexer.next_token(), TokenType::EOF);
    let mut empty = Lexer::new(String::new());
    assert_eq!(empty.next_token(), TokenType::EOF);
    assert_eq!(empty.next_token(), TokenType::EOF);
}

#[test]
fn a_full_statement_lexes_token_by_token() {
    let mut lexer = Lexer::new("let add = fn(x, y) { x + y };".to_string());
    let expected = vec![
        TokenType::Let,
        ident("add"),
        TokenType::Assign,
        TokenType::Function,
        TokenType::LParen,
        ident("x"),
        TokenType::Comma,
        ident("y"),
        TokenType::RParen,
        TokenType::LBrace,
        ident("x"),
        TokenType::Plus,
        ident("y"),
        TokenType::RBrace,
        TokenType::Semicolon,
        TokenType::EOF,
    ];
    for want in expected {
        assert!(lexer.next_fits());
        assert_eq!(lexer.next_token(), want);
    }
}

#[test]
fn an_integer_literal_beyond_64_bits_does_not_fit() {
    let lexer = Lexer::new("9223372036854775808".to_string());
    assert!(!lexer.next_fits());
    assert!(!lexer.fits_to_end());
    assert_eq!(tokenize("9223372036854775808".to_string()), None);
    assert_eq!(tokenize("let x = 99999999999999999999;".to_string()), None);
}

#[test]
fn a_later_literal_that_does_not_fit_is_found_without_moving() {
    let mut lexer = Lexer::new("1 + 99999999999999999999".to_string());
    assert!(lexer.next_fits());
    assert!(!lexer.fits_to_end());
    assert_eq!(lexer.next_token(), TokenType::Int(1));
    assert!(lexer.next_fits());
    assert_eq!(lexer.next_token(), TokenType::Plus);
    assert!(!lexer.next_fits());
}

#[test]
fn numeric_characters_that_are_no_decimal_digits_do_not_fit() {
    let lexer = Lexer::new("\u{0663}".to_string());
    assert!(!lexer.next_fits());
    assert_eq!(tokenize("x = \u{00bd}".to_string()), None);
}

#[test]
fn fits_to_end_holds_of_ordinary_source() {
    assert!(Lexer::new("let x = 5; x * 2".to_string()).fits_to_end());
    assert!(Lexer::new(String::new()).fits_to_end());
    assert!(Lexer::new("   ".to_string()).fits_to_end());
}

#[test]
fn lookup_ident_resolves_keywords_and_names() {
    assert_eq!(lookup_ident("fn"), TokenType::Function);
    assert_eq!(lookup_ident("let"), TokenType::Let);
    assert_eq!(lookup_ident("mut"), TokenType::Mut);
    assert_eq!(lookup_ident("true"), TokenType::True);
    assert_eq!(lookup_ident("false"), TokenType::False);
    assert_eq!(lookup_ident("if"), TokenType::If);
    assert_eq!(lookup_ident("else"), TokenType::Else);
    assert_eq!(lookup_ident("return"), TokenType::Return);
    assert_eq!(lookup_ident("unsafe"), TokenType::Unsafe);
    assert_eq!(lookup_ident("zone"), TokenType::Zone);
    assert_eq!(lookup_ident("zones"), ident("zones"));
    assert_eq!(lookup_ident(""), ident(""));
}

#[test]
fn tokens_print_as_their_source_text() {
    assert_eq!(TokenType::Illegal.to_string(), "ILLEGAL");
    assert_eq!(TokenType::EOF.to_string(), "EOF");
    assert_eq!(ident("foo").to_string(), "foo");
    assert_eq!(TokenType::Int(42).to_string(), "42");
    assert_eq!(TokenType::Int(-42).to_string(), "-42");
    assert_eq!(TokenType::Int(0).to_string(), "0");
    assert_eq!(
        TokenType::Int(i64::MIN).to_string(),
        "-9223372036854775808"
    );
    assert_eq!(TokenType::Int(i64::MAX).to_string(), "9223372036854775807");
    assert_eq!(TokenType::Assign.to_string(), "=");
    assert_eq!(TokenType::Plus.to_string(), "+");
    assert_eq!(TokenType::Minus.to_string(), "-");
    assert_eq!(TokenType::Bang.to_string(), "!");
    assert_eq!(TokenType::Asterisk.to_string(), "*");
    assert_eq!(TokenType::Slash.to_string(), "/");
    assert_eq!(TokenType::LT.to_string(), "<");
    assert_eq!(TokenType::GT.to_string(), ">");
    assert_eq!(TokenType::Eq.to_string(), "==");
    assert_eq!(TokenType::NotEq.to_string(), "!=");
    assert_eq!(TokenType::Comma.to_string(), ",");
    assert_eq!(TokenType::Semicolon.to_string(), ";");
    assert_eq!(TokenType::LParen.to_string(), "(");
    assert_eq!(TokenType::RParen.to_string(), ")");
    assert_eq!(TokenType::LBrace.to_string(), "{");
    assert_eq!(TokenType::RBrace.to_string(), "}");
    assert_eq!(TokenType::Arrow.to_string(), "->");
    assert_eq!(TokenType::Function.to_string(), "fn");
    assert_eq!(TokenType::Let.to_string(), "let");
    assert_eq!(TokenType::Mut.to_string(), "mut");
    assert_eq!(TokenType::True.to_string(), "true");
    assert_eq!(TokenType::False.to_string(), "false");
    assert_eq!(TokenType::If.to_string(), "if");
    assert_eq!(TokenType::Else.to_string(), "else");
    assert_eq!(TokenType::Return.to_string(), "return");
    assert_eq!(TokenType::Unsafe.to_string(), "unsafe");
    assert_eq!(TokenType::Zone.to_string(), "zone");
}

#[test]
fn debug_string_is_what_debug_prints() {
    let samples = vec![
        TokenType::Illegal,
        TokenType::EOF,
        ident("foo"),
        ident("é_x"),
        ident(""),
        TokenType::Int(0),
        TokenType::Int(-17),
        TokenType::Int(i64::MIN),
        TokenType::Assign,
        TokenType::Semicolon,
        TokenType::LBrace,
        TokenType::Arrow,
        TokenType::Function,
        TokenType::Zone,
    ];
    for token in samples {
        assert_eq!(token.debug_string(), format!("{:?}", token));
    }
    assert_eq!(ident("foo").debug_string(), "Ident(\"foo\")");
    assert_eq!(TokenType::Int(5).debug_string(), "Int(5)");
    assert_eq!(TokenType::NotEq.debug_string(), "NotEq");
}

#[test]
fn tokens_compare_by_tag_and_payload() {
    assert_eq!(ident("a"), ident("a"));
    assert_ne!(ident("a"), ident("b"));
    assert_ne!(TokenType::Int(1), TokenType::Int(2));
    assert_ne!(TokenType::Int(1), ident("1"));
    assert_ne!(TokenType::Plus, TokenType::Minus);
    assert_eq!(ident("a").clone(), ident("a"));
    assert_eq!(TokenType::Int(9).clone(), TokenType::Int(9));
    assert_eq!(TokenType::Else.clone(), TokenType::Else);
}
