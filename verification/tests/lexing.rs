use lib::{Delimiter, Keyword, LexError, Lexer, Literal, Operator, SourcePosition, Token, TokenKind};

fn kinds(src: &str) -> Vec<TokenKind> {
    Lexer::new(src)
        .tokenize()
        .unwrap()
        .into_iter()
        .map(|t| t.kind)
        .collect()
}

fn lex_err(src: &str) -> LexError {
    Lexer::new(src).tokenize().unwrap_err()
}

fn pos(line: usize, column: usize) -> SourcePosition {
    SourcePosition::new(line, column)
}

#[test]
fn empty_source_is_just_end_of_input() {
    let tokens = Lexer::new("").tokenize().unwrap();
    assert_eq!(tokens, vec![Token::eof(1, 1)]);
}

#[test]
fn only_white_space_and_comments() {
    let tokens = Lexer::new("  // one\n\t// two").tokenize().unwrap();
    assert_eq!(tokens, vec![Token::eof(2, 8)]);
}

#[test]
fn unicode_white_space_is_skipped() {
    assert_eq!(
        kinds("a\u{3000}b\u{a0}c"),
        vec![
            TokenKind::Ident("a".to_string()),
            TokenKind::Ident("b".to_string()),
            TokenKind::Ident("c".to_string()),
            TokenKind::Eof
        ]
    );
}

#[test]
fn tokenize_ends_with_a_single_end_of_input() {
    let tokens = Lexer::new("let x = (1 + y) * 3; // done\nreturn x;").tokenize().unwrap();
    assert!(tokens.last().unwrap().kind.is_eof());
    assert_eq!(tokens.iter().filter(|t| t.kind.is_eof()).count(), 1);
}

#[test]
fn positions_follow_the_source() {
    let tokens = Lexer::new("let a =\n  12; x\n\"s\"").tokenize().unwrap();
    let positions: Vec<SourcePosition> = tokens.iter().map(|t| t.position).collect();
    assert_eq!(
        positions,
        vec![pos(1, 1), pos(1, 5), pos(1, 7), pos(2, 3), pos(2, 5), pos(2, 7), pos(3, 1), pos(3, 4)]
    );
    for w in positions.windows(2) {
        assert!((w[0].line, w[0].column) < (w[1].line, w[1].column));
    }
}

#[test]
fn next_token_keeps_returning_end_of_input() {
    let mut lexer = Lexer::new("x");
    assert_eq!(lexer.next_token().unwrap(), Token::ident("x".to_string(), 1, 1));
    assert_eq!(lexer.next_token().unwrap(), Token::eof(1, 2));
    assert_eq!(lexer.next_token().unwrap(), Token::eof(1, 2));
}

#[test]
fn words_become_keywords_booleans_or_identifiers() {
    assert_eq!(
        kinds("let mut true false _x1 Self self letter"),
        vec![
            TokenKind::Keyword(Keyword::Let),
            TokenKind::Keyword(Keyword::Mut),
            TokenKind::Literal(Literal::Bool(true)),
            TokenKind::Literal(Literal::Bool(false)),
            TokenKind::Ident("_x1".to_string()),
            TokenKind::Keyword(Keyword::SelfUpper),
            TokenKind::Keyword(Keyword::SelfLower),
            TokenKind::Ident("letter".to_string()),
            TokenKind::Eof
        ]
    );
}

#[test]
fn numbers() {
    assert_eq!(
        kinds("0 007 9223372036854775807 3.14 1. 1..2"),
        vec![
            TokenKind::Literal(Literal::Int(0)),
            TokenKind::Literal(Literal::Int(7)),
            TokenKind::Literal(Literal::Int(i64::MAX)),
            TokenKind::Literal(Literal::Float("3.14".to_string())),
            TokenKind::Literal(Literal::Int(1)),
            TokenKind::Delimiter(Delimiter::Dot),
            TokenKind::Literal(Literal::Int(1)),
            TokenKind::Operator(Operator::Range),
            TokenKind::Literal(Literal::Int(2)),
            TokenKind::Eof
        ]
    );
}

#[test]
fn float_text_keeps_its_value() {
    let tokens = Lexer::new("2.5").tokenize().unwrap();
    match &tokens[0].kind {
        TokenKind::Literal(Literal::Float(text)) => assert_eq!(text.parse::<f64>().unwrap(), 2.5),
        other => panic!("expected a float, got {other:?}"),
    }
}

#[test]
fn integer_too_large() {
    let err = lex_err("x = 9223372036854775808;");
    assert_eq!(err.message, "invalid integer literal `9223372036854775808`");
    assert_eq!(err.position, pos(1, 5));
}

#[test]
fn float_with_two_dots() {
    let err = lex_err("1.2.3");
    assert_eq!(err.message, "invalid float literal `1.2.3`");
    assert_eq!(err.position, pos(1, 1));
}

#[test]
fn strings_and_escapes() {
    assert_eq!(
        kinds(r#""a\n\t\r\\\"\'b" """#),
        vec![
            TokenKind::Literal(Literal::Str("a\n\t\r\\\"'b".to_string())),
            TokenKind::Literal(Literal::Str(String::new())),
            TokenKind::Eof
        ]
    );
}

#[test]
fn unsupported_escape_in_string() {
    let err = lex_err(r#"  "ab\q""#);
    assert_eq!(err.message, "unsupported escape sequence `\\q`");
    assert_eq!(err.position, pos(1, 7));
}

#[test]
fn string_ending_in_backslash_is_unterminated() {
    let err = lex_err("\"abc\\");
    assert_eq!(err.message, "unterminated string literal");
    assert_eq!(err.position, pos(1, 1));
}

#[test]
fn char_literals() {
    assert_eq!(
        kinds(r"'a' '\n' '\'' '\\' '字'"),
        vec![
            TokenKind::Literal(Literal::Char('a')),
            TokenKind::Literal(Literal::Char('\n')),
            TokenKind::Literal(Literal::Char('\'')),
            TokenKind::Literal(Literal::Char('\\')),
            TokenKind::Literal(Literal::Char('字')),
            TokenKind::Eof
        ]
    );
}

#[test]
fn char_literal_errors() {
    let err = lex_err("'ab'");
    assert_eq!(err.message, "char literal must contain exactly one character");
    assert_eq!(err.position, pos(1, 1));

    let err = lex_err("'");
    assert_eq!(err.message, "unterminated char literal");

    let err = lex_err(" '\\");
    assert_eq!(err.message, "unterminated char literal");
    assert_eq!(err.position, pos(1, 2));

    let err = lex_err(r#"'\"'"#);
    assert_eq!(err.message, "unsupported escape sequence `\\\"`");
    assert_eq!(err.position, pos(1, 3));
}

#[test]
fn unexpected_character() {
    let err = lex_err("a\n @");
    assert_eq!(err.message, "unexpected character `@`");
    assert_eq!(err.position, pos(2, 2));
    assert_eq!(err.to_string(), "unexpected character `@` at line 2, column 2");
}

#[test]
fn operators_take_the_longest_spelling() {
    assert_eq!(
        kinds("a<<=b->c..=d=>e--f"),
        vec![
            TokenKind::Ident("a".to_string()),
            TokenKind::Operator(Operator::Shl),
            TokenKind::Operator(Operator::Assign),
            TokenKind::Ident("b".to_string()),
            TokenKind::Operator(Operator::Arrow),
            TokenKind::Ident("c".to_string()),
            TokenKind::Operator(Operator::RangeEq),
            TokenKind::Ident("d".to_string()),
            TokenKind::Operator(Operator::FatArrow),
            TokenKind::Ident("e".to_string()),
            TokenKind::Operator(Operator::Dec),
            TokenKind::Ident("f".to_string()),
            TokenKind::Eof
        ]
    );
}

#[test]
fn delimiters() {
    assert_eq!(
        kinds("a::b:c.d,(){}[];"),
        vec![
            TokenKind::Ident("a".to_string()),
            TokenKind::Delimiter(Delimiter::Scope),
            TokenKind::Ident("b".to_string()),
            TokenKind::Delimiter(Delimiter::Colon),
            TokenKind::Ident("c".to_string()),
            TokenKind::Delimiter(Delimiter::Dot),
            TokenKind::Ident("d".to_string()),
            TokenKind::Delimiter(Delimiter::Comma),
            TokenKind::Delimiter(Delimiter::LParen),
            TokenKind::Delimiter(Delimiter::RParen),
            TokenKind::Delimiter(Delimiter::LBrace),
            TokenKind::Delimiter(Delimiter::RBrace),
            TokenKind::Delimiter(Delimiter::LBracket),
            TokenKind::Delimiter(Delimiter::RBracket),
            TokenKind::Delimiter(Delimiter::Semicolon),
            TokenKind::Eof
        ]
    );
}

#[test]
fn slash_is_division_unless_doubled() {
    assert_eq!(
        kinds("a / b /= c // d"),
        vec![
            TokenKind::Ident("a".to_string()),
            TokenKind::Operator(Operator::Div),
            TokenKind::Ident("b".to_string()),
            TokenKind::Operator(Operator::DivAssign),
            TokenKind::Ident("c".to_string()),
            TokenKind::Eof
        ]
    );
}

const OPERATORS: [(&str, Operator); 33] = [
    ("+", Operator::Add),
    ("-", Operator::Sub),
    ("*", Operator::Mul),
    ("/", Operator::Div),
    ("%", Operator::Mod),
    ("=", Operator::Assign),
    ("+=", Operator::AddAssign),
    ("-=", Operator::SubAssign),
    ("*=", Operator::MulAssign),
    ("/=", Operator::DivAssign),
    ("%=", Operator::ModAssign),
    ("==", Operator::Eq),
    ("!=", Operator::Ne),
    ("<", Operator::Lt),
    ("<=", Operator::Le),
    (">", Operator::Gt),
    (">=", Operator::Ge),
    ("&&", Operator::And),
    ("||", Operator::Or),
    ("!", Operator::Not),
    ("&", Operator::BitAnd),
    ("|", Operator::BitOr),
    ("^", Operator::BitXor),
    ("~", Operator::BitNot),
    ("<<", Operator::Shl),
    (">>", Operator::Shr),
    ("++", Operator::Inc),
    ("--", Operator::Dec),
    ("->", Operator::Arrow),
    ("..", Operator::Range),
    ("..=", Operator::RangeEq),
    ("=>", Operator::FatArrow),
    ("?", Operator::Question),
];

#[test]
fn every_operator_spelling_lexes_as_itself() {
    for (text, op) in OPERATORS {
        assert_eq!(Operator::from_str(text), Some(op));
        let tokens = Lexer::new(text).tokenize().unwrap();
        assert_eq!(tokens, vec![Token::operator(op, 1, 1), Token::eof(1, text.len() + 1)]);
    }
}

#[test]
fn every_delimiter_spelling_lexes_as_itself() {
    let delimiters = [
        ("(", Delimiter::LParen),
        (")", Delimiter::RParen),
        ("{", Delimiter::LBrace),
        ("}", Delimiter::RBrace),
        ("[", Delimiter::LBracket),
        ("]", Delimiter::RBracket),
        (",", Delimiter::Comma),
        (".", Delimiter::Dot),
        ("::", Delimiter::Scope),
        (";", Delimiter::Semicolon),
        (":", Delimiter::Colon),
    ];
    for (text, d) in delimiters {
        assert_eq!(Delimiter::from_str(text), Some(d));
        let tokens = Lexer::new(text).tokenize().unwrap();
        assert_eq!(tokens, vec![Token::delimiter(d, 1, 1), Token::eof(1, text.len() + 1)]);
    }
}

#[test]
fn every_keyword_spelling_lexes_as_itself() {
    let keywords = [
        ("let", Keyword::Let),
        ("const", Keyword::Const),
        ("static", Keyword::Static),
        ("mut", Keyword::Mut),
        ("fn", Keyword::Fn),
        ("return", Keyword::Return),
        ("struct", Keyword::Struct),
        ("enum", Keyword::Enum),
        ("trait", Keyword::Trait),
        ("type", Keyword::Type),
        ("impl", Keyword::Impl),
        ("if", Keyword::If),
        ("else", Keyword::Else),
        ("match", Keyword::Match),
        ("for", Keyword::For),
        ("loop", Keyword::Loop),
        ("continue", Keyword::Continue),
        ("break", Keyword::Break),
        ("in", Keyword::In),
        ("while", Keyword::While),
        ("mod", Keyword::Mod),
        ("pub", Keyword::Pub),
        ("crate", Keyword::Crate),
        ("self", Keyword::SelfLower),
        ("Self", Keyword::SelfUpper),
        ("super", Keyword::Super),
        ("async", Keyword::Async),
        ("await", Keyword::Await),
        ("unsafe", Keyword::Unsafe),
        ("extern", Keyword::Extern),
    ];
    for (text, k) in keywords {
        assert_eq!(Keyword::from_str(text), Some(k));
        let tokens = Lexer::new(text).tokenize().unwrap();
        assert_eq!(tokens, vec![Token::keyword(k, 1, 1), Token::eof(1, text.len() + 1)]);
    }
}
