use lib::{Delimiter, Keyword, Literal, Operator, SourcePosition, Token, TokenKind};

#[test]
fn from_str_rejects_unknown_spellings() {
    assert_eq!(Operator::from_str("+++"), None);
    assert_eq!(Operator::from_str(""), None);
    assert_eq!(Delimiter::from_str(":::"), None);
    assert_eq!(Keyword::from_str("Let"), None);
    assert_eq!(Keyword::from_str("true"), None);
}

#[test]
fn constructors_fill_kind_and_position() {
    let p = SourcePosition::new(3, 9);
    assert_eq!(p.line, 3);
    assert_eq!(p.column, 9);
    assert_eq!(Token::new(TokenKind::Eof, 3, 9), Token { kind: TokenKind::Eof, position: p });
    assert_eq!(Token::literal(Literal::Int(5), 3, 9).kind, TokenKind::Literal(Literal::Int(5)));
    assert_eq!(Token::ident("v".to_string(), 3, 9).kind, TokenKind::Ident("v".to_string()));
    assert_eq!(Token::keyword(Keyword::Fn, 3, 9).kind, TokenKind::Keyword(Keyword::Fn));
    assert_eq!(Token::delimiter(Delimiter::Comma, 3, 9).kind, TokenKind::Delimiter(Delimiter::Comma));
    assert_eq!(Token::operator(Operator::Not, 3, 9).kind, TokenKind::Operator(Operator::Not));
    assert_eq!(Token::eof(3, 9).position, p);
}

#[test]
fn kind_predicates() {
    let kw = TokenKind::Keyword(Keyword::Let);
    assert!(kw.is_keyword(Keyword::Let));
    assert!(!kw.is_keyword(Keyword::Mut));
    assert!(!kw.is_eof());
    assert!(TokenKind::Eof.is_eof());
    assert!(TokenKind::Operator(Operator::Add).is_operator(Operator::Add));
    assert!(!TokenKind::Operator(Operator::Add).is_operator(Operator::Sub));
    assert!(!TokenKind::Ident("x".to_string()).is_operator(Operator::Add));
    assert!(TokenKind::Delimiter(Delimiter::Semicolon).is_delimiter(Delimiter::Semicolon));
    assert!(!TokenKind::Delimiter(Delimiter::Colon).is_delimiter(Delimiter::Semicolon));
}

#[test]
fn debug_names_match_debug_output() {
    for op in [Operator::Assign, Operator::RangeEq, Operator::Question] {
        assert_eq!(op.debug_name(), format!("{op:?}"));
    }
    for d in [Delimiter::Semicolon, Delimiter::RParen, Delimiter::Scope] {
        assert_eq!(d.debug_name(), format!("{d:?}"));
    }
}
