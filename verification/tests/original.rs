use lib::{parse_source, Expr, Lexer, Literal, Operator, Parser, Stmt, TokenKind};

#[test]
fn lexes_comments_and_range_operator() {
    let tokens = Lexer::new("let a = 1..=3; // range").tokenize().unwrap();

    assert!(matches!(tokens[0].kind, TokenKind::Keyword(_)));
    assert!(matches!(tokens[3].kind, TokenKind::Literal(Literal::Int(1))));
    assert!(matches!(tokens[4].kind, TokenKind::Operator(Operator::RangeEq)));
}

#[test]
fn reports_unterminated_string() {
    let err = Lexer::new("\"hello").tokenize().unwrap_err();
    assert!(err.message.contains("unterminated string"));
}

#[test]
fn parses_let_stmt_with_precedence() {
    let tokens = Lexer::new("let mut answer = 1 + 2 * 3;")
        .tokenize()
        .expect("lexer should succeed");

    let program = Parser::parse(tokens).expect("parser should succeed");

    assert_eq!(program.statements.len(), 1);
    match &program.statements[0] {
        Stmt::Let {
            mutable,
            name,
            value,
        } => {
            assert!(*mutable);
            assert_eq!(name, "answer");

            match value {
                Expr::Binary { left, op, right } => {
                    assert_eq!(op, &Operator::Add);
                    assert_eq!(**left, Expr::Literal(Literal::Int(1)));

                    match &**right {
                        Expr::Binary {
                            left: mul_left,
                            op: mul_op,
                            right: mul_right,
                        } => {
                            assert_eq!(mul_op, &Operator::Mul);
                            assert_eq!(**mul_left, Expr::Literal(Literal::Int(2)));
                            assert_eq!(**mul_right, Expr::Literal(Literal::Int(3)));
                        }
                        other => panic!("expected multiply expr, got {other:?}"),
                    }
                }
                other => panic!("expected binary expr, got {other:?}"),
            }
        }
        other => panic!("expected let stmt, got {other:?}"),
    }
}

#[test]
fn parses_return_stmt() {
    let program = parse_source("return 42;").expect("frontend should succeed");
    assert_eq!(
        program.statements,
        vec![Stmt::Return(Some(Expr::Literal(Literal::Int(42))))]
    );
}

#[test]
fn reports_missing_semicolon() {
    let err = parse_source("let value = 1").unwrap_err();
    assert!(err.to_string().contains("expected delimiter Semicolon"));
}
