use lib::{
    parse_source, Delimiter, Expr, FrontendError, Keyword, LexError, Lexer, Literal, Operator,
    ParseError, Parser, SourcePosition, Stmt, Token, TokenKind,
};

fn num(v: i64) -> Expr {
    Expr::Literal(Literal::Int(v))
}

fn ident(name: &str) -> Expr {
    Expr::Ident(name.to_string())
}

fn bin(left: Expr, op: Operator, right: Expr) -> Expr {
    Expr::Binary { left: Box::new(left), op, right: Box::new(right) }
}

fn un(op: Operator, expr: Expr) -> Expr {
    Expr::Unary { op, expr: Box::new(expr) }
}

fn expr_of(src: &str) -> Expr {
    match parse_source(src).unwrap().statements.into_iter().next().unwrap() {
        Stmt::Expr(e) => e,
        other => panic!("expected an expression statement, got {other:?}"),
    }
}

fn parse_err(src: &str) -> ParseError {
    match parse_source(src).unwrap_err() {
        FrontendError::Parse(e) => e,
        other => panic!("expected a parse error, got {other:?}"),
    }
}

/// The token kinds that spell an expression.
fn spelling(e: &Expr, out: &mut Vec<TokenKind>) {
    match e {
        Expr::Literal(l) => out.push(TokenKind::Literal(l.clone())),
        Expr::Ident(n) => out.push(TokenKind::Ident(n.clone())),
        Expr::Unary { op, expr } => {
            out.push(TokenKind::Operator(*op));
            spelling(expr, out);
        }
        Expr::Binary { left, op, right } => {
            spelling(left, out);
            out.push(TokenKind::Operator(*op));
            spelling(right, out);
        }
        Expr::Grouping(inner) => {
            out.push(TokenKind::Delimiter(Delimiter::LParen));
            spelling(inner, out);
            out.push(TokenKind::Delimiter(Delimiter::RParen));
        }
    }
}

#[test]
fn same_precedence_associates_left() {
    assert_eq!(expr_of("a - b - c;"), bin(bin(ident("a"), Operator::Sub, ident("b")), Operator::Sub, ident("c")));
}

#[test]
fn tighter_operators_bind_first() {
    assert_eq!(expr_of("1 * 2 + 3;"), bin(bin(num(1), Operator::Mul, num(2)), Operator::Add, num(3)));
    assert_eq!(
        expr_of("a || b && c == d < e + f * g;"),
        bin(
            ident("a"),
            Operator::Or,
            bin(
                ident("b"),
                Operator::And,
                bin(
                    ident("c"),
                    Operator::Eq,
                    bin(ident("d"), Operator::Lt, bin(ident("e"), Operator::Add, bin(ident("f"), Operator::Mul, ident("g"))))
                )
            )
        )
    );
}

#[test]
fn prefix_operators_bind_tighter_than_binary_ones() {
    assert_eq!(expr_of("-a * b;"), bin(un(Operator::Sub, ident("a")), Operator::Mul, ident("b")));
    assert_eq!(expr_of("!-+x;"), un(Operator::Not, un(Operator::Sub, un(Operator::Add, ident("x")))));
    assert_eq!(expr_of("a - -b;"), bin(ident("a"), Operator::Sub, un(Operator::Sub, ident("b"))));
}

#[test]
fn parentheses_are_kept() {
    assert_eq!(
        expr_of("(1 + 2) * 3;"),
        bin(Expr::Grouping(Box::new(bin(num(1), Operator::Add, num(2)))), Operator::Mul, num(3))
    );
}

#[test]
fn non_binary_operator_ends_the_expression() {
    let err = parse_err("a = 1;");
    assert_eq!(err.message, "expected delimiter Semicolon");
    assert_eq!(err.position, SourcePosition::new(1, 3));
}

#[test]
fn parsed_expression_is_spelled_by_its_tokens() {
    let src = "-(a + 1) * b - c / !d;";
    let tokens = Lexer::new(src).tokenize().unwrap();
    let e = expr_of(src);
    let mut spelled = Vec::new();
    spelling(&e, &mut spelled);
    let consumed: Vec<TokenKind> = tokens[..tokens.len() - 2].iter().map(|t| t.kind.clone()).collect();
    assert_eq!(spelled, consumed);
}

#[test]
fn statements() {
    let program = parse_source("let x = 1; let mut y = x; return; return y; x + y;").unwrap();
    assert_eq!(
        program.statements,
        vec![
            Stmt::Let { mutable: false, name: "x".to_string(), value: num(1) },
            Stmt::Let { mutable: true, name: "y".to_string(), value: ident("x") },
            Stmt::Return(None),
            Stmt::Return(Some(ident("y"))),
            Stmt::Expr(bin(ident("x"), Operator::Add, ident("y"))),
        ]
    );
}

#[test]
fn empty_program() {
    assert_eq!(parse_source("  // nothing\n").unwrap().statements, vec![]);
}

#[test]
fn let_errors() {
    let err = parse_err("let = 1;");
    assert_eq!(err.message, "expected identifier after `let`");
    assert_eq!(err.position, SourcePosition::new(1, 5));

    let err = parse_err("let mut x 1;");
    assert_eq!(err.message, "expected operator Assign");
    assert_eq!(err.position, SourcePosition::new(1, 11));
    assert_eq!(err.to_string(), "expected operator Assign at line 1, column 11");
}

#[test]
fn missing_expression_and_parenthesis() {
    let err = parse_err(";");
    assert_eq!(err.message, "expected expression");
    assert_eq!(err.position, SourcePosition::new(1, 1));

    let err = parse_err("(1 + 2;");
    assert_eq!(err.message, "expected delimiter RParen");
    assert_eq!(err.position, SourcePosition::new(1, 7));

    let err = parse_err("return 1");
    assert_eq!(err.message, "expected delimiter Semicolon");
    assert_eq!(err.position, SourcePosition::new(1, 9));

    let err = parse_err("x +");
    assert_eq!(err.message, "expected expression");
    assert_eq!(err.position, SourcePosition::new(1, 4));
}

#[test]
fn lexing_error_comes_first() {
    match parse_source("let x = @;").unwrap_err() {
        FrontendError::Lex(e) => {
            assert_eq!(e.message, "unexpected character `@`");
            assert_eq!(e.position, SourcePosition::new(1, 9));
        }
        other => panic!("expected a lexing error, got {other:?}"),
    }
}

#[test]
fn frontend_error_text_and_conversions() {
    let lex = LexError { message: "m".to_string(), position: SourcePosition::new(4, 2) };
    let err = FrontendError::from(lex.clone());
    assert_eq!(err.to_string(), "m at line 4, column 2");
    assert!(matches!(err, FrontendError::Lex(e) if e == lex));

    let parse = ParseError { message: "p".to_string(), position: SourcePosition::new(10, 12) };
    let err: FrontendError = parse.clone().into();
    assert_eq!(err.to_string(), "p at line 10, column 12");
    assert!(matches!(err, FrontendError::Parse(e) if e == parse));
}

#[test]
fn parser_stops_at_the_first_end_of_input() {
    let tokens = vec![Token::eof(1, 1), Token::ident("x".to_string(), 1, 2)];
    assert_eq!(Parser::parse(tokens).unwrap().statements, vec![]);

    let tokens = vec![
        Token::keyword(Keyword::Return, 1, 1),
        Token::eof(1, 7),
        Token::delimiter(Delimiter::Semicolon, 1, 8),
    ];
    let err = Parser::parse(tokens).unwrap_err();
    assert_eq!(err.message, "expected expression");
    assert_eq!(err.position, SourcePosition::new(1, 7));
}

#[test]
fn parse_program_through_a_parser() {
    let tokens = Lexer::new("1; 2;").tokenize().unwrap();
    let mut parser = Parser::new(tokens);
    let program = parser.parse_program().unwrap();
    assert_eq!(program.statements, vec![Stmt::Expr(num(1)), Stmt::Expr(num(2))]);
    assert_eq!(program.clone(), program);
}

#[test]
fn expressions_clone_equal() {
    let e = expr_of("-(a + 'c') * \"s\" - 2.5;");
    assert_eq!(e.clone(), e);
}

#[test]
fn multi_line_error_position() {
    let err = parse_err("let a = 1;\nlet b = (a\n;");
    assert_eq!(err.message, "expected delimiter RParen");
    assert_eq!(err.to_string(), "expected delimiter RParen at line 3, column 1");
}

/// Writes an expression out as source text, parentheses where the tree has them.
fn write_out(e: &Expr) -> String {
    fn op_text(op: Operator) -> &'static str {
        match op {
            Operator::Add => "+",
            Operator::Sub => "-",
            Operator::Mul => "*",
            Operator::Div => "/",
            Operator::Mod => "%",
            Operator::Eq => "==",
            Operator::Ne => "!=",
            Operator::Lt => "<",
            Operator::Le => "<=",
            Operator::Gt => ">",
            Operator::Ge => ">=",
            Operator::And => "&&",
            Operator::Or => "||",
            Operator::Not => "!",
            other => panic!("not used here: {other:?}"),
        }
    }
    match e {
        Expr::Literal(Literal::Int(v)) => v.to_string(),
        Expr::Ident(n) => n.clone(),
        Expr::Unary { op, expr } => format!("{} {}", op_text(*op), write_out(expr)),
        Expr::Binary { left, op, right } => {
            format!("{} {} {}", write_out(left), op_text(*op), write_out(right))
        }
        Expr::Grouping(inner) => format!("({})", write_out(inner)),
        other => panic!("not used here: {other:?}"),
    }
}

#[test]
fn well_shaped_trees_read_back_from_their_text() {
    let trees = vec![
        bin(bin(num(1), Operator::Mul, num(2)), Operator::Add, num(3)),
        bin(num(1), Operator::Add, bin(num(2), Operator::Mul, num(3))),
        bin(bin(ident("a"), Operator::Sub, ident("b")), Operator::Sub, ident("c")),
        bin(
            ident("a"),
            Operator::Sub,
            Expr::Grouping(Box::new(bin(ident("b"), Operator::Sub, ident("c")))),
        ),
        bin(
            un(Operator::Not, ident("x")),
            Operator::Or,
            bin(ident("y"), Operator::And, bin(ident("z"), Operator::Le, un(Operator::Sub, num(4)))),
        ),
    ];
    for tree in trees {
        let text = format!("{};", write_out(&tree));
        assert_eq!(expr_of(&text), tree, "for {text}");
    }
}
