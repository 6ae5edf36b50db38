//! The parser: from tokens to a syntax tree, by recursive descent with
//! precedence climbing for binary operators.
//!
//! The behaviour is specified over the token values `ts` and positions in them.
//! Each `*_spec` function gives the outcome of the matching parsing function that
//! starts at position `p`, together with how many tokens it consumes, whether it
//! succeeds or fails. Positions at or beyond the first end-of-input token all read
//! as that token: the parser never moves past it.
use vstd::prelude::*;

use crate::diagnostic::{error_text, render, SpecError};
use crate::lexer::token_views;
use crate::text::{owned, push_str};
use crate::token::{
    copy_literal, delimiter_name, operator_name, Delimiter, Keyword, Literal, Operator, SourcePosition,
    SpecLiteral, SpecToken, SpecTokenKind, Token, TokenKind,
};

verus! {

/// The root of the syntax tree: the statements of the program, in order.
#[derive(Debug, Clone, PartialEq)]
pub struct Program {
    pub statements: Vec<Stmt>,
}

/// A statement.
#[derive(Debug, Clone, PartialEq)]
pub enum Stmt {
    /// `let name = value;` or `let mut name = value;`
    Let { mutable: bool, name: String, value: Expr },
    /// `return;` or `return value;`
    Return(Option<Expr>),
    /// `value;`
    Expr(Expr),
}

/// An expression.
#[derive(Debug, PartialEq)]
pub enum Expr {
    Literal(Literal),
    Ident(String),
    Unary { op: Operator, expr: Box<Expr> },
    Binary { left: Box<Expr>, op: Operator, right: Box<Expr> },
    /// A parenthesised expression, kept as such in the tree.
    Grouping(Box<Expr>),
}

impl Clone for Expr {
    fn clone(&self) -> (r: Self)
        ensures
            r == *self,
        decreases self,
    {
        match self {
            Expr::Literal(l) => Expr::Literal(copy_literal(l)),
            Expr::Ident(name) => Expr::Ident(name.clone()),
            Expr::Unary { op, expr } => Expr::Unary { op: *op, expr: Box::new((**expr).clone()) },
            Expr::Binary { left, op, right } => Expr::Binary {
                left: Box::new((**left).clone()),
                op: *op,
                right: Box::new((**right).clone()),
            },
            Expr::Grouping(inner) => Expr::Grouping(Box::new((**inner).clone())),
        }
    }
}

/// The mathematical value of an expression.
pub enum SpecExpr {
    Literal(SpecLiteral),
    Ident(Seq<char>),
    Unary { op: Operator, expr: Box<SpecExpr> },
    Binary { left: Box<SpecExpr>, op: Operator, right: Box<SpecExpr> },
    Grouping(Box<SpecExpr>),
}

/// The mathematical value of a statement.
pub enum SpecStmt {
    Let { mutable: bool, name: Seq<char>, value: SpecExpr },
    Return(Option<SpecExpr>),
    Expr(SpecExpr),
}

pub open spec fn expr_view(e: Expr) -> SpecExpr
    decreases e,
{
    match e {
        Expr::Literal(l) => SpecExpr::Literal(l@),
        Expr::Ident(name) => SpecExpr::Ident(name@),
        Expr::Unary { op, expr } => SpecExpr::Unary { op, expr: Box::new(expr_view(*expr)) },
        Expr::Binary { left, op, right } => SpecExpr::Binary {
            left: Box::new(expr_view(*left)),
            op,
            right: Box::new(expr_view(*right)),
        },
        Expr::Grouping(inner) => SpecExpr::Grouping(Box::new(expr_view(*inner))),
    }
}

impl View for Expr {
    type V = SpecExpr;

    open spec fn view(&self) -> SpecExpr {
        expr_view(*self)
    }
}

impl View for Stmt {
    type V = SpecStmt;

    open spec fn view(&self) -> SpecStmt {
        match self {
            Stmt::Let { mutable, name, value } => SpecStmt::Let {
                mutable: *mutable,
                name: name@,
                value: value@,
            },
            Stmt::Return(None) => SpecStmt::Return(None),
            Stmt::Return(Some(e)) => SpecStmt::Return(Some(e@)),
            Stmt::Expr(e) => SpecStmt::Expr(e@),
        }
    }
}

pub open spec fn stmt_views(ss: Seq<Stmt>) -> Seq<SpecStmt> {
    ss.map_values(|s: Stmt| s@)
}

impl View for Program {
    type V = Seq<SpecStmt>;

    open spec fn view(&self) -> Seq<SpecStmt> {
        stmt_views(self.statements@)
    }
}

/// A parsing failure: what was expected and where.
#[derive(Debug, Clone, PartialEq, Eq)]
pub struct ParseError {
    pub message: String,
    pub position: SourcePosition,
}

impl View for ParseError {
    type V = SpecError;

    open spec fn view(&self) -> SpecError {
        SpecError { message: self.message@, position: self.position }
    }
}

// ---------------------------------------------------------------------------
// The token stream as the parser sees it.

/// The first end-of-input token at or after `i` (or `ts.len()` if there is none).
pub open spec fn eof_from(ts: Seq<SpecToken>, i: int) -> int
    decreases ts.len() - i,
{
    if i < 0 || i >= ts.len() {
        ts.len() as int
    } else if ts[i].kind is Eof {
        i
    } else {
        eof_from(ts, i + 1)
    }
}

/// Where the first end-of-input token stands (`ts.len()` if there is none).
pub open spec fn first_eof(ts: Seq<SpecToken>) -> int {
    eof_from(ts, 0)
}

/// The stream holds an end-of-input token.
pub open spec fn has_eof(ts: Seq<SpecToken>) -> bool {
    first_eof(ts) < ts.len()
}

/// The token the parser sees at position `p`.
pub open spec fn tok(ts: Seq<SpecToken>, p: int) -> SpecToken {
    if 0 <= p < first_eof(ts) {
        ts[p]
    } else {
        SpecToken { kind: SpecTokenKind::Eof, position: ts[first_eof(ts)].position }
    }
}

pub open spec fn kind(ts: Seq<SpecToken>, p: int) -> SpecTokenKind {
    tok(ts, p).kind
}

/// How far position `p` is from the first end-of-input token.
pub open spec fn dist(ts: Seq<SpecToken>, p: int) -> nat {
    if p <= first_eof(ts) {
        (first_eof(ts) - p) as nat
    } else {
        0
    }
}

pub open spec fn error_at(ts: Seq<SpecToken>, p: int, message: Seq<char>) -> SpecError {
    SpecError { message, position: tok(ts, p).position }
}

pub open spec fn expected_delimiter_message(d: Delimiter) -> Seq<char> {
    "expected delimiter "@ + delimiter_name(d)
}

pub open spec fn expected_operator_message(op: Operator) -> Seq<char> {
    "expected operator "@ + operator_name(op)
}

/// Binding strength of binary operators; 0 for operators that are not binary.
pub open spec fn precedence(op: Operator) -> nat {
    match op {
        Operator::Or => 1,
        Operator::And => 2,
        Operator::Eq | Operator::Ne => 3,
        Operator::Lt | Operator::Le | Operator::Gt | Operator::Ge => 4,
        Operator::Add | Operator::Sub => 5,
        Operator::Mul | Operator::Div | Operator::Mod => 6,
        _ => 0,
    }
}

/// Operators that may prefix an expression.
pub open spec fn is_prefix_operator(op: Operator) -> bool {
    op == Operator::Sub || op == Operator::Add || op == Operator::Not
}

// ---------------------------------------------------------------------------
// Expressions.

/// An expression: a binary expression of any precedence.
pub open spec fn expr_spec(ts: Seq<SpecToken>, p: int) -> (Result<SpecExpr, SpecError>, nat)
    decreases dist(ts, p), 4nat,
{
    binary_spec(ts, p, 1)
}

/// A binary expression whose operators bind at least as tightly as `min`.
pub open spec fn binary_spec(ts: Seq<SpecToken>, p: int, min: nat) -> (
    Result<SpecExpr, SpecError>,
    nat,
)
    decreases dist(ts, p), 3nat,
{
    let (r, c) = unary_spec(ts, p);
    match r {
        Err(e) => (Err(e), c),
        Ok(left) => {
            let (r2, c2) = binary_rest(ts, p + c, min, left);
            (r2, c + c2)
        },
    }
}

/// After the operand `left`: as long as an operator of precedence at least `min`
/// follows, its right operand (binding more tightly) is parsed and folded in, so
/// operators of equal precedence associate to the left.
pub open spec fn binary_rest(ts: Seq<SpecToken>, p: int, min: nat, left: SpecExpr) -> (
    Result<SpecExpr, SpecError>,
    nat,
)
    decreases dist(ts, p), 1nat,
{
    match kind(ts, p) {
        SpecTokenKind::Operator(op) => {
            if precedence(op) < min || precedence(op) == 0 {
                (Ok(left), 0)
            } else {
                let (r, c) = binary_spec(ts, p + 1, precedence(op) + 1);
                match r {
                    Err(e) => (Err(e), 1 + c),
                    Ok(right) => {
                        let (r2, c2) = binary_rest(
                            ts,
                            p + 1 + c,
                            min,
                            SpecExpr::Binary { left: Box::new(left), op, right: Box::new(right) },
                        );
                        (r2, 1 + c + c2)
                    },
                }
            }
        },
        _ => (Ok(left), 0),
    }
}

/// A prefix `-`, `+` or `!` applied to a unary expression, or a primary expression.
pub open spec fn unary_spec(ts: Seq<SpecToken>, p: int) -> (Result<SpecExpr, SpecError>, nat)
    decreases dist(ts, p), 2nat,
{
    match kind(ts, p) {
        SpecTokenKind::Operator(op) => {
            if is_prefix_operator(op) {
                let (r, c) = unary_spec(ts, p + 1);
                match r {
                    Err(e) => (Err(e), 1 + c),
                    Ok(inner) => (Ok(SpecExpr::Unary { op, expr: Box::new(inner) }), 1 + c),
                }
            } else {
                primary_spec(ts, p)
            }
        },
        _ => primary_spec(ts, p),
    }
}

/// A literal, an identifier, or a parenthesised expression.
pub open spec fn primary_spec(ts: Seq<SpecToken>, p: int) -> (Result<SpecExpr, SpecError>, nat)
    decreases dist(ts, p), 0nat,
{
    match kind(ts, p) {
        SpecTokenKind::Literal(l) => (Ok(SpecExpr::Literal(l)), 1),
        SpecTokenKind::Ident(name) => (Ok(SpecExpr::Ident(name)), 1),
        SpecTokenKind::Delimiter(Delimiter::LParen) => {
            let (r, c) = expr_spec(ts, p + 1);
            match r {
                Err(e) => (Err(e), 1 + c),
                Ok(inner) => if kind(ts, p + 1 + c) == SpecTokenKind::Delimiter(Delimiter::RParen) {
                    (Ok(SpecExpr::Grouping(Box::new(inner))), 2 + c)
                } else {
                    (
                        Err(
                            error_at(
                                ts,
                                p + 1 + c,
                                expected_delimiter_message(Delimiter::RParen),
                            ),
                        ),
                        1 + c,
                    )
                },
            }
        },
        _ => (Err(error_at(ts, p, "expected expression"@)), 0),
    }
}

// ---------------------------------------------------------------------------
// Statements and programs.

/// `let [mut] name = value;` starting at the `let` at position `p`.
pub open spec fn let_spec(ts: Seq<SpecToken>, p: int) -> (Result<SpecStmt, SpecError>, nat) {
    let mutable = kind(ts, p + 1) == SpecTokenKind::Keyword(Keyword::Mut);
    let m: nat = if mutable {
        2
    } else {
        1
    };
    match kind(ts, p + m) {
        SpecTokenKind::Ident(name) => {
            if kind(ts, p + m + 1) == SpecTokenKind::Operator(Operator::Assign) {
                let (r, c) = expr_spec(ts, p + m + 2);
                match r {
                    Err(e) => (Err(e), m + 2 + c),
                    Ok(value) => if kind(ts, p + m + 2 + c) == SpecTokenKind::Delimiter(
                        Delimiter::Semicolon,
                    ) {
                        (Ok(SpecStmt::Let { mutable, name, value }), m + 3 + c)
                    } else {
                        (
                            Err(
                                error_at(
                                    ts,
                                    p + m + 2 + c,
                                    expected_delimiter_message(Delimiter::Semicolon),
                                ),
                            ),
                            m + 2 + c,
                        )
                    },
                }
            } else {
                (
                    Err(error_at(ts, p + m + 1, expected_operator_message(Operator::Assign))),
                    m + 1,
                )
            }
        },
        _ => (Err(error_at(ts, p + m, "expected identifier after `let`"@)), m),
    }
}

/// `return;` or `return value;` starting at the `return` at position `p`.
pub open spec fn return_spec(ts: Seq<SpecToken>, p: int) -> (Result<SpecStmt, SpecError>, nat) {
    if kind(ts, p + 1) == SpecTokenKind::Delimiter(Delimiter::Semicolon) {
        (Ok(SpecStmt::Return(None)), 2)
    } else {
        let (r, c) = expr_spec(ts, p + 1);
        match r {
            Err(e) => (Err(e), 1 + c),
            Ok(value) => if kind(ts, p + 1 + c) == SpecTokenKind::Delimiter(Delimiter::Semicolon) {
                (Ok(SpecStmt::Return(Some(value))), 2 + c)
            } else {
                (
                    Err(error_at(ts, p + 1 + c, expected_delimiter_message(Delimiter::Semicolon))),
                    1 + c,
                )
            },
        }
    }
}

/// `value;` starting at position `p`.
pub open spec fn expr_stmt_spec(ts: Seq<SpecToken>, p: int) -> (Result<SpecStmt, SpecError>, nat) {
    let (r, c) = expr_spec(ts, p);
    match r {
        Err(e) => (Err(e), c),
        Ok(value) => if kind(ts, p + c) == SpecTokenKind::Delimiter(Delimiter::Semicolon) {
            (Ok(SpecStmt::Expr(value)), 1 + c)
        } else {
            (Err(error_at(ts, p + c, expected_delimiter_message(Delimiter::Semicolon))), c)
        },
    }
}

/// One statement, chosen by the token at position `p`.
pub open spec fn stmt_spec(ts: Seq<SpecToken>, p: int) -> (Result<SpecStmt, SpecError>, nat) {
    match kind(ts, p) {
        SpecTokenKind::Keyword(Keyword::Let) => let_spec(ts, p),
        SpecTokenKind::Keyword(Keyword::Return) => return_spec(ts, p),
        _ => expr_stmt_spec(ts, p),
    }
}

/// A statement that is read takes at least one token.
pub proof fn lemma_stmt_consumes(ts: Seq<SpecToken>, p: int)
    ensures
        stmt_spec(ts, p).0 is Ok ==> stmt_spec(ts, p).1 >= 1,
{
}

/// Statements up to the end of input, or the first error.
pub open spec fn program_spec(ts: Seq<SpecToken>, p: int) -> (
    Result<Seq<SpecStmt>, SpecError>,
    nat,
)
    decreases dist(ts, p),
{
    if kind(ts, p) is Eof {
        (Ok(Seq::empty()), 0)
    } else {
        let (r, c) = stmt_spec(ts, p);
        match r {
            Err(e) => (Err(e), c),
            Ok(st) => {
                proof {
                    lemma_stmt_consumes(ts, p);
                }
                let (r2, c2) = program_spec(ts, p + c);
                match r2 {
                    Err(e) => (Err(e), c + c2),
                    Ok(rest) => (Ok(seq![st] + rest), c + c2),
                }
            },
        }
    }
}

// ---------------------------------------------------------------------------
// Facts about the stream.

pub proof fn lemma_eof_from(ts: Seq<SpecToken>, i: int)
    requires
        0 <= i <= ts.len(),
    ensures
        i <= eof_from(ts, i) <= ts.len(),
        eof_from(ts, i) < ts.len() ==> ts[eof_from(ts, i)].kind is Eof,
        forall|j: int| i <= j < eof_from(ts, i) ==> !(#[trigger] ts[j].kind is Eof),
    decreases ts.len() - i,
{
    if i < ts.len() {
        lemma_eof_from(ts, i + 1);
    }
}

/// A stream whose only end-of-input token is its last token.
pub proof fn lemma_single_final_eof(ts: Seq<SpecToken>)
    requires
        ts.len() >= 1,
        ts.last().kind is Eof,
        forall|j: int| 0 <= j < ts.len() - 1 ==> !(#[trigger] ts[j].kind is Eof),
    ensures
        has_eof(ts),
        first_eof(ts) == ts.len() - 1,
{
    lemma_eof_from(ts, 0);
    if first_eof(ts) < ts.len() - 1 {
        assert(ts[first_eof(ts)].kind is Eof);
    }
}

/// Within the stream up to its first end-of-input token, the parser sees the tokens themselves.
pub proof fn lemma_tok(ts: Seq<SpecToken>, p: int)
    requires
        has_eof(ts),
        0 <= p <= first_eof(ts),
    ensures
        tok(ts, p) == ts[p],
        (ts[p].kind is Eof) <==> p == first_eof(ts),
        p < ts.len(),
{
    lemma_eof_from(ts, 0);
}

// ---------------------------------------------------------------------------
// Outcomes as values.

pub open spec fn expr_outcome(r: Result<Expr, ParseError>) -> Result<SpecExpr, SpecError> {
    match r {
        Ok(e) => Ok(e@),
        Err(e) => Err(e@),
    }
}

pub open spec fn stmt_outcome(r: Result<Stmt, ParseError>) -> Result<SpecStmt, SpecError> {
    match r {
        Ok(s) => Ok(s@),
        Err(e) => Err(e@),
    }
}

pub open spec fn program_outcome(r: Result<Program, ParseError>) -> Result<Seq<SpecStmt>, SpecError> {
    match r {
        Ok(p) => Ok(p@),
        Err(e) => Err(e@),
    }
}

impl ParseError {
    /// The error as text: `<message> at line <line>, column <column>`.
    pub fn to_string(&self) -> (r: String)
        ensures
            r@ == error_text(self@),
    {
        render(&self.message, self.position)
    }

    fn new(token: &Token, message: String) -> (e: Self)
        ensures
            e.message == message,
            e.position == token.position,
    {
        Self { message, position: token.position }
    }
}

/// Builds the syntax tree from a token stream; it holds a cursor into the tokens.
pub struct Parser {
    tokens: Vec<Token>,
    pos: usize,
}

impl Parser {
    /// The tokens being parsed.
    pub closed spec fn tokens_view(&self) -> Seq<SpecToken> {
        token_views(self.tokens@)
    }

    /// The cursor: how many tokens have been consumed.
    pub closed spec fn cursor(&self) -> int {
        self.pos as int
    }

    /// The tokens hold an end-of-input token, and the cursor has not passed the first one.
    pub closed spec fn wf(&self) -> bool {
        &&& has_eof(self.tokens_view())
        &&& self.pos <= first_eof(self.tokens_view())
    }

    pub fn new(tokens: Vec<Token>) -> (p: Self)
        ensures
            p.tokens_view() == token_views(tokens@),
            p.cursor() == 0,
            has_eof(token_views(tokens@)) ==> p.wf(),
    {
        proof {
            lemma_eof_from(token_views(tokens@), 0);
        }
        Self { tokens, pos: 0 }
    }

    /// Parses a whole token stream into a program.
    pub fn parse(tokens: Vec<Token>) -> (r: Result<Program, ParseError>)
        requires
            has_eof(token_views(tokens@)),
        ensures
            program_outcome(r) == program_spec(token_views(tokens@), 0).0,
    {
        let mut parser = Self::new(tokens);
        parser.parse_program()
    }

    /// Parses statements until the end-of-input token.
    pub fn parse_program(&mut self) -> (r: Result<Program, ParseError>)
        requires
            old(self).wf(),
        ensures
            final(self).wf(),
            final(self).tokens_view() == old(self).tokens_view(),
            program_outcome(r) == program_spec(old(self).tokens_view(), old(self).cursor()).0,
            final(self).cursor() == old(self).cursor() + program_spec(old(self).tokens_view(), old(self).cursor()).1,
    {
        let ghost ts = self.tokens_view();
        let ghost p0 = self.cursor();
        let ghost goal = program_spec(ts, p0);
        let mut statements: Vec<Stmt> = Vec::new();
        assert(stmt_views(statements@) =~= Seq::<SpecStmt>::empty());
        while !self.current().kind.is_eof()
            invariant
                self.wf(),
                self.tokens_view() == ts,
                ts == old(self).tokens_view(),
                p0 == old(self).cursor(),
                goal == program_spec(ts, p0),
                p0 <= self.cursor(),
                goal.1 == (self.cursor() - p0) + program_spec(ts, self.cursor()).1,
                goal.0 == match program_spec(ts, self.cursor()).0 {
                    Ok(rest) => Ok(stmt_views(statements@) + rest),
                    Err(e) => Err::<Seq<SpecStmt>, SpecError>(e),
                },
            decreases dist(ts, self.cursor()),
        {
            let ghost here = self.cursor();
            proof {
                lemma_tok(ts, here);
            }
            let stmt = match self.parse_stmt() {
                Ok(st) => st,
                Err(e) => {
                    return Err(e);
                },
            };
            proof {
                lemma_stmt_consumes(ts, here);
            }
            let ghost before = statements@;
            statements.push(stmt);
            proof {
                assert(stmt_views(statements@) =~= stmt_views(before).push(stmt@));
                if let Ok(rest) = program_spec(ts, self.cursor()).0 {
                    assert(stmt_views(before) + (seq![stmt@] + rest) =~= stmt_views(statements@)
                        + rest);
                }
            }
        }
        proof {
            lemma_tok(ts, self.cursor());
            assert(stmt_views(statements@) + Seq::<SpecStmt>::empty() =~= stmt_views(statements@));
        }
        Ok(Program { statements })
    }

    fn parse_stmt(&mut self) -> (r: Result<Stmt, ParseError>)
        requires
            old(self).wf(),
        ensures
            final(self).wf(),
            final(self).tokens_view() == old(self).tokens_view(),
            old(self).cursor() <= final(self).cursor(),
            stmt_outcome(r) == stmt_spec(old(self).tokens_view(), old(self).cursor()).0,
            final(self).cursor() == old(self).cursor() + stmt_spec(old(self).tokens_view(), old(self).cursor()).1,
    {
        let is_let = self.current().kind.is_keyword(Keyword::Let);
        let is_return = self.current().kind.is_keyword(Keyword::Return);
        if is_let {
            self.parse_let_stmt()
        } else if is_return {
            self.parse_return_stmt()
        } else {
            self.parse_expr_stmt()
        }
    }

    fn parse_let_stmt(&mut self) -> (r: Result<Stmt, ParseError>)
        requires
            old(self).wf(),
            kind(old(self).tokens_view(), old(self).cursor()) == SpecTokenKind::Keyword(Keyword::Let),
        ensures
            final(self).wf(),
            final(self).tokens_view() == old(self).tokens_view(),
            old(self).cursor() <= final(self).cursor(),
            stmt_outcome(r) == let_spec(old(self).tokens_view(), old(self).cursor()).0,
            final(self).cursor() == old(self).cursor() + let_spec(old(self).tokens_view(), old(self).cursor()).1,
    {
        self.advance();
        let mutable = self.match_keyword(Keyword::Mut);
        let name = match self.expect_ident("expected identifier after `let`") {
            Ok(name) => name,
            Err(e) => {
                return Err(e);
            },
        };
        match self.expect_operator(Operator::Assign) {
            Ok(()) => {},
            Err(e) => {
                return Err(e);
            },
        }
        let value = match self.parse_expr() {
            Ok(v) => v,
            Err(e) => {
                return Err(e);
            },
        };
        match self.expect_delimiter(Delimiter::Semicolon) {
            Ok(()) => {},
            Err(e) => {
                return Err(e);
            },
        }
        Ok(Stmt::Let { mutable, name, value })
    }

    fn parse_return_stmt(&mut self) -> (r: Result<Stmt, ParseError>)
        requires
            old(self).wf(),
            kind(old(self).tokens_view(), old(self).cursor()) == SpecTokenKind::Keyword(
                Keyword::Return,
            ),
        ensures
            final(self).wf(),
            final(self).tokens_view() == old(self).tokens_view(),
            old(self).cursor() <= final(self).cursor(),
            stmt_outcome(r) == return_spec(old(self).tokens_view(), old(self).cursor()).0,
            final(self).cursor() == old(self).cursor() + return_spec(old(self).tokens_view(), old(self).cursor()).1,
    {
        self.advance();
        if self.current().kind.is_delimiter(Delimiter::Semicolon) {
            self.advance();
            return Ok(Stmt::Return(None));
        }
        let expr = match self.parse_expr() {
            Ok(v) => v,
            Err(e) => {
                return Err(e);
            },
        };
        match self.expect_delimiter(Delimiter::Semicolon) {
            Ok(()) => {},
            Err(e) => {
                return Err(e);
            },
        }
        Ok(Stmt::Return(Some(expr)))
    }

    fn parse_expr_stmt(&mut self) -> (r: Result<Stmt, ParseError>)
        requires
            old(self).wf(),
        ensures
            final(self).wf(),
            final(self).tokens_view() == old(self).tokens_view(),
            old(self).cursor() <= final(self).cursor(),
            stmt_outcome(r) == expr_stmt_spec(old(self).tokens_view(), old(self).cursor()).0,
            final(self).cursor() == old(self).cursor() + expr_stmt_spec(old(self).tokens_view(), old(self).cursor()).1,
    {
        let expr = match self.parse_expr() {
            Ok(v) => v,
            Err(e) => {
                return Err(e);
            },
        };
        match self.expect_delimiter(Delimiter::Semicolon) {
            Ok(()) => {},
            Err(e) => {
                return Err(e);
            },
        }
        Ok(Stmt::Expr(expr))
    }

    fn parse_expr(&mut self) -> (r: Result<Expr, ParseError>)
        requires
            old(self).wf(),
        ensures
            final(self).wf(),
            final(self).tokens_view() == old(self).tokens_view(),
            old(self).cursor() <= final(self).cursor(),
            expr_outcome(r) == expr_spec(old(self).tokens_view(), old(self).cursor()).0,
            final(self).cursor() == old(self).cursor() + expr_spec(old(self).tokens_view(), old(self).cursor()).1,
        decreases dist(old(self).tokens_view(), old(self).cursor()), 4nat,
    {
        self.parse_binary_expr(1)
    }

    /// Parses a binary expression whose operators have precedence at least `min_prec`.
    fn parse_binary_expr(&mut self, min_prec: u8) -> (r: Result<Expr, ParseError>)
        requires
            old(self).wf(),
            1 <= min_prec <= 7,
        ensures
            final(self).wf(),
            final(self).tokens_view() == old(self).tokens_view(),
            old(self).cursor() <= final(self).cursor(),
            expr_outcome(r) == binary_spec(old(self).tokens_view(), old(self).cursor(), min_prec as nat).0,
            final(self).cursor() == old(self).cursor() + binary_spec(old(self).tokens_view(), old(self).cursor(), min_prec as nat).1,
        decreases dist(old(self).tokens_view(), old(self).cursor()), 3nat,
    {
        let ghost ts = self.tokens_view();
        let ghost p0 = self.cursor();
        let mut left = match self.parse_unary() {
            Ok(e) => e,
            Err(e) => {
                return Err(e);
            },
        };
        let ghost p1 = self.cursor();
        let ghost goal = binary_rest(ts, p1, min_prec as nat, left@);
        loop
            invariant
                self.wf(),
                self.tokens_view() == ts,
                ts == old(self).tokens_view(),
                p0 == old(self).cursor(),
                1 <= min_prec <= 7,
                p0 <= p1 <= self.cursor(),
                binary_spec(ts, p0, min_prec as nat).0 == goal.0,
                binary_spec(ts, p0, min_prec as nat).1 == (p1 - p0) + goal.1,
                binary_rest(ts, self.cursor(), min_prec as nat, left@).0 == goal.0,
                (self.cursor() - p1) + binary_rest(ts, self.cursor(), min_prec as nat, left@).1
                    == goal.1,
            ensures
                self.wf(),
                self.tokens_view() == ts,
                p0 <= p1 <= self.cursor(),
                binary_spec(ts, p0, min_prec as nat).0 == goal.0,
                binary_spec(ts, p0, min_prec as nat).1 == (p1 - p0) + goal.1,
                goal.0 == Ok::<SpecExpr, SpecError>(left@),
                goal.1 == self.cursor() - p1,
            decreases dist(ts, self.cursor()),
        {
            let ghost here = self.cursor();
            proof {
                lemma_tok(ts, here);
            }
            let op = match &self.current().kind {
                TokenKind::Operator(op) => *op,
                _ => {
                    break;
                },
            };
            let prec = Self::operator_precedence(&op);
            if prec < min_prec || prec == 0 {
                break;
            }
            self.advance();
            let right = match self.parse_binary_expr(prec + 1) {
                Ok(e) => e,
                Err(e) => {
                    return Err(e);
                },
            };
            left = Expr::Binary { left: Box::new(left), op, right: Box::new(right) };
        }
        Ok(left)
    }

    /// Parses a prefix `-`, `+` or `!` expression, or a primary expression.
    fn parse_unary(&mut self) -> (r: Result<Expr, ParseError>)
        requires
            old(self).wf(),
        ensures
            final(self).wf(),
            final(self).tokens_view() == old(self).tokens_view(),
            old(self).cursor() <= final(self).cursor(),
            expr_outcome(r) == unary_spec(old(self).tokens_view(), old(self).cursor()).0,
            final(self).cursor() == old(self).cursor() + unary_spec(old(self).tokens_view(), old(self).cursor()).1,
        decreases dist(old(self).tokens_view(), old(self).cursor()), 2nat,
    {
        let ghost ts = self.tokens_view();
        proof {
            lemma_tok(ts, self.cursor());
        }
        let prefix = match &self.current().kind {
            TokenKind::Operator(op) => {
                if *op == Operator::Sub || *op == Operator::Add || *op == Operator::Not {
                    Some(*op)
                } else {
                    None
                }
            },
            _ => None,
        };
        match prefix {
            Some(op) => {
                self.advance();
                let expr = match self.parse_unary() {
                    Ok(e) => e,
                    Err(e) => {
                        return Err(e);
                    },
                };
                Ok(Expr::Unary { op, expr: Box::new(expr) })
            },
            None => self.parse_primary(),
        }
    }

    /// Parses a literal, an identifier or a parenthesised expression.
    fn parse_primary(&mut self) -> (r: Result<Expr, ParseError>)
        requires
            old(self).wf(),
        ensures
            final(self).wf(),
            final(self).tokens_view() == old(self).tokens_view(),
            old(self).cursor() <= final(self).cursor(),
            expr_outcome(r) == primary_spec(old(self).tokens_view(), old(self).cursor()).0,
            final(self).cursor() == old(self).cursor() + primary_spec(old(self).tokens_view(), old(self).cursor()).1,
        decreases dist(old(self).tokens_view(), old(self).cursor()), 1nat,
    {
        let ghost ts = self.tokens_view();
        proof {
            lemma_tok(ts, self.cursor());
        }
        let t = self.current();
        match &t.kind {
            TokenKind::Literal(literal) => {
                let expr = Expr::Literal(copy_literal(literal));
                self.advance();
                Ok(expr)
            },
            TokenKind::Ident(name) => {
                let expr = Expr::Ident(name.clone());
                self.advance();
                Ok(expr)
            },
            TokenKind::Delimiter(Delimiter::LParen) => {
                self.advance();
                let expr = match self.parse_expr() {
                    Ok(e) => e,
                    Err(e) => {
                        return Err(e);
                    },
                };
                match self.expect_delimiter(Delimiter::RParen) {
                    Ok(()) => {},
                    Err(e) => {
                        return Err(e);
                    },
                }
                Ok(Expr::Grouping(Box::new(expr)))
            },
            _ => Err(ParseError::new(t, owned("expected expression"))),
        }
    }

    /// Binding strength of a binary operator (0: not a binary operator).
    fn operator_precedence(op: &Operator) -> (r: u8)
        ensures
            r == precedence(*op),
    {
        match op {
            Operator::Or => 1,
            Operator::And => 2,
            Operator::Eq | Operator::Ne => 3,
            Operator::Lt | Operator::Le | Operator::Gt | Operator::Ge => 4,
            Operator::Add | Operator::Sub => 5,
            Operator::Mul | Operator::Div | Operator::Mod => 6,
            _ => 0,
        }
    }

    /// The token under the cursor (the last token if the cursor is past the end).
    fn current(&self) -> (t: &Token)
        requires
            self.wf(),
        ensures
            t@ == tok(self.tokens_view(), self.cursor()),
    {
        proof {
            lemma_tok(self.tokens_view(), self.cursor());
        }
        let last = if self.tokens.len() == 0 {
            0
        } else {
            self.tokens.len() - 1
        };
        let idx = if self.pos < last {
            self.pos
        } else {
            last
        };
        &self.tokens[idx]
    }

    /// Moves to the next token, unless the cursor is at the end-of-input token.
    fn advance(&mut self)
        requires
            old(self).wf(),
        ensures
            final(self).wf(),
            final(self).tokens_view() == old(self).tokens_view(),
            final(self).cursor() == if kind(old(self).tokens_view(), old(self).cursor()) is Eof {
                old(self).cursor()
            } else {
                old(self).cursor() + 1
            },
    {
        proof {
            lemma_tok(self.tokens_view(), self.cursor());
        }
        let n = self.tokens.len();
        if !self.current().kind.is_eof() {
            assert(self.tokens_view().len() == n);
            self.pos = self.pos + 1;
        }
    }

    /// Consumes the keyword `keyword` if it is under the cursor.
    fn match_keyword(&mut self, keyword: Keyword) -> (r: bool)
        requires
            old(self).wf(),
        ensures
            final(self).wf(),
            final(self).tokens_view() == old(self).tokens_view(),
            r == (kind(old(self).tokens_view(), old(self).cursor()) == SpecTokenKind::Keyword(
                keyword,
            )),
            final(self).cursor() == old(self).cursor() + if r {
                1int
            } else {
                0int
            },
    {
        if self.current().kind.is_keyword(keyword) {
            self.advance();
            true
        } else {
            false
        }
    }

    /// Consumes an identifier and returns its name, or fails with `message`.
    fn expect_ident(&mut self, message: &str) -> (r: Result<String, ParseError>)
        requires
            old(self).wf(),
        ensures
            final(self).wf(),
            final(self).tokens_view() == old(self).tokens_view(),
            match kind(old(self).tokens_view(), old(self).cursor()) {
                SpecTokenKind::Ident(name) => r matches Ok(s) && s@ == name && final(self).cursor()
                    == old(self).cursor() + 1,
                _ => r matches Err(e) && e@ == error_at(
                    old(self).tokens_view(),
                    old(self).cursor(),
                    message@,
                ) && final(self).cursor() == old(self).cursor(),
            },
    {
        proof {
            lemma_tok(self.tokens_view(), self.cursor());
        }
        match &self.current().kind {
            TokenKind::Ident(name) => {
                let name = name.clone();
                self.advance();
                Ok(name)
            },
            _ => Err(ParseError::new(self.current(), owned(message))),
        }
    }

    /// Consumes the operator `operator`, or fails.
    fn expect_operator(&mut self, operator: Operator) -> (r: Result<(), ParseError>)
        requires
            old(self).wf(),
        ensures
            final(self).wf(),
            final(self).tokens_view() == old(self).tokens_view(),
            if kind(old(self).tokens_view(), old(self).cursor()) == SpecTokenKind::Operator(
                operator,
            ) {
                r is Ok && final(self).cursor() == old(self).cursor() + 1
            } else {
                r matches Err(e) && e@ == error_at(
                    old(self).tokens_view(),
                    old(self).cursor(),
                    expected_operator_message(operator),
                ) && final(self).cursor() == old(self).cursor()
            },
    {
        if self.current().kind.is_operator(operator) {
            self.advance();
            Ok(())
        } else {
            let mut message = owned("expected operator ");
            push_str(&mut message, operator.debug_name());
            Err(ParseError::new(self.current(), message))
        }
    }

    /// Consumes the delimiter `delimiter`, or fails.
    fn expect_delimiter(&mut self, delimiter: Delimiter) -> (r: Result<(), ParseError>)
        requires
            old(self).wf(),
        ensures
            final(self).wf(),
            final(self).tokens_view() == old(self).tokens_view(),
            if kind(old(self).tokens_view(), old(self).cursor()) == SpecTokenKind::Delimiter(
                delimiter,
            ) {
                r is Ok && final(self).cursor() == old(self).cursor() + 1
            } else {
                r matches Err(e) && e@ == error_at(
                    old(self).tokens_view(),
                    old(self).cursor(),
                    expected_delimiter_message(delimiter),
                ) && final(self).cursor() == old(self).cursor()
            },
    {
        if self.current().kind.is_delimiter(delimiter) {
            self.advance();
            Ok(())
        } else {
            let mut message = owned("expected delimiter ");
            push_str(&mut message, delimiter.debug_name());
            Err(ParseError::new(self.current(), message))
        }
    }
}

} // verus!
