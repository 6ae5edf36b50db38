//! Properties of the front end as a whole, proved over its specification: the
//! shape of parsed expressions, that parsing loses nothing and reads back every
//! well-shaped expression, and that the spelling tables agree with the lexer.
use vstd::prelude::*;

use crate::parser::{
    binary_rest, binary_spec, expr_spec, expr_stmt_spec, kind, let_spec, precedence, primary_spec,
    program_spec, return_spec, stmt_spec, unary_spec, is_prefix_operator, SpecExpr, SpecStmt,
};
use crate::diagnostic::SpecError;
use crate::parser::{eof_from, first_eof, lemma_eof_from};
use crate::lexer::{ident_end, lex_step, token_at};
use crate::text::is_ident_char;
use crate::token::{
    delimiter_of, delimiter_text, keyword_of, keyword_text, operator_of, operator_text, Delimiter,
    Keyword, Operator, SourcePosition, SpecToken, SpecTokenKind,
};

verus! {

/// How tightly the root of `e` binds: the precedence of its operator if it is a
/// binary expression; tighter than any binary operator otherwise.
pub open spec fn binding(e: SpecExpr) -> nat {
    match e {
        SpecExpr::Binary { op, .. } => precedence(op),
        _ => 7,
    }
}

/// `e` is shaped as precedence and left associativity demand: the left operand of
/// a binary operator binds at least as tightly as the operator, the right operand
/// strictly more tightly, and a prefix operator applies to an operand that is not
/// a binary expression. Parentheses start afresh.
pub open spec fn respects_precedence(e: SpecExpr) -> bool
    decreases e,
{
    match e {
        SpecExpr::Literal(_) => true,
        SpecExpr::Ident(_) => true,
        SpecExpr::Unary { op, expr } => is_prefix_operator(op) && !(*expr is Binary)
            && respects_precedence(*expr),
        SpecExpr::Binary { left, op, right } => {
            &&& 1 <= precedence(op)
            &&& binding(*left) >= precedence(op)
            &&& binding(*right) > precedence(op)
            &&& respects_precedence(*left)
            &&& respects_precedence(*right)
        },
        SpecExpr::Grouping(inner) => respects_precedence(*inner),
    }
}

/// The token at `p` is not a binary operator of precedence `min` or more.
pub open spec fn stops_at(ts: Seq<SpecToken>, p: int, min: nat) -> bool {
    match kind(ts, p) {
        SpecTokenKind::Operator(op) => precedence(op) < min || precedence(op) == 0,
        _ => true,
    }
}

/// Every expression the parser builds respects precedence and left associativity.
pub proof fn lemma_expr_respects_precedence(ts: Seq<SpecToken>, p: int)
    ensures
        expr_spec(ts, p).0 matches Ok(e) ==> respects_precedence(e),
    decreases crate::parser::dist(ts, p), 4nat,
{
    lemma_binary_respects_precedence(ts, p, 1);
}

/// A binary expression parsed with minimum precedence `min` respects precedence,
/// binds at least as tightly as `min`, and stops before any operator of precedence `min` or more.
pub proof fn lemma_binary_respects_precedence(ts: Seq<SpecToken>, p: int, min: nat)
    requires
        1 <= min <= 7,
    ensures
        binary_spec(ts, p, min).0 matches Ok(e) ==> {
            &&& respects_precedence(e)
            &&& binding(e) >= min
            &&& stops_at(ts, p + binary_spec(ts, p, min).1, min)
        },
    decreases crate::parser::dist(ts, p), 3nat,
{
    lemma_unary_respects_precedence(ts, p);
    let (r, c) = unary_spec(ts, p);
    if let Ok(left) = r {
        lemma_rest_respects_precedence(ts, p + c, min, left);
    }
}

pub proof fn lemma_rest_respects_precedence(ts: Seq<SpecToken>, p: int, min: nat, left: SpecExpr)
    requires
        1 <= min <= 7,
        respects_precedence(left),
        binding(left) >= min,
        match kind(ts, p) {
            SpecTokenKind::Operator(op) => precedence(op) >= min && precedence(op) != 0
                ==> precedence(op) <= binding(left),
            _ => true,
        },
    ensures
        binary_rest(ts, p, min, left).0 matches Ok(e) ==> {
            &&& respects_precedence(e)
            &&& binding(e) >= min
            &&& stops_at(ts, p + binary_rest(ts, p, min, left).1, min)
        },
    decreases crate::parser::dist(ts, p), 1nat,
{
    if let SpecTokenKind::Operator(op) = kind(ts, p) {
        if !(precedence(op) < min || precedence(op) == 0) {
            lemma_binary_respects_precedence(ts, p + 1, precedence(op) + 1);
            let (r, c) = binary_spec(ts, p + 1, precedence(op) + 1);
            if let Ok(right) = r {
                let folded = SpecExpr::Binary { left: Box::new(left), op, right: Box::new(right) };
                lemma_rest_respects_precedence(ts, p + 1 + c, min, folded);
            }
        }
    }
}

/// A unary expression respects precedence and is not a binary expression.
pub proof fn lemma_unary_respects_precedence(ts: Seq<SpecToken>, p: int)
    ensures
        unary_spec(ts, p).0 matches Ok(e) ==> respects_precedence(e) && !(e is Binary),
    decreases crate::parser::dist(ts, p), 2nat,
{
    match kind(ts, p) {
        SpecTokenKind::Operator(op) => {
            if is_prefix_operator(op) {
                lemma_unary_respects_precedence(ts, p + 1);
            } else {
                lemma_primary_respects_precedence(ts, p);
            }
        },
        _ => lemma_primary_respects_precedence(ts, p),
    }
}

pub proof fn lemma_primary_respects_precedence(ts: Seq<SpecToken>, p: int)
    ensures
        primary_spec(ts, p).0 matches Ok(e) ==> respects_precedence(e) && !(e is Binary),
    decreases crate::parser::dist(ts, p), 0nat,
{
    if kind(ts, p) == SpecTokenKind::Delimiter(crate::token::Delimiter::LParen) {
        lemma_expr_respects_precedence(ts, p + 1);
    }
}

/// The tokens that spell `e`, parentheses included.
pub open spec fn spelling(e: SpecExpr) -> Seq<SpecTokenKind>
    decreases e,
{
    match e {
        SpecExpr::Literal(l) => seq![SpecTokenKind::Literal(l)],
        SpecExpr::Ident(name) => seq![SpecTokenKind::Ident(name)],
        SpecExpr::Unary { op, expr } => seq![SpecTokenKind::Operator(op)] + spelling(*expr),
        SpecExpr::Binary { left, op, right } => spelling(*left) + seq![SpecTokenKind::Operator(op)]
            + spelling(*right),
        SpecExpr::Grouping(inner) => seq![SpecTokenKind::Delimiter(Delimiter::LParen)] + spelling(
            *inner,
        ) + seq![SpecTokenKind::Delimiter(Delimiter::RParen)],
    }
}

/// The kinds of the `c` tokens the parser sees from position `p`.
pub open spec fn kinds(ts: Seq<SpecToken>, p: int, c: nat) -> Seq<SpecTokenKind> {
    Seq::new(c, |i: int| kind(ts, p + i))
}

pub proof fn lemma_kinds_split(ts: Seq<SpecToken>, p: int, a: nat, b: nat)
    ensures
        kinds(ts, p, a) + kinds(ts, p + a, b) == kinds(ts, p, a + b),
{
    assert(kinds(ts, p, a) + kinds(ts, p + a, b) =~= kinds(ts, p, a + b));
}

/// A parsed expression is spelled by exactly the tokens it consumed: nothing is
/// lost or invented between the tokens and the tree.
pub proof fn lemma_expr_spelling(ts: Seq<SpecToken>, p: int)
    ensures
        expr_spec(ts, p).0 matches Ok(e) ==> spelling(e) == kinds(ts, p, expr_spec(ts, p).1),
    decreases crate::parser::dist(ts, p), 4nat,
{
    lemma_binary_spelling(ts, p, 1);
}

pub proof fn lemma_binary_spelling(ts: Seq<SpecToken>, p: int, min: nat)
    ensures
        binary_spec(ts, p, min).0 matches Ok(e) ==> spelling(e) == kinds(
            ts,
            p,
            binary_spec(ts, p, min).1,
        ),
    decreases crate::parser::dist(ts, p), 3nat,
{
    lemma_unary_spelling(ts, p);
    let (r, c) = unary_spec(ts, p);
    if let Ok(left) = r {
        lemma_rest_spelling(ts, p, c, min, left);
    }
}

pub proof fn lemma_rest_spelling(ts: Seq<SpecToken>, p0: int, done: nat, min: nat, left: SpecExpr)
    requires
        spelling(left) == kinds(ts, p0, done),
    ensures
        binary_rest(ts, p0 + done, min, left).0 matches Ok(e) ==> spelling(e) == kinds(
            ts,
            p0,
            done + binary_rest(ts, p0 + done, min, left).1,
        ),
    decreases crate::parser::dist(ts, p0 + done), 1nat,
{
    let p = p0 + done;
    if let SpecTokenKind::Operator(op) = kind(ts, p) {
        if !(precedence(op) < min || precedence(op) == 0) {
            lemma_binary_spelling(ts, p + 1, precedence(op) + 1);
            let (r, c) = binary_spec(ts, p + 1, precedence(op) + 1);
            if let Ok(right) = r {
                let folded = SpecExpr::Binary { left: Box::new(left), op, right: Box::new(right) };
                lemma_kinds_split(ts, p0, done, 1);
                lemma_kinds_split(ts, p0, done + 1, c);
                assert(kinds(ts, p, 1) =~= seq![SpecTokenKind::Operator(op)]);
                assert(spelling(folded) == kinds(ts, p0, done + 1 + c));
                lemma_rest_spelling(ts, p0, done + 1 + c, min, folded);
            }
        }
    }
}

pub proof fn lemma_unary_spelling(ts: Seq<SpecToken>, p: int)
    ensures
        unary_spec(ts, p).0 matches Ok(e) ==> spelling(e) == kinds(ts, p, unary_spec(ts, p).1),
    decreases crate::parser::dist(ts, p), 2nat,
{
    match kind(ts, p) {
        SpecTokenKind::Operator(op) => {
            if is_prefix_operator(op) {
                lemma_unary_spelling(ts, p + 1);
                let (r, c) = unary_spec(ts, p + 1);
                lemma_kinds_split(ts, p, 1, c);
                assert(kinds(ts, p, 1) =~= seq![SpecTokenKind::Operator(op)]);
            } else {
                lemma_primary_spelling(ts, p);
            }
        },
        _ => lemma_primary_spelling(ts, p),
    }
}

pub proof fn lemma_primary_spelling(ts: Seq<SpecToken>, p: int)
    ensures
        primary_spec(ts, p).0 matches Ok(e) ==> spelling(e) == kinds(ts, p, primary_spec(ts, p).1),
    decreases crate::parser::dist(ts, p), 0nat,
{
    match kind(ts, p) {
        SpecTokenKind::Literal(l) => {
            assert(kinds(ts, p, 1) =~= seq![SpecTokenKind::Literal(l)]);
        },
        SpecTokenKind::Ident(name) => {
            assert(kinds(ts, p, 1) =~= seq![SpecTokenKind::Ident(name)]);
        },
        SpecTokenKind::Delimiter(Delimiter::LParen) => {
            lemma_expr_spelling(ts, p + 1);
            let (r, c) = expr_spec(ts, p + 1);
            lemma_kinds_split(ts, p, 1, c);
            lemma_kinds_split(ts, p, 1 + c, 1);
            assert(kinds(ts, p, 1) =~= seq![SpecTokenKind::Delimiter(Delimiter::LParen)]);
            assert(kinds(ts, p + 1 + c, 1) =~= seq![kind(ts, p + 1 + c)]);
        },
        _ => {},
    }
}

// ---------------------------------------------------------------------------
// Parsing reads back every well-shaped expression from its spelling.

/// The operand at the bottom of the left spine of `e`: `e` itself unless `e` is binary.
pub open spec fn leftmost(e: SpecExpr) -> SpecExpr
    decreases e,
{
    match e {
        SpecExpr::Binary { left, .. } => leftmost(*left),
        _ => e,
    }
}

/// `l` is `e`, or lies on the left spine of `e` (the chain of left operands).
pub open spec fn on_left_spine(l: SpecExpr, e: SpecExpr) -> bool
    decreases e,
{
    l == e || match e {
        SpecExpr::Binary { left, .. } => on_left_spine(l, *left),
        _ => false,
    }
}

/// The binary node of `e` whose left operand is `l`.
pub open spec fn spine_parent(l: SpecExpr, e: SpecExpr) -> SpecExpr
    decreases e,
{
    match e {
        SpecExpr::Binary { left, .. } => if *left == l {
            e
        } else {
            spine_parent(l, *left)
        },
        _ => e,
    }
}

/// What follows the spelling of `l` in the spelling of `e`, for `l` on the left spine of `e`.
pub open spec fn spine_suffix(l: SpecExpr, e: SpecExpr) -> Seq<SpecTokenKind>
    decreases e,
{
    if l == e {
        Seq::empty()
    } else {
        match e {
            SpecExpr::Binary { left, op, right } => spine_suffix(l, *left) + seq![
                SpecTokenKind::Operator(op),
            ] + spelling(*right),
            _ => Seq::empty(),
        }
    }
}

pub proof fn lemma_spelling_nonempty(e: SpecExpr)
    ensures
        spelling(e).len() >= 1,
    decreases e,
{
    match e {
        SpecExpr::Binary { left, .. } => lemma_spelling_nonempty(*left),
        _ => {},
    }
}

pub proof fn lemma_leftmost(e: SpecExpr)
    ensures
        on_left_spine(leftmost(e), e),
        !(leftmost(e) is Binary),
    decreases e,
{
    match e {
        SpecExpr::Binary { left, .. } => lemma_leftmost(*left),
        _ => {},
    }
}

/// Along the left spine: spellings compose, shape is kept, and binding only loosens going up.
pub proof fn lemma_spine(l: SpecExpr, e: SpecExpr)
    requires
        on_left_spine(l, e),
    ensures
        spelling(e) == spelling(l) + spine_suffix(l, e),
        spelling(l).len() <= spelling(e).len(),
        respects_precedence(e) ==> respects_precedence(l) && binding(l) >= binding(e),
    decreases e,
{
    if l == e {
        assert(spelling(e) =~= spelling(l) + Seq::<SpecTokenKind>::empty());
    } else {
        match e {
            SpecExpr::Binary { left, op, right } => {
                lemma_spine(l, *left);
                assert(spelling(e) =~= spelling(l) + spine_suffix(l, e));
            },
            _ => {},
        }
    }
}

/// Above an operand `l` of the left spine sits a binary node with `l` as its left operand.
pub proof fn lemma_spine_parent(l: SpecExpr, e: SpecExpr)
    requires
        on_left_spine(l, e),
        l != e,
    ensures
        spine_parent(l, e) matches SpecExpr::Binary { left, op, right } && *left == l
            && on_left_spine(spine_parent(l, e), e) && spine_suffix(l, e) == seq![
            SpecTokenKind::Operator(op),
        ] + spelling(*right) + spine_suffix(spine_parent(l, e), e),
    decreases e,
{
    match e {
        SpecExpr::Binary { left, op, right } => {
            if *left == l {
                assert(spine_suffix(l, *left) =~= Seq::<SpecTokenKind>::empty());
                assert(spine_suffix(l, e) =~= seq![SpecTokenKind::Operator(op)] + spelling(*right)
                    + spine_suffix(spine_parent(l, e), e));
            } else {
                lemma_spine_parent(l, *left);
                let pa = spine_parent(l, *left);
                lemma_spine(pa, *left);
                lemma_spelling_nonempty(*right);
                assert(pa != e);
                assert(spine_suffix(l, e) =~= seq![SpecTokenKind::Operator(pa->Binary_op)] + spelling(
                    *pa->Binary_right,
                ) + spine_suffix(pa, e));
            }
        },
        _ => {},
    }
}

pub proof fn lemma_kinds_sub(ts: Seq<SpecToken>, p: int, n: nat, k: nat, m: nat)
    requires
        k + m <= n,
    ensures
        kinds(ts, p + k, m) == kinds(ts, p, n).subrange(k as int, (k + m) as int),
{
    assert(kinds(ts, p + k, m) =~= kinds(ts, p, n).subrange(k as int, (k + m) as int));
}

/// A non-binary expression is read back by `unary_spec` from its spelling,
/// whatever follows it.
pub proof fn lemma_unary_reads_back(ts: Seq<SpecToken>, p: int, u: SpecExpr)
    requires
        respects_precedence(u),
        !(u is Binary),
        kinds(ts, p, spelling(u).len()) == spelling(u),
    ensures
        unary_spec(ts, p) == (Ok::<SpecExpr, crate::diagnostic::SpecError>(u), spelling(u).len()),
    decreases spelling(u).len(), 0nat, 0nat,
{
    assert(kind(ts, p) == kinds(ts, p, spelling(u).len())[0]);
    match u {
        SpecExpr::Unary { op, expr } => {
            lemma_spelling_nonempty(*expr);
            lemma_kinds_sub(ts, p, spelling(u).len(), 1, spelling(*expr).len());
            assert(spelling(u).subrange(1, 1 + spelling(*expr).len() as int) =~= spelling(*expr));
            lemma_unary_reads_back(ts, p + 1, *expr);
            assert(kind(ts, p) == SpecTokenKind::Operator(op));
        },
        SpecExpr::Grouping(inner) => {
            let n = spelling(*inner).len();
            lemma_spelling_nonempty(*inner);
            lemma_kinds_sub(ts, p, spelling(u).len(), 1, n);
            assert(spelling(u).subrange(1, 1 + n as int) =~= spelling(*inner));
            assert(kind(ts, p + 1 + n) == kinds(ts, p, spelling(u).len())[1 + n as int]);
            lemma_binding_positive(*inner);
            lemma_binary_reads_back(ts, p + 1, 1, *inner);
            assert(kind(ts, p) == SpecTokenKind::Delimiter(Delimiter::LParen));
            assert(expr_spec(ts, p + 1) == (Ok::<SpecExpr, crate::diagnostic::SpecError>(*inner), n));
            assert(kind(ts, p + 1 + n) == SpecTokenKind::Delimiter(Delimiter::RParen));
            assert(primary_spec(ts, p).0 == Ok::<SpecExpr, crate::diagnostic::SpecError>(u));
            assert(unary_spec(ts, p) == primary_spec(ts, p));
        },
        SpecExpr::Literal(l) => {
            assert(kind(ts, p) == SpecTokenKind::Literal(l));
        },
        SpecExpr::Ident(name) => {
            assert(kind(ts, p) == SpecTokenKind::Ident(name));
        },
        _ => {},
    }
}

/// A well-shaped expression that binds at least as tightly as `min`, followed by a
/// token that ends it, is read back by `binary_spec` from its spelling.
pub proof fn lemma_binary_reads_back(ts: Seq<SpecToken>, p: int, min: nat, e: SpecExpr)
    requires
        respects_precedence(e),
        1 <= min <= binding(e),
        min <= 7,
        kinds(ts, p, spelling(e).len()) == spelling(e),
        stops_at(ts, p + spelling(e).len(), min),
    ensures
        binary_spec(ts, p, min) == (Ok::<SpecExpr, crate::diagnostic::SpecError>(e), spelling(e).len()),
    decreases spelling(e).len(), 1nat, 0nat,
{
    let u = leftmost(e);
    lemma_leftmost(e);
    lemma_spine(u, e);
    let nu = spelling(u).len();
    let ns = spine_suffix(u, e).len();
    lemma_kinds_sub(ts, p, spelling(e).len(), 0, nu);
    assert(spelling(e).subrange(0, nu as int) =~= spelling(u));
    lemma_unary_reads_back(ts, p, u);
    lemma_kinds_sub(ts, p, spelling(e).len(), nu, ns);
    assert(spelling(e).subrange(nu as int, (nu + ns) as int) =~= spine_suffix(u, e));
    lemma_rest_reads_back(ts, p + nu, min, u, e);
}

/// From an operand `l` on the left spine of `e`, `binary_rest` folds in the rest of the
/// spine and arrives at `e`.
pub proof fn lemma_rest_reads_back(ts: Seq<SpecToken>, q: int, min: nat, l: SpecExpr, e: SpecExpr)
    requires
        respects_precedence(e),
        1 <= min <= binding(e),
        min <= 7,
        on_left_spine(l, e),
        kinds(ts, q, spine_suffix(l, e).len()) == spine_suffix(l, e),
        stops_at(ts, q + spine_suffix(l, e).len(), min),
    ensures
        binary_rest(ts, q, min, l) == (Ok::<SpecExpr, crate::diagnostic::SpecError>(e), spine_suffix(l, e).len()),
    decreases spelling(e).len(), 0nat, spine_suffix(l, e).len(),
{
    lemma_spine(l, e);
    if l != e {
        lemma_spine_parent(l, e);
        let pa = spine_parent(l, e);
        lemma_spine(pa, e);
        let op = pa->Binary_op;
        let r = *pa->Binary_right;
        let suffix = spine_suffix(l, e);
        let rest = spine_suffix(pa, e);
        let nr = spelling(r).len();
        lemma_spelling_nonempty(r);
        lemma_spelling_nonempty(l);
        assert(kind(ts, q) == kinds(ts, q, suffix.len())[0]);
        assert(respects_precedence(pa));
        assert(binding(pa) == precedence(op));
        lemma_kinds_sub(ts, q, suffix.len(), 1, nr);
        assert(suffix.subrange(1, 1 + nr as int) =~= spelling(r));
        lemma_kinds_sub(ts, q, suffix.len(), 1 + nr, rest.len());
        assert(suffix.subrange(1 + nr as int, suffix.len() as int) =~= rest);
        if pa != e {
            lemma_spine_parent(pa, e);
            let gp = spine_parent(pa, e);
            lemma_spine(gp, e);
            assert(respects_precedence(gp));
            assert(kind(ts, q + 1 + nr) == kinds(ts, q, suffix.len())[1 + nr as int]);
            assert(rest[0] == SpecTokenKind::Operator(gp->Binary_op));
        }
        assert(spelling(pa).len() > nr);
        lemma_binary_reads_back(ts, q + 1, precedence(op) + 1, r);
        lemma_rest_reads_back(ts, q + 1 + nr, min, pa, e);
    }
}

/// Parsing reads back any expression that respects precedence from its spelling,
/// when a token that is not a binary operator follows: with the laws above, the
/// parser builds exactly the one well-shaped tree that the tokens spell.
pub proof fn lemma_parse_reads_back(ts: Seq<SpecToken>, p: int, e: SpecExpr)
    requires
        respects_precedence(e),
        kinds(ts, p, spelling(e).len()) == spelling(e),
        stops_at(ts, p + spelling(e).len(), 1),
    ensures
        expr_spec(ts, p) == (Ok::<SpecExpr, crate::diagnostic::SpecError>(e), spelling(e).len()),
{
    lemma_binding_positive(e);
    lemma_binary_reads_back(ts, p, 1, e);
}

/// No end-of-input token occurs in the spelling of an expression.
pub proof fn lemma_spelling_has_no_eof(e: SpecExpr)
    ensures
        forall|i: int| 0 <= i < spelling(e).len() ==> !(#[trigger] spelling(e)[i] is Eof),
    decreases e,
{
    match e {
        SpecExpr::Unary { expr, .. } => lemma_spelling_has_no_eof(*expr),
        SpecExpr::Binary { left, right, .. } => {
            lemma_spelling_has_no_eof(*left);
            lemma_spelling_has_no_eof(*right);
        },
        SpecExpr::Grouping(inner) => lemma_spelling_has_no_eof(*inner),
        _ => {},
    }
}

/// The tokens of `kinds` (at a fixed position), then `;`, then the end of input.
pub open spec fn statement_tokens(kinds: Seq<SpecTokenKind>) -> Seq<SpecToken> {
    Seq::new(
        kinds.len() + 2,
        |i: int|
            SpecToken {
                kind: if i < kinds.len() {
                    kinds[i]
                } else if i == kinds.len() {
                    SpecTokenKind::Delimiter(Delimiter::Semicolon)
                } else {
                    SpecTokenKind::Eof
                },
                position: SourcePosition { line: 1, column: 1 },
            },
    )
}

/// Two expressions that respect precedence and are spelled by the same tokens are
/// the same expression: with the precedence table and left associativity, the
/// spelling determines the tree.
pub proof fn lemma_spelling_determines_expression(e1: SpecExpr, e2: SpecExpr)
    requires
        respects_precedence(e1),
        respects_precedence(e2),
        spelling(e1) == spelling(e2),
    ensures
        e1 == e2,
{
    let sp = spelling(e1);
    let ts = statement_tokens(sp);
    lemma_spelling_has_no_eof(e1);
    lemma_eof_from(ts, 0);
    let e = first_eof(ts);
    if e < sp.len() + 1 {
        assert(ts[e].kind is Eof);
        assert(!(sp[e] is Eof));
        assert(false);
    }
    assert(e == sp.len() + 1) by {
        if e > sp.len() + 1 {
            assert(ts[sp.len() as int + 1].kind is Eof);
        }
    }
    assert(kinds(ts, 0, sp.len()) =~= sp);
    assert(kind(ts, sp.len() as int) == SpecTokenKind::Delimiter(Delimiter::Semicolon));
    lemma_parse_reads_back(ts, 0, e1);
    lemma_parse_reads_back(ts, 0, e2);
}

pub proof fn lemma_binding_positive(e: SpecExpr)
    requires
        respects_precedence(e),
    ensures
        1 <= binding(e) <= 7,
{
}

// ---------------------------------------------------------------------------
// The precedence table and what it means for parsing.

/// The binding strengths of the binary operators, from loosest to tightest:
/// `||`, then `&&`, then `==` `!=`, then `<` `<=` `>` `>=`, then `+` `-`, then
/// `*` `/` `%`; every other operator is not a binary operator (strength 0).
pub proof fn lemma_precedence_table()
    ensures
        precedence(Operator::Or) == 1,
        precedence(Operator::And) == 2,
        precedence(Operator::Eq) == 3,
        precedence(Operator::Ne) == 3,
        precedence(Operator::Lt) == 4,
        precedence(Operator::Le) == 4,
        precedence(Operator::Gt) == 4,
        precedence(Operator::Ge) == 4,
        precedence(Operator::Add) == 5,
        precedence(Operator::Sub) == 5,
        precedence(Operator::Mul) == 6,
        precedence(Operator::Div) == 6,
        precedence(Operator::Mod) == 6,
        forall|op: Operator|
            !(op == Operator::Or || op == Operator::And || op == Operator::Eq || op == Operator::Ne
                || op == Operator::Lt || op == Operator::Le || op == Operator::Gt || op
                == Operator::Ge || op == Operator::Add || op == Operator::Sub || op == Operator::Mul
                || op == Operator::Div || op == Operator::Mod) ==> #[trigger] precedence(op) == 0,
{
}

/// The prefix operators are exactly `-`, `+` and `!`.
pub proof fn lemma_prefix_operators(op: Operator)
    ensures
        is_prefix_operator(op) <==> (op == Operator::Sub || op == Operator::Add || op
            == Operator::Not),
{
}

/// An operand that is a single token: a literal or an identifier.
pub open spec fn is_atom(e: SpecExpr) -> bool {
    e is Literal || e is Ident
}

/// `x o1 y o2 z` with single-token operands groups to the left when `o1` binds at
/// least as tightly as `o2`, and to the right otherwise: `a + b / c` is `a + (b / c)`,
/// `a / b + c` is `(a / b) + c`, and `a - b - c` is `(a - b) - c`.
pub proof fn lemma_two_operators(
    ts: Seq<SpecToken>,
    p: int,
    x: SpecExpr,
    o1: Operator,
    y: SpecExpr,
    o2: Operator,
    z: SpecExpr,
)
    requires
        is_atom(x),
        is_atom(y),
        is_atom(z),
        precedence(o1) >= 1,
        precedence(o2) >= 1,
        kinds(ts, p, 5) == spelling(x) + seq![SpecTokenKind::Operator(o1)] + spelling(y) + seq![
            SpecTokenKind::Operator(o2),
        ] + spelling(z),
        stops_at(ts, p + 5, 1),
    ensures
        expr_spec(ts, p) == (
            Ok::<SpecExpr, SpecError>(
                if precedence(o1) >= precedence(o2) {
                    SpecExpr::Binary {
                        left: Box::new(
                            SpecExpr::Binary { left: Box::new(x), op: o1, right: Box::new(y) },
                        ),
                        op: o2,
                        right: Box::new(z),
                    }
                } else {
                    SpecExpr::Binary {
                        left: Box::new(x),
                        op: o1,
                        right: Box::new(
                            SpecExpr::Binary { left: Box::new(y), op: o2, right: Box::new(z) },
                        ),
                    }
                },
            ),
            5nat,
        ),
{
    let left_tree = SpecExpr::Binary {
        left: Box::new(SpecExpr::Binary { left: Box::new(x), op: o1, right: Box::new(y) }),
        op: o2,
        right: Box::new(z),
    };
    let right_tree = SpecExpr::Binary {
        left: Box::new(x),
        op: o1,
        right: Box::new(SpecExpr::Binary { left: Box::new(y), op: o2, right: Box::new(z) }),
    };
    let xy = SpecExpr::Binary { left: Box::new(x), op: o1, right: Box::new(y) };
    let yz = SpecExpr::Binary { left: Box::new(y), op: o2, right: Box::new(z) };
    assert(respects_precedence(x) && respects_precedence(y) && respects_precedence(z));
    assert(binding(x) == 7 && binding(y) == 7 && binding(z) == 7);
    assert(spelling(xy) == spelling(x) + seq![SpecTokenKind::Operator(o1)] + spelling(y));
    assert(spelling(yz) == spelling(y) + seq![SpecTokenKind::Operator(o2)] + spelling(z));
    assert(respects_precedence(xy) && respects_precedence(yz));
    if precedence(o1) >= precedence(o2) {
        assert(spelling(left_tree) == spelling(xy) + seq![SpecTokenKind::Operator(o2)] + spelling(z));
        assert(spelling(left_tree) =~= kinds(ts, p, 5));
        lemma_parse_reads_back(ts, p, left_tree);
    } else {
        assert(spelling(right_tree) == spelling(x) + seq![SpecTokenKind::Operator(o1)] + spelling(yz));
        assert(spelling(right_tree) =~= kinds(ts, p, 5));
        lemma_parse_reads_back(ts, p, right_tree);
    }
}

// ---------------------------------------------------------------------------
// Statements in terms of expressions.

/// `return T;` holds the expression that `T;` is as an expression statement, fails
/// as `T;` fails, and takes one token more; `return;` holds nothing.
pub proof fn lemma_return_is_return_keyword_then_expression_statement(ts: Seq<SpecToken>, p: int)
    requires
        kind(ts, p) == SpecTokenKind::Keyword(Keyword::Return),
    ensures
        kind(ts, p + 1) == SpecTokenKind::Delimiter(Delimiter::Semicolon) ==> stmt_spec(ts, p) == (
            Ok::<SpecStmt, SpecError>(SpecStmt::Return(None)),
            2nat,
        ),
        kind(ts, p + 1) != SpecTokenKind::Delimiter(Delimiter::Semicolon) ==> {
            &&& stmt_spec(ts, p).1 == 1 + expr_stmt_spec(ts, p + 1).1
            &&& match expr_stmt_spec(ts, p + 1).0 {
                Ok(SpecStmt::Expr(e)) => stmt_spec(ts, p).0 == Ok::<SpecStmt, SpecError>(
                    SpecStmt::Return(Some(e)),
                ),
                Ok(_) => false,
                Err(err) => stmt_spec(ts, p).0 == Err::<SpecStmt, SpecError>(err),
            }
        },
{
}

/// `let [mut] name = T;` binds `name` to the expression that `T;` is as an
/// expression statement, fails as `T;` fails, and takes the tokens before `T` more.
pub proof fn lemma_let_is_binding_then_expression_statement(ts: Seq<SpecToken>, p: int)
    requires
        kind(ts, p) == SpecTokenKind::Keyword(Keyword::Let),
    ensures
        ({
            let mutable = kind(ts, p + 1) == SpecTokenKind::Keyword(Keyword::Mut);
            let m: int = if mutable {
                1
            } else {
                0
            };
            kind(ts, p + 1 + m) matches SpecTokenKind::Ident(name) ==> kind(ts, p + 2 + m)
                == SpecTokenKind::Operator(Operator::Assign) ==> {
                &&& stmt_spec(ts, p).1 == 3 + m + expr_stmt_spec(ts, p + 3 + m).1
                &&& match expr_stmt_spec(ts, p + 3 + m).0 {
                    Ok(SpecStmt::Expr(e)) => stmt_spec(ts, p).0 == Ok::<SpecStmt, SpecError>(
                        SpecStmt::Let { mutable, name, value: e },
                    ),
                    Ok(_) => false,
                    Err(err) => stmt_spec(ts, p).0 == Err::<SpecStmt, SpecError>(err),
                }
            }
        }),
{
}

/// A program is read up to the end of input: when it succeeds, the parser stands at
/// the end-of-input token, having read one statement after another, each as
/// `stmt_spec` reads it where the one before ended.
pub proof fn lemma_program_reads_to_end(ts: Seq<SpecToken>, p: int)
    ensures
        program_spec(ts, p).0 is Ok ==> kind(ts, p + program_spec(ts, p).1) is Eof,
        program_spec(ts, p).0 matches Ok(stmts) ==> (stmts.len() == 0 <==> kind(ts, p) is Eof),
        program_spec(ts, p).0 matches Ok(stmts) ==> stmts.len() > 0 ==> {
            &&& stmt_spec(ts, p).0 == Ok::<SpecStmt, SpecError>(stmts[0])
            &&& program_spec(ts, p + stmt_spec(ts, p).1).0 == Ok::<Seq<SpecStmt>, SpecError>(
                stmts.drop_first(),
            )
        },
    decreases crate::parser::dist(ts, p),
{
    if !(kind(ts, p) is Eof) {
        let (r, c) = stmt_spec(ts, p);
        if let Ok(st) = r {
            crate::parser::lemma_stmt_consumes(ts, p);
            lemma_program_reads_to_end(ts, p + c);
            if let Ok(rest) = program_spec(ts, p + c).0 {
                assert((seq![st] + rest).drop_first() =~= rest);
            }
        }
    }
}

/// Lexing the spelling of an operator reads exactly that operator, over the
/// whole spelling: the lexer and `Operator::from_str` agree.
pub proof fn lemma_operator_spelling_lexes(op: Operator)
    ensures
        lex_step(operator_text(op), 0) == (
            Ok::<SpecToken, SpecError>(token_at(SpecTokenKind::Operator(op), operator_text(op), 0)),
            operator_text(op).len() as int,
        ),
{
    match op {
        Operator::Add => {
            reveal_strlit("+");
        },
        Operator::Sub => {
            reveal_strlit("-");
        },
        Operator::Mul => {
            reveal_strlit("*");
        },
        Operator::Div => {
            reveal_strlit("/");
        },
        Operator::Mod => {
            reveal_strlit("%");
        },
        Operator::Assign => {
            reveal_strlit("=");
        },
        Operator::AddAssign => {
            reveal_strlit("+=");
        },
        Operator::SubAssign => {
            reveal_strlit("-=");
        },
        Operator::MulAssign => {
            reveal_strlit("*=");
        },
        Operator::DivAssign => {
            reveal_strlit("/=");
        },
        Operator::ModAssign => {
            reveal_strlit("%=");
        },
        Operator::Eq => {
            reveal_strlit("==");
        },
        Operator::Ne => {
            reveal_strlit("!=");
        },
        Operator::Lt => {
            reveal_strlit("<");
        },
        Operator::Le => {
            reveal_strlit("<=");
        },
        Operator::Gt => {
            reveal_strlit(">");
        },
        Operator::Ge => {
            reveal_strlit(">=");
        },
        Operator::And => {
            reveal_strlit("&&");
        },
        Operator::Or => {
            reveal_strlit("||");
        },
        Operator::Not => {
            reveal_strlit("!");
        },
        Operator::BitAnd => {
            reveal_strlit("&");
        },
        Operator::BitOr => {
            reveal_strlit("|");
        },
        Operator::BitXor => {
            reveal_strlit("^");
        },
        Operator::BitNot => {
            reveal_strlit("~");
        },
        Operator::Shl => {
            reveal_strlit("<<");
        },
        Operator::Shr => {
            reveal_strlit(">>");
        },
        Operator::Inc => {
            reveal_strlit("++");
        },
        Operator::Dec => {
            reveal_strlit("--");
        },
        Operator::Arrow => {
            reveal_strlit("->");
        },
        Operator::Range => {
            reveal_strlit("..");
        },
        Operator::RangeEq => {
            reveal_strlit("..=");
        },
        Operator::FatArrow => {
            reveal_strlit("=>");
        },
        Operator::Question => {
            reveal_strlit("?");
        },
    }
}

/// `Operator::from_str` recognises the spelling of every operator as that operator.
pub proof fn lemma_operator_text_round_trip(x: Operator)
    ensures
        operator_of(operator_text(x)) == Some(x),
{
    reveal_strlit("+");
    reveal_strlit("-");
    reveal_strlit("*");
    reveal_strlit("/");
    reveal_strlit("%");
    reveal_strlit("=");
    reveal_strlit("+=");
    reveal_strlit("-=");
    reveal_strlit("*=");
    reveal_strlit("/=");
    reveal_strlit("%=");
    reveal_strlit("==");
    reveal_strlit("!=");
    reveal_strlit("<");
    reveal_strlit("<=");
    reveal_strlit(">");
    reveal_strlit(">=");
    reveal_strlit("&&");
    reveal_strlit("||");
    reveal_strlit("!");
    reveal_strlit("&");
    reveal_strlit("|");
    reveal_strlit("^");
    reveal_strlit("~");
    reveal_strlit("<<");
    reveal_strlit(">>");
    reveal_strlit("++");
    reveal_strlit("--");
    reveal_strlit("->");
    reveal_strlit("..");
    reveal_strlit("..=");
    reveal_strlit("=>");
    reveal_strlit("?");
    let t = operator_text(x);
    match x {
        Operator::Add => assert(t.len() == 1 && t[0] == '+'),
        Operator::Sub => assert(t.len() == 1 && t[0] == '-'),
        Operator::Mul => assert(t.len() == 1 && t[0] == '*'),
        Operator::Div => assert(t.len() == 1 && t[0] == '/'),
        Operator::Mod => assert(t.len() == 1 && t[0] == '%'),
        Operator::Assign => assert(t.len() == 1 && t[0] == '='),
        Operator::AddAssign => assert(t.len() == 2 && t[0] == '+' && t[1] == '='),
        Operator::SubAssign => assert(t.len() == 2 && t[0] == '-' && t[1] == '='),
        Operator::MulAssign => assert(t.len() == 2 && t[0] == '*' && t[1] == '='),
        Operator::DivAssign => assert(t.len() == 2 && t[0] == '/' && t[1] == '='),
        Operator::ModAssign => assert(t.len() == 2 && t[0] == '%' && t[1] == '='),
        Operator::Eq => assert(t.len() == 2 && t[0] == '=' && t[1] == '='),
        Operator::Ne => assert(t.len() == 2 && t[0] == '!' && t[1] == '='),
        Operator::Lt => assert(t.len() == 1 && t[0] == '<'),
        Operator::Le => assert(t.len() == 2 && t[0] == '<' && t[1] == '='),
        Operator::Gt => assert(t.len() == 1 && t[0] == '>'),
        Operator::Ge => assert(t.len() == 2 && t[0] == '>' && t[1] == '='),
        Operator::And => assert(t.len() == 2 && t[0] == '&' && t[1] == '&'),
        Operator::Or => assert(t.len() == 2 && t[0] == '|' && t[1] == '|'),
        Operator::Not => assert(t.len() == 1 && t[0] == '!'),
        Operator::BitAnd => assert(t.len() == 1 && t[0] == '&'),
        Operator::BitOr => assert(t.len() == 1 && t[0] == '|'),
        Operator::BitXor => assert(t.len() == 1 && t[0] == '^'),
        Operator::BitNot => assert(t.len() == 1 && t[0] == '~'),
        Operator::Shl => assert(t.len() == 2 && t[0] == '<' && t[1] == '<'),
        Operator::Shr => assert(t.len() == 2 && t[0] == '>' && t[1] == '>'),
        Operator::Inc => assert(t.len() == 2 && t[0] == '+' && t[1] == '+'),
        Operator::Dec => assert(t.len() == 2 && t[0] == '-' && t[1] == '-'),
        Operator::Arrow => assert(t.len() == 2 && t[0] == '-' && t[1] == '>'),
        Operator::Range => assert(t.len() == 2 && t[0] == '.' && t[1] == '.'),
        Operator::RangeEq => assert(t.len() == 3 && t[0] == '.' && t[1] == '.' && t[2] == '='),
        Operator::FatArrow => assert(t.len() == 2 && t[0] == '=' && t[1] == '>'),
        Operator::Question => assert(t.len() == 1 && t[0] == '?'),
    }
}

/// `Delimiter::from_str` recognises the spelling of every delimiter as that delimiter.
pub proof fn lemma_delimiter_text_round_trip(x: Delimiter)
    ensures
        delimiter_of(delimiter_text(x)) == Some(x),
{
    reveal_strlit("(");
    reveal_strlit(")");
    reveal_strlit("{");
    reveal_strlit("}");
    reveal_strlit("[");
    reveal_strlit("]");
    reveal_strlit(",");
    reveal_strlit(".");
    reveal_strlit("::");
    reveal_strlit(";");
    reveal_strlit(":");
    let t = delimiter_text(x);
    match x {
        Delimiter::LParen => assert(t.len() == 1 && t[0] == '('),
        Delimiter::RParen => assert(t.len() == 1 && t[0] == ')'),
        Delimiter::LBrace => assert(t.len() == 1 && t[0] == '{'),
        Delimiter::RBrace => assert(t.len() == 1 && t[0] == '}'),
        Delimiter::LBracket => assert(t.len() == 1 && t[0] == '['),
        Delimiter::RBracket => assert(t.len() == 1 && t[0] == ']'),
        Delimiter::Comma => assert(t.len() == 1 && t[0] == ','),
        Delimiter::Dot => assert(t.len() == 1 && t[0] == '.'),
        Delimiter::Scope => assert(t.len() == 2 && t[0] == ':' && t[1] == ':'),
        Delimiter::Semicolon => assert(t.len() == 1 && t[0] == ';'),
        Delimiter::Colon => assert(t.len() == 1 && t[0] == ':'),
    }
}

/// `Keyword::from_str` recognises the spelling of every keyword as that keyword.
pub proof fn lemma_keyword_text_round_trip(x: Keyword)
    ensures
        keyword_of(keyword_text(x)) == Some(x),
{
    reveal_strlit("let");
    reveal_strlit("const");
    reveal_strlit("static");
    reveal_strlit("mut");
    reveal_strlit("fn");
    reveal_strlit("return");
    reveal_strlit("struct");
    reveal_strlit("enum");
    reveal_strlit("trait");
    reveal_strlit("type");
    reveal_strlit("impl");
    reveal_strlit("if");
    reveal_strlit("else");
    reveal_strlit("match");
    reveal_strlit("for");
    reveal_strlit("loop");
    reveal_strlit("continue");
    reveal_strlit("break");
    reveal_strlit("in");
    reveal_strlit("while");
    reveal_strlit("mod");
    reveal_strlit("pub");
    reveal_strlit("crate");
    reveal_strlit("self");
    reveal_strlit("Self");
    reveal_strlit("super");
    reveal_strlit("async");
    reveal_strlit("await");
    reveal_strlit("unsafe");
    reveal_strlit("extern");
    let t = keyword_text(x);
    match x {
        Keyword::Let => assert(t.len() == 3 && t[0] == 'l' && t[1] == 'e' && t[2] == 't'),
        Keyword::Const => assert(t.len() == 5 && t[0] == 'c' && t[1] == 'o' && t[2] == 'n' && t[3] == 's' && t[4] == 't'),
        Keyword::Static => assert(t.len() == 6 && t[0] == 's' && t[1] == 't' && t[2] == 'a' && t[3] == 't' && t[4] == 'i' && t[5] == 'c'),
        Keyword::Mut => assert(t.len() == 3 && t[0] == 'm' && t[1] == 'u' && t[2] == 't'),
        Keyword::Fn => assert(t.len() == 2 && t[0] == 'f' && t[1] == 'n'),
        Keyword::Return => assert(t.len() == 6 && t[0] == 'r' && t[1] == 'e' && t[2] == 't' && t[3] == 'u' && t[4] == 'r' && t[5] == 'n'),
        Keyword::Struct => assert(t.len() == 6 && t[0] == 's' && t[1] == 't' && t[2] == 'r' && t[3] == 'u' && t[4] == 'c' && t[5] == 't'),
        Keyword::Enum => assert(t.len() == 4 && t[0] == 'e' && t[1] == 'n' && t[2] == 'u' && t[3] == 'm'),
        Keyword::Trait => assert(t.len() == 5 && t[0] == 't' && t[1] == 'r' && t[2] == 'a' && t[3] == 'i' && t[4] == 't'),
        Keyword::Type => assert(t.len() == 4 && t[0] == 't' && t[1] == 'y' && t[2] == 'p' && t[3] == 'e'),
        Keyword::Impl => assert(t.len() == 4 && t[0] == 'i' && t[1] == 'm' && t[2] == 'p' && t[3] == 'l'),
        Keyword::If => assert(t.len() == 2 && t[0] == 'i' && t[1] == 'f'),
        Keyword::Else => assert(t.len() == 4 && t[0] == 'e' && t[1] == 'l' && t[2] == 's' && t[3] == 'e'),
        Keyword::Match => assert(t.len() == 5 && t[0] == 'm' && t[1] == 'a' && t[2] == 't' && t[3] == 'c' && t[4] == 'h'),
        Keyword::For => assert(t.len() == 3 && t[0] == 'f' && t[1] == 'o' && t[2] == 'r'),
        Keyword::Loop => assert(t.len() == 4 && t[0] == 'l' && t[1] == 'o' && t[2] == 'o' && t[3] == 'p'),
        Keyword::Continue => assert(t.len() == 8 && t[0] == 'c' && t[1] == 'o' && t[2] == 'n' && t[3] == 't' && t[4] == 'i' && t[5] == 'n' && t[6] == 'u' && t[7] == 'e'),
        Keyword::Break => assert(t.len() == 5 && t[0] == 'b' && t[1] == 'r' && t[2] == 'e' && t[3] == 'a' && t[4] == 'k'),
        Keyword::In => assert(t.len() == 2 && t[0] == 'i' && t[1] == 'n'),
        Keyword::While => assert(t.len() == 5 && t[0] == 'w' && t[1] == 'h' && t[2] == 'i' && t[3] == 'l' && t[4] == 'e'),
        Keyword::Mod => assert(t.len() == 3 && t[0] == 'm' && t[1] == 'o' && t[2] == 'd'),
        Keyword::Pub => assert(t.len() == 3 && t[0] == 'p' && t[1] == 'u' && t[2] == 'b'),
        Keyword::Crate => assert(t.len() == 5 && t[0] == 'c' && t[1] == 'r' && t[2] == 'a' && t[3] == 't' && t[4] == 'e'),
        Keyword::SelfLower => assert(t.len() == 4 && t[0] == 's' && t[1] == 'e' && t[2] == 'l' && t[3] == 'f'),
        Keyword::SelfUpper => assert(t.len() == 4 && t[0] == 'S' && t[1] == 'e' && t[2] == 'l' && t[3] == 'f'),
        Keyword::Super => assert(t.len() == 5 && t[0] == 's' && t[1] == 'u' && t[2] == 'p' && t[3] == 'e' && t[4] == 'r'),
        Keyword::Async => assert(t.len() == 5 && t[0] == 'a' && t[1] == 's' && t[2] == 'y' && t[3] == 'n' && t[4] == 'c'),
        Keyword::Await => assert(t.len() == 5 && t[0] == 'a' && t[1] == 'w' && t[2] == 'a' && t[3] == 'i' && t[4] == 't'),
        Keyword::Unsafe => assert(t.len() == 6 && t[0] == 'u' && t[1] == 'n' && t[2] == 's' && t[3] == 'a' && t[4] == 'f' && t[5] == 'e'),
        Keyword::Extern => assert(t.len() == 6 && t[0] == 'e' && t[1] == 'x' && t[2] == 't' && t[3] == 'e' && t[4] == 'r' && t[5] == 'n'),
    }
}

/// Lexing the spelling of a delimiter reads exactly that delimiter, over the
/// whole spelling: the lexer and `Delimiter::from_str` agree.
pub proof fn lemma_delimiter_spelling_lexes(d: Delimiter)
    ensures
        lex_step(delimiter_text(d), 0) == (
            Ok::<SpecToken, SpecError>(token_at(SpecTokenKind::Delimiter(d), delimiter_text(d), 0)),
            delimiter_text(d).len() as int,
        ),
{
    match d {
        Delimiter::LParen => {
            reveal_strlit("(");
        },
        Delimiter::RParen => {
            reveal_strlit(")");
        },
        Delimiter::LBrace => {
            reveal_strlit("{");
        },
        Delimiter::RBrace => {
            reveal_strlit("}");
        },
        Delimiter::LBracket => {
            reveal_strlit("[");
        },
        Delimiter::RBracket => {
            reveal_strlit("]");
        },
        Delimiter::Comma => {
            reveal_strlit(",");
        },
        Delimiter::Dot => {
            reveal_strlit(".");
        },
        Delimiter::Scope => {
            reveal_strlit("::");
        },
        Delimiter::Semicolon => {
            reveal_strlit(";");
        },
        Delimiter::Colon => {
            reveal_strlit(":");
        },
    }
}

/// A run of identifier characters is read to its end.
pub proof fn lemma_ident_end_of_word(t: Seq<char>, i: int)
    requires
        0 <= i <= t.len(),
        forall|k: int| 0 <= k < t.len() ==> is_ident_char(#[trigger] t[k]),
    ensures
        ident_end(t, i) == t.len(),
    decreases t.len() - i,
{
    if i < t.len() {
        lemma_ident_end_of_word(t, i + 1);
    }
}

/// Lexing the spelling of a keyword reads exactly that keyword, over the whole
/// spelling: the lexer and `Keyword::from_str` agree.
pub proof fn lemma_keyword_spelling_lexes(k: Keyword)
    ensures
        lex_step(keyword_text(k), 0) == (
            Ok::<SpecToken, SpecError>(token_at(SpecTokenKind::Keyword(k), keyword_text(k), 0)),
            keyword_text(k).len() as int,
        ),
{
    lemma_keyword_text_round_trip(k);
    reveal_strlit("true");
    reveal_strlit("false");
    reveal_strlit("let");
    reveal_strlit("const");
    reveal_strlit("static");
    reveal_strlit("mut");
    reveal_strlit("fn");
    reveal_strlit("return");
    reveal_strlit("struct");
    reveal_strlit("enum");
    reveal_strlit("trait");
    reveal_strlit("type");
    reveal_strlit("impl");
    reveal_strlit("if");
    reveal_strlit("else");
    reveal_strlit("match");
    reveal_strlit("for");
    reveal_strlit("loop");
    reveal_strlit("continue");
    reveal_strlit("break");
    reveal_strlit("in");
    reveal_strlit("while");
    reveal_strlit("mod");
    reveal_strlit("pub");
    reveal_strlit("crate");
    reveal_strlit("self");
    reveal_strlit("Self");
    reveal_strlit("super");
    reveal_strlit("async");
    reveal_strlit("await");
    reveal_strlit("unsafe");
    reveal_strlit("extern");
    let t = keyword_text(k);
    assert(t.len() >= 2 && forall|j: int| 0 <= j < t.len() ==> is_ident_char(#[trigger] t[j])) by {
        match k {
            Keyword::Let => assert(t.len() == 3 && t[0] == 'l' && t[1] == 'e' && t[2] == 't'),
            Keyword::Const => assert(t.len() == 5 && t[0] == 'c' && t[1] == 'o' && t[2] == 'n' && t[3] == 's' && t[4] == 't'),
            Keyword::Static => assert(t.len() == 6 && t[0] == 's' && t[1] == 't' && t[2] == 'a' && t[3] == 't' && t[4] == 'i' && t[5] == 'c'),
            Keyword::Mut => assert(t.len() == 3 && t[0] == 'm' && t[1] == 'u' && t[2] == 't'),
            Keyword::Fn => assert(t.len() == 2 && t[0] == 'f' && t[1] == 'n'),
            Keyword::Return => assert(t.len() == 6 && t[0] == 'r' && t[1] == 'e' && t[2] == 't' && t[3] == 'u' && t[4] == 'r' && t[5] == 'n'),
            Keyword::Struct => assert(t.len() == 6 && t[0] == 's' && t[1] == 't' && t[2] == 'r' && t[3] == 'u' && t[4] == 'c' && t[5] == 't'),
            Keyword::Enum => assert(t.len() == 4 && t[0] == 'e' && t[1] == 'n' && t[2] == 'u' && t[3] == 'm'),
            Keyword::Trait => assert(t.len() == 5 && t[0] == 't' && t[1] == 'r' && t[2] == 'a' && t[3] == 'i' && t[4] == 't'),
            Keyword::Type => assert(t.len() == 4 && t[0] == 't' && t[1] == 'y' && t[2] == 'p' && t[3] == 'e'),
            Keyword::Impl => assert(t.len() == 4 && t[0] == 'i' && t[1] == 'm' && t[2] == 'p' && t[3] == 'l'),
            Keyword::If => assert(t.len() == 2 && t[0] == 'i' && t[1] == 'f'),
            Keyword::Else => assert(t.len() == 4 && t[0] == 'e' && t[1] == 'l' && t[2] == 's' && t[3] == 'e'),
            Keyword::Match => assert(t.len() == 5 && t[0] == 'm' && t[1] == 'a' && t[2] == 't' && t[3] == 'c' && t[4] == 'h'),
            Keyword::For => assert(t.len() == 3 && t[0] == 'f' && t[1] == 'o' && t[2] == 'r'),
            Keyword::Loop => assert(t.len() == 4 && t[0] == 'l' && t[1] == 'o' && t[2] == 'o' && t[3] == 'p'),
            Keyword::Continue => assert(t.len() == 8 && t[0] == 'c' && t[1] == 'o' && t[2] == 'n' && t[3] == 't' && t[4] == 'i' && t[5] == 'n' && t[6] == 'u' && t[7] == 'e'),
            Keyword::Break => assert(t.len() == 5 && t[0] == 'b' && t[1] == 'r' && t[2] == 'e' && t[3] == 'a' && t[4] == 'k'),
            Keyword::In => assert(t.len() == 2 && t[0] == 'i' && t[1] == 'n'),
            Keyword::While => assert(t.len() == 5 && t[0] == 'w' && t[1] == 'h' && t[2] == 'i' && t[3] == 'l' && t[4] == 'e'),
            Keyword::Mod => assert(t.len() == 3 && t[0] == 'm' && t[1] == 'o' && t[2] == 'd'),
            Keyword::Pub => assert(t.len() == 3 && t[0] == 'p' && t[1] == 'u' && t[2] == 'b'),
            Keyword::Crate => assert(t.len() == 5 && t[0] == 'c' && t[1] == 'r' && t[2] == 'a' && t[3] == 't' && t[4] == 'e'),
            Keyword::SelfLower => assert(t.len() == 4 && t[0] == 's' && t[1] == 'e' && t[2] == 'l' && t[3] == 'f'),
            Keyword::SelfUpper => assert(t.len() == 4 && t[0] == 'S' && t[1] == 'e' && t[2] == 'l' && t[3] == 'f'),
            Keyword::Super => assert(t.len() == 5 && t[0] == 's' && t[1] == 'u' && t[2] == 'p' && t[3] == 'e' && t[4] == 'r'),
            Keyword::Async => assert(t.len() == 5 && t[0] == 'a' && t[1] == 's' && t[2] == 'y' && t[3] == 'n' && t[4] == 'c'),
            Keyword::Await => assert(t.len() == 5 && t[0] == 'a' && t[1] == 'w' && t[2] == 'a' && t[3] == 'i' && t[4] == 't'),
            Keyword::Unsafe => assert(t.len() == 6 && t[0] == 'u' && t[1] == 'n' && t[2] == 's' && t[3] == 'a' && t[4] == 'f' && t[5] == 'e'),
            Keyword::Extern => assert(t.len() == 6 && t[0] == 'e' && t[1] == 'x' && t[2] == 't' && t[3] == 'e' && t[4] == 'r' && t[5] == 'n'),
        }
    }
    lemma_ident_end_of_word(t, 0);
    assert(t.subrange(0, t.len() as int) =~= t);
    assert(t != "true"@ && t != "false"@) by {
        match k {
            Keyword::Let => assert(t.len() == 3 && t[0] == 'l' && t[1] == 'e' && t[2] == 't'),
            Keyword::Const => assert(t.len() == 5 && t[0] == 'c' && t[1] == 'o' && t[2] == 'n' && t[3] == 's' && t[4] == 't'),
            Keyword::Static => assert(t.len() == 6 && t[0] == 's' && t[1] == 't' && t[2] == 'a' && t[3] == 't' && t[4] == 'i' && t[5] == 'c'),
            Keyword::Mut => assert(t.len() == 3 && t[0] == 'm' && t[1] == 'u' && t[2] == 't'),
            Keyword::Fn => assert(t.len() == 2 && t[0] == 'f' && t[1] == 'n'),
            Keyword::Return => assert(t.len() == 6 && t[0] == 'r' && t[1] == 'e' && t[2] == 't' && t[3] == 'u' && t[4] == 'r' && t[5] == 'n'),
            Keyword::Struct => assert(t.len() == 6 && t[0] == 's' && t[1] == 't' && t[2] == 'r' && t[3] == 'u' && t[4] == 'c' && t[5] == 't'),
            Keyword::Enum => assert(t.len() == 4 && t[0] == 'e' && t[1] == 'n' && t[2] == 'u' && t[3] == 'm'),
            Keyword::Trait => assert(t.len() == 5 && t[0] == 't' && t[1] == 'r' && t[2] == 'a' && t[3] == 'i' && t[4] == 't'),
            Keyword::Type => assert(t.len() == 4 && t[0] == 't' && t[1] == 'y' && t[2] == 'p' && t[3] == 'e'),
            Keyword::Impl => assert(t.len() == 4 && t[0] == 'i' && t[1] == 'm' && t[2] == 'p' && t[3] == 'l'),
            Keyword::If => assert(t.len() == 2 && t[0] == 'i' && t[1] == 'f'),
            Keyword::Else => assert(t.len() == 4 && t[0] == 'e' && t[1] == 'l' && t[2] == 's' && t[3] == 'e'),
            Keyword::Match => assert(t.len() == 5 && t[0] == 'm' && t[1] == 'a' && t[2] == 't' && t[3] == 'c' && t[4] == 'h'),
            Keyword::For => assert(t.len() == 3 && t[0] == 'f' && t[1] == 'o' && t[2] == 'r'),
            Keyword::Loop => assert(t.len() == 4 && t[0] == 'l' && t[1] == 'o' && t[2] == 'o' && t[3] == 'p'),
            Keyword::Continue => assert(t.len() == 8 && t[0] == 'c' && t[1] == 'o' && t[2] == 'n' && t[3] == 't' && t[4] == 'i' && t[5] == 'n' && t[6] == 'u' && t[7] == 'e'),
            Keyword::Break => assert(t.len() == 5 && t[0] == 'b' && t[1] == 'r' && t[2] == 'e' && t[3] == 'a' && t[4] == 'k'),
            Keyword::In => assert(t.len() == 2 && t[0] == 'i' && t[1] == 'n'),
            Keyword::While => assert(t.len() == 5 && t[0] == 'w' && t[1] == 'h' && t[2] == 'i' && t[3] == 'l' && t[4] == 'e'),
            Keyword::Mod => assert(t.len() == 3 && t[0] == 'm' && t[1] == 'o' && t[2] == 'd'),
            Keyword::Pub => assert(t.len() == 3 && t[0] == 'p' && t[1] == 'u' && t[2] == 'b'),
            Keyword::Crate => assert(t.len() == 5 && t[0] == 'c' && t[1] == 'r' && t[2] == 'a' && t[3] == 't' && t[4] == 'e'),
            Keyword::SelfLower => assert(t.len() == 4 && t[0] == 's' && t[1] == 'e' && t[2] == 'l' && t[3] == 'f'),
            Keyword::SelfUpper => assert(t.len() == 4 && t[0] == 'S' && t[1] == 'e' && t[2] == 'l' && t[3] == 'f'),
            Keyword::Super => assert(t.len() == 5 && t[0] == 's' && t[1] == 'u' && t[2] == 'p' && t[3] == 'e' && t[4] == 'r'),
            Keyword::Async => assert(t.len() == 5 && t[0] == 'a' && t[1] == 's' && t[2] == 'y' && t[3] == 'n' && t[4] == 'c'),
            Keyword::Await => assert(t.len() == 5 && t[0] == 'a' && t[1] == 'w' && t[2] == 'a' && t[3] == 'i' && t[4] == 't'),
            Keyword::Unsafe => assert(t.len() == 6 && t[0] == 'u' && t[1] == 'n' && t[2] == 's' && t[3] == 'a' && t[4] == 'f' && t[5] == 'e'),
            Keyword::Extern => assert(t.len() == 6 && t[0] == 'e' && t[1] == 'x' && t[2] == 't' && t[3] == 'e' && t[4] == 'r' && t[5] == 'n'),
        }
    }
}

} // verus!
