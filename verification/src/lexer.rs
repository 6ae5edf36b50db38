//! The lexer: from source characters to tokens.
//!
//! The behaviour is specified over the source as a character sequence `s` and
//! offsets into it. `lex_step(s, i)` says what `next_token` returns when the
//! lexer stands at offset `i`, and where it stops; `lex_all(s, i)` says what
//! `tokenize` returns.
use vstd::prelude::*;

use crate::diagnostic::{error_text, render, SpecError};
use crate::text::{
    alpha, chars_eq_str, chars_of, decimal_value, digit, ident_char, is_alpha, is_digit, is_ident_char,
    is_white_space, owned, parse_decimal, string_of, surround_char, surround_chars, white_space,
};
use crate::token::{
    keyword_of, Delimiter, Operator, SourcePosition, SpecLiteral, SpecToken, SpecTokenKind, Token,
    TokenKind, Literal, Keyword,
};

verus! {

/// The character at offset `i`, if `i` is inside `s`.
pub open spec fn char_at(s: Seq<char>, i: int) -> Option<char> {
    if 0 <= i < s.len() {
        Some(s[i])
    } else {
        None
    }
}

/// Line and column (both from 1) of offset `i`: a newline starts the next line
/// at column 1, any other character moves one column to the right.
pub open spec fn line_col(s: Seq<char>, i: int) -> (nat, nat)
    decreases i,
{
    if i <= 0 {
        (1, 1)
    } else {
        let lc = line_col(s, i - 1);
        if s[i - 1] == '\n' {
            (lc.0 + 1, 1)
        } else {
            (lc.0, lc.1 + 1)
        }
    }
}

/// `line_col` as a `SourcePosition`.
pub open spec fn position_at(s: Seq<char>, i: int) -> SourcePosition {
    SourcePosition { line: line_col(s, i).0 as usize, column: line_col(s, i).1 as usize }
}

/// The offset reached from `i` by skipping white space and `//` comments.
pub open spec fn skip_ignored(s: Seq<char>, i: int) -> int
    decreases s.len() - i,
{
    if 0 <= i < s.len() && is_white_space(s[i]) {
        skip_ignored(s, i + 1)
    } else if 0 <= i && i + 1 < s.len() && s[i] == '/' && s[i + 1] == '/' {
        skip_comment(s, i + 2)
    } else {
        i
    }
}

/// Inside a `//` comment at offset `i`: the comment ends after the next newline
/// (or at the end of the input), and skipping goes on from there.
pub open spec fn skip_comment(s: Seq<char>, i: int) -> int
    decreases s.len() - i,
{
    if i < 0 || i >= s.len() {
        i
    } else if s[i] == '\n' {
        skip_ignored(s, i + 1)
    } else {
        skip_comment(s, i + 1)
    }
}

/// The end of the run of identifier characters that starts at `i`.
pub open spec fn ident_end(s: Seq<char>, i: int) -> int
    decreases s.len() - i,
{
    if 0 <= i < s.len() && is_ident_char(s[i]) {
        ident_end(s, i + 1)
    } else {
        i
    }
}

/// The end of the number that starts at `i`: digits, and each `.` that a digit follows.
pub open spec fn number_end(s: Seq<char>, i: int) -> int
    decreases s.len() - i,
{
    if 0 <= i < s.len() && (is_digit(s[i]) || (s[i] == '.' && i + 1 < s.len() && is_digit(
        s[i + 1],
    ))) {
        number_end(s, i + 1)
    } else {
        i
    }
}

/// How many times `c` occurs in `t`.
pub open spec fn count_char(t: Seq<char>, c: char) -> nat
    decreases t.len(),
{
    if t.len() == 0 {
        0
    } else {
        count_char(t.drop_last(), c) + if t.last() == c {
            1nat
        } else {
            0nat
        }
    }
}

/// Escapes accepted inside string literals.
pub open spec fn string_escape(c: char) -> Option<char> {
    if c == 'n' {
        Some('\n')
    } else if c == 't' {
        Some('\t')
    } else if c == 'r' {
        Some('\r')
    } else if c == '\\' {
        Some('\\')
    } else if c == '"' {
        Some('"')
    } else if c == '\'' {
        Some('\'')
    } else {
        None
    }
}

/// Escapes accepted inside character literals (no `\"`).
pub open spec fn char_escape(c: char) -> Option<char> {
    if c == 'n' {
        Some('\n')
    } else if c == 't' {
        Some('\t')
    } else if c == 'r' {
        Some('\r')
    } else if c == '\\' {
        Some('\\')
    } else if c == '\'' {
        Some('\'')
    } else {
        None
    }
}

/// The rest of a string literal from offset `j` (just after the opening quote, or
/// further in): `Ok((content, end))` where `end` is just past the closing quote;
/// `Err((None, end))` when the input ends first; `Err((Some(c), k))` when the
/// escape `\c` at offset `k` is not supported.
pub open spec fn string_body(s: Seq<char>, j: int) -> Result<(Seq<char>, int), (Option<char>, int)>
    decreases s.len() - j,
{
    if j < 0 || j >= s.len() {
        Err((None, j))
    } else if s[j] == '"' {
        Ok((Seq::empty(), j + 1))
    } else if s[j] == '\\' {
        if j + 1 >= s.len() {
            Err((None, j + 1))
        } else {
            match string_escape(s[j + 1]) {
                None => Err((Some(s[j + 1]), j + 1)),
                Some(m) => match string_body(s, j + 2) {
                    Ok(r) => Ok((seq![m] + r.0, r.1)),
                    Err(e) => Err(e),
                },
            }
        }
    } else {
        match string_body(s, j + 1) {
            Ok(r) => Ok((seq![s[j]] + r.0, r.1)),
            Err(e) => Err(e),
        }
    }
}

/// Characters that start an operator (a `.` does so only when another `.` follows).
pub open spec fn is_operator_start(c: char) -> bool {
    c == '+' || c == '-' || c == '*' || c == '/' || c == '%' || c == '=' || c == '!' || c == '<'
        || c == '>' || c == '&' || c == '|' || c == '^' || c == '~' || c == '?'
}

/// Characters that start a delimiter.
pub open spec fn is_delimiter_start(c: char) -> bool {
    c == '(' || c == ')' || c == '{' || c == '}' || c == '[' || c == ']' || c == ',' || c == ';'
        || c == ':' || c == '.'
}

/// The operator at offset `i` by longest match, and how many characters it takes.
pub open spec fn operator_scan(s: Seq<char>, i: int) -> (Operator, int) {
    let c = s[i];
    let n1 = char_at(s, i + 1);
    let n2 = char_at(s, i + 2);
    if c == '+' {
        if n1 == Some('=') {
            (Operator::AddAssign, 2)
        } else if n1 == Some('+') {
            (Operator::Inc, 2)
        } else {
            (Operator::Add, 1)
        }
    } else if c == '-' {
        if n1 == Some('=') {
            (Operator::SubAssign, 2)
        } else if n1 == Some('>') {
            (Operator::Arrow, 2)
        } else if n1 == Some('-') {
            (Operator::Dec, 2)
        } else {
            (Operator::Sub, 1)
        }
    } else if c == '*' {
        if n1 == Some('=') {
            (Operator::MulAssign, 2)
        } else {
            (Operator::Mul, 1)
        }
    } else if c == '/' {
        if n1 == Some('=') {
            (Operator::DivAssign, 2)
        } else {
            (Operator::Div, 1)
        }
    } else if c == '%' {
        if n1 == Some('=') {
            (Operator::ModAssign, 2)
        } else {
            (Operator::Mod, 1)
        }
    } else if c == '=' {
        if n1 == Some('=') {
            (Operator::Eq, 2)
        } else if n1 == Some('>') {
            (Operator::FatArrow, 2)
        } else {
            (Operator::Assign, 1)
        }
    } else if c == '!' {
        if n1 == Some('=') {
            (Operator::Ne, 2)
        } else {
            (Operator::Not, 1)
        }
    } else if c == '<' {
        if n1 == Some('=') {
            (Operator::Le, 2)
        } else if n1 == Some('<') {
            (Operator::Shl, 2)
        } else {
            (Operator::Lt, 1)
        }
    } else if c == '>' {
        if n1 == Some('=') {
            (Operator::Ge, 2)
        } else if n1 == Some('>') {
            (Operator::Shr, 2)
        } else {
            (Operator::Gt, 1)
        }
    } else if c == '&' {
        if n1 == Some('&') {
            (Operator::And, 2)
        } else {
            (Operator::BitAnd, 1)
        }
    } else if c == '|' {
        if n1 == Some('|') {
            (Operator::Or, 2)
        } else {
            (Operator::BitOr, 1)
        }
    } else if c == '^' {
        (Operator::BitXor, 1)
    } else if c == '~' {
        (Operator::BitNot, 1)
    } else if c == '.' {
        if n2 == Some('=') {
            (Operator::RangeEq, 3)
        } else {
            (Operator::Range, 2)
        }
    } else {
        (Operator::Question, 1)
    }
}

/// The delimiter at offset `i`, and how many characters it takes.
pub open spec fn delimiter_scan(s: Seq<char>, i: int) -> (Delimiter, int) {
    let c = s[i];
    if c == '(' {
        (Delimiter::LParen, 1)
    } else if c == ')' {
        (Delimiter::RParen, 1)
    } else if c == '{' {
        (Delimiter::LBrace, 1)
    } else if c == '}' {
        (Delimiter::RBrace, 1)
    } else if c == '[' {
        (Delimiter::LBracket, 1)
    } else if c == ']' {
        (Delimiter::RBracket, 1)
    } else if c == ',' {
        (Delimiter::Comma, 1)
    } else if c == ';' {
        (Delimiter::Semicolon, 1)
    } else if c == ':' {
        if char_at(s, i + 1) == Some(':') {
            (Delimiter::Scope, 2)
        } else {
            (Delimiter::Colon, 1)
        }
    } else {
        (Delimiter::Dot, 1)
    }
}

/// The kind of token that the word `t` makes: a boolean literal, a keyword or an identifier.
pub open spec fn word_kind(t: Seq<char>) -> SpecTokenKind {
    if t == "true"@ {
        SpecTokenKind::Literal(SpecLiteral::Bool(true))
    } else if t == "false"@ {
        SpecTokenKind::Literal(SpecLiteral::Bool(false))
    } else {
        match keyword_of(t) {
            Some(k) => SpecTokenKind::Keyword(k),
            None => SpecTokenKind::Ident(t),
        }
    }
}

pub open spec fn invalid_float_message(t: Seq<char>) -> Seq<char> {
    "invalid float literal `"@ + t + "`"@
}

pub open spec fn invalid_integer_message(t: Seq<char>) -> Seq<char> {
    "invalid integer literal `"@ + t + "`"@
}

pub open spec fn bad_escape_message(c: char) -> Seq<char> {
    "unsupported escape sequence `\\"@ + seq![c] + "`"@
}

pub open spec fn unexpected_char_message(c: char) -> Seq<char> {
    "unexpected character `"@ + seq![c] + "`"@
}

pub open spec fn token_at(kind: SpecTokenKind, s: Seq<char>, i: int) -> SpecToken {
    SpecToken { kind, position: position_at(s, i) }
}

pub open spec fn error_at(message: Seq<char>, s: Seq<char>, i: int) -> SpecError {
    SpecError { message, position: position_at(s, i) }
}

/// The number token that starts at offset `i`, whose text runs to `j`.
pub open spec fn number_token(s: Seq<char>, i: int, j: int) -> Result<SpecToken, SpecError> {
    let t = s.subrange(i, j);
    if count_char(t, '.') == 0 {
        if decimal_value(t) <= i64::MAX {
            Ok(token_at(SpecTokenKind::Literal(SpecLiteral::Int(decimal_value(t) as i64)), s, i))
        } else {
            Err(error_at(invalid_integer_message(t), s, i))
        }
    } else if count_char(t, '.') == 1 {
        Ok(token_at(SpecTokenKind::Literal(SpecLiteral::Float(t)), s, i))
    } else {
        Err(error_at(invalid_float_message(t), s, i))
    }
}

/// The end of a character literal that opened at `i` and holds `v`; `k` is just past `v`.
pub open spec fn char_close(s: Seq<char>, i: int, v: char, k: int) -> (
    Result<SpecToken, SpecError>,
    int,
) {
    if char_at(s, k) == Some('\'') {
        (Ok(token_at(SpecTokenKind::Literal(SpecLiteral::Char(v)), s, i)), k + 1)
    } else {
        (Err(error_at("char literal must contain exactly one character"@, s, i)), k)
    }
}

/// The character literal whose opening quote is at offset `i`.
pub open spec fn char_token(s: Seq<char>, i: int) -> (Result<SpecToken, SpecError>, int) {
    let j = i + 1;
    if j >= s.len() {
        (Err(error_at("unterminated char literal"@, s, i)), j)
    } else if s[j] == '\\' {
        if j + 1 >= s.len() {
            (Err(error_at("unterminated char literal"@, s, i)), j + 1)
        } else {
            match char_escape(s[j + 1]) {
                None => (Err(error_at(bad_escape_message(s[j + 1]), s, j + 1)), j + 1),
                Some(v) => char_close(s, i, v, j + 2),
            }
        }
    } else {
        char_close(s, i, s[j], j + 1)
    }
}

/// The string literal whose opening quote is at offset `i`.
pub open spec fn string_token(s: Seq<char>, i: int) -> (Result<SpecToken, SpecError>, int) {
    match string_body(s, i + 1) {
        Ok(r) => (Ok(token_at(SpecTokenKind::Literal(SpecLiteral::Str(r.0)), s, i)), r.1),
        Err(e) => match e.0 {
            None => (Err(error_at("unterminated string literal"@, s, i)), e.1),
            Some(c) => (Err(error_at(bad_escape_message(c), s, e.1)), e.1),
        },
    }
}

/// The token that starts at offset `i` (no white space or comment there), and the
/// offset where the lexer stands afterwards, whether it succeeds or fails.
pub open spec fn lex_token(s: Seq<char>, i: int) -> (Result<SpecToken, SpecError>, int) {
    if i < 0 || i >= s.len() {
        (Ok(token_at(SpecTokenKind::Eof, s, i)), i)
    } else {
        let c = s[i];
        if is_alpha(c) || c == '_' {
            let j = ident_end(s, i);
            (Ok(token_at(word_kind(s.subrange(i, j)), s, i)), j)
        } else if is_digit(c) {
            let j = number_end(s, i);
            (number_token(s, i, j), j)
        } else if c == '"' {
            string_token(s, i)
        } else if c == '\'' {
            char_token(s, i)
        } else if (c == '.' && char_at(s, i + 1) == Some('.')) || is_operator_start(c) {
            let (op, n) = operator_scan(s, i);
            (Ok(token_at(SpecTokenKind::Operator(op), s, i)), i + n)
        } else if is_delimiter_start(c) {
            let (d, n) = delimiter_scan(s, i);
            (Ok(token_at(SpecTokenKind::Delimiter(d), s, i)), i + n)
        } else {
            (Err(error_at(unexpected_char_message(c), s, i)), i)
        }
    }
}

/// What `next_token` does at offset `i`: skip white space and comments, then read one token.
pub open spec fn lex_step(s: Seq<char>, i: int) -> (Result<SpecToken, SpecError>, int) {
    lex_token(s, skip_ignored(s, i))
}


/// What `tokenize` returns for the source `s` from offset `i`: the tokens up to
/// and including the end-of-input token, or the first error.
pub open spec fn lex_all(s: Seq<char>, i: int) -> Result<Seq<SpecToken>, SpecError>
    decreases s.len() - i,
{
    let (r, e) = lex_step(s, i);
    match r {
        Err(err) => Err(err),
        Ok(t) => if t.kind is Eof {
            Ok(seq![t])
        } else {
            proof {
                lemma_lex_step_bounds(s, i);
            }
            match lex_all(s, e) {
                Ok(ts) => Ok(seq![t] + ts),
                Err(err) => Err(err),
            }
        },
    }
}

/// A successful `tokenize` ends with the end-of-input token, and holds no other.
pub proof fn lemma_lex_all_ends_with_eof(s: Seq<char>, i: int)
    ensures
        lex_all(s, i) matches Ok(ts) ==> {
            &&& ts.len() >= 1
            &&& ts.last().kind is Eof
            &&& forall|j: int| 0 <= j < ts.len() - 1 ==> !(#[trigger] ts[j].kind is Eof)
        },
    decreases s.len() - i,
{
    let (r, e) = lex_step(s, i);
    if let Ok(t) = r {
        if !(t.kind is Eof) {
            lemma_lex_step_bounds(s, i);
            lemma_lex_all_ends_with_eof(s, e);
            if let Ok(rest) = lex_all(s, e) {
                let ts = seq![t] + rest;
                assert forall|j: int| 0 <= j < ts.len() - 1 implies !(#[trigger] ts[j].kind is Eof) by {
                    if j > 0 {
                        assert(ts[j] == rest[j - 1]);
                    }
                }
            }
        }
    }
}

/// `a` comes strictly before `b` in reading order.
pub open spec fn precedes(a: SourcePosition, b: SourcePosition) -> bool {
    a.line < b.line || (a.line == b.line && a.column < b.column)
}

/// Reading one more character moves strictly forward in reading order.
pub proof fn lemma_line_col_increases(s: Seq<char>, i: int, j: int)
    requires
        0 <= i < j,
    ensures
        line_col(s, i).0 < line_col(s, j).0 || (line_col(s, i).0 == line_col(s, j).0
            && line_col(s, i).1 < line_col(s, j).1),
    decreases j - i,
{
    if j > i + 1 {
        lemma_line_col_increases(s, i, j - 1);
    }
}

/// The positions that `tokenize` reports follow the order of the tokens in the
/// source: every token starts strictly after the one before it, and none starts
/// before offset `i`.
pub proof fn lemma_positions_in_order(s: Seq<char>, i: int)
    requires
        0 <= i <= s.len(),
        s.len() < usize::MAX,
    ensures
        lex_all(s, i) matches Ok(ts) ==> {
            &&& forall|k: int| 0 <= k < ts.len() ==> !precedes(#[trigger] ts[k].position, position_at(s, i))
            &&& forall|j: int, k: int| 0 <= j < k < ts.len() ==> precedes(#[trigger] ts[j].position, #[trigger] ts[k].position)
        },
    decreases s.len() - i,
{
    let (r, e) = lex_step(s, i);
    let start = skip_ignored(s, i);
    lemma_lex_step_bounds(s, i);
    lemma_line_col_bounds(s, i);
    lemma_line_col_bounds(s, start);
    if start > i {
        lemma_line_col_increases(s, i, start);
    }
    if let Ok(t) = r {
        assert(t.position == position_at(s, start)) by {
            lemma_lex_token_position(s, start);
        }
        if !(t.kind is Eof) {
            lemma_lex_token_bounds(s, start);
            lemma_positions_in_order(s, e);
            lemma_line_col_bounds(s, e);
            lemma_line_col_increases(s, start, e);
            if let Ok(rest) = lex_all(s, e) {
                let ts = seq![t] + rest;
                assert forall|k: int| 0 <= k < ts.len() implies !precedes(#[trigger] ts[k].position, position_at(s, i)) by {
                    if k > 0 {
                        assert(ts[k] == rest[k - 1]);
                    }
                }
                assert forall|j: int, k: int| 0 <= j < k < ts.len() implies precedes(#[trigger] ts[j].position, #[trigger] ts[k].position) by {
                    assert(ts[k] == rest[k - 1]);
                    if j > 0 {
                        assert(ts[j] == rest[j - 1]);
                    }
                }
            }
        }
    }
}

/// A token read at offset `i` is reported at the line and column of `i`.
pub proof fn lemma_lex_token_position(s: Seq<char>, i: int)
    ensures
        lex_token(s, i).0 matches Ok(t) ==> t.position == position_at(s, i),
{
}

pub proof fn lemma_line_col_bounds(s: Seq<char>, i: int)
    requires
        0 <= i,
    ensures
        1 <= line_col(s, i).0 <= i + 1,
        1 <= line_col(s, i).1 <= i + 1,
    decreases i,
{
    if i > 0 {
        lemma_line_col_bounds(s, i - 1);
    }
}

pub proof fn lemma_skip_bounds(s: Seq<char>, i: int)
    requires
        0 <= i <= s.len(),
    ensures
        i <= skip_ignored(s, i) <= s.len(),
        i <= skip_comment(s, i) <= s.len(),
    decreases s.len() - i,
{
    if i < s.len() {
        lemma_skip_bounds(s, i + 1);
        if i + 1 < s.len() {
            lemma_skip_bounds(s, i + 2);
        }
    }
}

pub proof fn lemma_ident_end_bounds(s: Seq<char>, i: int)
    requires
        0 <= i <= s.len(),
    ensures
        i <= ident_end(s, i) <= s.len(),
        forall|k: int| i <= k < ident_end(s, i) ==> is_ident_char(#[trigger] s[k]),
    decreases s.len() - i,
{
    if i < s.len() {
        lemma_ident_end_bounds(s, i + 1);
    }
}

pub proof fn lemma_number_end_bounds(s: Seq<char>, i: int)
    requires
        0 <= i <= s.len(),
    ensures
        i <= number_end(s, i) <= s.len(),
    decreases s.len() - i,
{
    if i < s.len() {
        lemma_number_end_bounds(s, i + 1);
    }
}

pub proof fn lemma_string_body_bounds(s: Seq<char>, j: int)
    requires
        0 <= j <= s.len(),
    ensures
        string_body(s, j) matches Ok(r) ==> j < r.1 <= s.len(),
        string_body(s, j) matches Err(e) ==> j <= e.1 <= s.len(),
        string_body(s, j) matches Err(e) ==> (e.0 is None <==> e.1 == s.len()),
    decreases s.len() - j,
{
    if j < s.len() {
        if s[j] == '\\' {
            if j + 1 < s.len() {
                lemma_string_body_bounds(s, j + 2);
            }
        } else if s[j] != '"' {
            lemma_string_body_bounds(s, j + 1);
        }
    }
}

/// Reading one token stays inside the input, and a token other than the
/// end-of-input token takes at least one character.
pub proof fn lemma_lex_token_bounds(s: Seq<char>, i: int)
    requires
        0 <= i <= s.len(),
    ensures
        i <= lex_token(s, i).1 <= s.len(),
        lex_token(s, i).0 matches Ok(t) ==> (t.kind is Eof <==> i == s.len()),
        lex_token(s, i).0 matches Ok(t) && !(t.kind is Eof) ==> i < lex_token(s, i).1,
{
    if i < s.len() {
        lemma_ident_end_bounds(s, i);
        lemma_number_end_bounds(s, i);
        lemma_string_body_bounds(s, i + 1);
        if is_alpha(s[i]) || s[i] == '_' {
            lemma_ident_end_bounds(s, i + 1);
        }
        if is_digit(s[i]) {
            lemma_number_end_bounds(s, i + 1);
        }
    }
}

pub proof fn lemma_lex_step_bounds(s: Seq<char>, i: int)
    ensures
        0 <= i <= s.len() ==> i <= skip_ignored(s, i) <= lex_step(s, i).1 <= s.len(),
        lex_step(s, i).0 matches Ok(t) && !(t.kind is Eof) ==> 0 <= i < lex_step(s, i).1
            <= s.len(),
{
    if 0 <= i <= s.len() {
        lemma_skip_bounds(s, i);
        lemma_lex_token_bounds(s, skip_ignored(s, i));
    }
}


fn string_escape_of(c: char) -> (r: Option<char>)
    ensures
        r == string_escape(c),
{
    if c == 'n' {
        Some('\n')
    } else if c == 't' {
        Some('\t')
    } else if c == 'r' {
        Some('\r')
    } else if c == '\\' {
        Some('\\')
    } else if c == '"' {
        Some('"')
    } else if c == '\'' {
        Some('\'')
    } else {
        None
    }
}

fn char_escape_of(c: char) -> (r: Option<char>)
    ensures
        r == char_escape(c),
{
    if c == 'n' {
        Some('\n')
    } else if c == 't' {
        Some('\t')
    } else if c == 'r' {
        Some('\r')
    } else if c == '\\' {
        Some('\\')
    } else if c == '\'' {
        Some('\'')
    } else {
        None
    }
}

/// The values of the tokens `ts`.
pub open spec fn token_views(ts: Seq<Token>) -> Seq<SpecToken> {
    ts.map_values(|t: Token| t@)
}

/// `done` followed by what `rest` holds, or the error of `rest`.
pub open spec fn prepend_tokens(done: Seq<SpecToken>, rest: Result<Seq<SpecToken>, SpecError>) -> Result<Seq<SpecToken>, SpecError> {
    match rest {
        Ok(ts) => Ok(done + ts),
        Err(e) => Err(e),
    }
}

/// The value of the outcome of `tokenize`.
pub open spec fn spec_tokens(r: Result<Vec<Token>, LexError>) -> Result<Seq<SpecToken>, SpecError> {
    match r {
        Ok(ts) => Ok(token_views(ts@)),
        Err(e) => Err(e@),
    }
}

/// The value of a lexing outcome.
pub open spec fn spec_result(r: Result<Token, LexError>) -> Result<SpecToken, SpecError> {
    match r {
        Ok(t) => Ok(t@),
        Err(e) => Err(e@),
    }
}

pub proof fn lemma_count_char_positive(t: Seq<char>, c: char, k: int)
    requires
        0 <= k < t.len(),
        t[k] == c,
    ensures
        count_char(t, c) > 0,
    decreases t.len(),
{
    if k < t.len() - 1 {
        lemma_count_char_positive(t.drop_last(), c, k);
    }
}

/// A lexing failure: what went wrong and where.
#[derive(Debug, Clone, PartialEq, Eq)]
pub struct LexError {
    pub message: String,
    pub position: SourcePosition,
}

impl View for LexError {
    type V = SpecError;

    open spec fn view(&self) -> SpecError {
        SpecError { message: self.message@, position: self.position }
    }
}

impl LexError {
    /// The error as text: `<message> at line <line>, column <column>`.
    pub fn to_string(&self) -> (r: String)
        ensures
            r@ == error_text(self@),
    {
        render(&self.message, self.position)
    }

    fn new(position: SourcePosition, message: String) -> (e: Self)
        ensures
            e.message == message,
            e.position == position,
    {
        Self { message, position }
    }
}

/// Cuts a source text into tokens, one at a time.
///
/// The lexer stands at an offset into the source's characters and keeps the line
/// and column of that offset.
#[derive(Debug)]
pub struct Lexer {
    chars: Vec<char>,
    index: usize,
    line: usize,
    column: usize,
}

impl Lexer {
    /// The characters being lexed.
    pub closed spec fn source(&self) -> Seq<char> {
        self.chars@
    }

    /// Where the lexer stands in `source()`.
    pub closed spec fn offset(&self) -> int {
        self.index as int
    }

    /// The offset lies within the source, and the line and column kept are those of the offset.
    pub closed spec fn wf(&self) -> bool {
        &&& self.chars@.len() < usize::MAX
        &&& self.index <= self.chars@.len()
        &&& self.line == line_col(self.chars@, self.index as int).0
        &&& self.column == line_col(self.chars@, self.index as int).1
    }

    /// A lexer at the start of `input`.
    pub fn new(input: &str) -> (l: Self)
        requires
            input@.len() < usize::MAX,
        ensures
            l.wf(),
            l.source() == input@,
            l.offset() == 0,
    {
        let chars = chars_of(input);
        Self { chars, index: 0, line: 1, column: 1 }
    }

    fn current(&self) -> (r: Option<char>)
        requires
            self.wf(),
        ensures
            r == char_at(self.source(), self.offset()),
    {
        if self.index < self.chars.len() {
            Some(self.chars[self.index])
        } else {
            None
        }
    }

    fn peek(&self) -> (r: Option<char>)
        requires
            self.wf(),
        ensures
            r == char_at(self.source(), self.offset() + 1),
    {
        if self.index < self.chars.len() && self.index + 1 < self.chars.len() {
            Some(self.chars[self.index + 1])
        } else {
            None
        }
    }

    /// Looks two characters ahead: the character after the next one.
    fn peek_second(&self) -> (r: Option<char>)
        requires
            self.wf(),
        ensures
            r == char_at(self.source(), self.offset() + 2),
    {
        if self.index < self.chars.len() && self.index + 2 < self.chars.len() {
            Some(self.chars[self.index + 2])
        } else {
            None
        }
    }

    /// Consumes the current character, keeping line and column in step.
    fn bump(&mut self) -> (r: Option<char>)
        requires
            old(self).wf(),
        ensures
            final(self).wf(),
            final(self).source() == old(self).source(),
            r == char_at(old(self).source(), old(self).offset()),
            final(self).offset() == if old(self).offset() < old(self).source().len() {
                old(self).offset() + 1
            } else {
                old(self).offset()
            },
    {
        if self.index < self.chars.len() {
            let c = self.chars[self.index];
            proof {
                lemma_line_col_bounds(self.chars@, self.index as int);
            }
            if c == '\n' {
                self.line = self.line + 1;
                self.column = 1;
            } else {
                self.column = self.column + 1;
            }
            self.index = self.index + 1;
            Some(c)
        } else {
            None
        }
    }

    fn position(&self) -> (p: SourcePosition)
        requires
            self.wf(),
        ensures
            p == position_at(self.source(), self.offset()),
    {
        SourcePosition::new(self.line, self.column)
    }

    /// Reads an identifier, a keyword or `true`/`false`.
    fn read_identifier(&mut self) -> (t: Token)
        requires
            old(self).wf(),
            char_at(old(self).source(), old(self).offset()) matches Some(c) && (is_alpha(c) || c
                == '_'),
        ensures
            final(self).wf(),
            final(self).source() == old(self).source(),
            final(self).offset() == ident_end(old(self).source(), old(self).offset()),
            t@ == token_at(
                word_kind(old(self).source().subrange(old(self).offset(), final(self).offset())),
                old(self).source(),
                old(self).offset(),
            ),
    {
        let ghost s = self.source();
        let ghost start = self.offset();
        let position = self.position();
        let mut ident: Vec<char> = Vec::new();
        loop
            invariant
                self.wf(),
                self.source() == s,
                0 <= start <= self.offset(),
                ident@ == s.subrange(start, self.offset()),
                ident_end(s, start) == ident_end(s, self.offset()),
            ensures
                self.wf(),
                self.source() == s,
                ident@ == s.subrange(start, self.offset()),
                self.offset() == ident_end(s, start),
            decreases s.len() - self.offset(),
        {
            let more = match self.current() {
                Some(c) => ident_char(c),
                None => false,
            };
            if !more {
                break;
            }
            let c = self.bump().unwrap();
            ident.push(c);
            assert(ident@ =~= s.subrange(start, self.offset()));
        }
        let kind = if chars_eq_str(&ident, "true") {
            TokenKind::Literal(Literal::Bool(true))
        } else if chars_eq_str(&ident, "false") {
            TokenKind::Literal(Literal::Bool(false))
        } else {
            match Keyword::from_chars(&ident) {
                Some(keyword) => TokenKind::Keyword(keyword),
                None => TokenKind::Ident(string_of(&ident)),
            }
        };
        Token::new(kind, position.line, position.column)
    }

    /// Reads an integer or floating-point literal.
    fn read_number(&mut self) -> (r: Result<Token, LexError>)
        requires
            old(self).wf(),
            char_at(old(self).source(), old(self).offset()) matches Some(c) && is_digit(c),
        ensures
            final(self).wf(),
            final(self).source() == old(self).source(),
            final(self).offset() == number_end(old(self).source(), old(self).offset()),
            spec_result(r) == number_token(
                old(self).source(),
                old(self).offset(),
                final(self).offset(),
            ),
    {
        let ghost s = self.source();
        let ghost start = self.offset();
        let position = self.position();
        let mut number: Vec<char> = Vec::new();
        let mut dots: usize = 0;
        loop
            invariant
                self.wf(),
                self.source() == s,
                0 <= start <= self.offset(),
                number@ == s.subrange(start, self.offset()),
                number_end(s, start) == number_end(s, self.offset()),
                dots == count_char(number@, '.'),
                dots <= number@.len(),
                forall|k: int| 0 <= k < number@.len() ==> is_digit(#[trigger] number@[k]) || number@[k] == '.',
            ensures
                self.wf(),
                self.source() == s,
                number@ == s.subrange(start, self.offset()),
                self.offset() == number_end(s, start),
                dots == count_char(number@, '.'),
                forall|k: int| 0 <= k < number@.len() ==> is_digit(#[trigger] number@[k]) || number@[k] == '.',
            decreases s.len() - self.offset(),
        {
            let c = match self.current() {
                Some(c) => c,
                None => {
                    break;
                },
            };
            let take = if digit(c) {
                true
            } else if c == '.' {
                match self.peek() {
                    Some(next) => digit(next),
                    None => false,
                }
            } else {
                false
            };
            if !take {
                break;
            }
            self.bump();
            let ghost before = number@;
            number.push(c);
            assert(number@.drop_last() =~= before);
            if c == '.' {
                dots = dots + 1;
            }
            assert(number@ =~= s.subrange(start, self.offset()));
        }
        if dots == 0 {
            proof {
                assert forall|k: int| 0 <= k < number@.len() implies is_digit(#[trigger] number@[k]) by {
                    if !is_digit(number@[k]) {
                        lemma_count_char_positive(number@, '.', k);
                    }
                }
            }
            match parse_decimal(&number) {
                Some(value) => Ok(Token::literal(Literal::Int(value), position.line, position.column)),
                None => Err(LexError::new(position, surround_chars("invalid integer literal `", &number, "`"))),
            }
        } else if dots == 1 {
            Ok(Token::literal(Literal::Float(string_of(&number)), position.line, position.column))
        } else {
            Err(LexError::new(position, surround_chars("invalid float literal `", &number, "`")))
        }
    }

    /// Reads a string literal, resolving its escapes.
    fn read_string(&mut self) -> (r: Result<Token, LexError>)
        requires
            old(self).wf(),
            char_at(old(self).source(), old(self).offset()) == Some('"'),
        ensures
            final(self).wf(),
            final(self).source() == old(self).source(),
            (spec_result(r), final(self).offset()) == string_token(
                old(self).source(),
                old(self).offset(),
            ),
    {
        let ghost s = self.source();
        let ghost start = self.offset();
        let position = self.position();
        let mut text: Vec<char> = Vec::new();
        self.bump();
        loop
            invariant
                self.wf(),
                self.source() == s,
                0 <= start < self.offset(),
                s == old(self).source(),
                start == old(self).offset(),
                position == position_at(s, start),
                string_body(s, self.offset()) matches Ok(rb) ==> string_body(s, start + 1) == Ok::<
                    (Seq<char>, int),
                    (Option<char>, int),
                >((text@ + rb.0, rb.1)),
                string_body(s, self.offset()) matches Err(e) ==> string_body(s, start + 1)
                    == Err::<(Seq<char>, int), (Option<char>, int)>(e),
            decreases s.len() - self.offset(),
        {
            match self.current() {
                None => {
                    return Err(
                        LexError::new(position, owned("unterminated string literal")),
                    );
                },
                Some(c) => {
                    if c == '"' {
                        self.bump();
                        assert(text@ + Seq::<char>::empty() =~= text@);
                        return Ok(
                            Token::literal(
                                Literal::Str(string_of(&text)),
                                position.line,
                                position.column,
                            ),
                        );
                    } else if c == '\\' {
                        self.bump();
                        let escaped = match self.current() {
                            Some(e) => e,
                            None => {
                                return Err(
                                    LexError::new(
                                        position,
                                        owned("unterminated string literal"),
                                    ),
                                );
                            },
                        };
                        match string_escape_of(escaped) {
                            Some(mapped) => {
                                let ghost before = text@;
                                text.push(mapped);
                                self.bump();
                                assert forall|rb: (Seq<char>, int)|
                                    string_body(s, self.offset()) == Ok::<(Seq<char>, int), (Option<char>, int)>(rb)
                                    implies text@ + rb.0 =~= before + (seq![mapped] + rb.0) by {}
                            },
                            None => {
                                return Err(
                                    LexError::new(
                                        self.position(),
                                        surround_char("unsupported escape sequence `\\", escaped, "`"),
                                    ),
                                );
                            },
                        }
                    } else {
                        let ghost before = text@;
                        text.push(c);
                        self.bump();
                        assert forall|rb: (Seq<char>, int)|
                            string_body(s, self.offset()) == Ok::<(Seq<char>, int), (Option<char>, int)>(rb)
                            implies text@ + rb.0 =~= before + (seq![c] + rb.0) by {}
                    }
                },
            }
        }
    }

    /// Reads a character literal: exactly one character, or one escape, between quotes.
    fn read_char(&mut self) -> (r: Result<Token, LexError>)
        requires
            old(self).wf(),
            char_at(old(self).source(), old(self).offset()) == Some('\''),
        ensures
            final(self).wf(),
            final(self).source() == old(self).source(),
            (spec_result(r), final(self).offset()) == char_token(
                old(self).source(),
                old(self).offset(),
            ),
    {
        let position = self.position();
        self.bump();
        let value = match self.current() {
            Some(c) => {
                if c == '\\' {
                    self.bump();
                    match self.current() {
                        Some(e) => match char_escape_of(e) {
                            Some(v) => v,
                            None => {
                                return Err(
                                    LexError::new(
                                        self.position(),
                                        surround_char("unsupported escape sequence `\\", e, "`"),
                                    ),
                                );
                            },
                        },
                        None => {
                            return Err(
                                LexError::new(
                                    position,
                                    owned("unterminated char literal"),
                                ),
                            );
                        },
                    }
                } else {
                    c
                }
            },
            None => {
                return Err(
                    LexError::new(position, owned("unterminated char literal")),
                );
            },
        };
        self.bump();
        if self.current() != Some('\'') {
            return Err(
                LexError::new(
                    position,
                    owned("char literal must contain exactly one character"),
                ),
            );
        }
        self.bump();
        Ok(Token::literal(Literal::Char(value), position.line, position.column))
    }

    /// Reads an operator, taking the longest spelling that matches.
    fn read_operator(&mut self) -> (t: Token)
        requires
            old(self).wf(),
            char_at(old(self).source(), old(self).offset()) matches Some(c) && (is_operator_start(c)
                || (c == '.' && char_at(old(self).source(), old(self).offset() + 1) == Some('.'))),
        ensures
            final(self).wf(),
            final(self).source() == old(self).source(),
            final(self).offset() == old(self).offset() + operator_scan(
                old(self).source(),
                old(self).offset(),
            ).1,
            t@ == token_at(
                SpecTokenKind::Operator(operator_scan(old(self).source(), old(self).offset()).0),
                old(self).source(),
                old(self).offset(),
            ),
    {
        let position = self.position();
        let c = self.current().unwrap();
        self.bump();
        let op = if c == '+' {
            if self.current() == Some('=') {
                self.bump();
                Operator::AddAssign
            } else if self.current() == Some('+') {
                self.bump();
                Operator::Inc
            } else {
                Operator::Add
            }
        } else if c == '-' {
            if self.current() == Some('=') {
                self.bump();
                Operator::SubAssign
            } else if self.current() == Some('>') {
                self.bump();
                Operator::Arrow
            } else if self.current() == Some('-') {
                self.bump();
                Operator::Dec
            } else {
                Operator::Sub
            }
        } else if c == '*' {
            if self.current() == Some('=') {
                self.bump();
                Operator::MulAssign
            } else {
                Operator::Mul
            }
        } else if c == '/' {
            if self.current() == Some('=') {
                self.bump();
                Operator::DivAssign
            } else {
                Operator::Div
            }
        } else if c == '%' {
            if self.current() == Some('=') {
                self.bump();
                Operator::ModAssign
            } else {
                Operator::Mod
            }
        } else if c == '=' {
            if self.current() == Some('=') {
                self.bump();
                Operator::Eq
            } else if self.current() == Some('>') {
                self.bump();
                Operator::FatArrow
            } else {
                Operator::Assign
            }
        } else if c == '!' {
            if self.current() == Some('=') {
                self.bump();
                Operator::Ne
            } else {
                Operator::Not
            }
        } else if c == '<' {
            if self.current() == Some('=') {
                self.bump();
                Operator::Le
            } else if self.current() == Some('<') {
                self.bump();
                Operator::Shl
            } else {
                Operator::Lt
            }
        } else if c == '>' {
            if self.current() == Some('=') {
                self.bump();
                Operator::Ge
            } else if self.current() == Some('>') {
                self.bump();
                Operator::Shr
            } else {
                Operator::Gt
            }
        } else if c == '&' {
            if self.current() == Some('&') {
                self.bump();
                Operator::And
            } else {
                Operator::BitAnd
            }
        } else if c == '|' {
            if self.current() == Some('|') {
                self.bump();
                Operator::Or
            } else {
                Operator::BitOr
            }
        } else if c == '^' {
            Operator::BitXor
        } else if c == '~' {
            Operator::BitNot
        } else if c == '.' {
            self.bump();
            if self.current() == Some('=') {
                self.bump();
                Operator::RangeEq
            } else {
                Operator::Range
            }
        } else {
            Operator::Question
        };
        Token::operator(op, position.line, position.column)
    }

    /// Reads a delimiter (`::` as one).
    fn read_delimiter(&mut self) -> (t: Token)
        requires
            old(self).wf(),
            char_at(old(self).source(), old(self).offset()) matches Some(c) && is_delimiter_start(c),
        ensures
            final(self).wf(),
            final(self).source() == old(self).source(),
            final(self).offset() == old(self).offset() + delimiter_scan(
                old(self).source(),
                old(self).offset(),
            ).1,
            t@ == token_at(
                SpecTokenKind::Delimiter(delimiter_scan(old(self).source(), old(self).offset()).0),
                old(self).source(),
                old(self).offset(),
            ),
    {
        let position = self.position();
        let c = self.current().unwrap();
        self.bump();
        let delimiter = if c == '(' {
            Delimiter::LParen
        } else if c == ')' {
            Delimiter::RParen
        } else if c == '{' {
            Delimiter::LBrace
        } else if c == '}' {
            Delimiter::RBrace
        } else if c == '[' {
            Delimiter::LBracket
        } else if c == ']' {
            Delimiter::RBracket
        } else if c == ',' {
            Delimiter::Comma
        } else if c == ';' {
            Delimiter::Semicolon
        } else if c == ':' {
            if self.current() == Some(':') {
                self.bump();
                Delimiter::Scope
            } else {
                Delimiter::Colon
            }
        } else {
            Delimiter::Dot
        };
        Token::delimiter(delimiter, position.line, position.column)
    }

    /// Skips white space and `//` comments.
    fn skip_ignored(&mut self)
        requires
            old(self).wf(),
        ensures
            final(self).wf(),
            final(self).source() == old(self).source(),
            final(self).offset() == skip_ignored(old(self).source(), old(self).offset()),
    {
        let ghost s = self.source();
        let ghost target = skip_ignored(s, self.offset());
        loop
            invariant
                self.wf(),
                self.source() == s,
                skip_ignored(s, self.offset()) == target,
            ensures
                self.wf(),
                self.source() == s,
                self.offset() == target,
            decreases s.len() - self.offset(),
        {
            let ghost round_start = self.offset();
            loop
                invariant
                    self.wf(),
                    self.source() == s,
                    skip_ignored(s, self.offset()) == target,
                    round_start <= self.offset(),
                ensures
                    self.wf(),
                    self.source() == s,
                    skip_ignored(s, self.offset()) == target,
                    round_start <= self.offset(),
                    !(char_at(s, self.offset()) matches Some(c) && is_white_space(c)),
                decreases s.len() - self.offset(),
            {
                let white = match self.current() {
                    Some(c) => white_space(c),
                    None => false,
                };
                if !white {
                    break;
                }
                self.bump();
            }
            if self.current() == Some('/') && self.peek() == Some('/') {
                let ghost start = self.offset();
                loop
                    invariant_except_break
                        start < self.offset() ==> skip_comment(s, self.offset()) == target,
                    invariant
                        self.wf(),
                        self.source() == s,
                        start == self.offset() ==> skip_ignored(s, self.offset()) == target,
                        start <= self.offset(),
                        self.offset() < s.len() ==> start + 1 < s.len(),
                        start + 1 < s.len(),
                        s[start] == '/',
                        s[start + 1] == '/',
                        round_start <= start,
                    ensures
                        self.wf(),
                        self.source() == s,
                        skip_ignored(s, self.offset()) == target,
                        start < self.offset(),
                    decreases s.len() - self.offset(),
                {
                    let c = self.current();
                    match c {
                        None => {
                            break;
                        },
                        Some(ch) => {
                            self.bump();
                            if ch == '\n' {
                                break;
                            }
                        },
                    }
                }
                continue;
            }
            break;
        }
    }

    /// Reads the next token, after skipping white space and comments.
    ///
    /// At the end of the input this is the end-of-input token, again on every call.
    pub fn next_token(&mut self) -> (r: Result<Token, LexError>)
        requires
            old(self).wf(),
        ensures
            final(self).wf(),
            final(self).source() == old(self).source(),
            (spec_result(r), final(self).offset()) == lex_step(
                old(self).source(),
                old(self).offset(),
            ),
    {
        self.skip_ignored();
        match self.current() {
            None => Ok(Token::eof(self.line, self.column)),
            Some(c) => {
                if alpha(c) || c == '_' {
                    Ok(self.read_identifier())
                } else if digit(c) {
                    self.read_number()
                } else if c == '"' {
                    self.read_string()
                } else if c == '\'' {
                    self.read_char()
                } else if c == '.' && (self.peek() == Some('.') || (self.peek() == Some('.')
                    && self.peek_second() == Some('='))) {
                    Ok(self.read_operator())
                } else if c == '+' || c == '-' || c == '*' || c == '/' || c == '%' || c == '='
                    || c == '!' || c == '<' || c == '>' || c == '&' || c == '|' || c == '^' || c
                    == '~' || c == '?' {
                    Ok(self.read_operator())
                } else if c == '(' || c == ')' || c == '{' || c == '}' || c == '[' || c == ']' || c
                    == ',' || c == ';' || c == ':' || c == '.' {
                    Ok(self.read_delimiter())
                } else {
                    Err(
                        LexError::new(
                            self.position(),
                            surround_char("unexpected character `", c, "`"),
                        ),
                    )
                }
            },
        }
    }

    /// Cuts the rest of the input into tokens, up to and including the end-of-input
    /// token, or reports the first lexing error.
    pub fn tokenize(self) -> (r: Result<Vec<Token>, LexError>)
        requires
            self.wf(),
        ensures
            spec_tokens(r) == lex_all(self.source(), self.offset()),
    {
        let mut lexer = self;
        let ghost s = lexer.source();
        let ghost start = lexer.offset();
        let mut tokens: Vec<Token> = Vec::new();
        assert(token_views(tokens@) =~= Seq::<SpecToken>::empty());
        loop
            invariant
                lexer.wf(),
                lexer.source() == s,
                0 <= lexer.offset() <= s.len(),
                s == self.source(),
                start == self.offset(),
                lex_all(s, start) == prepend_tokens(token_views(tokens@), lex_all(s, lexer.offset())),
            decreases s.len() - lexer.offset(),
        {
            proof {
                lemma_lex_step_bounds(s, lexer.offset());
            }
            let token = match lexer.next_token() {
                Ok(t) => t,
                Err(e) => {
                    return Err(e);
                },
            };
            let eof = token.kind.is_eof();
            let ghost before = tokens@;
            tokens.push(token);
            assert(token_views(tokens@) =~= token_views(before).push(token@));
            if eof {
                assert(token_views(before) + seq![token@] =~= token_views(tokens@));
                return Ok(tokens);
            }
            proof {
                let rest = lex_all(s, lexer.offset());
                if let Ok(ts) = rest {
                    assert(token_views(before) + (seq![token@] + ts) =~= token_views(tokens@) + ts);
                }
            }
        }
    }
}

} // verus!
