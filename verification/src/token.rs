//! Tokens: what the lexer produces and the parser consumes.
use vstd::prelude::*;

use crate::text::{chars_eq_str, chars_of};

verus! {

/// A place in the source text: 1-based line and 1-based column (counted in characters).
#[derive(Debug, Clone, Copy, PartialEq, Eq, Structural)]
pub struct SourcePosition {
    pub line: usize,
    pub column: usize,
}

impl SourcePosition {
    pub fn new(line: usize, column: usize) -> (p: Self)
        ensures
            p.line == line,
            p.column == column,
    {
        Self { line, column }
    }
}

/// The smallest syntactic unit: a classified word together with where it starts.
#[derive(Debug, Clone, PartialEq)]
pub struct Token {
    pub kind: TokenKind,
    pub position: SourcePosition,
}

/// The class of a token.
#[derive(Debug, Clone, PartialEq)]
pub enum TokenKind {
    Keyword(Keyword),
    Ident(String),
    Literal(Literal),
    Operator(Operator),
    Delimiter(Delimiter),
    Eof,
}

/// Reserved words.
#[derive(Debug, PartialEq, Eq, Clone, Copy, Structural)]
pub enum Keyword {
    Let,
    Const,
    Static,
    Mut,
    Fn,
    Return,
    Struct,
    Enum,
    Trait,
    Type,
    Impl,
    If,
    Else,
    Match,
    For,
    Loop,
    Continue,
    Break,
    In,
    While,
    Mod,
    Pub,
    Crate,
    SelfLower,
    SelfUpper,
    Super,
    Async,
    Await,
    Unsafe,
    Extern,
}

/// Values written directly in the source.
///
/// A floating-point literal is kept as its source text (digits with a single `.`
/// between digits); its numeric value is what `str::parse::<f64>` gives for that text.
#[derive(Debug, PartialEq, Clone)]
pub enum Literal {
    Char(char),
    Float(String),
    Int(i64),
    Str(String),
    Bool(bool),
}

/// Operators: arithmetic, comparison, logical, bitwise, range and the rest.
#[derive(Debug, PartialEq, Eq, Clone, Copy, Structural)]
pub enum Operator {
    Add,
    Sub,
    Mul,
    Div,
    Mod,
    Assign,
    AddAssign,
    SubAssign,
    DivAssign,
    MulAssign,
    ModAssign,
    Eq,
    Ne,
    Lt,
    Le,
    Gt,
    Ge,
    And,
    Or,
    Not,
    BitAnd,
    BitOr,
    BitXor,
    BitNot,
    Shl,
    Shr,
    Inc,
    Dec,
    Arrow,
    Range,
    RangeEq,
    FatArrow,
    Question,
}

/// Punctuation that structures the program without computing anything.
#[derive(Debug, PartialEq, Eq, Clone, Copy, Structural)]
pub enum Delimiter {
    LParen,
    RParen,
    LBrace,
    RBrace,
    LBracket,
    RBracket,
    Comma,
    Dot,
    Scope,
    Semicolon,
    Colon,
}

/// The mathematical value of a literal: texts are character sequences.
pub enum SpecLiteral {
    Char(char),
    Float(Seq<char>),
    Int(i64),
    Str(Seq<char>),
    Bool(bool),
}

/// The mathematical value of a token kind.
pub enum SpecTokenKind {
    Keyword(Keyword),
    Ident(Seq<char>),
    Literal(SpecLiteral),
    Operator(Operator),
    Delimiter(Delimiter),
    Eof,
}

/// The mathematical value of a token.
pub struct SpecToken {
    pub kind: SpecTokenKind,
    pub position: SourcePosition,
}

impl View for Literal {
    type V = SpecLiteral;

    open spec fn view(&self) -> SpecLiteral {
        match self {
            Literal::Char(c) => SpecLiteral::Char(*c),
            Literal::Float(t) => SpecLiteral::Float(t@),
            Literal::Int(v) => SpecLiteral::Int(*v),
            Literal::Str(t) => SpecLiteral::Str(t@),
            Literal::Bool(b) => SpecLiteral::Bool(*b),
        }
    }
}

impl View for TokenKind {
    type V = SpecTokenKind;

    open spec fn view(&self) -> SpecTokenKind {
        match self {
            TokenKind::Keyword(k) => SpecTokenKind::Keyword(*k),
            TokenKind::Ident(name) => SpecTokenKind::Ident(name@),
            TokenKind::Literal(l) => SpecTokenKind::Literal(l@),
            TokenKind::Operator(op) => SpecTokenKind::Operator(*op),
            TokenKind::Delimiter(d) => SpecTokenKind::Delimiter(*d),
            TokenKind::Eof => SpecTokenKind::Eof,
        }
    }
}

impl View for Token {
    type V = SpecToken;

    open spec fn view(&self) -> SpecToken {
        SpecToken { kind: self.kind@, position: self.position }
    }
}

/// A copy of `l` (the library's own clone, whose result Verus knows).
pub fn copy_literal(l: &Literal) -> (r: Literal)
    ensures
        r == *l,
{
    match l {
        Literal::Char(c) => Literal::Char(*c),
        Literal::Float(t) => Literal::Float(t.clone()),
        Literal::Int(v) => Literal::Int(*v),
        Literal::Str(t) => Literal::Str(t.clone()),
        Literal::Bool(b) => Literal::Bool(*b),
    }
}

/// The spelling of each operator.
pub open spec fn operator_text(op: Operator) -> Seq<char> {
    match op {
        Operator::Add => "+"@,
        Operator::Sub => "-"@,
        Operator::Mul => "*"@,
        Operator::Div => "/"@,
        Operator::Mod => "%"@,
        Operator::Assign => "="@,
        Operator::AddAssign => "+="@,
        Operator::SubAssign => "-="@,
        Operator::MulAssign => "*="@,
        Operator::DivAssign => "/="@,
        Operator::ModAssign => "%="@,
        Operator::Eq => "=="@,
        Operator::Ne => "!="@,
        Operator::Lt => "<"@,
        Operator::Le => "<="@,
        Operator::Gt => ">"@,
        Operator::Ge => ">="@,
        Operator::And => "&&"@,
        Operator::Or => "||"@,
        Operator::Not => "!"@,
        Operator::BitAnd => "&"@,
        Operator::BitOr => "|"@,
        Operator::BitXor => "^"@,
        Operator::BitNot => "~"@,
        Operator::Shl => "<<"@,
        Operator::Shr => ">>"@,
        Operator::Inc => "++"@,
        Operator::Dec => "--"@,
        Operator::Arrow => "->"@,
        Operator::Range => ".."@,
        Operator::RangeEq => "..="@,
        Operator::FatArrow => "=>"@,
        Operator::Question => "?"@,
    }
}

/// The spelling of each delimiter.
pub open spec fn delimiter_text(d: Delimiter) -> Seq<char> {
    match d {
        Delimiter::LParen => "("@,
        Delimiter::RParen => ")"@,
        Delimiter::LBrace => "{"@,
        Delimiter::RBrace => "}"@,
        Delimiter::LBracket => "["@,
        Delimiter::RBracket => "]"@,
        Delimiter::Comma => ","@,
        Delimiter::Dot => "."@,
        Delimiter::Scope => "::"@,
        Delimiter::Semicolon => ";"@,
        Delimiter::Colon => ":"@,
    }
}

/// The spelling of each keyword.
pub open spec fn keyword_text(k: Keyword) -> Seq<char> {
    match k {
        Keyword::Let => "let"@,
        Keyword::Const => "const"@,
        Keyword::Static => "static"@,
        Keyword::Mut => "mut"@,
        Keyword::Fn => "fn"@,
        Keyword::Return => "return"@,
        Keyword::Struct => "struct"@,
        Keyword::Enum => "enum"@,
        Keyword::Trait => "trait"@,
        Keyword::Type => "type"@,
        Keyword::Impl => "impl"@,
        Keyword::If => "if"@,
        Keyword::Else => "else"@,
        Keyword::Match => "match"@,
        Keyword::For => "for"@,
        Keyword::Loop => "loop"@,
        Keyword::Continue => "continue"@,
        Keyword::Break => "break"@,
        Keyword::In => "in"@,
        Keyword::While => "while"@,
        Keyword::Mod => "mod"@,
        Keyword::Pub => "pub"@,
        Keyword::Crate => "crate"@,
        Keyword::SelfLower => "self"@,
        Keyword::SelfUpper => "Self"@,
        Keyword::Super => "super"@,
        Keyword::Async => "async"@,
        Keyword::Await => "await"@,
        Keyword::Unsafe => "unsafe"@,
        Keyword::Extern => "extern"@,
    }
}

/// The keyword spelled `t`, if any.
pub open spec fn keyword_of(t: Seq<char>) -> Option<Keyword> {
    if t == "let"@ {
        Some(Keyword::Let)
    } else if t == "const"@ {
        Some(Keyword::Const)
    } else if t == "static"@ {
        Some(Keyword::Static)
    } else if t == "mut"@ {
        Some(Keyword::Mut)
    } else if t == "fn"@ {
        Some(Keyword::Fn)
    } else if t == "return"@ {
        Some(Keyword::Return)
    } else if t == "struct"@ {
        Some(Keyword::Struct)
    } else if t == "enum"@ {
        Some(Keyword::Enum)
    } else if t == "trait"@ {
        Some(Keyword::Trait)
    } else if t == "type"@ {
        Some(Keyword::Type)
    } else if t == "impl"@ {
        Some(Keyword::Impl)
    } else if t == "if"@ {
        Some(Keyword::If)
    } else if t == "else"@ {
        Some(Keyword::Else)
    } else if t == "match"@ {
        Some(Keyword::Match)
    } else if t == "for"@ {
        Some(Keyword::For)
    } else if t == "loop"@ {
        Some(Keyword::Loop)
    } else if t == "continue"@ {
        Some(Keyword::Continue)
    } else if t == "break"@ {
        Some(Keyword::Break)
    } else if t == "in"@ {
        Some(Keyword::In)
    } else if t == "while"@ {
        Some(Keyword::While)
    } else if t == "mod"@ {
        Some(Keyword::Mod)
    } else if t == "pub"@ {
        Some(Keyword::Pub)
    } else if t == "crate"@ {
        Some(Keyword::Crate)
    } else if t == "self"@ {
        Some(Keyword::SelfLower)
    } else if t == "Self"@ {
        Some(Keyword::SelfUpper)
    } else if t == "super"@ {
        Some(Keyword::Super)
    } else if t == "async"@ {
        Some(Keyword::Async)
    } else if t == "await"@ {
        Some(Keyword::Await)
    } else if t == "unsafe"@ {
        Some(Keyword::Unsafe)
    } else if t == "extern"@ {
        Some(Keyword::Extern)
    } else {
        None
    }
}

/// The operator spelled `t`, if any.
pub open spec fn operator_of(t: Seq<char>) -> Option<Operator> {
    if t == "+"@ {
        Some(Operator::Add)
    } else if t == "-"@ {
        Some(Operator::Sub)
    } else if t == "*"@ {
        Some(Operator::Mul)
    } else if t == "/"@ {
        Some(Operator::Div)
    } else if t == "%"@ {
        Some(Operator::Mod)
    } else if t == "="@ {
        Some(Operator::Assign)
    } else if t == "+="@ {
        Some(Operator::AddAssign)
    } else if t == "-="@ {
        Some(Operator::SubAssign)
    } else if t == "*="@ {
        Some(Operator::MulAssign)
    } else if t == "/="@ {
        Some(Operator::DivAssign)
    } else if t == "%="@ {
        Some(Operator::ModAssign)
    } else if t == "=="@ {
        Some(Operator::Eq)
    } else if t == "!="@ {
        Some(Operator::Ne)
    } else if t == "<"@ {
        Some(Operator::Lt)
    } else if t == "<="@ {
        Some(Operator::Le)
    } else if t == ">"@ {
        Some(Operator::Gt)
    } else if t == ">="@ {
        Some(Operator::Ge)
    } else if t == "&&"@ {
        Some(Operator::And)
    } else if t == "||"@ {
        Some(Operator::Or)
    } else if t == "!"@ {
        Some(Operator::Not)
    } else if t == "&"@ {
        Some(Operator::BitAnd)
    } else if t == "|"@ {
        Some(Operator::BitOr)
    } else if t == "^"@ {
        Some(Operator::BitXor)
    } else if t == "~"@ {
        Some(Operator::BitNot)
    } else if t == "<<"@ {
        Some(Operator::Shl)
    } else if t == ">>"@ {
        Some(Operator::Shr)
    } else if t == "++"@ {
        Some(Operator::Inc)
    } else if t == "--"@ {
        Some(Operator::Dec)
    } else if t == "->"@ {
        Some(Operator::Arrow)
    } else if t == ".."@ {
        Some(Operator::Range)
    } else if t == "..="@ {
        Some(Operator::RangeEq)
    } else if t == "=>"@ {
        Some(Operator::FatArrow)
    } else if t == "?"@ {
        Some(Operator::Question)
    } else {
        None
    }
}

/// The delimiter spelled `t`, if any.
pub open spec fn delimiter_of(t: Seq<char>) -> Option<Delimiter> {
    if t == "("@ {
        Some(Delimiter::LParen)
    } else if t == ")"@ {
        Some(Delimiter::RParen)
    } else if t == "{"@ {
        Some(Delimiter::LBrace)
    } else if t == "}"@ {
        Some(Delimiter::RBrace)
    } else if t == "["@ {
        Some(Delimiter::LBracket)
    } else if t == "]"@ {
        Some(Delimiter::RBracket)
    } else if t == ","@ {
        Some(Delimiter::Comma)
    } else if t == "."@ {
        Some(Delimiter::Dot)
    } else if t == "::"@ {
        Some(Delimiter::Scope)
    } else if t == ";"@ {
        Some(Delimiter::Semicolon)
    } else if t == ":"@ {
        Some(Delimiter::Colon)
    } else {
        None
    }
}

impl Operator {
    /// The operator spelled `s`, if any.
    pub fn from_str(s: &str) -> (r: Option<Self>)
        ensures
            r == operator_of(s@),
    {
        let cs = chars_of(s);
        Self::from_chars(&cs)
    }

    pub(crate) fn from_chars(cs: &Vec<char>) -> (r: Option<Self>)
        ensures
            r == operator_of(cs@),
    {
        if chars_eq_str(cs, "+") {
            Some(Self::Add)
        } else if chars_eq_str(cs, "-") {
            Some(Self::Sub)
        } else if chars_eq_str(cs, "*") {
            Some(Self::Mul)
        } else if chars_eq_str(cs, "/") {
            Some(Self::Div)
        } else if chars_eq_str(cs, "%") {
            Some(Self::Mod)
        } else if chars_eq_str(cs, "=") {
            Some(Self::Assign)
        } else if chars_eq_str(cs, "+=") {
            Some(Self::AddAssign)
        } else if chars_eq_str(cs, "-=") {
            Some(Self::SubAssign)
        } else if chars_eq_str(cs, "*=") {
            Some(Self::MulAssign)
        } else if chars_eq_str(cs, "/=") {
            Some(Self::DivAssign)
        } else if chars_eq_str(cs, "%=") {
            Some(Self::ModAssign)
        } else if chars_eq_str(cs, "==") {
            Some(Self::Eq)
        } else if chars_eq_str(cs, "!=") {
            Some(Self::Ne)
        } else if chars_eq_str(cs, "<") {
            Some(Self::Lt)
        } else if chars_eq_str(cs, "<=") {
            Some(Self::Le)
        } else if chars_eq_str(cs, ">") {
            Some(Self::Gt)
        } else if chars_eq_str(cs, ">=") {
            Some(Self::Ge)
        } else if chars_eq_str(cs, "&&") {
            Some(Self::And)
        } else if chars_eq_str(cs, "||") {
            Some(Self::Or)
        } else if chars_eq_str(cs, "!") {
            Some(Self::Not)
        } else if chars_eq_str(cs, "&") {
            Some(Self::BitAnd)
        } else if chars_eq_str(cs, "|") {
            Some(Self::BitOr)
        } else if chars_eq_str(cs, "^") {
            Some(Self::BitXor)
        } else if chars_eq_str(cs, "~") {
            Some(Self::BitNot)
        } else if chars_eq_str(cs, "<<") {
            Some(Self::Shl)
        } else if chars_eq_str(cs, ">>") {
            Some(Self::Shr)
        } else if chars_eq_str(cs, "++") {
            Some(Self::Inc)
        } else if chars_eq_str(cs, "--") {
            Some(Self::Dec)
        } else if chars_eq_str(cs, "->") {
            Some(Self::Arrow)
        } else if chars_eq_str(cs, "..") {
            Some(Self::Range)
        } else if chars_eq_str(cs, "..=") {
            Some(Self::RangeEq)
        } else if chars_eq_str(cs, "=>") {
            Some(Self::FatArrow)
        } else if chars_eq_str(cs, "?") {
            Some(Self::Question)
        } else {
            None
        }
    }
}

impl Delimiter {
    /// The delimiter spelled `s`, if any.
    pub fn from_str(s: &str) -> (r: Option<Self>)
        ensures
            r == delimiter_of(s@),
    {
        let cs = chars_of(s);
        Self::from_chars(&cs)
    }

    pub(crate) fn from_chars(cs: &Vec<char>) -> (r: Option<Self>)
        ensures
            r == delimiter_of(cs@),
    {
        if chars_eq_str(cs, "(") {
            Some(Self::LParen)
        } else if chars_eq_str(cs, ")") {
            Some(Self::RParen)
        } else if chars_eq_str(cs, "{") {
            Some(Self::LBrace)
        } else if chars_eq_str(cs, "}") {
            Some(Self::RBrace)
        } else if chars_eq_str(cs, "[") {
            Some(Self::LBracket)
        } else if chars_eq_str(cs, "]") {
            Some(Self::RBracket)
        } else if chars_eq_str(cs, ",") {
            Some(Self::Comma)
        } else if chars_eq_str(cs, ".") {
            Some(Self::Dot)
        } else if chars_eq_str(cs, "::") {
            Some(Self::Scope)
        } else if chars_eq_str(cs, ";") {
            Some(Self::Semicolon)
        } else if chars_eq_str(cs, ":") {
            Some(Self::Colon)
        } else {
            None
        }
    }
}

impl Keyword {
    /// The keyword spelled `s`, if any (`None` for an ordinary identifier).
    pub fn from_str(s: &str) -> (r: Option<Self>)
        ensures
            r == keyword_of(s@),
    {
        let cs = chars_of(s);
        Self::from_chars(&cs)
    }

    pub(crate) fn from_chars(cs: &Vec<char>) -> (r: Option<Self>)
        ensures
            r == keyword_of(cs@),
    {
        if chars_eq_str(cs, "let") {
            Some(Self::Let)
        } else if chars_eq_str(cs, "const") {
            Some(Self::Const)
        } else if chars_eq_str(cs, "static") {
            Some(Self::Static)
        } else if chars_eq_str(cs, "mut") {
            Some(Self::Mut)
        } else if chars_eq_str(cs, "fn") {
            Some(Self::Fn)
        } else if chars_eq_str(cs, "return") {
            Some(Self::Return)
        } else if chars_eq_str(cs, "struct") {
            Some(Self::Struct)
        } else if chars_eq_str(cs, "enum") {
            Some(Self::Enum)
        } else if chars_eq_str(cs, "trait") {
            Some(Self::Trait)
        } else if chars_eq_str(cs, "type") {
            Some(Self::Type)
        } else if chars_eq_str(cs, "impl") {
            Some(Self::Impl)
        } else if chars_eq_str(cs, "if") {
            Some(Self::If)
        } else if chars_eq_str(cs, "else") {
            Some(Self::Else)
        } else if chars_eq_str(cs, "match") {
            Some(Self::Match)
        } else if chars_eq_str(cs, "for") {
            Some(Self::For)
        } else if chars_eq_str(cs, "loop") {
            Some(Self::Loop)
        } else if chars_eq_str(cs, "continue") {
            Some(Self::Continue)
        } else if chars_eq_str(cs, "break") {
            Some(Self::Break)
        } else if chars_eq_str(cs, "in") {
            Some(Self::In)
        } else if chars_eq_str(cs, "while") {
            Some(Self::While)
        } else if chars_eq_str(cs, "mod") {
            Some(Self::Mod)
        } else if chars_eq_str(cs, "pub") {
            Some(Self::Pub)
        } else if chars_eq_str(cs, "crate") {
            Some(Self::Crate)
        } else if chars_eq_str(cs, "self") {
            Some(Self::SelfLower)
        } else if chars_eq_str(cs, "Self") {
            Some(Self::SelfUpper)
        } else if chars_eq_str(cs, "super") {
            Some(Self::Super)
        } else if chars_eq_str(cs, "async") {
            Some(Self::Async)
        } else if chars_eq_str(cs, "await") {
            Some(Self::Await)
        } else if chars_eq_str(cs, "unsafe") {
            Some(Self::Unsafe)
        } else if chars_eq_str(cs, "extern") {
            Some(Self::Extern)
        } else {
            None
        }
    }
}

/// The name of each operator variant, as `{:?}` prints it.
pub open spec fn operator_name(x: Operator) -> Seq<char> {
    match x {
        Operator::Add => "Add"@,
        Operator::Sub => "Sub"@,
        Operator::Mul => "Mul"@,
        Operator::Div => "Div"@,
        Operator::Mod => "Mod"@,
        Operator::Assign => "Assign"@,
        Operator::AddAssign => "AddAssign"@,
        Operator::SubAssign => "SubAssign"@,
        Operator::DivAssign => "DivAssign"@,
        Operator::MulAssign => "MulAssign"@,
        Operator::ModAssign => "ModAssign"@,
        Operator::Eq => "Eq"@,
        Operator::Ne => "Ne"@,
        Operator::Lt => "Lt"@,
        Operator::Le => "Le"@,
        Operator::Gt => "Gt"@,
        Operator::Ge => "Ge"@,
        Operator::And => "And"@,
        Operator::Or => "Or"@,
        Operator::Not => "Not"@,
        Operator::BitAnd => "BitAnd"@,
        Operator::BitOr => "BitOr"@,
        Operator::BitXor => "BitXor"@,
        Operator::BitNot => "BitNot"@,
        Operator::Shl => "Shl"@,
        Operator::Shr => "Shr"@,
        Operator::Inc => "Inc"@,
        Operator::Dec => "Dec"@,
        Operator::Arrow => "Arrow"@,
        Operator::Range => "Range"@,
        Operator::RangeEq => "RangeEq"@,
        Operator::FatArrow => "FatArrow"@,
        Operator::Question => "Question"@,
    }
}

impl Operator {
    /// The variant's name, as `{:?}` prints it.
    pub fn debug_name(&self) -> (r: &'static str)
        ensures
            r@ == operator_name(*self),
    {
        match self {
            Operator::Add => "Add",
            Operator::Sub => "Sub",
            Operator::Mul => "Mul",
            Operator::Div => "Div",
            Operator::Mod => "Mod",
            Operator::Assign => "Assign",
            Operator::AddAssign => "AddAssign",
            Operator::SubAssign => "SubAssign",
            Operator::DivAssign => "DivAssign",
            Operator::MulAssign => "MulAssign",
            Operator::ModAssign => "ModAssign",
            Operator::Eq => "Eq",
            Operator::Ne => "Ne",
            Operator::Lt => "Lt",
            Operator::Le => "Le",
            Operator::Gt => "Gt",
            Operator::Ge => "Ge",
            Operator::And => "And",
            Operator::Or => "Or",
            Operator::Not => "Not",
            Operator::BitAnd => "BitAnd",
            Operator::BitOr => "BitOr",
            Operator::BitXor => "BitXor",
            Operator::BitNot => "BitNot",
            Operator::Shl => "Shl",
            Operator::Shr => "Shr",
            Operator::Inc => "Inc",
            Operator::Dec => "Dec",
            Operator::Arrow => "Arrow",
            Operator::Range => "Range",
            Operator::RangeEq => "RangeEq",
            Operator::FatArrow => "FatArrow",
            Operator::Question => "Question",
        }
    }
}

/// The name of each delimiter variant, as `{:?}` prints it.
pub open spec fn delimiter_name(x: Delimiter) -> Seq<char> {
    match x {
        Delimiter::LParen => "LParen"@,
        Delimiter::RParen => "RParen"@,
        Delimiter::LBrace => "LBrace"@,
        Delimiter::RBrace => "RBrace"@,
        Delimiter::LBracket => "LBracket"@,
        Delimiter::RBracket => "RBracket"@,
        Delimiter::Comma => "Comma"@,
        Delimiter::Dot => "Dot"@,
        Delimiter::Scope => "Scope"@,
        Delimiter::Semicolon => "Semicolon"@,
        Delimiter::Colon => "Colon"@,
    }
}

impl Delimiter {
    /// The variant's name, as `{:?}` prints it.
    pub fn debug_name(&self) -> (r: &'static str)
        ensures
            r@ == delimiter_name(*self),
    {
        match self {
            Delimiter::LParen => "LParen",
            Delimiter::RParen => "RParen",
            Delimiter::LBrace => "LBrace",
            Delimiter::RBrace => "RBrace",
            Delimiter::LBracket => "LBracket",
            Delimiter::RBracket => "RBracket",
            Delimiter::Comma => "Comma",
            Delimiter::Dot => "Dot",
            Delimiter::Scope => "Scope",
            Delimiter::Semicolon => "Semicolon",
            Delimiter::Colon => "Colon",
        }
    }
}

impl Token {
    pub fn new(kind: TokenKind, line: usize, column: usize) -> (t: Self)
        ensures
            t.kind == kind,
            t.position == (SourcePosition { line, column }),
    {
        Self { kind, position: SourcePosition::new(line, column) }
    }

    pub fn literal(literal: Literal, line: usize, column: usize) -> (t: Self)
        ensures
            t.kind == TokenKind::Literal(literal),
            t.position == (SourcePosition { line, column }),
    {
        Self::new(TokenKind::Literal(literal), line, column)
    }

    pub fn ident(name: String, line: usize, column: usize) -> (t: Self)
        ensures
            t.kind == TokenKind::Ident(name),
            t.position == (SourcePosition { line, column }),
    {
        Self::new(TokenKind::Ident(name), line, column)
    }

    pub fn keyword(keyword: Keyword, line: usize, column: usize) -> (t: Self)
        ensures
            t.kind == TokenKind::Keyword(keyword),
            t.position == (SourcePosition { line, column }),
    {
        Self::new(TokenKind::Keyword(keyword), line, column)
    }

    pub fn delimiter(delimiter: Delimiter, line: usize, column: usize) -> (t: Self)
        ensures
            t.kind == TokenKind::Delimiter(delimiter),
            t.position == (SourcePosition { line, column }),
    {
        Self::new(TokenKind::Delimiter(delimiter), line, column)
    }

    pub fn operator(operator: Operator, line: usize, column: usize) -> (t: Self)
        ensures
            t.kind == TokenKind::Operator(operator),
            t.position == (SourcePosition { line, column }),
    {
        Self::new(TokenKind::Operator(operator), line, column)
    }

    /// The end-of-input marker that closes every token stream.
    pub fn eof(line: usize, column: usize) -> (t: Self)
        ensures
            t.kind == TokenKind::Eof,
            t.position == (SourcePosition { line, column }),
    {
        Self::new(TokenKind::Eof, line, column)
    }
}

impl TokenKind {
    pub fn is_eof(&self) -> (r: bool)
        ensures
            r == (*self is Eof),
    {
        match self {
            TokenKind::Eof => true,
            _ => false,
        }
    }

    pub fn is_keyword(&self, keyword: Keyword) -> (r: bool)
        ensures
            r == (self@ == SpecTokenKind::Keyword(keyword)),
    {
        match self {
            TokenKind::Keyword(k) => *k == keyword,
            _ => false,
        }
    }

    pub fn is_operator(&self, operator: Operator) -> (r: bool)
        ensures
            r == (self@ == SpecTokenKind::Operator(operator)),
    {
        match self {
            TokenKind::Operator(op) => *op == operator,
            _ => false,
        }
    }

    pub fn is_delimiter(&self, delimiter: Delimiter) -> (r: bool)
        ensures
            r == (self@ == SpecTokenKind::Delimiter(delimiter)),
    {
        match self {
            TokenKind::Delimiter(d) => *d == delimiter,
            _ => false,
        }
    }
}

} // verus!
