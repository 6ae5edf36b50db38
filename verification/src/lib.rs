//! The front end of a small compiler: a lexer that cuts source text into
//! tokens, and a parser that builds a syntax tree from them.
//!
//! `parse_source` runs both stages. Each stage is specified by spec functions
//! over mathematical values (`lexer::lex_all`, `parser::program_spec`), and the
//! executable code is proved to compute exactly what they say.
use vstd::prelude::*;

pub mod diagnostic;
pub mod laws;
pub mod lexer;
pub mod lexing_laws;
pub mod parser;
pub mod text;
pub mod token;

pub use diagnostic::SpecError;
pub use lexer::{LexError, Lexer};
pub use parser::{Expr, ParseError, Parser, Program, Stmt};
pub use token::{Delimiter, Keyword, Literal, Operator, SourcePosition, Token, TokenKind};

use diagnostic::error_text;
use lexer::{lex_all, lemma_lex_all_ends_with_eof};
use parser::{lemma_single_final_eof, program_outcome, program_spec, SpecStmt};

verus! {

/// A failure of the front end, from either stage.
#[derive(Debug)]
pub enum FrontendError {
    Lex(LexError),
    Parse(ParseError),
}

/// The mathematical value of a front-end failure.
pub enum SpecFrontendError {
    Lex(SpecError),
    Parse(SpecError),
}

impl View for FrontendError {
    type V = SpecFrontendError;

    open spec fn view(&self) -> SpecFrontendError {
        match self {
            FrontendError::Lex(e) => SpecFrontendError::Lex(e@),
            FrontendError::Parse(e) => SpecFrontendError::Parse(e@),
        }
    }
}

impl FrontendError {
    /// The error as text: that of the failure inside.
    pub fn to_string(&self) -> (r: String)
        ensures
            r@ == match self@ {
                SpecFrontendError::Lex(e) => error_text(e),
                SpecFrontendError::Parse(e) => error_text(e),
            },
    {
        match self {
            FrontendError::Lex(e) => e.to_string(),
            FrontendError::Parse(e) => e.to_string(),
        }
    }
}

impl From<LexError> for FrontendError {
    fn from(value: LexError) -> (r: Self) {
        Self::Lex(value)
    }
}

impl vstd::std_specs::convert::FromSpecImpl<LexError> for FrontendError {
    open spec fn obeys_from_spec() -> bool {
        true
    }

    open spec fn from_spec(v: LexError) -> Self {
        FrontendError::Lex(v)
    }
}

impl From<ParseError> for FrontendError {
    fn from(value: ParseError) -> (r: Self) {
        Self::Parse(value)
    }
}

impl vstd::std_specs::convert::FromSpecImpl<ParseError> for FrontendError {
    open spec fn obeys_from_spec() -> bool {
        true
    }

    open spec fn from_spec(v: ParseError) -> Self {
        FrontendError::Parse(v)
    }
}

/// What the front end makes of the source `s`: the statements of the program,
/// or the first lexing error, or (if lexing succeeds) the first parsing error.
pub open spec fn frontend_spec(s: Seq<char>) -> Result<Seq<SpecStmt>, SpecFrontendError> {
    match lex_all(s, 0) {
        Err(e) => Err(SpecFrontendError::Lex(e)),
        Ok(ts) => match program_spec(ts, 0).0 {
            Ok(stmts) => Ok(stmts),
            Err(e) => Err(SpecFrontendError::Parse(e)),
        },
    }
}

pub open spec fn frontend_outcome(r: Result<Program, FrontendError>) -> Result<
    Seq<SpecStmt>,
    SpecFrontendError,
> {
    match r {
        Ok(p) => Ok(p@),
        Err(e) => Err(e@),
    }
}

/// Lexes and parses `source` in one go.
pub fn parse_source(source: &str) -> (r: Result<Program, FrontendError>)
    requires
        source@.len() < usize::MAX,
    ensures
        frontend_outcome(r) == frontend_spec(source@),
{
    let tokens = match Lexer::new(source).tokenize() {
        Ok(tokens) => tokens,
        Err(e) => {
            return Err(FrontendError::from(e));
        },
    };
    proof {
        lemma_lex_all_ends_with_eof(source@, 0);
        lemma_single_final_eof(lexer::token_views(tokens@));
    }
    match Parser::parse(tokens) {
        Ok(program) => Ok(program),
        Err(e) => Err(FrontendError::from(e)),
    }
}

} // verus!
