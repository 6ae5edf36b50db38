//! Failures of the front end as values, and how they read as text.
use vstd::prelude::*;

use crate::text::{decimal, push_decimal, push_str};
use crate::token::SourcePosition;

verus! {

/// A failure of the lexer or the parser, as a value: message and position.
pub struct SpecError {
    pub message: Seq<char>,
    pub position: SourcePosition,
}

/// How a failure reads: `<message> at line <line>, column <column>`.
pub open spec fn error_text(e: SpecError) -> Seq<char> {
    e.message + " at line "@ + decimal(e.position.line as nat) + ", column "@ + decimal(
        e.position.column as nat,
    )
}

/// `message` followed by the line and column of `position`.
pub fn render(message: &String, position: SourcePosition) -> (r: String)
    ensures
        r@ == error_text(SpecError { message: message@, position }),
{
    let mut r = message.clone();
    push_str(&mut r, " at line ");
    push_decimal(&mut r, position.line);
    push_str(&mut r, ", column ");
    push_decimal(&mut r, position.column);
    r
}

} // verus!
