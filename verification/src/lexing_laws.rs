//! Properties of the lexer and of the spelling tables, proved over their
//! specification: words are keywords exactly when spelled as one, escapes denote
//! the characters they name, literals hold the characters written in them, and
//! lines and columns count what they say.
use vstd::prelude::*;

use crate::diagnostic::SpecError;
use crate::laws::{
    lemma_delimiter_text_round_trip, lemma_keyword_text_round_trip,
    lemma_operator_text_round_trip,
};
use crate::lexer::{
    char_escape, count_char, error_at, ident_end, invalid_integer_message, lex_token, line_col,
    number_end, skip_comment, skip_ignored, string_body, string_escape, token_at, word_kind,
};
use crate::text::{decimal, decimal_value, digit_char, digit_value, is_alpha, is_digit,
    is_ident_char, is_white_space};
use crate::token::{
    delimiter_of, delimiter_text, keyword_of, keyword_text, operator_of, operator_text, Delimiter,
    Keyword, Operator, SpecLiteral, SpecToken, SpecTokenKind,
};

verus! {

// ---------------------------------------------------------------------------
// Words and spellings.

/// A text names a keyword exactly when it is that keyword's spelling, and names
/// none when it spells no keyword.
pub proof fn lemma_keyword_of_exact(t: Seq<char>)
    ensures
        keyword_of(t) matches Some(k) ==> t == keyword_text(k),
        keyword_of(t) is None ==> forall|k: Keyword| t != #[trigger] keyword_text(k),
{
    if keyword_of(t) is None {
        assert forall|k: Keyword| t != #[trigger] keyword_text(k) by {
            lemma_keyword_text_round_trip(k);
        }
    }
}

/// A text names an operator exactly when it is that operator's spelling.
pub proof fn lemma_operator_of_exact(t: Seq<char>)
    ensures
        operator_of(t) matches Some(op) ==> t == operator_text(op),
        operator_of(t) is None ==> forall|op: Operator| t != #[trigger] operator_text(op),
{
    if operator_of(t) is None {
        assert forall|op: Operator| t != #[trigger] operator_text(op) by {
            lemma_operator_text_round_trip(op);
        }
    }
}

/// A text names a delimiter exactly when it is that delimiter's spelling.
pub proof fn lemma_delimiter_of_exact(t: Seq<char>)
    ensures
        delimiter_of(t) matches Some(d) ==> t == delimiter_text(d),
        delimiter_of(t) is None ==> forall|d: Delimiter| t != #[trigger] delimiter_text(d),
{
    if delimiter_of(t) is None {
        assert forall|d: Delimiter| t != #[trigger] delimiter_text(d) by {
            lemma_delimiter_text_round_trip(d);
        }
    }
}

/// The lexer reads a word as a keyword only when the word spells that keyword, as a
/// boolean only when it is `true` or `false`, and otherwise as an identifier of
/// exactly that text, which then spells no keyword.
pub proof fn lemma_word_kind_exact(t: Seq<char>)
    ensures
        word_kind(t) matches SpecTokenKind::Keyword(k) ==> t == keyword_text(k),
        word_kind(t) matches SpecTokenKind::Literal(SpecLiteral::Bool(b)) ==> t == (if b {
            "true"@
        } else {
            "false"@
        }),
        word_kind(t) matches SpecTokenKind::Ident(name) ==> name == t && t != "true"@ && t
            != "false"@ && forall|k: Keyword| t != #[trigger] keyword_text(k),
        word_kind(t) is Keyword || word_kind(t) is Literal || word_kind(t) is Ident,
{
    lemma_keyword_of_exact(t);
}

/// An operator written in the middle of the source is read as that operator
/// whenever the character after it does not extend it to a longer operator:
/// the lexer takes the longest operator that is spelled there.
pub proof fn lemma_operator_then_other(s: Seq<char>, i: int, op: Operator)
    requires
        0 <= i,
        i + operator_text(op).len() <= s.len(),
        s.subrange(i, i + operator_text(op).len()) == operator_text(op),
        i + operator_text(op).len() == s.len() || operator_of(
            operator_text(op).push(s[i + operator_text(op).len()]),
        ) is None,
    ensures
        lex_token(s, i) == (
            Ok::<SpecToken, SpecError>(token_at(SpecTokenKind::Operator(op), s, i)),
            i + operator_text(op).len(),
        ),
{
    reveal_strlit("+");
    reveal_strlit("-");
    reveal_strlit("*");
    reveal_strlit("/");
    reveal_strlit("%");
    reveal_strlit("=");
    reveal_strlit("+=");
    reveal_strlit("-=");
    reveal_strlit("*=");
    reveal_strlit("/=");
    reveal_strlit("%=");
    reveal_strlit("==");
    reveal_strlit("!=");
    reveal_strlit("<");
    reveal_strlit("<=");
    reveal_strlit(">");
    reveal_strlit(">=");
    reveal_strlit("&&");
    reveal_strlit("||");
    reveal_strlit("!");
    reveal_strlit("&");
    reveal_strlit("|");
    reveal_strlit("^");
    reveal_strlit("~");
    reveal_strlit("<<");
    reveal_strlit(">>");
    reveal_strlit("++");
    reveal_strlit("--");
    reveal_strlit("->");
    reveal_strlit("..");
    reveal_strlit("..=");
    reveal_strlit("=>");
    reveal_strlit("?");
    let t = operator_text(op);
    match op {
        Operator::Add => {
            assert(t[0] == '+' && s.subrange(i, i + t.len())[0] == s[i + 0]);
            assert(s[i + 0] == '+');
            if i + 1 < s.len() && s[i + 1] == '=' {
                lemma_operator_text_round_trip(Operator::AddAssign);
                assert(t.push(s[i + 1]) =~= operator_text(Operator::AddAssign));
            }
            if i + 1 < s.len() && s[i + 1] == '+' {
                lemma_operator_text_round_trip(Operator::Inc);
                assert(t.push(s[i + 1]) =~= operator_text(Operator::Inc));
            }
        },
        Operator::Sub => {
            assert(t[0] == '-' && s.subrange(i, i + t.len())[0] == s[i + 0]);
            assert(s[i + 0] == '-');
            if i + 1 < s.len() && s[i + 1] == '=' {
                lemma_operator_text_round_trip(Operator::SubAssign);
                assert(t.push(s[i + 1]) =~= operator_text(Operator::SubAssign));
            }
            if i + 1 < s.len() && s[i + 1] == '-' {
                lemma_operator_text_round_trip(Operator::Dec);
                assert(t.push(s[i + 1]) =~= operator_text(Operator::Dec));
            }
            if i + 1 < s.len() && s[i + 1] == '>' {
                lemma_operator_text_round_trip(Operator::Arrow);
                assert(t.push(s[i + 1]) =~= operator_text(Operator::Arrow));
            }
        },
        Operator::Mul => {
            assert(t[0] == '*' && s.subrange(i, i + t.len())[0] == s[i + 0]);
            assert(s[i + 0] == '*');
            if i + 1 < s.len() && s[i + 1] == '=' {
                lemma_operator_text_round_trip(Operator::MulAssign);
                assert(t.push(s[i + 1]) =~= operator_text(Operator::MulAssign));
            }
        },
        Operator::Div => {
            assert(t[0] == '/' && s.subrange(i, i + t.len())[0] == s[i + 0]);
            assert(s[i + 0] == '/');
            if i + 1 < s.len() && s[i + 1] == '=' {
                lemma_operator_text_round_trip(Operator::DivAssign);
                assert(t.push(s[i + 1]) =~= operator_text(Operator::DivAssign));
            }
        },
        Operator::Mod => {
            assert(t[0] == '%' && s.subrange(i, i + t.len())[0] == s[i + 0]);
            assert(s[i + 0] == '%');
            if i + 1 < s.len() && s[i + 1] == '=' {
                lemma_operator_text_round_trip(Operator::ModAssign);
                assert(t.push(s[i + 1]) =~= operator_text(Operator::ModAssign));
            }
        },
        Operator::Assign => {
            assert(t[0] == '=' && s.subrange(i, i + t.len())[0] == s[i + 0]);
            assert(s[i + 0] == '=');
            if i + 1 < s.len() && s[i + 1] == '=' {
                lemma_operator_text_round_trip(Operator::Eq);
                assert(t.push(s[i + 1]) =~= operator_text(Operator::Eq));
            }
            if i + 1 < s.len() && s[i + 1] == '>' {
                lemma_operator_text_round_trip(Operator::FatArrow);
                assert(t.push(s[i + 1]) =~= operator_text(Operator::FatArrow));
            }
        },
        Operator::AddAssign => {
            assert(t[0] == '+' && s.subrange(i, i + t.len())[0] == s[i + 0]);
            assert(s[i + 0] == '+');
            assert(t[1] == '=' && s.subrange(i, i + t.len())[1] == s[i + 1]);
            assert(s[i + 1] == '=');
        },
        Operator::SubAssign => {
            assert(t[0] == '-' && s.subrange(i, i + t.len())[0] == s[i + 0]);
            assert(s[i + 0] == '-');
            assert(t[1] == '=' && s.subrange(i, i + t.len())[1] == s[i + 1]);
            assert(s[i + 1] == '=');
        },
        Operator::MulAssign => {
            assert(t[0] == '*' && s.subrange(i, i + t.len())[0] == s[i + 0]);
            assert(s[i + 0] == '*');
            assert(t[1] == '=' && s.subrange(i, i + t.len())[1] == s[i + 1]);
            assert(s[i + 1] == '=');
        },
        Operator::DivAssign => {
            assert(t[0] == '/' && s.subrange(i, i + t.len())[0] == s[i + 0]);
            assert(s[i + 0] == '/');
            assert(t[1] == '=' && s.subrange(i, i + t.len())[1] == s[i + 1]);
            assert(s[i + 1] == '=');
        },
        Operator::ModAssign => {
            assert(t[0] == '%' && s.subrange(i, i + t.len())[0] == s[i + 0]);
            assert(s[i + 0] == '%');
            assert(t[1] == '=' && s.subrange(i, i + t.len())[1] == s[i + 1]);
            assert(s[i + 1] == '=');
        },
        Operator::Eq => {
            assert(t[0] == '=' && s.subrange(i, i + t.len())[0] == s[i + 0]);
            assert(s[i + 0] == '=');
            assert(t[1] == '=' && s.subrange(i, i + t.len())[1] == s[i + 1]);
            assert(s[i + 1] == '=');
        },
        Operator::Ne => {
            assert(t[0] == '!' && s.subrange(i, i + t.len())[0] == s[i + 0]);
            assert(s[i + 0] == '!');
            assert(t[1] == '=' && s.subrange(i, i + t.len())[1] == s[i + 1]);
            assert(s[i + 1] == '=');
        },
        Operator::Lt => {
            assert(t[0] == '<' && s.subrange(i, i + t.len())[0] == s[i + 0]);
            assert(s[i + 0] == '<');
            if i + 1 < s.len() && s[i + 1] == '=' {
                lemma_operator_text_round_trip(Operator::Le);
                assert(t.push(s[i + 1]) =~= operator_text(Operator::Le));
            }
            if i + 1 < s.len() && s[i + 1] == '<' {
                lemma_operator_text_round_trip(Operator::Shl);
                assert(t.push(s[i + 1]) =~= operator_text(Operator::Shl));
            }
        },
        Operator::Le => {
            assert(t[0] == '<' && s.subrange(i, i + t.len())[0] == s[i + 0]);
            assert(s[i + 0] == '<');
            assert(t[1] == '=' && s.subrange(i, i + t.len())[1] == s[i + 1]);
            assert(s[i + 1] == '=');
        },
        Operator::Gt => {
            assert(t[0] == '>' && s.subrange(i, i + t.len())[0] == s[i + 0]);
            assert(s[i + 0] == '>');
            if i + 1 < s.len() && s[i + 1] == '=' {
                lemma_operator_text_round_trip(Operator::Ge);
                assert(t.push(s[i + 1]) =~= operator_text(Operator::Ge));
            }
            if i + 1 < s.len() && s[i + 1] == '>' {
                lemma_operator_text_round_trip(Operator::Shr);
                assert(t.push(s[i + 1]) =~= operator_text(Operator::Shr));
            }
        },
        Operator::Ge => {
            assert(t[0] == '>' && s.subrange(i, i + t.len())[0] == s[i + 0]);
            assert(s[i + 0] == '>');
            assert(t[1] == '=' && s.subrange(i, i + t.len())[1] == s[i + 1]);
            assert(s[i + 1] == '=');
        },
        Operator::And => {
            assert(t[0] == '&' && s.subrange(i, i + t.len())[0] == s[i + 0]);
            assert(s[i + 0] == '&');
            assert(t[1] == '&' && s.subrange(i, i + t.len())[1] == s[i + 1]);
            assert(s[i + 1] == '&');
        },
        Operator::Or => {
            assert(t[0] == '|' && s.subrange(i, i + t.len())[0] == s[i + 0]);
            assert(s[i + 0] == '|');
            assert(t[1] == '|' && s.subrange(i, i + t.len())[1] == s[i + 1]);
            assert(s[i + 1] == '|');
        },
        Operator::Not => {
            assert(t[0] == '!' && s.subrange(i, i + t.len())[0] == s[i + 0]);
            assert(s[i + 0] == '!');
            if i + 1 < s.len() && s[i + 1] == '=' {
                lemma_operator_text_round_trip(Operator::Ne);
                assert(t.push(s[i + 1]) =~= operator_text(Operator::Ne));
            }
        },
        Operator::BitAnd => {
            assert(t[0] == '&' && s.subrange(i, i + t.len())[0] == s[i + 0]);
            assert(s[i + 0] == '&');
            if i + 1 < s.len() && s[i + 1] == '&' {
                lemma_operator_text_round_trip(Operator::And);
                assert(t.push(s[i + 1]) =~= operator_text(Operator::And));
            }
        },
        Operator::BitOr => {
            assert(t[0] == '|' && s.subrange(i, i + t.len())[0] == s[i + 0]);
            assert(s[i + 0] == '|');
            if i + 1 < s.len() && s[i + 1] == '|' {
                lemma_operator_text_round_trip(Operator::Or);
                assert(t.push(s[i + 1]) =~= operator_text(Operator::Or));
            }
        },
        Operator::BitXor => {
            assert(t[0] == '^' && s.subrange(i, i + t.len())[0] == s[i + 0]);
            assert(s[i + 0] == '^');
        },
        Operator::BitNot => {
            assert(t[0] == '~' && s.subrange(i, i + t.len())[0] == s[i + 0]);
            assert(s[i + 0] == '~');
        },
        Operator::Shl => {
            assert(t[0] == '<' && s.subrange(i, i + t.len())[0] == s[i + 0]);
            assert(s[i + 0] == '<');
            assert(t[1] == '<' && s.subrange(i, i + t.len())[1] == s[i + 1]);
            assert(s[i + 1] == '<');
        },
        Operator::Shr => {
            assert(t[0] == '>' && s.subrange(i, i + t.len())[0] == s[i + 0]);
            assert(s[i + 0] == '>');
            assert(t[1] == '>' && s.subrange(i, i + t.len())[1] == s[i + 1]);
            assert(s[i + 1] == '>');
        },
        Operator::Inc => {
            assert(t[0] == '+' && s.subrange(i, i + t.len())[0] == s[i + 0]);
            assert(s[i + 0] == '+');
            assert(t[1] == '+' && s.subrange(i, i + t.len())[1] == s[i + 1]);
            assert(s[i + 1] == '+');
        },
        Operator::Dec => {
            assert(t[0] == '-' && s.subrange(i, i + t.len())[0] == s[i + 0]);
            assert(s[i + 0] == '-');
            assert(t[1] == '-' && s.subrange(i, i + t.len())[1] == s[i + 1]);
            assert(s[i + 1] == '-');
        },
        Operator::Arrow => {
            assert(t[0] == '-' && s.subrange(i, i + t.len())[0] == s[i + 0]);
            assert(s[i + 0] == '-');
            assert(t[1] == '>' && s.subrange(i, i + t.len())[1] == s[i + 1]);
            assert(s[i + 1] == '>');
        },
        Operator::Range => {
            assert(t[0] == '.' && s.subrange(i, i + t.len())[0] == s[i + 0]);
            assert(s[i + 0] == '.');
            assert(t[1] == '.' && s.subrange(i, i + t.len())[1] == s[i + 1]);
            assert(s[i + 1] == '.');
            if i + 2 < s.len() && s[i + 2] == '=' {
                lemma_operator_text_round_trip(Operator::RangeEq);
                assert(t.push(s[i + 2]) =~= operator_text(Operator::RangeEq));
            }
        },
        Operator::RangeEq => {
            assert(t[0] == '.' && s.subrange(i, i + t.len())[0] == s[i + 0]);
            assert(s[i + 0] == '.');
            assert(t[1] == '.' && s.subrange(i, i + t.len())[1] == s[i + 1]);
            assert(s[i + 1] == '.');
            assert(t[2] == '=' && s.subrange(i, i + t.len())[2] == s[i + 2]);
            assert(s[i + 2] == '=');
        },
        Operator::FatArrow => {
            assert(t[0] == '=' && s.subrange(i, i + t.len())[0] == s[i + 0]);
            assert(s[i + 0] == '=');
            assert(t[1] == '>' && s.subrange(i, i + t.len())[1] == s[i + 1]);
            assert(s[i + 1] == '>');
        },
        Operator::Question => {
            assert(t[0] == '?' && s.subrange(i, i + t.len())[0] == s[i + 0]);
            assert(s[i + 0] == '?');
        },
    }
}

/// A delimiter written in the middle of the source is read as that delimiter
/// whenever the character after it makes neither a longer delimiter nor an operator.
pub proof fn lemma_delimiter_then_other(s: Seq<char>, i: int, d: Delimiter)
    requires
        0 <= i,
        i + delimiter_text(d).len() <= s.len(),
        s.subrange(i, i + delimiter_text(d).len()) == delimiter_text(d),
        i + delimiter_text(d).len() == s.len() || (delimiter_of(
            delimiter_text(d).push(s[i + delimiter_text(d).len()]),
        ) is None && operator_of(delimiter_text(d).push(s[i + delimiter_text(d).len()])) is None),
    ensures
        lex_token(s, i) == (
            Ok::<SpecToken, SpecError>(token_at(SpecTokenKind::Delimiter(d), s, i)),
            i + delimiter_text(d).len(),
        ),
{
    reveal_strlit("(");
    reveal_strlit(")");
    reveal_strlit("{");
    reveal_strlit("}");
    reveal_strlit("[");
    reveal_strlit("]");
    reveal_strlit(",");
    reveal_strlit(".");
    reveal_strlit("::");
    reveal_strlit(";");
    reveal_strlit(":");
    reveal_strlit("..");
    let t = delimiter_text(d);
    match d {
        Delimiter::LParen => {
            assert(t[0] == '(' && s.subrange(i, i + t.len())[0] == s[i + 0]);
            assert(s[i + 0] == '(');
        },
        Delimiter::RParen => {
            assert(t[0] == ')' && s.subrange(i, i + t.len())[0] == s[i + 0]);
            assert(s[i + 0] == ')');
        },
        Delimiter::LBrace => {
            assert(t[0] == '{' && s.subrange(i, i + t.len())[0] == s[i + 0]);
            assert(s[i + 0] == '{');
        },
        Delimiter::RBrace => {
            assert(t[0] == '}' && s.subrange(i, i + t.len())[0] == s[i + 0]);
            assert(s[i + 0] == '}');
        },
        Delimiter::LBracket => {
            assert(t[0] == '[' && s.subrange(i, i + t.len())[0] == s[i + 0]);
            assert(s[i + 0] == '[');
        },
        Delimiter::RBracket => {
            assert(t[0] == ']' && s.subrange(i, i + t.len())[0] == s[i + 0]);
            assert(s[i + 0] == ']');
        },
        Delimiter::Comma => {
            assert(t[0] == ',' && s.subrange(i, i + t.len())[0] == s[i + 0]);
            assert(s[i + 0] == ',');
        },
        Delimiter::Dot => {
            assert(t[0] == '.' && s.subrange(i, i + t.len())[0] == s[i + 0]);
            assert(s[i + 0] == '.');
            if i + 1 < s.len() && s[i + 1] == '.' {
                lemma_operator_text_round_trip(Operator::Range);
                assert(t.push(s[i + 1]) =~= operator_text(Operator::Range));
            }
        },
        Delimiter::Scope => {
            assert(t[0] == ':' && s.subrange(i, i + t.len())[0] == s[i + 0]);
            assert(s[i + 0] == ':');
            assert(t[1] == ':' && s.subrange(i, i + t.len())[1] == s[i + 1]);
            assert(s[i + 1] == ':');
        },
        Delimiter::Semicolon => {
            assert(t[0] == ';' && s.subrange(i, i + t.len())[0] == s[i + 0]);
            assert(s[i + 0] == ';');
        },
        Delimiter::Colon => {
            assert(t[0] == ':' && s.subrange(i, i + t.len())[0] == s[i + 0]);
            assert(s[i + 0] == ':');
            if i + 1 < s.len() && s[i + 1] == ':' {
                lemma_delimiter_text_round_trip(Delimiter::Scope);
                assert(t.push(s[i + 1]) =~= delimiter_text(Delimiter::Scope));
            }
        },
    }
}

// ---------------------------------------------------------------------------
// Escapes.

/// The escapes of character and string literals and the characters they denote
/// (by code point): `\n` is U+000A, `\t` U+0009, `\r` U+000D, `\\` U+005C, `\'`
/// U+0027, and in strings `\"` U+0022. Both kinds of literal read every escape
/// alike, except that `\"` belongs to strings only; no other escape exists.
pub proof fn lemma_escape_tables()
    ensures
        char_escape('n') == Some('\u{a}'),
        char_escape('t') == Some('\u{9}'),
        char_escape('r') == Some('\u{d}'),
        char_escape('\u{5c}') == Some('\u{5c}'),
        char_escape('\u{27}') == Some('\u{27}'),
        char_escape('\u{22}') is None,
        string_escape('n') == Some('\u{a}'),
        string_escape('t') == Some('\u{9}'),
        string_escape('r') == Some('\u{d}'),
        string_escape('\u{5c}') == Some('\u{5c}'),
        string_escape('\u{27}') == Some('\u{27}'),
        string_escape('\u{22}') == Some('\u{22}'),
        forall|c: char| c != '\u{22}' ==> #[trigger] char_escape(c) == string_escape(c),
        forall|c: char|
            !(c == 'n' || c == 't' || c == 'r' || c == '\u{5c}' || c == '\u{27}' || c == '\u{22}')
                ==> #[trigger] string_escape(c) is None,
{
}

/// A character literal `'\c'` with a known escape holds the character that the
/// escape denotes, and the lexer stops right after its closing quote.
pub proof fn lemma_escaped_char_literal(s: Seq<char>, i: int, c: char)
    requires
        0 <= i,
        i + 3 < s.len(),
        s[i] == '\'',
        s[i + 1] == '\\',
        s[i + 2] == c,
        s[i + 3] == '\'',
        char_escape(c) is Some,
    ensures
        lex_token(s, i) == (
            Ok::<SpecToken, SpecError>(
                token_at(
                    SpecTokenKind::Literal(SpecLiteral::Char(char_escape(c).unwrap())),
                    s,
                    i,
                ),
            ),
            i + 4,
        ),
{
}

/// A character literal `'v'` (with `v` no backslash) holds `v`, and the lexer
/// stops right after its closing quote.
pub proof fn lemma_plain_char_literal(s: Seq<char>, i: int)
    requires
        0 <= i,
        i + 2 < s.len(),
        s[i] == '\'',
        s[i + 1] != '\\',
        s[i + 2] == '\'',
    ensures
        lex_token(s, i) == (
            Ok::<SpecToken, SpecError>(
                token_at(SpecTokenKind::Literal(SpecLiteral::Char(s[i + 1])), s, i),
            ),
            i + 3,
        ),
{
}

// ---------------------------------------------------------------------------
// String literals.

/// From offset `j` up to a closing quote at `k`, with no quote or backslash in
/// between, the body of a string literal is exactly the characters in between.
pub proof fn lemma_plain_string_body(s: Seq<char>, j: int, k: int)
    requires
        0 <= j <= k < s.len(),
        s[k] == '"',
        forall|m: int| j <= m < k ==> #[trigger] s[m] != '"' && s[m] != '\\',
    ensures
        string_body(s, j) == Ok::<(Seq<char>, int), (Option<char>, int)>(
            (s.subrange(j, k), k + 1),
        ),
    decreases k - j,
{
    if j < k {
        lemma_plain_string_body(s, j + 1, k);
        assert(seq![s[j]] + s.subrange(j + 1, k) =~= s.subrange(j, k));
    } else {
        assert(s.subrange(j, k) =~= Seq::<char>::empty());
    }
}

/// A string literal without escapes holds exactly the characters between its
/// quotes, and the lexer stops right after the closing quote.
pub proof fn lemma_plain_string_literal(s: Seq<char>, i: int, k: int)
    requires
        0 <= i < k < s.len(),
        s[i] == '"',
        s[k] == '"',
        forall|m: int| i < m < k ==> #[trigger] s[m] != '"' && s[m] != '\\',
    ensures
        lex_token(s, i) == (
            Ok::<SpecToken, SpecError>(
                token_at(SpecTokenKind::Literal(SpecLiteral::Str(s.subrange(i + 1, k))), s, i),
            ),
            k + 1,
        ),
{
    lemma_plain_string_body(s, i + 1, k);
}

/// Inside a string literal, an ordinary character stands for itself and an escape
/// for the character it denotes, each in front of what the rest of the literal holds.
pub proof fn lemma_string_body_step(s: Seq<char>, j: int)
    requires
        0 <= j < s.len(),
        s[j] != '"',
    ensures
        s[j] != '\\' ==> string_body(s, j) == match string_body(s, j + 1) {
            Ok(r) => Ok::<(Seq<char>, int), (Option<char>, int)>((seq![s[j]] + r.0, r.1)),
            Err(e) => Err(e),
        },
        s[j] == '\\' && j + 1 < s.len() && string_escape(s[j + 1]) is Some ==> string_body(s, j)
            == match string_body(s, j + 2) {
            Ok(r) => Ok::<(Seq<char>, int), (Option<char>, int)>(
                (seq![string_escape(s[j + 1]).unwrap()] + r.0, r.1),
            ),
            Err(e) => Err(e),
        },
{
}

// ---------------------------------------------------------------------------
// Numbers.

/// The decimal digit written for `d < 10` is worth `d`, and is a digit.
pub proof fn lemma_digit_char_value(d: nat)
    requires
        d < 10,
    ensures
        is_digit(digit_char(d)),
        digit_value(digit_char(d)) == d,
        (digit_char(d) as int) == 48 + d,
{
}

/// Reading back the decimal rendering of `n` gives `n`: the rendering used in
/// error positions and the reading of integer literals are inverse.
pub proof fn lemma_decimal_round_trip(n: nat)
    ensures
        decimal_value(decimal(n)) == n,
        decimal(n).len() >= 1,
        forall|k: int| 0 <= k < decimal(n).len() ==> is_digit(#[trigger] decimal(n)[k]),
    decreases n,
{
    if n < 10 {
        lemma_digit_char_value(n);
        assert(decimal(n).drop_last() =~= Seq::<char>::empty());
        assert(decimal_value(Seq::<char>::empty()) == 0);
    } else {
        lemma_decimal_round_trip(n / 10);
        lemma_digit_char_value(n % 10);
        assert(decimal(n).drop_last() =~= decimal(n / 10));
        assert(decimal(n).last() == digit_char(n % 10));
        assert(decimal_value(decimal(n)) == decimal_value(decimal(n / 10)) * 10 + digit_value(
            digit_char(n % 10),
        ));
        assert(n == (n / 10) * 10 + n % 10);
    }
}

/// A run of digits at `i..j` that no `.`-and-digit continues is an integer
/// literal worth the number those digits denote (an error if that exceeds
/// `i64::MAX`), and the lexer stops at `j`.
pub proof fn lemma_integer_literal(s: Seq<char>, i: int, j: int)
    requires
        0 <= i < j <= s.len(),
        forall|m: int| i <= m < j ==> is_digit(#[trigger] s[m]),
        j == s.len() || !(is_digit(s[j]) || (s[j] == '.' && j + 1 < s.len() && is_digit(
            s[j + 1],
        ))),
    ensures
        lex_token(s, i).1 == j,
        decimal_value(s.subrange(i, j)) <= i64::MAX ==> lex_token(s, i).0 == Ok::<
            SpecToken,
            SpecError,
        >(
            token_at(
                SpecTokenKind::Literal(SpecLiteral::Int(decimal_value(s.subrange(i, j)) as i64)),
                s,
                i,
            ),
        ),
        decimal_value(s.subrange(i, j)) > i64::MAX ==> lex_token(s, i).0 == Err::<
            SpecToken,
            SpecError,
        >(error_at(invalid_integer_message(s.subrange(i, j)), s, i)),
{
    lemma_number_end_of_digits(s, i, j);
    lemma_no_dot(s.subrange(i, j));
}

proof fn lemma_number_end_of_digits(s: Seq<char>, k: int, j: int)
    requires
        0 <= k <= j <= s.len(),
        forall|m: int| k <= m < j ==> is_digit(#[trigger] s[m]),
        j == s.len() || !(is_digit(s[j]) || (s[j] == '.' && j + 1 < s.len() && is_digit(
            s[j + 1],
        ))),
    ensures
        number_end(s, k) == j,
    decreases j - k,
{
    if k < j {
        lemma_number_end_of_digits(s, k + 1, j);
    }
}

proof fn lemma_no_dot(t: Seq<char>)
    requires
        forall|m: int| 0 <= m < t.len() ==> is_digit(#[trigger] t[m]),
    ensures
        count_char(t, '.') == 0,
    decreases t.len(),
{
    if t.len() > 0 {
        lemma_no_dot(t.drop_last());
    }
}

/// Digits, one `.`, and digits again, with nothing that continues the number after
/// them, are a floating-point literal holding exactly that text; the lexer stops
/// after the last digit.
pub proof fn lemma_float_literal(s: Seq<char>, i: int, k: int, j: int)
    requires
        0 <= i < k,
        k + 1 < j <= s.len(),
        forall|m: int| i <= m < j && m != k ==> is_digit(#[trigger] s[m]),
        s[k] == '.',
        j == s.len() || !(is_digit(s[j]) || (s[j] == '.' && j + 1 < s.len() && is_digit(
            s[j + 1],
        ))),
    ensures
        lex_token(s, i) == (
            Ok::<SpecToken, SpecError>(
                token_at(SpecTokenKind::Literal(SpecLiteral::Float(s.subrange(i, j))), s, i),
            ),
            j,
        ),
{
    lemma_number_end_of_digits(s, k + 1, j);
    lemma_number_end_through(s, i, k, j);
    lemma_one_dot(s.subrange(i, j), k - i);
}

proof fn lemma_number_end_through(s: Seq<char>, m: int, k: int, j: int)
    requires
        0 <= m <= k,
        k + 1 < j <= s.len(),
        forall|q: int| m <= q < j && q != k ==> is_digit(#[trigger] s[q]),
        s[k] == '.',
        number_end(s, k + 1) == j,
    ensures
        number_end(s, m) == j,
    decreases k - m,
{
    if m < k {
        lemma_number_end_through(s, m + 1, k, j);
    }
}

proof fn lemma_one_dot(t: Seq<char>, k: int)
    requires
        0 <= k < t.len(),
        t[k] == '.',
        forall|m: int| 0 <= m < t.len() && m != k ==> is_digit(#[trigger] t[m]),
    ensures
        count_char(t, '.') == 1,
    decreases t.len(),
{
    if k < t.len() - 1 {
        lemma_one_dot(t.drop_last(), k);
    } else {
        lemma_no_dot(t.drop_last());
    }
}

// ---------------------------------------------------------------------------
// Words.

/// A word is the whole run of identifier characters that starts with a letter or
/// `_`: the lexer reads exactly that text and stops where the run ends.
pub proof fn lemma_word_token(s: Seq<char>, i: int, j: int)
    requires
        0 <= i < j <= s.len(),
        is_alpha(s[i]) || s[i] == '_',
        forall|m: int| i <= m < j ==> is_ident_char(#[trigger] s[m]),
        j == s.len() || !is_ident_char(s[j]),
    ensures
        lex_token(s, i) == (
            Ok::<SpecToken, SpecError>(token_at(word_kind(s.subrange(i, j)), s, i)),
            j,
        ),
{
    lemma_ident_end_of_run(s, i, j);
}

proof fn lemma_ident_end_of_run(s: Seq<char>, k: int, j: int)
    requires
        0 <= k <= j <= s.len(),
        forall|m: int| k <= m < j ==> is_ident_char(#[trigger] s[m]),
        j == s.len() || !is_ident_char(s[j]),
    ensures
        ident_end(s, k) == j,
    decreases j - k,
{
    if k < j {
        lemma_ident_end_of_run(s, k + 1, j);
    }
}

// ---------------------------------------------------------------------------
// White space and comments.

/// White space is skipped up to the first character that is neither white space
/// nor the start of a `//` comment.
pub proof fn lemma_skip_white_space(s: Seq<char>, i: int, j: int)
    requires
        0 <= i <= j <= s.len(),
        forall|m: int| i <= m < j ==> is_white_space(#[trigger] s[m]),
        j == s.len() || !(is_white_space(s[j]) || (j + 1 < s.len() && s[j] == '/' && s[j + 1]
            == '/')),
    ensures
        skip_ignored(s, i) == j,
    decreases j - i,
{
    if i < j {
        lemma_skip_white_space(s, i + 1, j);
    }
}

/// A `//` comment runs to the end of its line: skipping from its start goes on
/// just after the next newline at `k`, as if the comment were not there.
pub proof fn lemma_skip_comment_line(s: Seq<char>, i: int, k: int)
    requires
        0 <= i,
        i + 1 < k < s.len(),
        s[i] == '/',
        s[i + 1] == '/',
        s[k] == '\n',
        forall|m: int| i + 2 <= m < k ==> #[trigger] s[m] != '\n',
    ensures
        skip_ignored(s, i) == skip_ignored(s, k + 1),
{
    assert(!is_white_space('/'));
    lemma_skip_comment_to(s, i + 2, k);
}

proof fn lemma_skip_comment_to(s: Seq<char>, m: int, k: int)
    requires
        0 <= m <= k < s.len(),
        s[k] == '\n',
        forall|q: int| m <= q < k ==> #[trigger] s[q] != '\n',
    ensures
        skip_comment(s, m) == skip_ignored(s, k + 1),
    decreases k - m,
{
    if m < k {
        lemma_skip_comment_to(s, m + 1, k);
    }
}

// ---------------------------------------------------------------------------
// Lines and columns.

/// The line of offset `i` is one more than the number of newlines before it.
pub proof fn lemma_line_counts_newlines(s: Seq<char>, i: int)
    requires
        0 <= i <= s.len(),
    ensures
        line_col(s, i).0 == 1 + count_char(s.subrange(0, i), '\n'),
    decreases i,
{
    if i > 0 {
        lemma_line_counts_newlines(s, i - 1);
        assert(s.subrange(0, i).drop_last() =~= s.subrange(0, i - 1));
    }
}

/// Within a line that starts at offset `j` (the start of the input or just after
/// a newline), offset `i` is at column `i - j + 1`, on the line of `j`.
pub proof fn lemma_column_counts_from_line_start(s: Seq<char>, j: int, i: int)
    requires
        0 <= j <= i <= s.len(),
        j == 0 || s[j - 1] == '\n',
        forall|m: int| j <= m < i ==> #[trigger] s[m] != '\n',
    ensures
        line_col(s, i).1 == i - j + 1,
        line_col(s, i).0 == line_col(s, j).0,
    decreases i - j,
{
    if i > j {
        lemma_column_counts_from_line_start(s, j, i - 1);
    }
}

} // verus!
