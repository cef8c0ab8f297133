//! Lexical tokens.

use vstd::prelude::*;
use crate::number::Number;

verus! {

/// A minimal lexical unit: an operator, a parenthesis, a numeric
/// literal, a marker for an illegal character, or the end of input.
/// Tokens are immutable once produced.
#[derive(Clone, Copy, Debug, PartialEq)]
pub enum TokenKind {
    PLUS,
    MINUS,
    ASTERISK,
    SLASH,
    PERCENT,
    LPAREN,
    RPAREN,
    /// A numeric literal, held as an exact rational.
    NUM(Number),
    /// A character that no token can start with.
    ILLEGAL(char),
    /// The scanner's sign that only whitespace was left.  It never
    /// enters the token sequence, which signals its end by exhaustion.
    EOF,
}

impl TokenKind {
    /// Any numeric payload is in the representable range.
    pub open spec fn wf(self) -> bool {
        match self {
            TokenKind::NUM(n) => n.wf(),
            _ => true,
        }
    }
}

} // verus!
