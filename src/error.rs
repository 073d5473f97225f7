//! What makes a scan fail.
use vstd::prelude::*;
use crate::span::BytePos;

verus! {

/// The ways in which a scan fails.
#[derive(Clone, Copy, Debug, PartialEq, Eq, Structural)]
pub enum LexErrorKind {
    /// A double quote opened a string literal that the text never closes.
    UnterminatedStringLiteral,
    /// The character begins no token and is not whitespace.
    UnexpectedCharacter(char),
    /// A numeral holds a numeric character that is no ASCII digit, so it has
    /// no reading as a float.
    MalformedNumber,
}

/// A failed scan: what went wrong, and the position of the token at fault.
#[derive(Clone, Copy, Debug, PartialEq, Eq, Structural)]
pub struct LexError {
    pub kind: LexErrorKind,
    pub pos: BytePos,
}

impl LexError {
    /// The short message that a diagnostic line shows for this error.
    pub fn message(&self) -> (r: String)
        ensures
            r@ == message_of(self.kind),
    {
        match self.kind {
            LexErrorKind::UnterminatedStringLiteral => "Unterminated string literal".to_owned(),
            LexErrorKind::UnexpectedCharacter(_) => "Unexpected character".to_owned(),
            LexErrorKind::MalformedNumber => "Malformed number literal".to_owned(),
        }
    }
}

/// The message for each kind of error.
pub open spec fn message_of(kind: LexErrorKind) -> Seq<char> {
    match kind {
        LexErrorKind::UnterminatedStringLiteral => "Unterminated string literal"@,
        LexErrorKind::UnexpectedCharacter(_) => "Unexpected character"@,
        LexErrorKind::MalformedNumber => "Malformed number literal"@,
    }
}

} // verus!
