//! Character classes of the lexical grammar.
use vstd::prelude::*;

verus! {

/// Whether `c` has the Unicode `Alphabetic` property.
pub uninterp spec fn alphabetic(c: char) -> bool;

/// Whether `c` falls in one of Unicode's numeric general categories.
pub uninterp spec fn numeric(c: char) -> bool;

/// Relies on `char::is_alphabetic`, which reads Unicode's `Alphabetic` property.
#[verifier::external_body]
pub(crate) fn is_alphabetic(c: char) -> (r: bool)
    ensures
        r == alphabetic(c),
{
    c.is_alphabetic()
}

/// Relies on `char::is_numeric`, which reads Unicode's numeric general categories.
#[verifier::external_body]
pub(crate) fn is_numeric(c: char) -> (r: bool)
    ensures
        r == numeric(c),
{
    c.is_numeric()
}

/// Whitespace that separates tokens.
pub open spec fn is_space(c: char) -> bool {
    c == ' ' || c == '\t' || c == '\n' || c == '\r'
}

/// Characters that may continue an identifier (`char::is_alphanumeric`, or `_`).
pub open spec fn is_ident_continue(c: char) -> bool {
    alphabetic(c) || numeric(c) || c == '_'
}

/// The runs of characters that the scanner consumes in one sweep.
#[derive(Clone, Copy, Debug, PartialEq, Eq, Structural)]
pub enum CharClass {
    /// What may follow the first character of an identifier.
    IdentContinue,
    /// Numeric characters.
    Numeric,
    /// Anything but a double quote.
    NotQuote,
    /// Anything but a line feed.
    NotNewline,
}

/// Whether `c` belongs to `class`.
pub open spec fn in_class(class: CharClass, c: char) -> bool {
    match class {
        CharClass::IdentContinue => is_ident_continue(c),
        CharClass::Numeric => numeric(c),
        CharClass::NotQuote => c != '"',
        CharClass::NotNewline => c != '\n',
    }
}

/// Tests `c` against `class`.
pub fn class_contains(class: CharClass, c: char) -> (r: bool)
    ensures
        r == in_class(class, c),
{
    match class {
        CharClass::IdentContinue => is_alphabetic(c) || is_numeric(c) || c == '_',
        CharClass::Numeric => is_numeric(c),
        CharClass::NotQuote => c != '"',
        CharClass::NotNewline => c != '\n',
    }
}

/// Whether `c` is a decimal digit of ASCII, the only digits a numeral may hold.
pub open spec fn is_ascii_digit(c: char) -> bool {
    '0' <= c && c <= '9'
}

} // verus!
