//! The lexical grammar, stated over the characters of a source text.
//!
//! Positions here are character indices; the scanner reports them as byte
//! offsets through `width_upto`.
use vstd::prelude::*;
use crate::chars::{alphabetic, numeric, is_space, is_ascii_digit, in_class, CharClass};
use crate::error::LexErrorKind;
use crate::token::KindView;

verus! {

/// One token of the model: its kind and the characters `[start, end)` it spans.
pub struct Lexeme {
    pub kind: KindView,
    pub start: int,
    pub end: int,
}

/// The end of the run of `class` characters that starts at `i`.
pub open spec fn run_end(s: Seq<char>, i: int, class: CharClass) -> int
    decreases s.len() - i,
{
    if 0 <= i < s.len() && in_class(class, s[i]) {
        run_end(s, i + 1, class)
    } else {
        i
    }
}

pub proof fn lemma_run_end(s: Seq<char>, i: int, class: CharClass)
    requires
        0 <= i <= s.len(),
    ensures
        i <= run_end(s, i, class) <= s.len(),
        forall|k: int| i <= k < run_end(s, i, class) ==> in_class(class, #[trigger] s[k]),
        run_end(s, i, class) < s.len() ==> !in_class(class, s[run_end(s, i, class)]),
    decreases s.len() - i,
{
    if i < s.len() && in_class(class, s[i]) {
        lemma_run_end(s, i + 1, class);
    }
}

/// The first index at or after `i` that is neither whitespace nor inside a
/// line comment (`//` up to the next line feed).
pub open spec fn skip_trivia(s: Seq<char>, i: int) -> int
    decreases s.len() - i,
{
    if 0 <= i < s.len() && is_space(s[i]) {
        skip_trivia(s, i + 1)
    } else if 0 <= i && i + 1 < s.len() && s[i] == '/' && s[i + 1] == '/' {
        proof {
            lemma_run_end(s, i + 2, CharClass::NotNewline);
        }
        skip_trivia(s, run_end(s, i + 2, CharClass::NotNewline))
    } else {
        i
    }
}

pub proof fn lemma_skip_trivia(s: Seq<char>, i: int)
    requires
        0 <= i <= s.len(),
    ensures
        i <= skip_trivia(s, i) <= s.len(),
    decreases s.len() - i,
{
    if i < s.len() && is_space(s[i]) {
        lemma_skip_trivia(s, i + 1);
    } else if i + 1 < s.len() && s[i] == '/' && s[i + 1] == '/' {
        lemma_run_end(s, i + 2, CharClass::NotNewline);
        lemma_skip_trivia(s, run_end(s, i + 2, CharClass::NotNewline));
    }
}

/// Punctuation that is a token on its own, whatever follows it.
pub open spec fn is_single_punct(c: char) -> bool {
    c == '(' || c == ')' || c == '{' || c == '}' || c == '[' || c == ']' || c == '+' || c
        == '_' || c == '*' || c == '%' || c == '^' || c == '&' || c == '|' || c == '\\' || c
        == ';' || c == ',' || c == '@' || c == '#' || c == '~' || c == '?' || c == '$'
}

/// Characters that start an operator of one or two characters.
pub open spec fn is_operator_lead(c: char) -> bool {
    c == '-' || c == '<' || c == '>' || c == '=' || c == '!' || c == ':' || c == '.'
}

/// Whether `c` followed by `d` spells a two-character operator.
pub open spec fn pairs_with(c: char, d: char) -> bool {
    (c == '-' && d == '>') || (c == '<' && (d == '=' || d == '-')) || (c == '>' && d == '=') || (
    c == '=' && (d == '>' || d == '=')) || (c == '!' && d == '=') || (c == ':' && d == ':') || (c
        == '.' && d == '.')
}

/// The reserved words.
pub open spec fn keyword_list() -> Seq<Seq<char>> {
    seq![
        "match"@,
        "as"@,
        "enum"@,
        "do"@,
        "with"@,
        "or"@,
        "and"@,
        "struct"@,
        "let"@,
        "fn"@,
        "in"@,
    ]
}

/// Whether `t` is a reserved word (an exact, case-sensitive match).
pub open spec fn is_keyword(t: Seq<char>) -> bool {
    keyword_list().contains(t)
}

/// The end of a numeral that starts at `i`: a run of numeric characters,
/// then a dot and a second run only where a numeric character follows the dot.
pub open spec fn numeral_end(s: Seq<char>, i: int) -> int {
    let e = run_end(s, i + 1, CharClass::Numeric);
    if e + 1 < s.len() && s[e] == '.' && numeric(s[e + 1]) {
        run_end(s, e + 1, CharClass::Numeric)
    } else {
        e
    }
}

/// Whether every character of a numeral is an ASCII digit or a dot.
pub open spec fn is_ascii_numeral(t: Seq<char>) -> bool {
    forall|k: int| 0 <= k < t.len() ==> is_ascii_digit(#[trigger] t[k]) || t[k] == '.'
}

/// The token that starts at `i`, a position past any trivia, with the index
/// just past it; or why none does.
pub open spec fn scan_token(s: Seq<char>, i: int) -> Result<(KindView, int), LexErrorKind> {
    let c = s[i];
    if is_single_punct(c) || c == '/' {
        Ok((KindView::Op(seq![c]), i + 1))
    } else if is_operator_lead(c) {
        if i + 1 < s.len() && pairs_with(c, s[i + 1]) {
            Ok((KindView::Op(seq![c, s[i + 1]]), i + 2))
        } else {
            Ok((KindView::Op(seq![c]), i + 1))
        }
    } else if alphabetic(c) {
        let e = run_end(s, i + 1, CharClass::IdentContinue);
        let text = s.subrange(i, e);
        if is_keyword(text) {
            Ok((KindView::Keyword(text), e))
        } else {
            Ok((KindView::Ident(text), e))
        }
    } else if numeric(c) {
        let e = numeral_end(s, i);
        let text = s.subrange(i, e);
        if is_ascii_numeral(text) {
            Ok((KindView::Number(text), e))
        } else {
            Err(LexErrorKind::MalformedNumber)
        }
    } else if c == '"' {
        let e = run_end(s, i + 1, CharClass::NotQuote);
        if e < s.len() {
            Ok((KindView::Str(s.subrange(i + 1, e)), e + 1))
        } else {
            Err(LexErrorKind::UnterminatedStringLiteral)
        }
    } else {
        Err(LexErrorKind::UnexpectedCharacter(c))
    }
}

pub proof fn lemma_scan_token(s: Seq<char>, i: int)
    requires
        0 <= i < s.len(),
    ensures
        scan_token(s, i) matches Ok((_, e)) ==> i < e <= s.len(),
{
    let c = s[i];
    lemma_run_end(s, i + 1, CharClass::IdentContinue);
    lemma_run_end(s, i + 1, CharClass::Numeric);
    lemma_run_end(s, i + 1, CharClass::NotQuote);
    let e = run_end(s, i + 1, CharClass::Numeric);
    if e + 1 < s.len() {
        lemma_run_end(s, e + 1, CharClass::Numeric);
    }
}

/// The tokens of `s` from index `i` on, ending with the end-of-input token;
/// or the first error, with the index of the token at fault.
pub open spec fn lex_from(s: Seq<char>, i: int) -> Result<Seq<Lexeme>, (LexErrorKind, int)>
    decreases s.len() - i,
{
    if 0 <= i <= s.len() {
        let j = skip_trivia(s, i);
        proof {
            lemma_skip_trivia(s, i);
        }
        if j >= s.len() {
            Ok(seq![Lexeme { kind: KindView::EndOfInput, start: j, end: j }])
        } else {
            proof {
                lemma_scan_token(s, j);
            }
            match scan_token(s, j) {
                Err(k) => Err((k, j)),
                Ok((kind, e)) => match lex_from(s, e) {
                    Ok(rest) => Ok(seq![Lexeme { kind, start: j, end: e }] + rest),
                    Err(err) => Err(err),
                },
            }
        }
    } else {
        // outside the text there is nothing to scan
        Ok(seq![])
    }
}

/// The tokens of a whole source text.
pub open spec fn lex(s: Seq<char>) -> Result<Seq<Lexeme>, (LexErrorKind, int)> {
    lex_from(s, 0)
}

} // verus!
