//! Laws of the scanner, proved over the grammar model.
use vstd::prelude::*;
use crate::error::{LexError, LexErrorKind};
use crate::grammar::{
    is_single_punct, lemma_scan_token, lemma_skip_trivia, lex, lex_from, Lexeme,
};
use crate::lexer::scans_as;
use crate::span::{lemma_width_monotone, width};
use crate::token::{KindView, Token};

verus! {

/// A punctuation character that is a token on its own, scanned alone, gives
/// that token and then the end of input.
pub proof fn lemma_single_punct_alone(c: char)
    requires
        is_single_punct(c),
    ensures
        lex(seq![c]) == Ok::<Seq<Lexeme>, (LexErrorKind, int)>(
            seq![
                (Lexeme { kind: KindView::Op(seq![c]), start: 0, end: 1 }),
                (Lexeme { kind: KindView::EndOfInput, start: 1, end: 1 }),
            ],
        ),
{
    let s = seq![c];
    assert(lex_from(s, 1) == Ok::<Seq<Lexeme>, (LexErrorKind, int)>(
        seq![(Lexeme { kind: KindView::EndOfInput, start: 1, end: 1 })],
    ));
    assert(seq![(Lexeme { kind: KindView::Op(seq![c]), start: 0, end: 1 })] + seq![
        (Lexeme { kind: KindView::EndOfInput, start: 1, end: 1 }),
    ] =~= seq![
        (Lexeme { kind: KindView::Op(seq![c]), start: 0, end: 1 }),
        (Lexeme { kind: KindView::EndOfInput, start: 1, end: 1 }),
    ]);
}

/// Scanning one text twice gives the same outcome: the same error, or tokens
/// of the same kinds at the same spans.
pub proof fn lemma_scan_deterministic(
    path: &'static str,
    s: Seq<char>,
    r1: Result<Vec<Token>, LexError>,
    r2: Result<Vec<Token>, LexError>,
)
    requires
        scans_as(path, s, r1),
        scans_as(path, s, r2),
    ensures
        r1 is Ok <==> r2 is Ok,
        r1 matches Err(e1) ==> r2 matches Err(e2) && e1 == e2,
        r1 matches Ok(a) ==> r2 matches Ok(b) && a@.len() == b@.len() && forall|k: int|
            0 <= k < a@.len() ==> (#[trigger] a@[k]).kind@ == b@[k].kind@ && a@[k].span
                == b@[k].span,
{
}

/// A successful scan ends with the end-of-input token, and has no other.
pub proof fn lemma_end_of_input_last(s: Seq<char>)
    ensures
        lex(s) matches Ok(ls) ==> ls.len() >= 1 && ls.last().kind == KindView::EndOfInput
            && forall|k: int| 0 <= k < ls.len() - 1 ==> (#[trigger] ls[k]).kind
                != KindView::EndOfInput,
{
    lemma_end_of_input_last_from(s, 0);
}

proof fn lemma_end_of_input_last_from(s: Seq<char>, i: int)
    requires
        0 <= i <= s.len(),
    ensures
        lex_from(s, i) matches Ok(ls) ==> ls.len() >= 1 && ls.last().kind == KindView::EndOfInput
            && forall|k: int| 0 <= k < ls.len() - 1 ==> (#[trigger] ls[k]).kind
                != KindView::EndOfInput,
    decreases s.len() - i,
{
    lemma_skip_trivia(s, i);
    let j = crate::grammar::skip_trivia(s, i);
    if j < s.len() {
        lemma_scan_token(s, j);
        if let Ok((kind, e)) = crate::grammar::scan_token(s, j) {
            lemma_end_of_input_last_from(s, e);
            if let Ok(rest) = lex_from(s, e) {
                let ls = seq![Lexeme { kind, start: j, end: e }] + rest;
                assert(kind != KindView::EndOfInput);
                assert forall|k: int| 0 <= k < ls.len() - 1 implies (#[trigger] ls[k]).kind
                    != KindView::EndOfInput by {
                    if k > 0 {
                        assert(ls[k] == rest[k - 1]);
                    }
                }
                assert(ls.last() == rest.last());
            }
        }
    }
}

/// Every span of a successful scan runs forward within the text, and each
/// token ends at or before the next one starts.
pub proof fn lemma_spans_ordered(path: &'static str, s: Seq<char>, tokens: Vec<Token>)
    requires
        scans_as(path, s, Ok(tokens)),
    ensures
        forall|k: int|
            0 <= k < tokens@.len() ==> (#[trigger] tokens@[k]).span.start.0 <= tokens@[k].span.end.0
                <= width(s),
        forall|k: int|
            0 <= k < tokens@.len() - 1 ==> (#[trigger] tokens@[k]).span.end.0 <= tokens@[k
                + 1].span.start.0,
{
    lemma_lexeme_bounds_from(s, 0);
    let ls = lex(s)->Ok_0;
    assert forall|k: int| 0 <= k < tokens@.len() implies (#[trigger] tokens@[k]).span.start.0
        <= tokens@[k].span.end.0 <= width(s) by {
        lemma_width_monotone(s, ls[k].start, ls[k].end);
        lemma_width_monotone(s, ls[k].end, s.len() as int);
    }
    assert forall|k: int| 0 <= k < tokens@.len() - 1 implies (#[trigger] tokens@[k]).span.end.0
        <= tokens@[k + 1].span.start.0 by {
        lemma_width_monotone(s, ls[k].end, ls[k + 1].start);
    }
}

proof fn lemma_lexeme_bounds_from(s: Seq<char>, i: int)
    requires
        0 <= i <= s.len(),
    ensures
        lex_from(s, i) matches Ok(ls) ==> {
            &&& forall|k: int|
                0 <= k < ls.len() ==> i <= (#[trigger] ls[k]).start <= ls[k].end <= s.len()
            &&& forall|k: int| 0 <= k < ls.len() - 1 ==> (#[trigger] ls[k]).end <= ls[k + 1].start
        },
    decreases s.len() - i,
{
    lemma_skip_trivia(s, i);
    let j = crate::grammar::skip_trivia(s, i);
    if j < s.len() {
        lemma_scan_token(s, j);
        if let Ok((kind, e)) = crate::grammar::scan_token(s, j) {
            lemma_lexeme_bounds_from(s, e);
            if let Ok(rest) = lex_from(s, e) {
                let ls = seq![Lexeme { kind, start: j, end: e }] + rest;
                assert forall|k: int| 0 <= k < ls.len() implies i <= (#[trigger] ls[k]).start
                    <= ls[k].end <= s.len() by {
                    if k > 0 {
                        assert(ls[k] == rest[k - 1]);
                    }
                }
                assert forall|k: int| 0 <= k < ls.len() - 1 implies (#[trigger] ls[k]).end <= ls[k
                    + 1].start by {
                    assert(ls[k + 1] == rest[k]);
                    if k > 0 {
                        assert(ls[k] == rest[k - 1]);
                    }
                }
            }
        }
    }
}

} // verus!
