//! The scanner: a cursor over the characters of a source text that hands out
//! one token at a time.
use vstd::prelude::*;
use vstd::std_specs::iter::IteratorSpec;
use crate::chars::{class_contains, in_class, is_alphabetic, is_ascii_digit, is_numeric, CharClass};
use crate::error::{LexError, LexErrorKind};
use crate::grammar::{
    is_ascii_numeral, is_keyword, is_single_punct, lemma_run_end, lemma_scan_token, lemma_skip_trivia,
    lex, lex_from, numeral_end, run_end, scan_token, skip_trivia, Lexeme,
};
use crate::keywords::KeywordTable;
use crate::span::{lemma_width_is_utf8_len, lemma_width_monotone, width, width_upto, BytePos, Span};
use crate::symbol::intern;
use crate::token::{KindView, Token, TokenKind, TokenLiteral};

verus! {

broadcast use {vstd::string::axiom_spec_iter, vstd::string::next_postcondition};

/// Relies on `String::push`: appends one character.
#[verifier::external_body]
fn push_char(s: &mut String, c: char)
    ensures
        final(s)@ == old(s)@.push(c),
{
    s.push(c)
}

/// The characters of `s`, in order.
fn chars_of(s: &str) -> (r: Vec<char>)
    ensures
        r@ == s@,
{
    let mut it = s.chars();
    let mut out: Vec<char> = Vec::new();
    loop
        invariant
            out@ + it.remaining() == s@,
            it.obeys_prophetic_iter_laws(),
            it.decrease() is Some,
        decreases it.decrease()->0,
    {
        match it.next() {
            Some(c) => {
                out.push(c);
            },
            None => {
                assert(out@ =~= s@);
                return out;
            },
        }
    }
}

/// The scanner's state over one source text.
pub struct Lexer {
    path: &'static str,
    current_pos: BytePos,
    chars: Vec<char>,
    idx: usize,
    keywords: KeywordTable,
}

impl Lexer {
    /// The characters being scanned.
    spec fn src(&self) -> Seq<char> {
        self.chars@
    }

    /// The cursor stands within the text, and its byte offset is the width
    /// of what lies before it.
    spec fn wf(&self) -> bool {
        &&& self.idx <= self.chars@.len()
        &&& self.current_pos.0 == width_upto(self.chars@, self.idx as int)
        &&& width(self.chars@) <= usize::MAX
        &&& self.keywords.wf()
    }

    /// Same text and name, cursor moved.
    spec fn same_text(&self, other: &Lexer) -> bool {
        self.chars@ == other.chars@ && self.path == other.path
    }

    fn new(path: &'static str, contents: &str) -> (r: Lexer)
        requires
            width(contents@) <= usize::MAX,
        ensures
            r.wf(),
            r.src() == contents@,
            r.idx == 0,
            r.path == path,
    {
        Lexer {
            path,
            current_pos: BytePos(0),
            chars: chars_of(contents),
            idx: 0,
            keywords: KeywordTable::build(),
        }
    }

    /// Consumes one character, if any is left.
    fn next(&mut self) -> (r: Option<char>)
        requires
            old(self).wf(),
        ensures
            final(self).wf(),
            final(self).same_text(old(self)),
            old(self).idx < old(self).src().len() ==> r == Some(old(self).src()[old(self).idx as int])
                && final(self).idx == old(self).idx + 1,
            old(self).idx >= old(self).src().len() ==> r is None && final(self).idx == old(self).idx,
    {
        if self.idx < self.chars.len() {
            let c = self.chars[self.idx];
            proof {
                lemma_width_monotone(self.chars@, self.idx + 1, self.chars@.len() as int);
            }
            self.current_pos = self.current_pos.shift(c);
            self.idx = self.idx + 1;
            Some(c)
        } else {
            None
        }
    }

    /// The character under the cursor.
    fn peek(&self) -> (r: Option<char>)
        requires
            self.wf(),
        ensures
            r == (if self.idx < self.src().len() {
                Some(self.src()[self.idx as int])
            } else {
                None::<char>
            }),
    {
        if self.idx < self.chars.len() {
            Some(self.chars[self.idx])
        } else {
            None
        }
    }

    /// The character just after the one under the cursor.
    fn peek_second(&self) -> (r: Option<char>)
        requires
            self.wf(),
        ensures
            r == (if self.idx + 1 < self.src().len() {
                Some(self.src()[self.idx + 1])
            } else {
                None::<char>
            }),
    {
        if self.idx < self.chars.len() && self.idx + 1 < self.chars.len() {
            Some(self.chars[self.idx + 1])
        } else {
            None
        }
    }

    /// Consumes the character under the cursor if it is `expected`.
    fn consume_if(&mut self, expected: char) -> (r: bool)
        requires
            old(self).wf(),
        ensures
            final(self).wf(),
            final(self).same_text(old(self)),
            r == (old(self).idx < old(self).src().len() && old(self).src()[old(self).idx as int]
                == expected),
            final(self).idx == old(self).idx + if r { 1int } else { 0int },
    {
        if self.peek() == Some(expected) {
            self.next();
            true
        } else {
            false
        }
    }

    /// `matched` if the character under the cursor is `to_match`, which is
    /// then consumed; `unmatched` otherwise.
    fn either(&mut self, to_match: char, matched: TokenKind, unmatched: TokenKind) -> (r: TokenKind)
        requires
            old(self).wf(),
        ensures
            final(self).wf(),
            final(self).same_text(old(self)),
            ({
                let hit = old(self).idx < old(self).src().len() && old(self).src()[old(self).idx as int]
                    == to_match;
                &&& r == if hit { matched } else { unmatched }
                &&& final(self).idx == old(self).idx + if hit { 1int } else { 0int }
            }),
    {
        if self.consume_if(to_match) {
            matched
        } else {
            unmatched
        }
    }

    /// Consumes the character under the cursor if the one after it is of `class`.
    fn consume_if_next(&mut self, class: CharClass) -> (r: bool)
        requires
            old(self).wf(),
        ensures
            final(self).wf(),
            final(self).same_text(old(self)),
            r == (old(self).idx + 1 < old(self).src().len() && in_class(
                class,
                old(self).src()[old(self).idx + 1],
            )),
            final(self).idx == old(self).idx + if r { 1int } else { 0int },
    {
        match self.peek_second() {
            Some(c) => {
                if class_contains(class, c) {
                    self.next();
                    true
                } else {
                    false
                }
            },
            None => false,
        }
    }

    /// Consumes the run of `class` characters under the cursor, appending them to `acc`.
    fn consume_while(&mut self, class: CharClass, acc: &mut String)
        requires
            old(self).wf(),
        ensures
            final(self).wf(),
            final(self).same_text(old(self)),
            final(self).idx == run_end(old(self).src(), old(self).idx as int, class),
            old(self).idx <= final(self).idx,
            final(acc)@ == old(acc)@ + old(self).src().subrange(
                old(self).idx as int,
                final(self).idx as int,
            ),
    {
        let ghost start = self.idx as int;
        let ghost acc0 = acc@;
        proof {
            lemma_run_end(self.src(), start, class);
        }
        while self.idx < self.chars.len() && class_contains(class, self.chars[self.idx])
            invariant
                self.wf(),
                self.same_text(old(self)),
                start <= self.idx <= run_end(self.src(), start, class),
                run_end(self.src(), self.idx as int, class) == run_end(self.src(), start, class),
                acc@ == acc0 + self.src().subrange(start, self.idx as int),
            decreases self.src().len() - self.idx,
        {
            let c = self.chars[self.idx];
            proof {
                lemma_run_end(self.src(), self.idx + 1, class);
            }
            self.next();
            push_char(acc, c);
            assert(acc@ =~= acc0 + self.src().subrange(start, self.idx as int));
        }
    }

    /// Consumes whitespace and line comments up to the next token, or to the end.
    fn skip_trivia(&mut self)
        requires
            old(self).wf(),
        ensures
            final(self).wf(),
            final(self).same_text(old(self)),
            final(self).idx == skip_trivia(old(self).src(), old(self).idx as int),
    {
        loop
            invariant
                self.wf(),
                self.same_text(old(self)),
                skip_trivia(self.src(), self.idx as int) == skip_trivia(
                    old(self).src(),
                    old(self).idx as int,
                ),
            decreases self.src().len() - self.idx,
        {
            match self.peek() {
                Some(c) => {
                    if c == ' ' || c == '\t' || c == '\n' || c == '\r' {
                        self.next();
                    } else if c == '/' && self.peek_second() == Some('/') {
                        self.next();
                        self.next();
                        let mut comment = String::new();
                        self.consume_while(CharClass::NotNewline, &mut comment);
                    } else {
                        return;
                    }
                },
                None => {
                    return;
                },
            }
        }
    }

    /// Scans a name whose first character `c` was just consumed.
    fn identifier(&mut self, c: char) -> (r: TokenKind)
        requires
            old(self).wf(),
            1 <= old(self).idx,
            c == old(self).src()[old(self).idx - 1],
        ensures
            final(self).wf(),
            final(self).same_text(old(self)),
            ({
                let s = old(self).src();
                let e = run_end(s, old(self).idx as int, CharClass::IdentContinue);
                let text = s.subrange(old(self).idx - 1, e);
                &&& final(self).idx == e
                &&& r@ == if is_keyword(text) {
                    KindView::Keyword(text)
                } else {
                    KindView::Ident(text)
                }
            }),
    {
        let ghost s = self.src();
        let ghost i = self.idx - 1;
        let mut ident = String::new();
        push_char(&mut ident, c);
        self.consume_while(CharClass::IdentContinue, &mut ident);
        assert(ident@ =~= s.subrange(i, self.idx as int));
        let id = intern(ident);
        match self.keywords.lookup(id) {
            Some(k) => k,
            None => TokenKind::Literal(TokenLiteral::Identifier(id)),
        }
    }

    /// Whether the characters `[from, to)` are ASCII digits and dots.
    fn ascii_numeral_between(&self, from: usize, to: usize) -> (r: bool)
        requires
            self.wf(),
            from <= to <= self.src().len(),
        ensures
            r == is_ascii_numeral(self.src().subrange(from as int, to as int)),
    {
        let ghost t = self.src().subrange(from as int, to as int);
        let mut k: usize = from;
        while k < to
            invariant
                from <= k <= to <= self.src().len(),
                t == self.src().subrange(from as int, to as int),
                forall|j: int| 0 <= j < k - from ==> is_ascii_digit(#[trigger] t[j]) || t[j] == '.',
            decreases to - k,
        {
            let c = self.chars[k];
            if !(('0' <= c && c <= '9') || c == '.') {
                assert(t[k - from] == c);
                return false;
            }
            k = k + 1;
        }
        true
    }

    /// Scans a numeral whose first character `c` was just consumed.
    fn number(&mut self, c: char) -> (r: Result<TokenKind, LexErrorKind>)
        requires
            old(self).wf(),
            1 <= old(self).idx,
            c == old(self).src()[old(self).idx - 1],
        ensures
            final(self).wf(),
            final(self).same_text(old(self)),
            ({
                let s = old(self).src();
                let e = numeral_end(s, old(self).idx - 1);
                let text = s.subrange(old(self).idx - 1, e);
                if is_ascii_numeral(text) {
                    r matches Ok(k) && k@ == KindView::Number(text) && final(self).idx == e
                } else {
                    r == Err::<TokenKind, LexErrorKind>(LexErrorKind::MalformedNumber)
                }
            }),
    {
        let ghost s = self.src();
        let start: usize = self.idx - 1;
        let mut number = String::new();
        push_char(&mut number, c);
        self.consume_while(CharClass::Numeric, &mut number);
        assert(number@ =~= s.subrange(start as int, self.idx as int));
        if self.peek() == Some('.') && self.consume_if_next(CharClass::Numeric) {
            push_char(&mut number, '.');
            assert(number@ =~= s.subrange(start as int, self.idx as int));
            self.consume_while(CharClass::Numeric, &mut number);
        }
        assert(number@ =~= s.subrange(start as int, self.idx as int));
        if self.ascii_numeral_between(start, self.idx) {
            Ok(TokenKind::Literal(TokenLiteral::Number(intern(number))))
        } else {
            Err(LexErrorKind::MalformedNumber)
        }
    }

    /// Scans a string literal whose opening quote was just consumed.
    fn string_literal(&mut self) -> (r: Result<TokenKind, LexErrorKind>)
        requires
            old(self).wf(),
        ensures
            final(self).wf(),
            final(self).same_text(old(self)),
            ({
                let s = old(self).src();
                let e = run_end(s, old(self).idx as int, CharClass::NotQuote);
                if e < s.len() {
                    r matches Ok(k) && k@ == KindView::Str(s.subrange(old(self).idx as int, e))
                        && final(self).idx == e + 1
                } else {
                    r == Err::<TokenKind, LexErrorKind>(LexErrorKind::UnterminatedStringLiteral)
                }
            }),
    {
        let ghost s = self.src();
        let ghost start = self.idx as int;
        let mut string = String::new();
        self.consume_while(CharClass::NotQuote, &mut string);
        assert(string@ =~= s.subrange(start, self.idx as int));
        match self.next() {
            Some(_) => Ok(TokenKind::Literal(TokenLiteral::StringLiteral(intern(string)))),
            None => Err(LexErrorKind::UnterminatedStringLiteral),
        }
    }

    /// Reads the token whose first character `ch` was just consumed, from a
    /// position past any trivia.
    fn lex(&mut self, ch: char) -> (r: Result<TokenKind, LexErrorKind>)
        requires
            old(self).wf(),
            1 <= old(self).idx,
            ch == old(self).src()[old(self).idx - 1],
        ensures
            final(self).wf(),
            final(self).same_text(old(self)),
            match scan_token(old(self).src(), old(self).idx - 1) {
                Ok((k, e)) => r matches Ok(t) && t@ == k && final(self).idx == e,
                Err(err) => r == Err::<TokenKind, LexErrorKind>(err),
            },
    {
        if let Some(kind) = single_punct_kind(ch) {
            return Ok(kind);
        }
        match ch {
            '-' => Ok(self.either('>', TokenKind::RArrow, TokenKind::Minus)),
            '<' => {
                if self.consume_if('=') {
                    Ok(TokenKind::LtEq)
                } else {
                    Ok(self.either('-', TokenKind::LArrow, TokenKind::LAngle))
                }
            },
            '>' => Ok(self.either('=', TokenKind::GtEq, TokenKind::RAngle)),
            '=' => {
                if self.consume_if('>') {
                    Ok(TokenKind::FatArrow)
                } else {
                    Ok(self.either('=', TokenKind::DoubleEq, TokenKind::Eq))
                }
            },
            '!' => Ok(self.either('=', TokenKind::NEq, TokenKind::Bang)),
            ':' => Ok(self.either(':', TokenKind::DoubleColon, TokenKind::Colon)),
            '.' => Ok(self.either('.', TokenKind::DoubleDot, TokenKind::Dot)),
            _ => {
                if is_alphabetic(ch) {
                    Ok(self.identifier(ch))
                } else if is_numeric(ch) {
                    self.number(ch)
                } else if ch == '"' {
                    self.string_literal()
                } else {
                    Err(LexErrorKind::UnexpectedCharacter(ch))
                }
            },
        }
    }

    /// Scans the whole of `contents`, named `path` in every span: the tokens in
    /// order, ending with the one end-of-input token; or the first error, and
    /// no tokens.
    pub fn tokenize(path: &'static str, contents: &str) -> (r: Result<Vec<Token>, LexError>)
        ensures
            scans_as(path, contents@, r),
    {
        // Every byte offset is bounded by the length of the text's encoding.
        let byte_len = contents.as_bytes().len();
        proof {
            lemma_width_is_utf8_len(contents@);
            assert(width(contents@) == byte_len);
        }
        let mut lexer = Lexer::new(path, contents);
        let ghost s = contents@;
        let mut tokens: Vec<Token> = Vec::new();
        let ghost mut done: Seq<Lexeme> = seq![];
        assert(lex(s) == then_lex(done, lex_from(s, 0))) by {
            match lex_from(s, 0) {
                Ok(rest) => assert(done + rest =~= rest),
                Err(_) => {},
            }
        }
        loop
            invariant
                lexer.wf(),
                s == contents@,
                lexer.src() == s,
                lexer.path == path,
                tokens_match(tokens@, done, s, path),
                lex(s) == then_lex(done, lex_from(s, lexer.idx as int)),
            decreases s.len() - lexer.idx,
        {
            let ghost i = lexer.idx as int;
            proof {
                lemma_skip_trivia(s, i);
            }
            lexer.skip_trivia();
            let start = lexer.current_pos;
            let ghost j = lexer.idx as int;
            match lexer.next() {
                None => {
                    let eoi = Token::new(Span { start, end: start, path }, TokenKind::EoI);
                    let ghost lexeme = Lexeme { kind: KindView::EndOfInput, start: j, end: j };
                    tokens.push(eoi);
                    proof {
                        assert(lex_from(s, i) == Ok::<Seq<Lexeme>, (LexErrorKind, int)>(
                            seq![lexeme],
                        ));
                        done = done + seq![lexeme];
                        assert(tokens@.last() == eoi);
                    }
                    return Ok(tokens);
                },
                Some(ch) => {
                    proof {
                        lemma_scan_token(s, j);
                    }
                    match lexer.lex(ch) {
                        Ok(kind) => {
                            let tok = Token::new(Span { start, end: lexer.current_pos, path }, kind);
                            let ghost e = lexer.idx as int;
                            let ghost lexeme = Lexeme { kind: kind@, start: j, end: e };
                            tokens.push(tok);
                            proof {
                                lemma_then_lex_assoc(done, seq![lexeme], lex_from(s, e));
                                done = done + seq![lexeme];
                            }
                        },
                        Err(kind) => {
                            assert(lex_from(s, i) == Err::<Seq<Lexeme>, (LexErrorKind, int)>((kind, j)));
                            return Err(LexError { kind, pos: start });
                        },
                    }
                },
            }
        }
    }
}

/// The punctuation token that `ch` makes on its own, whatever follows it.
fn single_punct_kind(ch: char) -> (r: Option<TokenKind>)
    ensures
        r is Some <==> (is_single_punct(ch) || ch == '/'),
        r matches Some(k) ==> k@ == KindView::Op(seq![ch]),
{
    match ch {
        '(' => Some(TokenKind::LParen),
        ')' => Some(TokenKind::RParen),
        '{' => Some(TokenKind::LBrace),
        '}' => Some(TokenKind::RBrace),
        '[' => Some(TokenKind::LBracket),
        ']' => Some(TokenKind::RBracket),
        '+' => Some(TokenKind::Plus),
        '_' => Some(TokenKind::Underscore),
        '*' => Some(TokenKind::Star),
        '/' => Some(TokenKind::Slash),
        '\\' => Some(TokenKind::Backslash),
        '%' => Some(TokenKind::Percent),
        '^' => Some(TokenKind::Caret),
        '&' => Some(TokenKind::Ampersand),
        '|' => Some(TokenKind::Pipe),
        ';' => Some(TokenKind::SemiColon),
        ',' => Some(TokenKind::Comma),
        '@' => Some(TokenKind::At),
        '#' => Some(TokenKind::HashTag),
        '~' => Some(TokenKind::Tilde),
        '?' => Some(TokenKind::Question),
        '$' => Some(TokenKind::Dollar),
        _ => None,
    }
}

/// `tokens` are the model's `lexemes` of `s`: the same kinds, spans at the
/// same byte offsets, each naming `path`.
pub open spec fn tokens_match(
    tokens: Seq<Token>,
    lexemes: Seq<Lexeme>,
    s: Seq<char>,
    path: &'static str,
) -> bool {
    &&& tokens.len() == lexemes.len()
    &&& forall|k: int|
        0 <= k < tokens.len() ==> {
            &&& (#[trigger] tokens[k]).kind@ == lexemes[k].kind
            &&& tokens[k].span.start.0 == width_upto(s, lexemes[k].start)
            &&& tokens[k].span.end.0 == width_upto(s, lexemes[k].end)
            &&& tokens[k].span.path == path
        }
}

/// `r` is what scanning `s`, named `path`, gives: on success the model's
/// tokens at their byte offsets, on failure the model's first error at the
/// byte offset of the token at fault.
pub open spec fn scans_as(path: &'static str, s: Seq<char>, r: Result<Vec<Token>, LexError>) -> bool {
    match lex(s) {
        Ok(lexemes) => r matches Ok(tokens) && tokens_match(tokens@, lexemes, s, path),
        Err((kind, at)) => r matches Err(e) && e.kind == kind && e.pos.0 == width_upto(s, at),
    }
}

/// The tokens `done`, followed by the outcome of scanning the rest.
pub open spec fn then_lex(
    done: Seq<Lexeme>,
    rest: Result<Seq<Lexeme>, (LexErrorKind, int)>,
) -> Result<Seq<Lexeme>, (LexErrorKind, int)> {
    match rest {
        Ok(r) => Ok(done + r),
        Err(e) => Err(e),
    }
}

proof fn lemma_then_lex_assoc(
    a: Seq<Lexeme>,
    b: Seq<Lexeme>,
    rest: Result<Seq<Lexeme>, (LexErrorKind, int)>,
)
    ensures
        then_lex(a, then_lex(b, rest)) == then_lex(a + b, rest),
{
    if let Ok(r) = rest {
        assert(a + (b + r) =~= (a + b) + r);
    }
}

} // verus!
