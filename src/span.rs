//! Source positions as byte offsets, and the spans built from them.
use vstd::prelude::*;
use vstd::utf8::{char_is_scalar, encode_scalar, encode_utf8};

verus! {

/// Number of bytes that the UTF-8 encoding of `c` takes.
pub open spec fn char_width(c: char) -> nat {
    if (c as u32) < 0x80 {
        1
    } else if (c as u32) < 0x800 {
        2
    } else if (c as u32) < 0x10000 {
        3
    } else {
        4
    }
}

/// Number of bytes that the UTF-8 encoding of the first `i` characters of `s` takes.
pub open spec fn width_upto(s: Seq<char>, i: int) -> nat
    decreases i,
{
    if i <= 0 || s.len() == 0 {
        0
    } else if i > s.len() {
        width_upto(s, s.len() as int)
    } else {
        width_upto(s, i - 1) + char_width(s[i - 1])
    }
}

/// Number of bytes that the UTF-8 encoding of the whole of `s` takes.
pub open spec fn width(s: Seq<char>) -> nat {
    width_upto(s, s.len() as int)
}

/// The byte width of a prefix grows with the prefix.
pub proof fn lemma_width_monotone(s: Seq<char>, i: int, j: int)
    requires
        0 <= i <= j <= s.len(),
    ensures
        width_upto(s, i) <= width_upto(s, j),
    decreases j - i,
{
    if i < j {
        lemma_width_monotone(s, i, j - 1);
    }
}

/// The width of a text with a character in front.
proof fn lemma_width_upto_cons(c: char, t: Seq<char>, i: int)
    requires
        1 <= i <= t.len() + 1,
    ensures
        width_upto(seq![c] + t, i) == char_width(c) + width_upto(t, i - 1),
    decreases i,
{
    let s = seq![c] + t;
    if i > 1 {
        lemma_width_upto_cons(c, t, i - 1);
        assert(s[i - 1] == t[i - 2]);
    } else {
        assert(width_upto(s, 0) == 0);
    }
}

/// The model's width is the length of the text's UTF-8 encoding.
pub proof fn lemma_width_is_utf8_len(s: Seq<char>)
    ensures
        width(s) == encode_utf8(s).len(),
    decreases s.len(),
{
    if s.len() > 0 {
        let t = s.drop_first();
        lemma_width_is_utf8_len(t);
        assert(s =~= seq![s[0]] + t);
        lemma_width_upto_cons(s[0], t, s.len() as int);
        char_is_scalar(s[0]);
        assert(encode_scalar(s[0] as u32).len() == char_width(s[0]));
    }
}

/// The byte width of one character, as `char::len_utf8` gives it.
pub fn utf8_width(c: char) -> (r: usize)
    ensures
        r == char_width(c),
{
    let code: u32 = c as u32;
    if code < 0x80 {
        1
    } else if code < 0x800 {
        2
    } else if code < 0x10000 {
        3
    } else {
        4
    }
}

/// A position in a source text, as a byte offset from its start.
#[derive(Clone, Copy, Debug, PartialEq, Eq, Structural, Default)]
pub struct BytePos(pub usize);

impl BytePos {
    /// The position just after `ch`, which starts at `self`.
    pub fn shift(self, ch: char) -> (r: BytePos)
        requires
            self.0 + char_width(ch) <= usize::MAX,
        ensures
            r.0 == self.0 + char_width(ch),
    {
        BytePos(self.0 + utf8_width(ch))
    }
}

/// The range `[start, end)` of a source text named `path`.
#[derive(Clone, Copy, Debug, PartialEq, Eq)]
pub struct Span {
    pub start: BytePos,
    pub end: BytePos,
    pub path: &'static str,
}

/// Syntax that knows the span of source text it came from.
pub trait Spanned {
    /// The span, in specifications.
    spec fn span_of(&self) -> Span;

    /// The span of source text that `self` was read from.
    fn span(&self) -> (r: Span)
        ensures
            r == self.span_of(),
    ;
}

} // verus!
