//! Tokens: what the scanner hands out.
use vstd::prelude::*;
use internment::Intern;
use crate::span::Span;
use crate::symbol::interned_text;

verus! {

/// The value that a literal token carries.
#[derive(Clone, Copy, Debug, PartialEq, Eq)]
pub enum TokenLiteral {
    /// A numeral as written: ASCII digits with at most one interior dot, which
    /// reads as a 64-bit float.
    Number(Intern<String>),
    /// The text between two double quotes.
    StringLiteral(Intern<String>),
    /// A name that is not a keyword.
    Identifier(Intern<String>),
}

/// The kind of a token.
#[derive(Clone, Copy, Debug, PartialEq, Eq)]
pub enum TokenKind {
    LParen,
    RParen,
    LBrace,
    RBrace,
    LBracket,
    RBracket,
    Plus,
    Underscore,
    Minus,
    RArrow,
    Star,
    Slash,
    Backslash,
    Percent,
    Caret,
    LtEq,
    LArrow,
    LAngle,
    GtEq,
    RAngle,
    FatArrow,
    DoubleEq,
    Eq,
    Ampersand,
    Pipe,
    NEq,
    Bang,
    DoubleColon,
    Colon,
    SemiColon,
    Comma,
    DoubleDot,
    Dot,
    At,
    HashTag,
    Tilde,
    Question,
    Dollar,
    Keyword(Intern<String>),
    Literal(TokenLiteral),
    EoI,
}

/// A token kind as text: an operator or punctuation by the characters that
/// spell it, the others by the text they carry.
pub enum KindView {
    Op(Seq<char>),
    Keyword(Seq<char>),
    Number(Seq<char>),
    Str(Seq<char>),
    Ident(Seq<char>),
    EndOfInput,
}

impl View for TokenKind {
    type V = KindView;

    open spec fn view(&self) -> KindView {
        match *self {
            TokenKind::LParen => KindView::Op(seq!['(']),
            TokenKind::RParen => KindView::Op(seq![')']),
            TokenKind::LBrace => KindView::Op(seq!['{']),
            TokenKind::RBrace => KindView::Op(seq!['}']),
            TokenKind::LBracket => KindView::Op(seq!['[']),
            TokenKind::RBracket => KindView::Op(seq![']']),
            TokenKind::Plus => KindView::Op(seq!['+']),
            TokenKind::Underscore => KindView::Op(seq!['_']),
            TokenKind::Minus => KindView::Op(seq!['-']),
            TokenKind::RArrow => KindView::Op(seq!['-', '>']),
            TokenKind::Star => KindView::Op(seq!['*']),
            TokenKind::Slash => KindView::Op(seq!['/']),
            TokenKind::Backslash => KindView::Op(seq!['\\']),
            TokenKind::Percent => KindView::Op(seq!['%']),
            TokenKind::Caret => KindView::Op(seq!['^']),
            TokenKind::LtEq => KindView::Op(seq!['<', '=']),
            TokenKind::LArrow => KindView::Op(seq!['<', '-']),
            TokenKind::LAngle => KindView::Op(seq!['<']),
            TokenKind::GtEq => KindView::Op(seq!['>', '=']),
            TokenKind::RAngle => KindView::Op(seq!['>']),
            TokenKind::FatArrow => KindView::Op(seq!['=', '>']),
            TokenKind::DoubleEq => KindView::Op(seq!['=', '=']),
            TokenKind::Eq => KindView::Op(seq!['=']),
            TokenKind::Ampersand => KindView::Op(seq!['&']),
            TokenKind::Pipe => KindView::Op(seq!['|']),
            TokenKind::NEq => KindView::Op(seq!['!', '=']),
            TokenKind::Bang => KindView::Op(seq!['!']),
            TokenKind::DoubleColon => KindView::Op(seq![':', ':']),
            TokenKind::Colon => KindView::Op(seq![':']),
            TokenKind::SemiColon => KindView::Op(seq![';']),
            TokenKind::Comma => KindView::Op(seq![',']),
            TokenKind::DoubleDot => KindView::Op(seq!['.', '.']),
            TokenKind::Dot => KindView::Op(seq!['.']),
            TokenKind::At => KindView::Op(seq!['@']),
            TokenKind::HashTag => KindView::Op(seq!['#']),
            TokenKind::Tilde => KindView::Op(seq!['~']),
            TokenKind::Question => KindView::Op(seq!['?']),
            TokenKind::Dollar => KindView::Op(seq!['$']),
            TokenKind::Keyword(h) => KindView::Keyword(interned_text(h)),
            TokenKind::Literal(TokenLiteral::Number(h)) => KindView::Number(interned_text(h)),
            TokenKind::Literal(TokenLiteral::StringLiteral(h)) => KindView::Str(interned_text(h)),
            TokenKind::Literal(TokenLiteral::Identifier(h)) => KindView::Ident(interned_text(h)),
            TokenKind::EoI => KindView::EndOfInput,
        }
    }
}

/// A token and the span of source text it was read from.
#[derive(Clone, Copy, Debug, PartialEq)]
pub struct Token {
    pub span: Span,
    pub kind: TokenKind,
}

impl Token {
    pub fn new(span: Span, kind: TokenKind) -> (r: Token)
        ensures
            r.span == span,
            r.kind == kind,
    {
        Token { span, kind }
    }

    pub fn kind(&self) -> (r: TokenKind)
        ensures
            r == self.kind,
    {
        self.kind
    }

    pub fn span(&self) -> (r: Span)
        ensures
            r == self.span,
    {
        self.span
    }
}

} // verus!
