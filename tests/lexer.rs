use atlas_core::error::{LexError, LexErrorKind};
use atlas_core::lexer::Lexer;
use atlas_core::span::BytePos;
use atlas_core::token::{Token, TokenKind, TokenLiteral};
use internment::Intern;

fn scan(src: &str) -> Result<Vec<Token>, LexError> {
    Lexer::tokenize("test.atlas", src)
}

fn kinds(src: &str) -> Vec<TokenKind> {
    scan(src).expect("scan should succeed").iter().map(|t| t.kind()).collect()
}

fn error_kind(src: &str) -> LexErrorKind {
    scan(src).expect_err("scan should fail").kind
}

fn sym(s: &str) -> Intern<String> {
    Intern::new(s.to_string())
}

fn number_value(kind: TokenKind) -> f64 {
    match kind {
        TokenKind::Literal(TokenLiteral::Number(h)) => h.parse::<f64>().unwrap(),
        other => panic!("not a number: {:?}", other),
    }
}

#[test]
fn single_punctuation_alone() {
    let table = [
        ('(', TokenKind::LParen),
        (')', TokenKind::RParen),
        ('{', TokenKind::LBrace),
        ('}', TokenKind::RBrace),
        ('[', TokenKind::LBracket),
        (']', TokenKind::RBracket),
        ('+', TokenKind::Plus),
        ('_', TokenKind::Underscore),
        ('*', TokenKind::Star),
        ('%', TokenKind::Percent),
        ('^', TokenKind::Caret),
        ('&', TokenKind::Ampersand),
        ('|', TokenKind::Pipe),
        ('\\', TokenKind::Backslash),
        (';', TokenKind::SemiColon),
        (',', TokenKind::Comma),
        ('@', TokenKind::At),
        ('#', TokenKind::HashTag),
        ('~', TokenKind::Tilde),
        ('?', TokenKind::Question),
        ('$', TokenKind::Dollar),
    ];
    for (c, kind) in table {
        assert_eq!(kinds(&c.to_string()), vec![kind, TokenKind::EoI], "for {:?}", c);
    }
}

#[test]
fn slash_alone() {
    assert_eq!(kinds("/"), vec![TokenKind::Slash, TokenKind::EoI]);
}

#[test]
fn operator_greediness() {
    assert_eq!(kinds("->"), vec![TokenKind::RArrow, TokenKind::EoI]);
    assert_eq!(kinds("-"), vec![TokenKind::Minus, TokenKind::EoI]);
    assert_eq!(kinds("<="), vec![TokenKind::LtEq, TokenKind::EoI]);
    assert_eq!(kinds("<-"), vec![TokenKind::LArrow, TokenKind::EoI]);
    assert_eq!(kinds("<"), vec![TokenKind::LAngle, TokenKind::EoI]);
    assert_eq!(kinds("=>"), vec![TokenKind::FatArrow, TokenKind::EoI]);
    assert_eq!(kinds("=="), vec![TokenKind::DoubleEq, TokenKind::EoI]);
    assert_eq!(kinds("="), vec![TokenKind::Eq, TokenKind::EoI]);
}

#[test]
fn other_two_character_operators() {
    assert_eq!(kinds(">="), vec![TokenKind::GtEq, TokenKind::EoI]);
    assert_eq!(kinds(">"), vec![TokenKind::RAngle, TokenKind::EoI]);
    assert_eq!(kinds("!="), vec![TokenKind::NEq, TokenKind::EoI]);
    assert_eq!(kinds("!"), vec![TokenKind::Bang, TokenKind::EoI]);
    assert_eq!(kinds("::"), vec![TokenKind::DoubleColon, TokenKind::EoI]);
    assert_eq!(kinds(":"), vec![TokenKind::Colon, TokenKind::EoI]);
    assert_eq!(kinds(".."), vec![TokenKind::DoubleDot, TokenKind::EoI]);
    assert_eq!(kinds("."), vec![TokenKind::Dot, TokenKind::EoI]);
    assert_eq!(kinds("->>"), vec![TokenKind::RArrow, TokenKind::RAngle, TokenKind::EoI]);
    assert_eq!(kinds("..."), vec![TokenKind::DoubleDot, TokenKind::Dot, TokenKind::EoI]);
}

#[test]
fn keyword_versus_identifier() {
    assert_eq!(kinds("let"), vec![TokenKind::Keyword(sym("let")), TokenKind::EoI]);
    assert_eq!(
        kinds("lets"),
        vec![TokenKind::Literal(TokenLiteral::Identifier(sym("lets"))), TokenKind::EoI]
    );
}

#[test]
fn every_reserved_word_is_a_keyword() {
    for w in ["match", "as", "enum", "do", "with", "or", "and", "struct", "let", "fn", "in"] {
        assert_eq!(kinds(w), vec![TokenKind::Keyword(sym(w)), TokenKind::EoI], "for {}", w);
    }
    assert_eq!(
        kinds("And"),
        vec![TokenKind::Literal(TokenLiteral::Identifier(sym("And"))), TokenKind::EoI]
    );
}

#[test]
fn identifier_with_digits_and_underscores() {
    assert_eq!(
        kinds("a_1b"),
        vec![TokenKind::Literal(TokenLiteral::Identifier(sym("a_1b"))), TokenKind::EoI]
    );
    assert_eq!(
        kinds("_x"),
        vec![
            TokenKind::Underscore,
            TokenKind::Literal(TokenLiteral::Identifier(sym("x"))),
            TokenKind::EoI
        ]
    );
}

#[test]
fn numeric_literals() {
    let k = kinds("123");
    assert_eq!(k.len(), 2);
    assert_eq!(number_value(k[0]), 123.0);
    assert_eq!(k[1], TokenKind::EoI);

    let k = kinds("12.5");
    assert_eq!(k.len(), 2);
    assert_eq!(number_value(k[0]), 12.5);
    assert_eq!(k[1], TokenKind::EoI);

    let k = kinds("12.");
    assert_eq!(k.len(), 3);
    assert_eq!(number_value(k[0]), 12.0);
    assert_eq!(k[1], TokenKind::Dot);
    assert_eq!(k[2], TokenKind::EoI);
}

#[test]
fn numeral_text_is_kept() {
    assert_eq!(
        kinds("3.25"),
        vec![TokenKind::Literal(TokenLiteral::Number(sym("3.25"))), TokenKind::EoI]
    );
    assert_eq!(
        kinds("1..2"),
        vec![
            TokenKind::Literal(TokenLiteral::Number(sym("1"))),
            TokenKind::DoubleDot,
            TokenKind::Literal(TokenLiteral::Number(sym("2"))),
            TokenKind::EoI
        ]
    );
}

#[test]
fn non_ascii_numeral_is_malformed() {
    assert_eq!(error_kind("\u{0663}"), LexErrorKind::MalformedNumber);
    assert_eq!(error_kind("1\u{00BD}"), LexErrorKind::MalformedNumber);
}

#[test]
fn string_literals() {
    assert_eq!(
        kinds("\"abc\""),
        vec![TokenKind::Literal(TokenLiteral::StringLiteral(sym("abc"))), TokenKind::EoI]
    );
    assert_eq!(error_kind("\"abc"), LexErrorKind::UnterminatedStringLiteral);
}

#[test]
fn string_span_includes_quotes() {
    let toks = scan("\"ab\" x").unwrap();
    assert_eq!(toks[0].span().start, BytePos(0));
    assert_eq!(toks[0].span().end, BytePos(4));
}

#[test]
fn comment_skipping() {
    assert_eq!(kinds("// hello\nlet"), vec![TokenKind::Keyword(sym("let")), TokenKind::EoI]);
}

#[test]
fn trailing_trivia_ends_cleanly() {
    assert_eq!(kinds("let \n"), vec![TokenKind::Keyword(sym("let")), TokenKind::EoI]);
    assert_eq!(kinds("+ // done"), vec![TokenKind::Plus, TokenKind::EoI]);
    assert_eq!(kinds(""), vec![TokenKind::EoI]);
    assert_eq!(kinds("   \t\r\n"), vec![TokenKind::EoI]);
}

#[test]
fn unknown_character() {
    let r = scan("`");
    assert!(r.is_err());
    assert_eq!(r.unwrap_err().kind, LexErrorKind::UnexpectedCharacter('`'));
    assert!(scan("let `").is_err());
}

#[test]
fn error_position_is_the_offending_token() {
    let e = scan("ab `").unwrap_err();
    assert_eq!(e.pos, BytePos(3));
    let e = scan("x \"open").unwrap_err();
    assert_eq!(e.kind, LexErrorKind::UnterminatedStringLiteral);
    assert_eq!(e.pos, BytePos(2));
}

#[test]
fn error_messages() {
    assert_eq!(scan("`").unwrap_err().message(), "Unexpected character");
    assert_eq!(scan("\"a").unwrap_err().message(), "Unterminated string literal");
    assert_eq!(scan("\u{0663}").unwrap_err().message(), "Malformed number literal");
}

#[test]
fn scanning_twice_gives_the_same_tokens() {
    let src = "fn add(a, b) => a + b // sum\nlet x = \"s\" 1.5";
    let a = scan(src).unwrap();
    let b = scan(src).unwrap();
    assert_eq!(a, b);
}

#[test]
fn identifier_span() {
    let toks = scan("ab").unwrap();
    assert_eq!(toks.len(), 2);
    assert_eq!(toks[0].span().start, BytePos(0));
    assert_eq!(toks[0].span().end, BytePos(2));
    assert_eq!(toks[1].span().start, BytePos(2));
    assert_eq!(toks[1].span().end, BytePos(2));
    assert_eq!(toks[0].span().path, "test.atlas");
}

#[test]
fn spans_count_bytes() {
    let toks = scan("é + ü").unwrap();
    assert_eq!(toks[0].span().start, BytePos(0));
    assert_eq!(toks[0].span().end, BytePos(2));
    assert_eq!(toks[1].span().start, BytePos(3));
    assert_eq!(toks[1].span().end, BytePos(4));
    assert_eq!(toks[2].span().start, BytePos(5));
    assert_eq!(toks[2].span().end, BytePos(7));
    assert_eq!(toks[3].kind(), TokenKind::EoI);
}

#[test]
fn spans_skip_leading_trivia() {
    let toks = scan("  -> // c\n x").unwrap();
    assert_eq!(toks[0].kind(), TokenKind::RArrow);
    assert_eq!(toks[0].span().start, BytePos(2));
    assert_eq!(toks[0].span().end, BytePos(4));
    assert_eq!(toks[1].span().start, BytePos(11));
    assert_eq!(toks[1].span().end, BytePos(12));
}

#[test]
fn byte_position_shift() {
    assert_eq!(BytePos(0).shift('a'), BytePos(1));
    assert_eq!(BytePos(1).shift('é'), BytePos(3));
    assert_eq!(BytePos(0).shift('€'), BytePos(3));
    assert_eq!(BytePos(0).shift('😀'), BytePos(4));
}
