use jalm::lexer::{lex, Token};
use jalm::syntax::SyntaxKind;

fn kinds(source: &str) -> Vec<SyntaxKind> {
    lex(source).iter().map(|t: &Token| t.kind).collect()
}

fn texts(source: &str) -> Vec<String> {
    lex(source).into_iter().map(|t: Token| t.text).collect()
}

fn covers(source: &str) {
    let tokens = lex(source);
    let mut at = 0;
    let mut text = String::new();
    for token in &tokens {
        assert_eq!(token.span.start, at);
        assert!(token.span.end > token.span.start);
        assert_eq!(&source[token.span.clone()], token.text);
        at = token.span.end;
        text.push_str(&token.text);
    }
    assert_eq!(at, source.len());
    assert_eq!(text, source);
}

#[test]
fn lex_empty_source_has_no_tokens() {
    assert!(lex("").is_empty());
}

#[test]
fn lex_keywords_and_identifiers() {
    assert_eq!(
        kinds("mod use fn async struct enum match if else for in return let mut true false scope spawn join await as pub"),
        vec![
            SyntaxKind::KwMod, SyntaxKind::Whitespace, SyntaxKind::KwUse, SyntaxKind::Whitespace, SyntaxKind::KwFn, SyntaxKind::Whitespace, SyntaxKind::KwAsync, SyntaxKind::Whitespace, SyntaxKind::KwStruct,
            SyntaxKind::Whitespace, SyntaxKind::KwEnum, SyntaxKind::Whitespace, SyntaxKind::KwMatch, SyntaxKind::Whitespace, SyntaxKind::KwIf, SyntaxKind::Whitespace, SyntaxKind::KwElse,
            SyntaxKind::Whitespace, SyntaxKind::KwFor, SyntaxKind::Whitespace, SyntaxKind::KwIn, SyntaxKind::Whitespace, SyntaxKind::KwReturn, SyntaxKind::Whitespace, SyntaxKind::KwLet,
            SyntaxKind::Whitespace, SyntaxKind::KwMut, SyntaxKind::Whitespace, SyntaxKind::KwTrue, SyntaxKind::Whitespace, SyntaxKind::KwFalse, SyntaxKind::Whitespace, SyntaxKind::KwScope,
            SyntaxKind::Whitespace, SyntaxKind::KwSpawn, SyntaxKind::Whitespace, SyntaxKind::KwJoin, SyntaxKind::Whitespace, SyntaxKind::KwAwait, SyntaxKind::Whitespace, SyntaxKind::KwAs,
            SyntaxKind::Whitespace, SyntaxKind::KwPub,
        ]
    );
    assert_eq!(kinds("iffy fnord _ _x x_ __ b r2"), vec![
        SyntaxKind::Ident, SyntaxKind::Whitespace, SyntaxKind::Ident, SyntaxKind::Whitespace, SyntaxKind::Underscore, SyntaxKind::Whitespace, SyntaxKind::Ident, SyntaxKind::Whitespace, SyntaxKind::Ident,
        SyntaxKind::Whitespace, SyntaxKind::Ident, SyntaxKind::Whitespace, SyntaxKind::Ident, SyntaxKind::Whitespace, SyntaxKind::Ident,
    ]);
}

#[test]
fn lex_longest_operator_wins() {
    assert_eq!(kinds("::"), vec![SyntaxKind::ColonColon]);
    assert_eq!(kinds(":::"), vec![SyntaxKind::ColonColon, SyntaxKind::Colon]);
    assert_eq!(kinds("..="), vec![SyntaxKind::RangeEq]);
    assert_eq!(kinds("..."), vec![SyntaxKind::Range, SyntaxKind::Dot]);
    assert_eq!(kinds("<<="), vec![SyntaxKind::ShlEq]);
    assert_eq!(kinds("<<<"), vec![SyntaxKind::Shl, SyntaxKind::Lt]);
    assert_eq!(kinds(">>=>>>=>"), vec![SyntaxKind::ShrEq, SyntaxKind::Shr, SyntaxKind::Gte, SyntaxKind::Gt]);
    assert_eq!(kinds("==="), vec![SyntaxKind::EqEq, SyntaxKind::Eq]);
    assert_eq!(kinds("=>->-=!=!"), vec![SyntaxKind::FatArrow, SyntaxKind::Arrow, SyntaxKind::MinusEq, SyntaxKind::Neq, SyntaxKind::Bang]);
    assert_eq!(kinds("&&&=&||||=|"), vec![SyntaxKind::AndAnd, SyntaxKind::AmpEq, SyntaxKind::Amp, SyntaxKind::OrOr, SyntaxKind::OrOr, SyntaxKind::Eq, SyntaxKind::Pipe]);
    assert_eq!(kinds("???"), vec![SyntaxKind::QuestionQuestion, SyntaxKind::Question]);
    assert_eq!(kinds("+=*=/=%=^=+*/%^~"), vec![
        SyntaxKind::PlusEq, SyntaxKind::StarEq, SyntaxKind::SlashEq, SyntaxKind::PercentEq, SyntaxKind::CaretEq, SyntaxKind::Plus, SyntaxKind::Star, SyntaxKind::Slash, SyntaxKind::Percent, SyntaxKind::Caret, SyntaxKind::Tilde,
    ]);
    assert_eq!(kinds("(){}[],;."), vec![
        SyntaxKind::LParen, SyntaxKind::RParen, SyntaxKind::LBrace, SyntaxKind::RBrace, SyntaxKind::LBracket, SyntaxKind::RBracket, SyntaxKind::Comma, SyntaxKind::Semi, SyntaxKind::Dot,
    ]);
}

#[test]
fn lex_numbers() {
    assert_eq!(kinds("0 12_000 1.5 1_0.0_1"), vec![
        SyntaxKind::Int, SyntaxKind::Whitespace, SyntaxKind::Int, SyntaxKind::Whitespace, SyntaxKind::Float, SyntaxKind::Whitespace, SyntaxKind::Float,
    ]);
    assert_eq!(kinds("1."), vec![SyntaxKind::Int, SyntaxKind::Dot]);
    assert_eq!(kinds("1..2"), vec![SyntaxKind::Int, SyntaxKind::Range, SyntaxKind::Int]);
    assert_eq!(kinds("1._5"), vec![SyntaxKind::Int, SyntaxKind::Dot, SyntaxKind::Ident]);
    assert_eq!(texts("1.5.2"), vec!["1.5", ".", "2"]);
}

#[test]
fn lex_strings_and_bytes() {
    assert_eq!(kinds(r#""a" b"b" "q\"q" "two
lines""#), vec![SyntaxKind::String, SyntaxKind::Whitespace, SyntaxKind::Bytes, SyntaxKind::Whitespace, SyntaxKind::String, SyntaxKind::Whitespace, SyntaxKind::String]);
    assert_eq!(texts(r#"b"x"y"#), vec![r#"b"x""#, "y"]);
    // a literal that is never closed is an error up to where it stops
    assert_eq!(kinds("\"open"), vec![SyntaxKind::ErrorToken]);
    assert_eq!(texts("x \"open\\\nnext"), vec!["x", " ", "\"open\\", "\n", "next"]);
    assert_eq!(kinds("x \"open\\\nnext"), vec![SyntaxKind::Ident, SyntaxKind::Whitespace, SyntaxKind::ErrorToken, SyntaxKind::Whitespace, SyntaxKind::Ident]);
    // `b` before a literal that is never closed is a name
    assert_eq!(kinds("b\"open"), vec![SyntaxKind::Ident, SyntaxKind::ErrorToken]);
}

#[test]
fn lex_comments() {
    assert_eq!(kinds("// line\nx"), vec![SyntaxKind::Comment, SyntaxKind::Whitespace, SyntaxKind::Ident]);
    assert_eq!(texts("// line\nx"), vec!["// line", "\n", "x"]);
    assert_eq!(texts("/* a */ /**/ /* * / **/x"), vec!["/* a */", " ", "/**/", " ", "/* * / **/", "x"]);
    assert_eq!(kinds("/* never closed"), vec![SyntaxKind::Slash, SyntaxKind::Star, SyntaxKind::Whitespace, SyntaxKind::Ident, SyntaxKind::Whitespace, SyntaxKind::Ident]);
    assert_eq!(kinds("/*/"), vec![SyntaxKind::Slash, SyntaxKind::Star, SyntaxKind::Slash]);
    assert_eq!(kinds("/= /"), vec![SyntaxKind::SlashEq, SyntaxKind::Whitespace, SyntaxKind::Slash]);
}

#[test]
fn lex_unknown_characters_are_error_tokens() {
    assert_eq!(kinds("@"), vec![SyntaxKind::ErrorToken]);
    assert_eq!(kinds("#$'`\\"), vec![SyntaxKind::ErrorToken, SyntaxKind::ErrorToken, SyntaxKind::ErrorToken, SyntaxKind::ErrorToken, SyntaxKind::ErrorToken]);
    // one token for each character, however many bytes it takes
    let tokens = lex("a\u{e9}\u{4e2d}\u{1f600}b");
    let spans: Vec<(usize, usize)> = tokens.iter().map(|t| (t.span.start, t.span.end)).collect();
    assert_eq!(spans, vec![(0, 1), (1, 3), (3, 6), (6, 10), (10, 11)]);
    assert_eq!(
        tokens.iter().map(|t| t.kind).collect::<Vec<_>>(),
        vec![SyntaxKind::Ident, SyntaxKind::ErrorToken, SyntaxKind::ErrorToken, SyntaxKind::ErrorToken, SyntaxKind::Ident]
    );
}

#[test]
fn lex_covers_every_byte() {
    covers("fn f(a: i64) -> i64 { /*c*/ let x = 1; x }");
    covers("\u{feff}fn \u{3000} caf\u{e9}() { \"na\u{ef}ve\" } // \u{1f980}\n\t@");
    covers("\"never closed \\");
    covers("/* never closed");
    covers("1.2.3..=4 <<= >>= ::: ... b\"");
}

#[test]
fn kinds_have_stable_numbers_and_names() {
    assert_eq!(SyntaxKind::Tombstone.to_raw(), 0);
    assert_eq!(SyntaxKind::Eof.to_raw(), 1);
    assert_eq!(SyntaxKind::Root.to_raw(), 81);
    assert_eq!(SyntaxKind::Error.to_raw(), 109);
    assert_eq!(SyntaxKind::from_raw(109), Some(SyntaxKind::Error));
    assert_eq!(SyntaxKind::from_raw(110), None);
    for raw in 0..110u16 {
        assert_eq!(SyntaxKind::from_raw(raw).unwrap().to_raw(), raw);
    }
    assert_eq!(SyntaxKind::BinExpr.debug_name(), "BinExpr");
    assert!(SyntaxKind::Whitespace.is_trivia() && SyntaxKind::Comment.is_trivia());
    assert!(!SyntaxKind::Ident.is_trivia());
    assert!(SyntaxKind::KwTrue.is_literal() && SyntaxKind::Bytes.is_literal());
    assert!(!SyntaxKind::Ident.is_literal());
}
