use jalm::parser::{parse, ParseError};
use jalm::roundtrip::round_trip;

fn errors_of(source: &str) -> Vec<(String, usize, usize)> {
    parse(source)
        .errors
        .iter()
        .map(|e: &ParseError| (e.message.clone(), e.span.start, e.span.end))
        .collect()
}

#[test]
fn round_trip_snapshot_basic() {
    let src = "fn f()->i64{a+b}";
    let (lossless, tree) = round_trip(src);
    assert_eq!(lossless, src);
    let expected = "\
Root
  FnDecl
    KwFn 'fn'
    Whitespace ' '
    IdentNode
      Ident 'f'
    LParen '('
    ParamList
      RParen ')'
    Arrow '->'
    Type
      IdentNode
        Ident 'i64'
    Block
      LBrace '{'
      StmtList
        BinExpr
          IdentNode
            Ident 'a'
          Plus '+'
          IdentNode
            Ident 'b'
      RBrace '}'
";
    assert_eq!(tree, expected);
}

#[test]
fn round_trip_expressions() {
    let src = "fn f()->i64{if true{foo(1+2).bar}else{match x{1=>2,_=>3,}}}";
    let (lossless, _tree) = round_trip(src);
    assert_eq!(lossless, src);
}

#[test]
fn round_trip_items() {
    let src = "mod foo;use crate::foo::bar as baz;struct User{id:i64;}enum Opt{Some(i64);None;}";
    let (lossless, _tree) = round_trip(src);
    assert_eq!(lossless, src);
}

#[test]
fn round_trip_whitespace_comments() {
    let src = "fn f(a: i64) -> i64 { /*c*/ let x = 1; x }";
    let (lossless, _tree) = round_trip(src);
    assert_eq!(lossless, src);
}

#[test]
fn diagnostics_missing_tokens() {
    let src = "fn f()->i64{let x=1}";
    assert_eq!(
        errors_of(src),
        vec![
            ("expected Semi".to_string(), 19, 20),
            ("expected RBrace".to_string(), 20, 20),
        ]
    );
}

#[test]
fn diagnostics_bad_tokens() {
    let src = "fn f()->i64{let x=@}";
    assert_eq!(
        errors_of(src),
        vec![
            ("expected expression".to_string(), 18, 19),
            ("expected Semi".to_string(), 19, 20),
            ("expected RBrace".to_string(), 20, 20),
        ]
    );
}

#[test]
fn diagnostics_missing_rbrace() {
    let src = "fn f()->i64{let x=1;";
    assert_eq!(errors_of(src), vec![("expected RBrace".to_string(), 20, 20)]);
}
