use jalm::formatter::{format_source, FormatError};

#[test]
fn formatter_idempotent() {
    let src = "fn f(a:i64)->i64{let x=1+2;return x;}";
    let once = format_source(src).expect("format once");
    let twice = format_source(&once).expect("format twice");
    assert_eq!(once, twice);
}

#[test]
fn formatter_normalizes_spacing() {
    let src = "fn f(a:i64)->i64{if true{foo(1+2).bar}else{match x{1=>2,_=>3,}}}";
    let formatted = format_source(src).expect("format");
    let expected = "\
fn f(a: i64) -> i64 {
  if true {
    foo(1 + 2).bar
  } else {
    match x {
      1 => 2,
      _ => 3,
    }
  }
}";
    assert_eq!(formatted, expected);
}

#[test]
fn formatter_refuses_parse_errors() {
    let src = "fn f()->i64{let x=1}";
    match format_source(src) {
        Err(FormatError::ParseErrors(errors)) => {
            assert_eq!(errors.len(), 2);
            assert_eq!(errors[0].message, "expected Semi");
            assert_eq!(errors[1].message, "expected RBrace");
        }
        Ok(text) => panic!("formatted a source with errors: {}", text),
    }
}

#[test]
fn formatter_separates_items_by_a_blank_line() {
    let src = "mod foo;use crate::foo::bar as baz;pub struct User{id:i64;name:string;}enum Opt{Some(i64,bool);None;}";
    let formatted = format_source(src).expect("format");
    let expected = "\
mod foo;

use crate::foo::bar as baz;

pub struct User {
  id: i64;
  name: string;
}

enum Opt {
  Some(i64, bool);
  None;
}";
    assert_eq!(formatted, expected);
    assert_eq!(format_source(&formatted).expect("format twice"), formatted);
}

#[test]
fn formatter_keeps_precedence() {
    let src = "fn f()->i64{(a+b)*c-d/e}";
    let formatted = format_source(src).expect("format");
    assert_eq!(formatted, "fn f() -> i64 {\n  (a + b) * c - d / e\n}");
    let src = "pub async fn g(mut a:i64,b:bool)->i64 !{io,fs}{let mut y:i64=a;y;return y;}";
    let formatted = format_source(src).expect("format");
    let expected = "\
pub async fn g(mut a: i64, b: bool) -> i64 !{io, fs} {
  let mut y: i64 = a;
  y;
  return y;
}";
    assert_eq!(formatted, expected);
    assert_eq!(format_source(&formatted).expect("format twice"), formatted);
}

#[test]
fn formatter_empty_block_and_source() {
    assert_eq!(format_source("").expect("format"), "");
    assert_eq!(format_source("fn f(){}").expect("format"), "fn f() {}");
    assert_eq!(format_source("  // only a comment\n").expect("format"), "");
}
