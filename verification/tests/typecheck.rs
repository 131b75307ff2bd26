use jalm::typecheck::{check, Diagnostic, Span};

fn diagnostic(
    code: &str,
    message: &str,
    start: usize,
    end: usize,
    expected: Option<&str>,
    actual: Option<&str>,
) -> Diagnostic {
    Diagnostic {
        code: code.to_string(),
        message: message.to_string(),
        span: Span { start, end },
        expected: expected.map(|s| s.to_string()),
        actual: actual.map(|s| s.to_string()),
    }
}

#[test]
fn typecheck_ok() {
    let src = "fn add(a: i64, b: i64) -> i64 { let c = a + b; c }";
    let diags = check(src).diagnostics;
    assert!(diags.is_empty());
}

#[test]
fn typecheck_mismatch() {
    let src = "fn f(a: i64) -> bool { a + 1 }";
    let diags = check(src).diagnostics;
    assert_eq!(
        diags,
        vec![diagnostic("E0004", "type mismatch", 21, 30, Some("bool"), Some("i64"))]
    );
}

#[test]
fn typecheck_undefined_var() {
    let src = "fn f() -> i64 { x }";
    let diags = check(src).diagnostics;
    assert_eq!(
        diags,
        vec![diagnostic("E0001", "undefined variable", 16, 17, None, Some("x"))]
    );
}

#[test]
fn typecheck_annotation_mismatch() {
    let src = "fn f() -> i64 { let x: bool = 1; 2 }";
    let diags = check(src).diagnostics;
    assert_eq!(
        diags,
        vec![diagnostic("E0003", "type mismatch", 16, 32, Some("bool"), Some("i64"))]
    );
}

#[test]
fn typecheck_operands_mismatch() {
    let src = "fn f(a: i64, b: bool) -> i64 { a + b }";
    let diags = check(src).diagnostics;
    assert_eq!(diags.len(), 1);
    assert_eq!(diags[0].code, "E0003");
    assert_eq!(diags[0].expected.as_deref(), Some("i64"));
    assert_eq!(diags[0].actual.as_deref(), Some("bool"));
    // the whole is then of type `<error>`, and the body reports nothing more
}

#[test]
fn typecheck_logical_wants_bool() {
    let src = "fn f(a: i64) -> bool { a && true }";
    let diags = check(src).diagnostics;
    assert_eq!(diags.len(), 1);
    assert_eq!(diags[0].code, "E0003");
    assert_eq!(diags[0].expected.as_deref(), Some("bool"));
    assert_eq!(diags[0].actual.as_deref(), Some("i64"));
}

#[test]
fn typecheck_return_mismatch() {
    let src = "fn f() -> i64 { return true; }";
    let diags = check(src).diagnostics;
    let codes: Vec<&str> = diags.iter().map(|d| d.code.as_str()).collect();
    assert_eq!(codes, vec!["E0004", "E0004"]);
    assert_eq!(diags[0].span, Span { start: 16, end: 28 });
    assert_eq!(diags[0].expected.as_deref(), Some("i64"));
    assert_eq!(diags[0].actual.as_deref(), Some("bool"));
    assert_eq!(diags[1].actual.as_deref(), Some("()"));
}

#[test]
fn typecheck_condition_must_be_bool() {
    let src = "fn f() -> i64 { if 1 {2} else {3} }";
    let diags = check(src).diagnostics;
    assert_eq!(diags.len(), 1);
    assert_eq!(diags[0].code, "E0005");
    assert_eq!(diags[0].span, Span { start: 19, end: 20 });
    assert_eq!(diags[0].expected.as_deref(), Some("bool"));
    assert_eq!(diags[0].actual.as_deref(), Some("i64"));
}

#[test]
fn typecheck_branches_must_agree() {
    let src = "fn f() -> i64 { if true {2} else {false} }";
    let diags = check(src).diagnostics;
    assert_eq!(diags.len(), 1);
    assert_eq!(diags[0].code, "E0006");
    assert_eq!(diags[0].expected.as_deref(), Some("i64"));
    assert_eq!(diags[0].actual.as_deref(), Some("bool"));
}

#[test]
fn typecheck_annotation_counts_whatever_the_pattern() {
    let diags = check("fn f() { let _: bool = 1; }").diagnostics;
    assert_eq!(diags.len(), 1);
    assert_eq!(diags[0].code, "E0003");
    assert_eq!(diags[0].expected.as_deref(), Some("bool"));
    assert_eq!(diags[0].actual.as_deref(), Some("i64"));
    assert!(check("fn f() { let _: i64 = 1; }").diagnostics.is_empty());
}

#[test]
fn typecheck_if_without_else_is_unit() {
    assert!(check("fn f(){if true{1}}").diagnostics.is_empty());
    assert!(check("fn f() { if true { 1 }; }").diagnostics.is_empty());
    let diags = check("fn f() -> i64 { if true { 1 } }").diagnostics;
    assert_eq!(diags.len(), 1);
    assert_eq!(diags[0].code, "E0004");
    assert_eq!(diags[0].expected.as_deref(), Some("i64"));
    assert_eq!(diags[0].actual.as_deref(), Some("()"));
    let diags = check("fn f() { if 1 { x } }").diagnostics;
    let codes: Vec<&str> = diags.iter().map(|d| d.code.as_str()).collect();
    assert_eq!(codes, vec!["E0005", "E0001"]);
}

#[test]
fn typecheck_arms_must_agree() {
    let src = "fn f(x: i64) -> i64 { match x {1=>2,_=>true,} }";
    let diags = check(src).diagnostics;
    assert_eq!(diags.len(), 1);
    assert_eq!(diags[0].code, "E0007");
    assert_eq!(diags[0].expected.as_deref(), Some("i64"));
    assert_eq!(diags[0].actual.as_deref(), Some("bool"));
}

#[test]
fn typecheck_unknown_goes_with_everything() {
    let src = "fn f(a: i64) -> bool { let x: string = g(a); h(x).y }";
    assert!(check(src).diagnostics.is_empty());
    let src = "fn f(p: Point) -> Point { p }";
    assert!(check(src).diagnostics.is_empty());
}

#[test]
fn typecheck_literals_and_scopes() {
    let src = "fn f() -> f64 { let a = 1.5; let b = \"s\"; let c = b\"x\"; let a = 2.5; a }";
    assert!(check(src).diagnostics.is_empty());
    let src = "fn f() -> i64 { let a = 1; 2 } fn g() -> i64 { a }";
    let diags = check(src).diagnostics;
    assert_eq!(diags.len(), 1);
    assert_eq!(diags[0].code, "E0001");
    assert_eq!(diags[0].actual.as_deref(), Some("a"));
}

#[test]
fn typecheck_type_names_are_trimmed() {
    // the type ends with the white space before the end of the source
    let src = "fn f() -> i64:: ";
    let diags = check(src).diagnostics;
    assert_eq!(diags.len(), 1);
    assert_eq!(diags[0].code, "E0004");
    assert_eq!(diags[0].expected.as_deref(), Some("i64::"));
    assert_eq!(diags[0].actual.as_deref(), Some("()"));
}
