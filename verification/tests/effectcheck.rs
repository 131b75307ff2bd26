use jalm::effectcheck::{check, Diagnostic, Span};

fn undeclared(required: &str, start: usize, end: usize) -> Diagnostic {
    Diagnostic {
        code: "E1001".to_string(),
        message: "undeclared effect".to_string(),
        span: Span { start, end },
        required: required.to_string(),
    }
}

#[test]
fn effectcheck_ok() {
    let src = "fn f() -> i64 !{fs} { fs::read(path); 1 }";
    let diags = check(src).diagnostics;
    assert!(diags.is_empty());
}

#[test]
fn effectcheck_missing_fs() {
    let src = "fn f() -> i64 { fs::read(path); 1 }";
    let diags = check(src).diagnostics;
    assert_eq!(diags, vec![undeclared("fs", 16, 20)]);
}

#[test]
fn effectcheck_missing_net_http() {
    let src = "fn f() -> i64 { http::serve(); 1 }";
    let diags = check(src).diagnostics;
    assert_eq!(diags, vec![undeclared("net", 16, 22)]);
}

#[test]
fn effectcheck_reports_in_source_order() {
    let src = "fn f() -> i64 !{io} { \"log::a time::b fs::c time::d\"; 1 }";
    let diags = check(src).diagnostics;
    assert_eq!(
        diags,
        vec![undeclared("time", 30, 36), undeclared("fs", 38, 42), undeclared("time", 44, 50)]
    );
}

#[test]
fn effectcheck_prefixes_side_by_side() {
    let src = "fn f() -> i64 { \"time::fs::\"; 1 }";
    let diags = check(src).diagnostics;
    assert_eq!(diags, vec![undeclared("time", 17, 23), undeclared("fs", 23, 27)]);
}

#[test]
fn effectcheck_starts_never_decrease() {
    let sources = [
        "fn f() { \"ffi::a log::b rand::c time::d http::e net::f fs::g\"; }",
        "fn f() !{fs} { /* net::fs::net:: */ } fn g() { /* rand::rand:: */ }",
        "fn g() { \"fs::\"; } mod m; fn h() !{net} { \"time::http::fs::\"; }",
        "fn f() { // log::fs::log::\n }",
    ];
    for src in sources {
        let diags = check(src).diagnostics;
        assert!(!diags.is_empty(), "{src:?}");
        for pair in diags.windows(2) {
            assert!(pair[0].span.start <= pair[1].span.start, "{src:?}");
        }
        for d in &diags {
            assert!(src[d.span.start..d.span.end].ends_with("::"), "{src:?}");
        }
    }
}

#[test]
fn effectcheck_unknown_names_are_ignored() {
    let src = "fn f() -> i64 !{disk, rand} { /* rand::next ffi::call */ 1 }";
    let diags = check(src).diagnostics;
    assert_eq!(diags, vec![undeclared("ffi", 44, 49)]);
}

#[test]
fn effectcheck_scans_text_even_in_comments() {
    let src = "fn f() -> i64 { /* net::x */ \"fs::y\"; 1 }";
    let diags = check(src).diagnostics;
    assert_eq!(diags, vec![undeclared("net", 19, 24), undeclared("fs", 30, 34)]);
}

#[test]
fn effectcheck_sees_the_block_as_far_as_it_was_parsed() {
    // a path is no expression: the block ends at the first `::`
    let src = "fn f() -> i64 { fs::read(p); net::get(q); 1 }";
    let diags = check(src).diagnostics;
    assert_eq!(diags, vec![undeclared("fs", 16, 20)]);
}

#[test]
fn effectcheck_each_function_by_its_own_set() {
    let src = "fn f() -> i64 !{fs} { \"fs::a\"; 1 } fn g() -> i64 { \"fs::a\"; 1 }";
    let diags = check(src).diagnostics;
    assert_eq!(diags, vec![undeclared("fs", 52, 56)]);
}

#[test]
fn effectcheck_finds_every_occurrence() {
    const PIECES: &[&str] =
        &["fs::", "net::", "http::", "time::", "rand::", "log::", "ffi::", "a", " ", "::", "f", "s:"];
    const TABLE: &[(&str, &str)] = &[
        ("fs::", "fs"),
        ("net::", "net"),
        ("http::", "net"),
        ("time::", "time"),
        ("rand::", "rand"),
        ("log::", "io"),
        ("ffi::", "ffi"),
    ];
    let mut state: u64 = 7;
    for _ in 0..300 {
        let mut text = String::new();
        for _ in 0..12 {
            state = state.wrapping_mul(6364136223846793005).wrapping_add(1442695040888963407);
            text.push_str(PIECES[((state >> 33) % PIECES.len() as u64) as usize]);
        }
        let src = format!("fn f() {{ /*{text}*/ }}");
        let block = src.find('{').unwrap();
        let mut expected = Vec::new();
        for (prefix, effect) in TABLE {
            for (at, _) in src[block..].match_indices(prefix) {
                expected.push(undeclared(effect, block + at, block + at + prefix.len()));
            }
        }
        expected.sort_by_key(|d| d.span.start);
        assert_eq!(check(&src).diagnostics, expected, "{src:?}");
    }
}
