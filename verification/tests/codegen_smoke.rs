use jalm::codegen::{code_total_with, compile_to_wasm, Diagnostic};
use wasmtime::{Engine, Instance, Module, Store};

fn run_main(source: &str) -> i64 {
    let wasm = compile_to_wasm(source).expect("compile ok");
    let engine = Engine::default();
    let module = Module::new(&engine, wasm).expect("wasm module");
    let mut store = Store::new(&engine, ());
    let instance = Instance::new(&mut store, &module, &[]).expect("instance");
    let main = instance
        .get_typed_func::<(), i64>(&mut store, "main")
        .expect("main func");
    main.call(&mut store, ()).expect("call main")
}

fn codes(source: &str) -> Vec<(String, String)> {
    compile_to_wasm(source)
        .unwrap_err()
        .into_iter()
        .map(|d: Diagnostic| (d.code, d.message))
        .collect()
}

#[test]
fn compile_and_run_simple_main() {
    let source = r#"
fn main() -> i64 {
  return 42;
}
"#;
    assert_eq!(run_main(source), 42);
}

#[test]
fn compile_with_let_and_call() {
    let source = r#"
fn add(a: i64, b: i64) -> i64 {
  return a + b;
}

fn main() -> i64 {
  let x: i64 = add(10, 32);
  return x;
}
"#;
    assert_eq!(run_main(source), 42);
}

#[test]
fn unknown_function_reports_error() {
    let source = r#"
fn main() -> i64 {
  return nope();
}
"#;
    let errs = compile_to_wasm(source).unwrap_err();
    assert!(errs.iter().any(|d| d.code == "E2005"));
}

#[test]
fn compile_terse_sources() {
    assert_eq!(run_main("fn main() -> i64 { return 42; }"), 42);
    let source = "fn add(a:i64,b:i64)->i64{return a+b;} fn main()->i64{let x:i64=add(10,32);return x;}";
    assert_eq!(run_main(source), 42);
}

#[test]
fn compile_arithmetic_and_branches() {
    // an `if` is compiled where it is the last statement of its block
    let source = "fn main() { let a = 7; let b = (a + 3) * 4 - 10 / 5; if a < b { return b; } else { return a; } }";
    assert_eq!(run_main(source), 38);
    let source = "fn pick(n: i64) { if n == 1 { return 10; } else if n == 2 { return 20; } } fn main() -> i64 { return pick(1) + pick(2) + pick(3); }";
    assert_eq!(run_main(source), 30);
    let source = "fn main() { let a = 1; if a >= 1 { if a != 1 { return 3; } else { return 4; } } }";
    assert_eq!(run_main(source), 4);
    // there is no unary minus: the source does not parse
    let source = "fn main() -> i64 { let x = -0; return 9223372036854775807; }";
    assert!(compile_to_wasm(source).is_err());
    let source = "fn main() -> i64 { return 9223372036854775807; }";
    assert_eq!(run_main(source), i64::MAX);
}

#[test]
fn compile_refuses_parse_errors() {
    assert_eq!(
        codes("fn main() -> i64 { return 1 }"),
        vec![
            ("E2000".to_string(), "expected Semi".to_string()),
            ("E2000".to_string(), "expected RBrace".to_string()),
        ]
    );
}

#[test]
fn compile_reports_each_fault() {
    assert_eq!(
        codes("mod m;"),
        vec![("E2001".to_string(), "no functions found".to_string())]
    );
    assert_eq!(
        codes("fn f(a: bool, b: i64, c: i32) -> bool { return z; } fn g() -> i64 { return h(y); }"),
        vec![
            ("E2002".to_string(), "only i64 params supported".to_string()),
            ("E2002".to_string(), "only i64 params supported".to_string()),
            ("E2003".to_string(), "only i64 return supported".to_string()),
            ("E2004".to_string(), "unknown local z".to_string()),
            ("E2004".to_string(), "unknown local y".to_string()),
            ("E2005".to_string(), "unknown function h".to_string()),
        ]
    );
}

#[test]
fn compile_reports_unsupported_types() {
    assert_eq!(
        codes("fn main()->string{return 1;}"),
        vec![("E2003".to_string(), "only i64 return supported".to_string())]
    );
    assert_eq!(
        codes("fn f(a: string, b: i64) -> i64 { return a + b; }"),
        vec![("E2002".to_string(), "only i64 params supported".to_string())]
    );
    assert_eq!(
        codes("fn f(p: a::B) -> f64 { return 1; }"),
        vec![
            ("E2002".to_string(), "only i64 params supported".to_string()),
            ("E2003".to_string(), "only i64 return supported".to_string()),
        ]
    );
}

#[test]
fn code_section_counts_each_body_with_its_size() {
    assert_eq!(code_total_with(0, 5), Some(6));
    assert_eq!(code_total_with(6, 127), Some(134));
    assert_eq!(code_total_with(6, 128), Some(136));
    assert_eq!(code_total_with(4294967162, 127), Some(4294967290));
    assert_eq!(code_total_with(4294967163, 127), None);
    assert_eq!(code_total_with(0, 4294967285), Some(4294967290));
    assert_eq!(code_total_with(0, 4294967286), None);
    assert_eq!(code_total_with(u64::MAX, 1), None);
}

#[test]
fn compile_emits_the_four_sections_in_order() {
    let wasm = compile_to_wasm("fn main() -> i64 { return 42; }").expect("compile ok");
    let expected: Vec<u8> = vec![
        0x00, 0x61, 0x73, 0x6d, 0x01, 0x00, 0x00, 0x00, // header
        0x01, 0x05, 0x01, 0x60, 0x00, 0x01, 0x7e, // types: () -> i64
        0x03, 0x02, 0x01, 0x00, // functions: type 0
        0x07, 0x08, 0x01, 0x04, 0x6d, 0x61, 0x69, 0x6e, 0x00, 0x00, // exports: main
        0x0a, 0x07, 0x01, 0x05, 0x00, 0x42, 0x2a, 0x0f, 0x0b, // code
    ];
    assert_eq!(wasm, expected);
}

#[test]
fn compile_without_declared_result_returns_zero() {
    let wasm = compile_to_wasm("fn helper() { let x = 1; }").expect("compile ok");
    // no export, one local, and `i64.const 0` before `end`
    let expected: Vec<u8> = vec![
        0x00, 0x61, 0x73, 0x6d, 0x01, 0x00, 0x00, 0x00, 0x01, 0x05, 0x01, 0x60, 0x00, 0x01, 0x7e,
        0x03, 0x02, 0x01, 0x00, 0x07, 0x01, 0x00, 0x0a, 0x0c, 0x01, 0x0a, 0x01, 0x01, 0x7e, 0x42,
        0x01, 0x21, 0x00, 0x42, 0x00, 0x0b,
    ];
    assert_eq!(wasm, expected);
}
