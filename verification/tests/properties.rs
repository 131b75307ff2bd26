use jalm::formatter::format_source;
use jalm::parser::parse;
use jalm::roundtrip::round_trip;
use jalm::syntax::SyntaxKind;
use jalm::tree::{dump_tree, to_string_lossless, SyntaxElement, SyntaxNode};

const SOURCES: &[&str] = &[
    "",
    "fn f()->i64{a+b}",
    "fn f()->i64{let x=1}",
    "fn f()->i64{let x=@}",
    "fn f()->i64{let x=1;",
    "fn f(a:",
    "pub fn",
    "pub",
    "struct S{a:",
    "enum E{A(",
    "match",
    "fn f(){match x{1=>",
    "fn f(){if",
    "fn f(){((((",
    "}}}}",
    "use a::b::;mod;",
    "fn f() { g(1,2,).h.i(j)(k); }",
    "fn f() { \"never closed",
    "fn \u{e9}() { \u{4e2d} }\n// \u{1f600}",
    "fn f() -> i64 !{fs, net,} { fs::read(p); 1 }",
    "mod foo;use crate::foo::bar as baz;struct User{id:i64;}enum Opt{Some(i64);None;}",
];

const CLEAN: &[&str] = &[
    "fn f()->i64{a+b}",
    "fn f(a:i64)->i64{let x=1+2;return x;}",
    "fn f(a:i64)->i64{if true{foo(1+2).bar}else{match x{1=>2,_=>3,}}}",
    "pub async fn g(mut a:i64,b:bool)->i64 !{io,fs}{let mut y:i64=a;y;return y;}",
    "mod foo;use crate::foo::bar as baz;pub struct User{id:i64;name:string;}pub enum Opt{Some(i64,bool);None;}",
    "fn f(){if a{1}else if b{2}else{3}}",
    "fn f(){match x{1=>{a;b},_=>if c{d}else{e},}}",
    "fn f()->i64{a||b&&c==d<e+f*g%h-i/j>=k!=l}",
    "fn f()->i64{((a+b)*(c-d))/(e)}",
    "fn f(){return;}",
    "fn f(){let _=\"two\nlines\";let t:a::b::c=b\"x\";1.5}",
    "fn f(a : x:: y , ) { g ( a , ) ; }",
    "fn f(a: x // c\n, b: y /* d */) -> z // e\n { let t: u /* f */ = 1; }",
    "struct S { a: x:: // c\n y; } use a:: /* c */ b ;",
    "fn f() { /* c */ a /* d */ + /* e */ b // f\n }",
    "fn f ( ) -> i64 ! { } { }",
    "  fn f(){}  \n\n fn g(){} ",
];

fn shape(node: &SyntaxNode, out: &mut String) {
    out.push_str(node.kind.debug_name());
    out.push('(');
    for child in &node.children {
        match child {
            SyntaxElement::Node(inner) => shape(inner, out),
            SyntaxElement::Token(token) => {
                if !token.kind.is_trivia() && token.kind != SyntaxKind::Comma {
                    out.push_str(&token.text);
                    out.push(' ');
                }
            }
        }
    }
    out.push(')');
}

fn shape_of(source: &str) -> String {
    let parsed = parse(source);
    assert!(parsed.errors.is_empty(), "{:?}", parsed.errors);
    let mut out = String::new();
    shape(&parsed.syntax(), &mut out);
    out
}

#[test]
fn round_trip_is_lossless_whatever_the_errors() {
    for source in SOURCES.iter().chain(CLEAN.iter()) {
        let (text, _) = round_trip(source);
        assert_eq!(&text, source);
        let parsed = parse(source);
        assert_eq!(to_string_lossless(&parsed.syntax()), *source);
    }
}

#[test]
fn parse_always_gives_a_root() {
    for source in SOURCES.iter().chain(CLEAN.iter()) {
        let root = parse(source).syntax();
        assert_eq!(root.kind, SyntaxKind::Root);
        assert_eq!(root.start, 0);
        assert_eq!(root.end, source.len());
        assert!(dump_tree(&root).starts_with("Root\n"));
        assert!(!dump_tree(&root).contains("Tombstone"));
    }
}

#[test]
fn parse_errors_come_in_source_order() {
    for source in SOURCES {
        let errors = parse(source).errors;
        for pair in errors.windows(2) {
            assert!(pair[0].span.start <= pair[1].span.start, "{source:?}: {errors:?}");
        }
        for error in &errors {
            assert!(error.span.start <= error.span.end && error.span.end <= source.len());
        }
    }
    // at the end of the source an error stands at the end, not at the start
    let errors = parse("fn f(a:").errors;
    assert!(errors.len() >= 2);
    assert!(errors.iter().all(|e| e.span.start == 7 && e.span.end == 7));
}

#[test]
fn clean_sources_parse_without_errors() {
    for source in CLEAN {
        assert!(parse(source).errors.is_empty(), "{source:?}");
    }
}

#[test]
fn formatting_is_idempotent() {
    for source in CLEAN {
        let once = format_source(source).expect("format once");
        let twice = format_source(&once).expect("format twice");
        assert_eq!(once, twice, "{source:?}");
    }
}

#[test]
fn formatting_keeps_the_shape_of_the_tree() {
    for source in CLEAN {
        let formatted = format_source(source).expect("format");
        assert_eq!(shape_of(source), shape_of(&formatted), "{source:?}");
    }
}

#[test]
fn precedence_shapes_the_tree() {
    assert_eq!(
        shape_of("fn f(){a+b*c}"),
        "Root(FnDecl(fn IdentNode(f )( ParamList() )Block({ StmtList(BinExpr(IdentNode(a )+ BinExpr(IdentNode(b )* IdentNode(c ))))} )))"
    );
    assert_eq!(
        shape_of("fn f(){(a+b)*c}"),
        "Root(FnDecl(fn IdentNode(f )( ParamList() )Block({ StmtList(BinExpr(ParenExpr(( BinExpr(IdentNode(a )+ IdentNode(b ))) )* IdentNode(c )))} )))"
    );
    // every operator associates to the left
    assert_eq!(
        shape_of("fn f(){a-b-c}"),
        "Root(FnDecl(fn IdentNode(f )( ParamList() )Block({ StmtList(BinExpr(BinExpr(IdentNode(a )- IdentNode(b ))- IdentNode(c )))} )))"
    );
    assert_eq!(
        shape_of("fn f(){a||b&&c}"),
        "Root(FnDecl(fn IdentNode(f )( ParamList() )Block({ StmtList(BinExpr(IdentNode(a )|| BinExpr(IdentNode(b )&& IdentNode(c ))))} )))"
    );
}

#[test]
fn tail_expression_and_statement_differ_by_the_semicolon() {
    assert_eq!(
        shape_of("fn f(){a;b}"),
        "Root(FnDecl(fn IdentNode(f )( ParamList() )Block({ StmtList(ExprStmt(IdentNode(a ); )IdentNode(b ))} )))"
    );
}

#[test]
fn trivia_stays_in_the_tree() {
    let (text, tree) = round_trip("fn f() { /*c*/ x // d\n }");
    assert_eq!(text, "fn f() { /*c*/ x // d\n }");
    assert!(tree.contains("Comment '/*c*/'"));
    assert!(tree.contains("Comment '// d'"));
    assert!(tree.contains("Whitespace '\\n '"));
}

#[test]
fn item_keywords_are_found_behind_trivia() {
    assert!(parse("pub fn f(){}").errors.is_empty());
    assert!(parse("pub /*c*/ async\nfn f(){}").errors.is_empty());
    assert!(parse("pub struct S{}").errors.is_empty());
    assert!(parse("pub\tenum E{}").errors.is_empty());
    let errors = parse("pub mod m;").errors;
    assert_eq!(errors[0].message, "expected 'fn', 'struct', or 'enum' after 'pub'");
    let errors = parse("x").errors;
    assert_eq!(errors.len(), 1);
    assert_eq!(errors[0].message, "expected item");
}

#[test]
fn root_holds_items_trivia_and_error_nodes_only() {
    for source in ["pub mod m;", "pub", "x y", "pub 1 fn f(){} }", " mod m; @ use a; "] {
        let root = parse(source).syntax();
        for child in &root.children {
            match child {
                SyntaxElement::Node(node) => assert!(matches!(
                    node.kind,
                    SyntaxKind::ModuleDecl
                        | SyntaxKind::UseDecl
                        | SyntaxKind::FnDecl
                        | SyntaxKind::StructDecl
                        | SyntaxKind::EnumDecl
                        | SyntaxKind::Error
                )),
                SyntaxElement::Token(token) => assert!(token.kind.is_trivia(), "{source:?}"),
            }
        }
    }
}
