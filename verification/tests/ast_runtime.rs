use jalm::ast::{children, AstNode, Block, FnDecl, Ident, Let, Param, Struct};
use jalm::parser::parse;
use jalm::runtime::{align_up, copy_len, ensure_memory, pages_needed, reserve};
use jalm::syntax::SyntaxKind;

#[test]
fn typed_children_are_the_nodes_of_the_kind() {
    let root = parse("struct S{a:i64;} fn f(x:i64,y:i64){let a=1;let b=2;} fn g(){}").syntax();
    let functions: Vec<FnDecl> = children(&root);
    assert_eq!(functions.len(), 2);
    let structs: Vec<Struct> = children(&root);
    assert_eq!(structs.len(), 1);
    assert_eq!(structs[0].syntax().kind, SyntaxKind::StructDecl);
    let names: Vec<Ident> = children(functions[0].syntax());
    assert_eq!(names.len(), 1);
    let blocks: Vec<Block> = children(functions[0].syntax());
    assert_eq!(blocks.len(), 1);
    let lists: Vec<Param> = children(functions[0].syntax());
    assert!(lists.is_empty());
    let stmts = &blocks[0].syntax().children;
    let list = stmts
        .iter()
        .find_map(|e| match e {
            jalm::tree::SyntaxElement::Node(n) if n.kind == SyntaxKind::StmtList => Some(n),
            _ => None,
        })
        .expect("statements");
    let lets: Vec<Let> = children(list);
    assert_eq!(lets.len(), 2);
}

#[test]
fn casts_go_by_the_kind() {
    let root = parse("fn f(){}").syntax();
    assert!(FnDecl::can_cast(SyntaxKind::FnDecl));
    assert!(!FnDecl::can_cast(SyntaxKind::Block));
    assert!(FnDecl::cast(&root).is_none());
    let functions: Vec<FnDecl> = children(&root);
    assert!(FnDecl::cast(functions[0].syntax()).is_some());
    assert!(Block::cast(functions[0].syntax()).is_none());
}

#[test]
fn regions_are_aligned_and_follow_each_other() {
    assert_eq!(align_up(0), 0);
    assert_eq!(align_up(1), 8);
    assert_eq!(align_up(8), 8);
    assert_eq!(align_up(9), 16);
    assert_eq!(reserve(0, 1000, 8), Some((1000, 1008)));
    assert_eq!(reserve(0, 1001, 0), Some((1008, 1016)));
    assert_eq!(reserve(1016, 1000, 3), Some((1016, 1024)));
    assert_eq!(reserve(1017, 1000, 17), Some((1024, 1048)));
    assert_eq!(reserve(16, 0, usize::MAX), None);
    assert_eq!(reserve(usize::MAX - 3, 0, 1), None);
    assert_eq!(reserve(usize::MAX - 15, 0, 16), None);
    assert_eq!(reserve(usize::MAX - 23, 0, 16), Some((usize::MAX - 23, usize::MAX - 7)));
}

#[test]
fn memory_is_counted_in_pages() {
    assert_eq!(pages_needed(0), 0);
    assert_eq!(pages_needed(1), 1);
    assert_eq!(pages_needed(65536), 1);
    assert_eq!(pages_needed(65537), 2);
    assert!(ensure_memory(1024, 0, 1024));
    assert!(!ensure_memory(1025, 0, 1024));
    assert!(ensure_memory(usize::MAX, usize::MAX - 8, 8));
    assert!(ensure_memory(5, 10, 0));
    assert_eq!(copy_len(3, 8), 3);
    assert_eq!(copy_len(8, 3), 3);
}
