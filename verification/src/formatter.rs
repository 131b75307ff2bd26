//! The formatter: a tree printed with canonical spacing.
//!
//! What is printed is stated as spec functions on the tree ([`fmt_root`]
//! and what it calls); the executable formatter is proved to print exactly
//! that.

use crate::green::MAX_TEXT_LEN;
use crate::parser::{is_parse_of, parse, Parse, ParseError};
use crate::query::{
    expr_after, find_expr_after_token, find_node, find_return_type, find_token, first_node,
    first_token, index_of, is_expr, is_expr_kind, is_stmt, is_stmt_kind, last_node,
    lemma_not_found, node_from, return_type, token_from, Pick,
};
use crate::syntax::SyntaxKind;
use crate::text::{trim, trimmed};
use crate::tree::{node_events, node_text, to_string_lossless, SyntaxElement, SyntaxNode};
use vstd::prelude::*;
use vstd::string::*;

verus! {

/// Why a source was not formatted.
#[derive(Debug)]
pub enum FormatError {
    /// The source has parse errors; they are handed back.
    ParseErrors(Vec<ParseError>),
}

/// A line break followed by the indentation `pad`.
pub open spec fn newline(pad: Seq<char>) -> Seq<char> {
    "\n"@ + pad
}

/// The indentation one level deeper than `pad`.
pub open spec fn deeper(pad: Seq<char>) -> Seq<char> {
    pad + "  "@
}

/// The text of the first token of the sort `pick`, or nothing.
pub open spec fn token_text(node: SyntaxNode, pick: Pick) -> Seq<char> {
    match first_token(node, pick) {
        Some(token) => token.text@,
        None => Seq::empty(),
    }
}

/// The name in the first `IdentNode` child, or nothing.
pub open spec fn name_of(node: SyntaxNode) -> Seq<char> {
    match first_node(node, Pick::Node(SyntaxKind::IdentNode)) {
        Some(ident) => token_text(ident, Pick::Token(SyntaxKind::Ident)),
        None => Seq::empty(),
    }
}

/// The text of the given word and a space if `node` has a token of the
/// given kind, else nothing.
pub open spec fn modifier(node: SyntaxNode, kind: SyntaxKind, word: Seq<char>) -> Seq<char> {
    if first_token(node, Pick::Token(kind)) is Some {
        word
    } else {
        Seq::empty()
    }
}

/// A type: the text of the node without white space at its ends.
pub open spec fn fmt_type(node: SyntaxNode) -> Seq<char> {
    trimmed(node_text(node))
}

/// A colon and the first `Type` child, or nothing.
pub open spec fn fmt_annotation(node: SyntaxNode) -> Seq<char> {
    match first_node(node, Pick::Node(SyntaxKind::Type)) {
        Some(ty) => ": "@ + fmt_type(ty),
        None => Seq::empty(),
    }
}

/// The kinds of the items that a root prints.
pub open spec fn is_item(kind: SyntaxKind) -> bool {
    kind == SyntaxKind::ModuleDecl || kind == SyntaxKind::UseDecl || kind == SyntaxKind::FnDecl
        || kind == SyntaxKind::StructDecl || kind == SyntaxKind::EnumDecl
}

/// The whole tree: the items, with one blank line between each two.
pub open spec fn fmt_root(node: SyntaxNode) -> Seq<char> {
    root_from(node, 0, true)
}

/// The items of `node` from child `i` on.
pub open spec fn root_from(node: SyntaxNode, i: nat, first: bool) -> Seq<char>
    decreases node.children@.len() - i,
{
    if i >= node.children@.len() {
        Seq::empty()
    } else {
        match node.children@[i as int] {
            SyntaxElement::Node(item) => if is_item(item.kind) {
                (if first {
                    Seq::empty()
                } else {
                    newline(Seq::empty()) + newline(Seq::empty())
                }) + fmt_item(item) + root_from(node, i + 1, false)
            } else {
                root_from(node, i + 1, first)
            },
            SyntaxElement::Token(_) => root_from(node, i + 1, first),
        }
    }
}

/// One item.
pub open spec fn fmt_item(node: SyntaxNode) -> Seq<char> {
    match node.kind {
        SyntaxKind::ModuleDecl => fmt_module_decl(node),
        SyntaxKind::UseDecl => fmt_use_decl(node),
        SyntaxKind::FnDecl => fmt_fn_decl(node),
        SyntaxKind::StructDecl => fmt_struct_decl(node),
        SyntaxKind::EnumDecl => fmt_enum_decl(node),
        _ => Seq::empty(),
    }
}

/// `mod name;`
pub open spec fn fmt_module_decl(node: SyntaxNode) -> Seq<char> {
    "mod "@ + name_of(node) + ";"@
}

/// `use a::b as c;`
pub open spec fn fmt_use_decl(node: SyntaxNode) -> Seq<char> {
    "use "@ + fmt_use_path(node) + fmt_alias(node) + ";"@
}

/// The path of a `use`: the names of its `UsePath` child, joined by `::`.
pub open spec fn fmt_use_path(node: SyntaxNode) -> Seq<char> {
    match first_node(node, Pick::Node(SyntaxKind::UsePath)) {
        Some(path) => path_from(path, 0),
        None => Seq::empty(),
    }
}

/// The names and separators of a path from child `i` on.
pub open spec fn path_from(path: SyntaxNode, i: nat) -> Seq<char>
    decreases path.children@.len() - i,
{
    if i >= path.children@.len() {
        Seq::empty()
    } else {
        (match path.children@[i as int] {
            SyntaxElement::Node(part) => if part.kind == SyntaxKind::IdentNode {
                token_text(part, Pick::Token(SyntaxKind::Ident))
            } else {
                Seq::empty()
            },
            SyntaxElement::Token(token) => if token.kind == SyntaxKind::ColonColon {
                "::"@
            } else {
                Seq::empty()
            },
        }) + path_from(path, i + 1)
    }
}

/// The name behind the `as` of a `use`.
pub open spec fn alias_of(node: SyntaxNode) -> Option<Seq<char>> {
    match token_from(node, Pick::Token(SyntaxKind::KwAs), 0) {
        Some((j, _)) => match node_from(node, Pick::Node(SyntaxKind::IdentNode), j + 1) {
            Some((_, ident)) => match first_token(ident, Pick::Token(SyntaxKind::Ident)) {
                Some(token) => Some(token.text@),
                None => None,
            },
            None => None,
        },
        None => None,
    }
}

/// ` as name` where the `use` has an `as` with a name behind it.
pub open spec fn fmt_alias(node: SyntaxNode) -> Seq<char> {
    match alias_of(node) {
        Some(name) => " as "@ + name,
        None => Seq::empty(),
    }
}

/// `pub async fn name(p: T, q: U) -> R !{e} { .. }`
pub open spec fn fmt_fn_decl(node: SyntaxNode) -> Seq<char> {
    fmt_signature(node) + fmt_result(node) + fmt_effects(node) + fmt_body(node)
}

/// `pub async fn name(p: T, q: U)`
pub open spec fn fmt_signature(node: SyntaxNode) -> Seq<char> {
    modifier(node, SyntaxKind::KwPub, "pub "@) + modifier(node, SyntaxKind::KwAsync, "async "@)
        + "fn "@ + name_of(node) + match first_node(node, Pick::Node(SyntaxKind::ParamList)) {
        Some(params) => "("@ + params_from(params, 0, true) + ")"@,
        None => "()"@,
    }
}

/// ` -> R` where the function declares a result.
pub open spec fn fmt_result(node: SyntaxNode) -> Seq<char> {
    match return_type(node) {
        Some(ty) => " -> "@ + fmt_type(ty),
        None => Seq::empty(),
    }
}

/// ` !{e}` where the function declares effects.
pub open spec fn fmt_effects(node: SyntaxNode) -> Seq<char> {
    match first_node(node, Pick::Node(SyntaxKind::EffectSet)) {
        Some(effects) => " "@ + fmt_effect_set(effects),
        None => Seq::empty(),
    }
}

/// ` { .. }` where the function has a body.
pub open spec fn fmt_body(node: SyntaxNode) -> Seq<char> {
    match first_node(node, Pick::Node(SyntaxKind::Block)) {
        Some(body) => " "@ + fmt_block(body, Seq::empty()),
        None => Seq::empty(),
    }
}

/// The parameters of a list from child `i` on, separated by `, `.
pub open spec fn params_from(list: SyntaxNode, i: nat, first: bool) -> Seq<char>
    decreases list.children@.len() - i,
{
    if i >= list.children@.len() {
        Seq::empty()
    } else {
        match list.children@[i as int] {
            SyntaxElement::Node(param) => if param.kind == SyntaxKind::Param {
                (if first {
                    Seq::empty()
                } else {
                    ", "@
                }) + fmt_param(param) + params_from(list, i + 1, false)
            } else {
                params_from(list, i + 1, first)
            },
            SyntaxElement::Token(_) => params_from(list, i + 1, first),
        }
    }
}

/// `mut name: T`
pub open spec fn fmt_param(node: SyntaxNode) -> Seq<char> {
    modifier(node, SyntaxKind::KwMut, "mut "@) + name_of(node) + fmt_annotation(node)
}

/// `!{a, b}`
pub open spec fn fmt_effect_set(node: SyntaxNode) -> Seq<char> {
    "!{"@ + effects_from(node, 0, true) + "}"@
}

/// The names of an effect set from child `i` on, separated by `, `.
pub open spec fn effects_from(set: SyntaxNode, i: nat, first: bool) -> Seq<char>
    decreases set.children@.len() - i,
{
    if i >= set.children@.len() {
        Seq::empty()
    } else {
        match set.children@[i as int] {
            SyntaxElement::Node(ident) => if ident.kind == SyntaxKind::IdentNode {
                (if first {
                    Seq::empty()
                } else {
                    ", "@
                }) + token_text(ident, Pick::Token(SyntaxKind::Ident)) + effects_from(
                    set,
                    i + 1,
                    false,
                )
            } else {
                effects_from(set, i + 1, first)
            },
            SyntaxElement::Token(_) => effects_from(set, i + 1, first),
        }
    }
}

/// A struct: its fields, each on a line of its own.
pub open spec fn fmt_struct_decl(node: SyntaxNode) -> Seq<char> {
    modifier(node, SyntaxKind::KwPub, "pub "@) + "struct "@ + name_of(node) + " {"@ + fields_from(
        node,
        0,
    ) + newline(Seq::empty()) + "}"@
}

/// The fields of a struct from child `i` on.
pub open spec fn fields_from(node: SyntaxNode, i: nat) -> Seq<char>
    decreases node.children@.len() - i,
{
    if i >= node.children@.len() {
        Seq::empty()
    } else {
        (match node.children@[i as int] {
            SyntaxElement::Node(field) => if field.kind == SyntaxKind::StructField {
                newline(deeper(Seq::empty())) + name_of(field) + fmt_annotation(field) + ";"@
            } else {
                Seq::empty()
            },
            SyntaxElement::Token(_) => Seq::empty(),
        }) + fields_from(node, i + 1)
    }
}

/// An enum: its variants, each on a line of its own.
pub open spec fn fmt_enum_decl(node: SyntaxNode) -> Seq<char> {
    modifier(node, SyntaxKind::KwPub, "pub "@) + "enum "@ + name_of(node) + " {"@ + variants_from(
        node,
        0,
    ) + newline(Seq::empty()) + "}"@
}

/// The variants of an enum from child `i` on.
pub open spec fn variants_from(node: SyntaxNode, i: nat) -> Seq<char>
    decreases node.children@.len() - i,
{
    if i >= node.children@.len() {
        Seq::empty()
    } else {
        (match node.children@[i as int] {
            SyntaxElement::Node(variant) => if variant.kind == SyntaxKind::EnumVariant {
                newline(deeper(Seq::empty())) + name_of(variant) + (if first_node(
                    variant,
                    Pick::Node(SyntaxKind::Type),
                ) is Some {
                    "("@ + types_from(variant, 0, true) + ")"@
                } else {
                    Seq::empty()
                }) + ";"@
            } else {
                Seq::empty()
            },
            SyntaxElement::Token(_) => Seq::empty(),
        }) + variants_from(node, i + 1)
    }
}

/// The types of a variant from child `i` on, separated by `, `.
pub open spec fn types_from(variant: SyntaxNode, i: nat, first: bool) -> Seq<char>
    decreases variant.children@.len() - i,
{
    if i >= variant.children@.len() {
        Seq::empty()
    } else {
        match variant.children@[i as int] {
            SyntaxElement::Node(ty) => if ty.kind == SyntaxKind::Type {
                (if first {
                    Seq::empty()
                } else {
                    ", "@
                }) + fmt_type(ty) + types_from(variant, i + 1, false)
            } else {
                types_from(variant, i + 1, first)
            },
            SyntaxElement::Token(_) => types_from(variant, i + 1, first),
        }
    }
}

/// A block: its statements, each on a line of its own one level deeper, the
/// last of them as an expression where it is one.
pub open spec fn fmt_block(node: SyntaxNode, pad: Seq<char>) -> Seq<char>
    decreases node, 1nat, 0nat,
{
    "{"@ + (match first_node(node, Pick::Node(SyntaxKind::StmtList)) {
        Some(stmts) => stmts_from(stmts, 0, deeper(pad)) + if index_of(stmts, Pick::StmtNode, 0)
            is Some {
            newline(pad)
        } else {
            Seq::empty()
        },
        None => Seq::empty(),
    }) + "}"@
}

/// The statements of a list from child `i` on.
pub open spec fn stmts_from(stmts: SyntaxNode, i: nat, pad: Seq<char>) -> Seq<char>
    decreases stmts, 0nat, stmts.children@.len() - i,
{
    if i >= stmts.children@.len() {
        Seq::empty()
    } else {
        (match stmts.children@[i as int] {
            SyntaxElement::Node(stmt) => if is_stmt(stmt.kind) {
                newline(pad) + if index_of(stmts, Pick::AnyNode, i + 1) is None && is_expr(
                    stmt.kind,
                ) {
                    fmt_expr(stmt, 0, pad)
                } else {
                    fmt_stmt(stmt, pad)
                }
            } else {
                Seq::empty()
            },
            SyntaxElement::Token(_) => Seq::empty(),
        }) + stmts_from(stmts, i + 1, pad)
    }
}

/// One statement.
pub open spec fn fmt_stmt(node: SyntaxNode, pad: Seq<char>) -> Seq<char>
    decreases node, 3nat, 0nat,
{
    match node.kind {
        SyntaxKind::LetStmt => fmt_let_stmt(node, pad),
        SyntaxKind::ReturnStmt => fmt_return_stmt(node, pad),
        SyntaxKind::ExprStmt => fmt_expr_stmt(node, pad),
        SyntaxKind::IfExpr => fmt_if_expr(node, pad),
        SyntaxKind::MatchExpr => fmt_match_expr(node, pad),
        SyntaxKind::Block => fmt_block(node, pad),
        _ => fmt_expr(node, 0, pad),
    }
}

/// The first expression behind the first `=`.
pub open spec fn initializer(node: SyntaxNode) -> Option<SyntaxNode> {
    expr_after(node, SyntaxKind::Eq)
}

/// `let mut pattern: T = expr;`
pub open spec fn fmt_let_stmt(node: SyntaxNode, pad: Seq<char>) -> Seq<char>
    decreases node, 1nat, 0nat,
{
    "let "@ + modifier(node, SyntaxKind::KwMut, "mut "@) + (match first_node(
        node,
        Pick::Node(SyntaxKind::Pattern),
    ) {
        Some(pattern) => fmt_pattern(pattern),
        None => Seq::empty(),
    }) + fmt_annotation(node) + " = "@ + (match initializer(node) {
        Some(expr) => fmt_expr(expr, 0, pad),
        None => Seq::empty(),
    }) + ";"@
}

/// `return expr;`
pub open spec fn fmt_return_stmt(node: SyntaxNode, pad: Seq<char>) -> Seq<char>
    decreases node, 1nat, 0nat,
{
    "return"@ + (match first_node(node, Pick::ExprNode) {
        Some(expr) => " "@ + fmt_expr(expr, 0, pad),
        None => Seq::empty(),
    }) + ";"@
}

/// `expr;`
pub open spec fn fmt_expr_stmt(node: SyntaxNode, pad: Seq<char>) -> Seq<char>
    decreases node, 1nat, 0nat,
{
    (match first_node(node, Pick::ExprNode) {
        Some(expr) => fmt_expr(expr, 0, pad),
        None => Seq::empty(),
    }) + ";"@
}

/// `if cond { .. } else { .. }`: the first three child nodes are the
/// condition, the block and what follows `else`.
pub open spec fn fmt_if_expr(node: SyntaxNode, pad: Seq<char>) -> Seq<char>
    decreases node, 1nat, 0nat,
{
    "if "@ + match node_from(node, Pick::AnyNode, 0) {
        Some((c, cond)) => fmt_expr(cond, 0, pad) + fmt_then(node, c + 1, pad),
        None => Seq::empty(),
    }
}

/// The block of an `if`, the first child node at or behind `from`, and what
/// follows it.
pub open spec fn fmt_then(node: SyntaxNode, from: nat, pad: Seq<char>) -> Seq<char>
    decreases node, 0nat, 1nat,
{
    match node_from(node, Pick::AnyNode, from) {
        Some((t, then_block)) => " "@ + fmt_block(then_block, pad) + fmt_else(node, t + 1, pad),
        None => Seq::empty(),
    }
}

/// The `else` of an `if`, the first child node at or behind `from`: a
/// further `if`, or a block.
pub open spec fn fmt_else(node: SyntaxNode, from: nat, pad: Seq<char>) -> Seq<char>
    decreases node, 0nat, 0nat,
{
    match node_from(node, Pick::AnyNode, from) {
        Some((_, else_node)) => " else "@ + if else_node.kind == SyntaxKind::IfExpr {
            fmt_if_expr(else_node, pad)
        } else {
            fmt_block(else_node, pad)
        },
        None => Seq::empty(),
    }
}

/// `match x { arms }`: the first child node is what is matched; the arms
/// follow it, each on a line of its own.
pub open spec fn fmt_match_expr(node: SyntaxNode, pad: Seq<char>) -> Seq<char>
    decreases node, 1nat, 0nat,
{
    "match "@ + (match node_from(node, Pick::AnyNode, 0) {
        Some((s, scrutinee)) => fmt_expr(scrutinee, 0, pad) + " {"@ + arms_from(
            node,
            s + 1,
            deeper(pad),
        ),
        None => " {"@,
    }) + newline(pad) + "}"@
}

/// The arms of a `match` from child `i` on.
pub open spec fn arms_from(node: SyntaxNode, i: nat, pad: Seq<char>) -> Seq<char>
    decreases node, 0nat, node.children@.len() - i,
{
    if i >= node.children@.len() {
        Seq::empty()
    } else {
        (match node.children@[i as int] {
            SyntaxElement::Node(arm) => if arm.kind == SyntaxKind::MatchArm {
                newline(pad) + fmt_match_arm(arm, pad)
            } else {
                Seq::empty()
            },
            SyntaxElement::Token(_) => Seq::empty(),
        }) + arms_from(node, i + 1, pad)
    }
}

/// `pattern => expr,`
pub open spec fn fmt_match_arm(node: SyntaxNode, pad: Seq<char>) -> Seq<char>
    decreases node, 1nat, 0nat,
{
    (match first_node(node, Pick::Node(SyntaxKind::Pattern)) {
        Some(pattern) => fmt_pattern(pattern),
        None => Seq::empty(),
    }) + " => "@ + (match first_node(node, Pick::NodeExcept(SyntaxKind::Pattern)) {
        Some(expr) => fmt_expr(expr, 0, pad),
        None => Seq::empty(),
    }) + ","@
}

/// A pattern: `_`, a literal or a name, whichever is found first in this
/// order.
pub open spec fn fmt_pattern(node: SyntaxNode) -> Seq<char> {
    if first_token(node, Pick::Token(SyntaxKind::Underscore)) is Some {
        token_text(node, Pick::Token(SyntaxKind::Underscore))
    } else if literal_of(node) is Some {
        literal_of(node)->0
    } else {
        name_of(node)
    }
}

/// The text of the literal in the first `LiteralNode` child.
pub open spec fn literal_of(node: SyntaxNode) -> Option<Seq<char>> {
    match first_node(node, Pick::Node(SyntaxKind::LiteralNode)) {
        Some(literal) => match first_token(literal, Pick::LiteralToken) {
            Some(token) => Some(token.text@),
            None => None,
        },
        None => None,
    }
}

/// An expression below an operator that binds with `min_bp`.
pub open spec fn fmt_expr(node: SyntaxNode, min_bp: u8, pad: Seq<char>) -> Seq<char>
    decreases node, 2nat, 0nat,
{
    match node.kind {
        SyntaxKind::BinExpr => fmt_bin_expr(node, min_bp, pad),
        SyntaxKind::CallExpr => fmt_call_expr(node, pad),
        SyntaxKind::MemberExpr => fmt_member_expr(node, pad),
        SyntaxKind::IfExpr => fmt_if_expr(node, pad),
        SyntaxKind::MatchExpr => fmt_match_expr(node, pad),
        SyntaxKind::Block => fmt_block(node, pad),
        SyntaxKind::ParenExpr => fmt_paren_expr(node, pad),
        SyntaxKind::IdentNode => token_text(node, Pick::Token(SyntaxKind::Ident)),
        SyntaxKind::LiteralNode => token_text(node, Pick::LiteralToken),
        _ => Seq::empty(),
    }
}

/// The left and right binding power of an operator, `(0, 0)` for any other
/// kind.
pub open spec fn binding_power(kind: SyntaxKind) -> (u8, u8) {
    match kind {
        SyntaxKind::OrOr => (1u8, 2u8),
        SyntaxKind::AndAnd => (3u8, 4u8),
        SyntaxKind::EqEq | SyntaxKind::Neq => (5u8, 6u8),
        SyntaxKind::Lt | SyntaxKind::Lte | SyntaxKind::Gt | SyntaxKind::Gte => (7u8, 8u8),
        SyntaxKind::Plus | SyntaxKind::Minus => (9u8, 10u8),
        SyntaxKind::Star | SyntaxKind::Slash | SyntaxKind::Percent => (11u8, 12u8),
        _ => (0u8, 0u8),
    }
}

/// `left op right`, in parentheses iff the operator binds less tightly than
/// `min_bp`; nothing where an operand or the operator is missing.  The
/// operands are the first two child nodes.
pub open spec fn fmt_bin_expr(node: SyntaxNode, min_bp: u8, pad: Seq<char>) -> Seq<char>
    decreases node, 1nat, 0nat,
{
    match node_from(node, Pick::AnyNode, 0) {
        Some((l, left)) => match node_from(node, Pick::AnyNode, l + 1) {
            Some((_, right)) => match first_token(node, Pick::OperatorToken) {
                Some(op) => {
                    let (l_bp, r_bp) = binding_power(op.kind);
                    (if l_bp < min_bp {
                        "("@
                    } else {
                        Seq::empty()
                    }) + fmt_expr(left, l_bp, pad) + " "@ + op.text@ + " "@ + fmt_expr(
                        right,
                        r_bp,
                        pad,
                    ) + (if l_bp < min_bp {
                        ")"@
                    } else {
                        Seq::empty()
                    })
                },
                None => Seq::empty(),
            },
            None => Seq::empty(),
        },
        None => Seq::empty(),
    }
}

/// `callee(arg, arg)`: the first child node is the callee, the others are
/// the arguments.
pub open spec fn fmt_call_expr(node: SyntaxNode, pad: Seq<char>) -> Seq<char>
    decreases node, 1nat, 0nat,
{
    match node_from(node, Pick::AnyNode, 0) {
        Some((c, callee)) => fmt_expr(callee, 0, pad) + "("@ + args_from(node, c + 1, true, pad)
            + ")"@,
        None => "()"@,
    }
}

/// The arguments of a call from child `i` on, separated by `, `.
pub open spec fn args_from(node: SyntaxNode, i: nat, first: bool, pad: Seq<char>) -> Seq<char>
    decreases node, 0nat, node.children@.len() - i,
{
    if i >= node.children@.len() {
        Seq::empty()
    } else {
        match node.children@[i as int] {
            SyntaxElement::Node(arg) => (if first {
                Seq::empty()
            } else {
                ", "@
            }) + fmt_expr(arg, 0, pad) + args_from(node, i + 1, false, pad),
            SyntaxElement::Token(_) => args_from(node, i + 1, first, pad),
        }
    }
}

/// `base.field`
pub open spec fn fmt_member_expr(node: SyntaxNode, pad: Seq<char>) -> Seq<char>
    decreases node, 1nat, 0nat,
{
    match node_from(node, Pick::AnyNode, 0) {
        Some((b, base)) => fmt_expr(base, 0, pad) + match node_from(node, Pick::AnyNode, b + 1) {
            Some((_, field)) => "."@ + token_text(field, Pick::Token(SyntaxKind::Ident)),
            None => Seq::empty(),
        },
        None => Seq::empty(),
    }
}

/// `(inner)`
pub open spec fn fmt_paren_expr(node: SyntaxNode, pad: Seq<char>) -> Seq<char>
    decreases node, 1nat, 0nat,
{
    "("@ + (match node_from(node, Pick::AnyNode, 0) {
        Some((_, inner)) => fmt_expr(inner, 0, pad),
        None => Seq::empty(),
    }) + ")"@
}

/// The text of the first `Ident` token of `node`.
fn first_ident_child_text(node: &SyntaxNode) -> (name: Option<String>)
    ensures
        name matches Some(text) ==> first_token(*node, Pick::Token(SyntaxKind::Ident)) is Some
            && text@ == token_text(*node, Pick::Token(SyntaxKind::Ident)),
        name is None ==> first_token(*node, Pick::Token(SyntaxKind::Ident)) is None,
{
    match find_token(node, Pick::Token(SyntaxKind::Ident), 0) {
        Some((_, token)) => Some(token.text.clone()),
        None => None,
    }
}

/// The text of the first literal token of `node`.
fn literal_text(node: &SyntaxNode) -> (text: Option<String>)
    ensures
        text matches Some(t) ==> first_token(*node, Pick::LiteralToken) is Some && t@
            == token_text(*node, Pick::LiteralToken),
        text is None ==> first_token(*node, Pick::LiteralToken) is None,
{
    match find_token(node, Pick::LiteralToken, 0) {
        Some((_, token)) => Some(token.text.clone()),
        None => None,
    }
}

/// The name in the first `IdentNode` child of `node`.
fn name_in(node: &SyntaxNode) -> (name: Option<String>)
    ensures
        name matches Some(text) ==> text@ == name_of(*node),
        name is None ==> name_of(*node) == Seq::<char>::empty(),
{
    match find_node(node, Pick::Node(SyntaxKind::IdentNode), 0) {
        Some((_, ident)) => first_ident_child_text(ident),
        None => None,
    }
}

/// The name behind the `as` of a `use`.
fn find_kw_as_alias(node: &SyntaxNode) -> (alias: Option<String>)
    ensures
        alias matches Some(text) ==> alias_of(*node) == Some(text@),
        alias is None ==> alias_of(*node) is None,
{
    match find_token(node, Pick::Token(SyntaxKind::KwAs), 0) {
        Some((j, _)) => match find_node(node, Pick::Node(SyntaxKind::IdentNode), j + 1) {
            Some((_, ident)) => first_ident_child_text(ident),
            None => None,
        },
        None => None,
    }
}

/// The path of a `use`: the names of its `UsePath` child, joined by `::`.
fn format_use_path(node: &SyntaxNode) -> (path: String)
    ensures
        path@ == fmt_use_path(*node),
{
    let mut out = String::new();
    if let Some((_, child)) = find_node(node, Pick::Node(SyntaxKind::UsePath), 0) {
        let mut i: usize = 0;
        proof {
            assert(out@ + path_from(*child, 0) =~= path_from(*child, 0));
        }
        while i < child.children.len()
            invariant
                i <= child.children@.len(),
                out@ + path_from(*child, i as nat) == path_from(*child, 0),
            decreases child.children@.len() - i,
        {
            let ghost before = out@;
            match &child.children[i] {
                SyntaxElement::Node(part) => {
                    if part.kind == SyntaxKind::IdentNode {
                        if let Some(name) = first_ident_child_text(part) {
                            out.append(name.as_str());
                        }
                    }
                },
                SyntaxElement::Token(token) => {
                    if token.kind == SyntaxKind::ColonColon {
                        out.append("::");
                    }
                },
            }
            proof {
                let rest = path_from(*child, (i + 1) as nat);
                assert(out@ + rest =~= before + path_from(*child, i as nat));
            }
            i += 1;
        }
        proof {
            assert(out@ + Seq::<char>::empty() =~= out@);
        }
    }
    out
}

/// The left and right binding power of an operator, `(0, 0)` for any other
/// kind.
pub fn infix_binding_power(kind: SyntaxKind) -> (bp: (u8, u8))
    ensures
        bp == binding_power(kind),
{
    match kind {
        SyntaxKind::OrOr => (1, 2),
        SyntaxKind::AndAnd => (3, 4),
        SyntaxKind::EqEq | SyntaxKind::Neq => (5, 6),
        SyntaxKind::Lt | SyntaxKind::Lte | SyntaxKind::Gt | SyntaxKind::Gte => (7, 8),
        SyntaxKind::Plus | SyntaxKind::Minus => (9, 10),
        SyntaxKind::Star | SyntaxKind::Slash | SyntaxKind::Percent => (11, 12),
        _ => (0, 0),
    }
}

/// What a formatter has printed so far.
pub struct Formatter {
    pub out: String,
}

impl Formatter {
    /// A formatter that has printed nothing.
    pub fn new() -> (f: Self)
        ensures
            f.out@ == Seq::<char>::empty(),
    {
        Formatter { out: String::new() }
    }

    /// The text printed so far.
    pub fn finish(self) -> (text: String)
        ensures
            text@ == self.out@,
    {
        self.out
    }

    /// Prints `s`.
    pub fn push(&mut self, s: &str)
        ensures
            final(self).out@ == old(self).out@ + s@,
    {
        self.out.append(s);
    }

    /// Starts a line with the indentation `pad`.
    pub fn newline(&mut self, pad: &str)
        ensures
            final(self).out@ == old(self).out@ + newline(pad@),
    {
        self.out.append("\n");
        self.out.append(pad);
        proof {
            assert(self.out@ =~= old(self).out@ + newline(pad@));
        }
    }

    /// Prints `text`, if there is any.
    fn push_opt(&mut self, text: Option<String>)
        ensures
            final(self).out@ == old(self).out@ + match text {
                Some(t) => t@,
                None => Seq::empty(),
            },
    {
        if let Some(t) = text {
            self.push(t.as_str());
        } else {
            proof {
                assert(self.out@ + Seq::<char>::empty() =~= self.out@);
            }
        }
    }

    /// Prints `word` if `node` has a token of `kind`.
    fn modifier(&mut self, node: &SyntaxNode, kind: SyntaxKind, word: &str)
        ensures
            final(self).out@ == old(self).out@ + modifier(*node, kind, word@),
    {
        if find_token(node, Pick::Token(kind), 0).is_some() {
            self.push(word);
        } else {
            proof {
                assert(self.out@ + Seq::<char>::empty() =~= self.out@);
            }
        }
    }

    /// Prints the name in the first `IdentNode` child.
    fn name(&mut self, node: &SyntaxNode)
        ensures
            final(self).out@ == old(self).out@ + name_of(*node),
    {
        let name = name_in(node);
        self.push_opt(name);
    }

    /// Prints a colon and the first `Type` child, if there is one.
    fn annotation(&mut self, node: &SyntaxNode)
        ensures
            final(self).out@ == old(self).out@ + fmt_annotation(*node),
    {
        if let Some((_, ty)) = find_node(node, Pick::Node(SyntaxKind::Type), 0) {
            self.push(": ");
            self.type_node(ty);
            proof {
                assert(self.out@ =~= old(self).out@ + (": "@ + fmt_type(*ty)));
            }
        } else {
            proof {
                assert(self.out@ + Seq::<char>::empty() =~= self.out@);
            }
        }
    }

    /// Prints the items of a tree, a blank line between each two.
    pub fn root(&mut self, node: &SyntaxNode)
        ensures
            final(self).out@ == old(self).out@ + fmt_root(*node),
    {
        let ghost start = self.out@;
        let mut first = true;
        let mut i: usize = 0;
        while i < node.children.len()
            invariant
                i <= node.children@.len(),
                self.out@ + root_from(*node, i as nat, first) == start + fmt_root(*node),
            decreases node.children@.len() - i,
        {
            let ghost before = self.out@;
            let ghost was_first = first;
            match &node.children[i] {
                SyntaxElement::Node(child) => {
                    match child.kind {
                        SyntaxKind::ModuleDecl
                        | SyntaxKind::UseDecl
                        | SyntaxKind::FnDecl
                        | SyntaxKind::StructDecl
                        | SyntaxKind::EnumDecl => {
                            if !first {
                                self.newline("");
                                self.newline("");
                            }
                            self.item(child);
                            first = false;
                            proof {
                                reveal_strlit("");
                                assert(""@ =~= Seq::<char>::empty());
                                assert(self.out@ + root_from(*node, (i + 1) as nat, first)
                                    =~= before + root_from(*node, i as nat, was_first));
                            }
                        },
                        _ => {},
                    }
                },
                SyntaxElement::Token(_) => {},
            }
            i += 1;
        }
        proof {
            assert(self.out@ + Seq::<char>::empty() =~= self.out@);
        }
    }

    /// Prints one item.
    fn item(&mut self, node: &SyntaxNode)
        ensures
            final(self).out@ == old(self).out@ + fmt_item(*node),
    {
        match node.kind {
            SyntaxKind::ModuleDecl => self.module_decl(node),
            SyntaxKind::UseDecl => self.use_decl(node),
            SyntaxKind::FnDecl => self.fn_decl(node),
            SyntaxKind::StructDecl => self.struct_decl(node),
            SyntaxKind::EnumDecl => self.enum_decl(node),
            _ => {
                proof {
                    assert(self.out@ + Seq::<char>::empty() =~= self.out@);
                }
            },
        }
    }

    /// Prints `mod name;`.
    fn module_decl(&mut self, node: &SyntaxNode)
        ensures
            final(self).out@ == old(self).out@ + fmt_module_decl(*node),
    {
        self.push("mod ");
        self.name(node);
        self.push(";");
        proof {
            assert(self.out@ =~= old(self).out@ + fmt_module_decl(*node));
        }
    }

    /// Prints `use path as alias;`.
    fn use_decl(&mut self, node: &SyntaxNode)
        ensures
            final(self).out@ == old(self).out@ + fmt_use_decl(*node),
    {
        self.push("use ");
        let path = format_use_path(node);
        self.push(path.as_str());
        let ghost mid = self.out@;
        if let Some(alias) = find_kw_as_alias(node) {
            self.push(" as ");
            self.push(alias.as_str());
        }
        proof {
            assert(self.out@ =~= mid + fmt_alias(*node));
        }
        self.push(";");
        proof {
            assert(self.out@ =~= old(self).out@ + fmt_use_decl(*node));
        }
    }

    /// Prints a function: its signature, result, effects and body.
    fn fn_decl(&mut self, node: &SyntaxNode)
        ensures
            final(self).out@ == old(self).out@ + fmt_fn_decl(*node),
    {
        let ghost start = self.out@;
        self.signature(node);
        if let Some(ret) = find_return_type(node) {
            self.push(" -> ");
            self.type_node(ret);
        }
        proof {
            assert(self.out@ =~= start + fmt_signature(*node) + fmt_result(*node));
        }
        if let Some((_, effects)) = find_node(node, Pick::Node(SyntaxKind::EffectSet), 0) {
            self.push(" ");
            self.effect_set(effects);
        }
        proof {
            assert(self.out@ =~= start + fmt_signature(*node) + fmt_result(*node) + fmt_effects(
                *node,
            ));
        }
        if let Some((_, block)) = find_node(node, Pick::Node(SyntaxKind::Block), 0) {
            self.push(" ");
            proof {
                reveal_strlit("");
                assert(""@ =~= Seq::<char>::empty());
            }
            self.block(block, "");
        }
        proof {
            assert(self.out@ =~= start + fmt_fn_decl(*node));
        }
    }

    /// Prints the modifiers, the name and the parameters of a function.
    fn signature(&mut self, node: &SyntaxNode)
        ensures
            final(self).out@ == old(self).out@ + fmt_signature(*node),
    {
        self.modifier(node, SyntaxKind::KwPub, "pub ");
        self.modifier(node, SyntaxKind::KwAsync, "async ");
        self.push("fn ");
        self.name(node);
        if let Some((_, params)) = find_node(node, Pick::Node(SyntaxKind::ParamList), 0) {
            self.push("(");
            self.param_list(params);
            self.push(")");
        } else {
            self.push("()");
        }
        proof {
            assert(self.out@ =~= old(self).out@ + fmt_signature(*node));
        }
    }

    /// Prints the parameters, separated by `, `.
    fn param_list(&mut self, node: &SyntaxNode)
        ensures
            final(self).out@ == old(self).out@ + params_from(*node, 0, true),
    {
        let ghost start = self.out@;
        let mut first = true;
        let mut i: usize = 0;
        while i < node.children.len()
            invariant
                i <= node.children@.len(),
                self.out@ + params_from(*node, i as nat, first) == start + params_from(
                    *node,
                    0,
                    true,
                ),
            decreases node.children@.len() - i,
        {
            let ghost before = self.out@;
            let ghost was_first = first;
            if let SyntaxElement::Node(param) = &node.children[i] {
                if param.kind == SyntaxKind::Param {
                    if !first {
                        self.push(", ");
                    }
                    self.param(param);
                    first = false;
                    proof {
                        assert(self.out@ + params_from(*node, (i + 1) as nat, first) =~= before
                            + params_from(*node, i as nat, was_first));
                    }
                }
            }
            i += 1;
        }
        proof {
            assert(self.out@ + Seq::<char>::empty() =~= self.out@);
        }
    }

    /// Prints one parameter: `mut name: Type`.
    fn param(&mut self, node: &SyntaxNode)
        ensures
            final(self).out@ == old(self).out@ + fmt_param(*node),
    {
        self.modifier(node, SyntaxKind::KwMut, "mut ");
        self.name(node);
        self.annotation(node);
        proof {
            assert(self.out@ =~= old(self).out@ + fmt_param(*node));
        }
    }

    /// Prints a type as it stands in the source.
    fn type_node(&mut self, node: &SyntaxNode)
        ensures
            final(self).out@ == old(self).out@ + fmt_type(*node),
    {
        let text = to_string_lossless(node);
        self.push(trim(text.as_str()));
    }

    /// Prints the effects, separated by `, `.
    fn effect_set(&mut self, node: &SyntaxNode)
        ensures
            final(self).out@ == old(self).out@ + fmt_effect_set(*node),
    {
        let ghost start = self.out@;
        self.push("!{");
        let mut first = true;
        let mut i: usize = 0;
        while i < node.children.len()
            invariant
                i <= node.children@.len(),
                self.out@ + effects_from(*node, i as nat, first) == start + "!{"@ + effects_from(
                    *node,
                    0,
                    true,
                ),
            decreases node.children@.len() - i,
        {
            let ghost before = self.out@;
            let ghost was_first = first;
            if let SyntaxElement::Node(ident) = &node.children[i] {
                if ident.kind == SyntaxKind::IdentNode {
                    if !first {
                        self.push(", ");
                    }
                    let name = first_ident_child_text(ident);
                    self.push_opt(name);
                    first = false;
                    proof {
                        assert(self.out@ + effects_from(*node, (i + 1) as nat, first) =~= before
                            + effects_from(*node, i as nat, was_first));
                    }
                }
            }
            i += 1;
        }
        self.push("}");
        proof {
            assert(self.out@ =~= start + fmt_effect_set(*node));
        }
    }

    /// Prints a struct, one field on each line.
    fn struct_decl(&mut self, node: &SyntaxNode)
        ensures
            final(self).out@ == old(self).out@ + fmt_struct_decl(*node),
    {
        let ghost start = self.out@;
        self.modifier(node, SyntaxKind::KwPub, "pub ");
        self.push("struct ");
        self.name(node);
        self.push(" {");
        let ghost head = modifier(*node, SyntaxKind::KwPub, "pub "@) + "struct "@ + name_of(*node)
            + " {"@;
        let mut i: usize = 0;
        proof {
            reveal_strlit("");
            assert(""@ =~= Seq::<char>::empty());
            assert("  "@ =~= deeper(Seq::empty()));
            assert(self.out@ =~= start + head);
        }
        while i < node.children.len()
            invariant
                i <= node.children@.len(),
                "  "@ == deeper(Seq::empty()),
                self.out@ + fields_from(*node, i as nat) == start + head + fields_from(*node, 0),
            decreases node.children@.len() - i,
        {
            let ghost before = self.out@;
            if let SyntaxElement::Node(field) = &node.children[i] {
                if field.kind == SyntaxKind::StructField {
                    self.newline("  ");
                    self.name(field);
                    self.annotation(field);
                    self.push(";");
                }
            }
            proof {
                assert(self.out@ + fields_from(*node, (i + 1) as nat) =~= before + fields_from(
                    *node,
                    i as nat,
                ));
            }
            i += 1;
        }
        self.newline("");
        self.push("}");
        proof {
            assert(self.out@ =~= start + fmt_struct_decl(*node));
        }
    }

    /// Prints an enum, one variant on each line.
    fn enum_decl(&mut self, node: &SyntaxNode)
        ensures
            final(self).out@ == old(self).out@ + fmt_enum_decl(*node),
    {
        let ghost start = self.out@;
        self.modifier(node, SyntaxKind::KwPub, "pub ");
        self.push("enum ");
        self.name(node);
        self.push(" {");
        let ghost head = modifier(*node, SyntaxKind::KwPub, "pub "@) + "enum "@ + name_of(*node)
            + " {"@;
        let mut i: usize = 0;
        proof {
            reveal_strlit("");
            assert(""@ =~= Seq::<char>::empty());
            assert("  "@ =~= deeper(Seq::empty()));
            assert(self.out@ =~= start + head);
        }
        while i < node.children.len()
            invariant
                i <= node.children@.len(),
                "  "@ == deeper(Seq::empty()),
                self.out@ + variants_from(*node, i as nat) == start + head + variants_from(
                    *node,
                    0,
                ),
            decreases node.children@.len() - i,
        {
            let ghost before = self.out@;
            if let SyntaxElement::Node(variant) = &node.children[i] {
                if variant.kind == SyntaxKind::EnumVariant {
                    self.newline("  ");
                    self.name(variant);
                    if find_node(variant, Pick::Node(SyntaxKind::Type), 0).is_some() {
                        self.push("(");
                        self.variant_types(variant);
                        self.push(")");
                    }
                    self.push(";");
                }
            }
            proof {
                assert(self.out@ + variants_from(*node, (i + 1) as nat) =~= before
                    + variants_from(*node, i as nat));
            }
            i += 1;
        }
        self.newline("");
        self.push("}");
        proof {
            assert(self.out@ =~= start + fmt_enum_decl(*node));
        }
    }

    /// Prints the types of a variant in parentheses, if it has any.
    fn variant_types(&mut self, node: &SyntaxNode)
        ensures
            final(self).out@ == old(self).out@ + types_from(*node, 0, true),
    {
        let ghost start = self.out@;
        let mut first = true;
        let mut i: usize = 0;
        while i < node.children.len()
            invariant
                i <= node.children@.len(),
                self.out@ + types_from(*node, i as nat, first) == start + types_from(
                    *node,
                    0,
                    true,
                ),
            decreases node.children@.len() - i,
        {
            let ghost before = self.out@;
            let ghost was_first = first;
            if let SyntaxElement::Node(ty) = &node.children[i] {
                if ty.kind == SyntaxKind::Type {
                    if !first {
                        self.push(", ");
                    }
                    self.type_node(ty);
                    first = false;
                    proof {
                        assert(self.out@ + types_from(*node, (i + 1) as nat, first) =~= before
                            + types_from(*node, i as nat, was_first));
                    }
                }
            }
            i += 1;
        }
        proof {
            assert(self.out@ + Seq::<char>::empty() =~= self.out@);
        }
    }

    /// Prints a block: each statement and the tail on a line of its own, one
    /// level deeper than `pad`.
    #[verifier::rlimit(40)]
    fn block(&mut self, node: &SyntaxNode, pad: &str)
        ensures
            final(self).out@ == old(self).out@ + fmt_block(*node, pad@),
        decreases node, 1nat, 0nat,
    {
        let ghost start = self.out@;
        self.push("{");
        let inner = String::from_str(pad).concat("  ");
        let mut any_stmt = false;
        if let Some((_, stmts)) = find_node(node, Pick::Node(SyntaxKind::StmtList), 0) {
            let last = last_node(stmts);
            let mut i: usize = 0;
            proof {
                assert(self.out@ + stmts_from(*stmts, 0, inner@) =~= start + "{"@ + stmts_from(
                    *stmts,
                    0,
                    inner@,
                ));
            }
            while i < stmts.children.len()
                invariant
                    i <= stmts.children@.len(),
                    inner@ == deeper(pad@),
                    decreases_to!(node => stmts),
                    last matches Some(l) ==> l < stmts.children@.len() && stmts.children@[l as int]
                        is Node && index_of(*stmts, Pick::AnyNode, (l + 1) as nat) is None,
                    last is None ==> index_of(*stmts, Pick::AnyNode, 0) is None,
                    any_stmt ==> index_of(*stmts, Pick::StmtNode, 0) is Some,
                    !any_stmt ==> index_of(*stmts, Pick::StmtNode, 0) == index_of(
                        *stmts,
                        Pick::StmtNode,
                        i as nat,
                    ),
                    self.out@ + stmts_from(*stmts, i as nat, inner@) == start + "{"@ + stmts_from(
                        *stmts,
                        0,
                        inner@,
                    ),
                decreases stmts.children@.len() - i,
            {
                let ghost before = self.out@;
                if let SyntaxElement::Node(stmt) = &stmts.children[i] {
                    if is_stmt_kind(stmt.kind) {
                        self.newline(inner.as_str());
                        proof {
                            lemma_last(*stmts, last, i as int);
                        }
                        if last == Some(i) && is_expr_kind(stmt.kind) {
                            self.expr(stmt, 0, inner.as_str());
                        } else {
                            self.stmt(stmt, inner.as_str());
                        }
                        any_stmt = true;
                    }
                }
                proof {
                    assert(self.out@ + stmts_from(*stmts, (i + 1) as nat, inner@) =~= before
                        + stmts_from(*stmts, i as nat, inner@));
                }
                i += 1;
            }
            if any_stmt {
                self.newline(pad);
            }
            self.push("}");
            proof {
                assert(self.out@ =~= start + fmt_block(*node, pad@));
            }
        } else {
            self.push("}");
            proof {
                assert(self.out@ =~= start + fmt_block(*node, pad@));
            }
        }
    }

    /// Prints one statement.
    fn stmt(&mut self, node: &SyntaxNode, pad: &str)
        ensures
            final(self).out@ == old(self).out@ + fmt_stmt(*node, pad@),
        decreases node, 3nat, 0nat,
    {
        match node.kind {
            SyntaxKind::LetStmt => self.let_stmt(node, pad),
            SyntaxKind::ReturnStmt => self.return_stmt(node, pad),
            SyntaxKind::ExprStmt => self.expr_stmt(node, pad),
            SyntaxKind::IfExpr => self.if_expr(node, pad),
            SyntaxKind::MatchExpr => self.match_expr(node, pad),
            SyntaxKind::Block => self.block(node, pad),
            _ => self.expr(node, 0, pad),
        }
    }

    /// Prints `let mut pattern: Type = value;`.
    #[verifier::rlimit(40)]
    fn let_stmt(&mut self, node: &SyntaxNode, pad: &str)
        ensures
            final(self).out@ == old(self).out@ + fmt_let_stmt(*node, pad@),
        decreases node, 1nat, 0nat,
    {
        let ghost start = self.out@;
        self.push("let ");
        self.modifier(node, SyntaxKind::KwMut, "mut ");
        let ghost pattern_text = match first_node(*node, Pick::Node(SyntaxKind::Pattern)) {
            Some(pattern) => fmt_pattern(pattern),
            None => Seq::empty(),
        };
        if let Some((_, pattern)) = find_node(node, Pick::Node(SyntaxKind::Pattern), 0) {
            self.pattern(pattern);
        }
        self.annotation(node);
        self.push(" = ");
        let ghost head = "let "@ + modifier(*node, SyntaxKind::KwMut, "mut "@) + pattern_text
            + fmt_annotation(*node) + " = "@;
        proof {
            assert(self.out@ =~= start + head);
        }
        let ghost init_text = match initializer(*node) {
            Some(expr) => fmt_expr(expr, 0, pad@),
            None => Seq::empty(),
        };
        if let Some(expr) = find_expr_after_token(node, SyntaxKind::Eq) {
            self.expr(expr, 0, pad);
        }
        self.push(";");
        proof {
            assert(self.out@ =~= start + head + init_text + ";"@);
            assert(start + head + init_text + ";"@ =~= start + fmt_let_stmt(*node, pad@));
        }
    }

    /// Prints `return value;`.
    fn return_stmt(&mut self, node: &SyntaxNode, pad: &str)
        ensures
            final(self).out@ == old(self).out@ + fmt_return_stmt(*node, pad@),
        decreases node, 1nat, 0nat,
    {
        self.push("return");
        if let Some((_, expr)) = find_node(node, Pick::ExprNode, 0) {
            self.push(" ");
            self.expr(expr, 0, pad);
        }
        self.push(";");
        proof {
            assert(self.out@ =~= old(self).out@ + fmt_return_stmt(*node, pad@));
        }
    }

    /// Prints an expression and `;`.
    fn expr_stmt(&mut self, node: &SyntaxNode, pad: &str)
        ensures
            final(self).out@ == old(self).out@ + fmt_expr_stmt(*node, pad@),
        decreases node, 1nat, 0nat,
    {
        if let Some((_, expr)) = find_node(node, Pick::ExprNode, 0) {
            self.expr(expr, 0, pad);
        }
        self.push(";");
        proof {
            assert(self.out@ =~= old(self).out@ + fmt_expr_stmt(*node, pad@));
        }
    }

    /// Prints `if condition { .. } else { .. }`.
    fn if_expr(&mut self, node: &SyntaxNode, pad: &str)
        ensures
            final(self).out@ == old(self).out@ + fmt_if_expr(*node, pad@),
        decreases node, 1nat, 0nat,
    {
        self.push("if ");
        if let Some((c, cond)) = find_node(node, Pick::AnyNode, 0) {
            self.expr(cond, 0, pad);
            self.if_then(node, c + 1, pad);
        }
        proof {
            assert(self.out@ =~= old(self).out@ + fmt_if_expr(*node, pad@));
        }
    }

    /// Prints the first block of an `if` behind child `from`.
    fn if_then(&mut self, node: &SyntaxNode, from: usize, pad: &str)
        ensures
            final(self).out@ == old(self).out@ + fmt_then(*node, from as nat, pad@),
        decreases node, 0nat, 1nat,
    {
        if let Some((t, then_block)) = find_node(node, Pick::AnyNode, from) {
            self.push(" ");
            self.block(then_block, pad);
            self.if_else(node, t + 1, pad);
        }
        proof {
            assert(self.out@ =~= old(self).out@ + fmt_then(*node, from as nat, pad@));
        }
    }

    /// Prints `else` and what follows it, if the `if` has a second branch.
    fn if_else(&mut self, node: &SyntaxNode, from: usize, pad: &str)
        ensures
            final(self).out@ == old(self).out@ + fmt_else(*node, from as nat, pad@),
        decreases node, 0nat, 0nat,
    {
        if let Some((_, else_node)) = find_node(node, Pick::AnyNode, from) {
            self.push(" else ");
            if else_node.kind == SyntaxKind::IfExpr {
                self.if_expr(else_node, pad);
            } else {
                self.block(else_node, pad);
            }
        }
        proof {
            assert(self.out@ =~= old(self).out@ + fmt_else(*node, from as nat, pad@));
        }
    }

    /// Prints a `match`, one arm on each line.
    #[verifier::rlimit(40)]
    fn match_expr(&mut self, node: &SyntaxNode, pad: &str)
        ensures
            final(self).out@ == old(self).out@ + fmt_match_expr(*node, pad@),
        decreases node, 1nat, 0nat,
    {
        let ghost start = self.out@;
        self.push("match ");
        let inner = String::from_str(pad).concat("  ");
        if let Some((s, scrutinee)) = find_node(node, Pick::AnyNode, 0) {
            self.expr(scrutinee, 0, pad);
            self.push(" {");
            let ghost head = self.out@;
            let mut i: usize = s + 1;
            proof {
                assert(self.out@ + arms_from(*node, (s + 1) as nat, inner@) =~= head + arms_from(
                    *node,
                    (s + 1) as nat,
                    inner@,
                ));
            }
            while i < node.children.len()
                invariant
                    s < i <= node.children@.len(),
                    inner@ == deeper(pad@),
                    self.out@ + arms_from(*node, i as nat, inner@) == head + arms_from(
                        *node,
                        (s + 1) as nat,
                        inner@,
                    ),
                decreases node.children@.len() - i,
            {
                let ghost before = self.out@;
                if let SyntaxElement::Node(arm) = &node.children[i] {
                    if arm.kind == SyntaxKind::MatchArm {
                        self.newline(inner.as_str());
                        self.match_arm(arm, inner.as_str());
                    }
                }
                proof {
                    assert(self.out@ + arms_from(*node, (i + 1) as nat, inner@) =~= before
                        + arms_from(*node, i as nat, inner@));
                }
                i += 1;
            }
            self.newline(pad);
            self.push("}");
            proof {
                assert(self.out@ =~= start + fmt_match_expr(*node, pad@));
            }
        } else {
            self.push(" {");
            self.newline(pad);
            self.push("}");
            proof {
                assert(self.out@ =~= start + fmt_match_expr(*node, pad@));
            }
        }
    }

    /// Prints `pattern => value,`.
    fn match_arm(&mut self, node: &SyntaxNode, pad: &str)
        ensures
            final(self).out@ == old(self).out@ + fmt_match_arm(*node, pad@),
        decreases node, 1nat, 0nat,
    {
        if let Some((_, pat)) = find_node(node, Pick::Node(SyntaxKind::Pattern), 0) {
            self.pattern(pat);
        }
        self.push(" => ");
        if let Some((_, expr)) = find_node(node, Pick::NodeExcept(SyntaxKind::Pattern), 0) {
            self.expr(expr, 0, pad);
        }
        self.push(",");
        proof {
            assert(self.out@ =~= old(self).out@ + fmt_match_arm(*node, pad@));
        }
    }

    /// Prints a pattern: a name, a literal or `_`.
    fn pattern(&mut self, node: &SyntaxNode)
        ensures
            final(self).out@ == old(self).out@ + fmt_pattern(*node),
    {
        if let Some((_, token)) = find_token(node, Pick::Token(SyntaxKind::Underscore), 0) {
            self.push(token.text.as_str());
            return ;
        }
        if let Some((_, lit)) = find_node(node, Pick::Node(SyntaxKind::LiteralNode), 0) {
            if let Some(text) = literal_text(lit) {
                self.push(text.as_str());
                return ;
            }
        }
        self.name(node);
    }

    /// Prints an expression; `min_bp` is the binding power that the place
    /// demands.
    fn expr(&mut self, node: &SyntaxNode, min_bp: u8, pad: &str)
        ensures
            final(self).out@ == old(self).out@ + fmt_expr(*node, min_bp, pad@),
        decreases node, 2nat, 0nat,
    {
        match node.kind {
            SyntaxKind::BinExpr => self.bin_expr(node, min_bp, pad),
            SyntaxKind::CallExpr => self.call_expr(node, pad),
            SyntaxKind::MemberExpr => self.member_expr(node, pad),
            SyntaxKind::IfExpr => self.if_expr(node, pad),
            SyntaxKind::MatchExpr => self.match_expr(node, pad),
            SyntaxKind::Block => self.block(node, pad),
            SyntaxKind::ParenExpr => self.paren_expr(node, pad),
            SyntaxKind::IdentNode => {
                let name = first_ident_child_text(node);
                self.push_opt(name);
            },
            SyntaxKind::LiteralNode => {
                let text = literal_text(node);
                self.push_opt(text);
            },
            _ => {
                proof {
                    assert(self.out@ + Seq::<char>::empty() =~= self.out@);
                }
            },
        }
    }

    /// Prints a binary expression, in parentheses where its operator binds
    /// less than `min_bp`.
    #[verifier::rlimit(40)]
    fn bin_expr(&mut self, node: &SyntaxNode, min_bp: u8, pad: &str)
        ensures
            final(self).out@ == old(self).out@ + fmt_bin_expr(*node, min_bp, pad@),
        decreases node, 1nat, 0nat,
    {
        proof {
            assert(self.out@ + Seq::<char>::empty() =~= self.out@);
        }
        let (l, left) = match find_node(node, Pick::AnyNode, 0) {
            Some(found) => found,
            None => return ,
        };
        let (_, right) = match find_node(node, Pick::AnyNode, l + 1) {
            Some(found) => found,
            None => return ,
        };
        let (_, op) = match find_token(node, Pick::OperatorToken, 0) {
            Some(found) => found,
            None => return ,
        };
        let (l_bp, r_bp) = infix_binding_power(op.kind);
        let needs_paren = l_bp < min_bp;
        if needs_paren {
            self.push("(");
        }
        self.expr(left, l_bp, pad);
        self.push(" ");
        self.push(op.text.as_str());
        self.push(" ");
        self.expr(right, r_bp, pad);
        if needs_paren {
            self.push(")");
        }
        proof {
            assert(self.out@ =~= old(self).out@ + fmt_bin_expr(*node, min_bp, pad@));
        }
    }

    /// Prints a call: the callee and the arguments, separated by `, `.
    #[verifier::rlimit(40)]
    fn call_expr(&mut self, node: &SyntaxNode, pad: &str)
        ensures
            final(self).out@ == old(self).out@ + fmt_call_expr(*node, pad@),
        decreases node, 1nat, 0nat,
    {
        let ghost start = self.out@;
        if let Some((c, callee)) = find_node(node, Pick::AnyNode, 0) {
            self.expr(callee, 0, pad);
            self.push("(");
            let ghost head = self.out@;
            let mut first = true;
            let mut i: usize = c + 1;
            proof {
                assert(self.out@ + args_from(*node, (c + 1) as nat, true, pad@) =~= head
                    + args_from(*node, (c + 1) as nat, true, pad@));
            }
            while i < node.children.len()
                invariant
                    c < i <= node.children@.len(),
                    self.out@ + args_from(*node, i as nat, first, pad@) == head + args_from(
                        *node,
                        (c + 1) as nat,
                        true,
                        pad@,
                    ),
                decreases node.children@.len() - i,
            {
                let ghost before = self.out@;
                let ghost was_first = first;
                if let SyntaxElement::Node(arg) = &node.children[i] {
                    if !first {
                        self.push(", ");
                    }
                    self.expr(arg, 0, pad);
                    first = false;
                    proof {
                        assert(self.out@ + args_from(*node, (i + 1) as nat, first, pad@) =~= before
                            + args_from(*node, i as nat, was_first, pad@));
                    }
                }
                i += 1;
            }
            self.push(")");
            proof {
                assert(self.out@ =~= start + fmt_call_expr(*node, pad@));
            }
        } else {
            self.push("(");
            self.push(")");
            proof {
                reveal_strlit("(");
                reveal_strlit(")");
                reveal_strlit("()");
                assert("("@ + ")"@ =~= "()"@);
                assert(self.out@ =~= start + fmt_call_expr(*node, pad@));
            }
        }
    }

    /// Prints `value.name`.
    fn member_expr(&mut self, node: &SyntaxNode, pad: &str)
        ensures
            final(self).out@ == old(self).out@ + fmt_member_expr(*node, pad@),
        decreases node, 1nat, 0nat,
    {
        if let Some((b, base)) = find_node(node, Pick::AnyNode, 0) {
            self.expr(base, 0, pad);
            if let Some((_, field)) = find_node(node, Pick::AnyNode, b + 1) {
                self.push(".");
                let name = first_ident_child_text(field);
                self.push_opt(name);
            }
        }
        proof {
            assert(self.out@ =~= old(self).out@ + fmt_member_expr(*node, pad@));
        }
    }

    /// Prints an expression in parentheses.
    fn paren_expr(&mut self, node: &SyntaxNode, pad: &str)
        ensures
            final(self).out@ == old(self).out@ + fmt_paren_expr(*node, pad@),
        decreases node, 1nat, 0nat,
    {
        self.push("(");
        if let Some((_, inner)) = find_node(node, Pick::AnyNode, 0) {
            self.expr(inner, 0, pad);
        }
        self.push(")");
        proof {
            assert(self.out@ =~= old(self).out@ + fmt_paren_expr(*node, pad@));
        }
    }
}

/// The child node at `i` is the last child node exactly if no node stands
/// behind it.
proof fn lemma_last(stmts: SyntaxNode, last: Option<usize>, i: int)
    requires
        0 <= i < stmts.children@.len(),
        stmts.children@[i] is Node,
        last matches Some(l) ==> l < stmts.children@.len() && stmts.children@[l as int] is Node
            && index_of(stmts, Pick::AnyNode, (l + 1) as nat) is None,
        last is None ==> index_of(stmts, Pick::AnyNode, 0) is None,
    ensures
        (last == Some(i as usize)) <==> index_of(stmts, Pick::AnyNode, (i + 1) as nat) is None,
{
    match last {
        Some(l) => {
            if i < l {
                if index_of(stmts, Pick::AnyNode, (i + 1) as nat) is None {
                    lemma_not_found(stmts, Pick::AnyNode, (i + 1) as nat, l as int);
                }
            } else if l < i {
                lemma_not_found(stmts, Pick::AnyNode, (l + 1) as nat, i);
            }
        },
        None => {
            lemma_not_found(stmts, Pick::AnyNode, 0, i);
        },
    }
}

/// What formatting makes of a parse: the errors where there are any, else
/// the printed tree.
pub open spec fn formatted(parsed: Parse, result: Result<String, FormatError>) -> bool {
    if parsed.errors@.len() > 0 {
        result matches Err(FormatError::ParseErrors(errors)) && errors == parsed.errors
    } else {
        result matches Ok(text) && exists|root: SyntaxNode|
            node_events(root) == parsed.events() && text@ == fmt_root(root)
    }
}

/// Formats what was parsed: refuses where there are parse errors, and
/// prints the tree otherwise.
pub fn format_parse(parsed: Parse) -> (result: Result<String, FormatError>)
    requires
        parsed.wf(),
    ensures
        formatted(parsed, result),
{
    if parsed.errors.len() > 0 {
        return Err(FormatError::ParseErrors(parsed.errors));
    }
    let root = parsed.syntax();
    let mut fmt = Formatter::new();
    fmt.root(&root);
    let text = fmt.finish();
    proof {
        assert(Seq::<char>::empty() + fmt_root(root) =~= fmt_root(root));
    }
    Ok(text)
}

/// Formats `source`.
///
/// A source with parse errors is not formatted: the errors come back.  A
/// source without them comes back printed with canonical spacing, as
/// [`fmt_root`] says of its tree.
pub fn format_source(source: &str) -> (result: Result<String, FormatError>)
    requires
        source.spec_bytes().len() <= MAX_TEXT_LEN,
    ensures
        exists|parsed: Parse| is_parse_of(parsed, source@) && formatted(parsed, result),
{
    let parsed = parse(source);
    let ghost witness = parsed;
    let result = format_parse(parsed);
    proof {
        assert(is_parse_of(witness, source@) && formatted(witness, result));
    }
    result
}

} // verus!
