//! Finding children of a node: the first node or token of some sort at or
//! behind a position.

use crate::syntax::SyntaxKind;
use crate::tree::{SyntaxElement, SyntaxNode, SyntaxToken};
use vstd::prelude::*;

verus! {

/// A sort of child to look for.
#[derive(Clone, Copy)]
pub enum Pick {
    /// A node of the given kind.
    Node(SyntaxKind),
    /// A node of any kind but the given one.
    NodeExcept(SyntaxKind),
    /// Any node.
    AnyNode,
    /// A node of one of the expression kinds.
    ExprNode,
    /// A token of the given kind.
    Token(SyntaxKind),
    /// A token of one of the literal kinds.
    LiteralToken,
    /// A token that is a binary operator.
    OperatorToken,
    /// A node of one of the kinds that a block prints as statements.
    StmtNode,
    /// Any token.
    AnyToken,
    /// A token that is a binary operator of the compiled subset.
    CompiledOperator,
}

/// The kinds of nodes that are expressions.
pub open spec fn is_expr(kind: SyntaxKind) -> bool {
    kind == SyntaxKind::BinExpr || kind == SyntaxKind::CallExpr || kind == SyntaxKind::MemberExpr
        || kind == SyntaxKind::IfExpr || kind == SyntaxKind::MatchExpr || kind
        == SyntaxKind::IdentNode || kind == SyntaxKind::LiteralNode || kind
        == SyntaxKind::ParenExpr || kind == SyntaxKind::Block
}

/// The kinds of nodes that a block prints, each on a line of its own.
pub open spec fn is_stmt(kind: SyntaxKind) -> bool {
    kind == SyntaxKind::LetStmt || kind == SyntaxKind::ReturnStmt || kind == SyntaxKind::ExprStmt
        || kind == SyntaxKind::Error || is_expr(kind)
}

/// The kinds of tokens that are binary operators.
pub open spec fn is_operator(kind: SyntaxKind) -> bool {
    kind == SyntaxKind::Plus || kind == SyntaxKind::Minus || kind == SyntaxKind::Star || kind
        == SyntaxKind::Slash || kind == SyntaxKind::Percent || kind == SyntaxKind::EqEq || kind
        == SyntaxKind::Neq || kind == SyntaxKind::Lt || kind == SyntaxKind::Lte || kind
        == SyntaxKind::Gt || kind == SyntaxKind::Gte || kind == SyntaxKind::AndAnd || kind
        == SyntaxKind::OrOr
}

/// The binary operators that the code generator compiles: arithmetic but
/// for the remainder, and the comparisons.
pub open spec fn is_compiled_operator(kind: SyntaxKind) -> bool {
    kind == SyntaxKind::Plus || kind == SyntaxKind::Minus || kind == SyntaxKind::Star || kind
        == SyntaxKind::Slash || kind == SyntaxKind::EqEq || kind == SyntaxKind::Neq || kind
        == SyntaxKind::Lt || kind == SyntaxKind::Lte || kind == SyntaxKind::Gt || kind
        == SyntaxKind::Gte
}

/// Whether `kind` is a binary operator that the code generator compiles.
#[verifier::when_used_as_spec(is_compiled_operator)]
pub fn is_bin_op(kind: SyntaxKind) -> (b: bool)
    ensures
        b == is_compiled_operator(kind),
{
    matches!(
        kind,
        SyntaxKind::Plus | SyntaxKind::Minus | SyntaxKind::Star | SyntaxKind::Slash
            | SyntaxKind::EqEq | SyntaxKind::Neq | SyntaxKind::Lt | SyntaxKind::Lte
            | SyntaxKind::Gt | SyntaxKind::Gte
    )
}

/// Whether `kind` is the kind of an expression node.
#[verifier::when_used_as_spec(is_expr)]
pub fn is_expr_kind(kind: SyntaxKind) -> (b: bool)
    ensures
        b == is_expr(kind),
{
    matches!(
        kind,
        SyntaxKind::BinExpr | SyntaxKind::CallExpr | SyntaxKind::MemberExpr | SyntaxKind::IfExpr
            | SyntaxKind::MatchExpr | SyntaxKind::IdentNode | SyntaxKind::LiteralNode
            | SyntaxKind::ParenExpr | SyntaxKind::Block
    )
}

/// Whether `kind` is the kind of a statement node.
#[verifier::when_used_as_spec(is_stmt)]
pub fn is_stmt_kind(kind: SyntaxKind) -> (b: bool)
    ensures
        b == is_stmt(kind),
{
    matches!(kind, SyntaxKind::LetStmt | SyntaxKind::ReturnStmt | SyntaxKind::ExprStmt | SyntaxKind::Error)
        || is_expr_kind(kind)
}

/// Whether `kind` is a binary operator.
#[verifier::when_used_as_spec(is_operator)]
pub fn is_operator_kind(kind: SyntaxKind) -> (b: bool)
    ensures
        b == is_operator(kind),
{
    matches!(
        kind,
        SyntaxKind::Plus | SyntaxKind::Minus | SyntaxKind::Star | SyntaxKind::Slash
            | SyntaxKind::Percent | SyntaxKind::EqEq | SyntaxKind::Neq | SyntaxKind::Lt
            | SyntaxKind::Lte | SyntaxKind::Gt | SyntaxKind::Gte | SyntaxKind::AndAnd
            | SyntaxKind::OrOr
    )
}

/// Whether `element` is of the sort `pick`.
pub open spec fn picks(pick: Pick, element: SyntaxElement) -> bool {
    match element {
        SyntaxElement::Node(node) => match pick {
            Pick::Node(kind) => node.kind == kind,
            Pick::NodeExcept(kind) => node.kind != kind,
            Pick::AnyNode => true,
            Pick::ExprNode => is_expr(node.kind),
            Pick::StmtNode => is_stmt(node.kind),
            _ => false,
        },
        SyntaxElement::Token(token) => match pick {
            Pick::Token(kind) => token.kind == kind,
            Pick::LiteralToken => token.kind.spec_is_literal(),
            Pick::OperatorToken => is_operator(token.kind),
            Pick::AnyToken => true,
            Pick::CompiledOperator => is_compiled_operator(token.kind),
            _ => false,
        },
    }
}

/// The position of the first child of `node` at or behind `from` that is of
/// the sort `pick`.
pub open spec fn index_of(node: SyntaxNode, pick: Pick, from: nat) -> Option<nat>
    decreases node.children@.len() - from,
{
    if from >= node.children@.len() {
        None
    } else if picks(pick, node.children@[from as int]) {
        Some(from)
    } else {
        index_of(node, pick, from + 1)
    }
}

/// The first child node of the sort `pick` at or behind `from`, with its
/// position.
pub open spec fn node_from(node: SyntaxNode, pick: Pick, from: nat) -> Option<(nat, SyntaxNode)> {
    match index_of(node, pick, from) {
        Some(j) => if j < node.children@.len() && node.children@[j as int] is Node {
            Some((j, node.children@[j as int]->Node_0))
        } else {
            None
        },
        None => None,
    }
}

/// The first child token of the sort `pick` at or behind `from`, with its
/// position.
pub open spec fn token_from(node: SyntaxNode, pick: Pick, from: nat) -> Option<
    (nat, SyntaxToken),
> {
    match index_of(node, pick, from) {
        Some(j) => if j < node.children@.len() && node.children@[j as int] is Token {
            Some((j, node.children@[j as int]->Token_0))
        } else {
            None
        },
        None => None,
    }
}

/// The first child node of the sort `pick`.
pub open spec fn first_node(node: SyntaxNode, pick: Pick) -> Option<SyntaxNode> {
    match node_from(node, pick, 0) {
        Some((_, child)) => Some(child),
        None => None,
    }
}

/// The first child token of the sort `pick`.
pub open spec fn first_token(node: SyntaxNode, pick: Pick) -> Option<SyntaxToken> {
    match token_from(node, pick, 0) {
        Some((_, token)) => Some(token),
        None => None,
    }
}

/// A position that is found lies at or behind the start, within the node,
/// and holds a child of the sort asked for.
pub proof fn lemma_index_of(node: SyntaxNode, pick: Pick, from: nat)
    ensures
        index_of(node, pick, from) matches Some(j) ==> from <= j < node.children@.len() && picks(
            pick,
            node.children@[j as int],
        ),
    decreases node.children@.len() - from,
{
    if from < node.children@.len() && !picks(pick, node.children@[from as int]) {
        lemma_index_of(node, pick, from + 1);
    }
}

/// Where nothing is found, nothing of the sort stands at or behind the
/// start.
pub proof fn lemma_not_found(node: SyntaxNode, pick: Pick, from: nat, j: int)
    requires
        index_of(node, pick, from) is None,
        from <= j < node.children@.len(),
    ensures
        !picks(pick, node.children@[j]),
    decreases node.children@.len() - from,
{
    if from < j {
        lemma_not_found(node, pick, from + 1, j);
    }
}

/// The position of the last child node of `node`.
pub fn last_node(node: &SyntaxNode) -> (last: Option<usize>)
    ensures
        last matches Some(l) ==> l < node.children@.len() && node.children@[l as int] is Node
            && index_of(*node, Pick::AnyNode, (l + 1) as nat) is None,
        last is None ==> index_of(*node, Pick::AnyNode, 0) is None,
{
    let mut i: usize = node.children.len();
    while i > 0
        invariant
            i <= node.children@.len(),
            index_of(*node, Pick::AnyNode, i as nat) is None,
        decreases i,
    {
        i -= 1;
        if picks_exec(Pick::AnyNode, &node.children[i]) {
            return Some(i);
        }
    }
    None
}

/// Whether `pick` takes `element`.
fn picks_exec(pick: Pick, element: &SyntaxElement) -> (b: bool)
    ensures
        b == picks(pick, *element),
{
    match element {
        SyntaxElement::Node(node) => match pick {
            Pick::Node(kind) => node.kind == kind,
            Pick::NodeExcept(kind) => node.kind != kind,
            Pick::AnyNode => true,
            Pick::ExprNode => is_expr_kind(node.kind),
            Pick::StmtNode => is_stmt_kind(node.kind),
            _ => false,
        },
        SyntaxElement::Token(token) => match pick {
            Pick::Token(kind) => token.kind == kind,
            Pick::LiteralToken => token.kind.is_literal(),
            Pick::OperatorToken => is_operator_kind(token.kind),
            Pick::AnyToken => true,
            Pick::CompiledOperator => is_bin_op(token.kind),
            _ => false,
        },
    }
}

/// The position of the first child at or behind `from` that is of the sort
/// `pick`.
pub fn find(node: &SyntaxNode, pick: Pick, from: usize) -> (found: Option<usize>)
    ensures
        found matches Some(j) ==> index_of(*node, pick, from as nat) == Some(j as nat) && from
            <= j < node.children@.len() && j < usize::MAX && picks(
            pick,
            node.children@[j as int],
        ),
        found is None ==> index_of(*node, pick, from as nat) is None,
{
    let mut i: usize = from;
    while i < node.children.len()
        invariant
            from <= i,
            index_of(*node, pick, from as nat) == index_of(*node, pick, i as nat),
        decreases node.children@.len() - i,
    {
        if picks_exec(pick, &node.children[i]) {
            return Some(i);
        }
        i += 1;
    }
    None
}

/// The first child node of the sort `pick` at or behind `from`, with its
/// position.
pub fn find_node<'a>(node: &'a SyntaxNode, pick: Pick, from: usize) -> (found: Option<
    (usize, &'a SyntaxNode),
>)
    ensures
        found matches Some((j, child)) ==> node_from(*node, pick, from as nat) == Some(
            (j as nat, *child),
        ) && from <= j < node.children@.len() && j < usize::MAX && node.children@[j as int]
            == SyntaxElement::Node(*child) && picks(pick, SyntaxElement::Node(*child))
            && decreases_to!(node => child),
        found is None ==> node_from(*node, pick, from as nat) is None,
{
    match find(node, pick, from) {
        Some(j) => match &node.children[j] {
            SyntaxElement::Node(child) => Some((j, child)),
            SyntaxElement::Token(_) => None,
        },
        None => None,
    }
}

/// The first child token of the sort `pick` at or behind `from`, with its
/// position.
pub fn find_token<'a>(node: &'a SyntaxNode, pick: Pick, from: usize) -> (found: Option<
    (usize, &'a SyntaxToken),
>)
    ensures
        found matches Some((j, token)) ==> token_from(*node, pick, from as nat) == Some(
            (j as nat, *token),
        ) && from <= j < node.children@.len() && j < usize::MAX && node.children@[j as int]
            == SyntaxElement::Token(*token) && picks(pick, SyntaxElement::Token(*token)),
        found is None ==> token_from(*node, pick, from as nat) is None,
{
    match find(node, pick, from) {
        Some(j) => match &node.children[j] {
            SyntaxElement::Token(token) => Some((j, token)),
            SyntaxElement::Node(_) => None,
        },
        None => None,
    }
}

/// The first `Type` child behind the first `->`.
pub open spec fn return_type(node: SyntaxNode) -> Option<SyntaxNode> {
    match token_from(node, Pick::Token(SyntaxKind::Arrow), 0) {
        Some((j, _)) => match node_from(node, Pick::Node(SyntaxKind::Type), j + 1) {
            Some((_, ty)) => Some(ty),
            None => None,
        },
        None => None,
    }
}

/// The first expression behind the first token of kind `kind`.
pub open spec fn expr_after(node: SyntaxNode, kind: SyntaxKind) -> Option<SyntaxNode> {
    match token_from(node, Pick::Token(kind), 0) {
        Some((j, _)) => match node_from(node, Pick::ExprNode, j + 1) {
            Some((_, expr)) => Some(expr),
            None => None,
        },
        None => None,
    }
}

/// The `n`-th child node of `node`, counted from zero, for `n` up to two.
pub open spec fn kid(node: SyntaxNode, n: nat) -> Option<SyntaxNode> {
    match node_from(node, Pick::AnyNode, 0) {
        Some((i, first)) => if n == 0 {
            Some(first)
        } else {
            match node_from(node, Pick::AnyNode, i + 1) {
                Some((j, second)) => if n == 1 {
                    Some(second)
                } else {
                    match node_from(node, Pick::AnyNode, j + 1) {
                        Some((_, third)) => if n == 2 {
                            Some(third)
                        } else {
                            None
                        },
                        None => None,
                    }
                },
                None => None,
            }
        },
        None => None,
    }
}

/// The first `Type` child behind the first `->`.
pub fn find_return_type(node: &SyntaxNode) -> (ty: Option<&SyntaxNode>)
    ensures
        ty matches Some(t) ==> return_type(*node) == Some(*t) && decreases_to!(node => t),
        ty is None ==> return_type(*node) is None,
{
    match find_token(node, Pick::Token(SyntaxKind::Arrow), 0) {
        Some((j, _)) => match find_node(node, Pick::Node(SyntaxKind::Type), j + 1) {
            Some((_, ty)) => Some(ty),
            None => None,
        },
        None => None,
    }
}

/// The first expression behind the first token of kind `kind`.
pub fn find_expr_after_token(node: &SyntaxNode, kind: SyntaxKind) -> (expr: Option<&SyntaxNode>)
    ensures
        expr matches Some(e) ==> expr_after(*node, kind) == Some(*e) && decreases_to!(node => e),
        expr is None ==> expr_after(*node, kind) is None,
{
    match find_token(node, Pick::Token(kind), 0) {
        Some((j, _)) => match find_node(node, Pick::ExprNode, j + 1) {
            Some((_, expr)) => Some(expr),
            None => None,
        },
        None => None,
    }
}

/// The first three child nodes of `node`, as far as there are any.
pub fn kids(node: &SyntaxNode) -> (found: (
    Option<&SyntaxNode>,
    Option<&SyntaxNode>,
    Option<&SyntaxNode>,
))
    ensures
        found.0 matches Some(k) ==> kid(*node, 0) == Some(*k) && decreases_to!(node => k),
        found.0 is None ==> kid(*node, 0) is None,
        found.1 matches Some(k) ==> kid(*node, 1) == Some(*k) && decreases_to!(node => k),
        found.1 is None ==> kid(*node, 1) is None,
        found.2 matches Some(k) ==> kid(*node, 2) == Some(*k) && decreases_to!(node => k),
        found.2 is None ==> kid(*node, 2) is None,
{
    match find_node(node, Pick::AnyNode, 0) {
        Some((i, first)) => match find_node(node, Pick::AnyNode, i + 1) {
            Some((j, second)) => match find_node(node, Pick::AnyNode, j + 1) {
                Some((_, third)) => (Some(first), Some(second), Some(third)),
                None => (Some(first), Some(second), None),
            },
            None => (Some(first), None, None),
        },
        None => (None, None, None),
    }
}

} // verus!
