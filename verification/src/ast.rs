//! Typed views of the tree: a node of a known kind, found by casting.

use crate::syntax::SyntaxKind;
use crate::tree::{SyntaxElement, SyntaxNode};
use vstd::prelude::*;

verus! {

/// A node of one kind.  A node casts to the type exactly if it is of the
/// type's kind, and the cast hands the node back.
pub trait AstNode<'a>: Sized {
    /// The kind of the nodes of this type.
    spec fn node_kind() -> SyntaxKind;

    /// The node behind a value of this type.
    spec fn node(&self) -> SyntaxNode;

    /// Whether a node of `kind` casts to this type.
    fn can_cast(kind: SyntaxKind) -> (b: bool)
        ensures
            b == (kind == Self::node_kind()),
    ;

    /// The typed view of `node`, if it is of this type's kind.
    fn cast(node: &'a SyntaxNode) -> (cast: Option<Self>)
        ensures
            cast is Some <==> node.kind == Self::node_kind(),
            cast matches Some(typed) ==> typed.node() == *node,
    ;

    /// The node behind the typed view.
    fn syntax(&self) -> (node: &'a SyntaxNode)
        ensures
            *node == self.node(),
    ;
}

/// A node that is a module declaration.
#[derive(Debug)]
pub struct ModuleDecl<'a> {
    syntax: &'a SyntaxNode,
}

impl<'a> AstNode<'a> for ModuleDecl<'a> {
    open spec fn node_kind() -> SyntaxKind {
        SyntaxKind::ModuleDecl
    }

    closed spec fn node(&self) -> SyntaxNode {
        *self.syntax
    }

    fn can_cast(kind: SyntaxKind) -> (b: bool) {
        kind == SyntaxKind::ModuleDecl
    }

    fn cast(node: &'a SyntaxNode) -> (cast: Option<Self>) {
        if Self::can_cast(node.kind) {
            Some(ModuleDecl { syntax: node })
        } else {
            None
        }
    }

    fn syntax(&self) -> (node: &'a SyntaxNode) {
        self.syntax
    }
}

/// A node that is a `use` declaration.
#[derive(Debug)]
pub struct Import<'a> {
    syntax: &'a SyntaxNode,
}

impl<'a> AstNode<'a> for Import<'a> {
    open spec fn node_kind() -> SyntaxKind {
        SyntaxKind::UseDecl
    }

    closed spec fn node(&self) -> SyntaxNode {
        *self.syntax
    }

    fn can_cast(kind: SyntaxKind) -> (b: bool) {
        kind == SyntaxKind::UseDecl
    }

    fn cast(node: &'a SyntaxNode) -> (cast: Option<Self>) {
        if Self::can_cast(node.kind) {
            Some(Import { syntax: node })
        } else {
            None
        }
    }

    fn syntax(&self) -> (node: &'a SyntaxNode) {
        self.syntax
    }
}

/// A node that is a function.
#[derive(Debug)]
pub struct FnDecl<'a> {
    syntax: &'a SyntaxNode,
}

impl<'a> AstNode<'a> for FnDecl<'a> {
    open spec fn node_kind() -> SyntaxKind {
        SyntaxKind::FnDecl
    }

    closed spec fn node(&self) -> SyntaxNode {
        *self.syntax
    }

    fn can_cast(kind: SyntaxKind) -> (b: bool) {
        kind == SyntaxKind::FnDecl
    }

    fn cast(node: &'a SyntaxNode) -> (cast: Option<Self>) {
        if Self::can_cast(node.kind) {
            Some(FnDecl { syntax: node })
        } else {
            None
        }
    }

    fn syntax(&self) -> (node: &'a SyntaxNode) {
        self.syntax
    }
}

/// A node that is a parameter.
#[derive(Debug)]
pub struct Param<'a> {
    syntax: &'a SyntaxNode,
}

impl<'a> AstNode<'a> for Param<'a> {
    open spec fn node_kind() -> SyntaxKind {
        SyntaxKind::Param
    }

    closed spec fn node(&self) -> SyntaxNode {
        *self.syntax
    }

    fn can_cast(kind: SyntaxKind) -> (b: bool) {
        kind == SyntaxKind::Param
    }

    fn cast(node: &'a SyntaxNode) -> (cast: Option<Self>) {
        if Self::can_cast(node.kind) {
            Some(Param { syntax: node })
        } else {
            None
        }
    }

    fn syntax(&self) -> (node: &'a SyntaxNode) {
        self.syntax
    }
}

/// A node that is a block.
#[derive(Debug)]
pub struct Block<'a> {
    syntax: &'a SyntaxNode,
}

impl<'a> AstNode<'a> for Block<'a> {
    open spec fn node_kind() -> SyntaxKind {
        SyntaxKind::Block
    }

    closed spec fn node(&self) -> SyntaxNode {
        *self.syntax
    }

    fn can_cast(kind: SyntaxKind) -> (b: bool) {
        kind == SyntaxKind::Block
    }

    fn cast(node: &'a SyntaxNode) -> (cast: Option<Self>) {
        if Self::can_cast(node.kind) {
            Some(Block { syntax: node })
        } else {
            None
        }
    }

    fn syntax(&self) -> (node: &'a SyntaxNode) {
        self.syntax
    }
}

/// A node that is a `let` statement.
#[derive(Debug)]
pub struct Let<'a> {
    syntax: &'a SyntaxNode,
}

impl<'a> AstNode<'a> for Let<'a> {
    open spec fn node_kind() -> SyntaxKind {
        SyntaxKind::LetStmt
    }

    closed spec fn node(&self) -> SyntaxNode {
        *self.syntax
    }

    fn can_cast(kind: SyntaxKind) -> (b: bool) {
        kind == SyntaxKind::LetStmt
    }

    fn cast(node: &'a SyntaxNode) -> (cast: Option<Self>) {
        if Self::can_cast(node.kind) {
            Some(Let { syntax: node })
        } else {
            None
        }
    }

    fn syntax(&self) -> (node: &'a SyntaxNode) {
        self.syntax
    }
}

/// A node that is a struct.
#[derive(Debug)]
pub struct Struct<'a> {
    syntax: &'a SyntaxNode,
}

impl<'a> AstNode<'a> for Struct<'a> {
    open spec fn node_kind() -> SyntaxKind {
        SyntaxKind::StructDecl
    }

    closed spec fn node(&self) -> SyntaxNode {
        *self.syntax
    }

    fn can_cast(kind: SyntaxKind) -> (b: bool) {
        kind == SyntaxKind::StructDecl
    }

    fn cast(node: &'a SyntaxNode) -> (cast: Option<Self>) {
        if Self::can_cast(node.kind) {
            Some(Struct { syntax: node })
        } else {
            None
        }
    }

    fn syntax(&self) -> (node: &'a SyntaxNode) {
        self.syntax
    }
}

/// A node that is an enum.
#[derive(Debug)]
pub struct Enum<'a> {
    syntax: &'a SyntaxNode,
}

impl<'a> AstNode<'a> for Enum<'a> {
    open spec fn node_kind() -> SyntaxKind {
        SyntaxKind::EnumDecl
    }

    closed spec fn node(&self) -> SyntaxNode {
        *self.syntax
    }

    fn can_cast(kind: SyntaxKind) -> (b: bool) {
        kind == SyntaxKind::EnumDecl
    }

    fn cast(node: &'a SyntaxNode) -> (cast: Option<Self>) {
        if Self::can_cast(node.kind) {
            Some(Enum { syntax: node })
        } else {
            None
        }
    }

    fn syntax(&self) -> (node: &'a SyntaxNode) {
        self.syntax
    }
}

/// A node that is an `if`.
#[derive(Debug)]
pub struct IfExpr<'a> {
    syntax: &'a SyntaxNode,
}

impl<'a> AstNode<'a> for IfExpr<'a> {
    open spec fn node_kind() -> SyntaxKind {
        SyntaxKind::IfExpr
    }

    closed spec fn node(&self) -> SyntaxNode {
        *self.syntax
    }

    fn can_cast(kind: SyntaxKind) -> (b: bool) {
        kind == SyntaxKind::IfExpr
    }

    fn cast(node: &'a SyntaxNode) -> (cast: Option<Self>) {
        if Self::can_cast(node.kind) {
            Some(IfExpr { syntax: node })
        } else {
            None
        }
    }

    fn syntax(&self) -> (node: &'a SyntaxNode) {
        self.syntax
    }
}

/// A node that is a `match`.
#[derive(Debug)]
pub struct MatchExpr<'a> {
    syntax: &'a SyntaxNode,
}

impl<'a> AstNode<'a> for MatchExpr<'a> {
    open spec fn node_kind() -> SyntaxKind {
        SyntaxKind::MatchExpr
    }

    closed spec fn node(&self) -> SyntaxNode {
        *self.syntax
    }

    fn can_cast(kind: SyntaxKind) -> (b: bool) {
        kind == SyntaxKind::MatchExpr
    }

    fn cast(node: &'a SyntaxNode) -> (cast: Option<Self>) {
        if Self::can_cast(node.kind) {
            Some(MatchExpr { syntax: node })
        } else {
            None
        }
    }

    fn syntax(&self) -> (node: &'a SyntaxNode) {
        self.syntax
    }
}

/// A node that is a call.
#[derive(Debug)]
pub struct CallExpr<'a> {
    syntax: &'a SyntaxNode,
}

impl<'a> AstNode<'a> for CallExpr<'a> {
    open spec fn node_kind() -> SyntaxKind {
        SyntaxKind::CallExpr
    }

    closed spec fn node(&self) -> SyntaxNode {
        *self.syntax
    }

    fn can_cast(kind: SyntaxKind) -> (b: bool) {
        kind == SyntaxKind::CallExpr
    }

    fn cast(node: &'a SyntaxNode) -> (cast: Option<Self>) {
        if Self::can_cast(node.kind) {
            Some(CallExpr { syntax: node })
        } else {
            None
        }
    }

    fn syntax(&self) -> (node: &'a SyntaxNode) {
        self.syntax
    }
}

/// A node that is a name.
#[derive(Debug)]
pub struct Ident<'a> {
    syntax: &'a SyntaxNode,
}

impl<'a> AstNode<'a> for Ident<'a> {
    open spec fn node_kind() -> SyntaxKind {
        SyntaxKind::IdentNode
    }

    closed spec fn node(&self) -> SyntaxNode {
        *self.syntax
    }

    fn can_cast(kind: SyntaxKind) -> (b: bool) {
        kind == SyntaxKind::IdentNode
    }

    fn cast(node: &'a SyntaxNode) -> (cast: Option<Self>) {
        if Self::can_cast(node.kind) {
            Some(Ident { syntax: node })
        } else {
            None
        }
    }

    fn syntax(&self) -> (node: &'a SyntaxNode) {
        self.syntax
    }
}

/// A node that is a literal.
#[derive(Debug)]
pub struct Literal<'a> {
    syntax: &'a SyntaxNode,
}

impl<'a> AstNode<'a> for Literal<'a> {
    open spec fn node_kind() -> SyntaxKind {
        SyntaxKind::LiteralNode
    }

    closed spec fn node(&self) -> SyntaxNode {
        *self.syntax
    }

    fn can_cast(kind: SyntaxKind) -> (b: bool) {
        kind == SyntaxKind::LiteralNode
    }

    fn cast(node: &'a SyntaxNode) -> (cast: Option<Self>) {
        if Self::can_cast(node.kind) {
            Some(Literal { syntax: node })
        } else {
            None
        }
    }

    fn syntax(&self) -> (node: &'a SyntaxNode) {
        self.syntax
    }
}

/// The child nodes of `node` that cast to `T`, from child `i` on.
pub open spec fn typed_from<'a, T: AstNode<'a>>(node: SyntaxNode, i: nat) -> Seq<SyntaxNode>
    decreases node.children@.len() - i,
{
    if i >= node.children@.len() {
        Seq::empty()
    } else {
        (match node.children@[i as int] {
            SyntaxElement::Node(child) => if child.kind == T::node_kind() {
                seq![child]
            } else {
                Seq::empty()
            },
            SyntaxElement::Token(_) => Seq::empty(),
        }) + typed_from::<T>(node, i + 1)
    }
}

/// The nodes behind typed nodes.
pub open spec fn nodes_of<'a, T: AstNode<'a>>(typed: Seq<T>) -> Seq<SyntaxNode> {
    Seq::new(typed.len(), |i: int| typed[i].node())
}

/// The child nodes of `node` that are of the kind of `T`, in order.
pub fn children<'a, T: AstNode<'a>>(node: &'a SyntaxNode) -> (found: Vec<T>)
    ensures
        nodes_of(found@) == typed_from::<T>(*node, 0),
{
    let mut found: Vec<T> = Vec::new();
    let mut i: usize = 0;
    proof {
        assert(nodes_of(found@) + typed_from::<T>(*node, 0) =~= typed_from::<T>(*node, 0));
    }
    while i < node.children.len()
        invariant
            i <= node.children@.len(),
            nodes_of(found@) + typed_from::<T>(*node, i as nat) == typed_from::<T>(*node, 0),
        decreases node.children@.len() - i,
    {
        let ghost before = nodes_of(found@);
        if let SyntaxElement::Node(child) = &node.children[i] {
            if let Some(typed) = T::cast(child) {
                found.push(typed);
                proof {
                    assert(nodes_of(found@) =~= before.push(*child));
                }
            }
        }
        proof {
            assert(nodes_of(found@) + typed_from::<T>(*node, (i + 1) as nat) =~= before
                + typed_from::<T>(*node, i as nat));
        }
        i += 1;
    }
    proof {
        assert(nodes_of(found@) + Seq::<SyntaxNode>::empty() =~= nodes_of(found@));
    }
    found
}

} // verus!
