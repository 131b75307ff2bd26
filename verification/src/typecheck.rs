//! The type checker: one walk over each function, collecting diagnostics.
//!
//! What is reported is stated as spec functions on the tree
//! ([`diagnostics_of`] and what it calls); the executable checker is proved
//! to report exactly that.

use crate::formatter::initializer;
use crate::green::MAX_TEXT_LEN;
use crate::parser::{is_tree_of, parse};
use crate::query::{
    find_expr_after_token, find_node, find_return_type, find_token, first_node, first_token,
    index_of, is_expr, is_expr_kind, is_operator, kid, kids, last_node, lemma_not_found,
    node_from, return_type, Pick,
};
use crate::syntax::SyntaxKind;
use crate::text::{str_eq, trim, trimmed};
use crate::tree::{node_text, to_string_lossless, SyntaxElement, SyntaxNode};
use vstd::prelude::*;
use vstd::string::*;

verus! {

/// A range of bytes of the source.
#[derive(Debug, Clone, Copy, PartialEq, Eq, Structural)]
pub struct Span {
    pub start: usize,
    pub end: usize,
}

/// What the checker found wrong: a stable code, a message, the range of the
/// node at fault, and the types that were expected and found, by name.
#[derive(Debug, PartialEq, Eq)]
pub struct Diagnostic {
    pub code: String,
    pub message: String,
    pub span: Span,
    pub expected: Option<String>,
    pub actual: Option<String>,
}

/// A diagnostic as a value.
pub struct DiagnosticView {
    pub code: Seq<char>,
    pub message: Seq<char>,
    pub span: Span,
    pub expected: Option<Seq<char>>,
    pub actual: Option<Seq<char>>,
}

/// The text of an optional string.
pub open spec fn option_view(text: Option<String>) -> Option<Seq<char>> {
    match text {
        Some(t) => Some(t@),
        None => None,
    }
}

impl View for Diagnostic {
    type V = DiagnosticView;

    open spec fn view(&self) -> DiagnosticView {
        DiagnosticView {
            code: self.code@,
            message: self.message@,
            span: self.span,
            expected: option_view(self.expected),
            actual: option_view(self.actual),
        }
    }
}

/// The diagnostics of `list` as values.
pub open spec fn diagnostic_views(list: Seq<Diagnostic>) -> Seq<DiagnosticView> {
    Seq::new(list.len(), |i: int| list[i]@)
}

/// The types that the checker tells apart.
#[derive(Debug)]
pub enum Type {
    I64,
    I32,
    F64,
    Bool,
    String,
    Bytes,
    Unit,
    Named(String),
    Unknown,
    Error,
}

/// A type as a value.
pub enum TypeView {
    I64,
    I32,
    F64,
    Bool,
    String,
    Bytes,
    Unit,
    Named(Seq<char>),
    Unknown,
    Error,
}

impl View for Type {
    type V = TypeView;

    open spec fn view(&self) -> TypeView {
        match self {
            Type::I64 => TypeView::I64,
            Type::I32 => TypeView::I32,
            Type::F64 => TypeView::F64,
            Type::Bool => TypeView::Bool,
            Type::String => TypeView::String,
            Type::Bytes => TypeView::Bytes,
            Type::Unit => TypeView::Unit,
            Type::Named(name) => TypeView::Named(name@),
            Type::Unknown => TypeView::Unknown,
            Type::Error => TypeView::Error,
        }
    }
}

impl Clone for Type {
    fn clone(&self) -> (copy: Self)
        ensures
            copy@ == self@,
    {
        match self {
            Type::I64 => Type::I64,
            Type::I32 => Type::I32,
            Type::F64 => Type::F64,
            Type::Bool => Type::Bool,
            Type::String => Type::String,
            Type::Bytes => Type::Bytes,
            Type::Unit => Type::Unit,
            Type::Named(name) => Type::Named(name.clone()),
            Type::Unknown => Type::Unknown,
            Type::Error => Type::Error,
        }
    }
}

/// The name of a type as diagnostics write it.
pub open spec fn name_of_type(ty: TypeView) -> Seq<char> {
    match ty {
        TypeView::I64 => "i64"@,
        TypeView::I32 => "i32"@,
        TypeView::F64 => "f64"@,
        TypeView::Bool => "bool"@,
        TypeView::String => "string"@,
        TypeView::Bytes => "bytes"@,
        TypeView::Unit => "()"@,
        TypeView::Named(name) => name,
        TypeView::Unknown => "<unknown>"@,
        TypeView::Error => "<error>"@,
    }
}

impl Type {
    /// The name of the type as diagnostics write it.
    pub fn name(&self) -> (name: String)
        ensures
            name@ == name_of_type(self@),
    {
        match self {
            Type::I64 => String::from_str("i64"),
            Type::I32 => String::from_str("i32"),
            Type::F64 => String::from_str("f64"),
            Type::Bool => String::from_str("bool"),
            Type::String => String::from_str("string"),
            Type::Bytes => String::from_str("bytes"),
            Type::Unit => String::from_str("()"),
            Type::Named(name) => name.clone(),
            Type::Unknown => String::from_str("<unknown>"),
            Type::Error => String::from_str("<error>"),
        }
    }
}

/// The type that a text names: one of the built-in names, or a named type.
/// White space at the ends does not count.
pub open spec fn type_of_text(text: Seq<char>) -> TypeView {
    let name = trimmed(text);
    if name == "i64"@ {
        TypeView::I64
    } else if name == "i32"@ {
        TypeView::I32
    } else if name == "f64"@ {
        TypeView::F64
    } else if name == "bool"@ {
        TypeView::Bool
    } else if name == "string"@ {
        TypeView::String
    } else if name == "bytes"@ {
        TypeView::Bytes
    } else if name == "()"@ {
        TypeView::Unit
    } else {
        TypeView::Named(name)
    }
}

/// The type that a `Type` node names.
pub open spec fn type_of_node(node: SyntaxNode) -> TypeView {
    type_of_text(node_text(node))
}

/// The integer and floating-point types.
pub open spec fn numeric(ty: TypeView) -> bool {
    ty == TypeView::I64 || ty == TypeView::I32 || ty == TypeView::F64
}

/// Two types go together if they are the same or one of them is unknown.
pub open spec fn compatible(a: TypeView, b: TypeView) -> bool {
    a == TypeView::Unknown || b == TypeView::Unknown || a == b
}

/// A scope: names with their types, the latest binding last.
pub type ScopeView = Seq<(Seq<char>, TypeView)>;

/// The type that `scope` gives `name`, looking at its first `n` bindings,
/// the latest first.
pub open spec fn binding_in(scope: ScopeView, name: Seq<char>, n: nat) -> Option<TypeView>
    decreases n,
{
    if n == 0 || n > scope.len() {
        None
    } else if scope[n - 1].0 == name {
        Some(scope[n - 1].1)
    } else {
        binding_in(scope, name, (n - 1) as nat)
    }
}

/// The type of `name` in the first `n` scopes, the innermost first.
pub open spec fn lookup_in(scopes: Seq<ScopeView>, name: Seq<char>, n: nat) -> Option<TypeView>
    decreases n,
{
    if n == 0 || n > scopes.len() {
        None
    } else {
        match binding_in(scopes[n - 1], name, scopes[n - 1].len()) {
            Some(ty) => Some(ty),
            None => lookup_in(scopes, name, (n - 1) as nat),
        }
    }
}

/// The type of `name`: that of its latest binding in the innermost scope
/// that binds it.
pub open spec fn lookup(scopes: Seq<ScopeView>, name: Seq<char>) -> Option<TypeView> {
    lookup_in(scopes, name, scopes.len())
}

/// What the checker knows at a point of its walk.
pub struct State {
    pub scopes: Seq<ScopeView>,
    pub current_return: TypeView,
    pub diagnostics: Seq<DiagnosticView>,
}

/// The state with `name` bound to `ty` in the innermost scope.
pub open spec fn bind(st: State, name: Seq<char>, ty: TypeView) -> State {
    if st.scopes.len() > 0 {
        State {
            scopes: st.scopes.update(st.scopes.len() - 1, st.scopes.last().push((name, ty))),
            ..st
        }
    } else {
        st
    }
}

/// The state with one more diagnostic, on the range of `node`.
pub open spec fn report(
    st: State,
    node: SyntaxNode,
    code: Seq<char>,
    message: Seq<char>,
    expected: Option<Seq<char>>,
    actual: Option<Seq<char>>,
) -> State {
    State {
        diagnostics: st.diagnostics.push(
            DiagnosticView {
                code,
                message,
                span: Span { start: node.start, end: node.end },
                expected,
                actual,
            },
        ),
        ..st
    }
}

/// The state with a `type mismatch` diagnostic on `node`.
pub open spec fn mismatch(
    st: State,
    node: SyntaxNode,
    expected: TypeView,
    actual: TypeView,
    code: Seq<char>,
) -> State {
    report(st, node, code, "type mismatch"@, Some(name_of_type(expected)), Some(name_of_type(actual)))
}

/// The first identifier below `node`: the first `Ident` token among its
/// children, or else the first identifier below one of its child nodes, in
/// document order.
pub open spec fn ident_in(node: SyntaxNode) -> Option<Seq<char>>
    decreases node, node.children@.len() + 1,
{
    match first_token(node, Pick::Token(SyntaxKind::Ident)) {
        Some(token) => Some(token.text@),
        None => ident_below(node, 0),
    }
}

/// The first identifier below a child node of `node` at or behind `i`.
pub open spec fn ident_below(node: SyntaxNode, i: nat) -> Option<Seq<char>>
    decreases node, node.children@.len() - i,
{
    if i >= node.children@.len() {
        None
    } else {
        match node.children@[i as int] {
            SyntaxElement::Node(child) => match ident_in(child) {
                Some(name) => Some(name),
                None => ident_below(node, i + 1),
            },
            SyntaxElement::Token(_) => ident_below(node, i + 1),
        }
    }
}

/// The type of a literal, by the kind of its first token.
pub open spec fn literal_type(node: SyntaxNode) -> TypeView {
    match first_token(node, Pick::AnyToken) {
        Some(token) => match token.kind {
            SyntaxKind::Int => TypeView::I64,
            SyntaxKind::Float => TypeView::F64,
            SyntaxKind::String => TypeView::String,
            SyntaxKind::Bytes => TypeView::Bytes,
            SyntaxKind::KwTrue | SyntaxKind::KwFalse => TypeView::Bool,
            _ => TypeView::Unknown,
        },
        None => TypeView::Unknown,
    }
}

/// The result type that a function declares, `Unit` where it declares none.
pub open spec fn declared_return(node: SyntaxNode) -> TypeView {
    match return_type(node) {
        Some(ty) => type_of_node(ty),
        None => TypeView::Unit,
    }
}

/// The arithmetic operators.
pub open spec fn is_arithmetic(kind: SyntaxKind) -> bool {
    kind == SyntaxKind::Plus || kind == SyntaxKind::Minus || kind == SyntaxKind::Star || kind
        == SyntaxKind::Slash || kind == SyntaxKind::Percent
}

/// The operators that compare by order.
pub open spec fn is_ordering(kind: SyntaxKind) -> bool {
    kind == SyntaxKind::Lt || kind == SyntaxKind::Lte || kind == SyntaxKind::Gt || kind
        == SyntaxKind::Gte
}

/// The type of `left op right` for operand types that are not `Error`, and
/// whether the operands fit the operator.  Arithmetic wants numeric operands
/// that go together and has their type; equality wants operands that go
/// together, ordering wants them numeric as well, and the logical operators
/// want `Bool` on both sides: all these are `Bool`.
pub open spec fn binary_type(op: SyntaxKind, l: TypeView, r: TypeView) -> Option<TypeView> {
    if is_arithmetic(op) {
        if numeric(l) && compatible(l, r) {
            Some(l)
        } else {
            None
        }
    } else if op == SyntaxKind::EqEq || op == SyntaxKind::Neq {
        if compatible(l, r) {
            Some(TypeView::Bool)
        } else {
            None
        }
    } else if is_ordering(op) {
        if numeric(l) && compatible(l, r) {
            Some(TypeView::Bool)
        } else {
            None
        }
    } else {
        if l == TypeView::Bool && r == TypeView::Bool {
            Some(TypeView::Bool)
        } else {
            None
        }
    }
}

/// Checks every function of the tree.
pub open spec fn check_root_spec(node: SyntaxNode, st: State) -> State {
    items_from(node, 0, st)
}

/// Checks the functions among the children of `node` from `i` on.
pub open spec fn items_from(node: SyntaxNode, i: nat, st: State) -> State
    decreases node.children@.len() - i,
{
    if i >= node.children@.len() {
        st
    } else {
        match node.children@[i as int] {
            SyntaxElement::Node(item) => if item.kind == SyntaxKind::FnDecl {
                items_from(node, i + 1, check_fn_spec(item, st))
            } else {
                items_from(node, i + 1, st)
            },
            SyntaxElement::Token(_) => items_from(node, i + 1, st),
        }
    }
}

/// Checks one function: in a fresh scope that binds its parameters, the
/// body must have the declared result type unless its type is `Error`.
pub open spec fn check_fn_spec(node: SyntaxNode, st: State) -> State {
    let entered = State {
        scopes: st.scopes.push(Seq::empty()),
        current_return: declared_return(node),
        ..st
    };
    let bound = match first_node(node, Pick::Node(SyntaxKind::ParamList)) {
        Some(params) => params_from(params, 0, entered),
        None => entered,
    };
    let checked = match first_node(node, Pick::Node(SyntaxKind::Block)) {
        Some(body) => {
            let (ty, after) = check_block_spec(body, bound);
            if ty != TypeView::Error && !compatible(after.current_return, ty) {
                mismatch(after, body, after.current_return, ty, "E0004"@)
            } else {
                after
            }
        },
        None => bound,
    };
    State {
        scopes: if checked.scopes.len() > 0 {
            checked.scopes.drop_last()
        } else {
            checked.scopes
        },
        current_return: st.current_return,
        ..checked
    }
}

/// Binds the parameters among the children of `list` from `i` on: each
/// that has a name and a type.
pub open spec fn params_from(list: SyntaxNode, i: nat, st: State) -> State
    decreases list.children@.len() - i,
{
    if i >= list.children@.len() {
        st
    } else {
        match list.children@[i as int] {
            SyntaxElement::Node(param) => if param.kind == SyntaxKind::Param {
                params_from(list, i + 1, bind_param(param, st))
            } else {
                params_from(list, i + 1, st)
            },
            SyntaxElement::Token(_) => params_from(list, i + 1, st),
        }
    }
}

/// Binds one parameter, if it has a name and a type.
pub open spec fn bind_param(param: SyntaxNode, st: State) -> State {
    match ident_in(param) {
        Some(name) => match first_node(param, Pick::Node(SyntaxKind::Type)) {
            Some(ty) => bind(st, name, type_of_node(ty)),
            None => st,
        },
        None => st,
    }
}

/// Checks a block.  Its type is that of its last child node where that is
/// an expression, else `Unit`.
pub open spec fn check_block_spec(node: SyntaxNode, st: State) -> (TypeView, State)
    decreases node, 1nat, 0nat,
{
    match first_node(node, Pick::Node(SyntaxKind::StmtList)) {
        Some(stmts) => stmts_from(stmts, 0, st, TypeView::Unit),
        None => (TypeView::Unit, st),
    }
}

/// Checks the statements of a list from child `i` on.
pub open spec fn stmts_from(stmts: SyntaxNode, i: nat, st: State, last: TypeView) -> (
    TypeView,
    State,
)
    decreases stmts, 0nat, stmts.children@.len() - i,
{
    if i >= stmts.children@.len() {
        (last, st)
    } else {
        match stmts.children@[i as int] {
            SyntaxElement::Node(stmt) => if index_of(stmts, Pick::AnyNode, i + 1) is None
                && is_expr(stmt.kind) {
                let (ty, after) = check_expr_spec(stmt, st);
                stmts_from(stmts, i + 1, after, ty)
            } else {
                stmts_from(stmts, i + 1, check_stmt_spec(stmt, st), last)
            },
            SyntaxElement::Token(_) => stmts_from(stmts, i + 1, st, last),
        }
    }
}

/// Checks one statement.
pub open spec fn check_stmt_spec(node: SyntaxNode, st: State) -> State
    decreases node, 3nat, 0nat,
{
    match node.kind {
        SyntaxKind::LetStmt => check_let_spec(node, st),
        SyntaxKind::ReturnStmt => check_return_spec(node, st),
        SyntaxKind::ExprStmt => match first_node(node, Pick::ExprNode) {
            Some(expr) => check_expr_spec(expr, st).1,
            None => st,
        },
        _ => if is_expr(node.kind) {
            check_expr_spec(node, st).1
        } else {
            st
        },
    }
}

/// Checks a `let`: an annotation must go together with the type of the
/// value (`E0003`); the name, if the pattern has one, is bound to the
/// annotation where there is one, else to the type of the value.
pub open spec fn check_let_spec(node: SyntaxNode, st: State) -> State
    decreases node, 1nat, 0nat,
{
    let name = match first_node(node, Pick::Node(SyntaxKind::Pattern)) {
        Some(pattern) => ident_in(pattern),
        None => None,
    };
    let annotation = match first_node(node, Pick::Node(SyntaxKind::Type)) {
        Some(ty) => Some(type_of_node(ty)),
        None => None,
    };
    let (value, after) = match initializer(node) {
        Some(expr) => check_expr_spec(expr, st),
        None => (TypeView::Unknown, st),
    };
    let (bound, checked) = match annotation {
        Some(annotation) => (
            annotation,
            if !compatible(annotation, value) {
                mismatch(after, node, annotation, value, "E0003"@)
            } else {
                after
            },
        ),
        None => (value, after),
    };
    match name {
        Some(name) => bind(checked, name, bound),
        None => checked,
    }
}

/// Checks a `return`: the value, `Unit` where there is none, must go
/// together with the result type of the function (`E0004`).
pub open spec fn check_return_spec(node: SyntaxNode, st: State) -> State
    decreases node, 1nat, 0nat,
{
    let (value, after) = match first_node(node, Pick::ExprNode) {
        Some(expr) => check_expr_spec(expr, st),
        None => (TypeView::Unit, st),
    };
    if !compatible(after.current_return, value) {
        mismatch(after, node, after.current_return, value, "E0004"@)
    } else {
        after
    }
}

/// Checks an expression and gives its type.
pub open spec fn check_expr_spec(node: SyntaxNode, st: State) -> (TypeView, State)
    decreases node, 2nat, 0nat,
{
    match node.kind {
        SyntaxKind::IdentNode => match ident_in(node) {
            Some(name) => match lookup(st.scopes, name) {
                Some(ty) => (ty, st),
                None => (
                    TypeView::Error,
                    report(st, node, "E0001"@, "undefined variable"@, None, Some(name)),
                ),
            },
            None => (TypeView::Unknown, st),
        },
        SyntaxKind::LiteralNode => (literal_type(node), st),
        SyntaxKind::BinExpr => check_bin_spec(node, st),
        SyntaxKind::IfExpr => check_if_spec(node, st),
        SyntaxKind::MatchExpr => check_match_spec(node, st),
        SyntaxKind::Block => check_block_spec(node, st),
        SyntaxKind::ParenExpr => match first_node(node, Pick::ExprNode) {
            Some(inner) => check_expr_spec(inner, st),
            None => (TypeView::Unknown, st),
        },
        _ => (TypeView::Unknown, st),
    }
}

/// Checks an `if`: the condition must be `Bool` (`E0005`) unless its type
/// is `Error`.  With an `else`, the two branches must go together
/// (`E0006`), and the type is that of the first; without one, the first
/// branch is checked and the type is `Unit`.
pub open spec fn check_if_spec(node: SyntaxNode, st: State) -> (TypeView, State)
    decreases node, 1nat, 0nat,
{
    let after_cond = match kid(node, 0) {
        Some(cond) => {
            let (ty, after) = check_expr_spec(cond, st);
            if ty != TypeView::Bool && ty != TypeView::Error {
                mismatch(after, cond, TypeView::Bool, ty, "E0005"@)
            } else {
                after
            }
        },
        None => st,
    };
    let (then_ty, after_then) = match kid(node, 1) {
        Some(block) => check_expr_spec(block, after_cond),
        None => (TypeView::Unit, after_cond),
    };
    match kid(node, 2) {
        Some(block) => {
            let (else_ty, after_else) = check_expr_spec(block, after_then);
            if !compatible(then_ty, else_ty) {
                (TypeView::Error, mismatch(after_else, node, then_ty, else_ty, "E0006"@))
            } else {
                (then_ty, after_else)
            }
        },
        None => (TypeView::Unit, after_then),
    }
}

/// Checks a `match`: what is matched, then the arms.
pub open spec fn check_match_spec(node: SyntaxNode, st: State) -> (TypeView, State)
    decreases node, 1nat, 0nat,
{
    match node_from(node, Pick::AnyNode, 0) {
        Some((s, scrutinee)) => arms_from(node, s + 1, check_expr_spec(scrutinee, st).1, None),
        None => (TypeView::Unit, st),
    }
}

/// Checks the arms of a `match` from child `i` on.  Each arm must go
/// together with the first (`E0007`); at the first that does not, the check
/// of the `match` ends with `Error`.  The type is that of the first arm,
/// `Unit` where there is none.
pub open spec fn arms_from(node: SyntaxNode, i: nat, st: State, first: Option<TypeView>) -> (
    TypeView,
    State,
)
    decreases node, 0nat, node.children@.len() - i,
{
    if i >= node.children@.len() {
        (
            match first {
                Some(ty) => ty,
                None => TypeView::Unit,
            },
            st,
        )
    } else {
        match node.children@[i as int] {
            SyntaxElement::Node(arm) => if arm.kind == SyntaxKind::MatchArm {
                match first_node(arm, Pick::ExprNode) {
                    Some(expr) => {
                        let (ty, after) = check_expr_spec(expr, st);
                        match first {
                            Some(existing) => if !compatible(existing, ty) {
                                (
                                    TypeView::Error,
                                    mismatch(after, arm, existing, ty, "E0007"@),
                                )
                            } else {
                                arms_from(node, i + 1, after, first)
                            },
                            None => arms_from(node, i + 1, after, Some(ty)),
                        }
                    },
                    None => arms_from(node, i + 1, st, first),
                }
            } else {
                arms_from(node, i + 1, st, first)
            },
            SyntaxElement::Token(_) => arms_from(node, i + 1, st, first),
        }
    }
}

/// Checks a binary expression: both operands, then the operator
/// (`E0003`).  An operand of type `Error` makes the whole `Error` without a
/// further diagnostic; where an operand or the operator is missing the type
/// is unknown and nothing is checked.
pub open spec fn check_bin_spec(node: SyntaxNode, st: State) -> (TypeView, State)
    decreases node, 1nat, 0nat,
{
    match kid(node, 0) {
        Some(left) => match kid(node, 1) {
            Some(right) => match first_token(node, Pick::OperatorToken) {
                Some(op) => {
                    let (l, after_left) = check_expr_spec(left, st);
                    let (r, after) = check_expr_spec(right, after_left);
                    if l == TypeView::Error || r == TypeView::Error {
                        (TypeView::Error, after)
                    } else {
                        match binary_type(op.kind, l, r) {
                            Some(ty) => (ty, after),
                            None => (
                                TypeView::Error,
                                mismatch(
                                    after,
                                    node,
                                    if op.kind == SyntaxKind::AndAnd || op.kind
                                        == SyntaxKind::OrOr {
                                        TypeView::Bool
                                    } else {
                                        l
                                    },
                                    if op.kind == SyntaxKind::AndAnd || op.kind
                                        == SyntaxKind::OrOr {
                                        l
                                    } else {
                                        r
                                    },
                                    "E0003"@,
                                ),
                            ),
                        }
                    }
                },
                None => (TypeView::Unknown, st),
            },
            None => (TypeView::Unknown, st),
        },
        None => (TypeView::Unknown, st),
    }
}

/// The state in which a check starts: one empty scope, no diagnostics.
pub open spec fn initial_state() -> State {
    State {
        scopes: seq![Seq::empty()],
        current_return: TypeView::Unit,
        diagnostics: Seq::empty(),
    }
}

/// The diagnostics of a tree.
pub open spec fn diagnostics_of(root: SyntaxNode) -> Seq<DiagnosticView> {
    check_root_spec(root, initial_state()).diagnostics
}

/// A scope as the checker holds it, as values.
pub open spec fn scope_view(scope: Seq<(String, Type)>) -> ScopeView {
    Seq::new(scope.len(), |j: int| (scope[j].0@, scope[j].1@))
}

/// The scopes as the checker holds them, as values.
pub open spec fn scopes_view(scopes: Seq<Vec<(String, Type)>>) -> Seq<ScopeView> {
    Seq::new(scopes.len(), |i: int| scope_view(scopes[i]@))
}

/// The type in an optional type.
pub open spec fn option_type_view(ty: Option<Type>) -> Option<TypeView> {
    match ty {
        Some(t) => Some(t@),
        None => None,
    }
}

/// The diagnostics that a check hands back.
#[derive(Debug)]
pub struct CheckResult {
    pub diagnostics: Vec<Diagnostic>,
}

/// The checker: its scopes, the innermost last; the result type of the
/// function being checked; and the diagnostics so far.
pub struct Checker {
    pub scopes: Vec<Vec<(String, Type)>>,
    pub current_return: Type,
    pub diagnostics: Vec<Diagnostic>,
}

impl View for Checker {
    type V = State;

    open spec fn view(&self) -> State {
        State {
            scopes: scopes_view(self.scopes@),
            current_return: self.current_return@,
            diagnostics: diagnostic_views(self.diagnostics@),
        }
    }
}

/// Whether two types are the same.
fn type_eq(a: &Type, b: &Type) -> (same: bool)
    ensures
        same == (a@ == b@),
{
    match (a, b) {
        (Type::I64, Type::I64) => true,
        (Type::I32, Type::I32) => true,
        (Type::F64, Type::F64) => true,
        (Type::Bool, Type::Bool) => true,
        (Type::String, Type::String) => true,
        (Type::Bytes, Type::Bytes) => true,
        (Type::Unit, Type::Unit) => true,
        (Type::Named(x), Type::Named(y)) => str_eq(x.as_str(), y.as_str()),
        (Type::Unknown, Type::Unknown) => true,
        (Type::Error, Type::Error) => true,
        _ => false,
    }
}

/// Whether `ty` is a type of numbers.
fn is_numeric(ty: &Type) -> (b: bool)
    ensures
        b == numeric(ty@),
{
    matches!(ty, Type::I64 | Type::I32 | Type::F64)
}

/// Whether two types are compatible: the same, or one of them unknown.
fn type_compatible(a: &Type, b: &Type) -> (fits: bool)
    ensures
        fits == compatible(a@, b@),
{
    match (a, b) {
        (Type::Unknown, _) => true,
        (_, Type::Unknown) => true,
        _ => type_eq(a, b),
    }
}

/// The type that a `Type` node names.
fn type_from_node(node: &SyntaxNode) -> (ty: Type)
    ensures
        ty@ == type_of_node(*node),
{
    let text = to_string_lossless(node);
    let name = trim(text.as_str());
    if str_eq(name, "i64") {
        Type::I64
    } else if str_eq(name, "i32") {
        Type::I32
    } else if str_eq(name, "f64") {
        Type::F64
    } else if str_eq(name, "bool") {
        Type::Bool
    } else if str_eq(name, "string") {
        Type::String
    } else if str_eq(name, "bytes") {
        Type::Bytes
    } else if str_eq(name, "()") {
        Type::Unit
    } else {
        Type::Named(String::from_str(name))
    }
}

/// The type of the first `Type` child of `node`.
fn find_type_in(node: &SyntaxNode) -> (ty: Option<Type>)
    ensures
        option_type_view(ty) == match first_node(*node, Pick::Node(SyntaxKind::Type)) {
            Some(found) => Some(type_of_node(found)),
            None => None,
        },
{
    match find_node(node, Pick::Node(SyntaxKind::Type), 0) {
        Some((_, found)) => Some(type_from_node(found)),
        None => None,
    }
}

/// The result type that a function declares.
fn find_return_type_in(node: &SyntaxNode) -> (ty: Option<Type>)
    ensures
        match ty {
            Some(t) => t@,
            None => TypeView::Unit,
        } == declared_return(*node),
{
    match find_return_type(node) {
        Some(found) => Some(type_from_node(found)),
        None => None,
    }
}

/// The first identifier below `node`.
fn find_ident_in(node: &SyntaxNode) -> (name: Option<String>)
    ensures
        option_view(name) == ident_in(*node),
    decreases node,
{
    if let Some((_, token)) = find_token(node, Pick::Token(SyntaxKind::Ident), 0) {
        return Some(token.text.clone());
    }
    let mut i: usize = 0;
    while i < node.children.len()
        invariant
            i <= node.children@.len(),
            ident_in(*node) == ident_below(*node, i as nat),
        decreases node.children@.len() - i,
    {
        if let SyntaxElement::Node(child) = &node.children[i] {
            if let Some(name) = find_ident_in(child) {
                return Some(name);
            }
        }
        i += 1;
    }
    None
}

/// The type of a literal.
fn literal_type_of(node: &SyntaxNode) -> (ty: Type)
    ensures
        ty@ == literal_type(*node),
{
    match find_token(node, Pick::AnyToken, 0) {
        Some((_, token)) => match token.kind {
            SyntaxKind::Int => Type::I64,
            SyntaxKind::Float => Type::F64,
            SyntaxKind::String => Type::String,
            SyntaxKind::Bytes => Type::Bytes,
            SyntaxKind::KwTrue | SyntaxKind::KwFalse => Type::Bool,
            _ => Type::Unknown,
        },
        None => Type::Unknown,
    }
}

/// The operator and the two operands of a binary expression.
fn bin_parts(node: &SyntaxNode) -> (parts: Option<(SyntaxKind, &SyntaxNode, &SyntaxNode)>)
    ensures
        parts matches Some((op, left, right)) ==> kid(*node, 0) == Some(*left) && kid(*node, 1)
            == Some(*right) && first_token(*node, Pick::OperatorToken) is Some && first_token(
            *node,
            Pick::OperatorToken,
        )->0.kind == op && is_operator(op) && decreases_to!(node => left) && decreases_to!(
            node => right,
        ),
        parts is None ==> kid(*node, 0) is None || kid(*node, 1) is None || first_token(
            *node,
            Pick::OperatorToken,
        ) is None,
{
    let (first, second, _) = kids(node);
    let left = match first {
        Some(left) => left,
        None => return None,
    };
    let right = match second {
        Some(right) => right,
        None => return None,
    };
    match find_token(node, Pick::OperatorToken, 0) {
        Some((_, op)) => Some((op.kind, left, right)),
        None => None,
    }
}

/// The range of a node.
fn span_of(node: &SyntaxNode) -> (span: Span)
    ensures
        span == (Span { start: node.start, end: node.end }),
{
    Span { start: node.start, end: node.end }
}

/// Whether `kind` is an arithmetic operator.
fn is_arithmetic_kind(kind: SyntaxKind) -> (b: bool)
    ensures
        b == is_arithmetic(kind),
{
    matches!(
        kind,
        SyntaxKind::Plus | SyntaxKind::Minus | SyntaxKind::Star | SyntaxKind::Slash
            | SyntaxKind::Percent
    )
}

/// Whether `kind` is an operator that orders its operands.
fn is_ordering_kind(kind: SyntaxKind) -> (b: bool)
    ensures
        b == is_ordering(kind),
{
    matches!(kind, SyntaxKind::Lt | SyntaxKind::Lte | SyntaxKind::Gt | SyntaxKind::Gte)
}

impl Checker {
    /// A checker with one empty scope and no diagnostics.
    pub fn new() -> (checker: Self)
        ensures
            checker@ == initial_state(),
    {
        let mut scopes: Vec<Vec<(String, Type)>> = Vec::new();
        scopes.push(Vec::new());
        let checker = Checker { scopes, current_return: Type::Unit, diagnostics: Vec::new() };
        proof {
            assert(checker@.scopes =~~= initial_state().scopes);
            assert(checker@.diagnostics =~= initial_state().diagnostics);
        }
        checker
    }

    /// Opens a scope inside the innermost.
    pub fn enter_scope(&mut self)
        ensures
            final(self)@ == (State { scopes: old(self)@.scopes.push(Seq::empty()), ..old(self)@ }),
    {
        self.scopes.push(Vec::new());
        proof {
            assert(self@.scopes =~~= old(self)@.scopes.push(Seq::empty()));
        }
    }

    /// Closes the innermost scope.
    pub fn exit_scope(&mut self)
        ensures
            final(self)@ == (State {
                scopes: if old(self)@.scopes.len() > 0 {
                    old(self)@.scopes.drop_last()
                } else {
                    old(self)@.scopes
                },
                ..old(self)@
            }),
    {
        self.scopes.pop();
        proof {
            if old(self)@.scopes.len() > 0 {
                assert(self@.scopes =~~= old(self)@.scopes.drop_last());
            } else {
                assert(self@.scopes =~~= old(self)@.scopes);
            }
        }
    }

    /// Binds `name` to `ty` in the innermost scope.
    pub fn insert_var(&mut self, name: &str, ty: Type)
        ensures
            final(self)@ == bind(old(self)@, name@, ty@),
    {
        let ghost before = self@.scopes;
        match self.scopes.pop() {
            Some(mut scope) => {
                let ghost inner = scope_view(scope@);
                scope.push((String::from_str(name), ty));
                proof {
                    assert(scope_view(scope@) =~= inner.push((name@, ty@)));
                }
                self.scopes.push(scope);
                proof {
                    assert(self@.scopes =~~= before.update(
                        before.len() - 1,
                        before.last().push((name@, ty@)),
                    ));
                }
            },
            None => {
                proof {
                    assert(self@.scopes =~~= before);
                }
            },
        }
    }

    /// The type of `name`: its latest binding in the innermost scope that has
    /// one.
    pub fn lookup_var(&self, name: &str) -> (ty: Option<Type>)
        ensures
            option_type_view(ty) == lookup(self@.scopes, name@),
    {
        let mut n: usize = self.scopes.len();
        while n > 0
            invariant
                n <= self.scopes@.len(),
                lookup(self@.scopes, name@) == lookup_in(self@.scopes, name@, n as nat),
            decreases n,
        {
            let scope = &self.scopes[n - 1];
            let ghost bindings = scope_view(scope@);
            proof {
                assert(self@.scopes[n - 1] == bindings);
            }
            let mut m: usize = scope.len();
            while m > 0
                invariant
                    0 < n <= self.scopes@.len(),
                    lookup(self@.scopes, name@) == lookup_in(self@.scopes, name@, n as nat),
                    self@.scopes[n - 1] == bindings,
                    m <= scope@.len(),
                    bindings == scope_view(scope@),
                    binding_in(bindings, name@, bindings.len()) == binding_in(
                        bindings,
                        name@,
                        m as nat,
                    ),
                decreases m,
            {
                if str_eq(scope[m - 1].0.as_str(), name) {
                    return Some(scope[m - 1].1.clone());
                }
                m -= 1;
            }
            n -= 1;
        }
        None
    }

    /// Adds a diagnostic at `node`.
    fn report(
        &mut self,
        node: &SyntaxNode,
        code: &str,
        message: &str,
        expected: Option<String>,
        actual: Option<String>,
    )
        ensures
            final(self)@ == report(
                old(self)@,
                *node,
                code@,
                message@,
                option_view(expected),
                option_view(actual),
            ),
    {
        let span = span_of(node);
        let diagnostic = Diagnostic {
            code: String::from_str(code),
            message: String::from_str(message),
            span,
            expected,
            actual,
        };
        self.diagnostics.push(diagnostic);
        proof {
            assert(self@.diagnostics =~= old(self)@.diagnostics.push(diagnostic@));
        }
    }

    /// Adds a diagnostic at `node` that names the expected and the actual type.
    fn type_mismatch(&mut self, node: &SyntaxNode, expected: &Type, actual: &Type, code: &str)
        ensures
            final(self)@ == mismatch(old(self)@, *node, expected@, actual@, code@),
    {
        self.report(node, code, "type mismatch", Some(expected.name()), Some(actual.name()));
    }

    /// Checks each function of a tree.
    pub fn check_root(&mut self, node: &SyntaxNode)
        ensures
            final(self)@ == check_root_spec(*node, old(self)@),
    {
        let mut i: usize = 0;
        while i < node.children.len()
            invariant
                i <= node.children@.len(),
                items_from(*node, i as nat, self@) == check_root_spec(*node, old(self)@),
            decreases node.children@.len() - i,
        {
            if let SyntaxElement::Node(item) = &node.children[i] {
                if item.kind == SyntaxKind::FnDecl {
                    self.check_fn(item);
                }
            }
            i += 1;
        }
    }

    /// Checks one function: its body against its result type.
    fn check_fn(&mut self, node: &SyntaxNode)
        ensures
            final(self)@ == check_fn_spec(*node, old(self)@),
    {
        let ret = match find_return_type_in(node) {
            Some(ty) => ty,
            None => Type::Unit,
        };
        let saved_return = self.current_return.clone();
        self.current_return = ret;
        self.enter_scope();
        if let Some((_, params)) = find_node(node, Pick::Node(SyntaxKind::ParamList), 0) {
            self.bind_params(params);
        }
        if let Some((_, block)) = find_node(node, Pick::Node(SyntaxKind::Block), 0) {
            let body_ty = self.check_block(block);
            let expected = self.current_return.clone();
            if !type_eq(&body_ty, &Type::Error) && !type_compatible(&expected, &body_ty) {
                self.type_mismatch(block, &expected, &body_ty, "E0004");
            }
        }
        self.exit_scope();
        self.current_return = saved_return;
    }

    /// Binds each parameter to its type.
    fn bind_params(&mut self, list: &SyntaxNode)
        ensures
            final(self)@ == params_from(*list, 0, old(self)@),
    {
        let mut i: usize = 0;
        while i < list.children.len()
            invariant
                i <= list.children@.len(),
                params_from(*list, i as nat, self@) == params_from(*list, 0, old(self)@),
            decreases list.children@.len() - i,
        {
            if let SyntaxElement::Node(param) = &list.children[i] {
                if param.kind == SyntaxKind::Param {
                    let name = find_ident_in(param);
                    let ty = find_type_in(param);
                    if let Some(name) = name {
                        if let Some(ty) = ty {
                            self.insert_var(name.as_str(), ty);
                        }
                    }
                }
            }
            i += 1;
        }
    }

    /// Checks a block; its type is that of its tail, or `Unit`.
    fn check_block(&mut self, node: &SyntaxNode) -> (ty: Type)
        ensures
            (ty@, final(self)@) == check_block_spec(*node, old(self)@),
        decreases node, 1nat, 0nat,
    {
        let mut last = Type::Unit;
        if let Some((_, stmts)) = find_node(node, Pick::Node(SyntaxKind::StmtList), 0) {
            let tail = last_node(stmts);
            let mut i: usize = 0;
            while i < stmts.children.len()
                invariant
                    i <= stmts.children@.len(),
                    decreases_to!(node => stmts),
                    tail matches Some(l) ==> l < stmts.children@.len() && stmts.children@[l as int]
                        is Node && index_of(*stmts, Pick::AnyNode, (l + 1) as nat) is None,
                    tail is None ==> index_of(*stmts, Pick::AnyNode, 0) is None,
                    stmts_from(*stmts, i as nat, self@, last@) == check_block_spec(
                        *node,
                        old(self)@,
                    ),
                decreases stmts.children@.len() - i,
            {
                if let SyntaxElement::Node(stmt) = &stmts.children[i] {
                    proof {
                        lemma_tail(*stmts, tail, i as int);
                    }
                    if tail == Some(i) && is_expr_kind(stmt.kind) {
                        last = self.check_expr(stmt);
                    } else {
                        self.check_stmt(stmt);
                    }
                }
                i += 1;
            }
        }
        last
    }

    /// Checks one statement.
    fn check_stmt(&mut self, node: &SyntaxNode)
        ensures
            final(self)@ == check_stmt_spec(*node, old(self)@),
        decreases node, 3nat, 0nat,
    {
        match node.kind {
            SyntaxKind::LetStmt => self.check_let(node),
            SyntaxKind::ReturnStmt => self.check_return(node),
            SyntaxKind::ExprStmt => {
                if let Some((_, expr)) = find_node(node, Pick::ExprNode, 0) {
                    self.check_expr(expr);
                }
            },
            _ => {
                if is_expr_kind(node.kind) {
                    self.check_expr(node);
                }
            },
        }
    }

    /// Checks a `let`: the value against the annotation, and binds the name.
    fn check_let(&mut self, node: &SyntaxNode)
        ensures
            final(self)@ == check_let_spec(*node, old(self)@),
        decreases node, 1nat, 0nat,
    {
        let name = match find_node(node, Pick::Node(SyntaxKind::Pattern), 0) {
            Some((_, pattern)) => find_ident_in(pattern),
            None => None,
        };
        let ty_annot = find_type_in(node);
        let expr_ty = match find_expr_after_token(node, SyntaxKind::Eq) {
            Some(expr) => self.check_expr(expr),
            None => Type::Unknown,
        };
        let bound = match ty_annot {
            Some(annot) => {
                if !type_compatible(&annot, &expr_ty) {
                    self.type_mismatch(node, &annot, &expr_ty, "E0003");
                }
                annot
            },
            None => expr_ty,
        };
        if let Some(name) = name {
            self.insert_var(name.as_str(), bound);
        }
    }

    /// Checks a `return`: the value against the result type.
    fn check_return(&mut self, node: &SyntaxNode)
        ensures
            final(self)@ == check_return_spec(*node, old(self)@),
        decreases node, 1nat, 0nat,
    {
        let expr_ty = match find_node(node, Pick::ExprNode, 0) {
            Some((_, expr)) => self.check_expr(expr),
            None => Type::Unit,
        };
        let expected = self.current_return.clone();
        if !type_compatible(&expected, &expr_ty) {
            self.type_mismatch(node, &expected, &expr_ty, "E0004");
        }
    }

    /// Checks an expression and gives its type.
    fn check_expr(&mut self, node: &SyntaxNode) -> (ty: Type)
        ensures
            (ty@, final(self)@) == check_expr_spec(*node, old(self)@),
        decreases node, 2nat, 0nat,
    {
        match node.kind {
            SyntaxKind::IdentNode => {
                match find_ident_in(node) {
                    Some(name) => match self.lookup_var(name.as_str()) {
                        Some(ty) => ty,
                        None => {
                            self.report(node, "E0001", "undefined variable", None, Some(name));
                            Type::Error
                        },
                    },
                    None => Type::Unknown,
                }
            },
            SyntaxKind::LiteralNode => literal_type_of(node),
            SyntaxKind::BinExpr => self.check_bin_expr(node),
            SyntaxKind::CallExpr => Type::Unknown,
            SyntaxKind::MemberExpr => Type::Unknown,
            SyntaxKind::IfExpr => self.check_if_expr(node),
            SyntaxKind::MatchExpr => self.check_match_expr(node),
            SyntaxKind::Block => self.check_block(node),
            SyntaxKind::ParenExpr => match find_node(node, Pick::ExprNode, 0) {
                Some((_, inner)) => self.check_expr(inner),
                None => Type::Unknown,
            },
            _ => Type::Unknown,
        }
    }

    /// Checks an `if`: the condition and the two branches.
    fn check_if_expr(&mut self, node: &SyntaxNode) -> (ty: Type)
        ensures
            (ty@, final(self)@) == check_if_spec(*node, old(self)@),
        decreases node, 1nat, 0nat,
    {
        let (cond, then_block, else_block) = kids(node);
        if let Some(cond) = cond {
            let cond_ty = self.check_expr(cond);
            if !type_eq(&cond_ty, &Type::Bool) && !type_eq(&cond_ty, &Type::Error) {
                self.type_mismatch(cond, &Type::Bool, &cond_ty, "E0005");
            }
        }
        let then_ty = match then_block {
            Some(block) => self.check_expr(block),
            None => Type::Unit,
        };
        match else_block {
            Some(block) => {
                let else_ty = self.check_expr(block);
                if !type_compatible(&then_ty, &else_ty) {
                    self.type_mismatch(node, &then_ty, &else_ty, "E0006");
                    Type::Error
                } else {
                    then_ty
                }
            },
            None => Type::Unit,
        }
    }

    /// Checks a `match`: the arms against each other.
    fn check_match_expr(&mut self, node: &SyntaxNode) -> (ty: Type)
        ensures
            (ty@, final(self)@) == check_match_spec(*node, old(self)@),
        decreases node, 1nat, 0nat,
    {
        let (s, scrutinee) = match find_node(node, Pick::AnyNode, 0) {
            Some(found) => found,
            None => return Type::Unit,
        };
        self.check_expr(scrutinee);
        let mut arm_type: Option<Type> = None;
        let mut i: usize = s + 1;
        while i < node.children.len()
            invariant
                s < i <= node.children@.len(),
                arms_from(*node, i as nat, self@, option_type_view(arm_type)) == check_match_spec(
                    *node,
                    old(self)@,
                ),
            decreases node.children@.len() - i,
        {
            if let SyntaxElement::Node(arm) = &node.children[i] {
                if arm.kind == SyntaxKind::MatchArm {
                    if let Some((_, expr)) = find_node(arm, Pick::ExprNode, 0) {
                        let ty = self.check_expr(expr);
                        match &arm_type {
                            Some(existing) => {
                                if !type_compatible(existing, &ty) {
                                    self.type_mismatch(arm, existing, &ty, "E0007");
                                    return Type::Error;
                                }
                            },
                            None => {
                                arm_type = Some(ty);
                            },
                        }
                    }
                }
            }
            i += 1;
        }
        match arm_type {
            Some(ty) => ty,
            None => Type::Unit,
        }
    }

    /// Checks a binary expression: the operands against the operator.
    fn check_bin_expr(&mut self, node: &SyntaxNode) -> (ty: Type)
        ensures
            (ty@, final(self)@) == check_bin_spec(*node, old(self)@),
        decreases node, 1nat, 0nat,
    {
        let (op_kind, left, right) = match bin_parts(node) {
            Some(parts) => parts,
            None => return Type::Unknown,
        };
        let l = self.check_expr(left);
        let r = self.check_expr(right);
        if type_eq(&l, &Type::Error) || type_eq(&r, &Type::Error) {
            return Type::Error;
        }
        if is_arithmetic_kind(op_kind) {
            if is_numeric(&l) && type_compatible(&l, &r) {
                l
            } else {
                self.type_mismatch(node, &l, &r, "E0003");
                Type::Error
            }
        } else if op_kind == SyntaxKind::EqEq || op_kind == SyntaxKind::Neq {
            if type_compatible(&l, &r) {
                Type::Bool
            } else {
                self.type_mismatch(node, &l, &r, "E0003");
                Type::Error
            }
        } else if is_ordering_kind(op_kind) {
            if is_numeric(&l) && type_compatible(&l, &r) {
                Type::Bool
            } else {
                self.type_mismatch(node, &l, &r, "E0003");
                Type::Error
            }
        } else {
            if type_eq(&l, &Type::Bool) && type_eq(&r, &Type::Bool) {
                Type::Bool
            } else {
                self.type_mismatch(node, &Type::Bool, &l, "E0003");
                Type::Error
            }
        }
    }
}

/// The child node at `i` is the last child node exactly if no node stands
/// behind it.
proof fn lemma_tail(stmts: SyntaxNode, tail: Option<usize>, i: int)
    requires
        0 <= i < stmts.children@.len(),
        stmts.children@[i] is Node,
        tail matches Some(l) ==> l < stmts.children@.len() && stmts.children@[l as int] is Node
            && index_of(stmts, Pick::AnyNode, (l + 1) as nat) is None,
        tail is None ==> index_of(stmts, Pick::AnyNode, 0) is None,
    ensures
        (tail == Some(i as usize)) <==> index_of(stmts, Pick::AnyNode, (i + 1) as nat) is None,
{
    match tail {
        Some(l) => {
            if i < l {
                if index_of(stmts, Pick::AnyNode, (i + 1) as nat) is None {
                    lemma_not_found(stmts, Pick::AnyNode, (i + 1) as nat, l as int);
                }
            } else if l < i {
                lemma_not_found(stmts, Pick::AnyNode, (l + 1) as nat, i);
            }
        },
        None => {
            lemma_not_found(stmts, Pick::AnyNode, 0, i);
        },
    }
}

/// Checks the tree below `root` and hands back its diagnostics.
pub fn check_tree(root: &SyntaxNode) -> (result: CheckResult)
    ensures
        diagnostic_views(result.diagnostics@) == diagnostics_of(*root),
{
    let mut checker = Checker::new();
    checker.check_root(root);
    CheckResult { diagnostics: checker.diagnostics }
}

/// Type-checks `source`.
///
/// The source is parsed, errors or not, and every function of the tree is
/// checked; the diagnostics are those that [`diagnostics_of`] gives for the
/// tree of the source.
pub fn check(source: &str) -> (result: CheckResult)
    requires
        source.spec_bytes().len() <= MAX_TEXT_LEN,
    ensures
        exists|root: SyntaxNode|
            is_tree_of(root, source@) && diagnostic_views(result.diagnostics@) == diagnostics_of(
                root,
            ),
{
    let parsed = parse(source);
    let root = parsed.syntax();
    let result = check_tree(&root);
    proof {
        assert(is_tree_of(root, source@));
    }
    result
}

} // verus!
