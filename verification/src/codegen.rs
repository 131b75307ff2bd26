//! The code generator: the integer subset of the language to a WebAssembly
//! module.
//!
//! The tree is first lowered to a list of functions with statements and
//! expressions of their own; these are then emitted, function by function,
//! into the sections of a module.  Both steps are stated as spec functions
//! ([`lower_root`], [`compiled`] and what they call), and the executable
//! code is proved to follow them.

use crate::green::MAX_TEXT_LEN;
use crate::parser::{is_parse_of, is_tree_of, parse, Parse, ParseError};
use crate::query::{
    find_node, find_return_type, find_token, first_node, first_token, kid, kids,
    node_from, return_type, Pick,
};
use crate::syntax::SyntaxKind;
use crate::text::{str_eq, trim, trimmed};
use crate::tree::{node_text, to_string_lossless, SyntaxElement, SyntaxNode};
use crate::wasm::{
    body_size, code_entries, code_section_function, code_section_new, code_size,
    export_entries, export_section_export, export_section_new, exports_bound, function_body,
    function_byte_len, function_control, function_entries, function_locals, function_new,
    function_operand, function_operator, function_section_function, function_section_new,
    leb_size, module_bytes, module_finish, write_code, write_exports, write_functions, write_types,
    module_new, module_sections, type_entries, type_section_function,
    type_section_new, types_bound, Body, Control, Export, FuncType, Instr, Operand, Operator,
    SectionView, ValType, MAX_U32, SIZE_FIELD,
};
use vstd::prelude::*;
use vstd::string::*;
use vstd::utf8::*;

verus! {

/// Why a source was not compiled: a stable code and a message.
#[derive(Debug)]
pub struct Diagnostic {
    pub code: String,
    pub message: String,
}

/// A diagnostic as a value: code and message.
pub type DiagnosticView = (Seq<char>, Seq<char>);

impl View for Diagnostic {
    type V = DiagnosticView;

    open spec fn view(&self) -> DiagnosticView {
        (self.code@, self.message@)
    }
}

/// The diagnostics of `list` as values.
pub open spec fn diagnostic_views(list: Seq<Diagnostic>) -> Seq<DiagnosticView> {
    Seq::new(list.len(), |i: int| list[i]@)
}

/// An expression of the integer subset.
#[derive(Debug)]
pub enum Expr {
    Int(i64),
    Bool(bool),
    Ident(String),
    Bin { op: SyntaxKind, lhs: Box<Expr>, rhs: Box<Expr> },
    Call { name: String, args: Vec<Expr> },
}

/// A statement of the integer subset.
#[derive(Debug)]
pub enum Stmt {
    Let { name: String, expr: Expr },
    Return(Expr),
    Expr(Expr),
    If { cond: Expr, then_body: Vec<Stmt>, else_body: Vec<Stmt> },
}

/// The type that a parameter or a result declares.
#[derive(Debug, Clone, Copy, PartialEq, Eq, Structural)]
pub enum Declared {
    /// A type of the compiled values.
    Value(ValType),
    /// Any other type.
    Unsupported,
}

/// A function of the integer subset: the parameters with the types they
/// declare, the locals with their types in the order of their declaration,
/// the body, and the result type if one is declared.
#[derive(Debug)]
pub struct FnDef {
    pub name: String,
    pub params: Vec<(String, Declared)>,
    pub locals: Vec<(String, ValType)>,
    pub body: Vec<Stmt>,
    pub ret: Option<Declared>,
}

/// An expression as a value.
pub enum ExprView {
    Int(i64),
    Bool(bool),
    Ident(Seq<char>),
    Bin { op: SyntaxKind, lhs: Box<ExprView>, rhs: Box<ExprView> },
    Call { name: Seq<char>, args: Seq<ExprView> },
}

/// A statement as a value.
pub enum StmtView {
    Let { name: Seq<char>, expr: ExprView },
    Return(ExprView),
    Expr(ExprView),
    If { cond: ExprView, then_body: Seq<StmtView>, else_body: Seq<StmtView> },
}

/// A variable as a value: name and type.
pub type Variable = (Seq<char>, ValType);

/// A parameter as a value: name and declared type.
pub type Param = (Seq<char>, Declared);

/// A function as a value.
pub struct FnDefView {
    pub name: Seq<char>,
    pub params: Seq<Param>,
    pub locals: Seq<Variable>,
    pub body: Seq<StmtView>,
    pub ret: Option<Declared>,
}

/// The value of an expression.
pub open spec fn expr_view(expr: Expr) -> ExprView
    decreases expr,
{
    match expr {
        Expr::Int(value) => ExprView::Int(value),
        Expr::Bool(value) => ExprView::Bool(value),
        Expr::Ident(name) => ExprView::Ident(name@),
        Expr::Bin { op, lhs, rhs } => ExprView::Bin {
            op,
            lhs: Box::new(expr_view(*lhs)),
            rhs: Box::new(expr_view(*rhs)),
        },
        Expr::Call { name, args } => ExprView::Call {
            name: name@,
            args: Seq::new(
                args@.len(),
                |i: int|
                    if 0 <= i < args@.len() {
                        expr_view(args@[i])
                    } else {
                        ExprView::Int(0)
                    },
            ),
        },
    }
}

/// The values of expressions.
pub open spec fn expr_views(exprs: Seq<Expr>) -> Seq<ExprView> {
    Seq::new(exprs.len(), |i: int| expr_view(exprs[i]))
}

/// The value of a statement.
pub open spec fn stmt_view(stmt: Stmt) -> StmtView
    decreases stmt,
{
    match stmt {
        Stmt::Let { name, expr } => StmtView::Let { name: name@, expr: expr_view(expr) },
        Stmt::Return(expr) => StmtView::Return(expr_view(expr)),
        Stmt::Expr(expr) => StmtView::Expr(expr_view(expr)),
        Stmt::If { cond, then_body, else_body } => StmtView::If {
            cond: expr_view(cond),
            then_body: Seq::new(
                then_body@.len(),
                |i: int|
                    if 0 <= i < then_body@.len() {
                        stmt_view(then_body@[i])
                    } else {
                        StmtView::Expr(ExprView::Int(0))
                    },
            ),
            else_body: Seq::new(
                else_body@.len(),
                |i: int|
                    if 0 <= i < else_body@.len() {
                        stmt_view(else_body@[i])
                    } else {
                        StmtView::Expr(ExprView::Int(0))
                    },
            ),
        },
    }
}

/// The values of statements.
pub open spec fn stmt_views(stmts: Seq<Stmt>) -> Seq<StmtView> {
    Seq::new(stmts.len(), |i: int| stmt_view(stmts[i]))
}

/// The values of variables.
pub open spec fn variable_views(variables: Seq<(String, ValType)>) -> Seq<Variable> {
    Seq::new(variables.len(), |i: int| (variables[i].0@, variables[i].1))
}

/// The values of parameters.
pub open spec fn param_views(params: Seq<(String, Declared)>) -> Seq<Param> {
    Seq::new(params.len(), |i: int| (params[i].0@, params[i].1))
}

impl View for FnDef {
    type V = FnDefView;

    open spec fn view(&self) -> FnDefView {
        FnDefView {
            name: self.name@,
            params: param_views(self.params@),
            locals: variable_views(self.locals@),
            body: stmt_views(self.body@),
            ret: self.ret,
        }
    }
}

/// The values of functions.
pub open spec fn fn_views(functions: Seq<FnDef>) -> Seq<FnDefView> {
    Seq::new(functions.len(), |i: int| functions[i]@)
}

/// The type that a text names in the compiled subset: `i64`, or `i32` for
/// `i32` and `bool`.  White space at the ends does not count.
pub open spec fn type_of_text(text: Seq<char>) -> Option<ValType> {
    let name = trimmed(text);
    if name == "i64"@ {
        Some(ValType::I64)
    } else if name == "i32"@ {
        Some(ValType::I32)
    } else if name == "bool"@ {
        Some(ValType::I32)
    } else {
        None
    }
}

/// The type that a text declares: the type of the compiled values that it
/// names, or an unsupported one.
pub open spec fn declared_of(text: Seq<char>) -> Declared {
    match type_of_text(text) {
        Some(ty) => Declared::Value(ty),
        None => Declared::Unsupported,
    }
}

/// The number that the first `n` bytes write in decimal digits.
pub open spec fn decimal(digits: Seq<u8>, n: nat) -> Option<nat>
    decreases n,
{
    if n == 0 || n > digits.len() {
        Some(0)
    } else {
        match decimal(digits, (n - 1) as nat) {
            Some(value) => if 48 <= digits[n - 1] <= 57 {
                Some((value * 10 + (digits[n - 1] - 48)) as nat)
            } else {
                None
            },
            None => None,
        }
    }
}

/// The 64-bit integer that `text` writes: a sign, if any, and at least one
/// decimal digit, with a value in the range of `i64`.
pub open spec fn integer(text: Seq<u8>) -> Option<i64> {
    let negative = text.len() > 0 && text[0] == 45;
    let signed = text.len() > 0 && (text[0] == 45 || text[0] == 43);
    let digits = if signed {
        text.skip(1)
    } else {
        text
    };
    if digits.len() == 0 {
        None
    } else {
        match decimal(digits, digits.len()) {
            Some(value) => if negative {
                if value <= 0x8000_0000_0000_0000 {
                    Some((0 - value) as i64)
                } else {
                    None
                }
            } else {
                if value <= 0x7fff_ffff_ffff_ffff {
                    Some(value as i64)
                } else {
                    None
                }
            },
            None => None,
        }
    }
}

/// The first identifier below `node` in document order.
pub open spec fn first_ident(node: SyntaxNode) -> Option<Seq<char>>
    decreases node, node.children@.len() + 1,
{
    first_ident_from(node, 0)
}

/// The first identifier at or below a child of `node` from `i` on.
pub open spec fn first_ident_from(node: SyntaxNode, i: nat) -> Option<Seq<char>>
    decreases node, node.children@.len() - i,
{
    if i >= node.children@.len() {
        None
    } else {
        match node.children@[i as int] {
            SyntaxElement::Token(token) => if token.kind == SyntaxKind::Ident {
                Some(token.text@)
            } else {
                first_ident_from(node, i + 1)
            },
            SyntaxElement::Node(child) => match first_ident(child) {
                Some(name) => Some(name),
                None => first_ident_from(node, i + 1),
            },
        }
    }
}

/// The name in the first child of the given kind.
pub open spec fn name_in(node: SyntaxNode, kind: SyntaxKind) -> Option<Seq<char>> {
    match first_node(node, Pick::Node(kind)) {
        Some(child) => first_ident(child),
        None => None,
    }
}

/// The type that the first `Type` child names.
pub open spec fn type_in(node: SyntaxNode) -> Option<ValType> {
    match first_node(node, Pick::Node(SyntaxKind::Type)) {
        Some(ty) => type_of_text(node_text(ty)),
        None => None,
    }
}

/// Lowers an expression, if it is of the compiled subset: an integer or
/// boolean literal, a name, a binary expression with a compiled operator, a
/// call of a name, or one of these in parentheses.
pub open spec fn lower_expr_spec(node: SyntaxNode) -> Option<ExprView>
    decreases node, 1nat, 0nat,
{
    match node.kind {
        SyntaxKind::LiteralNode => match first_token(node, Pick::AnyToken) {
            Some(token) => match token.kind {
                SyntaxKind::Int => match integer(encode_utf8(token.text@)) {
                    Some(value) => Some(ExprView::Int(value)),
                    None => None,
                },
                SyntaxKind::KwTrue => Some(ExprView::Bool(true)),
                SyntaxKind::KwFalse => Some(ExprView::Bool(false)),
                _ => None,
            },
            None => None,
        },
        SyntaxKind::IdentNode => match first_ident(node) {
            Some(name) => Some(ExprView::Ident(name)),
            None => None,
        },
        SyntaxKind::BinExpr => match kid(node, 0) {
            Some(left) => match lower_expr_spec(left) {
                Some(lhs) => match kid(node, 1) {
                    Some(right) => match lower_expr_spec(right) {
                        Some(rhs) => match first_token(node, Pick::CompiledOperator) {
                            Some(op) => Some(
                                ExprView::Bin {
                                    op: op.kind,
                                    lhs: Box::new(lhs),
                                    rhs: Box::new(rhs),
                                },
                            ),
                            None => None,
                        },
                        None => None,
                    },
                    None => None,
                },
                None => None,
            },
            None => None,
        },
        SyntaxKind::CallExpr => match node_from(node, Pick::AnyNode, 0) {
            Some((c, callee)) => match first_ident(callee) {
                Some(name) => Some(ExprView::Call { name, args: lower_args(node, c + 1) }),
                None => None,
            },
            None => None,
        },
        SyntaxKind::ParenExpr => match first_node(node, Pick::ExprNode) {
            Some(inner) => lower_expr_spec(inner),
            None => None,
        },
        _ => None,
    }
}

/// Lowers the arguments among the children of a call from `i` on; one that
/// is not of the compiled subset is left out.
pub open spec fn lower_args(node: SyntaxNode, i: nat) -> Seq<ExprView>
    decreases node, 0nat, node.children@.len() - i,
{
    if i >= node.children@.len() {
        Seq::empty()
    } else {
        (match node.children@[i as int] {
            SyntaxElement::Node(arg) => match lower_expr_spec(arg) {
                Some(expr) => seq![expr],
                None => Seq::empty(),
            },
            SyntaxElement::Token(_) => Seq::empty(),
        }) + lower_args(node, i + 1)
    }
}

/// The first expression child, lowered.
pub open spec fn lowered_child(node: SyntaxNode) -> Option<ExprView> {
    match first_node(node, Pick::ExprNode) {
        Some(expr) => lower_expr_spec(expr),
        None => None,
    }
}

/// Lowers the statements of a block behind `out`, and adds the variables
/// that its `let` statements declare to `locals`.
pub open spec fn lower_block_spec(
    node: SyntaxNode,
    locals: Seq<Variable>,
    out: Seq<StmtView>,
) -> (Seq<Variable>, Seq<StmtView>)
    decreases node, 1nat, 0nat,
{
    match first_node(node, Pick::Node(SyntaxKind::StmtList)) {
        Some(stmts) => lower_stmts(stmts, 0, locals, out),
        None => (locals, out),
    }
}

/// Lowers the statements of a list from child `i` on.  A `let` with a name
/// and a value of the compiled subset declares a local of the annotated
/// type, `i64` where there is none; a `return` and an expression statement
/// with such a value and an `if` with such a condition are lowered; every
/// other child is left out.
pub open spec fn lower_stmts(
    stmts: SyntaxNode,
    i: nat,
    locals: Seq<Variable>,
    out: Seq<StmtView>,
) -> (Seq<Variable>, Seq<StmtView>)
    decreases stmts, 0nat, stmts.children@.len() - i,
{
    if i >= stmts.children@.len() {
        (locals, out)
    } else {
        match stmts.children@[i as int] {
            SyntaxElement::Node(stmt) => match stmt.kind {
                SyntaxKind::LetStmt => match name_in(stmt, SyntaxKind::Pattern) {
                    Some(name) => match lowered_child(stmt) {
                        Some(expr) => lower_stmts(
                            stmts,
                            i + 1,
                            locals.push(
                                (
                                    name,
                                    match type_in(stmt) {
                                        Some(ty) => ty,
                                        None => ValType::I64,
                                    },
                                ),
                            ),
                            out.push(StmtView::Let { name, expr }),
                        ),
                        None => lower_stmts(stmts, i + 1, locals, out),
                    },
                    None => lower_stmts(stmts, i + 1, locals, out),
                },
                SyntaxKind::ReturnStmt => match lowered_child(stmt) {
                    Some(expr) => lower_stmts(stmts, i + 1, locals, out.push(StmtView::Return(expr))),
                    None => lower_stmts(stmts, i + 1, locals, out),
                },
                SyntaxKind::IfExpr => match lower_if_spec(stmt) {
                    Some(lowered) => lower_stmts(stmts, i + 1, locals, out.push(lowered)),
                    None => lower_stmts(stmts, i + 1, locals, out),
                },
                SyntaxKind::ExprStmt => match lowered_child(stmt) {
                    Some(expr) => lower_stmts(stmts, i + 1, locals, out.push(StmtView::Expr(expr))),
                    None => lower_stmts(stmts, i + 1, locals, out),
                },
                _ => lower_stmts(stmts, i + 1, locals, out),
            },
            SyntaxElement::Token(_) => lower_stmts(stmts, i + 1, locals, out),
        }
    }
}

/// Lowers an `if` whose condition is of the compiled subset and which has
/// a block.  The locals that its branches declare are not kept.
pub open spec fn lower_if_spec(node: SyntaxNode) -> Option<StmtView>
    decreases node, 1nat, 0nat,
{
    match kid(node, 0) {
        Some(cond_node) => match lower_expr_spec(cond_node) {
            Some(cond) => match kid(node, 1) {
                Some(then_block) => Some(
                    StmtView::If {
                        cond,
                        then_body: lower_block_spec(then_block, Seq::empty(), Seq::empty()).1,
                        else_body: match kid(node, 2) {
                            Some(else_node) => if else_node.kind == SyntaxKind::IfExpr {
                                match lower_if_spec(else_node) {
                                    Some(nested) => seq![nested],
                                    None => Seq::empty(),
                                }
                            } else {
                                lower_block_spec(else_node, Seq::empty(), Seq::empty()).1
                            },
                            None => Seq::empty(),
                        },
                    },
                ),
                None => None,
            },
            None => None,
        },
        None => None,
    }
}

/// The type that the first `Type` child declares.
pub open spec fn declared_in(node: SyntaxNode) -> Option<Declared> {
    match first_node(node, Pick::Node(SyntaxKind::Type)) {
        Some(ty) => Some(declared_of(node_text(ty))),
        None => None,
    }
}

/// Lowers the parameters among the children of a list from `i` on: each
/// that has a name and a type, supported or not.
pub open spec fn lower_params_spec(list: SyntaxNode, i: nat) -> Seq<Param>
    decreases list.children@.len() - i,
{
    if i >= list.children@.len() {
        Seq::empty()
    } else {
        (match list.children@[i as int] {
            SyntaxElement::Node(param) => if param.kind == SyntaxKind::Param {
                match name_in(param, SyntaxKind::IdentNode) {
                    Some(name) => match declared_in(param) {
                        Some(ty) => seq![(name, ty)],
                        None => Seq::empty(),
                    },
                    None => Seq::empty(),
                }
            } else {
                Seq::empty()
            },
            SyntaxElement::Token(_) => Seq::empty(),
        }) + lower_params_spec(list, i + 1)
    }
}

/// The result type that a function declares, supported or not.
pub open spec fn declared_result(node: SyntaxNode) -> Option<Declared> {
    match return_type(node) {
        Some(ty) => Some(declared_of(node_text(ty))),
        None => None,
    }
}

/// Lowers a function that has a name.
pub open spec fn lower_fn_spec(node: SyntaxNode) -> Option<FnDefView> {
    match name_in(node, SyntaxKind::IdentNode) {
        Some(name) => {
            let (locals, body) = match first_node(node, Pick::Node(SyntaxKind::Block)) {
                Some(block) => lower_block_spec(block, Seq::empty(), Seq::empty()),
                None => (Seq::empty(), Seq::empty()),
            };
            Some(
                FnDefView {
                    name,
                    params: match first_node(node, Pick::Node(SyntaxKind::ParamList)) {
                        Some(list) => lower_params_spec(list, 0),
                        None => Seq::empty(),
                    },
                    locals,
                    body,
                    ret: declared_result(node),
                },
            )
        },
        None => None,
    }
}

/// Lowers the functions among the children of `root` from `i` on.
pub open spec fn lower_fns(root: SyntaxNode, i: nat) -> Seq<FnDefView>
    decreases root.children@.len() - i,
{
    if i >= root.children@.len() {
        Seq::empty()
    } else {
        (match root.children@[i as int] {
            SyntaxElement::Node(item) => if item.kind == SyntaxKind::FnDecl {
                match lower_fn_spec(item) {
                    Some(function) => seq![function],
                    None => Seq::empty(),
                }
            } else {
                Seq::empty()
            },
            SyntaxElement::Token(_) => Seq::empty(),
        }) + lower_fns(root, i + 1)
    }
}

/// The functions of a tree, lowered.
pub open spec fn lower_root(root: SyntaxNode) -> Seq<FnDefView> {
    lower_fns(root, 0)
}

/// The text of an optional string.
pub open spec fn option_text(text: Option<String>) -> Option<Seq<char>> {
    match text {
        Some(t) => Some(t@),
        None => None,
    }
}

/// The value of an optional expression.
pub open spec fn option_expr(expr: Option<Expr>) -> Option<ExprView> {
    match expr {
        Some(e) => Some(expr_view(e)),
        None => None,
    }
}

/// The value of an optional statement.
pub open spec fn option_stmt(stmt: Option<Stmt>) -> Option<StmtView> {
    match stmt {
        Some(s) => Some(stmt_view(s)),
        None => None,
    }
}

/// The value of an optional function.
pub open spec fn option_fn(function: Option<FnDef>) -> Option<FnDefView> {
    match function {
        Some(f) => Some(f@),
        None => None,
    }
}

/// The view of a call is the call of the views.
proof fn lemma_call_view(name: String, args: Vec<Expr>)
    ensures
        expr_view(Expr::Call { name, args }) == (ExprView::Call {
            name: name@,
            args: expr_views(args@),
        }),
{
    assert(expr_view(Expr::Call { name, args })->Call_args =~= expr_views(args@));
}

/// The view of an `if` is the `if` of the views.
proof fn lemma_if_view(cond: Expr, then_body: Vec<Stmt>, else_body: Vec<Stmt>)
    ensures
        stmt_view(Stmt::If { cond, then_body, else_body }) == (StmtView::If {
            cond: expr_view(cond),
            then_body: stmt_views(then_body@),
            else_body: stmt_views(else_body@),
        }),
{
    let view = stmt_view(Stmt::If { cond, then_body, else_body });
    assert(view->If_then_body =~= stmt_views(then_body@));
    assert(view->If_else_body =~= stmt_views(else_body@));
}

/// The type that a text names in the compiled subset.
fn map_type(text: &str) -> (ty: Option<ValType>)
    ensures
        ty == type_of_text(text@),
{
    let name = trim(text);
    if str_eq(name, "i64") {
        Some(ValType::I64)
    } else if str_eq(name, "i32") {
        Some(ValType::I32)
    } else if str_eq(name, "bool") {
        Some(ValType::I32)
    } else {
        None
    }
}

/// The type that a text declares.
fn declared_type(text: &str) -> (ty: Declared)
    ensures
        ty == declared_of(text@),
{
    match map_type(text) {
        Some(ty) => Declared::Value(ty),
        None => Declared::Unsupported,
    }
}

/// A number that digits write is at least the number that the first of
/// them write.
proof fn lemma_decimal_grows(digits: Seq<u8>, m: nat, n: nat)
    requires
        m <= n <= digits.len(),
        decimal(digits, n) is Some,
    ensures
        decimal(digits, m) is Some,
        decimal(digits, m)->0 <= decimal(digits, n)->0,
    decreases n - m,
{
    if m < n {
        lemma_decimal_grows(digits, m, (n - 1) as nat);
    }
}

/// The 64-bit integer that `text` writes.
fn parse_int(text: &str) -> (value: Option<i64>)
    ensures
        value == integer(text.spec_bytes()),
{
    let bytes = text.as_bytes();
    let len = bytes.len();
    if len == 0 {
        return None;
    }
    let negative = bytes[0] == 45;
    let signed = bytes[0] == 45 || bytes[0] == 43;
    let start: usize = if signed {
        1
    } else {
        0
    };
    if start == len {
        return None;
    }
    let ghost digits = if signed {
        bytes@.skip(1)
    } else {
        bytes@
    };
    let mut acc: u128 = 0;
    let mut i: usize = start;
    while i < len
        invariant
            start <= i <= len,
            len == bytes@.len(),
            len > start,
            bytes@ == text.spec_bytes(),
            negative == (bytes@[0] == 45),
            signed == (bytes@[0] == 45 || bytes@[0] == 43),
            start == if signed {
                1usize
            } else {
                0usize
            },
            digits == if signed {
                bytes@.skip(1)
            } else {
                bytes@
            },
            digits.len() == len - start,
            forall|k: int| 0 <= k < digits.len() ==> digits[k] == bytes@[k + start],
            decimal(digits, (i - start) as nat) == Some(acc as nat),
            acc <= 0x8000_0000_0000_0000,
        decreases len - i,
    {
        let b = bytes[i];
        if b < 48 || b > 57 {
            proof {
                assert(decimal(digits, (i + 1 - start) as nat) is None);
                if decimal(digits, digits.len()) is Some {
                    lemma_decimal_grows(digits, (i + 1 - start) as nat, digits.len());
                }
            }
            return None;
        }
        let next: u128 = acc * 10 + (b - 48) as u128;
        if next > 0x8000_0000_0000_0000 {
            proof {
                assert(decimal(digits, (i + 1 - start) as nat) == Some(next as nat));
                if decimal(digits, digits.len()) is Some {
                    lemma_decimal_grows(digits, (i + 1 - start) as nat, digits.len());
                }
            }
            return None;
        }
        acc = next;
        i += 1;
    }
    if negative {
        if acc == 0x8000_0000_0000_0000 {
            Some(i64::MIN)
        } else {
            Some(0 - (acc as i64))
        }
    } else {
        if acc <= 0x7fff_ffff_ffff_ffff {
            Some(acc as i64)
        } else {
            None
        }
    }
}

/// The first identifier below `node` in document order.
fn find_ident_text(node: &SyntaxNode) -> (name: Option<String>)
    ensures
        option_text(name) == first_ident(*node),
    decreases node,
{
    let mut i: usize = 0;
    while i < node.children.len()
        invariant
            i <= node.children@.len(),
            first_ident(*node) == first_ident_from(*node, i as nat),
        decreases node.children@.len() - i,
    {
        match &node.children[i] {
            SyntaxElement::Token(token) => {
                if token.kind == SyntaxKind::Ident {
                    return Some(token.text.clone());
                }
            },
            SyntaxElement::Node(child) => {
                if let Some(name) = find_ident_text(child) {
                    return Some(name);
                }
            },
        }
        i += 1;
    }
    None
}

/// The name in the first child of the given kind.
fn find_name_in(node: &SyntaxNode, kind: SyntaxKind) -> (name: Option<String>)
    ensures
        option_text(name) == name_in(*node, kind),
{
    match find_node(node, Pick::Node(kind), 0) {
        Some((_, child)) => find_ident_text(child),
        None => None,
    }
}

/// The type that the first `Type` child names.
fn find_type_in(node: &SyntaxNode) -> (ty: Option<ValType>)
    ensures
        ty == type_in(*node),
{
    match find_node(node, Pick::Node(SyntaxKind::Type), 0) {
        Some((_, ty)) => {
            let text = to_string_lossless(ty);
            map_type(text.as_str())
        },
        None => None,
    }
}

/// The type that the first `Type` child declares.
fn find_declared_in(node: &SyntaxNode) -> (ty: Option<Declared>)
    ensures
        ty == declared_in(*node),
{
    match find_node(node, Pick::Node(SyntaxKind::Type), 0) {
        Some((_, ty)) => {
            let text = to_string_lossless(ty);
            Some(declared_type(text.as_str()))
        },
        None => None,
    }
}

/// Lowers an expression, if it is of the compiled subset.
fn lower_expr(node: &SyntaxNode) -> (expr: Option<Expr>)
    ensures
        option_expr(expr) == lower_expr_spec(*node),
    decreases node, 1nat, 0nat,
{
    match node.kind {
        SyntaxKind::LiteralNode => {
            match find_token(node, Pick::AnyToken, 0) {
                Some((_, token)) => match token.kind {
                    SyntaxKind::Int => match parse_int(token.text.as_str()) {
                        Some(value) => Some(Expr::Int(value)),
                        None => None,
                    },
                    SyntaxKind::KwTrue => Some(Expr::Bool(true)),
                    SyntaxKind::KwFalse => Some(Expr::Bool(false)),
                    _ => None,
                },
                None => None,
            }
        },
        SyntaxKind::IdentNode => match find_ident_text(node) {
            Some(name) => Some(Expr::Ident(name)),
            None => None,
        },
        SyntaxKind::BinExpr => {
            let (first, second, _) = kids(node);
            let lhs = match first {
                Some(left) => match lower_expr(left) {
                    Some(lhs) => lhs,
                    None => return None,
                },
                None => return None,
            };
            let rhs = match second {
                Some(right) => match lower_expr(right) {
                    Some(rhs) => rhs,
                    None => return None,
                },
                None => return None,
            };
            match find_token(node, Pick::CompiledOperator, 0) {
                Some((_, op)) => Some(
                    Expr::Bin { op: op.kind, lhs: Box::new(lhs), rhs: Box::new(rhs) },
                ),
                None => None,
            }
        },
        SyntaxKind::CallExpr => {
            let (c, callee) = match find_node(node, Pick::AnyNode, 0) {
                Some(found) => found,
                None => return None,
            };
            let name = match find_ident_text(callee) {
                Some(name) => name,
                None => return None,
            };
            let mut args: Vec<Expr> = Vec::new();
            let mut i: usize = c + 1;
            proof {
                assert(expr_views(args@) + lower_args(*node, (c + 1) as nat) =~= lower_args(
                    *node,
                    (c + 1) as nat,
                ));
            }
            while i < node.children.len()
                invariant
                    c < i <= node.children@.len(),
                    expr_views(args@) + lower_args(*node, i as nat) == lower_args(
                        *node,
                        (c + 1) as nat,
                    ),
                decreases node.children@.len() - i,
            {
                let ghost before = expr_views(args@);
                if let SyntaxElement::Node(arg) = &node.children[i] {
                    if let Some(expr) = lower_expr(arg) {
                        args.push(expr);
                        proof {
                            assert(expr_views(args@) =~= before.push(expr_view(expr)));
                        }
                    }
                }
                proof {
                    assert(expr_views(args@) + lower_args(*node, (i + 1) as nat) =~= before
                        + lower_args(*node, i as nat));
                }
                i += 1;
            }
            proof {
                assert(expr_views(args@) + Seq::<ExprView>::empty() =~= expr_views(args@));
                lemma_call_view(name, args);
            }
            Some(Expr::Call { name, args })
        },
        SyntaxKind::ParenExpr => match find_node(node, Pick::ExprNode, 0) {
            Some((_, inner)) => lower_expr(inner),
            None => None,
        },
        _ => None,
    }
}

/// The first expression child, lowered.
fn lower_child(node: &SyntaxNode) -> (expr: Option<Expr>)
    ensures
        option_expr(expr) == lowered_child(*node),
{
    match find_node(node, Pick::ExprNode, 0) {
        Some((_, expr)) => lower_expr(expr),
        None => None,
    }
}

/// Lowers the statements of a block behind `out`, and adds the variables
/// that its `let` statements declare to `locals`.
fn lower_block(node: &SyntaxNode, locals: &mut Vec<(String, ValType)>, out: &mut Vec<Stmt>)
    ensures
        (variable_views(final(locals)@), stmt_views(final(out)@)) == lower_block_spec(
            *node,
            variable_views(old(locals)@),
            stmt_views(old(out)@),
        ),
    decreases node, 1nat, 0nat,
{
    if let Some((_, stmts)) = find_node(node, Pick::Node(SyntaxKind::StmtList), 0) {
        let mut i: usize = 0;
        while i < stmts.children.len()
            invariant
                i <= stmts.children@.len(),
                decreases_to!(node => stmts),
                lower_stmts(*stmts, i as nat, variable_views(locals@), stmt_views(out@))
                    == lower_block_spec(
                    *node,
                    variable_views(old(locals)@),
                    stmt_views(old(out)@),
                ),
            decreases stmts.children@.len() - i,
        {
            let ghost vars = variable_views(locals@);
            let ghost done = stmt_views(out@);
            if let SyntaxElement::Node(stmt) = &stmts.children[i] {
                match stmt.kind {
                    SyntaxKind::LetStmt => {
                        let name = find_name_in(stmt, SyntaxKind::Pattern);
                        let expr = lower_child(stmt);
                        if let Some(name) = name {
                            if let Some(expr) = expr {
                                let ty = match find_type_in(stmt) {
                                    Some(ty) => ty,
                                    None => ValType::I64,
                                };
                                locals.push((name.clone(), ty));
                                let lowered = Stmt::Let { name, expr };
                                out.push(lowered);
                                proof {
                                    assert(variable_views(locals@) =~= vars.push((name@, ty)));
                                    assert(stmt_views(out@) =~= done.push(stmt_view(lowered)));
                                }
                            }
                        }
                    },
                    SyntaxKind::ReturnStmt => {
                        if let Some(expr) = lower_child(stmt) {
                            let lowered = Stmt::Return(expr);
                            out.push(lowered);
                            proof {
                                assert(stmt_views(out@) =~= done.push(stmt_view(lowered)));
                            }
                        }
                    },
                    SyntaxKind::IfExpr => {
                        if let Some(lowered) = lower_if(stmt) {
                            out.push(lowered);
                            proof {
                                assert(stmt_views(out@) =~= done.push(stmt_view(lowered)));
                            }
                        }
                    },
                    SyntaxKind::ExprStmt => {
                        if let Some(expr) = lower_child(stmt) {
                            let lowered = Stmt::Expr(expr);
                            out.push(lowered);
                            proof {
                                assert(stmt_views(out@) =~= done.push(stmt_view(lowered)));
                            }
                        }
                    },
                    _ => {},
                }
            }
            i += 1;
        }
    }
}

/// Lowers an `if`.
fn lower_if(node: &SyntaxNode) -> (stmt: Option<Stmt>)
    ensures
        option_stmt(stmt) == lower_if_spec(*node),
    decreases node, 1nat, 0nat,
{
    let (first, second, third) = kids(node);
    let cond = match first {
        Some(cond_node) => match lower_expr(cond_node) {
            Some(cond) => cond,
            None => return None,
        },
        None => return None,
    };
    let then_block = match second {
        Some(block) => block,
        None => return None,
    };
    let mut then_body: Vec<Stmt> = Vec::new();
    let mut else_body: Vec<Stmt> = Vec::new();
    let mut unused: Vec<(String, ValType)> = Vec::new();
    proof {
        assert(variable_views(unused@) =~= Seq::<Variable>::empty());
        assert(stmt_views(then_body@) =~= Seq::<StmtView>::empty());
        assert(stmt_views(else_body@) =~= Seq::<StmtView>::empty());
    }
    lower_block(then_block, &mut unused, &mut then_body);
    if let Some(else_node) = third {
        if else_node.kind == SyntaxKind::IfExpr {
            if let Some(nested) = lower_if(else_node) {
                else_body.push(nested);
                proof {
                    assert(stmt_views(else_body@) =~= seq![stmt_view(nested)]);
                }
            }
        } else {
            let mut unused: Vec<(String, ValType)> = Vec::new();
            proof {
                assert(variable_views(unused@) =~= Seq::<Variable>::empty());
            }
            lower_block(else_node, &mut unused, &mut else_body);
        }
    }
    proof {
        lemma_if_view(cond, then_body, else_body);
    }
    Some(Stmt::If { cond, then_body, else_body })
}

/// Lowers the parameters of a list.
fn lower_params(list: &SyntaxNode) -> (params: Vec<(String, Declared)>)
    ensures
        param_views(params@) == lower_params_spec(*list, 0),
{
    let mut out: Vec<(String, Declared)> = Vec::new();
    let mut i: usize = 0;
    proof {
        assert(param_views(out@) + lower_params_spec(*list, 0) =~= lower_params_spec(*list, 0));
    }
    while i < list.children.len()
        invariant
            i <= list.children@.len(),
            param_views(out@) + lower_params_spec(*list, i as nat) == lower_params_spec(
                *list,
                0,
            ),
        decreases list.children@.len() - i,
    {
        let ghost before = param_views(out@);
        if let SyntaxElement::Node(param) = &list.children[i] {
            if param.kind == SyntaxKind::Param {
                let name = find_name_in(param, SyntaxKind::IdentNode);
                let ty = find_declared_in(param);
                if let Some(name) = name {
                    if let Some(ty) = ty {
                        out.push((name, ty));
                        proof {
                            assert(param_views(out@) =~= before.push((name@, ty)));
                        }
                    }
                }
            }
        }
        proof {
            assert(param_views(out@) + lower_params_spec(*list, (i + 1) as nat) =~= before
                + lower_params_spec(*list, i as nat));
        }
        i += 1;
    }
    proof {
        assert(param_views(out@) + Seq::<Param>::empty() =~= param_views(out@));
    }
    out
}

/// Lowers a function that has a name.
fn lower_fn(node: &SyntaxNode) -> (function: Option<FnDef>)
    ensures
        option_fn(function) == lower_fn_spec(*node),
{
    let name = match find_name_in(node, SyntaxKind::IdentNode) {
        Some(name) => name,
        None => return None,
    };
    let params = match find_node(node, Pick::Node(SyntaxKind::ParamList), 0) {
        Some((_, list)) => lower_params(list),
        None => {
            let empty: Vec<(String, Declared)> = Vec::new();
            proof {
                assert(param_views(empty@) =~= Seq::<Param>::empty());
            }
            empty
        },
    };
    let ret = match find_return_type(node) {
        Some(ty) => {
            let text = to_string_lossless(ty);
            Some(declared_type(text.as_str()))
        },
        None => None,
    };
    let mut locals: Vec<(String, ValType)> = Vec::new();
    let mut body: Vec<Stmt> = Vec::new();
    proof {
        assert(variable_views(locals@) =~= Seq::<Variable>::empty());
        assert(stmt_views(body@) =~= Seq::<StmtView>::empty());
    }
    if let Some((_, block)) = find_node(node, Pick::Node(SyntaxKind::Block), 0) {
        lower_block(block, &mut locals, &mut body);
    }
    Some(FnDef { name, params, locals, body, ret })
}

/// The functions of a tree, lowered.
pub fn collect_functions(root: &SyntaxNode) -> (functions: Vec<FnDef>)
    ensures
        fn_views(functions@) == lower_root(*root),
{
    let mut out: Vec<FnDef> = Vec::new();
    let mut i: usize = 0;
    proof {
        assert(fn_views(out@) + lower_fns(*root, 0) =~= lower_root(*root));
    }
    while i < root.children.len()
        invariant
            i <= root.children@.len(),
            fn_views(out@) + lower_fns(*root, i as nat) == lower_root(*root),
        decreases root.children@.len() - i,
    {
        let ghost before = fn_views(out@);
        if let SyntaxElement::Node(item) = &root.children[i] {
            if item.kind == SyntaxKind::FnDecl {
                if let Some(function) = lower_fn(item) {
                    out.push(function);
                    proof {
                        assert(fn_views(out@) =~= before.push(function@));
                    }
                }
            }
        }
        proof {
            assert(fn_views(out@) + lower_fns(*root, (i + 1) as nat) =~= before + lower_fns(
                *root,
                i as nat,
            ));
        }
        i += 1;
    }
    proof {
        assert(fn_views(out@) + Seq::<FnDefView>::empty() =~= fn_views(out@));
    }
    out
}

/// The number `i` as an index of 32 bits; indices that 32 bits cannot hold
/// do not occur in a module that fits.
pub open spec fn index32(i: nat) -> u32 {
    if i <= 0xffff_ffff {
        i as u32
    } else {
        0u32
    }
}

/// The position of the first variable called `name` at or behind `from`.
pub open spec fn position<T>(variables: Seq<(Seq<char>, T)>, name: Seq<char>, from: nat) -> Option<
    nat,
>
    decreases variables.len() - from,
{
    if from >= variables.len() {
        None
    } else if variables[from as int].0 == name {
        Some(from)
    } else {
        position(variables, name, from + 1)
    }
}

/// The index of the variable called `name`: the parameters count first,
/// the locals follow them.
pub open spec fn local_index(params: Seq<Param>, locals: Seq<Variable>, name: Seq<char>)
    -> Option<nat> {
    match position(params, name, 0) {
        Some(i) => Some(i),
        None => match position(locals, name, 0) {
            Some(i) => Some(params.len() + i),
            None => None,
        },
    }
}

/// The index of the last of the first `n` functions that is called `name`.
pub open spec fn function_index(functions: Seq<FnDefView>, name: Seq<char>, n: nat) -> Option<
    nat,
>
    decreases n,
{
    if n == 0 || n > functions.len() {
        None
    } else if functions[n - 1].name == name {
        Some((n - 1) as nat)
    } else {
        function_index(functions, name, (n - 1) as nat)
    }
}

/// What an emitter knows of its surroundings: the functions of the module,
/// and the parameters and locals of the function whose body it emits.
pub struct Scope {
    pub functions: Seq<FnDefView>,
    pub params: Seq<Param>,
    pub locals: Seq<Variable>,
}

/// The instruction of a compiled operator.
pub open spec fn operator_of(op: SyntaxKind) -> Option<Operator> {
    match op {
        SyntaxKind::Plus => Some(Operator::I64Add),
        SyntaxKind::Minus => Some(Operator::I64Sub),
        SyntaxKind::Star => Some(Operator::I64Mul),
        SyntaxKind::Slash => Some(Operator::I64DivS),
        SyntaxKind::EqEq => Some(Operator::I64Eq),
        SyntaxKind::Neq => Some(Operator::I64Ne),
        SyntaxKind::Lt => Some(Operator::I64LtS),
        SyntaxKind::Lte => Some(Operator::I64LeS),
        SyntaxKind::Gt => Some(Operator::I64GtS),
        SyntaxKind::Gte => Some(Operator::I64GeS),
        _ => None,
    }
}

/// Instructions and diagnostics.
pub type Emitted = (Seq<Instr>, Seq<DiagnosticView>);

/// A constant of 64 bits.
pub open spec fn i64_const(value: i64) -> Instr {
    Instr::Operand(Operand::I64Const(value))
}

/// The instructions of an expression: its operands, then its operator.  A
/// name that is no variable (`E2004`) and a call of what is no function
/// (`E2005`) give zero.
pub open spec fn emit_expr_spec(expr: ExprView, scope: Scope) -> Emitted
    decreases expr, 0nat,
{
    match expr {
        ExprView::Int(value) => (seq![i64_const(value)], Seq::empty()),
        ExprView::Bool(value) => (
            seq![
                Instr::Operand(
                    Operand::I32Const(
                        if value {
                            1i32
                        } else {
                            0i32
                        },
                    ),
                ),
            ],
            Seq::empty(),
        ),
        ExprView::Ident(name) => match local_index(scope.params, scope.locals, name) {
            Some(index) => (seq![Instr::Operand(Operand::LocalGet(index32(index)))], Seq::empty()),
            None => (seq![i64_const(0)], seq![("E2004"@, "unknown local "@ + name)]),
        },
        ExprView::Bin { op, lhs, rhs } => {
            let (left, left_diagnostics) = emit_expr_spec(*lhs, scope);
            let (right, right_diagnostics) = emit_expr_spec(*rhs, scope);
            (
                left + right + match operator_of(op) {
                    Some(operator) => seq![Instr::Operator(operator)],
                    None => Seq::empty(),
                },
                left_diagnostics + right_diagnostics,
            )
        },
        ExprView::Call { name, args } => {
            let (operands, diagnostics) = emit_args_spec(args, args.len(), scope);
            match function_index(scope.functions, name, scope.functions.len()) {
                Some(index) => (
                    operands.push(Instr::Operand(Operand::Call(index32(index)))),
                    diagnostics,
                ),
                None => (
                    operands.push(i64_const(0)),
                    diagnostics.push(("E2005"@, "unknown function "@ + name)),
                ),
            }
        },
    }
}

/// The instructions of the first `n` arguments of a call.
pub open spec fn emit_args_spec(args: Seq<ExprView>, n: nat, scope: Scope) -> Emitted
    decreases args, n,
{
    if n == 0 || n > args.len() {
        (Seq::empty(), Seq::empty())
    } else {
        let (before, before_diagnostics) = emit_args_spec(args, (n - 1) as nat, scope);
        let (last, last_diagnostics) = emit_expr_spec(args[n - 1], scope);
        (before + last, before_diagnostics + last_diagnostics)
    }
}

/// The instructions of a statement.  A `let` sets its local, where there is
/// one of its name; a `return` returns its value; an expression statement
/// drops it; an `if` brackets its branches, the second only where it is not
/// empty, and closes with `end`.
pub open spec fn emit_stmt_spec(stmt: StmtView, scope: Scope) -> Emitted
    decreases stmt, 0nat,
{
    match stmt {
        StmtView::Let { name, expr } => {
            let (value, diagnostics) = emit_expr_spec(expr, scope);
            (
                value + match local_index(scope.params, scope.locals, name) {
                    Some(index) => seq![Instr::Operand(Operand::LocalSet(index32(index)))],
                    None => Seq::empty(),
                },
                diagnostics,
            )
        },
        StmtView::Return(expr) => {
            let (value, diagnostics) = emit_expr_spec(expr, scope);
            (value.push(Instr::Control(Control::Return)), diagnostics)
        },
        StmtView::Expr(expr) => {
            let (value, diagnostics) = emit_expr_spec(expr, scope);
            (value.push(Instr::Control(Control::Drop)), diagnostics)
        },
        StmtView::If { cond, then_body, else_body } => {
            let (test, test_diagnostics) = emit_expr_spec(cond, scope);
            let (first, first_diagnostics) = emit_stmts_spec(then_body, then_body.len(), scope);
            let (second, second_diagnostics) = if else_body.len() > 0 {
                let (branch, diagnostics) = emit_stmts_spec(else_body, else_body.len(), scope);
                (seq![Instr::Control(Control::Else)] + branch, diagnostics)
            } else {
                (Seq::empty(), Seq::empty())
            };
            (
                (test.push(Instr::Control(Control::If)) + first + second).push(
                    Instr::Control(Control::End),
                ),
                test_diagnostics + first_diagnostics + second_diagnostics,
            )
        },
    }
}

/// The instructions of the first `n` statements.
pub open spec fn emit_stmts_spec(stmts: Seq<StmtView>, n: nat, scope: Scope) -> Emitted
    decreases stmts, n,
{
    if n == 0 || n > stmts.len() {
        (Seq::empty(), Seq::empty())
    } else {
        let (before, before_diagnostics) = emit_stmts_spec(stmts, (n - 1) as nat, scope);
        let (last, last_diagnostics) = emit_stmt_spec(stmts[n - 1], scope);
        (before + last, before_diagnostics + last_diagnostics)
    }
}

/// The types of variables.
pub open spec fn types_of(variables: Seq<Variable>) -> Seq<ValType> {
    Seq::new(variables.len(), |i: int| variables[i].1)
}

/// The scope of a function of a module.
pub open spec fn scope_of(function: FnDefView, functions: Seq<FnDefView>) -> Scope {
    Scope { functions, params: function.params, locals: function.locals }
}

/// The body of a function: its statements, a zero for the result unless
/// the function declares the result `i64`, and `end`.
pub open spec fn body_spec(function: FnDefView, functions: Seq<FnDefView>) -> Emitted {
    let (instrs, diagnostics) = emit_stmts_spec(
        function.body,
        function.body.len(),
        scope_of(function, functions),
    );
    (
        (instrs + if function.ret == Some(Declared::Value(ValType::I64)) {
            Seq::empty()
        } else {
            seq![i64_const(0)]
        }).push(Instr::Control(Control::End)),
        diagnostics,
    )
}

/// The diagnostics for the first `n` parameters: one `E2002` for each that
/// is not `i64`.
pub open spec fn param_diagnostics(params: Seq<Param>, n: nat) -> Seq<DiagnosticView>
    decreases n,
{
    if n == 0 || n > params.len() {
        Seq::empty()
    } else {
        param_diagnostics(params, (n - 1) as nat) + if params[n - 1].1 != Declared::Value(
            ValType::I64,
        ) {
            seq![("E2002"@, "only i64 params supported"@)]
        } else {
            Seq::empty()
        }
    }
}

/// The diagnostics for a signature: those of the parameters, and `E2003`
/// for a declared result that is not `i64`.
pub open spec fn signature_diagnostics(function: FnDefView) -> Seq<DiagnosticView> {
    param_diagnostics(function.params, function.params.len()) + match function.ret {
        Some(ty) => if ty != Declared::Value(ValType::I64) {
            seq![("E2003"@, "only i64 return supported"@)]
        } else {
            Seq::empty()
        },
        None => Seq::empty(),
    }
}

/// As many `i64` as asked for.
pub open spec fn i64s(n: nat) -> Seq<ValType> {
    Seq::new(n, |i: int| ValType::I64)
}

/// The type of a function in the module: an `i64` for each parameter, and
/// `i64` for the result.
pub open spec fn type_of_fn(function: FnDefView) -> FuncType {
    (i64s(function.params.len()), seq![ValType::I64])
}

/// The types of the first `n` functions.
pub open spec fn module_types(functions: Seq<FnDefView>, n: nat) -> Seq<FuncType>
    decreases n,
{
    if n == 0 || n > functions.len() {
        Seq::empty()
    } else {
        module_types(functions, (n - 1) as nat).push(type_of_fn(functions[n - 1]))
    }
}

/// The type indices of the first `n` functions: each has a type of its own.
pub open spec fn module_indices(n: nat) -> Seq<u32>
    decreases n,
{
    if n == 0 {
        Seq::empty()
    } else {
        module_indices((n - 1) as nat).push(index32((n - 1) as nat))
    }
}

/// The exports for the first `n` functions: for each that is called
/// `main`, the function that calls of `main` reach, under the name `main`.
pub open spec fn module_exports_spec(functions: Seq<FnDefView>, n: nat) -> Seq<Export>
    decreases n,
{
    if n == 0 || n > functions.len() {
        Seq::empty()
    } else if functions[n - 1].name == "main"@ {
        module_exports_spec(functions, (n - 1) as nat).push(
            (
                "main"@,
                index32(
                    match function_index(functions, "main"@, functions.len()) {
                        Some(index) => index,
                        None => 0,
                    },
                ),
            ),
        )
    } else {
        module_exports_spec(functions, (n - 1) as nat)
    }
}

/// The bodies of the first `n` functions.
pub open spec fn module_bodies(functions: Seq<FnDefView>, n: nat) -> Seq<Body>
    decreases n,
{
    if n == 0 || n > functions.len() {
        Seq::empty()
    } else {
        module_bodies(functions, (n - 1) as nat).push(
            (types_of(functions[n - 1].locals), body_spec(functions[n - 1], functions).0),
        )
    }
}

/// The diagnostics of the first `n` functions: for each, those of its
/// signature and then those of its body.
pub open spec fn module_diagnostics(functions: Seq<FnDefView>, n: nat) -> Seq<DiagnosticView>
    decreases n,
{
    if n == 0 || n > functions.len() {
        Seq::empty()
    } else {
        module_diagnostics(functions, (n - 1) as nat) + signature_diagnostics(functions[n - 1])
            + body_spec(functions[n - 1], functions).1
    }
}

/// Whether the first `n` functions fit into a module: 32 bits can count
/// the variables of each and hold the size of each body, and the sections
/// stay within the size that 32 bits can hold.  The code section is counted
/// byte by byte; in the other sections each count and index is counted with
/// the five bytes that it takes at most.
pub open spec fn fits(functions: Seq<FnDefView>, n: nat) -> bool
    decreases n,
{
    if n == 0 || n > functions.len() {
        functions.len() * SIZE_FIELD + SIZE_FIELD <= MAX_U32
    } else {
        let function = functions[n - 1];
        &&& fits(functions, (n - 1) as nat)
        &&& function.params.len() + function.locals.len() <= MAX_U32
        &&& types_bound(module_types(functions, n), n) + SIZE_FIELD <= MAX_U32
        &&& body_size(types_of(function.locals), body_spec(function, functions).0) <= MAX_U32
        &&& code_size(module_bodies(functions, n), n) + SIZE_FIELD <= MAX_U32
        &&& exports_bound(
            module_exports_spec(functions, n),
            module_exports_spec(functions, n).len(),
        ) + SIZE_FIELD <= MAX_U32
    }
}

/// What compiling functions gives: `E2001` where there are none; `E2006`
/// where they do not fit into a module; their diagnostics where there are
/// any; and else the module with its type, function, export and code
/// section, in this order.
pub open spec fn compiled(functions: Seq<FnDefView>) -> Result<Seq<u8>, Seq<DiagnosticView>> {
    let n = functions.len();
    if n == 0 {
        Err(seq![("E2001"@, "no functions found"@)])
    } else if !fits(functions, n) {
        Err(seq![("E2006"@, "module too large"@)])
    } else if module_diagnostics(functions, n).len() > 0 {
        Err(module_diagnostics(functions, n))
    } else {
        Ok(
            module_bytes(
                seq![
                    SectionView::Types(module_types(functions, n)),
                    SectionView::Functions(module_indices(n)),
                    SectionView::Exports(module_exports_spec(functions, n)),
                    SectionView::Code(module_bodies(functions, n)),
                ],
            ),
        )
    }
}

/// What an emitter knows of its surroundings.
pub struct EmitCtx<'a> {
    pub functions: &'a Vec<FnDef>,
    pub locals: &'a Vec<(String, ValType)>,
    pub params: &'a Vec<(String, Declared)>,
}

impl<'a> EmitCtx<'a> {
    /// The surroundings as values.
    pub open spec fn scope(&self) -> Scope {
        Scope {
            functions: fn_views(self.functions@),
            params: param_views(self.params@),
            locals: variable_views(self.locals@),
        }
    }

    /// 32 bits can count the functions, and the variables of this function.
    pub open spec fn countable(&self) -> bool {
        self.functions@.len() <= MAX_U32 && self.params@.len() + self.locals@.len() <= MAX_U32
    }

    /// The index of the variable called `name`.
    fn local_index(&self, name: &str) -> (index: Option<u32>)
        requires
            self.countable(),
        ensures
            match local_index(self.scope().params, self.scope().locals, name@) {
                Some(i) => index == Some(index32(i)) && i <= MAX_U32,
                None => index is None,
            },
    {
        let ghost params = param_views(self.params@);
        let ghost locals = variable_views(self.locals@);
        let mut i: usize = 0;
        while i < self.params.len()
            invariant
                i <= self.params@.len(),
                self.countable(),
                params == param_views(self.params@),
                position(params, name@, 0) == position(params, name@, i as nat),
            decreases self.params@.len() - i,
        {
            if str_eq(self.params[i].0.as_str(), name) {
                return Some(i as u32);
            }
            i += 1;
        }
        let base = self.params.len();
        let mut j: usize = 0;
        while j < self.locals.len()
            invariant
                j <= self.locals@.len(),
                self.countable(),
                base == self.params@.len(),
                params == param_views(self.params@),
                locals == variable_views(self.locals@),
                position(params, name@, 0) is None,
                position(locals, name@, 0) == position(locals, name@, j as nat),
            decreases self.locals@.len() - j,
        {
            if str_eq(self.locals[j].0.as_str(), name) {
                return Some((base + j) as u32);
            }
            j += 1;
        }
        None
    }

    /// The index of the last function called `name`.
    fn function_index(&self, name: &str) -> (index: Option<u32>)
        requires
            self.countable(),
        ensures
            match function_index(self.scope().functions, name@, self.scope().functions.len()) {
                Some(i) => index == Some(index32(i)) && i <= MAX_U32,
                None => index is None,
            },
    {
        let ghost functions = fn_views(self.functions@);
        let mut n: usize = self.functions.len();
        while n > 0
            invariant
                n <= self.functions@.len(),
                self.countable(),
                functions == fn_views(self.functions@),
                function_index(functions, name@, functions.len()) == function_index(
                    functions,
                    name@,
                    n as nat,
                ),
            decreases n,
        {
            if str_eq(self.functions[n - 1].name.as_str(), name) {
                return Some((n - 1) as u32);
            }
            n -= 1;
        }
        None
    }
}

/// Adds a diagnostic with the given code and message.
fn push_diagnostic(diagnostics: &mut Vec<Diagnostic>, code: &str, message: String)
    ensures
        diagnostic_views(final(diagnostics)@) == diagnostic_views(old(diagnostics)@).push(
            (code@, message@),
        ),
{
    let diagnostic = Diagnostic { code: String::from_str(code), message };
    diagnostics.push(diagnostic);
    proof {
        assert(diagnostic_views(diagnostics@) =~= diagnostic_views(old(diagnostics)@).push(
            diagnostic@,
        ));
    }
}

/// Emits the instructions of an expression.
fn emit_expr(
    body: &mut wasm_encoder::Function,
    ctx: &EmitCtx,
    diagnostics: &mut Vec<Diagnostic>,
    expr: &Expr,
)
    requires
        ctx.countable(),
    ensures
        function_locals(*final(body)) == function_locals(*old(body)),
        function_body(*final(body)) == function_body(*old(body)) + emit_expr_spec(
            expr_view(*expr),
            ctx.scope(),
        ).0,
        diagnostic_views(final(diagnostics)@) == diagnostic_views(old(diagnostics)@)
            + emit_expr_spec(expr_view(*expr), ctx.scope()).1,
    decreases expr,
{
    let ghost start = function_body(*body);
    let ghost reported = diagnostic_views(diagnostics@);
    match expr {
        Expr::Int(value) => {
            function_operand(body, Operand::I64Const(*value));
            proof {
                assert(function_body(*body) =~= start + seq![i64_const(*value)]);
                assert(reported + Seq::<DiagnosticView>::empty() =~= reported);
            }
        },
        Expr::Bool(value) => {
            let bit: i32 = if *value {
                1
            } else {
                0
            };
            function_operand(body, Operand::I32Const(bit));
            proof {
                assert(function_body(*body) =~= start + seq![
                    Instr::Operand(Operand::I32Const(bit)),
                ]);
                assert(reported + Seq::<DiagnosticView>::empty() =~= reported);
            }
        },
        Expr::Ident(name) => {
            match ctx.local_index(name.as_str()) {
                Some(index) => {
                    function_operand(body, Operand::LocalGet(index));
                    proof {
                        assert(function_body(*body) =~= start + seq![
                            Instr::Operand(Operand::LocalGet(index)),
                        ]);
                        assert(reported + Seq::<DiagnosticView>::empty() =~= reported);
                    }
                },
                None => {
                    let message = String::from_str("unknown local ").concat(name.as_str());
                    push_diagnostic(diagnostics, "E2004", message);
                    function_operand(body, Operand::I64Const(0));
                    proof {
                        assert(function_body(*body) =~= start + seq![i64_const(0)]);
                        assert(diagnostic_views(diagnostics@) =~= reported + seq![
                            ("E2004"@, "unknown local "@ + name@),
                        ]);
                    }
                },
            }
        },
        Expr::Bin { op, lhs, rhs } => {
            emit_expr(body, ctx, diagnostics, lhs);
            emit_expr(body, ctx, diagnostics, rhs);
            let ghost operands = emit_expr_spec(expr_view(**lhs), ctx.scope()).0 + emit_expr_spec(
                expr_view(**rhs),
                ctx.scope(),
            ).0;
            proof {
                assert(function_body(*body) =~= start + operands);
                assert(diagnostic_views(diagnostics@) =~= reported + (emit_expr_spec(
                    expr_view(**lhs),
                    ctx.scope(),
                ).1 + emit_expr_spec(expr_view(**rhs), ctx.scope()).1));
            }
            let operator = match op {
                SyntaxKind::Plus => Operator::I64Add,
                SyntaxKind::Minus => Operator::I64Sub,
                SyntaxKind::Star => Operator::I64Mul,
                SyntaxKind::Slash => Operator::I64DivS,
                SyntaxKind::EqEq => Operator::I64Eq,
                SyntaxKind::Neq => Operator::I64Ne,
                SyntaxKind::Lt => Operator::I64LtS,
                SyntaxKind::Lte => Operator::I64LeS,
                SyntaxKind::Gt => Operator::I64GtS,
                SyntaxKind::Gte => Operator::I64GeS,
                _ => {
                    proof {
                        assert(operands + Seq::<Instr>::empty() =~= operands);
                    }
                    return ;
                },
            };
            function_operator(body, operator);
            proof {
                assert(function_body(*body) =~= start + (operands + seq![
                    Instr::Operator(operator),
                ]));
            }
        },
        Expr::Call { name, args } => {
            proof {
                lemma_call_view(*name, *args);
            }
            let ghost views = expr_views(args@);
            let mut i: usize = 0;
            proof {
                assert(start + Seq::<Instr>::empty() =~= start);
                assert(reported + Seq::<DiagnosticView>::empty() =~= reported);
            }
            while i < args.len()
                invariant
                    i <= args@.len(),
                    ctx.countable(),
                    decreases_to!(expr => args),
                    views == expr_views(args@),
                    function_locals(*body) == function_locals(*old(body)),
                    function_body(*body) == start + emit_args_spec(views, i as nat, ctx.scope()).0,
                    diagnostic_views(diagnostics@) == reported + emit_args_spec(
                        views,
                        i as nat,
                        ctx.scope(),
                    ).1,
                decreases args@.len() - i,
            {
                let ghost before = emit_args_spec(views, i as nat, ctx.scope());
                emit_expr(body, ctx, diagnostics, &args[i]);
                proof {
                    let last = emit_expr_spec(views[i as int], ctx.scope());
                    assert(function_body(*body) =~= start + (before.0 + last.0));
                    assert(diagnostic_views(diagnostics@) =~= reported + (before.1 + last.1));
                }
                i += 1;
            }
            let ghost operands = emit_args_spec(views, views.len(), ctx.scope());
            match ctx.function_index(name.as_str()) {
                Some(index) => {
                    function_operand(body, Operand::Call(index));
                    proof {
                        assert(function_body(*body) =~= start + operands.0.push(
                            Instr::Operand(Operand::Call(index)),
                        ));
                    }
                },
                None => {
                    let message = String::from_str("unknown function ").concat(name.as_str());
                    push_diagnostic(diagnostics, "E2005", message);
                    function_operand(body, Operand::I64Const(0));
                    proof {
                        assert(function_body(*body) =~= start + operands.0.push(i64_const(0)));
                        assert(diagnostic_views(diagnostics@) =~= reported + operands.1.push(
                            ("E2005"@, "unknown function "@ + name@),
                        ));
                    }
                },
            }
        },
    }
}

/// Emits the instructions of statements.
fn emit_stmts(
    body: &mut wasm_encoder::Function,
    ctx: &EmitCtx,
    diagnostics: &mut Vec<Diagnostic>,
    stmts: &Vec<Stmt>,
)
    requires
        ctx.countable(),
    ensures
        function_locals(*final(body)) == function_locals(*old(body)),
        function_body(*final(body)) == function_body(*old(body)) + emit_stmts_spec(
            stmt_views(stmts@),
            stmts@.len(),
            ctx.scope(),
        ).0,
        diagnostic_views(final(diagnostics)@) == diagnostic_views(old(diagnostics)@)
            + emit_stmts_spec(stmt_views(stmts@), stmts@.len(), ctx.scope()).1,
    decreases stmts, 1nat,
{
    let ghost start = function_body(*body);
    let ghost reported = diagnostic_views(diagnostics@);
    let ghost views = stmt_views(stmts@);
    let mut i: usize = 0;
    proof {
        assert(start + Seq::<Instr>::empty() =~= start);
        assert(reported + Seq::<DiagnosticView>::empty() =~= reported);
    }
    while i < stmts.len()
        invariant
            i <= stmts@.len(),
            ctx.countable(),
            views == stmt_views(stmts@),
            function_locals(*body) == function_locals(*old(body)),
            function_body(*body) == start + emit_stmts_spec(views, i as nat, ctx.scope()).0,
            diagnostic_views(diagnostics@) == reported + emit_stmts_spec(
                views,
                i as nat,
                ctx.scope(),
            ).1,
        decreases stmts@.len() - i,
    {
        let ghost before = emit_stmts_spec(views, i as nat, ctx.scope());
        emit_stmt(body, ctx, diagnostics, &stmts[i]);
        proof {
            let last = emit_stmt_spec(views[i as int], ctx.scope());
            assert(function_body(*body) =~= start + (before.0 + last.0));
            assert(diagnostic_views(diagnostics@) =~= reported + (before.1 + last.1));
        }
        i += 1;
    }
}

/// Emits the instructions of a statement.
fn emit_stmt(
    body: &mut wasm_encoder::Function,
    ctx: &EmitCtx,
    diagnostics: &mut Vec<Diagnostic>,
    stmt: &Stmt,
)
    requires
        ctx.countable(),
    ensures
        function_locals(*final(body)) == function_locals(*old(body)),
        function_body(*final(body)) == function_body(*old(body)) + emit_stmt_spec(
            stmt_view(*stmt),
            ctx.scope(),
        ).0,
        diagnostic_views(final(diagnostics)@) == diagnostic_views(old(diagnostics)@)
            + emit_stmt_spec(stmt_view(*stmt), ctx.scope()).1,
    decreases stmt, 0nat,
{
    let ghost start = function_body(*body);
    let ghost reported = diagnostic_views(diagnostics@);
    match stmt {
        Stmt::Let { name, expr } => {
            emit_expr(body, ctx, diagnostics, expr);
            let ghost value = emit_expr_spec(expr_view(*expr), ctx.scope()).0;
            if let Some(index) = ctx.local_index(name.as_str()) {
                function_operand(body, Operand::LocalSet(index));
                proof {
                    assert(function_body(*body) =~= start + (value + seq![
                        Instr::Operand(Operand::LocalSet(index)),
                    ]));
                }
            } else {
                proof {
                    assert(function_body(*body) =~= start + (value + Seq::<Instr>::empty()));
                }
            }
        },
        Stmt::Return(expr) => {
            emit_expr(body, ctx, diagnostics, expr);
            function_control(body, Control::Return);
            proof {
                assert(function_body(*body) =~= start + emit_expr_spec(
                    expr_view(*expr),
                    ctx.scope(),
                ).0.push(Instr::Control(Control::Return)));
            }
        },
        Stmt::Expr(expr) => {
            emit_expr(body, ctx, diagnostics, expr);
            function_control(body, Control::Drop);
            proof {
                assert(function_body(*body) =~= start + emit_expr_spec(
                    expr_view(*expr),
                    ctx.scope(),
                ).0.push(Instr::Control(Control::Drop)));
            }
        },
        Stmt::If { cond, then_body, else_body } => {
            proof {
                lemma_if_view(*cond, *then_body, *else_body);
            }
            let ghost test = emit_expr_spec(expr_view(*cond), ctx.scope());
            let ghost first = emit_stmts_spec(
                stmt_views(then_body@),
                then_body@.len(),
                ctx.scope(),
            );
            emit_expr(body, ctx, diagnostics, cond);
            function_control(body, Control::If);
            emit_stmts(body, ctx, diagnostics, then_body);
            proof {
                assert(function_body(*body) =~= start + (test.0.push(Instr::Control(Control::If))
                    + first.0));
                assert(diagnostic_views(diagnostics@) =~= reported + (test.1 + first.1));
            }
            if else_body.len() > 0 {
                let ghost second = emit_stmts_spec(
                    stmt_views(else_body@),
                    else_body@.len(),
                    ctx.scope(),
                );
                function_control(body, Control::Else);
                emit_stmts(body, ctx, diagnostics, else_body);
                function_control(body, Control::End);
                proof {
                    assert(function_body(*body) =~= start + (test.0.push(
                        Instr::Control(Control::If),
                    ) + first.0 + (seq![Instr::Control(Control::Else)] + second.0)).push(
                        Instr::Control(Control::End),
                    ));
                    assert(diagnostic_views(diagnostics@) =~= reported + (test.1 + first.1
                        + second.1));
                }
            } else {
                function_control(body, Control::End);
                proof {
                    assert(function_body(*body) =~= start + (test.0.push(
                        Instr::Control(Control::If),
                    ) + first.0 + Seq::<Instr>::empty()).push(Instr::Control(Control::End)));
                    assert(diagnostic_views(diagnostics@) =~= reported + (test.1 + first.1
                        + Seq::<DiagnosticView>::empty()));
                }
            }
        },
    }
}

/// The types of variables.
fn types_of_variables(variables: &Vec<(String, ValType)>) -> (types: Vec<ValType>)
    ensures
        types@ == types_of(variable_views(variables@)),
{
    let mut types: Vec<ValType> = Vec::new();
    let mut i: usize = 0;
    while i < variables.len()
        invariant
            i <= variables@.len(),
            types@.len() == i,
            forall|k: int| 0 <= k < i ==> types@[k] == variables@[k].1,
        decreases variables@.len() - i,
    {
        types.push(variables[i].1);
        i += 1;
    }
    proof {
        assert(types@ =~= types_of(variable_views(variables@)));
    }
    types
}

/// The type of a function in the module, with the diagnostics for what
/// its signature declares beyond `i64`.
fn signature_from_fn(f: &FnDef, diagnostics: &mut Vec<Diagnostic>) -> (signature: (
    Vec<ValType>,
    Vec<ValType>,
))
    ensures
        (signature.0@, signature.1@) == type_of_fn(f@),
        diagnostic_views(final(diagnostics)@) == diagnostic_views(old(diagnostics)@)
            + signature_diagnostics(f@),
{
    let ghost reported = diagnostic_views(diagnostics@);
    let ghost params = param_views(f.params@);
    let mut i: usize = 0;
    proof {
        assert(reported + Seq::<DiagnosticView>::empty() =~= reported);
    }
    while i < f.params.len()
        invariant
            i <= f.params@.len(),
            params == param_views(f.params@),
            diagnostic_views(diagnostics@) == reported + param_diagnostics(params, i as nat),
        decreases f.params@.len() - i,
    {
        let ghost before = param_diagnostics(params, i as nat);
        if f.params[i].1 != Declared::Value(ValType::I64) {
            push_diagnostic(diagnostics, "E2002", String::from_str("only i64 params supported"));
            proof {
                assert(diagnostic_views(diagnostics@) =~= reported + (before + seq![
                    ("E2002"@, "only i64 params supported"@),
                ]));
            }
        } else {
            proof {
                assert(reported + (before + Seq::<DiagnosticView>::empty()) =~= reported
                    + before);
            }
        }
        i += 1;
    }
    let ghost listed = param_diagnostics(params, params.len());
    match f.ret {
        Some(ret) => {
            if ret != Declared::Value(ValType::I64) {
                push_diagnostic(diagnostics, "E2003", String::from_str("only i64 return supported"));
                proof {
                    assert(diagnostic_views(diagnostics@) =~= reported + (listed + seq![
                        ("E2003"@, "only i64 return supported"@),
                    ]));
                }
            } else {
                proof {
                    assert(reported + (listed + Seq::<DiagnosticView>::empty()) =~= reported
                        + listed);
                }
            }
        },
        None => {
            proof {
                assert(reported + (listed + Seq::<DiagnosticView>::empty()) =~= reported + listed);
            }
        },
    }
    let mut params: Vec<ValType> = Vec::new();
    let mut k: usize = 0;
    while k < f.params.len()
        invariant
            k <= f.params@.len(),
            params@.len() == k,
            forall|j: int| 0 <= j < k ==> params@[j] == ValType::I64,
        decreases f.params@.len() - k,
    {
        params.push(ValType::I64);
        k += 1;
    }
    let mut results: Vec<ValType> = Vec::new();
    results.push(ValType::I64);
    proof {
        assert(results@ =~= seq![ValType::I64]);
        assert(params@ =~= i64s(f@.params.len()));
    }
    (params, results)
}

/// The number of bytes that a number takes as an unsigned LEB128.
fn leb_len(n: usize) -> (size: usize)
    ensures
        size == leb_size(n as nat),
        1 <= size <= 5,
{
    if n < 0x80 {
        1
    } else if n < 0x4000 {
        2
    } else if n < 0x20_0000 {
        3
    } else if n < 0x1000_0000 {
        4
    } else {
        5
    }
}

/// The bytes that the bodies of a code section take once a body of `size`
/// bytes joins bodies that take `total`: the body and its size before it.
/// `None` where 32 bits cannot hold the size of the body, or that of the
/// section with its count.
pub fn code_total_with(total: u64, size: usize) -> (next: Option<u64>)
    ensures
        next == if size <= MAX_U32 && total + leb_size(size as nat) + size + SIZE_FIELD
            <= MAX_U32 {
            Some((total + leb_size(size as nat) + size) as u64)
        } else {
            None
        },
{
    let limit: u64 = MAX_U32 as u64;
    if size > MAX_U32 || total > limit {
        return None;
    }
    let next: u64 = total + leb_len(size) as u64 + size as u64;
    if next + SIZE_FIELD as u64 > limit {
        None
    } else {
        Some(next)
    }
}

/// The bound of the first `n` types depends on those types alone.
proof fn lemma_types_bound_same(a: Seq<FuncType>, b: Seq<FuncType>, n: nat)
    requires
        n <= a.len(),
        n <= b.len(),
        forall|k: int| 0 <= k < n ==> a[k] == b[k],
    ensures
        types_bound(a, n) == types_bound(b, n),
    decreases n,
{
    if n > 0 {
        lemma_types_bound_same(a, b, (n - 1) as nat);
    }
}

/// The bound of the first `n` exports depends on those exports alone.
proof fn lemma_exports_bound_same(a: Seq<Export>, b: Seq<Export>, n: nat)
    requires
        n <= a.len(),
        n <= b.len(),
        forall|k: int| 0 <= k < n ==> a[k] == b[k],
    ensures
        exports_bound(a, n) == exports_bound(b, n),
    decreases n,
{
    if n > 0 {
        lemma_exports_bound_same(a, b, (n - 1) as nat);
    }
}

/// The size of the first `n` bodies depends on those bodies alone.
proof fn lemma_code_size_same(a: Seq<Body>, b: Seq<Body>, n: nat)
    requires
        n <= a.len(),
        n <= b.len(),
        forall|k: int| 0 <= k < n ==> a[k] == b[k],
    ensures
        code_size(a, n) == code_size(b, n),
    decreases n,
{
    if n > 0 {
        lemma_code_size_same(a, b, (n - 1) as nat);
    }
}

/// What is said of the first `n` functions has as many entries as it
/// should.
proof fn lemma_module_lengths(functions: Seq<FnDefView>, n: nat)
    requires
        n <= functions.len(),
    ensures
        module_types(functions, n).len() == n,
        module_indices(n).len() == n,
        module_bodies(functions, n).len() == n,
        module_exports_spec(functions, n).len() <= n,
    decreases n,
{
    if n > 0 {
        lemma_module_lengths(functions, (n - 1) as nat);
    }
}

/// Functions that fit still fit when the last ones are left out.
proof fn lemma_fits_fewer(functions: Seq<FnDefView>, m: nat, n: nat)
    requires
        m <= n <= functions.len(),
        fits(functions, n),
    ensures
        fits(functions, m),
    decreases n - m,
{
    if m < n {
        lemma_fits_fewer(functions, m, (n - 1) as nat);
    }
}

/// The diagnostic for functions that do not fit into a module.
fn too_large() -> (diagnostics: Vec<Diagnostic>)
    ensures
        diagnostic_views(diagnostics@) == seq![("E2006"@, "module too large"@)],
{
    let mut diagnostics: Vec<Diagnostic> = Vec::new();
    proof {
        assert(diagnostic_views(diagnostics@) =~= Seq::<DiagnosticView>::empty());
    }
    push_diagnostic(&mut diagnostics, "E2006", String::from_str("module too large"));
    proof {
        assert(Seq::<DiagnosticView>::empty().push(("E2006"@, "module too large"@)) =~= seq![
            ("E2006"@, "module too large"@),
        ]);
    }
    diagnostics
}

/// Whether what came out of a compilation is what the functions compile to.
pub open spec fn is_compiled(
    result: Result<Vec<u8>, Vec<Diagnostic>>,
    functions: Seq<FnDefView>,
) -> bool {
    match result {
        Ok(bytes) => compiled(functions) == Ok::<Seq<u8>, Seq<DiagnosticView>>(bytes@),
        Err(diagnostics) => compiled(functions) == Err::<Seq<u8>, Seq<DiagnosticView>>(
            diagnostic_views(diagnostics@),
        ),
    }
}

/// The sections of a module while it is built: each holds what is said of
/// the first `n` functions, and the sizes counted so far are those of the
/// sections.
pub struct Sections {
    pub types: wasm_encoder::TypeSection,
    pub funcs: wasm_encoder::FunctionSection,
    pub exports: wasm_encoder::ExportSection,
    pub code: wasm_encoder::CodeSection,
    pub types_total: u64,
    pub exports_total: u64,
    pub code_total: u64,
}

impl Sections {
    /// The sections hold the first `n` of `functions`, which fit.
    pub open spec fn holds(&self, functions: Seq<FnDefView>, n: nat) -> bool {
        &&& n <= functions.len()
        &&& fits(functions, n)
        &&& type_entries(self.types) == module_types(functions, n)
        &&& function_entries(self.funcs) == module_indices(n)
        &&& export_entries(self.exports) == module_exports_spec(functions, n)
        &&& code_entries(self.code) == module_bodies(functions, n)
        &&& self.types_total == types_bound(module_types(functions, n), n)
        &&& self.exports_total == exports_bound(
            module_exports_spec(functions, n),
            module_exports_spec(functions, n).len(),
        )
        &&& self.code_total == code_size(module_bodies(functions, n), n)
    }

    /// Empty sections for the module of `functions`.
    fn new(functions: &Vec<FnDef>) -> (sections: Sections)
        requires
            functions@.len() * SIZE_FIELD + SIZE_FIELD <= MAX_U32,
        ensures
            sections.holds(fn_views(functions@), 0),
    {
        Sections {
            types: type_section_new(),
            funcs: function_section_new(),
            exports: export_section_new(),
            code: code_section_new(),
            types_total: 0,
            exports_total: 0,
            code_total: 0,
        }
    }

    /// Adds function `i` to the sections, with its diagnostics; gives
    /// `false`, and leaves the sections as they are or half filled, where
    /// the functions up to this one do not fit.
    #[verifier::rlimit(60)]
    fn add(&mut self, functions: &Vec<FnDef>, i: usize, diagnostics: &mut Vec<Diagnostic>) -> (ok:
        bool)
        requires
            i < functions@.len(),
            old(self).holds(fn_views(functions@), i as nat),
        ensures
            ok ==> final(self).holds(fn_views(functions@), (i + 1) as nat) && diagnostic_views(
                final(diagnostics)@,
            ) == diagnostic_views(old(diagnostics)@) + signature_diagnostics(functions@[i as int]@)
                + body_spec(functions@[i as int]@, fn_views(functions@)).1,
            !ok ==> !fits(fn_views(functions@), (i + 1) as nat),
    {
        let ghost fs = fn_views(functions@);
        let ghost n = (i + 1) as nat;
        let ghost reported = diagnostic_views(diagnostics@);
        let f = &functions[i];
        proof {
            assert(fs[i as int] == f@);
            lemma_fits_fewer(fs, 0, i as nat);
            assert(fs.len() * SIZE_FIELD + SIZE_FIELD <= MAX_U32);
            lemma_module_lengths(fs, i as nat);
            lemma_module_lengths(fs, n);
            lemma_types_bound_same(module_types(fs, n), module_types(fs, i as nat), i as nat);
            lemma_code_size_same(module_bodies(fs, n), module_bodies(fs, i as nat), i as nat);
            assert(type_of_fn(f@).0.len() == f.params@.len());
        }
        let limit: u64 = MAX_U32 as u64;
        let field: u64 = SIZE_FIELD as u64;
        if f.params.len() > MAX_U32 || f.locals.len() > MAX_U32 {
            return false;
        }
        let variables: u64 = f.params.len() as u64 + f.locals.len() as u64;
        if variables > limit {
            return false;
        }
        let types_total: u64 = self.types_total + 11 + f.params.len() as u64 + 1;
        if types_total + field > limit {
            return false;
        }
        let (params, results) = signature_from_fn(f, diagnostics);
        type_section_function(&mut self.types, &params, &results);
        function_section_function(&mut self.funcs, i as u32);
        self.types_total = types_total;
        let locals = types_of_variables(&f.locals);
        let mut body = function_new(&locals);
        let ctx = EmitCtx { functions, locals: &f.locals, params: &f.params };
        let ghost emitted = emit_stmts_spec(f@.body, f@.body.len(), scope_of(f@, fs));
        emit_stmts(&mut body, &ctx, diagnostics, &f.body);
        proof {
            assert(Seq::<Instr>::empty() + emitted.0 =~= emitted.0);
        }
        if !matches!(f.ret, Some(Declared::Value(ValType::I64))) {
            function_operand(&mut body, Operand::I64Const(0));
        }
        function_control(&mut body, Control::End);
        proof {
            assert(function_body(body) =~= body_spec(f@, fs).0);
            assert(diagnostic_views(diagnostics@) =~= reported + signature_diagnostics(f@)
                + body_spec(f@, fs).1);
        }
        let size = function_byte_len(&body);
        let code_total = match code_total_with(self.code_total, size) {
            Some(total) => total,
            None => return false,
        };
        code_section_function(&mut self.code, &body);
        self.code_total = code_total;
        if str_eq(f.name.as_str(), "main") {
            proof {
                reveal_strlit("main");
                is_ascii_chars_encode_utf8("main"@);
            }
            let exports_total: u64 = self.exports_total + 11 + "main".len() as u64;
            if exports_total + field > limit {
                proof {
                    let exports = module_exports_spec(fs, n);
                    let before = module_exports_spec(fs, i as nat);
                    lemma_exports_bound_same(exports, before, before.len());
                }
                return false;
            }
            let index = match ctx.function_index("main") {
                Some(index) => index,
                None => 0,
            };
            export_section_export(&mut self.exports, "main", index);
            self.exports_total = exports_total;
            proof {
                let exports = module_exports_spec(fs, n);
                let before = module_exports_spec(fs, i as nat);
                lemma_exports_bound_same(exports, before, before.len());
            }
        }
        proof {
            assert(type_entries(self.types) == module_types(fs, n));
            assert(function_entries(self.funcs) == module_indices(n));
            assert(export_entries(self.exports) == module_exports_spec(fs, n));
            assert(code_entries(self.code) == module_bodies(fs, n));
            assert(self.types_total == types_bound(module_types(fs, n), n));
            assert(self.code_total == code_size(module_bodies(fs, n), n));
            assert(self.exports_total == exports_bound(
                module_exports_spec(fs, n),
                module_exports_spec(fs, n).len(),
            ));
            assert(fits(fs, n));
        }
        true
    }

    /// The module with the sections of `functions`.
    fn finish(self, functions: &Vec<FnDef>) -> (bytes: Vec<u8>)
        requires
            self.holds(fn_views(functions@), functions@.len()),
        ensures
            bytes@ == module_bytes(
                seq![
                    SectionView::Types(module_types(fn_views(functions@), functions@.len())),
                    SectionView::Functions(module_indices(functions@.len())),
                    SectionView::Exports(
                        module_exports_spec(fn_views(functions@), functions@.len()),
                    ),
                    SectionView::Code(module_bodies(fn_views(functions@), functions@.len())),
                ],
            ),
    {
        let ghost fs = fn_views(functions@);
        let ghost n = functions@.len();
        proof {
            lemma_module_lengths(fs, n);
            lemma_fits_fewer(fs, 0, n);
            if n > 0 {
                assert(fits(fs, n));
            }
        }
        let mut module = module_new();
        write_types(&mut module, &self.types);
        write_functions(&mut module, &self.funcs);
        write_exports(&mut module, &self.exports);
        write_code(&mut module, &self.code);
        let bytes = module_finish(module);
        proof {
            assert(module_sections(module) =~= seq![
                SectionView::Types(module_types(fs, n)),
                SectionView::Functions(module_indices(n)),
                SectionView::Exports(module_exports_spec(fs, n)),
                SectionView::Code(module_bodies(fs, n)),
            ]);
        }
        bytes
    }
}

/// Compiles lowered functions to a module, as [`compiled`] says.
pub fn compile_functions(functions: &Vec<FnDef>) -> (result: Result<Vec<u8>, Vec<Diagnostic>>)
    ensures
        is_compiled(result, fn_views(functions@)),
{
    let ghost fs = fn_views(functions@);
    let mut diagnostics: Vec<Diagnostic> = Vec::new();
    proof {
        assert(diagnostic_views(diagnostics@) =~= Seq::<DiagnosticView>::empty());
    }
    if functions.len() == 0 {
        push_diagnostic(&mut diagnostics, "E2001", String::from_str("no functions found"));
        proof {
            assert(diagnostic_views(diagnostics@) =~= seq![("E2001"@, "no functions found"@)]);
        }
        return Err(diagnostics);
    }
    if functions.len() > (MAX_U32 - SIZE_FIELD) / SIZE_FIELD {
        proof {
            if fits(fs, fs.len()) {
                lemma_fits_fewer(fs, 0, fs.len());
            }
        }
        return Err(too_large());
    }
    let mut sections = Sections::new(functions);
    let mut i: usize = 0;
    while i < functions.len()
        invariant
            i <= functions@.len(),
            fs == fn_views(functions@),
            sections.holds(fs, i as nat),
            diagnostic_views(diagnostics@) == module_diagnostics(fs, i as nat),
        decreases functions@.len() - i,
    {
        if !sections.add(functions, i, &mut diagnostics) {
            proof {
                if fits(fs, fs.len()) {
                    lemma_fits_fewer(fs, (i + 1) as nat, fs.len());
                }
            }
            return Err(too_large());
        }
        i += 1;
    }
    if diagnostics.len() == 0 {
        Ok(sections.finish(functions))
    } else {
        Err(diagnostics)
    }
}

/// What compiling a parse gives: `E2000` with its message for each parse
/// error where there are any; else what the functions of the tree compile
/// to.
pub open spec fn compiled_tree(
    errors: Seq<ParseError>,
    root: SyntaxNode,
    result: Result<Vec<u8>, Vec<Diagnostic>>,
) -> bool {
    if errors.len() > 0 {
        result matches Err(diagnostics) && diagnostic_views(diagnostics@) == Seq::new(
            errors.len(),
            |i: int| ("E2000"@, errors[i].message@),
        )
    } else {
        is_compiled(result, lower_root(root))
    }
}

/// Compiles a tree with the errors of its parse.
pub fn compile_tree(errors: &Vec<ParseError>, root: &SyntaxNode) -> (result: Result<
    Vec<u8>,
    Vec<Diagnostic>,
>)
    ensures
        compiled_tree(errors@, *root, result),
{
    if errors.len() > 0 {
        let mut diagnostics: Vec<Diagnostic> = Vec::new();
        let mut i: usize = 0;
        while i < errors.len()
            invariant
                i <= errors@.len(),
                diagnostics@.len() == i,
                forall|k: int|
                    0 <= k < i ==> (#[trigger] diagnostics@[k])@ == ("E2000"@, errors@[k].message@),
            decreases errors@.len() - i,
        {
            diagnostics.push(
                Diagnostic { code: String::from_str("E2000"), message: errors[i].message.clone() },
            );
            i += 1;
        }
        proof {
            assert(diagnostic_views(diagnostics@) =~= Seq::new(
                errors@.len(),
                |i: int| ("E2000"@, errors@[i].message@),
            ));
        }
        return Err(diagnostics);
    }
    let functions = collect_functions(root);
    compile_functions(&functions)
}

/// Compiles `source` to a WebAssembly module.
///
/// A source with parse errors is not compiled: each error comes back under
/// `E2000`.  Else the functions of the tree are lowered and compiled as
/// [`compiled`] says: to the bytes of a module, or to the diagnostics that
/// stand against it.
pub fn compile_to_wasm(source: &str) -> (result: Result<Vec<u8>, Vec<Diagnostic>>)
    requires
        source.spec_bytes().len() <= MAX_TEXT_LEN,
    ensures
        exists|parsed: Parse, root: SyntaxNode|
            is_parse_of(parsed, source@) && is_tree_of(root, source@) && compiled_tree(
                parsed.errors@,
                root,
                result,
            ),
{
    let parsed = parse(source);
    let root = parsed.syntax();
    let result = compile_tree(&parsed.errors, &root);
    proof {
        assert(is_parse_of(parsed, source@) && is_tree_of(root, source@) && compiled_tree(
            parsed.errors@,
            root,
            result,
        ));
    }
    result
}

} // verus!
