//! The binary encoder: wasm-encoder's sections, function bodies and module.
//!
//! wasm-encoder does the encoding.  What this library relies on is stated
//! here over what each of its builders holds: the entries of a section, the
//! locals and instructions of a function body, the sections of a module.
//! Where wasm-encoder panics (a count or a size that 32 bits cannot hold),
//! the `requires` of a wrapper leaves the input out.

use vstd::prelude::*;
use vstd::utf8::*;

verus! {

/// The types of values that a compiled function takes, holds and returns.
#[derive(Debug, Clone, Copy, PartialEq, Eq, Structural)]
pub enum ValType {
    I64,
    I32,
}

/// An instruction with an immediate operand.
#[derive(Debug, Clone, Copy, PartialEq, Eq, Structural)]
pub enum Operand {
    I64Const(i64),
    I32Const(i32),
    LocalGet(u32),
    LocalSet(u32),
    Call(u32),
}

/// An instruction on two `i64` operands.
#[derive(Debug, Clone, Copy, PartialEq, Eq, Structural)]
pub enum Operator {
    I64Add,
    I64Sub,
    I64Mul,
    I64DivS,
    I64Eq,
    I64Ne,
    I64LtS,
    I64LeS,
    I64GtS,
    I64GeS,
}

/// An instruction of the control flow; `If` has no result.
#[derive(Debug, Clone, Copy, PartialEq, Eq, Structural)]
pub enum Control {
    Return,
    Drop,
    If,
    Else,
    End,
}

/// An instruction.
#[derive(Debug, Clone, Copy, PartialEq, Eq, Structural)]
pub enum Instr {
    Operand(Operand),
    Operator(Operator),
    Control(Control),
}

/// A function type: parameters and results.
pub type FuncType = (Seq<ValType>, Seq<ValType>);

/// A function body: locals, one of each type listed, and instructions.
pub type Body = (Seq<ValType>, Seq<Instr>);

/// An export of a function: the name and the function's index.
pub type Export = (Seq<char>, u32);

/// A section as a module holds it.
pub enum SectionView {
    Types(Seq<FuncType>),
    Functions(Seq<u32>),
    Exports(Seq<Export>),
    Code(Seq<Body>),
}

#[verifier::external_type_specification]
#[verifier::external_body]
pub struct ExTypeSection(wasm_encoder::TypeSection);

#[verifier::external_type_specification]
#[verifier::external_body]
pub struct ExFunctionSection(wasm_encoder::FunctionSection);

#[verifier::external_type_specification]
#[verifier::external_body]
pub struct ExExportSection(wasm_encoder::ExportSection);

#[verifier::external_type_specification]
#[verifier::external_body]
pub struct ExCodeSection(wasm_encoder::CodeSection);

#[verifier::external_type_specification]
#[verifier::external_body]
pub struct ExFunction(wasm_encoder::Function);

#[verifier::external_type_specification]
#[verifier::external_body]
pub struct ExModule(wasm_encoder::Module);

/// The function types of a type section, in the order in which they were
/// added.
pub uninterp spec fn type_entries(section: wasm_encoder::TypeSection) -> Seq<FuncType>;

/// The type indices of a function section, in order.
pub uninterp spec fn function_entries(section: wasm_encoder::FunctionSection) -> Seq<u32>;

/// The function exports of an export section, in order.
pub uninterp spec fn export_entries(section: wasm_encoder::ExportSection) -> Seq<Export>;

/// The function bodies of a code section, in order.
pub uninterp spec fn code_entries(section: wasm_encoder::CodeSection) -> Seq<Body>;

/// The locals with which a function body was made.
pub uninterp spec fn function_locals(function: wasm_encoder::Function) -> Seq<ValType>;

/// The instructions added to a function body, in order.
pub uninterp spec fn function_body(function: wasm_encoder::Function) -> Seq<Instr>;

/// The number of bytes that encode a function body with the given locals
/// and instructions, without the size that goes before them.
pub uninterp spec fn body_size(locals: Seq<ValType>, instrs: Seq<Instr>) -> nat;

/// The sections written into a module, in order.
pub uninterp spec fn module_sections(module: wasm_encoder::Module) -> Seq<SectionView>;

/// The bytes of a module with the given sections: the header, then the
/// sections as WebAssembly's binary format encodes them.
pub uninterp spec fn module_bytes(sections: Seq<SectionView>) -> Seq<u8>;

/// The greatest count or size that the binary format can write.
pub const MAX_U32: usize = 0xffff_ffff;

/// The number of bytes that a count or size takes at most.
pub const SIZE_FIELD: usize = 5;

/// The number of bytes that a number takes as an unsigned LEB128.
pub open spec fn leb_size(n: nat) -> nat {
    if n < 0x80 {
        1
    } else if n < 0x4000 {
        2
    } else if n < 0x20_0000 {
        3
    } else if n < 0x1000_0000 {
        4
    } else {
        5
    }
}

/// No more bytes than the types of `entries` take from index `n` on: for
/// each, a tag, two counts and a byte for each parameter and result.
pub open spec fn types_bound(entries: Seq<FuncType>, n: nat) -> nat
    decreases n,
{
    if n == 0 || n > entries.len() {
        0
    } else {
        types_bound(entries, (n - 1) as nat) + 11 + entries[n - 1].0.len() + entries[n - 1].1.len()
    }
}

/// No more bytes than the first `n` exports take: for each, the size of
/// the name and the name, a kind and an index.
pub open spec fn exports_bound(entries: Seq<Export>, n: nat) -> nat
    decreases n,
{
    if n == 0 || n > entries.len() {
        0
    } else {
        exports_bound(entries, (n - 1) as nat) + 11 + encode_utf8(entries[n - 1].0).len()
    }
}

/// The bytes that the first `n` bodies take in a code section: each with
/// its size before it.
pub open spec fn code_size(entries: Seq<Body>, n: nat) -> nat
    decreases n,
{
    if n == 0 || n > entries.len() {
        0
    } else {
        let size = body_size(entries[n - 1].0, entries[n - 1].1);
        code_size(entries, (n - 1) as nat) + leb_size(size) + size
    }
}

/// `TypeSection::new`: a type section without entries.
#[verifier::external_body]
pub(crate) fn type_section_new() -> (section: wasm_encoder::TypeSection)
    ensures
        type_entries(section) == Seq::<FuncType>::empty(),
{
    wasm_encoder::TypeSection::new()
}

/// `TypeSection::ty` and `CoreTypeEncoder::function`: one more function
/// type.  wasm-encoder panics where 32 bits cannot count the parameters,
/// the results or the entries.
#[verifier::external_body]
pub(crate) fn type_section_function(
    section: &mut wasm_encoder::TypeSection,
    params: &Vec<ValType>,
    results: &Vec<ValType>,
)
    requires
        type_entries(*old(section)).len() < MAX_U32,
        params@.len() <= MAX_U32,
        results@.len() <= MAX_U32,
    ensures
        type_entries(*final(section)) == type_entries(*old(section)).push((params@, results@)),
{
    let wasm = |ty: &ValType|
        match ty {
            ValType::I64 => wasm_encoder::ValType::I64,
            ValType::I32 => wasm_encoder::ValType::I32,
        };
    section.ty().function(params.iter().map(wasm), results.iter().map(wasm));
}

/// `FunctionSection::new`: a function section without entries.
#[verifier::external_body]
pub(crate) fn function_section_new() -> (section: wasm_encoder::FunctionSection)
    ensures
        function_entries(section) == Seq::<u32>::empty(),
{
    wasm_encoder::FunctionSection::new()
}

/// `FunctionSection::function`: one more function, of the type with the
/// given index.  wasm-encoder panics where 32 bits cannot count the entries.
#[verifier::external_body]
pub(crate) fn function_section_function(
    section: &mut wasm_encoder::FunctionSection,
    type_index: u32,
)
    requires
        function_entries(*old(section)).len() < MAX_U32,
    ensures
        function_entries(*final(section)) == function_entries(*old(section)).push(type_index),
{
    section.function(type_index);
}

/// `ExportSection::new`: an export section without entries.
#[verifier::external_body]
pub(crate) fn export_section_new() -> (section: wasm_encoder::ExportSection)
    ensures
        export_entries(section) == Seq::<Export>::empty(),
{
    wasm_encoder::ExportSection::new()
}

/// `ExportSection::export` with `ExportKind::Func`: one more export of a
/// function.  wasm-encoder panics where 32 bits cannot hold the size of the
/// name or count the entries.
#[verifier::external_body]
pub(crate) fn export_section_export(
    section: &mut wasm_encoder::ExportSection,
    name: &str,
    index: u32,
)
    requires
        export_entries(*old(section)).len() < MAX_U32,
        encode_utf8(name@).len() <= MAX_U32,
    ensures
        export_entries(*final(section)) == export_entries(*old(section)).push((name@, index)),
{
    section.export(name, wasm_encoder::ExportKind::Func, index);
}

/// `CodeSection::new`: a code section without entries.
#[verifier::external_body]
pub(crate) fn code_section_new() -> (section: wasm_encoder::CodeSection)
    ensures
        code_entries(section) == Seq::<Body>::empty(),
{
    wasm_encoder::CodeSection::new()
}

/// `CodeSection::function`: one more function body.  wasm-encoder panics
/// where 32 bits cannot hold the size of the body or count the entries.
#[verifier::external_body]
pub(crate) fn code_section_function(
    section: &mut wasm_encoder::CodeSection,
    function: &wasm_encoder::Function,
)
    requires
        code_entries(*old(section)).len() < MAX_U32,
        body_size(function_locals(*function), function_body(*function)) <= MAX_U32,
    ensures
        code_entries(*final(section)) == code_entries(*old(section)).push(
            (function_locals(*function), function_body(*function)),
        ),
{
    section.function(function);
}

/// `Function::new`: a function body with one local of each type listed and
/// no instructions.  wasm-encoder panics where 32 bits cannot count the
/// locals.
#[verifier::external_body]
pub(crate) fn function_new(locals: &Vec<ValType>) -> (function: wasm_encoder::Function)
    requires
        locals@.len() <= MAX_U32,
    ensures
        function_locals(function) == locals@ && function_body(function) == Seq::<Instr>::empty(),
{
    wasm_encoder::Function::new(
        locals.iter().map(
            |ty|
                match ty {
                    ValType::I64 => (1, wasm_encoder::ValType::I64),
                    ValType::I32 => (1, wasm_encoder::ValType::I32),
                },
        ),
    )
}

/// `Function::instruction` for an instruction with an operand.
#[verifier::external_body]
pub(crate) fn function_operand(function: &mut wasm_encoder::Function, instr: Operand)
    ensures
        function_body(*final(function)) == function_body(*old(function)).push(
            Instr::Operand(instr),
        ) && function_locals(*final(function)) == function_locals(*old(function)),
{
    function.instruction(
        &match instr {
            Operand::I64Const(value) => wasm_encoder::Instruction::I64Const(value),
            Operand::I32Const(value) => wasm_encoder::Instruction::I32Const(value),
            Operand::LocalGet(index) => wasm_encoder::Instruction::LocalGet(index),
            Operand::LocalSet(index) => wasm_encoder::Instruction::LocalSet(index),
            Operand::Call(index) => wasm_encoder::Instruction::Call(index),
        },
    );
}

/// `Function::instruction` for an operator.
#[verifier::external_body]
pub(crate) fn function_operator(function: &mut wasm_encoder::Function, instr: Operator)
    ensures
        function_body(*final(function)) == function_body(*old(function)).push(
            Instr::Operator(instr),
        ) && function_locals(*final(function)) == function_locals(*old(function)),
{
    function.instruction(
        &match instr {
            Operator::I64Add => wasm_encoder::Instruction::I64Add,
            Operator::I64Sub => wasm_encoder::Instruction::I64Sub,
            Operator::I64Mul => wasm_encoder::Instruction::I64Mul,
            Operator::I64DivS => wasm_encoder::Instruction::I64DivS,
            Operator::I64Eq => wasm_encoder::Instruction::I64Eq,
            Operator::I64Ne => wasm_encoder::Instruction::I64Ne,
            Operator::I64LtS => wasm_encoder::Instruction::I64LtS,
            Operator::I64LeS => wasm_encoder::Instruction::I64LeS,
            Operator::I64GtS => wasm_encoder::Instruction::I64GtS,
            Operator::I64GeS => wasm_encoder::Instruction::I64GeS,
        },
    );
}

/// `Function::instruction` for an instruction of the control flow; an `If`
/// has the empty block type.
#[verifier::external_body]
pub(crate) fn function_control(function: &mut wasm_encoder::Function, instr: Control)
    ensures
        function_body(*final(function)) == function_body(*old(function)).push(
            Instr::Control(instr),
        ) && function_locals(*final(function)) == function_locals(*old(function)),
{
    function.instruction(
        &match instr {
            Control::Return => wasm_encoder::Instruction::Return,
            Control::Drop => wasm_encoder::Instruction::Drop,
            Control::If => wasm_encoder::Instruction::If(wasm_encoder::BlockType::Empty),
            Control::Else => wasm_encoder::Instruction::Else,
            Control::End => wasm_encoder::Instruction::End,
        },
    );
}

/// `Function::byte_len`: the number of bytes of the body so far.
#[verifier::external_body]
pub(crate) fn function_byte_len(function: &wasm_encoder::Function) -> (size: usize)
    ensures
        size == body_size(function_locals(*function), function_body(*function)),
{
    function.byte_len()
}

/// `Module::new`: a module without sections.
#[verifier::external_body]
pub(crate) fn module_new() -> (module: wasm_encoder::Module)
    ensures
        module_sections(module) == Seq::<SectionView>::empty(),
{
    wasm_encoder::Module::new()
}

/// `Module::section` for a type section.  wasm-encoder panics where 32 bits
/// cannot hold the size of the section.
#[verifier::external_body]
pub(crate) fn write_types(module: &mut wasm_encoder::Module, section: &wasm_encoder::TypeSection)
    requires
        types_bound(type_entries(*section), type_entries(*section).len()) + SIZE_FIELD
            <= MAX_U32,
    ensures
        module_sections(*final(module)) == module_sections(*old(module)).push(
            SectionView::Types(type_entries(*section)),
        ),
{
    module.section(section);
}

/// `Module::section` for a function section.  wasm-encoder panics where 32
/// bits cannot hold the size of the section.
#[verifier::external_body]
pub(crate) fn write_functions(
    module: &mut wasm_encoder::Module,
    section: &wasm_encoder::FunctionSection,
)
    requires
        function_entries(*section).len() * SIZE_FIELD + SIZE_FIELD <= MAX_U32,
    ensures
        module_sections(*final(module)) == module_sections(*old(module)).push(
            SectionView::Functions(function_entries(*section)),
        ),
{
    module.section(section);
}

/// `Module::section` for an export section.  wasm-encoder panics where 32
/// bits cannot hold the size of the section.
#[verifier::external_body]
pub(crate) fn write_exports(
    module: &mut wasm_encoder::Module,
    section: &wasm_encoder::ExportSection,
)
    requires
        exports_bound(export_entries(*section), export_entries(*section).len()) + SIZE_FIELD
            <= MAX_U32,
    ensures
        module_sections(*final(module)) == module_sections(*old(module)).push(
            SectionView::Exports(export_entries(*section)),
        ),
{
    module.section(section);
}

/// `Module::section` for a code section.  wasm-encoder panics where 32 bits
/// cannot hold the size of the section.
#[verifier::external_body]
pub(crate) fn write_code(module: &mut wasm_encoder::Module, section: &wasm_encoder::CodeSection)
    requires
        code_size(code_entries(*section), code_entries(*section).len()) + SIZE_FIELD <= MAX_U32,
    ensures
        module_sections(*final(module)) == module_sections(*old(module)).push(
            SectionView::Code(code_entries(*section)),
        ),
{
    module.section(section);
}

/// `Module::finish`: the bytes of the module.
#[verifier::external_body]
pub(crate) fn module_finish(module: wasm_encoder::Module) -> (bytes: Vec<u8>)
    ensures
        bytes@ == module_bytes(module_sections(module)),
{
    module.finish()
}

} // verus!
