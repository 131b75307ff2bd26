//! Front end and WebAssembly back end of the JaLM language: lexer, lossless
//! syntax tree, error-recovering parser, formatter, type and effect checkers,
//! and a code generator for the integer subset.

pub mod ast;
pub mod codegen;
pub mod effectcheck;
pub mod events;
pub mod formatter;
pub mod grammar;
pub mod green;
pub mod lexer;
pub mod parser;
pub mod query;
pub mod roundtrip;
pub mod runtime;
pub mod syntax;
pub mod text;
pub mod tree;
pub mod typecheck;
pub mod wasm;
