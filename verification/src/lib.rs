//! A single-pass compiler and stack-based bytecode virtual machine for a
//! small dynamically-typed scripting language: numbers, booleans, nil and
//! strings; globals and block-scoped locals; arithmetic, comparison,
//! logical and control-flow constructs.
//!
//! The scanner turns source text into tokens, the compiler parses by
//! precedence and emits bytecode straight into a function's chunk, and the
//! machine interprets that chunk. Compilation keeps every chunk well
//! formed — the line map covers the code and every constant operand
//! indexes the pool — and the machine is total: malformed bytecode ends in
//! a runtime fault, never a crash.
pub mod chunk;
pub mod compiler;
pub mod emmitable;
pub mod function;
pub mod num;
pub mod opcode;
pub mod scanner;
pub mod text;
pub mod token;
pub mod tokenizer;
pub mod value;
pub mod vm;

pub use vm::InterpretResult;
