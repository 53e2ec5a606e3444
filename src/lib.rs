//! A small EVM-style virtual machine with 256-bit words, and a compiler from a
//! tiny scripting language to its bytecode.

pub mod word;
pub mod opcodes;
pub mod types;
pub mod evm;
pub mod interpreter;
pub mod ast;
pub mod lexer;
pub mod parser;
pub mod codegen;
pub mod compiler;
pub mod utils;
pub mod analysis;
