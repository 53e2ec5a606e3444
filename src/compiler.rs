//! Entry points from source text to bytecode.

use vstd::prelude::*;
use crate::lexer::Lexer;
use crate::parser::Parser;
use crate::codegen::{CodeGenerator, CompileError, push_code, return_code};
use crate::lexer::{small_decimal, digits_value, return_decimal};

verus! {

/// Compiles source text of the scripting language to bytecode.
pub struct Compiler {
    pub debug: bool,
}

impl Compiler {
    pub fn new() -> (r: Compiler)
        ensures
            !r.debug,
    {
        Compiler { debug: false }
    }

    pub fn with_debug(self, debug: bool) -> (r: Compiler)
        ensures
            r.debug == debug,
    {
        Compiler { debug }
    }

    /// Lexes, parses and compiles a whole program. The code ends in STOP, and every jump in
    /// it targets a JUMPDEST.
    pub fn compile(&self, source: &str) -> (r: Result<Vec<u8>, CompileError>)
        requires
            source@.len() < usize::MAX,
        ensures
            r is Ok ==> r->Ok_0@.len() > 0 && r->Ok_0@.last() == 0,
            forall|d: Seq<char>|
                #![trigger return_decimal(source@, d)]
                return_decimal(source@, d) ==> r is Ok && r->Ok_0@ == push_code(digits_value(d, 10)) + return_code()
                    + seq![0u8],
    {
        let mut lexer = Lexer::new(source);
        let tokens = match lexer.tokenize() {
            Ok(t) => t,
            Err(e) => {
                return Err(CompileError { message: e.message });
            },
        };
        let mut parser = Parser::new(tokens);
        let program = match parser.parse() {
            Ok(p) => p,
            Err(e) => {
                return Err(CompileError { message: e.message });
            },
        };
        let mut generator = CodeGenerator::new();
        generator.compile(&program)
    }

    /// Lexes, parses and compiles a single expression: the code that leaves its value on the
    /// stack, with no STOP appended.
    pub fn compile_expression(&self, source: &str) -> (r: Result<Vec<u8>, CompileError>)
        requires
            source@.len() < usize::MAX,
        ensures
            small_decimal(source@) ==> r is Ok && r->Ok_0@ == push_code(digits_value(source@, 10)),
    {
        let mut lexer = Lexer::new(source);
        let tokens = match lexer.tokenize() {
            Ok(t) => t,
            Err(e) => {
                return Err(CompileError { message: e.message });
            },
        };
        let mut parser = Parser::new(tokens);
        let expr = match parser.expression() {
            Ok(e) => e,
            Err(e) => {
                return Err(CompileError { message: e.message });
            },
        };
        let mut generator = CodeGenerator::new();
        generator.visit_expression(&expr)?;
        Ok(generator.bytecode)
    }
}

} // verus!
