use abby_vm::codegen::{CodeGenerator, CompileError};
use abby_vm::compiler::Compiler;
use abby_vm::lexer::Lexer;
use abby_vm::parser::Parser;

fn compile_expression(input: &str) -> Result<Vec<u8>, CompileError> {
    let mut lexer = Lexer::new(input);
    let tokens = lexer.tokenize().unwrap();
    let mut parser = Parser::new(tokens);
    let expr = parser.expression().unwrap();

    let mut generator = CodeGenerator::new();
    generator.visit_expression(&expr)?;
    Ok(generator.bytecode)
}

#[test]
fn test_simple_literal() {
    let bytecode = compile_expression("42").unwrap();
    assert_eq!(bytecode, vec![0x60, 42]);
}

#[test]
fn codegen_test_simple_addition() {
    let bytecode = compile_expression("1 + 2").unwrap();
    assert_eq!(bytecode, vec![0x60, 1, 0x60, 2, 0x01]);
}

#[test]
fn test_complex_expression() {
    let bytecode = compile_expression("1 + 2 * 3").unwrap();
    assert_eq!(bytecode, vec![0x60, 1, 0x60, 2, 0x60, 3, 0x02, 0x01]);
}

#[test]
fn compile_expression_entry_point() {
    let c = Compiler::new();
    assert_eq!(c.compile_expression("1 + 2").unwrap(), vec![0x60, 0x01, 0x60, 0x02, 0x01]);
    assert_eq!(c.compile_expression("1 + 2 * 3").unwrap(), vec![0x60, 1, 0x60, 2, 0x60, 3, 0x02, 0x01]);
}

#[test]
fn push_widths_are_minimal() {
    assert_eq!(compile_expression("0").unwrap(), vec![0x60, 0x00]);
    assert_eq!(compile_expression("255").unwrap(), vec![0x60, 0xff]);
    assert_eq!(compile_expression("256").unwrap(), vec![0x61, 0x01, 0x00]);
    assert_eq!(compile_expression("65536").unwrap(), vec![0x62, 0x01, 0x00, 0x00]);
    assert_eq!(compile_expression("4294967295").unwrap(), vec![0x63, 0xff, 0xff, 0xff, 0xff]);
    let big = compile_expression("4294967296").unwrap();
    assert_eq!(big.len(), 33);
    assert_eq!(big[0], 0x7f);
    assert_eq!(&big[28..], &[0x01, 0x00, 0x00, 0x00, 0x00]);
    assert!(big[1..28].iter().all(|b| *b == 0));
}

#[test]
fn derived_operators() {
    assert_eq!(compile_expression("1 != 2").unwrap(), vec![0x60, 1, 0x60, 2, 0x14, 0x15]);
    assert_eq!(compile_expression("1 >= 2").unwrap(), vec![0x60, 1, 0x60, 2, 0x10, 0x15]);
    assert_eq!(compile_expression("1 <= 2").unwrap(), vec![0x60, 1, 0x60, 2, 0x11, 0x15]);
    assert_eq!(compile_expression("1 && 0").unwrap(), vec![0x60, 1, 0x60, 0, 0x16, 0x60, 0, 0x11]);
    assert_eq!(compile_expression("1 || 0").unwrap(), vec![0x60, 1, 0x60, 0, 0x17, 0x60, 0, 0x11]);
    assert_eq!(compile_expression("-5").unwrap(), vec![0x60, 0, 0x60, 5, 0x03]);
    assert_eq!(compile_expression("!true").unwrap(), vec![0x60, 1, 0x15]);
}

#[test]
fn compile_appends_stop_and_patches_jumps() {
    let code = Compiler::new().compile("let x = 1; if (x) { x = 2; } while (x < 3) { x = x + 1; }").unwrap();
    assert_eq!(*code.last().unwrap(), 0x00);
    let mut pushes2 = 0;
    let mut i = 0;
    while i < code.len() {
        let op = code[i];
        if (0x60..=0x7f).contains(&op) {
            let n = (op - 0x5f) as usize;
            if op == 0x61 && i + 3 < code.len() && (code[i + 3] == 0x56 || code[i + 3] == 0x57) {
                let target = code[i + 1] as usize * 256 + code[i + 2] as usize;
                assert_eq!(code[target], 0x5b);
                pushes2 += 1;
            }
            i += n + 1;
        } else {
            i += 1;
        }
    }
    assert_eq!(pushes2, 4);
}

#[test]
fn compile_is_deterministic() {
    let src = "let a = 3; let b = a * 2; if (b > a) { storage[1] = b; } else { storage[1] = a; }";
    let first = Compiler::new().compile(src).unwrap();
    let second = Compiler::new().compile(src).unwrap();
    assert_eq!(first, second);
}

#[test]
fn compile_errors() {
    let c = Compiler::new();
    assert_eq!(c.compile("y;").unwrap_err().message, "Undefined variable: y");
    assert_eq!(c.compile("println(1);").unwrap_err().message, "println is not a JavaScript function. Use console.log, console.warn, or console.error instead");
    assert_eq!(c.compile("foo(1);").unwrap_err().message, "Unknown function: foo");
    assert_eq!(c.compile("a.b;").unwrap_err().message, "Member access expressions are only supported in function calls");
    assert_eq!(c.compile("console.info(1);").unwrap_err().message, "Unknown console method: info");
    assert_eq!(c.compile("x[1];").unwrap_err().message, "Array access not supported for 'x'");
    assert!(c.compile("1 +;").is_err());
    assert!(c.compile("\"abc").is_err());
}

#[test]
fn return_lowering() {
    let code = Compiler::new().compile("return 42;").unwrap();
    assert_eq!(code, vec![0x60, 42, 0x60, 0, 0x52, 0x60, 32, 0x60, 0, 0xf3, 0x00]);
}
