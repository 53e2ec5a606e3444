use abby_vm::analysis::{disassemble, estimate_gas};
use abby_vm::ast::{AstPrinter, BinaryOperator, Expression};
use abby_vm::codegen::CodeGenerator;
use abby_vm::lexer::Lexer;
use abby_vm::opcodes::OpCode;
use abby_vm::parser::Parser;
use abby_vm::types::{ExecutionResult, ExecutionStatus};
use abby_vm::utils::{decode_string_from_bytes, get_example_bytecode};

#[test]
fn example_bytecodes() {
    assert_eq!(get_example_bytecode("simple-add").unwrap(), "6001600201");
    assert_eq!(get_example_bytecode("simple-mul").unwrap(), "6002600302");
    assert_eq!(get_example_bytecode("storage").unwrap(), "6001600055600054");
    assert_eq!(get_example_bytecode("nope").unwrap_err(), "Unknown example: nope");
}

#[test]
fn log_text_decoding() {
    assert_eq!(decode_string_from_bytes(b"hello"), "hello");
    assert_eq!(decode_string_from_bytes("h\u{e9}llo".as_bytes()), "h\u{e9}llo");
    assert_eq!(decode_string_from_bytes(&[0xff, 0x41, 0x0a, 0x42]), "AB");
}

#[test]
fn disassembly_and_gas() {
    let code = hex::decode("6001600201611234").unwrap();
    let listing = disassemble(&code);
    assert_eq!(listing.len(), 4);
    assert_eq!(listing[0].pc, 0);
    assert_eq!(listing[0].opcode, OpCode::PUSH1);
    assert_eq!(listing[0].immediate, vec![0x01]);
    assert_eq!(listing[2].opcode, OpCode::ADD);
    assert_eq!(listing[3].pc, 5);
    assert_eq!(listing[3].immediate, vec![0x12, 0x34]);
    assert_eq!(estimate_gas(&code), 12);
    let truncated = hex::decode("6201").unwrap();
    let listing = disassemble(&truncated);
    assert_eq!(listing.len(), 2);
    assert!(listing[0].immediate.is_empty());
    assert_eq!(listing[1].opcode, OpCode::ADD);
    assert_eq!(estimate_gas(&truncated), 3);
    assert_eq!(estimate_gas(&[0x55, 0x54]), 5200);
    assert!(disassemble(&[]).is_empty());
}

#[test]
fn opcode_table() {
    assert_eq!(OpCode::from_byte(0x5b), OpCode::JUMPDEST);
    assert_eq!(OpCode::from_byte(0x7f).push_size(), Some(32));
    assert_eq!(OpCode::from_byte(0x0c), OpCode::UNKNOWN(0x0c));
    assert_eq!(OpCode::from_byte(0x5f), OpCode::UNKNOWN(0x5f));
    for b in 0..=255u8 {
        assert_eq!(OpCode::from_byte(b).to_byte(), b);
    }
    assert_eq!(OpCode::SSTORE.gas_cost(), 5000);
    assert_eq!(OpCode::SHA3.gas_cost(), 30);
    assert_eq!(OpCode::RETURN.gas_cost(), 0);
    assert_eq!(OpCode::UNKNOWN(0xee).gas_cost(), 1);
    assert_eq!(OpCode::DUP3.dup_depth(), Some(3));
    assert_eq!(OpCode::SWAP16.swap_depth(), Some(16));
    assert_eq!(OpCode::LOG4.log_topics(), Some(4));
}

#[test]
fn ast_printer_output() {
    let tokens = Lexer::new("let x = 1 + 2 * 3; return x;").tokenize().unwrap();
    let program = Parser::new(tokens).parse().unwrap();
    let mut printer = AstPrinter::new();
    assert_eq!(printer.output(), "");
    let text = printer.print(&program);
    assert_eq!(
        text,
        "Program {\n  VarDecl { name: x, initializer: (1 + (2 * 3)) }\n  ReturnStmt { value: Some(x) }\n}"
    );
    assert_eq!(printer.output(), text);
}

#[test]
fn keccak_builtin_lowering() {
    let mut generator = CodeGenerator::new();
    let call = Expression::call(Expression::variable("keccak256".to_string()), vec![Expression::number(1)]);
    generator.visit_expression(&call).unwrap();
    assert_eq!(generator.bytecode, vec![0x60, 32, 0x60, 0, 0x20]);
    let mut generator = CodeGenerator::new();
    let bad = Expression::call(Expression::variable("keccak256".to_string()), vec![]);
    assert_eq!(generator.visit_expression(&bad).unwrap_err().message, "keccak256 expects exactly 1 argument");
}

#[test]
fn console_calls_without_arguments() {
    let mut generator = CodeGenerator::new();
    let warn = Expression::call(
        Expression::member_access(Expression::variable("console".to_string()), "warn".to_string()),
        vec![],
    );
    generator.visit_expression(&warn).unwrap();
    assert_eq!(generator.bytecode, vec![0x60, 0, 0x60, 0x80, 0x60, 1, 0x91, 0x90, 0xa1, 0x60, 0]);
}

#[test]
fn binary_constructor() {
    match Expression::binary(Expression::number(1), BinaryOperator::Less, Expression::number(2)) {
        Expression::Binary(b) => assert_eq!(b.operator, BinaryOperator::Less),
        _ => panic!("expected binary"),
    }
}

#[test]
fn default_result() {
    let r = ExecutionResult::default();
    assert_eq!(r.status, ExecutionStatus::Success);
    assert_eq!(r.gas_used, 0);
    assert!(r.return_data.is_empty() && r.logs.is_empty());
}
