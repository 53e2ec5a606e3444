use abby_vm::ast::{BinaryOperator, Expression, LiteralExpr, MemoryAccessExpr, Statement, StorageAccessExpr};
use abby_vm::lexer::Lexer;
use abby_vm::parser::{ParseError, Parser};

fn parse_expression(input: &str) -> Result<Expression, ParseError> {
    let mut lexer = Lexer::new(input);
    let tokens = lexer.tokenize().unwrap();
    let mut parser = Parser::new(tokens);
    parser.expression()
}

#[test]
fn test_simple_expression() {
    let expr = parse_expression("1 + 2").unwrap();
    match expr {
        Expression::Binary(binary) => {
            assert_eq!(binary.operator, BinaryOperator::Add);
        }
        _ => panic!("Expected binary expression"),
    }
}

#[test]
fn test_precedence() {
    let expr = parse_expression("1 + 2 * 3").unwrap();
    match expr {
        Expression::Binary(binary) => {
            assert_eq!(binary.operator, BinaryOperator::Add);
            match &*binary.right {
                Expression::Binary(right_binary) => {
                    assert_eq!(right_binary.operator, BinaryOperator::Multiply);
                }
                _ => panic!("Expected multiplication on right side"),
            }
        }
        _ => panic!("Expected binary expression"),
    }
}

#[test]
fn test_parentheses() {
    let expr = parse_expression("(1 + 2) * 3").unwrap();
    match expr {
        Expression::Binary(binary) => {
            assert_eq!(binary.operator, BinaryOperator::Multiply);
            match &*binary.left {
                Expression::Binary(left_binary) => {
                    assert_eq!(left_binary.operator, BinaryOperator::Add);
                }
                _ => panic!("Expected addition on left side"),
            }
        }
        _ => panic!("Expected binary expression"),
    }
}

#[test]
fn test_variable() {
    let expr = parse_expression("myVar").unwrap();
    match expr {
        Expression::Variable(var) => {
            assert_eq!(var.name, "myVar");
        }
        _ => panic!("Expected variable expression"),
    }
}

#[test]
fn parses_storage_and_memory_forms() {
    match parse_expression("storage[1] = 2").unwrap() {
        Expression::StorageArrayAssignment(_) => {}
        _ => panic!("expected storage array assignment"),
    }
    match parse_expression("memory[0] = 7").unwrap() {
        Expression::MemoryAccess(MemoryAccessExpr::Store(_, _)) => {}
        _ => panic!("expected memory store"),
    }
    match parse_expression("storage.get(3)").unwrap() {
        Expression::StorageAccess(StorageAccessExpr::Get(_)) => {}
        _ => panic!("expected storage get"),
    }
    match parse_expression("storage.set(3, 4)").unwrap() {
        Expression::StorageAccess(StorageAccessExpr::SetValue(_, _)) => {}
        _ => panic!("expected storage set"),
    }
    match parse_expression("memory = 5").unwrap() {
        Expression::MemoryAssignment(_) => {}
        _ => panic!("expected memory assignment"),
    }
    match parse_expression("x = 5").unwrap() {
        Expression::Assignment(a) => assert_eq!(a.name, "x"),
        _ => panic!("expected assignment"),
    }
}

#[test]
fn parses_literals_and_calls() {
    match parse_expression("[1, 2, 3]").unwrap() {
        Expression::Literal(LiteralExpr::Array(items)) => assert_eq!(items.len(), 3),
        _ => panic!("expected array"),
    }
    match parse_expression("console.log(\"a\", 1)").unwrap() {
        Expression::Call(call) => assert_eq!(call.arguments.len(), 2),
        _ => panic!("expected call"),
    }
    match parse_expression("-!true").unwrap() {
        Expression::Unary(_) => {}
        _ => panic!("expected unary"),
    }
}

#[test]
fn parses_programs() {
    let tokens = Lexer::new("let x = 1; function f(a, b) { return a; } if (x) { x = 2; } else x = 3; while (x < 3) x = x + 1;")
        .tokenize()
        .unwrap();
    let program = Parser::new(tokens).parse().unwrap();
    assert_eq!(program.statements.len(), 4);
    match &program.statements[1] {
        Statement::FuncDecl(f) => {
            assert_eq!(f.name, "f");
            assert_eq!(f.params, vec!["a".to_string(), "b".to_string()]);
        }
        _ => panic!("expected function"),
    }
}

#[test]
fn reports_grammar_errors() {
    assert_eq!(parse_expression("(1 + 2").err().unwrap().message, "Expected ')' after expression");
    assert_eq!(parse_expression("1 = 2").err().unwrap().message, "Invalid assignment target");
    assert_eq!(parse_expression("storage = 2").err().unwrap().message, "Invalid assignment target");
    assert_eq!(parse_expression("storage.put(1)").err().unwrap().message, "Unknown storage method 'put'");
    assert_eq!(parse_expression("memory.peek(1)").err().unwrap().message, "Unknown memory method 'peek'");
    assert_eq!(parse_expression("").err().unwrap().message, "Unexpected end of input");
    assert_eq!(parse_expression(";").err().unwrap().message, "Expected expression");
}
