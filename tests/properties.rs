use abby_vm::compiler::Compiler;
use abby_vm::evm::{EvmExecutor, EvmState};
use abby_vm::types::ExecutionStatus;
use abby_vm::utils::bytes_to_u256;
use abby_vm::word::Word;

#[test]
fn compiled_return_yields_the_constant() {
    for (src, v) in [("return 42;", 42u64), ("return 1 + 2 * 3;", 7), ("return 70000;", 70000), ("return 5000000000;", 5_000_000_000)] {
        let code = Compiler::new().compile(src).unwrap();
        let result = EvmExecutor::new(100_000).execute(&code, 0, false).unwrap();
        assert_eq!(result.status, ExecutionStatus::Success, "{}", src);
        assert_eq!(result.return_data.len(), 32);
        assert_eq!(bytes_to_u256(&result.return_data), Word::from_u64(v), "{}", src);
    }
}

#[test]
fn pushed_literals_decode_to_themselves() {
    for v in [0u64, 1, 255, 256, 65535, 65536, 16777216, 4294967295, 4294967296, u64::MAX] {
        let code = Compiler::new().compile_expression(&v.to_string()).unwrap();
        let mut state = EvmState::new(1000, Word::zero());
        let result = EvmExecutor::new(1000).execute_bytecode(&code, &mut state, false);
        assert_eq!(result.status, ExecutionStatus::Success);
        assert_eq!(state.stack, vec![Word::from_u64(v)]);
        assert_eq!(state.pc, code.len());
    }
}

#[test]
fn compiled_loops_run_to_completion() {
    let code = Compiler::new()
        .compile("let i = 0; while (i != 3) { i = i + 1; } storage[9] = i;")
        .unwrap();
    let mut state = EvmState::new(1_000_000, Word::zero());
    let result = EvmExecutor::new(1_000_000).execute_bytecode(&code, &mut state, false);
    assert_eq!(result.status, ExecutionStatus::Success);
    assert_eq!(state.storage_load(&Word::from_u64(9)), Word::from_u64(3));
}

#[test]
fn console_log_writes_a_log() {
    let code = Compiler::new().compile("let x = 5; console.log(\"x:\", x);").unwrap();
    let result = EvmExecutor::new(1_000_000).execute(&code, 0, false).unwrap();
    assert_eq!(result.status, ExecutionStatus::Success);
    assert_eq!(result.logs.len(), 1);
    assert_eq!(result.logs[0].data, b"x: 5".to_vec());
}
