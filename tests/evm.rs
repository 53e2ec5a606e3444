use abby_vm::evm::{EvmExecutor, EvmState, VmError, MAX_STEPS};
use abby_vm::types::ExecutionStatus;
use abby_vm::word::Word;

fn run_frame(code: &[u8], gas: u64) -> (EvmState, abby_vm::types::ExecutionResult) {
    let executor = EvmExecutor::new(gas);
    let mut state = EvmState::new(gas, Word::zero());
    let result = executor.execute_bytecode(code, &mut state, false);
    (state, result)
}

#[test]
fn tests_test_simple_addition() {
    let bytecode = hex::decode("6001600201").unwrap();
    let executor = EvmExecutor::new(1000);
    let result = executor.execute(&bytecode, 0, false).unwrap();
    assert_eq!(result.status, ExecutionStatus::Success);
    assert!(result.gas_used > 0);
}

#[test]
fn test_simple_multiplication() {
    let bytecode = hex::decode("6002600302").unwrap();
    let executor = EvmExecutor::new(1000);
    let result = executor.execute(&bytecode, 0, false).unwrap();
    assert_eq!(result.status, ExecutionStatus::Success);
    assert!(result.gas_used > 0);
}

#[test]
fn test_storage_operations() {
    let bytecode = hex::decode("6001600055600054").unwrap();
    let executor = EvmExecutor::new(10000);
    let result = executor.execute(&bytecode, 0, false).unwrap();
    assert_eq!(result.status, ExecutionStatus::Success);
    assert!(result.gas_used > 0);
}

#[test]
fn test_out_of_gas() {
    let bytecode = hex::decode("6001600201").unwrap();
    let executor = EvmExecutor::new(5);
    let result = executor.execute(&bytecode, 0, false).unwrap();
    assert_eq!(result.status, ExecutionStatus::OutOfGas);
}

#[test]
fn test_invalid_jump() {
    let bytecode = hex::decode("60FF56").unwrap();
    let executor = EvmExecutor::new(1000);
    let result = executor.execute(&bytecode, 0, false).unwrap();
    match result.status {
        ExecutionStatus::Error(_) => {}
        _ => panic!("Expected error for invalid jump"),
    }
}

#[test]
fn test_stack_underflow() {
    let bytecode = hex::decode("01").unwrap();
    let executor = EvmExecutor::new(1000);
    let result = executor.execute(&bytecode, 0, false).unwrap();
    match result.status {
        ExecutionStatus::Error(_) => {}
        _ => panic!("Expected error for stack underflow"),
    }
}

#[test]
fn test_return_operation() {
    let bytecode = hex::decode("60426000526020600050f3").unwrap();
    let executor = EvmExecutor::new(1000);
    let result = executor.execute(&bytecode, 0, false).unwrap();
    match result.status {
        ExecutionStatus::Success => {}
        ExecutionStatus::Error(_) => {}
        _ => panic!("Unexpected status: {:?}", result.status),
    }
}

#[test]
fn test_revert_operation() {
    let bytecode = hex::decode("60006000fd").unwrap();
    let executor = EvmExecutor::new(1000);
    let result = executor.execute(&bytecode, 0, false).unwrap();
    match result.status {
        ExecutionStatus::Revert(_) => {}
        _ => panic!("Expected revert status"),
    }
}

#[test]
fn test_memory_operations() {
    let bytecode = hex::decode("6042600052600051").unwrap();
    let executor = EvmExecutor::new(1000);
    let result = executor.execute(&bytecode, 0, false).unwrap();
    assert_eq!(result.status, ExecutionStatus::Success);
    assert!(result.gas_used > 0);
}

#[test]
fn test_comparison_operations() {
    let bytecode = hex::decode("6005600310").unwrap();
    let executor = EvmExecutor::new(1000);
    let result = executor.execute(&bytecode, 0, false).unwrap();
    assert_eq!(result.status, ExecutionStatus::Success);
}

#[test]
fn test_bitwise_operations() {
    let bytecode = hex::decode("60FF600F16").unwrap();
    let executor = EvmExecutor::new(1000);
    let result = executor.execute(&bytecode, 0, false).unwrap();
    assert_eq!(result.status, ExecutionStatus::Success);
}

#[test]
fn arithmetic_results_on_the_stack() {
    let cases: Vec<(&str, u64)> = vec![
        ("6001600201", 3),
        ("6002600302", 6),
        ("6003600503", 2),
        ("6002600604", 3),
        ("6005600706", 7 % 5),
        ("6003600210", 1),
        ("6003600211", 0),
        ("6003600314", 1),
        ("600015", 1),
        ("60FF600F16", 0x0f),
        ("60F0600F17", 0xff),
        ("60FF600F18", 0xf0),
        ("600360020a", 8),
    ];
    for (hex_code, expected) in cases {
        let code = hex::decode(hex_code).unwrap();
        let (state, result) = run_frame(&code, 10_000);
        assert_eq!(result.status, ExecutionStatus::Success, "{}", hex_code);
        assert_eq!(*state.stack.last().unwrap(), Word::from_u64(expected), "{}", hex_code);
    }
}

#[test]
fn subtraction_wraps() {
    let code = hex::decode("6005600303").unwrap();
    let (state, _) = run_frame(&code, 1000);
    let top = *state.stack.last().unwrap();
    assert_eq!(top, Word { l0: u64::MAX - 1, l1: u64::MAX, l2: u64::MAX, l3: u64::MAX });
    let code = hex::decode("600019").unwrap();
    let (state, _) = run_frame(&code, 1000);
    assert_eq!(*state.stack.last().unwrap(), Word { l0: u64::MAX, l1: u64::MAX, l2: u64::MAX, l3: u64::MAX });
}

#[test]
fn division_by_zero_gives_zero() {
    let (state, result) = run_frame(&hex::decode("6000600504").unwrap(), 1000);
    assert_eq!(result.status, ExecutionStatus::Success);
    assert_eq!(*state.stack.last().unwrap(), Word::zero());
    let (state, result) = run_frame(&hex::decode("6000600506").unwrap(), 1000);
    assert_eq!(result.status, ExecutionStatus::Success);
    assert_eq!(*state.stack.last().unwrap(), Word::zero());
}

#[test]
fn sha3_of_zero_word() {
    let (state, result) = run_frame(&hex::decode("6020600020").unwrap(), 1000);
    assert_eq!(result.status, ExecutionStatus::Success);
    let top = *state.stack.last().unwrap();
    assert_eq!(
        abby_vm::utils::format_hex_u256(top),
        "0x290decd9548b62a8d60345a988386fc84ba6bc95484008f6362f93160ef3e563"
    );
}

#[test]
fn gas_is_accounted() {
    for (code, limit) in [("6001600201", 1000u64), ("01", 1000), ("6001600201", 5), ("60FF56", 20), ("", 7)] {
        let bytes = hex::decode(code).unwrap();
        let result = EvmExecutor::new(limit).execute(&bytes, 0, false).unwrap();
        assert!(result.gas_used <= limit);
        assert_eq!(result.gas_used + result.gas_remaining, limit);
    }
    let result = EvmExecutor::new(1000).execute(&hex::decode("6001600201").unwrap(), 0, false).unwrap();
    assert_eq!(result.gas_used, 9);
}

#[test]
fn sstore_zero_erases_key() {
    let code = hex::decode("6007600155600060015560015400").unwrap();
    let (state, result) = run_frame(&code, 100_000);
    assert_eq!(result.status, ExecutionStatus::Success);
    assert_eq!(state.storage.len(), 0);
    assert_eq!(state.storage_load(&Word::from_u64(1)), Word::zero());
    assert_eq!(*state.stack.last().unwrap(), Word::zero());
}

#[test]
fn mstore_then_mload_round_trips() {
    let code = hex::decode("7f0102030405060708090a0b0c0d0e0f101112131415161718191a1b1c1d1e1f20600552600551").unwrap();
    let (state, result) = run_frame(&code, 10_000);
    assert_eq!(result.status, ExecutionStatus::Success);
    assert_eq!(state.memory.len(), 37);
    let top = *state.stack.last().unwrap();
    assert_eq!(
        abby_vm::utils::u256_to_bytes(top),
        (1u8..=32).collect::<Vec<u8>>()
    );
}

#[test]
fn jumps_to_jumpdest_only() {
    let ok = hex::decode("600456005b").unwrap();
    let result = EvmExecutor::new(1000).execute(&ok, 0, false).unwrap();
    assert_eq!(result.status, ExecutionStatus::Success);
    let past_end = hex::decode("600556005b").unwrap();
    let result = EvmExecutor::new(1000).execute(&past_end, 0, false).unwrap();
    assert_eq!(result.status, ExecutionStatus::Error("Invalid jump destination".to_string()));
    let not_dest = hex::decode("600356005b").unwrap();
    let result = EvmExecutor::new(1000).execute(&not_dest, 0, false).unwrap();
    assert!(matches!(result.status, ExecutionStatus::Error(_)));
    let jumpi_false = hex::decode("600060ff5700").unwrap();
    let result = EvmExecutor::new(1000).execute(&jumpi_false, 0, false).unwrap();
    assert_eq!(result.status, ExecutionStatus::Success);
}

#[test]
fn push_advances_pc_and_pushes_immediate() {
    let code = hex::decode("611234").unwrap();
    let mut state = EvmState::new(100, Word::zero());
    abby_vm::evm::step(&mut state, &code).unwrap();
    assert_eq!(state.pc, 3);
    assert_eq!(state.stack, vec![Word::from_u64(0x1234)]);
    let short = hex::decode("6112").unwrap();
    let mut state = EvmState::new(100, Word::zero());
    assert_eq!(abby_vm::evm::step(&mut state, &short), Err(VmError::PushOutOfBounds));
}

#[test]
fn stack_overflow_at_depth_limit() {
    let code: Vec<u8> = std::iter::repeat([0x60u8, 0x01]).take(1025).flatten().collect();
    let result = EvmExecutor::new(1_000_000).execute(&code, 0, false).unwrap();
    assert_eq!(result.status, ExecutionStatus::Error("Stack overflow".to_string()));
    let mut state = EvmState::new(0, Word::zero());
    for _ in 0..1024 {
        state.push_stack(Word::one()).unwrap();
    }
    assert_eq!(state.push_stack(Word::one()), Err(VmError::StackOverflow));
    assert_eq!(state.stack.len(), 1024);
}

#[test]
fn stack_underflow_at_depth_zero() {
    let mut state = EvmState::new(0, Word::zero());
    assert_eq!(state.pop_stack(), Err(VmError::StackUnderflow));
    assert_eq!(state.peek_stack(0), Err(VmError::StackUnderflow));
    assert_eq!(state.swap_stack(1), Err(VmError::StackUnderflow));
    assert_eq!(state.dup_stack(1), Err(VmError::StackUnderflow));
    assert_eq!(state.dup_stack(17), Err(VmError::InvalidDup));
}

#[test]
fn memory_ceiling() {
    let code = hex::decode("6001630100000052").unwrap();
    let result = EvmExecutor::new(1000).execute(&code, 0, false).unwrap();
    assert_eq!(result.status, ExecutionStatus::Error("Memory limit exceeded".to_string()));
    let mut state = EvmState::new(0, Word::zero());
    assert_eq!(state.memory_resize(16 * 1024 * 1024 + 1), Err(VmError::MemoryLimitExceeded));
    assert_eq!(state.memory_resize(10), Ok(()));
    assert_eq!(state.memory, vec![0u8; 10]);
}

#[test]
fn step_ceiling() {
    let code = hex::decode("5b600056").unwrap();
    let result = EvmExecutor::new(10_000_000).execute(&code, 0, false).unwrap();
    assert_eq!(result.status, ExecutionStatus::Error("Execution limit exceeded (too many steps)".to_string()));
    assert_eq!(result.steps, MAX_STEPS);
}

#[test]
fn unknown_and_unimplemented_opcodes() {
    let result = EvmExecutor::new(1000).execute(&[0x0c], 0, false).unwrap();
    assert!(matches!(result.status, ExecutionStatus::Error(_)));
    let mut state = EvmState::new(100, Word::zero());
    assert_eq!(abby_vm::evm::step(&mut state, &[0x05]), Err(VmError::Unimplemented(0x05)));
}

#[test]
fn logs_and_trace() {
    let code = hex::decode("6041600053600160016000a1").unwrap();
    let result = EvmExecutor::new(1000).execute(&code, 0, true).unwrap();
    assert_eq!(result.status, ExecutionStatus::Success);
    assert_eq!(result.logs.len(), 1);
    assert_eq!(result.logs[0].data, vec![0x41]);
    assert_eq!(result.logs[0].topics, vec![Word::from_u64(1)]);
    assert_eq!(result.trace.len(), result.steps);
    assert_eq!(result.trace[0].opcode, 0x60);
}

#[test]
fn return_data_is_the_memory_range() {
    let code = hex::decode("604260005260206000f3").unwrap();
    let result = EvmExecutor::new(1000).execute(&code, 0, false).unwrap();
    assert_eq!(result.status, ExecutionStatus::Success);
    let mut expected = vec![0u8; 32];
    expected[31] = 0x42;
    assert_eq!(result.return_data, expected);
}

#[test]
fn error_messages() {
    assert_eq!(VmError::OutOfGas.message(), "Out of gas");
    assert_eq!(VmError::StackOverflow.message(), "Stack overflow");
    assert_eq!(VmError::StackUnderflow.message(), "Stack underflow");
    assert_eq!(VmError::InvalidJump.message(), "Invalid jump destination");
    assert_eq!(VmError::MemoryLimitExceeded.message(), "Memory limit exceeded");
}

#[test]
fn run_results_follow_the_executed_steps() {
    let result = EvmExecutor::new(5).execute(&hex::decode("6001600201").unwrap(), 0, false).unwrap();
    assert_eq!(result.status, ExecutionStatus::OutOfGas);
    assert_eq!(result.gas_used, 3);
    assert_eq!(result.gas_remaining, 2);
    assert_eq!(result.steps, 2);
    let result = EvmExecutor::new(1000).execute(&hex::decode("60006000a0").unwrap(), 0, false).unwrap();
    assert_eq!(result.status, ExecutionStatus::Success);
    assert_eq!(result.logs.len(), 1);
    assert!(result.logs[0].topics.is_empty() && result.logs[0].data.is_empty());
    let result = EvmExecutor::new(1000).execute(&hex::decode("60006000fd").unwrap(), 0, false).unwrap();
    assert_eq!(result.status, ExecutionStatus::Revert("Execution reverted".to_string()));
    assert!(result.return_data.is_empty());
    let result = EvmExecutor::new(1000).execute(&hex::decode("01").unwrap(), 0, false).unwrap();
    assert_eq!(result.status, ExecutionStatus::Error("Stack underflow".to_string()));
}

#[test]
fn mod_takes_top_modulo_second() {
    let (state, result) = run_frame(&hex::decode("6005600306").unwrap(), 1000);
    assert_eq!(result.status, ExecutionStatus::Success);
    assert_eq!(*state.stack.last().unwrap(), Word::from_u64(3));
}
