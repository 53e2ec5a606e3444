//! Records that an execution produces.

use vstd::prelude::*;
use crate::word::Word;

verus! {

/// A record written by a LOG opcode.
#[derive(Clone, Debug)]
pub struct Log {
    pub address: Word,
    pub topics: Vec<Word>,
    pub data: Vec<u8>,
}

/// How an execution ended.
#[derive(Clone, Debug, PartialEq, Eq)]
pub enum ExecutionStatus {
    Success,
    Revert(String),
    OutOfGas,
    Error(String),
}

/// One executed instruction, as seen just before it ran.
#[derive(Clone, Copy, Debug, PartialEq, Eq, Structural)]
pub struct TraceStep {
    pub pc: usize,
    pub gas: u64,
    pub opcode: u8,
    pub stack_size: usize,
}

/// The outcome of an execution.
#[derive(Clone, Debug)]
pub struct ExecutionResult {
    pub status: ExecutionStatus,
    pub gas_used: u64,
    pub gas_remaining: u64,
    pub return_data: Vec<u8>,
    pub logs: Vec<Log>,
    pub steps: usize,
    pub trace: Vec<TraceStep>,
}

impl Default for ExecutionResult {
    /// A successful result that used no gas and produced nothing.
    fn default() -> (r: ExecutionResult)
        ensures
            r.status is Success,
            r.gas_used == 0 && r.gas_remaining == 0 && r.steps == 0,
            r.return_data@.len() == 0 && r.logs@.len() == 0 && r.trace@.len() == 0,
    {
        ExecutionResult {
            status: ExecutionStatus::Success,
            gas_used: 0,
            gas_remaining: 0,
            return_data: Vec::new(),
            logs: Vec::new(),
            steps: 0,
            trace: Vec::new(),
        }
    }
}

} // verus!
