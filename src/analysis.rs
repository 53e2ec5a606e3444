//! Static views of bytecode: disassembly and a gas estimate.

use vstd::prelude::*;
use crate::opcodes::{OpCode, decode, gas_of, is_push, push_len};

verus! {

/// One decoded instruction: its offset, opcode and, for a PUSH that fits in the code, the
/// immediate bytes.
#[derive(Debug, Clone)]
pub struct Instruction {
    pub pc: usize,
    pub opcode: OpCode,
    pub immediate: Vec<u8>,
}

/// The number of immediate bytes that the instruction at `pc` carries in the listing:
/// a PUSH's width where its immediate lies inside the code, else none.
pub open spec fn listed_width(code: Seq<u8>, pc: int) -> nat {
    let op = decode(code[pc]);
    if is_push(op) && pc + push_len(op) < code.len() {
        push_len(op)
    } else {
        0
    }
}

/// The sum of base gas costs along the instruction stream from `pc`, skipping each PUSH's
/// immediate bytes.
pub open spec fn gas_estimate(code: Seq<u8>, pc: int) -> nat
    decreases code.len() - pc,
{
    if pc < 0 || pc >= code.len() {
        0
    } else {
        let op = decode(code[pc]);
        let skip = if is_push(op) { push_len(op) } else { 0 };
        if pc + 1 + skip >= code.len() {
            gas_of(op) as nat
        } else {
            (gas_of(op) as nat + gas_estimate(code, pc + 1 + skip)) as nat
        }
    }
}

/// Decodes the code into instructions in order; a PUSH's immediate bytes are not decoded.
pub fn disassemble(bytecode: &[u8]) -> (r: Vec<Instruction>)
    ensures
        bytecode@.len() > 0 ==> r@.len() > 0 && r@[0].pc == 0,
        bytecode@.len() == 0 ==> r@.len() == 0,
        forall|i: int|
            #![trigger r@[i]]
            0 <= i < r@.len() ==> {
                let ins = r@[i];
                &&& ins.pc < bytecode@.len()
                &&& ins.opcode == decode(bytecode@[ins.pc as int])
                &&& ins.immediate@.len() == listed_width(bytecode@, ins.pc as int)
                &&& ins.immediate@ == bytecode@.subrange(ins.pc + 1, ins.pc + 1 + ins.immediate@.len())
            },
        forall|i: int|
            0 <= i < r@.len() - 1 ==> #[trigger] r@[i + 1].pc == r@[i].pc + 1 + r@[i].immediate@.len(),
        r@.len() > 0 ==> r@.last().pc + 1 + r@.last().immediate@.len() >= bytecode@.len(),
{
    let mut out: Vec<Instruction> = Vec::new();
    let mut pc: usize = 0;
    let len = bytecode.len();
    while pc < len
        invariant
            len == bytecode@.len(),
            pc <= len,
            out@.len() == 0 ==> pc == 0,
            out@.len() > 0 ==> out@[0].pc == 0,
            out@.len() > 0 ==> pc == out@.last().pc + 1 + out@.last().immediate@.len(),
            forall|i: int|
                #![trigger out@[i]]
                0 <= i < out@.len() ==> {
                    let ins = out@[i];
                    &&& ins.pc < bytecode@.len()
                    &&& ins.opcode == decode(bytecode@[ins.pc as int])
                    &&& ins.immediate@.len() == listed_width(bytecode@, ins.pc as int)
                    &&& ins.immediate@ == bytecode@.subrange(ins.pc + 1, ins.pc + 1 + ins.immediate@.len())
                },
            forall|i: int|
                0 <= i < out@.len() - 1 ==> #[trigger] out@[i + 1].pc == out@[i].pc + 1 + out@[i].immediate@.len(),
        decreases len - pc,
    {
        let opcode = OpCode::from_byte(bytecode[pc]);
        let mut immediate: Vec<u8> = Vec::new();
        match opcode.push_size() {
            Some(size) => {
                if size < len - pc {
                    let mut k: usize = 0;
                    while k < size
                        invariant
                            k <= size,
                            pc + size < len,
                            len == bytecode@.len(),
                            immediate@ == bytecode@.subrange(pc + 1, pc + 1 + k),
                        decreases size - k,
                    {
                        immediate.push(bytecode[pc + 1 + k]);
                        k = k + 1;
                        assert(immediate@ =~= bytecode@.subrange(pc + 1, pc + 1 + k));
                    }
                }
            },
            None => {},
        }
        assert(immediate@ =~= bytecode@.subrange(pc + 1, pc + 1 + immediate@.len()));
        let next = pc + 1 + immediate.len();
        let ghost prev = out@;
        out.push(Instruction { pc, opcode, immediate });
        proof {
            assert forall|i: int| 0 <= i < out@.len() - 1 implies #[trigger] out@[i + 1].pc == out@[i].pc + 1
                + out@[i].immediate@.len() by {
                if i + 1 < prev.len() {
                    assert(out@[i] == prev[i] && out@[i + 1] == prev[i + 1]);
                } else {
                    assert(out@[i] == prev[i]);
                }
            }
            assert forall|i: int| #![trigger out@[i]] 0 <= i < out@.len() implies {
                let ins = out@[i];
                &&& ins.pc < bytecode@.len()
                &&& ins.opcode == decode(bytecode@[ins.pc as int])
                &&& ins.immediate@.len() == listed_width(bytecode@, ins.pc as int)
                &&& ins.immediate@ == bytecode@.subrange(ins.pc + 1, ins.pc + 1 + ins.immediate@.len())
            } by {
                if i < prev.len() {
                    assert(out@[i] == prev[i]);
                }
            }
        }
        pc = next;
    }
    out
}

/// The estimated minimum gas of the code: base costs summed along the instruction stream.
/// Saturates at `u64::MAX`.
pub fn estimate_gas(bytecode: &[u8]) -> (r: u64)
    ensures
        gas_estimate(bytecode@, 0) <= u64::MAX ==> r == gas_estimate(bytecode@, 0),
        gas_estimate(bytecode@, 0) > u64::MAX ==> r == u64::MAX,
{
    let len = bytecode.len();
    let mut total: u64 = 0;
    let mut pc: usize = 0;
    let mut saturated = false;
    while pc < len
        invariant
            len == bytecode@.len(),
            !saturated ==> total + gas_estimate(bytecode@, pc as int) == gas_estimate(bytecode@, 0),
            saturated ==> total == u64::MAX && gas_estimate(bytecode@, 0) > u64::MAX,
        decreases len - pc,
    {
        let opcode = OpCode::from_byte(bytecode[pc]);
        let cost = opcode.gas_cost();
        let skip: usize = match opcode.push_size() {
            Some(size) => size,
            None => 0,
        };
        if !saturated {
            if total > u64::MAX - cost {
                saturated = true;
                total = u64::MAX;
            } else {
                total = total + cost;
            }
        }
        if skip >= len - pc {
            pc = len;
        } else {
            pc = pc + 1 + skip;
        }
    }
    total
}

} // verus!
