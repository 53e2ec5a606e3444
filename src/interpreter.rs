//! What each opcode does to the frame.

use vstd::prelude::*;
use sha3::Digest;
use crate::word::{
    Word, be_value, be_bytes, word_modulus, word_add, word_sub, word_mul, word_div, word_rem,
    word_pow, word_lt, word_to_be, word_from_be, lemma_be_bytes_len,
};
use crate::opcodes::{OpCode, opcode_byte, gas_of, is_push, push_len, is_dup, is_swap, is_log};
use crate::evm::{same_context, EvmState, VmError, MAX_STACK_SIZE, MAX_MEMORY_SIZE, grown, stored, storage_map, storage_value};
use crate::types::Log;

verus! {

/// The Keccak-256 digest of a byte string.
pub uninterp spec fn keccak256_of(data: Seq<u8>) -> Seq<u8>;

/// Relies on sha3::Keccak256::digest: the 32-byte Keccak-256 digest of the input.
#[verifier::external_body]
fn keccak256(data: &[u8]) -> (r: Vec<u8>)
    ensures
        r@ == keccak256_of(data@),
        r@.len() == 32,
{
    sha3::Keccak256::digest(data).to_vec()
}

/// Whether `d` is a legal jump target in `code`: a JUMPDEST byte inside the code.
pub open spec fn valid_jump(code: Seq<u8>, d: nat) -> bool {
    d < code.len() && code[d as int] == 0x5b
}

/// The opcodes that pop two words and push one.
pub open spec fn is_binary(op: OpCode) -> bool {
    op is ADD || op is MUL || op is SUB || op is DIV || op is MOD || op is EXP || op is LT
        || op is GT || op is EQ || op is AND || op is OR || op is XOR
}

/// The value that a binary opcode pushes, given the top word `t` and the one below it `s`.
/// A zero divisor gives zero.
pub open spec fn binary_value(op: OpCode, t: Word, s: Word) -> nat {
    let a = t.val();
    let b = s.val();
    match op {
        OpCode::ADD => (a + b) % word_modulus(),
        OpCode::MUL => (a * b) % word_modulus(),
        OpCode::SUB => ((a - b) % (word_modulus() as int)) as nat,
        OpCode::DIV => if b == 0 { 0 } else { a / b },
        OpCode::MOD => if b == 0 { 0 } else { a % b },
        OpCode::EXP => (vstd::arithmetic::power::pow(a as int, b) % (word_modulus() as int)) as nat,
        OpCode::LT => if a < b { 1 } else { 0 },
        OpCode::GT => if a > b { 1 } else { 0 },
        OpCode::EQ => if t == s { 1 } else { 0 },
        OpCode::AND => (Word { l0: t.l0 & s.l0, l1: t.l1 & s.l1, l2: t.l2 & s.l2, l3: t.l3 & s.l3 }).val(),
        OpCode::OR => (Word { l0: t.l0 | s.l0, l1: t.l1 | s.l1, l2: t.l2 | s.l2, l3: t.l3 | s.l3 }).val(),
        OpCode::XOR => (Word { l0: t.l0 ^ s.l0, l1: t.l1 ^ s.l1, l2: t.l2 ^ s.l2, l3: t.l3 ^ s.l3 }).val(),
        _ => 0,
    }
}

/// The value that ISZERO or NOT pushes for the top word `t`.
pub open spec fn unary_value(op: OpCode, t: Word) -> nat {
    match op {
        OpCode::ISZERO => if t.val() == 0 { 1 } else { 0 },
        OpCode::NOT => (Word { l0: !t.l0, l1: !t.l1, l2: !t.l2, l3: !t.l3 }).val(),
        _ => 0,
    }
}

/// The opcodes that this interpreter carries out; any other one is an error.
pub open spec fn is_implemented(op: OpCode) -> bool {
    is_binary(op) || op is STOP || op is ISZERO || op is NOT || op is SHA3 || op is ADDRESS
        || op is CALLER || op is CALLVALUE || op is CALLDATASIZE || op is CODESIZE || op is POP
        || op is MLOAD || op is MSTORE || op is MSTORE8 || op is SLOAD || op is SSTORE || op is JUMP
        || op is JUMPI || op is PC || op is MSIZE || op is GAS || op is JUMPDEST || op is RETURN
        || op is REVERT || (0x60 <= opcode_byte(op) <= 0xa4 && !(op is UNKNOWN))
}

fn binary_op(op: &OpCode, t: Word, s: Word) -> (r: Word)
    requires
        is_binary(*op),
    ensures
        r.val() == binary_value(*op, t, s),
{
    match op {
        OpCode::ADD => word_add(t, s),
        OpCode::MUL => word_mul(t, s),
        OpCode::SUB => word_sub(t, s),
        OpCode::DIV => if s.is_zero() {
            Word::zero()
        } else {
            word_div(t, s)
        },
        OpCode::MOD => if s.is_zero() {
            Word::zero()
        } else {
            word_rem(t, s)
        },
        OpCode::EXP => word_pow(t, s),
        OpCode::LT => if word_lt(t, s) {
            Word::one()
        } else {
            Word::zero()
        },
        OpCode::GT => if word_lt(s, t) {
            Word::one()
        } else {
            Word::zero()
        },
        OpCode::EQ => if t == s {
            Word::one()
        } else {
            Word::zero()
        },
        OpCode::AND => t.bit_and(&s),
        OpCode::OR => t.bit_or(&s),
        _ => t.bit_xor(&s),
    }
}

/// Pops an offset and a size and reads that memory range, growing memory to cover it.
fn pop_range(state: &mut EvmState) -> (r: Result<Vec<u8>, VmError>)
    requires
        old(state).wf(),
    ensures
        final(state).wf(),
        final(state).gas == old(state).gas,
        same_context(*old(state), *final(state)),
        final(state).pc == old(state).pc,
        r != Err::<Vec<u8>, VmError>(VmError::ExecutionLimitExceeded),
        final(state).storage@ == old(state).storage@,
        r is Ok ==> {
            let s = old(state).stack@;
            let off = s[s.len() - 1].val();
            let size = s[s.len() - 2].val();
            &&& s.len() >= 2
            &&& off + size <= MAX_MEMORY_SIZE
            &&& final(state).stack@ == s.drop_last().drop_last()
            &&& final(state).memory@ == grown(old(state).memory@, off + size)
            &&& r.unwrap()@ == final(state).memory@.subrange(off as int, (off + size) as int)
        },
        ({
            let s = old(state).stack@;
            s.len() >= 2 && s[s.len() - 1].val() + s[s.len() - 2].val() <= MAX_MEMORY_SIZE
        }) ==> r is Ok,
        old(state).stack@.len() < 2 ==> r == Err::<Vec<u8>, VmError>(VmError::StackUnderflow),
        ({
            let s = old(state).stack@;
            s.len() >= 2 && s[s.len() - 1].val() + s[s.len() - 2].val() > MAX_MEMORY_SIZE
        }) ==> r == Err::<Vec<u8>, VmError>(VmError::MemoryLimitExceeded),
{
    let off = match state.pop_stack() {
        Ok(v) => v,
        Err(e) => return Err(e),
    };
    let size = match state.pop_stack() {
        Ok(v) => v,
        Err(e) => return Err(e),
    };
    match (off.to_usize(), size.to_usize()) {
        (Some(o), Some(n)) => {
            if o > MAX_MEMORY_SIZE || n > MAX_MEMORY_SIZE - o {
                return Err(VmError::MemoryLimitExceeded);
            }
            state.memory_load(o, n)
        },
        _ => Err(VmError::MemoryLimitExceeded),
    }
}

/// LOGn: pops an offset, a size and `n` topics, and records the memory range as a log.
fn exec_log(state: &mut EvmState, n: usize) -> (r: Result<(), VmError>)
    requires
        old(state).wf(),
        n <= 4,
    ensures
        final(state).wf(),
        final(state).gas == old(state).gas,
        final(state).pc == old(state).pc,
        final(state).storage@ == old(state).storage@,
        final(state).halted == old(state).halted,
        final(state).reverted == old(state).reverted,
        r is Ok ==> final(state).logs@.len() == old(state).logs@.len() + 1,
        r is Ok ==> final(state).memory@ == grown(
            old(state).memory@,
            old(state).stack@.last().val() + old(state).stack@[old(state).stack@.len() - 2].val(),
        ),
        final(state).return_data@ == old(state).return_data@,
        final(state).address == old(state).address && final(state).caller == old(state).caller
            && final(state).origin == old(state).origin && final(state).value == old(state).value
            && final(state).call_data@ == old(state).call_data@,
        r != Err::<(), VmError>(VmError::ExecutionLimitExceeded),
        final(state).error == old(state).error,
        r is Ok ==> ({
            let s = old(state).stack@;
            let off = s[s.len() - 1].val();
            let size = s[s.len() - 2].val();
            let log = final(state).logs@.last();
            &&& s.len() >= 2 + n
            &&& off + size <= MAX_MEMORY_SIZE
            &&& final(state).logs@ == old(state).logs@.push(log)
            &&& final(state).stack@ == s.subrange(0, s.len() - 2 - n)
            &&& log.data@ == final(state).memory@.subrange(off as int, (off + size) as int)
            &&& log.topics@.len() == n
            &&& log.address == old(state).address
        }),
        ({
            let s = old(state).stack@;
            s.len() >= 2 + n && s[s.len() - 1].val() + s[s.len() - 2].val() <= MAX_MEMORY_SIZE
        }) ==> r is Ok,
        old(state).stack@.len() < 2 ==> r == Err::<(), VmError>(VmError::StackUnderflow),
        ({
            let s = old(state).stack@;
            s.len() >= 2 && s[s.len() - 1].val() + s[s.len() - 2].val() > MAX_MEMORY_SIZE
        }) ==> r == Err::<(), VmError>(VmError::MemoryLimitExceeded),
{
    let data = match pop_range(state) {
        Ok(v) => v,
        Err(e) => return Err(e),
    };
    let ghost mid = *state;
    let mut popped: Vec<Word> = Vec::new();
    let mut i: usize = 0;
    while i < n
        invariant
            state.wf(),
            i <= n,
            n <= 4,
            popped@.len() == i,
            mid.stack@ == old(state).stack@.subrange(0, old(state).stack@.len() - 2),
            old(state).stack@.len() >= 2,
            old(state).stack@[old(state).stack@.len() - 1].val() + old(state).stack@[old(state).stack@.len() - 2].val()
                <= MAX_MEMORY_SIZE,
            i <= mid.stack@.len(),
            state.stack@ == mid.stack@.subrange(0, mid.stack@.len() - i),
            state.memory@ == mid.memory@,
            data@ == mid.memory@.subrange(
                old(state).stack@[old(state).stack@.len() - 1].val() as int,
                (old(state).stack@[old(state).stack@.len() - 1].val() + old(state).stack@[old(state).stack@.len() - 2].val()) as int,
            ),
            same_context(mid, *state),
            same_context(*old(state), mid),
            mid.logs@ == old(state).logs@,
            mid.halted == old(state).halted,
            mid.error == old(state).error,
            mid.reverted == old(state).reverted,
            state.storage@ == old(state).storage@,
            state.pc == old(state).pc,
            state.gas == old(state).gas,
        decreases n - i,
    {
        let ghost prev = state.stack@;
        let t = match state.pop_stack() {
            Ok(v) => v,
            Err(e) => return Err(e),
        };
        popped.push(t);
        i = i + 1;
        assert(prev.len() > 0);
        assert(state.stack@ =~= mid.stack@.subrange(0, mid.stack@.len() - i));
    }
    assert(old(state).stack@.subrange(0, old(state).stack@.len() - 2).subrange(0, old(state).stack@.len() - 2 - n)
        =~= old(state).stack@.subrange(0, old(state).stack@.len() - 2 - n));
    let mut topics: Vec<Word> = Vec::new();
    let mut j: usize = n;
    while j > 0
        invariant
            j <= n,
            popped@.len() == n,
            topics@.len() == n - j,
        decreases j,
    {
        j = j - 1;
        topics.push(popped[j]);
    }
    state.logs.push(Log { address: state.address, topics, data });
    Ok(())
}

/// The effect of executing one opcode on a frame `s`, giving frame `t` and result `r`:
/// the gas charge, and for each implemented opcode when it succeeds, which error it gives
/// otherwise, and what it does to the stack, memory, storage, logs, pc and flags.
#[verifier::opaque]
pub open spec fn opcode_effect(op: OpCode, pre: EvmState, t: EvmState, code: Seq<u8>, r: Result<(), VmError>) -> bool {
    &&& t.wf()
    &&& r != Err::<(), VmError>(VmError::ExecutionLimitExceeded)
    &&& t.error == pre.error
    &&& t.address == pre.address && t.caller == pre.caller && t.origin == pre.origin && t.value == pre.value
    &&& t.call_data@ == pre.call_data@
    &&& !(op is MSTORE || op is MSTORE8 || op is MLOAD || op is SHA3 || op is RETURN || op is REVERT
        || is_log(op)) ==> t.memory@ == pre.memory@
    &&& !is_log(op) ==> t.logs@ == pre.logs@
    &&& !(op is RETURN || op is REVERT) ==> t.return_data@ == pre.return_data@
    &&& pre.gas >= gas_of(op) && (op is RETURN || op is REVERT || op is SHA3 || is_log(op)) && r is Ok
        ==> t.memory@ == grown(pre.memory@, pre.stack@.last().val() + pre.stack@[pre.stack@.len() - 2].val())
    &&& pre.gas < gas_of(op) ==> r == Err::<(), VmError>(VmError::OutOfGas)
        && t.gas == pre.gas && t.stack@ == pre.stack@
    &&& pre.gas >= gas_of(op) ==> t.gas == pre.gas - gas_of(
        op
    )
    &&& pre.gas >= gas_of(op) && !is_implemented(op) ==> r == Err::<(), VmError>(
        VmError::Unimplemented(opcode_byte(op))
    )
    &&& !(op is STOP || op is RETURN) ==> t.halted == pre.halted
    &&& !(op is REVERT) ==> t.reverted == pre.reverted
    &&& !(op is SSTORE) ==> t.storage@ == pre.storage@
    &&& r is Ok && !(op is JUMP || op is JUMPI || is_push(op)) ==> t.pc == pre.pc
    &&& ({
        let s = pre.stack@;
        pre.gas >= gas_of(op) && is_binary(op)
    }) ==> ({
        let s = pre.stack@;
        &&& r is Ok == (s.len() >= 2)
        &&& r is Ok ==> t.stack@ == s.drop_last().drop_last().push(
            t.stack@.last(),
        ) && t.stack@.last().val() == binary_value(
            op,
            s[s.len() - 1],
            s[s.len() - 2],
        )
        &&& r is Err ==> r == Err::<(), VmError>(VmError::StackUnderflow)
    })
    &&& pre.gas >= gas_of(op) && (op is ISZERO || op is NOT) ==> ({
        let s = pre.stack@;
        &&& r is Ok == (s.len() >= 1)
        &&& r is Ok ==> t.stack@ == s.drop_last().push(t.stack@.last())
            && t.stack@.last().val() == unary_value(op, s[s.len() - 1])
    })
    &&& pre.gas >= gas_of(op) && op is JUMP ==> ({
        let s = pre.stack@;
        &&& r is Ok == (s.len() >= 1 && valid_jump(code, s[s.len() - 1].val()))
        &&& r is Ok ==> t.pc == s[s.len() - 1].val() && t.stack@
            == s.drop_last()
        &&& s.len() == 0 ==> r == Err::<(), VmError>(VmError::StackUnderflow)
        &&& s.len() >= 1 && !valid_jump(code, s[s.len() - 1].val()) ==> r == Err::<(), VmError>(
            VmError::InvalidJump,
        )
    })
    &&& pre.gas >= gas_of(op) && op is JUMPI ==> ({
        let s = pre.stack@;
        let dest = s[s.len() - 1].val();
        let cond = s[s.len() - 2].val();
        &&& r is Ok == (s.len() >= 2 && (cond == 0 || valid_jump(code, dest)))
        &&& r is Ok ==> t.stack@ == s.drop_last().drop_last()
        &&& r is Ok && cond != 0 ==> t.pc == dest
        &&& r is Ok && cond == 0 ==> t.pc == pre.pc + 1
        &&& s.len() < 2 ==> r == Err::<(), VmError>(VmError::StackUnderflow)
        &&& s.len() >= 2 && cond != 0 && !valid_jump(code, dest) ==> r == Err::<(), VmError>(
            VmError::InvalidJump,
        )
    })
    &&& pre.gas >= gas_of(op) && is_push(op) ==> ({
        let s = pre.stack@;
        let n = push_len(op);
        let p = pre.pc;
        &&& r is Ok == (s.len() < MAX_STACK_SIZE && p + n < code.len())
        &&& s.len() >= MAX_STACK_SIZE && p + n < code.len() ==> r == Err::<(), VmError>(
            VmError::StackOverflow,
        )
        &&& p + n >= code.len() ==> r == Err::<(), VmError>(VmError::PushOutOfBounds)
        &&& r is Ok ==> t.pc == p + n && t.stack@ == s.push(
            t.stack@.last(),
        ) && t.stack@.last().val() == be_value(
            code.subrange(p + 1, p + 1 + n),
        )
    })
    &&& pre.gas >= gas_of(op) && op is SLOAD ==> ({
        let s = pre.stack@;
        &&& r is Ok == (s.len() >= 1)
        &&& r is Ok ==> t.stack@ == s.drop_last().push(t.stack@.last())
            && t.stack@.last().val() == storage_value(
            pre.storage@,
            s[s.len() - 1],
        )
    })
    &&& pre.gas >= gas_of(op) && op is SSTORE ==> ({
        let s = pre.stack@;
        let k = s[s.len() - 1];
        let v = s[s.len() - 2];
        &&& r is Ok == (s.len() >= 2)
        &&& r is Ok ==> t.stack@ == s.drop_last().drop_last()
        &&& r is Ok && v.val() == 0 ==> storage_map(t.storage@) == storage_map(
            pre.storage@,
        ).remove(k)
        &&& r is Ok && v.val() != 0 ==> storage_map(t.storage@) == storage_map(
            pre.storage@,
        ).insert(k, v)
    })
    &&& pre.gas >= gas_of(op) && op is MSTORE ==> ({
        let s = pre.stack@;
        let off = s[s.len() - 1].val();
        &&& r is Ok == (s.len() >= 2 && off + 32 <= MAX_MEMORY_SIZE)
        &&& r is Ok ==> t.stack@ == s.drop_last().drop_last() && t.memory@ == stored(pre.memory@, off, be_bytes(s[s.len() - 2].val(), 32))
    })
    &&& pre.gas >= gas_of(op) && op is MLOAD ==> ({
        let s = pre.stack@;
        let off = s[s.len() - 1].val();
        &&& r is Ok == (s.len() >= 1 && off + 32 <= MAX_MEMORY_SIZE)
        &&& r is Ok ==> t.memory@ == grown(pre.memory@, off + 32)
            && t.stack@ == s.drop_last().push(t.stack@.last())
            && t.stack@.last().val() == be_value(
            t.memory@.subrange(off as int, (off + 32) as int),
        )
    })
    &&& pre.gas >= gas_of(op) && op is STOP ==> r is Ok && t.halted
    &&& pre.gas >= gas_of(op) && op is JUMPDEST ==> r is Ok && t.stack@
        == pre.stack@ && t.memory@ == pre.memory@
    &&& pre.gas >= gas_of(op) && (op is MSTORE || op is MSTORE8 || op is SSTORE
        || op is RETURN || op is REVERT || op is SHA3 || is_log(op) || is_binary(op))
        && pre.stack@.len() < 2 ==> r == Err::<(), VmError>(VmError::StackUnderflow)
    &&& pre.gas >= gas_of(op) && (op is MLOAD || op is SLOAD || op is POP
        || op is ISZERO || op is NOT) && pre.stack@.len() == 0 ==> r == Err::<
        (),
        VmError
    >(VmError::StackUnderflow)
    &&& pre.gas >= gas_of(op) && (op is MSTORE || op is MLOAD) && pre.stack@.len()
        >= 2 && pre.stack@.last().val() + 32 > MAX_MEMORY_SIZE ==> r == Err::<(), VmError>(
        VmError::MemoryLimitExceeded
    )
    &&& pre.gas >= gas_of(op) && (op is RETURN || op is REVERT || op is SHA3
        || is_log(op)) && pre.stack@.len() >= 2 && pre.stack@.last().val()
        + pre.stack@[pre.stack@.len() - 2].val() > MAX_MEMORY_SIZE ==> r == Err::<
        (),
        VmError
    >(VmError::MemoryLimitExceeded)
    &&& pre.gas >= gas_of(op) && op is POP ==> ({
        let s = pre.stack@;
        &&& r is Ok == (s.len() >= 1)
        &&& r is Ok ==> t.stack@ == s.drop_last()
    })
    &&& pre.gas >= gas_of(op) && is_dup(op) ==> ({
        let s = pre.stack@;
        let n = opcode_byte(op) - 0x7f;
        &&& r is Ok == (n <= s.len() && s.len() < MAX_STACK_SIZE)
        &&& r is Ok ==> t.stack@ == s.push(s[s.len() - n])
    })
    &&& pre.gas >= gas_of(op) && is_swap(op) ==> ({
        let s = pre.stack@;
        let n = opcode_byte(op) - 0x8f;
        let top = s.len() - 1;
        &&& r is Ok == (n < s.len())
        &&& r is Ok ==> t.stack@ == s.update(top, s[top - n]).update(top - n, s[top])
    })
    &&& pre.gas >= gas_of(op) && op is MSTORE8 ==> ({
        let s = pre.stack@;
        let off = s[s.len() - 1].val();
        &&& r is Ok == (s.len() >= 2 && off + 1 <= MAX_MEMORY_SIZE)
        &&& r is Ok ==> t.stack@ == s.drop_last().drop_last() && t.memory@ == stored(pre.memory@, off, seq![(s[s.len() - 2].val() % 256) as u8])
    })
    &&& pre.gas >= gas_of(op) && op is SHA3 ==> ({
        let s = pre.stack@;
        let off = s[s.len() - 1].val();
        let size = s[s.len() - 2].val();
        &&& r is Ok == (s.len() >= 2 && off + size <= MAX_MEMORY_SIZE)
        &&& r is Ok ==> t.memory@ == grown(pre.memory@, off + size)
            && t.stack@ == s.drop_last().drop_last().push(t.stack@.last())
            && t.stack@.last().val() == be_value(
            keccak256_of(t.memory@.subrange(off as int, (off + size) as int)),
        )
    })
    &&& pre.gas >= gas_of(op) && is_log(op) ==> ({
        let s = pre.stack@;
        let n = opcode_byte(op) - 0xa0;
        let off = s[s.len() - 1].val();
        let size = s[s.len() - 2].val();
        let log = t.logs@.last();
        &&& r is Ok == (s.len() >= 2 + n && off + size <= MAX_MEMORY_SIZE)
        &&& r is Ok ==> t.logs@ == pre.logs@.push(log)
            && t.stack@ == s.subrange(0, s.len() - 2 - n) && log.data@
            == t.memory@.subrange(off as int, (off + size) as int)
            && log.topics@.len() == n && log.address == pre.address
    })
    &&& pre.gas >= gas_of(op) && (op is ADDRESS || op is CALLER
        || op is CALLVALUE || op is PC || op is MSIZE || op is GAS
        || op is CALLDATASIZE || op is CODESIZE) ==> ({
        let s = pre.stack@;
        let w = t.stack@.last();
        &&& r is Ok == (s.len() < MAX_STACK_SIZE)
        &&& r is Ok ==> t.stack@ == s.push(w)
        &&& r is Ok && op is ADDRESS ==> w == pre.address
        &&& r is Ok && op is CALLER ==> w == pre.caller
        &&& r is Ok && op is CALLVALUE ==> w == pre.value
        &&& r is Ok && op is PC ==> w.val() == pre.pc
        &&& r is Ok && op is MSIZE ==> w.val() == pre.memory@.len()
        &&& r is Ok && op is GAS ==> w.val() == t.gas
        &&& r is Ok && op is CALLDATASIZE ==> w.val() == pre.call_data@.len()
        &&& r is Ok && op is CODESIZE ==> w.val() == code.len()
    })
    &&& pre.gas >= gas_of(op) && (op is RETURN || op is REVERT) ==> ({
        let s = pre.stack@;
        let off = s[s.len() - 1].val();
        let size = s[s.len() - 2].val();
        &&& r is Ok == (s.len() >= 2 && off + size <= MAX_MEMORY_SIZE)
        &&& r is Ok ==> t.return_data@ == t.memory@.subrange(
            off as int,
            (off + size) as int,
        )
        &&& r is Ok && op is RETURN ==> t.halted
        &&& r is Ok && op is REVERT ==> t.reverted
    })
}

/// Executes one opcode against the frame: charges its gas, then applies its effect.
/// The program counter is left at the opcode for all but JUMP, JUMPI and PUSHn.
#[verifier::rlimit(60)]
pub fn execute_opcode(opcode: &OpCode, state: &mut EvmState, bytecode: &[u8]) -> (r: Result<
    (),
    VmError,
>)
    requires
        old(state).wf(),
        old(state).pc < bytecode@.len(),
    ensures
        opcode_effect(*opcode, *old(state), *final(state), bytecode@, r),

{
    proof {
        reveal(opcode_effect);
    }
    let code_len = bytecode.len();
    match state.consume_gas(opcode.gas_cost()) {
        Ok(_) => {},
        Err(e) => return Err(e),
    }
    if opcode.push_size().is_some() {
        let size = opcode.push_size().unwrap();
        let pc = state.pc;
        if pc >= bytecode.len() || size >= bytecode.len() - pc {
            return Err(VmError::PushOutOfBounds);
        }
        let mut imm: Vec<u8> = Vec::new();
        let mut i: usize = 0;
        while i < size
            invariant
                i <= size,
                pc + size < bytecode@.len(),
                bytecode@.len() <= usize::MAX,
                imm@ == bytecode@.subrange(pc + 1, pc + 1 + i),
            decreases size - i,
        {
            imm.push(bytecode[pc + 1 + i]);
            i = i + 1;
            assert(imm@ =~= bytecode@.subrange(pc + 1, pc + 1 + i));
        }
        let value = word_from_be(imm.as_slice());
        match state.push_stack(value) {
            Ok(_) => {},
            Err(e) => return Err(e),
        }
        state.pc = pc + size;
        return Ok(());
    }
    if opcode.dup_depth().is_some() {
        return state.dup_stack(opcode.dup_depth().unwrap());
    }
    if opcode.swap_depth().is_some() {
        return state.swap_stack(opcode.swap_depth().unwrap());
    }
    if opcode.log_topics().is_some() {
        return exec_log(state, opcode.log_topics().unwrap());
    }
    match opcode {
        OpCode::STOP => {
            state.halted = true;
        },
        OpCode::ADD | OpCode::MUL | OpCode::SUB | OpCode::DIV | OpCode::MOD | OpCode::EXP
        | OpCode::LT | OpCode::GT | OpCode::EQ | OpCode::AND | OpCode::OR | OpCode::XOR => {
            let t = match state.pop_stack() {
                Ok(v) => v,
                Err(e) => return Err(e),
            };
            let s = match state.pop_stack() {
                Ok(v) => v,
                Err(e) => return Err(e),
            };
            let w = binary_op(opcode, t, s);
            match state.push_stack(w) {
                Ok(_) => {},
                Err(e) => return Err(e),
            }
        },
        OpCode::ISZERO => {
            let t = match state.pop_stack() {
                Ok(v) => v,
                Err(e) => return Err(e),
            };
            let w = if t.is_zero() {
                Word::one()
            } else {
                Word::zero()
            };
            match state.push_stack(w) {
                Ok(_) => {},
                Err(e) => return Err(e),
            }
        },
        OpCode::NOT => {
            let t = match state.pop_stack() {
                Ok(v) => v,
                Err(e) => return Err(e),
            };
            match state.push_stack(t.bit_not()) {
                Ok(_) => {},
                Err(e) => return Err(e),
            }
        },
        OpCode::SHA3 => {
            let data = match pop_range(state) {
                Ok(v) => v,
                Err(e) => return Err(e),
            };
            let hash = keccak256(data.as_slice());
            let w = word_from_be(hash.as_slice());
            match state.push_stack(w) {
                Ok(_) => {},
                Err(e) => return Err(e),
            }
        },
        OpCode::ADDRESS => {
            let w = state.address;
            match state.push_stack(w) {
                Ok(_) => {},
                Err(e) => return Err(e),
            }
        },
        OpCode::CALLER => {
            let w = state.caller;
            match state.push_stack(w) {
                Ok(_) => {},
                Err(e) => return Err(e),
            }
        },
        OpCode::CALLVALUE => {
            let w = state.value;
            match state.push_stack(w) {
                Ok(_) => {},
                Err(e) => return Err(e),
            }
        },
        OpCode::CALLDATASIZE => {
            let w = Word::from_u64(state.call_data.len() as u64);
            match state.push_stack(w) {
                Ok(_) => {},
                Err(e) => return Err(e),
            }
        },
        OpCode::CODESIZE => {
            match state.push_stack(Word::from_u64(bytecode.len() as u64)) {
                Ok(_) => {},
                Err(e) => return Err(e),
            }
        },
        OpCode::POP => {
            match state.pop_stack() {
                Ok(_) => {},
                Err(e) => return Err(e),
            }
        },
        OpCode::MLOAD => {
            let off = match state.pop_stack() {
                Ok(v) => v,
                Err(e) => return Err(e),
            };
            match off.to_usize() {
                Some(o) => {
                    if o > MAX_MEMORY_SIZE - 32 {
                        return Err(VmError::MemoryLimitExceeded);
                    }
                    let data = match state.memory_load(o, 32) {
                        Ok(v) => v,
                        Err(e) => return Err(e),
                    };
                    let w = word_from_be(data.as_slice());
                    match state.push_stack(w) {
                        Ok(_) => {},
                        Err(e) => return Err(e),
                    }
                },
                None => {
                    return Err(VmError::MemoryLimitExceeded);
                },
            }
        },
        OpCode::MSTORE | OpCode::MSTORE8 => {
            let off = match state.pop_stack() {
                Ok(v) => v,
                Err(e) => return Err(e),
            };
            let v = match state.pop_stack() {
                Ok(v) => v,
                Err(e) => return Err(e),
            };
            let bytes = if *opcode == OpCode::MSTORE {
                proof {
                    lemma_be_bytes_len(v.val(), 32);
                }
                word_to_be(v)
            } else {
                let mut b: Vec<u8> = Vec::new();
                b.push(v.low_byte());
                b
            };
            match off.to_usize() {
                Some(o) => {
                    match state.memory_store(o, bytes.as_slice()) {
                        Ok(_) => {},
                        Err(e) => return Err(e),
                    }
                },
                None => {
                    return Err(VmError::MemoryLimitExceeded);
                },
            }
        },
        OpCode::SLOAD => {
            let k = match state.pop_stack() {
                Ok(v) => v,
                Err(e) => return Err(e),
            };
            let w = state.storage_load(&k);
            match state.push_stack(w) {
                Ok(_) => {},
                Err(e) => return Err(e),
            }
        },
        OpCode::SSTORE => {
            let k = match state.pop_stack() {
                Ok(v) => v,
                Err(e) => return Err(e),
            };
            let v = match state.pop_stack() {
                Ok(v) => v,
                Err(e) => return Err(e),
            };
            state.storage_store(k, v);
        },
        OpCode::JUMP => {
            let d = match state.pop_stack() {
                Ok(v) => v,
                Err(e) => return Err(e),
            };
            match d.to_usize() {
                Some(dest) => {
                    if dest >= bytecode.len() || bytecode[dest] != 0x5b {
                        return Err(VmError::InvalidJump);
                    }
                    state.pc = dest;
                },
                None => {
                    return Err(VmError::InvalidJump);
                },
            }
        },
        OpCode::JUMPI => {
            let d = match state.pop_stack() {
                Ok(v) => v,
                Err(e) => return Err(e),
            };
            let cond = match state.pop_stack() {
                Ok(v) => v,
                Err(e) => return Err(e),
            };
            if !cond.is_zero() {
                match d.to_usize() {
                    Some(dest) => {
                        if dest >= bytecode.len() || bytecode[dest] != 0x5b {
                            return Err(VmError::InvalidJump);
                        }
                        state.pc = dest;
                    },
                    None => {
                        return Err(VmError::InvalidJump);
                    },
                }
            } else {
                state.pc = state.pc + 1;
            }
        },
        OpCode::PC => {
            let w = Word::from_u64(state.pc as u64);
            match state.push_stack(w) {
                Ok(_) => {},
                Err(e) => return Err(e),
            }
        },
        OpCode::MSIZE => {
            let w = Word::from_u64(state.memory.len() as u64);
            match state.push_stack(w) {
                Ok(_) => {},
                Err(e) => return Err(e),
            }
        },
        OpCode::GAS => {
            let w = Word::from_u64(state.gas);
            match state.push_stack(w) {
                Ok(_) => {},
                Err(e) => return Err(e),
            }
        },
        OpCode::JUMPDEST => {},
        OpCode::RETURN | OpCode::REVERT => {
            let data = match pop_range(state) {
                Ok(v) => v,
                Err(e) => return Err(e),
            };
            state.return_data = data;
            if *opcode == OpCode::RETURN {
                state.halted = true;
            } else {
                state.reverted = true;
            }
        },
        _ => {
            return Err(VmError::Unimplemented(opcode.to_byte()));
        },
    }
    Ok(())
}

} // verus!
