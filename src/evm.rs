//! The execution frame: stack, memory and storage, and their primitive operations.

use vstd::prelude::*;
use vstd::string::*;
use crate::word::Word;
use crate::types::{Log, ExecutionStatus, ExecutionResult, TraceStep};
use crate::opcodes::OpCode;
use crate::interpreter::{execute_opcode, valid_jump, opcode_effect};
use crate::opcodes::{lemma_push_and_jump, decode};
use crate::word::{be_value, be_bytes, lemma_be_exact, lemma_be_bytes_len, lemma_val_bound};

verus! {

/// The deepest the stack may grow.
pub const MAX_STACK_SIZE: usize = 1024;

/// The most bytes that memory may grow to: 16 MiB.
pub const MAX_MEMORY_SIZE: usize = 16 * 1024 * 1024;

/// The most instructions one execution runs before it is stopped.
pub const MAX_STEPS: usize = 10000;

/// Why an execution stopped abnormally.
#[derive(Clone, Copy, Debug, PartialEq, Eq, Structural)]
pub enum VmError {
    OutOfGas,
    StackOverflow,
    StackUnderflow,
    InvalidDup,
    MemoryLimitExceeded,
    InvalidJump,
    PushOutOfBounds,
    Unimplemented(u8),
    ExecutionLimitExceeded,
}

/// The text that describes an error.
pub open spec fn error_text(e: VmError) -> Seq<char> {
    match e {
        VmError::OutOfGas => "Out of gas"@,
        VmError::StackOverflow => "Stack overflow"@,
        VmError::StackUnderflow => "Stack underflow"@,
        VmError::InvalidDup => "Invalid DUP parameter"@,
        VmError::MemoryLimitExceeded => "Memory limit exceeded"@,
        VmError::InvalidJump => "Invalid jump destination"@,
        VmError::PushOutOfBounds => "Push instruction exceeds bytecode length"@,
        VmError::Unimplemented(_) => "Unimplemented opcode"@,
        VmError::ExecutionLimitExceeded => "Execution limit exceeded (too many steps)"@,
    }
}

impl VmError {
    /// A human-readable description.
    pub fn message(&self) -> (r: String)
        ensures
            *self == VmError::OutOfGas ==> r@ == "Out of gas"@,
            *self == VmError::StackOverflow ==> r@ == "Stack overflow"@,
            *self == VmError::StackUnderflow ==> r@ == "Stack underflow"@,
            *self == VmError::InvalidDup ==> r@ == "Invalid DUP parameter"@,
            *self == VmError::MemoryLimitExceeded ==> r@ == "Memory limit exceeded"@,
            *self == VmError::InvalidJump ==> r@ == "Invalid jump destination"@,
            *self == VmError::PushOutOfBounds ==> r@ == "Push instruction exceeds bytecode length"@,
            *self is Unimplemented ==> r@ == "Unimplemented opcode"@,
            *self == VmError::ExecutionLimitExceeded ==> r@ == "Execution limit exceeded (too many steps)"@,
            r@ == error_text(*self),
    {
        match self {
            VmError::OutOfGas => String::from_str("Out of gas"),
            VmError::StackOverflow => String::from_str("Stack overflow"),
            VmError::StackUnderflow => String::from_str("Stack underflow"),
            VmError::InvalidDup => String::from_str("Invalid DUP parameter"),
            VmError::MemoryLimitExceeded => String::from_str("Memory limit exceeded"),
            VmError::InvalidJump => String::from_str("Invalid jump destination"),
            VmError::PushOutOfBounds => String::from_str("Push instruction exceeds bytecode length"),
            VmError::Unimplemented(_) => String::from_str("Unimplemented opcode"),
            VmError::ExecutionLimitExceeded => String::from_str(
                "Execution limit exceeded (too many steps)",
            ),
        }
    }
}

/// Memory after growing it to cover `size` bytes, zero-filled.
pub open spec fn grown(mem: Seq<u8>, size: nat) -> Seq<u8> {
    if size > mem.len() {
        mem + Seq::new((size - mem.len()) as nat, |i: int| 0u8)
    } else {
        mem
    }
}

/// Memory after writing `data` at `offset`.
pub open spec fn stored(mem: Seq<u8>, offset: nat, data: Seq<u8>) -> Seq<u8> {
    let g = grown(mem, offset + data.len());
    Seq::new(
        g.len(),
        |i: int|
            if offset <= i < offset + data.len() {
                data[i - offset]
            } else {
                g[i]
            },
    )
}

/// Whether some entry holds key `k`.
pub open spec fn has_key(entries: Seq<(Word, Word)>, k: Word) -> bool {
    exists|i: int| 0 <= i < entries.len() && entries[i].0 == k
}

/// The storage that a list of entries stands for.
pub open spec fn storage_map(entries: Seq<(Word, Word)>) -> Map<Word, Word> {
    Map::new(
        |k: Word| has_key(entries, k),
        |k: Word| entries[choose|i: int| 0 <= i < entries.len() && entries[i].0 == k].1,
    )
}

/// Keys are unique and no value is zero (a zero value is stored as an absent key).
pub open spec fn storage_wf(entries: Seq<(Word, Word)>) -> bool {
    &&& forall|i: int, j: int|
        0 <= i < entries.len() && 0 <= j < entries.len() && i != j ==> entries[i].0 != entries[j].0
    &&& forall|i: int| 0 <= i < entries.len() ==> entries[i].1.val() != 0
}

/// The value that storage holds at `k`: zero where the key is absent.
pub open spec fn storage_value(entries: Seq<(Word, Word)>, k: Word) -> nat {
    if storage_map(entries).contains_key(k) {
        storage_map(entries)[k].val()
    } else {
        0
    }
}

/// The two frames agree on everything but stack, memory, storage, pc and gas.
pub open spec fn same_context(a: EvmState, b: EvmState) -> bool {
    &&& a.halted == b.halted
    &&& a.reverted == b.reverted
    &&& a.error == b.error
    &&& a.return_data@ == b.return_data@
    &&& a.logs@ == b.logs@
    &&& a.value == b.value
    &&& a.caller == b.caller
    &&& a.origin == b.origin
    &&& a.address == b.address
    &&& a.call_data@ == b.call_data@
}

/// The full mutable state of one execution.
#[derive(Debug)]
pub struct EvmState {
    pub stack: Vec<Word>,
    pub memory: Vec<u8>,
    pub storage: Vec<(Word, Word)>,
    pub logs: Vec<Log>,
    pub pc: usize,
    pub gas: u64,
    pub value: Word,
    pub caller: Word,
    pub origin: Word,
    pub address: Word,
    pub call_data: Vec<u8>,
    pub return_data: Vec<u8>,
    pub halted: bool,
    pub reverted: bool,
    pub error: Option<VmError>,
}

impl EvmState {
    /// The frame's bounds hold: stack depth, memory size, storage entries.
    pub open spec fn wf(&self) -> bool {
        &&& self.stack@.len() <= MAX_STACK_SIZE
        &&& self.memory@.len() <= MAX_MEMORY_SIZE
        &&& storage_wf(self.storage@)
    }

    /// A fresh frame with the given gas and call value.
    pub fn new(gas: u64, value: Word) -> (r: EvmState)
        ensures
            r.wf(),
            r.stack@.len() == 0,
            r.memory@.len() == 0,
            r.storage@.len() == 0,
            r.logs@.len() == 0,
            r.pc == 0,
            r.gas == gas,
            r.value == value,
            r.caller.val() == 0 && r.origin.val() == 0 && r.address.val() == 0,
            r.call_data@.len() == 0,
            r.return_data@.len() == 0,
            !r.halted && !r.reverted && r.error is None,
    {
        EvmState {
            stack: Vec::new(),
            memory: Vec::new(),
            storage: Vec::new(),
            logs: Vec::new(),
            pc: 0,
            gas,
            value,
            caller: Word::zero(),
            origin: Word::zero(),
            address: Word::zero(),
            call_data: Vec::new(),
            return_data: Vec::new(),
            halted: false,
            reverted: false,
            error: None,
        }
    }

    /// Pushes a word; fails when the stack is full.
    pub fn push_stack(&mut self, value: Word) -> (r: Result<(), VmError>)
        requires
            old(self).wf(),
        ensures
            final(self).wf(),
            same_context(*old(self), *final(self)),
            r is Ok == (old(self).stack@.len() < MAX_STACK_SIZE),
            r is Ok ==> final(self).stack@ == old(self).stack@.push(value),
            r is Err ==> r == Err::<(), VmError>(VmError::StackOverflow) && final(self).stack@
                == old(self).stack@,
            final(self).memory@ == old(self).memory@,
            final(self).storage@ == old(self).storage@,
            final(self).pc == old(self).pc,
            final(self).gas == old(self).gas,
    {
        if self.stack.len() >= MAX_STACK_SIZE {
            return Err(VmError::StackOverflow);
        }
        self.stack.push(value);
        Ok(())
    }

    /// Pops the top word; fails when the stack is empty.
    pub fn pop_stack(&mut self) -> (r: Result<Word, VmError>)
        requires
            old(self).wf(),
        ensures
            final(self).wf(),
            same_context(*old(self), *final(self)),
            r is Ok == (old(self).stack@.len() > 0),
            r is Ok ==> r.unwrap() == old(self).stack@.last() && final(self).stack@ == old(self).stack@.drop_last(),
            r is Err ==> r == Err::<Word, VmError>(VmError::StackUnderflow) && final(self).stack@
                == old(self).stack@,
            final(self).memory@ == old(self).memory@,
            final(self).storage@ == old(self).storage@,
            final(self).pc == old(self).pc,
            final(self).gas == old(self).gas,
    {
        match self.stack.pop() {
            Some(v) => Ok(v),
            None => Err(VmError::StackUnderflow),
        }
    }

    /// The word `index` places below the top.
    pub fn peek_stack(&self, index: usize) -> (r: Result<Word, VmError>)
        ensures
            r is Ok == (index < self.stack@.len()),
            r is Ok ==> r.unwrap() == self.stack@[self.stack@.len() - 1 - index],
            r is Err ==> r == Err::<Word, VmError>(VmError::StackUnderflow),
    {
        if index >= self.stack.len() {
            return Err(VmError::StackUnderflow);
        }
        Ok(self.stack[self.stack.len() - 1 - index])
    }

    /// Exchanges the top with the word `n` places below it.
    pub fn swap_stack(&mut self, n: usize) -> (r: Result<(), VmError>)
        requires
            old(self).wf(),
        ensures
            final(self).wf(),
            same_context(*old(self), *final(self)),
            r is Ok == (n < old(self).stack@.len()),
            r is Ok ==> {
                let s = old(self).stack@;
                let top = s.len() - 1;
                final(self).stack@ == s.update(top, s[top - n]).update(top - n, s[top])
            },
            r is Err ==> r == Err::<(), VmError>(VmError::StackUnderflow) && final(self).stack@
                == old(self).stack@,
            final(self).memory@ == old(self).memory@,
            final(self).storage@ == old(self).storage@,
            final(self).pc == old(self).pc,
            final(self).gas == old(self).gas,
    {
        if self.stack.len() <= n {
            return Err(VmError::StackUnderflow);
        }
        let len = self.stack.len();
        let a = self.stack[len - 1];
        let b = self.stack[len - 1 - n];
        self.stack.set(len - 1, b);
        self.stack.set(len - 1 - n, a);
        Ok(())
    }

    /// Pushes a copy of the `n`-th word from the top (1-based).
    pub fn dup_stack(&mut self, n: usize) -> (r: Result<(), VmError>)
        requires
            old(self).wf(),
        ensures
            final(self).wf(),
            same_context(*old(self), *final(self)),
            (n == 0 || n > 16) ==> r == Err::<(), VmError>(VmError::InvalidDup),
            1 <= n <= 16 ==> (r is Ok == (n <= old(self).stack@.len() && old(self).stack@.len()
                < MAX_STACK_SIZE)),
            r is Ok ==> final(self).stack@ == old(self).stack@.push(
                old(self).stack@[old(self).stack@.len() - n],
            ),
            1 <= n <= 16 && old(self).stack@.len() < n ==> r == Err::<(), VmError>(
                VmError::StackUnderflow,
            ),
            1 <= n <= 16 && n <= old(self).stack@.len() && old(self).stack@.len() >= MAX_STACK_SIZE
                ==> r == Err::<(), VmError>(VmError::StackOverflow),
            r is Err ==> final(self).stack@ == old(self).stack@,
            final(self).memory@ == old(self).memory@,
            final(self).storage@ == old(self).storage@,
            final(self).pc == old(self).pc,
            final(self).gas == old(self).gas,
    {
        if n == 0 || n > 16 {
            return Err(VmError::InvalidDup);
        }
        if self.stack.len() < n {
            return Err(VmError::StackUnderflow);
        }
        let value = match self.peek_stack(n - 1) {
            Ok(v) => v,
            Err(e) => return Err(e),
        };
        self.push_stack(value)
    }

    /// Grows memory, zero-filled, to cover `size` bytes; fails past the memory ceiling.
    pub fn memory_resize(&mut self, size: usize) -> (r: Result<(), VmError>)
        requires
            old(self).wf(),
        ensures
            final(self).wf(),
            same_context(*old(self), *final(self)),
            r is Ok == (size <= MAX_MEMORY_SIZE),
            r is Ok ==> final(self).memory@ == grown(old(self).memory@, size as nat),
            r is Err ==> r == Err::<(), VmError>(VmError::MemoryLimitExceeded) && final(self).memory@ == old(self).memory@,
            final(self).stack@ == old(self).stack@,
            final(self).storage@ == old(self).storage@,
            final(self).pc == old(self).pc,
            final(self).gas == old(self).gas,
    {
        if size > MAX_MEMORY_SIZE {
            return Err(VmError::MemoryLimitExceeded);
        }
        let ghost start = self.memory@;
        while self.memory.len() < size
            invariant
                self.wf(),
                size <= MAX_MEMORY_SIZE,
                self.memory@.len() <= size || self.memory@ == start,
                start.len() <= self.memory@.len(),
                self.memory@.subrange(0, start.len() as int) == start,
                forall|i: int| start.len() <= i < self.memory@.len() ==> self.memory@[i] == 0u8,
                same_context(*old(self), *self),
                self.stack@ == old(self).stack@,
                self.storage@ == old(self).storage@,
                self.pc == old(self).pc,
                self.gas == old(self).gas,
            decreases size - self.memory@.len(),
        {
            self.memory.push(0u8);
        }
        assert(self.memory@ =~= grown(start, size as nat));
        Ok(())
    }

    /// Writes `data` at `offset`, growing memory to cover it.
    pub fn memory_store(&mut self, offset: usize, data: &[u8]) -> (r: Result<(), VmError>)
        requires
            old(self).wf(),
        ensures
            final(self).wf(),
            same_context(*old(self), *final(self)),
            r is Ok == (offset + data@.len() <= MAX_MEMORY_SIZE),
            r is Ok ==> final(self).memory@ == stored(old(self).memory@, offset as nat, data@),
            r is Err ==> r == Err::<(), VmError>(VmError::MemoryLimitExceeded) && final(self).memory@ == old(self).memory@,
            final(self).stack@ == old(self).stack@,
            final(self).storage@ == old(self).storage@,
            final(self).pc == old(self).pc,
            final(self).gas == old(self).gas,
    {
        if offset > MAX_MEMORY_SIZE || data.len() > MAX_MEMORY_SIZE - offset {
            return Err(VmError::MemoryLimitExceeded);
        }
        let required_size = offset + data.len();
        match self.memory_resize(required_size) {
            Ok(()) => {},
            Err(e) => return Err(e),
        }
        let ghost g = self.memory@;
        let mut i: usize = 0;
        while i < data.len()
            invariant
                self.wf(),
                i <= data@.len(),
                required_size == offset + data@.len(),
                g == grown(old(self).memory@, required_size as nat),
                self.memory@.len() == g.len(),
                g.len() >= required_size,
                forall|j: int|
                    0 <= j < g.len() ==> self.memory@[j] == if offset <= j < offset + i {
                        data@[j - offset]
                    } else {
                        g[j]
                    },
                same_context(*old(self), *self),
                self.stack@ == old(self).stack@,
                self.storage@ == old(self).storage@,
                self.pc == old(self).pc,
                self.gas == old(self).gas,
            decreases data@.len() - i,
        {
            self.memory.set(offset + i, data[i]);
            i = i + 1;
        }
        assert(self.memory@ =~= stored(old(self).memory@, offset as nat, data@));
        Ok(())
    }

    /// Reads `size` bytes at `offset`, growing memory to cover them.
    pub fn memory_load(&mut self, offset: usize, size: usize) -> (r: Result<Vec<u8>, VmError>)
        requires
            old(self).wf(),
        ensures
            final(self).wf(),
            same_context(*old(self), *final(self)),
            r is Ok == (offset + size <= MAX_MEMORY_SIZE),
            r is Ok ==> final(self).memory@ == grown(old(self).memory@, (offset + size) as nat)
                && r.unwrap()@ == final(self).memory@.subrange(offset as int, offset + size),
            r is Err ==> r == Err::<Vec<u8>, VmError>(VmError::MemoryLimitExceeded) && final(self).memory@ == old(self).memory@,
            final(self).stack@ == old(self).stack@,
            final(self).storage@ == old(self).storage@,
            final(self).pc == old(self).pc,
            final(self).gas == old(self).gas,
    {
        if offset > MAX_MEMORY_SIZE || size > MAX_MEMORY_SIZE - offset {
            return Err(VmError::MemoryLimitExceeded);
        }
        match self.memory_resize(offset + size) {
            Ok(()) => {},
            Err(e) => return Err(e),
        }
        let mut out: Vec<u8> = Vec::new();
        let mut i: usize = 0;
        while i < size
            invariant
                i <= size,
                offset + size <= MAX_MEMORY_SIZE,
                offset + size <= self.memory@.len(),
                out@ == self.memory@.subrange(offset as int, offset + i),
            decreases size - i,
        {
            out.push(self.memory[offset + i]);
            i = i + 1;
            assert(out@ =~= self.memory@.subrange(offset as int, offset + i));
        }
        Ok(out)
    }

    /// Charges `amount` gas; fails, charging nothing, when less is left.
    pub fn consume_gas(&mut self, amount: u64) -> (r: Result<(), VmError>)
        requires
            old(self).wf(),
        ensures
            final(self).wf(),
            same_context(*old(self), *final(self)),
            r is Ok == (amount <= old(self).gas),
            r is Ok ==> final(self).gas == old(self).gas - amount,
            r is Err ==> r == Err::<(), VmError>(VmError::OutOfGas) && final(self).gas == old(self).gas,
            final(self).stack@ == old(self).stack@,
            final(self).memory@ == old(self).memory@,
            final(self).storage@ == old(self).storage@,
            final(self).pc == old(self).pc,
    {
        if self.gas < amount {
            return Err(VmError::OutOfGas);
        }
        self.gas = self.gas - amount;
        Ok(())
    }

    /// The value at `key`: zero where the key is absent.
    pub fn storage_load(&self, key: &Word) -> (r: Word)
        requires
            storage_wf(self.storage@),
        ensures
            r.val() == storage_value(self.storage@, *key),
            storage_map(self.storage@).contains_key(*key) ==> r == storage_map(self.storage@)[*key],
    {
        match find_key(&self.storage, key) {
            Some(i) => {
                proof {
                    lemma_map_at(self.storage@, i as int);
                }
                self.storage[i].1
            },
            None => Word::zero(),
        }
    }

    /// Writes `value` at `key`; a zero value erases the key.
    pub fn storage_store(&mut self, key: Word, value: Word)
        requires
            old(self).wf(),
        ensures
            final(self).wf(),
            same_context(*old(self), *final(self)),
            value.val() == 0 ==> storage_map(final(self).storage@) == storage_map(
                old(self).storage@,
            ).remove(key),
            value.val() != 0 ==> storage_map(final(self).storage@) == storage_map(
                old(self).storage@,
            ).insert(key, value),
            final(self).stack@ == old(self).stack@,
            final(self).memory@ == old(self).memory@,
            final(self).pc == old(self).pc,
            final(self).gas == old(self).gas,
    {
        let ghost s = self.storage@;
        let zero = value.is_zero();
        match find_key(&self.storage, &key) {
            Some(i) => {
                if zero {
                    self.storage.remove(i);
                    proof {
                        lemma_map_remove(s, i as int);
                    }
                } else {
                    self.storage.set(i, (key, value));
                    proof {
                        lemma_map_set(s, i as int, value);
                    }
                }
            },
            None => {
                if !zero {
                    self.storage.push((key, value));
                    proof {
                        lemma_map_push(s, key, value);
                    }
                } else {
                    assert(storage_map(s) =~= storage_map(s).remove(key));
                }
            },
        }
    }
}

/// The index of the entry with key `k`, if any.
fn find_key(entries: &Vec<(Word, Word)>, k: &Word) -> (r: Option<usize>)
    ensures
        r is Some ==> r.unwrap() < entries@.len() && entries@[r.unwrap() as int].0 == *k,
        r is None ==> !has_key(entries@, *k),
{
    let mut i: usize = 0;
    while i < entries.len()
        invariant
            i <= entries@.len(),
            forall|j: int| 0 <= j < i ==> entries@[j].0 != *k,
        decreases entries@.len() - i,
    {
        if entries[i].0 == *k {
            return Some(i);
        }
        i = i + 1;
    }
    None
}

proof fn lemma_map_at(s: Seq<(Word, Word)>, i: int)
    requires
        storage_wf(s),
        0 <= i < s.len(),
    ensures
        storage_map(s).contains_key(s[i].0),
        storage_map(s)[s[i].0] == s[i].1,
{
    let k = s[i].0;
    assert(has_key(s, k));
    let j = choose|j: int| 0 <= j < s.len() && s[j].0 == k;
    assert(j == i);
}

proof fn lemma_map_remove(s: Seq<(Word, Word)>, i: int)
    requires
        storage_wf(s),
        0 <= i < s.len(),
    ensures
        storage_wf(s.remove(i)),
        storage_map(s.remove(i)) == storage_map(s).remove(s[i].0),
{
    let t = s.remove(i);
    let k = s[i].0;
    assert forall|a: int, b: int| 0 <= a < t.len() && 0 <= b < t.len() && a != b implies t[a].0
        != t[b].0 by {
        let a2 = if a < i { a } else { a + 1 };
        let b2 = if b < i { b } else { b + 1 };
        assert(t[a] == s[a2] && t[b] == s[b2]);
    }
    assert forall|a: int| 0 <= a < t.len() implies t[a].1.val() != 0 by {
        let a2 = if a < i { a } else { a + 1 };
        assert(t[a] == s[a2]);
    }
    assert forall|k2: Word| #[trigger] storage_map(t).contains_key(k2) == storage_map(s).remove(
        k,
    ).contains_key(k2) by {
        if has_key(t, k2) {
            let a = choose|a: int| 0 <= a < t.len() && t[a].0 == k2;
            let a2 = if a < i { a } else { a + 1 };
            assert(t[a] == s[a2]);
        }
        if has_key(s, k2) && k2 != k {
            let a2 = choose|a: int| 0 <= a < s.len() && s[a].0 == k2;
            let a = if a2 < i { a2 } else { a2 - 1 };
            assert(t[a] == s[a2]);
        }
    }
    assert forall|k2: Word| #[trigger] storage_map(t).contains_key(k2) implies storage_map(t)[k2]
        == storage_map(s)[k2] by {
        let a = choose|a: int| 0 <= a < t.len() && t[a].0 == k2;
        let a2 = if a < i { a } else { a + 1 };
        assert(t[a] == s[a2]);
        lemma_map_at(t, a);
        lemma_map_at(s, a2);
    }
    assert(storage_map(t) =~= storage_map(s).remove(k));
}

proof fn lemma_map_set(s: Seq<(Word, Word)>, i: int, v: Word)
    requires
        storage_wf(s),
        0 <= i < s.len(),
        v.val() != 0,
    ensures
        storage_wf(s.update(i, (s[i].0, v))),
        storage_map(s.update(i, (s[i].0, v))) == storage_map(s).insert(s[i].0, v),
{
    let t = s.update(i, (s[i].0, v));
    let k = s[i].0;
    assert forall|k2: Word| #[trigger] storage_map(t).contains_key(k2) == storage_map(s).insert(
        k,
        v,
    ).contains_key(k2) by {
        if has_key(t, k2) {
            let a = choose|a: int| 0 <= a < t.len() && t[a].0 == k2;
            assert(s[a].0 == k2);
        }
        if has_key(s, k2) {
            let a = choose|a: int| 0 <= a < s.len() && s[a].0 == k2;
            assert(t[a].0 == k2);
        }
        if k2 == k {
            assert(t[i].0 == k2);
        }
    }
    assert forall|k2: Word| #[trigger] storage_map(t).contains_key(k2) implies storage_map(t)[k2]
        == storage_map(s).insert(k, v)[k2] by {
        let a = choose|a: int| 0 <= a < t.len() && t[a].0 == k2;
        lemma_map_at(t, a);
        if a != i {
            lemma_map_at(s, a);
        }
    }
    assert(storage_map(t) =~= storage_map(s).insert(k, v));
}

proof fn lemma_map_push(s: Seq<(Word, Word)>, k: Word, v: Word)
    requires
        storage_wf(s),
        !has_key(s, k),
        v.val() != 0,
    ensures
        storage_wf(s.push((k, v))),
        storage_map(s.push((k, v))) == storage_map(s).insert(k, v),
{
    let t = s.push((k, v));
    assert(t[s.len() as int].0 == k);
    assert forall|a: int, b: int| 0 <= a < t.len() && 0 <= b < t.len() && a != b implies t[a].0
        != t[b].0 by {
        if a < s.len() && b < s.len() {
            assert(t[a] == s[a] && t[b] == s[b]);
        } else if a < s.len() {
            assert(t[a] == s[a]);
        } else {
            assert(t[b] == s[b]);
        }
    }
    assert forall|a: int| 0 <= a < t.len() implies t[a].1.val() != 0 by {
        if a < s.len() {
            assert(t[a] == s[a]);
        }
    }
    assert forall|k2: Word| #[trigger] storage_map(t).contains_key(k2) == storage_map(s).insert(
        k,
        v,
    ).contains_key(k2) by {
        if has_key(t, k2) && k2 != k {
            let a = choose|a: int| 0 <= a < t.len() && t[a].0 == k2;
            assert(a < s.len());
            assert(s[a].0 == k2);
        }
        if has_key(s, k2) {
            let a = choose|a: int| 0 <= a < s.len() && s[a].0 == k2;
            assert(t[a].0 == k2);
        }
    }
    assert forall|k2: Word| #[trigger] storage_map(t).contains_key(k2) implies storage_map(t)[k2]
        == storage_map(s).insert(k, v)[k2] by {
        let a = choose|a: int| 0 <= a < t.len() && t[a].0 == k2;
        lemma_map_at(t, a);
        if a < s.len() {
            assert(t[a] == s[a]);
            lemma_map_at(s, a);
        }
    }
    assert(storage_map(t) =~= storage_map(s).insert(k, v));
}

/// The status that an execution ended in, read off the frame's error and revert flag.
pub open spec fn status_of(status: ExecutionStatus, error: Option<VmError>, reverted: bool) -> bool {
    match error {
        Some(VmError::OutOfGas) => status is OutOfGas,
        Some(e) => status is Error && status->Error_0@ == error_text(e),
        None => if reverted {
            status is Revert && status->Revert_0@ == "Execution reverted"@
        } else {
            status is Success
        },
    }
}

pub(crate) fn copy_bytes(v: &Vec<u8>) -> (r: Vec<u8>)
    ensures
        r@ == v@,
{
    let mut r: Vec<u8> = Vec::new();
    let mut i: usize = 0;
    while i < v.len()
        invariant
            i <= v@.len(),
            r@ == v@.subrange(0, i as int),
        decreases v@.len() - i,
    {
        r.push(v[i]);
        i = i + 1;
        assert(r@ =~= v@.subrange(0, i as int));
    }
    assert(r@ =~= v@);
    r
}

/// Whether the frame would run another instruction of `code`.
pub open spec fn running(f: EvmState, code: Seq<u8>) -> bool {
    f.pc < code.len() && !f.halted && !f.reverted && f.error is None
}

/// The frame after an executed opcode: the pc moves past it unless it failed, jumped or halted.
pub open spec fn advanced(op: OpCode, m: EvmState, r: Result<(), VmError>) -> EvmState {
    if r is Ok && !(op is JUMP || op is JUMPI) && !m.halted {
        EvmState { pc: (m.pc + 1) as usize, ..m }
    } else {
        m
    }
}

/// One interpreter step from `s` to `t` with result `r`: the opcode at the pc has its effect,
/// then the pc advances.
pub open spec fn step_effect(s: EvmState, t: EvmState, code: Seq<u8>, r: Result<(), VmError>) -> bool {
    exists|m: EvmState|
        #[trigger] opcode_effect(decode(code[s.pc as int]), s, m, code, r) && t == advanced(
            decode(code[s.pc as int]),
            m,
            r,
        )
}

/// The frame with its error set.
pub open spec fn with_error(f: EvmState, e: VmError) -> EvmState {
    EvmState { error: Some(e), ..f }
}

/// A run of `n` steps from `s0` ending in `f`: `frames` are the frames before each step and
/// after the last, `rs` the steps' results. Every step but the last succeeded; the run ends
/// with the last step's error, at the step ceiling with `ExecutionLimitExceeded`, or when the
/// frame stops running.
pub open spec fn run_trace(
    code: Seq<u8>,
    s0: EvmState,
    f: EvmState,
    frames: Seq<EvmState>,
    rs: Seq<Result<(), VmError>>,
    n: nat,
) -> bool {
    &&& frames.len() == n + 1
    &&& rs.len() == n
    &&& frames[0] == s0
    &&& forall|i: int|
        0 <= i < n ==> running(#[trigger] frames[i], code) && step_effect(frames[i], frames[i + 1], code, rs[i])
    &&& forall|i: int| 0 <= i < n - 1 ==> (#[trigger] rs[i]) is Ok
    &&& n > 0 && rs[n - 1] is Err ==> f == with_error(frames[n as int], rs[n - 1]->Err_0)
    &&& !(n > 0 && rs[n - 1] is Err) && running(frames[n as int], code) ==> n == MAX_STEPS && f
        == with_error(frames[n as int], VmError::ExecutionLimitExceeded)
    &&& !(n > 0 && rs[n - 1] is Err) && !running(frames[n as int], code) ==> f == frames[n as int]
}

/// Running `code` from `s0` for `n` steps ends in `f`.
pub open spec fn runs(code: Seq<u8>, s0: EvmState, f: EvmState, n: nat) -> bool {
    exists|frames: Seq<EvmState>, rs: Seq<Result<(), VmError>>| #[trigger] run_trace(code, s0, f, frames, rs, n)
}

/// A fresh frame: everything empty or zero but the gas and the call value.
pub open spec fn fresh_frame(s: EvmState, gas: u64, value: Word) -> bool {
    &&& s.wf()
    &&& s.stack@.len() == 0 && s.memory@.len() == 0 && s.storage@.len() == 0 && s.logs@.len() == 0
    &&& s.pc == 0 && s.gas == gas && s.value == value
    &&& s.caller.val() == 0 && s.origin.val() == 0 && s.address.val() == 0
    &&& s.call_data@.len() == 0 && s.return_data@.len() == 0
    &&& !s.halted && !s.reverted && s.error is None
}

/// Two log lists hold the same records.
pub open spec fn same_logs(a: Seq<Log>, b: Seq<Log>) -> bool {
    &&& a.len() == b.len()
    &&& forall|i: int|
        0 <= i < a.len() ==> (#[trigger] a[i]).address == b[i].address && a[i].topics@ == b[i].topics@
            && a[i].data@ == b[i].data@
}

fn copy_words(v: &Vec<Word>) -> (r: Vec<Word>)
    ensures
        r@ == v@,
{
    let mut r: Vec<Word> = Vec::new();
    let mut i: usize = 0;
    while i < v.len()
        invariant
            i <= v@.len(),
            r@ == v@.subrange(0, i as int),
        decreases v@.len() - i,
    {
        r.push(v[i]);
        i = i + 1;
        assert(r@ =~= v@.subrange(0, i as int));
    }
    assert(r@ =~= v@);
    r
}

fn copy_logs(v: &Vec<Log>) -> (r: Vec<Log>)
    ensures
        same_logs(r@, v@),
{
    let mut r: Vec<Log> = Vec::new();
    let mut i: usize = 0;
    while i < v.len()
        invariant
            i <= v@.len(),
            r@.len() == i,
            forall|k: int|
                0 <= k < i ==> (#[trigger] r@[k]).address == v@[k].address && r@[k].topics@ == v@[k].topics@
                    && r@[k].data@ == v@[k].data@,
        decreases v@.len() - i,
    {
        let l = &v[i];
        r.push(Log { address: l.address, topics: copy_words(&l.topics), data: copy_bytes(&l.data) });
        i = i + 1;
    }
    r
}

/// One interpreter step: decodes the byte at the program counter, executes it, and moves
/// the counter on by one unless the opcode jumped or halted the frame.
pub fn step(state: &mut EvmState, bytecode: &[u8]) -> (r: Result<(), VmError>)
    requires
        old(state).wf(),
        old(state).pc < bytecode@.len(),
        !old(state).halted,
    ensures
        final(state).wf(),
        final(state).stack@.len() <= MAX_STACK_SIZE,
        step_effect(*old(state), *final(state), bytecode@, r),
        final(state).gas <= old(state).gas,
        final(state).error == old(state).error,
        r != Err::<(), VmError>(VmError::ExecutionLimitExceeded),
        ({
            let b = bytecode@[old(state).pc as int];
            let s = old(state).stack@;
            old(state).gas >= 8 && b == 0x56 ==> {
                &&& r is Ok == (s.len() >= 1 && valid_jump(bytecode@, s[s.len() - 1].val()))
                &&& r is Ok ==> final(state).pc == s[s.len() - 1].val()
            }
        }),
        ({
            let b = bytecode@[old(state).pc as int];
            let s = old(state).stack@;
            let p = old(state).pc;
            let n = b - 0x5f;
            old(state).gas >= 3 && 0x60 <= b <= 0x7f ==> {
                &&& r is Ok == (s.len() < MAX_STACK_SIZE && p + n < bytecode@.len())
                &&& r is Ok ==> final(state).pc == p + 1 + n && final(state).stack@ == s.push(
                    final(state).stack@.last(),
                ) && final(state).stack@.last().val() == be_value(
                    bytecode@.subrange(p + 1, p + 1 + n),
                )
            }
        }),
{
    let opcode = OpCode::from_byte(bytecode[state.pc]);
    proof {
        lemma_push_and_jump(opcode);
        reveal(opcode_effect);
    }
    let ghost pre = *state;
    let res = execute_opcode(&opcode, state, bytecode);
    let ghost m = *state;
    match res {
        Ok(()) => {
            if !(opcode == OpCode::JUMP || opcode == OpCode::JUMPI) && !state.halted {
                state.pc = state.pc + 1;
            }
        },
        Err(_) => {},
    }
    assert(opcode_effect(decode(bytecode@[pre.pc as int]), pre, m, bytecode@, res));
    assert(*state == advanced(decode(bytecode@[pre.pc as int]), m, res));
    res
}

/// Runs bytecode with a fixed gas limit.
pub struct EvmExecutor {
    pub gas_limit: u64,
}

impl EvmExecutor {
    pub fn new(gas_limit: u64) -> (r: EvmExecutor)
        ensures
            r.gas_limit == gas_limit,
    {
        EvmExecutor { gas_limit }
    }

    /// Runs `bytecode` in a fresh frame with this executor's gas limit and the given call value.
    /// With `verbose`, the result also holds one trace entry per executed instruction.
    pub fn execute(&self, bytecode: &[u8], value: u64, verbose: bool) -> (r: Result<
        ExecutionResult,
        VmError,
    >)
        ensures
            r is Ok,
            r.unwrap().gas_used <= self.gas_limit,
            r.unwrap().gas_used + r.unwrap().gas_remaining == self.gas_limit,
            r.unwrap().steps <= MAX_STEPS,
            verbose ==> r.unwrap().trace@.len() == r.unwrap().steps,
            !verbose ==> r.unwrap().trace@.len() == 0,
            exists|s0: EvmState, f: EvmState|
                fresh_frame(s0, self.gas_limit, Word { l0: value, l1: 0, l2: 0, l3: 0 }) && #[trigger] runs(bytecode@, s0, f, r.unwrap().steps as nat)
                    && status_of(r.unwrap().status, f.error, f.reverted) && r.unwrap().gas_remaining == f.gas
                    && r.unwrap().return_data@ == f.return_data@ && same_logs(r.unwrap().logs@, f.logs@),
    {
        let mut state = EvmState::new(self.gas_limit, Word::from_u64(value));
        let ghost s0 = state;
        let r = self.execute_bytecode(bytecode, &mut state, verbose);
        assert(fresh_frame(s0, self.gas_limit, Word { l0: value, l1: 0, l2: 0, l3: 0 }));
        Ok(r)
    }

    /// Runs `bytecode` on a frame that the caller prepared, until it halts, reverts, fails,
    /// runs off the end of the code or reaches the step ceiling.
    pub fn execute_bytecode(&self, bytecode: &[u8], state: &mut EvmState, verbose: bool) -> (r:
        ExecutionResult)
        requires
            old(state).wf(),
        ensures
            final(state).wf(),
            final(state).stack@.len() <= MAX_STACK_SIZE,
            r.gas_remaining == final(state).gas,
            r.gas_used + r.gas_remaining == old(state).gas,
            r.steps <= MAX_STEPS,
            verbose ==> r.trace@.len() == r.steps,
            !verbose ==> r.trace@.len() == 0,
            status_of(r.status, final(state).error, final(state).reverted),
            r.return_data@ == final(state).return_data@,
            same_logs(r.logs@, final(state).logs@),
            runs(bytecode@, *old(state), *final(state), r.steps as nat),
            old(state).error is None && final(state).error is None ==> final(state).halted
                || final(state).reverted || final(state).pc >= bytecode@.len(),
            old(state).error is None && final(state).error == Some(
                VmError::ExecutionLimitExceeded,
            ) ==> r.steps == MAX_STEPS,
    {
        let initial_gas = state.gas;
        let mut steps: usize = 0;
        let mut trace: Vec<TraceStep> = Vec::new();
        let code_len = bytecode.len();
        let ghost mut frames: Seq<EvmState> = seq![*state];
        let ghost mut rs: Seq<Result<(), VmError>> = Seq::empty();
        while state.pc < code_len && !state.halted && !state.reverted && state.error.is_none()
            invariant_except_break
                frames.len() == steps + 1,
                rs.len() == steps,
                frames[0] == *old(state),
                frames[steps as int] == *state,
                forall|i: int|
                    0 <= i < steps ==> running(#[trigger] frames[i], bytecode@) && step_effect(
                        frames[i],
                        frames[i + 1],
                        bytecode@,
                        rs[i],
                    ),
                forall|i: int| 0 <= i < steps ==> (#[trigger] rs[i]) is Ok,
            invariant
                state.wf(),
                code_len == bytecode@.len(),
                state.gas <= initial_gas,
                initial_gas == old(state).gas,
                steps <= MAX_STEPS,
                verbose ==> trace@.len() == steps,
                !verbose ==> trace@.len() == 0,
                old(state).error is None && state.error == Some(VmError::ExecutionLimitExceeded)
                    ==> steps == MAX_STEPS,
                old(state).error is Some ==> state.error == old(state).error,
            ensures
                state.error is Some || state.pc >= code_len || state.halted || state.reverted,
                run_trace(bytecode@, *old(state), *state, frames, rs, steps as nat),
            decreases MAX_STEPS - steps,
        {
            if steps >= MAX_STEPS {
                let ghost before = *state;
                state.error = Some(VmError::ExecutionLimitExceeded);
                assert(*state == with_error(before, VmError::ExecutionLimitExceeded));
                break;
            }
            if verbose {
                trace.push(
                    TraceStep {
                        pc: state.pc,
                        gas: state.gas,
                        opcode: bytecode[state.pc],
                        stack_size: state.stack.len(),
                    },
                );
            }
            steps = steps + 1;
            let ghost pre = *state;
            let res = step(state, bytecode);
            proof {
                assert(running(pre, bytecode@));
                frames = frames.push(*state);
                rs = rs.push(res);
            }
            match res {
                Ok(()) => {},
                Err(e) => {
                    let ghost after = *state;
                    state.error = Some(e);
                    assert(*state == with_error(after, e));
                    break;
                },
            }
        }
        proof {
            assert(run_trace(bytecode@, *old(state), *state, frames, rs, steps as nat));
        }
        let status = match state.error {
            Some(VmError::OutOfGas) => ExecutionStatus::OutOfGas,
            Some(e) => ExecutionStatus::Error(e.message()),
            None => if state.reverted {
                ExecutionStatus::Revert(String::from_str("Execution reverted"))
            } else {
                ExecutionStatus::Success
            },
        };
        ExecutionResult {
            status,
            gas_used: initial_gas - state.gas,
            gas_remaining: state.gas,
            return_data: copy_bytes(&state.return_data),
            logs: copy_logs(&state.logs),
            steps,
            trace,
        }
    }
}

/// Storing zero at a key erases it: afterwards the key is absent and reads back as zero.
pub proof fn lemma_sstore_zero_erases(before: Seq<(Word, Word)>, after: Seq<(Word, Word)>, key: Word)
    requires
        storage_map(after) == storage_map(before).remove(key),
    ensures
        !storage_map(after).contains_key(key),
        storage_value(after, key) == 0,
{
}

/// A word stored at `offset` reads back, as 32 big-endian bytes at the same offset, as itself;
/// the read grows memory no further.
pub proof fn lemma_mstore_mload_round_trip(mem: Seq<u8>, offset: nat, v: Word)
    ensures
        ({
            let after = stored(mem, offset, be_bytes(v.val(), 32));
            &&& grown(after, offset + 32) == after
            &&& be_value(after.subrange(offset as int, offset + 32int)) == v.val()
        }),
{
    let data = be_bytes(v.val(), 32);
    lemma_be_bytes_len(v.val(), 32);
    lemma_val_bound(v);
    lemma_be_exact(v.val(), 32);
    let after = stored(mem, offset, data);
    assert(after.subrange(offset as int, offset + 32int) =~= data);
}

} // verus!
