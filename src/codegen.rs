//! Lowers the syntax tree to bytecode, patching forward jumps at the end.

use vstd::prelude::*;
use vstd::string::*;
use crate::word::{
    Word, be_bytes, be_value, pow256, word_lt, word_to_be, lemma_be_suffix, lemma_be_bytes_len,
    lemma_be_exact, lemma_val_bound,
};
use crate::opcodes::{OpCode, opcode_byte};
use crate::interpreter::valid_jump;
use crate::evm::copy_bytes;
use crate::lexer::{string_is, string_is_str, strings_equal, message_with_name, quoted_message, str_chars};
use crate::ast::{
    Program, Statement, Expression, Block, BinaryOperator, UnaryOperator, LiteralExpr, VarDecl,
    FuncDecl, IfStmt, WhileStmt, ReturnStmt, BinaryExpr, UnaryExpr, CallExpr, AssignmentExpr,
    VariableExpr, MemberAccessExpr, StorageAccessExpr, MemoryAccessExpr, ArrayAccessExpr,
    MemoryAssignmentExpr, StorageArrayAssignmentExpr,
};

verus! {

/// A reserved PUSH2 placeholder whose target label is not yet known.
#[derive(Debug, Clone, Copy, PartialEq, Eq, Structural)]
pub struct PendingJump {
    pub push_opcode_pos: usize,
    pub data_start_pos: usize,
    pub label: usize,
}

/// A semantic failure of code generation.
#[derive(Debug)]
pub struct CompileError {
    pub message: String,
}

/// The immediate width that a PUSH of `v` uses: the fewest bytes up to four, else 32.
pub open spec fn push_width(v: nat) -> nat {
    if v < pow256(1) {
        1
    } else if v < pow256(2) {
        2
    } else if v < pow256(3) {
        3
    } else if v < pow256(4) {
        4
    } else {
        32
    }
}

/// The bytes that push `v`: the PUSHn opcode, then `v` big-endian in `n` bytes.
pub open spec fn push_code(v: nat) -> Seq<u8> {
    seq![(0x5f + push_width(v)) as u8] + be_bytes(v, push_width(v))
}

/// The bytes that follow both operands of a binary operator.
pub open spec fn operator_code(op: BinaryOperator) -> Seq<u8> {
    match op {
        BinaryOperator::Add => seq![0x01u8],
        BinaryOperator::Subtract => seq![0x03u8],
        BinaryOperator::Multiply => seq![0x02u8],
        BinaryOperator::Divide => seq![0x04u8],
        BinaryOperator::Modulo => seq![0x06u8],
        BinaryOperator::Equal => seq![0x14u8],
        BinaryOperator::NotEqual => seq![0x14u8, 0x15u8],
        BinaryOperator::Greater => seq![0x11u8],
        BinaryOperator::GreaterEqual => seq![0x10u8, 0x15u8],
        BinaryOperator::Less => seq![0x10u8],
        BinaryOperator::LessEqual => seq![0x11u8, 0x15u8],
        BinaryOperator::And => seq![0x16u8] + push_code(0) + seq![0x11u8],
        BinaryOperator::Or => seq![0x17u8] + push_code(0) + seq![0x11u8],
    }
}

/// The code of an expression built from number and boolean literals with unary and binary
/// operators; such code depends on nothing but the expression. `None` for any other form.
pub open spec fn pure_code(e: Expression) -> Option<Seq<u8>>
    decreases e,
{
    match e {
        Expression::Literal(LiteralExpr::Number(n)) => Some(push_code(n as nat)),
        Expression::Literal(LiteralExpr::Boolean(b)) => Some(push_code(if b { 1 } else { 0 })),
        Expression::Binary(b) => match (pure_code(*b.left), pure_code(*b.right)) {
            (Some(l), Some(r)) => Some(l + r + operator_code(b.operator)),
            _ => None,
        },
        Expression::Unary(u) => match pure_code(*u.operand) {
            Some(c) => match u.operator {
                UnaryOperator::Minus => Some(push_code(0) + c + seq![0x03u8]),
                UnaryOperator::Not => Some(c + seq![0x15u8]),
            },
            None => None,
        },
        _ => None,
    }
}

/// Position `p` lies in none of the first `i` placeholders.
pub open spec fn outside_jumps(jumps: Seq<PendingJump>, i: int, p: int) -> bool {
    forall|k: int|
        0 <= k < i ==> !(#[trigger] jumps[k].push_opcode_pos <= p <= jumps[k].push_opcode_pos + 2)
}

/// The tail of a `return`: store the value at offset 0, then return those 32 bytes.
pub open spec fn return_code() -> Seq<u8> {
    push_code(0) + seq![0x52u8] + push_code(32) + push_code(0) + seq![0xf3u8]
}

/// The code of `return e;` for an expression `e` of literals and operators: the value's code,
/// then the return tail. `None` for any other statement.
pub open spec fn return_of_pure(s: Statement) -> Option<Seq<u8>> {
    match s {
        Statement::ReturnStmt(r) => match r.value {
            Some(e) => match pure_code(e) {
                Some(c) => Some(c + return_code()),
                None => None,
            },
            None => None,
        },
        _ => None,
    }
}

/// The code of a statement whose code depends only on the statement and the next free
/// variable slot: `return e;` and `let x = e;` for an expression `e` of literals and
/// operators. A declaration stores a copy of the value in the slot.
pub open spec fn simple_code(s: Statement, slot: u16) -> Option<Seq<u8>> {
    match s {
        Statement::VarDecl(v) => match pure_code(v.initializer) {
            Some(c) => if slot < u16::MAX {
                Some(c + seq![0x80u8] + push_code(slot as nat) + seq![0x55u8])
            } else {
                None
            },
            None => None,
        },
        _ => return_of_pure(s),
    }
}

/// The number of words an opcode pops and pushes, for the opcodes the generator emits.
pub open spec fn stack_effect_of(op: OpCode) -> (u16, u16) {
    match op {
        OpCode::ADD | OpCode::SUB | OpCode::MUL | OpCode::DIV | OpCode::MOD | OpCode::EQ
        | OpCode::LT | OpCode::GT | OpCode::AND | OpCode::OR | OpCode::SHA3 => (2, 1),
        OpCode::ISZERO | OpCode::MLOAD | OpCode::SLOAD => (1, 1),
        OpCode::POP | OpCode::JUMP => (1, 0),
        OpCode::MSTORE | OpCode::MSTORE8 | OpCode::SSTORE | OpCode::JUMPI | OpCode::RETURN
        | OpCode::LOG0 => (2, 0),
        OpCode::LOG1 => (3, 0),
        OpCode::DUP1 => (1, 2),
        _ => (0, 0),
    }
}

/// The audit depth after popping `pops` and pushing `pushes`: it saturates at both ends.
pub open spec fn depth_after(d: u16, pops: u16, pushes: u16) -> u16 {
    let down: int = if d >= pops { d - pops } else { 0 };
    if down + pushes <= u16::MAX { (down + pushes) as u16 } else { u16::MAX }
}

fn stack_effect(op: &OpCode) -> (r: (u16, u16))
    ensures
        r == stack_effect_of(*op),
{
    match op {
        OpCode::ADD | OpCode::SUB | OpCode::MUL | OpCode::DIV | OpCode::MOD | OpCode::EQ
        | OpCode::LT | OpCode::GT | OpCode::AND | OpCode::OR | OpCode::SHA3 => (2, 1),
        OpCode::ISZERO | OpCode::MLOAD | OpCode::SLOAD => (1, 1),
        OpCode::POP | OpCode::JUMP => (1, 0),
        OpCode::MSTORE | OpCode::MSTORE8 | OpCode::SSTORE | OpCode::JUMPI | OpCode::RETURN
        | OpCode::LOG0 => (2, 0),
        OpCode::LOG1 => (3, 0),
        OpCode::DUP1 => (1, 2),
        _ => (0, 0),
    }
}

/// The slot recorded for `name`, if any.
fn lookup_slot(table: &Vec<(String, u16)>, name: &String) -> (r: Option<u16>)
    ensures
        r is Some ==> exists|i: int| 0 <= i < table@.len() && (#[trigger] table@[i]).0@ == name@ && table@[i].1 == r.unwrap(),
        r is None ==> forall|i: int| 0 <= i < table@.len() ==> (#[trigger] table@[i]).0@ != name@,
{
    let mut i: usize = 0;
    while i < table.len()
        invariant
            i <= table@.len(),
            forall|k: int| 0 <= k < i ==> (#[trigger] table@[k]).0@ != name@,
        decreases table@.len() - i,
    {
        if strings_equal(&table[i].0, name) {
            return Some(table[i].1);
        }
        i = i + 1;
    }
    None
}

/// Records `slot` for `name`, replacing an earlier entry for the same name.
fn set_slot(table: &mut Vec<(String, u16)>, name: String, slot: u16)
    ensures
        exists|i: int| 0 <= i < final(table)@.len() && (#[trigger] final(table)@[i]).0@ == name@ && final(table)@[i].1 == slot,
{
    let mut i: usize = 0;
    while i < table.len()
        invariant
            i <= table@.len(),
        decreases table@.len() - i,
    {
        if strings_equal(&table[i].0, &name) {
            let ghost v = name@;
            table.set(i, (name, slot));
            assert(table@[i as int].0@ == v);
            return;
        }
        i = i + 1;
    }
    let ghost v = name@;
    table.push((name, slot));
    assert(table@[table@.len() - 1].0@ == v);
}

/// The ASCII decimal digits of `n`, most significant first.
pub(crate) fn decimal_digits(n: u64) -> (r: Vec<u8>)
    ensures
        r@.len() >= 1,
        forall|i: int| 0 <= i < r@.len() ==> 0x30 <= #[trigger] r@[i] <= 0x39,
{
    let mut rev: Vec<u8> = Vec::new();
    let mut m: u64 = n;
    loop
        invariant
            forall|i: int| 0 <= i < rev@.len() ==> 0x30 <= #[trigger] rev@[i] <= 0x39,
        ensures
            rev@.len() >= 1,
            forall|i: int| 0 <= i < rev@.len() ==> 0x30 <= #[trigger] rev@[i] <= 0x39,
        decreases m,
    {
        rev.push((0x30 + m % 10) as u8);
        m = m / 10;
        if m == 0 {
            break;
        }
    }
    let mut out: Vec<u8> = Vec::new();
    let mut j: usize = rev.len();
    while j > 0
        invariant
            j <= rev@.len(),
            out@.len() == rev@.len() - j,
            forall|i: int| 0 <= i < rev@.len() ==> 0x30 <= #[trigger] rev@[i] <= 0x39,
            forall|i: int| 0 <= i < out@.len() ==> 0x30 <= #[trigger] out@[i] <= 0x39,
        decreases j,
    {
        j = j - 1;
        out.push(rev[j]);
    }
    out
}

fn gen_error(message: &str) -> (r: CompileError)
    ensures
        r.message@ == message@,
{
    CompileError { message: String::from_str(message) }
}

/// The code generator's state: the bytecode so far and its tables.
pub struct CodeGenerator {
    pub bytecode: Vec<u8>,
    pub variables: Vec<(String, u16)>,
    pub functions: Vec<(String, u16)>,
    pub stack_depth: u16,
    pub next_var_slot: u16,
    pub jump_labels: Vec<Option<usize>>,
    pub memory_pointer: u16,
    pub pending_jumps: Vec<PendingJump>,
}

impl CodeGenerator {
    /// Reserved placeholders are zero bytes in order, and every placed label marks a JUMPDEST.
    pub open spec fn wf(&self) -> bool {
        let code = self.bytecode@;
        let jumps = self.pending_jumps@;
        &&& forall|i: int|
            #![trigger jumps[i]]
            0 <= i < jumps.len() ==> {
                let j = jumps[i];
                &&& j.data_start_pos == j.push_opcode_pos + 1
                &&& j.push_opcode_pos + 3 < code.len()
                &&& j.label < self.jump_labels@.len()
                &&& code[j.push_opcode_pos as int] == 0
                &&& code[j.push_opcode_pos + 1] == 0
                &&& code[j.push_opcode_pos + 2] == 0
                &&& (code[j.push_opcode_pos + 3] == 0x56 || code[j.push_opcode_pos + 3] == 0x57)
            }
        &&& forall|i: int, k: int|
            0 <= i < k < jumps.len() ==> #[trigger] jumps[i].push_opcode_pos + 4 <= #[trigger] jumps[k].push_opcode_pos
        &&& self.labels_marked()
    }

    /// Every placed label is the offset of a JUMPDEST byte.
    pub open spec fn labels_marked(&self) -> bool {
        forall|l: int|
            #![trigger self.jump_labels@[l]]
            0 <= l < self.jump_labels@.len() && self.jump_labels@[l] is Some ==> {
                let o = self.jump_labels@[l].unwrap();
                o < self.bytecode@.len() && self.bytecode@[o as int] == 0x5b
            }
    }

    /// Every reserved jump now pushes, as PUSH2, the offset of its label, a JUMPDEST.
    pub open spec fn jumps_resolved(&self) -> bool {
        let code = self.bytecode@;
        forall|i: int|
            #![trigger self.pending_jumps@[i]]
            0 <= i < self.pending_jumps@.len() ==> {
                let j = self.pending_jumps@[i];
                let target = self.jump_labels@[j.label as int];
                &&& j.push_opcode_pos + 3 < code.len()
                &&& code[j.push_opcode_pos as int] == 0x61
                &&& (code[j.push_opcode_pos + 3] == 0x56 || code[j.push_opcode_pos + 3] == 0x57)
                &&& j.label < self.jump_labels@.len()
                &&& target is Some
                &&& target.unwrap() == code[j.push_opcode_pos + 1] as nat * 256 + code[j.push_opcode_pos + 2] as nat
                &&& valid_jump(code, target.unwrap() as nat)
            }
    }

    /// Code and tables only grew since `old`: bytes and reserved jumps already there are kept.
    pub open spec fn grows_from(&self, old: CodeGenerator) -> bool {
        &&& old.bytecode@.len() <= self.bytecode@.len()
        &&& forall|i: int| 0 <= i < old.bytecode@.len() ==> #[trigger] self.bytecode@[i] == old.bytecode@[i]
        &&& old.pending_jumps@.len() <= self.pending_jumps@.len()
        &&& forall|i: int|
            0 <= i < old.pending_jumps@.len() ==> #[trigger] self.pending_jumps@[i] == old.pending_jumps@[i]
        &&& old.jump_labels@.len() <= self.jump_labels@.len()
    }

    /// A generator with empty code and tables; scratch memory starts at 0x80.
    pub fn new() -> (r: CodeGenerator)
        ensures
            r.wf(),
            r.bytecode@.len() == 0,
            r.pending_jumps@.len() == 0,
            r.jump_labels@.len() == 0,
            r.memory_pointer == 0x80,
            r.variables@.len() == 0,
            r.functions@.len() == 0,
            r.stack_depth == 0,
            r.next_var_slot == 0,
    {
        CodeGenerator {
            bytecode: Vec::new(),
            variables: Vec::new(),
            functions: Vec::new(),
            stack_depth: 0,
            next_var_slot: 0,
            jump_labels: Vec::new(),
            memory_pointer: 0x80,
            pending_jumps: Vec::new(),
        }
    }

    fn adjust_depth(&mut self, pops: u16, pushes: u16)
        ensures
            *final(self) == (CodeGenerator { stack_depth: depth_after(old(self).stack_depth, pops, pushes), ..*old(self) }),
            final(self).bytecode@ == old(self).bytecode@,
            final(self).pending_jumps@ == old(self).pending_jumps@ && final(self).next_var_slot == old(self).next_var_slot,
            final(self).jump_labels@ == old(self).jump_labels@,
            final(self).memory_pointer == old(self).memory_pointer,
    {
        let d = if self.stack_depth >= pops { self.stack_depth - pops } else { 0 };
        self.stack_depth = if d <= u16::MAX - pushes { d + pushes } else { u16::MAX };
    }

    /// Appends one raw byte.
    fn emit_byte(&mut self, b: u8)
        requires
            old(self).wf(),
        ensures
            final(self).wf(),
            final(self).bytecode@ == old(self).bytecode@.push(b),
            *final(self) == (CodeGenerator { bytecode: final(self).bytecode, ..*old(self) }),
            final(self).pending_jumps@ == old(self).pending_jumps@ && final(self).next_var_slot == old(self).next_var_slot,
            final(self).jump_labels@ == old(self).jump_labels@,
            final(self).memory_pointer == old(self).memory_pointer,
    {
        self.bytecode.push(b);
        proof {
            let code = self.bytecode@;
            assert forall|i: int| #![trigger self.pending_jumps@[i]] 0 <= i < self.pending_jumps@.len() implies {
                let j = self.pending_jumps@[i];
                &&& code[j.push_opcode_pos as int] == 0
                &&& code[j.push_opcode_pos + 1] == 0
                &&& code[j.push_opcode_pos + 2] == 0
                &&& code[j.push_opcode_pos + 3] == old(self).bytecode@[j.push_opcode_pos + 3]
            } by {
                let j = self.pending_jumps@[i];
                assert(code[j.push_opcode_pos as int] == old(self).bytecode@[j.push_opcode_pos as int]);
                assert(code[j.push_opcode_pos + 1] == old(self).bytecode@[j.push_opcode_pos + 1]);
                assert(code[j.push_opcode_pos + 2] == old(self).bytecode@[j.push_opcode_pos + 2]);
            }
            assert forall|l: int| #![trigger self.jump_labels@[l]] 0 <= l < self.jump_labels@.len()
                && self.jump_labels@[l] is Some implies {
                let o = self.jump_labels@[l].unwrap();
                o < code.len() && code[o as int] == 0x5b
            } by {
                let o = self.jump_labels@[l].unwrap();
                assert(code[o as int] == old(self).bytecode@[o as int]);
            }
        }
    }

    /// Appends one opcode.
    pub fn emit_opcode(&mut self, opcode: OpCode)
        requires
            old(self).wf(),
        ensures
            final(self).wf(),
            final(self).bytecode@ == old(self).bytecode@.push(opcode_byte(opcode)),
            final(self).pending_jumps@ == old(self).pending_jumps@ && final(self).next_var_slot == old(self).next_var_slot,
            final(self).jump_labels@ == old(self).jump_labels@,
            final(self).memory_pointer == old(self).memory_pointer,
            final(self).variables@ == old(self).variables@,
            final(self).functions@ == old(self).functions@,
            final(self).next_var_slot == old(self).next_var_slot,
            final(self).stack_depth == depth_after(
                old(self).stack_depth,
                stack_effect_of(opcode).0,
                stack_effect_of(opcode).1,
            ),
    {
        self.emit_byte(opcode.to_byte());
        let (pops, pushes) = stack_effect(&opcode);
        self.adjust_depth(pops, pushes);
    }

    /// Appends the narrowest PUSH of `value` (PUSH1 to PUSH4, else PUSH32).
    fn emit_push_u256(&mut self, value: Word)
        requires
            old(self).wf(),
        ensures
            final(self).wf(),
            final(self).bytecode@ == old(self).bytecode@ + push_code(value.val()),
            final(self).pending_jumps@ == old(self).pending_jumps@ && final(self).next_var_slot == old(self).next_var_slot,
            final(self).jump_labels@ == old(self).jump_labels@,
            final(self).memory_pointer == old(self).memory_pointer,
            final(self).next_var_slot == old(self).next_var_slot,
    {
        proof {
            reveal_with_fuel(pow256, 5);
        }
        let width: usize = if word_lt(value, Word::from_u64(0x100)) {
            1
        } else if word_lt(value, Word::from_u64(0x1_0000)) {
            2
        } else if word_lt(value, Word::from_u64(0x100_0000)) {
            3
        } else if word_lt(value, Word::from_u64(0x1_0000_0000)) {
            4
        } else {
            32
        };
        assert(width == push_width(value.val()));
        let bytes = word_to_be(value);
        proof {
            lemma_be_bytes_len(value.val(), 32);
            lemma_be_suffix(value.val(), 32, width as nat);
        }
        let ghost start = self.bytecode@;
        self.emit_byte((0x5f + width) as u8);
        let mut i: usize = 32 - width;
        while i < 32
            invariant
                self.wf(),
                1 <= width <= 32,
                32 - width <= i <= 32,
                bytes@.len() == 32,
                self.bytecode@ == start.push((0x5f + width) as u8) + bytes@.subrange(32 - width, i as int),
                self.pending_jumps@ == old(self).pending_jumps@,
                self.jump_labels@ == old(self).jump_labels@,
                self.memory_pointer == old(self).memory_pointer,
                self.next_var_slot == old(self).next_var_slot,
            decreases 32 - i,
        {
            self.emit_byte(bytes[i]);
            i = i + 1;
            assert(self.bytecode@ =~= start.push((0x5f + width) as u8) + bytes@.subrange(32 - width, i as int));
        }
        assert(self.bytecode@ =~= old(self).bytecode@ + push_code(value.val()));
        self.adjust_depth(0, 1);
    }

    /// A fresh, unplaced label.
    fn generate_label(&mut self) -> (r: usize)
        requires
            old(self).wf(),
        ensures
            final(self).wf(),
            final(self).grows_from(*old(self)),
            r < final(self).jump_labels@.len(),
            final(self).bytecode@ == old(self).bytecode@,
            final(self).memory_pointer == old(self).memory_pointer,
    {
        let id = self.jump_labels.len();
        self.jump_labels.push(None);
        proof {
            assert forall|l: int| #![trigger self.jump_labels@[l]] 0 <= l < self.jump_labels@.len()
                && self.jump_labels@[l] is Some implies {
                let o = self.jump_labels@[l].unwrap();
                o < self.bytecode@.len() && self.bytecode@[o as int] == 0x5b
            } by {
                assert(l < id);
                assert(self.jump_labels@[l] == old(self).jump_labels@[l]);
            }
        }
        id
    }

    /// Records the current offset for `label` and emits a JUMPDEST there.
    fn place_label(&mut self, label: usize)
        requires
            old(self).wf(),
            label < old(self).jump_labels@.len(),
        ensures
            final(self).wf(),
            final(self).grows_from(*old(self)),
            final(self).bytecode@ == old(self).bytecode@.push(0x5b),
            final(self).jump_labels@ == old(self).jump_labels@.update(
                label as int,
                Some(old(self).bytecode@.len() as usize),
            ),
            final(self).memory_pointer == old(self).memory_pointer,
    {
        let here = self.bytecode.len();
        self.emit_opcode(OpCode::JUMPDEST);
        self.jump_labels.set(label, Some(here));
        proof {
            assert forall|l: int| #![trigger self.jump_labels@[l]] 0 <= l < self.jump_labels@.len()
                && self.jump_labels@[l] is Some implies {
                let o = self.jump_labels@[l].unwrap();
                o < self.bytecode@.len() && self.bytecode@[o as int] == 0x5b
            } by {
                if l != label {
                    assert(self.jump_labels@[l] == old(self).jump_labels@[l]);
                    let o = self.jump_labels@[l].unwrap();
                    assert(self.bytecode@[o as int] == old(self).bytecode@[o as int]);
                }
            }
        }
    }

    /// Reserves a PUSH2 placeholder for `label`, followed by `jump_op`.
    fn emit_jump_to(&mut self, label: usize, jump_op: OpCode)
        requires
            old(self).wf(),
            label < old(self).jump_labels@.len(),
            jump_op is JUMP || jump_op is JUMPI,
        ensures
            final(self).wf(),
            final(self).grows_from(*old(self)),
            final(self).bytecode@ == old(self).bytecode@ + seq![0u8, 0u8, 0u8, opcode_byte(jump_op)],
            final(self).pending_jumps@.len() == old(self).pending_jumps@.len() + 1,
            final(self).pending_jumps@.last() == (PendingJump {
                push_opcode_pos: old(self).bytecode@.len() as usize,
                data_start_pos: (old(self).bytecode@.len() + 1) as usize,
                label,
            }),
            final(self).jump_labels@ == old(self).jump_labels@,
            final(self).memory_pointer == old(self).memory_pointer,
    {
        let pos = self.bytecode.len();
        self.emit_byte(0);
        self.emit_byte(0);
        self.emit_byte(0);
        self.adjust_depth(0, 1);
        self.emit_opcode(jump_op);
        let ghost mid = self.bytecode@;
        assert(mid =~= old(self).bytecode@ + seq![0u8, 0u8, 0u8, opcode_byte(jump_op)]);
        let _now = self.bytecode.len();
        self.pending_jumps.push(PendingJump { push_opcode_pos: pos, data_start_pos: pos + 1, label });
        proof {
            let jumps = self.pending_jumps@;
            assert forall|i: int, k: int| 0 <= i < k < jumps.len() implies #[trigger] jumps[i].push_opcode_pos + 4
                <= #[trigger] jumps[k].push_opcode_pos by {
                if k == jumps.len() - 1 {
                    assert(jumps[i] == old(self).pending_jumps@[i]);
                } else {
                    assert(jumps[i] == old(self).pending_jumps@[i]);
                    assert(jumps[k] == old(self).pending_jumps@[k]);
                }
            }
            assert forall|i: int| #![trigger jumps[i]] 0 <= i < jumps.len() implies {
                let j = jumps[i];
                &&& j.data_start_pos == j.push_opcode_pos + 1
                &&& j.push_opcode_pos + 3 < mid.len()
                &&& j.label < self.jump_labels@.len()
                &&& mid[j.push_opcode_pos as int] == 0
                &&& mid[j.push_opcode_pos + 1] == 0
                &&& mid[j.push_opcode_pos + 2] == 0
                &&& (mid[j.push_opcode_pos + 3] == 0x56 || mid[j.push_opcode_pos + 3] == 0x57)
            } by {
                if i < jumps.len() - 1 {
                    assert(jumps[i] == old(self).pending_jumps@[i]);
                    assert(mid[jumps[i].push_opcode_pos + 3] == old(self).bytecode@[jumps[i].push_opcode_pos + 3]);
                }
            }
        }
    }

    /// An unconditional jump to `label`, patched at the end.
    fn emit_jump(&mut self, label: usize)
        requires
            old(self).wf(),
            label < old(self).jump_labels@.len(),
        ensures
            final(self).wf(),
            final(self).grows_from(*old(self)),
            final(self).bytecode@ == old(self).bytecode@ + seq![0u8, 0u8, 0u8, 0x56u8],
            final(self).pending_jumps@.last() == (PendingJump {
                push_opcode_pos: old(self).bytecode@.len() as usize,
                data_start_pos: (old(self).bytecode@.len() + 1) as usize,
                label,
            }),
            final(self).jump_labels@ == old(self).jump_labels@,
            final(self).memory_pointer == old(self).memory_pointer,
    {
        self.emit_jump_to(label, OpCode::JUMP);
    }

    /// A conditional jump to `label`, patched at the end.
    fn emit_jump_if(&mut self, label: usize)
        requires
            old(self).wf(),
            label < old(self).jump_labels@.len(),
        ensures
            final(self).wf(),
            final(self).grows_from(*old(self)),
            final(self).bytecode@ == old(self).bytecode@ + seq![0u8, 0u8, 0u8, 0x57u8],
            final(self).pending_jumps@.last() == (PendingJump {
                push_opcode_pos: old(self).bytecode@.len() as usize,
                data_start_pos: (old(self).bytecode@.len() + 1) as usize,
                label,
            }),
            final(self).jump_labels@ == old(self).jump_labels@,
            final(self).memory_pointer == old(self).memory_pointer,
    {
        self.emit_jump_to(label, OpCode::JUMPI);
    }
    /// Overwrites each reserved placeholder with PUSH2 and the offset of its label.
    /// Fails where a label was never placed or lies beyond what two bytes address.
    fn fixup_jumps(&mut self) -> (r: Result<(), CompileError>)
        requires
            old(self).wf(),
        ensures
            final(self).bytecode@.len() == old(self).bytecode@.len(),
            final(self).pending_jumps@ == old(self).pending_jumps@,
            final(self).jump_labels@ == old(self).jump_labels@,
            final(self).labels_marked(),
            r is Ok ==> final(self).jumps_resolved(),
            old(self).pending_jumps@.len() == 0 ==> r is Ok && final(self).bytecode@ == old(self).bytecode@,
            (forall|i: int|
                #![trigger old(self).pending_jumps@[i]]
                0 <= i < old(self).pending_jumps@.len() ==> {
                    let t = old(self).jump_labels@[old(self).pending_jumps@[i].label as int];
                    t is Some && t.unwrap() <= 0xffff
                }) ==> r is Ok,
    {
        let ghost code0 = self.bytecode@;
        let ghost jumps = self.pending_jumps@;
        let mut i: usize = 0;
        while i < self.pending_jumps.len()
            invariant
                old(self).wf(),
                code0 == old(self).bytecode@,
                jumps == old(self).pending_jumps@,
                i <= jumps.len(),
                self.pending_jumps@ == jumps,
                self.jump_labels@ == old(self).jump_labels@,
                self.bytecode@.len() == code0.len(),
                forall|p: int|
                    0 <= p < code0.len() && outside_jumps(jumps, (i) as int, p)
                        ==> #[trigger] self.bytecode@[p] == code0[p],
                forall|k: int|
                    #![trigger jumps[k]]
                    0 <= k < i ==> {
                        let j = jumps[k];
                        let target = self.jump_labels@[j.label as int];
                        &&& target is Some
                        &&& target.unwrap() <= 0xffff
                        &&& self.bytecode@[j.push_opcode_pos as int] == 0x61
                        &&& target.unwrap() == self.bytecode@[j.push_opcode_pos + 1] as nat * 256
                            + self.bytecode@[j.push_opcode_pos + 2] as nat
                    },
            decreases jumps.len() - i,
        {
            let j = self.pending_jumps[i];
            assert(jumps[i as int] == j);
            assert(old(self).pending_jumps@[i as int] == j);
            assert(j.data_start_pos == j.push_opcode_pos + 1 && j.push_opcode_pos + 2 < code0.len()
                && j.label < self.jump_labels@.len());
            match self.jump_labels[j.label] {
                Some(target) => {
                    if target > 0xffff {
                        proof {
                            self.lemma_labels_kept(code0, jumps, i as int);
                        }
                        return Err(CompileError { message: String::from_str("Jump target out of range") });
                    }
                    let ghost before = self.bytecode@;
                    let _n = self.bytecode.len();
                    self.bytecode.set(j.push_opcode_pos, 0x61);
                    self.bytecode.set(j.data_start_pos, (target / 256) as u8);
                    self.bytecode.set(j.data_start_pos + 1, (target % 256) as u8);
                    proof {
                        assert forall|k: int| #![trigger jumps[k]] 0 <= k < i implies {
                            let jk = jumps[k];
                            &&& self.bytecode@[jk.push_opcode_pos as int] == before[jk.push_opcode_pos as int]
                            &&& self.bytecode@[jk.push_opcode_pos + 1] == before[jk.push_opcode_pos + 1]
                            &&& self.bytecode@[jk.push_opcode_pos + 2] == before[jk.push_opcode_pos + 2]
                        } by {
                            assert(jumps[k].push_opcode_pos + 3 <= jumps[i as int].push_opcode_pos);
                        }
                        assert forall|p: int|
                            0 <= p < code0.len() && outside_jumps(jumps, (i + 1) as int, p)
                                implies #[trigger] self.bytecode@[p] == code0[p] by {
                            assert(!(jumps[i as int].push_opcode_pos <= p <= jumps[i as int].push_opcode_pos + 2));
                            assert forall|k: int| 0 <= k < i implies !(#[trigger] jumps[k].push_opcode_pos <= p
                                <= jumps[k].push_opcode_pos + 2) by {
                                assert(0 <= k < i + 1);
                            }
                        }
                    }
                },
                None => {
                    proof {
                        self.lemma_labels_kept(code0, jumps, i as int);
                    }
                    return Err(CompileError { message: String::from_str("Undefined jump label") });
                },
            }
            i = i + 1;
        }
        proof {
            self.lemma_labels_kept(code0, jumps, i as int);
            if jumps.len() == 0 {
                assert forall|p: int| 0 <= p < code0.len() implies #[trigger] self.bytecode@[p] == code0[p] by {
                    assert(outside_jumps(jumps, i as int, p));
                }
                assert(self.bytecode@ =~= code0);
            }
            let code = self.bytecode@;
            assert forall|k: int| #![trigger self.pending_jumps@[k]] 0 <= k < self.pending_jumps@.len() implies {
                let j = self.pending_jumps@[k];
                let target = self.jump_labels@[j.label as int];
                &&& j.push_opcode_pos + 3 < code.len()
                &&& code[j.push_opcode_pos as int] == 0x61
                &&& (code[j.push_opcode_pos + 3] == 0x56 || code[j.push_opcode_pos + 3] == 0x57)
                &&& j.label < self.jump_labels@.len()
                &&& target is Some
                &&& target.unwrap() == code[j.push_opcode_pos + 1] as nat * 256 + code[j.push_opcode_pos + 2] as nat
                &&& valid_jump(code, target.unwrap() as nat)
            } by {
                assert(jumps[k] == self.pending_jumps@[k]);
                let l = jumps[k].label as int;
                assert(self.jump_labels@[l] is Some);
            }
        }
        Ok(())
    }

    /// While patching, label sites keep their JUMPDEST: no placeholder covers one.
    proof fn lemma_labels_kept(&self, code0: Seq<u8>, jumps: Seq<PendingJump>, i: int)
        requires
            0 <= i <= jumps.len(),
            self.bytecode@.len() == code0.len(),
            self.pending_jumps@ == jumps,
            forall|t: int| #![trigger jumps[t]] 0 <= t < jumps.len() ==> {
                let j = jumps[t];
                &&& j.push_opcode_pos + 2 < code0.len()
                &&& code0[j.push_opcode_pos as int] == 0
                &&& code0[j.push_opcode_pos + 1] == 0
                &&& code0[j.push_opcode_pos + 2] == 0
            },
            forall|l: int|
                #![trigger self.jump_labels@[l]]
                0 <= l < self.jump_labels@.len() && self.jump_labels@[l] is Some ==> {
                    let o = self.jump_labels@[l].unwrap();
                    o < code0.len() && code0[o as int] == 0x5b
                },
            forall|p: int|
                0 <= p < code0.len() && outside_jumps(jumps, (i) as int, p)
                    ==> #[trigger] self.bytecode@[p] == code0[p],
        ensures
            self.labels_marked(),
    {
        assert forall|l: int| #![trigger self.jump_labels@[l]] 0 <= l < self.jump_labels@.len()
            && self.jump_labels@[l] is Some implies {
            let o = self.jump_labels@[l].unwrap();
            o < self.bytecode@.len() && self.bytecode@[o as int] == 0x5b
        } by {
            let o = self.jump_labels@[l].unwrap() as int;
            assert forall|k: int| 0 <= k < i implies !(#[trigger] jumps[k].push_opcode_pos <= o
                <= jumps[k].push_opcode_pos + 2) by {
                let j = jumps[k];
                if j.push_opcode_pos <= o <= j.push_opcode_pos + 2 {
                    assert(code0[o] == 0);
                }
            }
        }
    }
}

impl CodeGenerator {
    /// Compiles a whole program; appends STOP unless the code already ends in it.
    /// On success every reserved jump targets a JUMPDEST of the returned code.
    pub fn compile(&mut self, program: &Program) -> (r: Result<Vec<u8>, CompileError>)
        requires
            old(self).wf(),
        ensures
            r is Ok ==> final(self).jumps_resolved(),
            r is Ok ==> r->Ok_0@ == final(self).bytecode@,
            r is Ok ==> r->Ok_0@.len() > 0 && r->Ok_0@.last() == 0,
            old(self).bytecode@.len() == 0 && old(self).pending_jumps@.len() == 0
                && program.statements@.len() == 1 && simple_code(program.statements@[0], old(self).next_var_slot) is Some
                ==> r is Ok && r->Ok_0@ == simple_code(program.statements@[0], old(self).next_var_slot).unwrap().push(0),
    {
        self.visit_program(program)?;
        self.fixup_jumps()?;
        let n = self.bytecode.len();
        if n == 0 || self.bytecode[n - 1] != 0 {
            let ghost before = *self;
            self.bytecode.push(0);
            proof {
                let code = self.bytecode@;
                assert forall|k: int| #![trigger self.pending_jumps@[k]] 0 <= k < self.pending_jumps@.len() implies {
                    let j = self.pending_jumps@[k];
                    let target = self.jump_labels@[j.label as int];
                    &&& j.push_opcode_pos + 3 < code.len()
                    &&& code[j.push_opcode_pos as int] == 0x61
                    &&& (code[j.push_opcode_pos + 3] == 0x56 || code[j.push_opcode_pos + 3] == 0x57)
                    &&& j.label < self.jump_labels@.len()
                    &&& target is Some
                    &&& target.unwrap() == code[j.push_opcode_pos + 1] as nat * 256 + code[j.push_opcode_pos + 2] as nat
                    &&& valid_jump(code, target.unwrap() as nat)
                } by {
                    assert(before.pending_jumps@[k] == self.pending_jumps@[k]);
                    let j = self.pending_jumps@[k];
                    let t = self.jump_labels@[j.label as int].unwrap() as int;
                    assert(code[j.push_opcode_pos as int] == before.bytecode@[j.push_opcode_pos as int]);
                    assert(code[j.push_opcode_pos + 1] == before.bytecode@[j.push_opcode_pos + 1]);
                    assert(code[j.push_opcode_pos + 2] == before.bytecode@[j.push_opcode_pos + 2]);
                    assert(code[t] == before.bytecode@[t]);
                }
            }
        }
        Ok(copy_bytes(&self.bytecode))
    }

    fn visit_program(&mut self, program: &Program) -> (r: Result<(), CompileError>)
        requires
            old(self).wf(),
        ensures
            final(self).wf(),
            final(self).grows_from(*old(self)),
            program.statements@.len() == 1 && simple_code(program.statements@[0], old(self).next_var_slot) is Some ==> r is Ok
                && final(self).bytecode@ == old(self).bytecode@ + simple_code(program.statements@[0], old(self).next_var_slot).unwrap()
                && final(self).pending_jumps@ == old(self).pending_jumps@,
    {
        let mut i: usize = 0;
        while i < program.statements.len()
            invariant
                self.wf(),
                self.grows_from(*old(self)),
                self.bytecode@ == old(self).bytecode@,
                self.pending_jumps@ == old(self).pending_jumps@,
                self.jump_labels@ == old(self).jump_labels@,
                self.next_var_slot == old(self).next_var_slot,
            decreases program.statements@.len() - i,
        {
            if let Statement::FuncDecl(f) = &program.statements[i] {
                let at = self.bytecode.len();
                let offset: u16 = if at <= 0xffff { at as u16 } else { 0xffff };
                set_slot(&mut self.functions, f.name.clone(), offset);
            }
            i = i + 1;
        }
        let ghost first = *self;
        let mut i: usize = 0;
        while i < program.statements.len()
            invariant
                self.wf(),
                self.grows_from(*old(self)),
                i <= program.statements@.len(),
                first.bytecode@ == old(self).bytecode@,
                first.pending_jumps@ == old(self).pending_jumps@,
                program.statements@.len() == 1 && simple_code(program.statements@[0], old(self).next_var_slot) is Some ==> (
                i == 0 ==> self.bytecode@ == old(self).bytecode@ && self.next_var_slot == old(self).next_var_slot && self.pending_jumps@ == old(
                    self,
                ).pending_jumps@) && (i == 1 ==> self.bytecode@ == old(self).bytecode@
                    + simple_code(program.statements@[0], old(self).next_var_slot).unwrap() && self.pending_jumps@ == old(
                    self,
                ).pending_jumps@),
            decreases program.statements@.len() - i,
        {
            self.visit_statement(&program.statements[i])?;
            i = i + 1;
        }
        Ok(())
    }

    fn visit_statement(&mut self, stmt: &Statement) -> (r: Result<(), CompileError>)
        requires
            old(self).wf(),
        ensures
            final(self).wf(),
            final(self).grows_from(*old(self)),
            simple_code(*stmt, old(self).next_var_slot) is Some ==> r is Ok && final(self).bytecode@ == old(self).bytecode@
                + simple_code(*stmt, old(self).next_var_slot).unwrap() && final(self).pending_jumps@ == old(self).pending_jumps@,
        decreases stmt, 1int,
    {
        match stmt {
            Statement::VarDecl(var_decl) => self.visit_var_decl(var_decl),
            Statement::FuncDecl(func_decl) => self.visit_func_decl(func_decl),
            Statement::ExprStmt(expr_stmt) => {
                self.visit_expression(&expr_stmt.expression)?;
                self.emit_opcode(OpCode::POP);
                Ok(())
            },
            Statement::IfStmt(if_stmt) => self.visit_if_stmt(if_stmt),
            Statement::WhileStmt(while_stmt) => self.visit_while_stmt(while_stmt),
            Statement::ReturnStmt(return_stmt) => self.visit_return_stmt(return_stmt),
            Statement::Block(block) => self.visit_block(block),
        }
    }

    /// Evaluates the initializer, then stores a copy of it in the variable's new slot.
    fn visit_var_decl(&mut self, var_decl: &VarDecl) -> (r: Result<(), CompileError>)
        requires
            old(self).wf(),
        ensures
            final(self).wf(),
            final(self).grows_from(*old(self)),
            pure_code(var_decl.initializer) is Some && old(self).next_var_slot < u16::MAX ==> r is Ok
                && final(self).bytecode@ == old(self).bytecode@ + pure_code(var_decl.initializer).unwrap()
                + seq![0x80u8] + push_code(old(self).next_var_slot as nat) + seq![0x55u8]
                && final(self).pending_jumps@ == old(self).pending_jumps@,
        decreases var_decl, 0int,
    {
        let ghost start = self.bytecode@;
        let ghost slot0 = self.next_var_slot;
        self.visit_expression(&var_decl.initializer)?;
        let slot = self.next_var_slot;
        if slot == u16::MAX {
            return Err(gen_error("Too many variables"));
        }
        set_slot(&mut self.variables, var_decl.name.clone(), slot);
        self.next_var_slot = slot + 1;
        let ghost mid = self.bytecode@;
        self.emit_opcode(OpCode::DUP1);
        self.emit_push_u256(Word::from_u64(slot as u64));
        self.emit_opcode(OpCode::SSTORE);
        assert(self.bytecode@ =~= mid + seq![0x80u8] + push_code(slot as nat) + seq![0x55u8]);
        proof {
            if pure_code(var_decl.initializer) is Some && slot0 < u16::MAX {
                assert(self.bytecode@ =~= start + pure_code(var_decl.initializer).unwrap() + seq![0x80u8]
                    + push_code(slot0 as nat) + seq![0x55u8]);
            }
        }
        Ok(())
    }

    /// Emits the body inline with its parameters in the first slots, then a default return.
    fn visit_func_decl(&mut self, func_decl: &FuncDecl) -> (r: Result<(), CompileError>)
        requires
            old(self).wf(),
        ensures
            final(self).wf(),
            final(self).grows_from(*old(self)),
        decreases func_decl, 0int,
    {
        let saved_vars = self.variables.clone();
        let saved_next_slot = self.next_var_slot;
        let mut i: usize = 0;
        while i < func_decl.params.len()
            invariant
                self.wf(),
                self.grows_from(*old(self)),
            decreases func_decl.params@.len() - i,
        {
            let slot: u16 = if i <= 0xffff { i as u16 } else { 0xffff };
            set_slot(&mut self.variables, func_decl.params[i].clone(), slot);
            i = i + 1;
        }
        self.visit_block(&func_decl.body)?;
        self.emit_push_u256(Word::zero());
        self.emit_opcode(OpCode::RETURN);
        self.variables = saved_vars;
        self.next_var_slot = saved_next_slot;
        Ok(())
    }

    /// condition; ISZERO; JUMPI else; then; JUMP end; else: [else branch]; end:
    fn visit_if_stmt(&mut self, if_stmt: &IfStmt) -> (r: Result<(), CompileError>)
        requires
            old(self).wf(),
        ensures
            final(self).wf(),
            final(self).grows_from(*old(self)),
        decreases if_stmt, 0int,
    {
        self.visit_expression(&if_stmt.condition)?;
        let else_label = self.generate_label();
        let end_label = self.generate_label();
        self.emit_opcode(OpCode::ISZERO);
        self.emit_jump_if(else_label);
        self.visit_statement(&if_stmt.then_branch)?;
        self.emit_jump(end_label);
        self.place_label(else_label);
        match &if_stmt.else_branch {
            Some(else_branch) => {
                self.visit_statement(else_branch)?;
            },
            None => {},
        }
        self.place_label(end_label);
        Ok(())
    }

    /// start: condition; ISZERO; JUMPI end; body; JUMP start; end:
    fn visit_while_stmt(&mut self, while_stmt: &WhileStmt) -> (r: Result<(), CompileError>)
        requires
            old(self).wf(),
        ensures
            final(self).wf(),
            final(self).grows_from(*old(self)),
        decreases while_stmt, 0int,
    {
        let loop_start = self.generate_label();
        let loop_end = self.generate_label();
        self.place_label(loop_start);
        self.visit_expression(&while_stmt.condition)?;
        self.emit_opcode(OpCode::ISZERO);
        self.emit_jump_if(loop_end);
        self.visit_statement(&while_stmt.body)?;
        self.emit_jump(loop_start);
        self.place_label(loop_end);
        Ok(())
    }

    /// value; PUSH 0; MSTORE; PUSH 32; PUSH 0; RETURN: returns the value as one 32-byte word.
    fn visit_return_stmt(&mut self, return_stmt: &ReturnStmt) -> (r: Result<(), CompileError>)
        requires
            old(self).wf(),
        ensures
            final(self).wf(),
            final(self).grows_from(*old(self)),
            return_stmt.value is Some && pure_code(return_stmt.value.unwrap()) is Some ==> r is Ok
                && final(self).bytecode@ == old(self).bytecode@ + pure_code(return_stmt.value.unwrap()).unwrap()
                + return_code() && final(self).pending_jumps@ == old(self).pending_jumps@ && final(self).next_var_slot == old(self).next_var_slot,
        decreases return_stmt, 0int,
    {
        match &return_stmt.value {
            Some(value) => {
                self.visit_expression(value)?;
            },
            None => {
                self.emit_push_u256(Word::zero());
            },
        }
        let ghost mid = self.bytecode@;
        self.emit_push_u256(Word::zero());
        self.emit_opcode(OpCode::MSTORE);
        self.emit_push_u256(Word::from_u64(32));
        self.emit_push_u256(Word::zero());
        self.emit_opcode(OpCode::RETURN);
        assert(self.bytecode@ =~= mid + return_code());
        Ok(())
    }

    fn visit_block(&mut self, block: &Block) -> (r: Result<(), CompileError>)
        requires
            old(self).wf(),
        ensures
            final(self).wf(),
            final(self).grows_from(*old(self)),
        decreases block, 2int,
    {
        let mut i: usize = 0;
        while i < block.statements.len()
            invariant
                self.wf(),
                self.grows_from(*old(self)),
            decreases block.statements@.len() - i,
        {
            self.visit_statement(&block.statements[i])?;
            i = i + 1;
        }
        Ok(())
    }

    /// Emits the code that leaves the expression's value on the stack.
    pub fn visit_expression(&mut self, expr: &Expression) -> (r: Result<(), CompileError>)
        requires
            old(self).wf(),
        ensures
            final(self).wf(),
            final(self).grows_from(*old(self)),
            pure_code(*expr) is Some ==> r is Ok && final(self).bytecode@ == old(self).bytecode@
                + pure_code(*expr).unwrap() && final(self).pending_jumps@ == old(self).pending_jumps@ && final(self).next_var_slot == old(self).next_var_slot,
        decreases expr, 1int,
    {
        match expr {
            Expression::Binary(binary) => self.visit_binary_expr(binary),
            Expression::Unary(unary) => self.visit_unary_expr(unary),
            Expression::Call(call) => self.visit_call_expr(call),
            Expression::Assignment(assignment) => self.visit_assignment_expr(assignment),
            Expression::Variable(variable) => self.visit_variable_expr(variable),
            Expression::Literal(literal) => self.visit_literal_expr(literal),
            Expression::MemberAccess(member) => self.visit_member_access_expr(member),
            Expression::StorageAccess(storage) => self.visit_storage_access_expr(storage),
            Expression::MemoryAccess(memory) => self.visit_memory_access_expr(memory),
            Expression::ArrayAccess(array_access) => self.visit_array_access_expr(array_access),
            Expression::MemoryAssignment(mem_assign) => self.visit_memory_assignment_expr(mem_assign),
            Expression::StorageArrayAssignment(storage_assign) => self.visit_storage_array_assignment_expr(storage_assign),
        }
    }

    /// left; right; the operator's opcodes.
    fn visit_binary_expr(&mut self, binary: &BinaryExpr) -> (r: Result<(), CompileError>)
        requires
            old(self).wf(),
        ensures
            final(self).wf(),
            final(self).grows_from(*old(self)),
            pure_code(*binary.left) is Some && pure_code(*binary.right) is Some ==> r is Ok
                && final(self).bytecode@ == old(self).bytecode@ + pure_code(*binary.left).unwrap()
                + pure_code(*binary.right).unwrap() + operator_code(binary.operator) && final(self).pending_jumps@ == old(self).pending_jumps@ && final(self).next_var_slot == old(self).next_var_slot,
            r is Ok ==> {
                let n = final(self).bytecode@.len();
                let k = operator_code(binary.operator).len();
                &&& n >= old(self).bytecode@.len() + k
                &&& final(self).bytecode@.subrange(n - k, n as int) == operator_code(binary.operator)
            },
        decreases binary, 0int,
    {
        self.visit_expression(&binary.left)?;
        self.visit_expression(&binary.right)?;
        let ghost mid = self.bytecode@;
        match binary.operator {
            BinaryOperator::Add => self.emit_opcode(OpCode::ADD),
            BinaryOperator::Subtract => self.emit_opcode(OpCode::SUB),
            BinaryOperator::Multiply => self.emit_opcode(OpCode::MUL),
            BinaryOperator::Divide => self.emit_opcode(OpCode::DIV),
            BinaryOperator::Modulo => self.emit_opcode(OpCode::MOD),
            BinaryOperator::Equal => self.emit_opcode(OpCode::EQ),
            BinaryOperator::NotEqual => {
                self.emit_opcode(OpCode::EQ);
                self.emit_opcode(OpCode::ISZERO);
            },
            BinaryOperator::Greater => self.emit_opcode(OpCode::GT),
            BinaryOperator::GreaterEqual => {
                self.emit_opcode(OpCode::LT);
                self.emit_opcode(OpCode::ISZERO);
            },
            BinaryOperator::Less => self.emit_opcode(OpCode::LT),
            BinaryOperator::LessEqual => {
                self.emit_opcode(OpCode::GT);
                self.emit_opcode(OpCode::ISZERO);
            },
            BinaryOperator::And => {
                self.emit_opcode(OpCode::AND);
                self.emit_push_u256(Word::zero());
                self.emit_opcode(OpCode::GT);
            },
            BinaryOperator::Or => {
                self.emit_opcode(OpCode::OR);
                self.emit_push_u256(Word::zero());
                self.emit_opcode(OpCode::GT);
            },
        }
        assert(self.bytecode@ =~= mid + operator_code(binary.operator));
        assert(self.bytecode@.subrange(mid.len() as int, self.bytecode@.len() as int) =~= operator_code(binary.operator));
        Ok(())
    }

    /// `-e` is PUSH 0, then `e`, then SUB; `!e` is `e`, then ISZERO.
    fn visit_unary_expr(&mut self, unary: &UnaryExpr) -> (r: Result<(), CompileError>)
        requires
            old(self).wf(),
        ensures
            final(self).wf(),
            final(self).grows_from(*old(self)),
            pure_code(*unary.operand) is Some ==> r is Ok && final(self).bytecode@ == old(self).bytecode@ + match unary.operator {
                UnaryOperator::Minus => push_code(0) + pure_code(*unary.operand).unwrap() + seq![0x03u8],
                UnaryOperator::Not => pure_code(*unary.operand).unwrap() + seq![0x15u8],
            } && final(self).pending_jumps@ == old(self).pending_jumps@ && final(self).next_var_slot == old(self).next_var_slot,
            r is Ok ==> {
                let o = old(self).bytecode@.len();
                let n = final(self).bytecode@.len();
                &&& unary.operator == UnaryOperator::Minus ==> n >= o + 3 && final(self).bytecode@.subrange(
                    o as int,
                    o + 2int,
                ) == push_code(0) && final(self).bytecode@[n - 1] == 0x03
                &&& unary.operator == UnaryOperator::Not ==> n >= o + 1 && final(self).bytecode@[n - 1] == 0x15
            },
        decreases unary, 0int,
    {
        let ghost start = self.bytecode@;
        match unary.operator {
            UnaryOperator::Minus => {
                self.emit_push_u256(Word::zero());
                let ghost mid = self.bytecode@;
                proof {
                    reveal_with_fuel(crate::word::pow256, 2);
                    crate::word::lemma_be_bytes_len(0, 1);
                    assert(push_code(0).len() == 2);
                }
                self.visit_expression(&unary.operand)?;
                assert(self.bytecode@.subrange(start.len() as int, start.len() + 2int) == mid.subrange(start.len() as int, start.len() + 2int));
                assert(mid.subrange(start.len() as int, start.len() + 2int) =~= push_code(0));
                let ghost after = self.bytecode@;
                self.emit_opcode(OpCode::SUB);
                proof {
                    if pure_code(*unary.operand) is Some {
                        assert(self.bytecode@ =~= start + push_code(0) + pure_code(*unary.operand).unwrap()
                            + seq![0x03u8]);
                    }
                }
            },
            UnaryOperator::Not => {
                self.visit_expression(&unary.operand)?;
                let ghost mid = self.bytecode@;
                self.emit_opcode(OpCode::ISZERO);
                proof {
                    if pure_code(*unary.operand) is Some {
                        assert(self.bytecode@ =~= start + pure_code(*unary.operand).unwrap() + seq![0x15u8]);
                    }
                }
            },
        }
        Ok(())
    }

    fn visit_literal_expr(&mut self, literal: &LiteralExpr) -> (r: Result<(), CompileError>)
        requires
            old(self).wf(),
        ensures
            final(self).wf(),
            final(self).grows_from(*old(self)),
            literal is Number ==> r is Ok && final(self).bytecode@ == old(self).bytecode@ + push_code(
                literal->Number_0 as nat,
            ) && final(self).pending_jumps@ == old(self).pending_jumps@ && final(self).next_var_slot == old(self).next_var_slot,
            literal is Boolean ==> r is Ok && final(self).bytecode@ == old(self).bytecode@ + push_code(
                if literal->Boolean_0 { 1 } else { 0 },
            ) && final(self).pending_jumps@ == old(self).pending_jumps@ && final(self).next_var_slot == old(self).next_var_slot,
        decreases literal, 0int,
    {
        match literal {
            LiteralExpr::Number(n) => {
                self.emit_push_u256(Word::from_u64(*n));
            },
            LiteralExpr::Boolean(b) => {
                self.emit_push_u256(if *b { Word::one() } else { Word::zero() });
            },
            LiteralExpr::String(s) => {
                let offset = self.memory_pointer;
                let bytes = s.as_str().as_bytes();
                let len = bytes.len();
                if len > (u16::MAX - offset) as usize {
                    return Err(gen_error("Out of scratch memory"));
                }
                let mut i: usize = 0;
                while i < len
                    invariant
                        self.wf(),
                        self.grows_from(*old(self)),
                        i <= len,
                        len == bytes@.len(),
                        offset as usize + len <= u16::MAX,
                    decreases len - i,
                {
                    self.emit_push_u256(Word::from_u64(bytes[i] as u64));
                    self.emit_push_u256(Word::from_u64(offset as u64 + i as u64));
                    self.emit_opcode(OpCode::MSTORE8);
                    i = i + 1;
                }
                self.emit_push_u256(Word::from_u64(offset as u64));
                self.emit_push_u256(Word::from_u64(len as u64));
                self.memory_pointer = offset + len as u16;
            },
            LiteralExpr::Array(elements) => {
                if elements.len() == 0 {
                    self.emit_push_u256(Word::zero());
                } else {
                    self.emit_push_u256(Word::from_u64(elements.len() as u64));
                }
            },
        }
        Ok(())
    }

    /// Loads a variable from its storage slot; bare `memory` loads the last word stored to it.
    fn visit_variable_expr(&mut self, variable: &VariableExpr) -> (r: Result<(), CompileError>)
        requires
            old(self).wf(),
        ensures
            final(self).wf(),
            final(self).grows_from(*old(self)),
        decreases variable, 0int,
    {
        if string_is(&variable.name, &['m', 'e', 'm', 'o', 'r', 'y']) {
            let read_offset = if self.memory_pointer >= 32 { self.memory_pointer - 32 } else { 0 };
            self.emit_push_u256(Word::from_u64(read_offset as u64));
            self.emit_opcode(OpCode::MLOAD);
            Ok(())
        } else {
            match lookup_slot(&self.variables, &variable.name) {
                Some(slot) => {
                    self.emit_push_u256(Word::from_u64(slot as u64));
                    self.emit_opcode(OpCode::SLOAD);
                    Ok(())
                },
                None => Err(CompileError { message: message_with_name("Undefined variable: ", &variable.name) }),
            }
        }
    }

    /// value; DUP1; PUSH slot; SSTORE: stores the value and leaves it as the result.
    fn visit_assignment_expr(&mut self, assignment: &AssignmentExpr) -> (r: Result<(), CompileError>)
        requires
            old(self).wf(),
        ensures
            final(self).wf(),
            final(self).grows_from(*old(self)),
        decreases assignment, 0int,
    {
        self.visit_expression(&assignment.value)?;
        match lookup_slot(&self.variables, &assignment.name) {
            Some(slot) => {
                self.emit_opcode(OpCode::DUP1);
                self.emit_push_u256(Word::from_u64(slot as u64));
                self.emit_opcode(OpCode::SSTORE);
                Ok(())
            },
            None => Err(CompileError { message: message_with_name("Undefined variable: ", &assignment.name) }),
        }
    }

    /// Writes `bytes` to scratch memory one MSTORE8 at a time, moving the pointer past them.
    fn store_bytes(&mut self, bytes: &[u8]) -> (r: Result<(), CompileError>)
        requires
            old(self).wf(),
        ensures
            final(self).wf(),
            final(self).grows_from(*old(self)),
    {
        let offset = self.memory_pointer;
        let len = bytes.len();
        if len > (u16::MAX - offset) as usize {
            return Err(gen_error("Out of scratch memory"));
        }
        let mut i: usize = 0;
        while i < len
            invariant
                self.wf(),
                self.grows_from(*old(self)),
                i <= len,
                len == bytes@.len(),
                offset as usize + len <= u16::MAX,
                self.memory_pointer == offset + i,
            decreases len - i,
        {
            self.emit_push_u256(Word::from_u64(bytes[i] as u64));
            self.emit_push_u256(Word::from_u64(self.memory_pointer as u64));
            self.emit_opcode(OpCode::MSTORE8);
            self.memory_pointer = self.memory_pointer + 1;
            i = i + 1;
        }
        Ok(())
    }

    /// Turns a single-digit value on the stack into its ASCII byte at `offset`, leaving
    /// `[1, offset]` (length, then offset on top).
    fn emit_number_to_string_conversion(&mut self, offset: u16) -> (r: Result<(), CompileError>)
        requires
            old(self).wf(),
        ensures
            final(self).wf(),
            final(self).grows_from(*old(self)),
    {
        if self.memory_pointer == u16::MAX {
            return Err(gen_error("Out of scratch memory"));
        }
        self.emit_push_u256(Word::from_u64(48));
        self.emit_opcode(OpCode::ADD);
        self.emit_push_u256(Word::from_u64(offset as u64));
        self.emit_opcode(OpCode::MSTORE8);
        self.emit_push_u256(Word::one());
        self.emit_push_u256(Word::from_u64(offset as u64));
        self.memory_pointer = self.memory_pointer + 1;
        Ok(())
    }

    /// Writes a printable form of a console call's arguments to scratch memory, leaving its
    /// length and, on top, its offset.
    fn emit_console_args(&mut self, call: &CallExpr) -> (r: Result<(), CompileError>)
        requires
            old(self).wf(),
        ensures
            final(self).wf(),
            final(self).grows_from(*old(self)),
            call.arguments@.len() == 0 ==> r is Ok && final(self).bytecode@ == old(self).bytecode@
                + push_code(0) + push_code(old(self).memory_pointer as nat),
        decreases call, 0int,
    {
        let ghost start = self.bytecode@;
        let nargs = call.arguments.len();
        if nargs == 0 {
            let offset = self.memory_pointer;
            self.emit_push_u256(Word::zero());
            self.emit_push_u256(Word::from_u64(offset as u64));
            assert(self.bytecode@ =~= start + push_code(0) + push_code(offset as nat));
        } else if nargs == 2 {
            match &call.arguments[0] {
                Expression::Literal(LiteralExpr::String(text)) => {
                    let start_offset = self.memory_pointer;
                    self.store_bytes(text.as_str().as_bytes())?;
                    let space: [u8; 1] = [0x20];
                    self.store_bytes(&space)?;
                    self.visit_expression(&call.arguments[1])?;
                    if self.memory_pointer == u16::MAX {
                        return Err(gen_error("Out of scratch memory"));
                    }
                    self.emit_push_u256(Word::from_u64(48));
                    self.emit_opcode(OpCode::ADD);
                    self.emit_push_u256(Word::from_u64(self.memory_pointer as u64));
                    self.emit_opcode(OpCode::MSTORE8);
                    self.memory_pointer = self.memory_pointer + 1;
                    let total: u16 = if self.memory_pointer >= start_offset {
                        self.memory_pointer - start_offset
                    } else {
                        0
                    };
                    self.emit_push_u256(Word::from_u64(total as u64));
                    self.emit_push_u256(Word::from_u64(start_offset as u64));
                },
                _ => {
                    self.visit_expression(&call.arguments[0])?;
                    self.emit_opcode(OpCode::SWAP1);
                },
            }
        } else {
            match &call.arguments[0] {
                Expression::Literal(LiteralExpr::String(_)) => {
                    self.visit_expression(&call.arguments[0])?;
                    self.emit_opcode(OpCode::SWAP1);
                },
                Expression::Literal(LiteralExpr::Number(n)) => {
                    let digits = decimal_digits(*n);
                    let offset = self.memory_pointer;
                    self.store_bytes(digits.as_slice())?;
                    self.emit_push_u256(Word::from_u64(digits.len() as u64));
                    self.emit_push_u256(Word::from_u64(offset as u64));
                },
                _ => {
                    self.visit_expression(&call.arguments[0])?;
                    let offset = self.memory_pointer;
                    self.emit_number_to_string_conversion(offset)?;
                },
            }
        }
        Ok(())
    }

    /// A console call: its arguments, then LOG0 (`topic` 0) or LOG1 with `topic`, then a zero
    /// as the call's value.
    fn emit_console_call(&mut self, call: &CallExpr, topic: u64) -> (r: Result<(), CompileError>)
        requires
            old(self).wf(),
            topic <= 2,
        ensures
            final(self).wf(),
            final(self).grows_from(*old(self)),
            call.arguments@.len() == 0 && topic == 0 ==> r is Ok && final(self).bytecode@ == old(
                self,
            ).bytecode@ + push_code(0) + push_code(old(self).memory_pointer as nat) + seq![0xa0u8]
                + push_code(0),
            call.arguments@.len() == 0 && topic != 0 ==> r is Ok && final(self).bytecode@ == old(
                self,
            ).bytecode@ + push_code(0) + push_code(old(self).memory_pointer as nat) + push_code(
                topic as nat,
            ) + seq![0x91u8, 0x90u8, 0xa1u8] + push_code(0),
        decreases call, 1int,
    {
        self.emit_console_args(call)?;
        let ghost args_code = self.bytecode@;
        if topic == 0 {
            self.emit_opcode(OpCode::LOG0);
            self.emit_push_u256(Word::zero());
            assert(self.bytecode@ =~= args_code + seq![0xa0u8] + push_code(0));
        } else {
            self.emit_push_u256(Word::from_u64(topic));
            self.emit_opcode(OpCode::SWAP2);
            self.emit_opcode(OpCode::SWAP1);
            self.emit_opcode(OpCode::LOG1);
            self.emit_push_u256(Word::zero());
            assert(self.bytecode@ =~= args_code + push_code(topic as nat) + seq![0x91u8, 0x90u8, 0xa1u8]
                + push_code(0));
        }
        Ok(())
    }

    /// Calls: `keccak256(x)` hashes the word at offset 0; `console.log/warn/error(...)` writes
    /// a printable form of its arguments to scratch memory and logs it (LOG0, or LOG1 with
    /// topic 1 or 2), then leaves a zero as the call's value.
    fn visit_call_expr(&mut self, call: &CallExpr) -> (r: Result<(), CompileError>)
        requires
            old(self).wf(),
        ensures
            final(self).wf(),
            final(self).grows_from(*old(self)),
            !(*call.callee is Variable || *call.callee is MemberAccess) ==> r is Err,
            *call.callee is Variable ==> ({
                let name = call.callee->Variable_0.name@;
                &&& name == "keccak256"@ && call.arguments@.len() == 1 ==> r is Ok
                    && final(self).bytecode@ == old(self).bytecode@ + push_code(32) + push_code(0)
                    + seq![0x20u8]
                &&& !(name == "keccak256"@ && call.arguments@.len() == 1) ==> r is Err
            }),
            *call.callee is MemberAccess ==> ({
                let m = call.callee->MemberAccess_0;
                let console = *m.object is Variable && m.object->Variable_0.name@ == "console"@;
                let prop = m.property@;
                let known = prop == "log"@ || prop == "warn"@ || prop == "error"@;
                let mp = old(self).memory_pointer as nat;
                &&& !(console && known) ==> r is Err
                &&& console && prop == "log"@ && call.arguments@.len() == 0 ==> r is Ok
                    && final(self).bytecode@ == old(self).bytecode@ + push_code(0) + push_code(mp)
                    + seq![0xa0u8] + push_code(0)
                &&& console && (prop == "warn"@ || prop == "error"@) && call.arguments@.len() == 0
                    ==> r is Ok && final(self).bytecode@ == old(self).bytecode@ + push_code(0)
                    + push_code(mp) + push_code(if prop == "warn"@ { 1 } else { 2 })
                    + seq![0x91u8, 0x90u8, 0xa1u8] + push_code(0)
            }),
        decreases call, 2int,
    {
        match &*call.callee {
            Expression::Variable(var) => {
                if string_is_str(&var.name, "keccak256") {
                    if call.arguments.len() != 1 {
                        return Err(gen_error("keccak256 expects exactly 1 argument"));
                    }
                    let ghost start = self.bytecode@;
                    self.emit_push_u256(Word::from_u64(32));
                    self.emit_push_u256(Word::zero());
                    self.emit_opcode(OpCode::SHA3);
                    assert(self.bytecode@ =~= start + push_code(32) + push_code(0) + seq![0x20u8]);
                    Ok(())
                } else if string_is(&var.name, &['p', 'r', 'i', 'n', 't', 'l', 'n']) {
                    Err(gen_error("println is not a JavaScript function. Use console.log, console.warn, or console.error instead"))
                } else {
                    Err(CompileError { message: message_with_name("Unknown function: ", &var.name) })
                }
            },
            Expression::MemberAccess(member) => {
                let obj = match &*member.object {
                    Expression::Variable(obj) => obj,
                    _ => {
                        return Err(gen_error("Complex member access not yet supported"));
                    },
                };
                if !string_is_str(&obj.name, "console") {
                    return Err(CompileError { message: message_with_name("Member access not supported for object: ", &obj.name) });
                }
                let is_log = string_is_str(&member.property, "log");
                let is_warn = string_is_str(&member.property, "warn");
                let is_error = string_is_str(&member.property, "error");
                if !(is_log || is_warn || is_error) {
                    return Err(CompileError { message: message_with_name("Unknown console method: ", &member.property) });
                }
                proof {
                    reveal_strlit("log");
                    reveal_strlit("warn");
                    reveal_strlit("error");
                }
                let topic: u64 = if is_log { 0 } else if is_warn { 1 } else { 2 };
                assert("warn"@.len() != "log"@.len() && "error"@.len() != "log"@.len()
                    && "error"@.len() != "warn"@.len());
                assert(member.property@ == "warn"@ ==> topic == 1);
                assert(member.property@ == "error"@ ==> topic == 2);
                assert(member.property@ == "log"@ ==> topic == 0);
                self.emit_console_call(call, topic)
            },
            _ => Err(gen_error("Complex function calls not yet supported")),
        }
    }

    /// A member access is only meaningful as the callee of a call.
    fn visit_member_access_expr(&mut self, member: &MemberAccessExpr) -> (r: Result<(), CompileError>)
        requires
            old(self).wf(),
        ensures
            final(self).wf(),
            final(self).grows_from(*old(self)),
            r is Err,
        decreases member, 0int,
    {
        Err(gen_error("Member access expressions are only supported in function calls"))
    }

    fn visit_storage_access_expr(&mut self, storage: &StorageAccessExpr) -> (r: Result<(), CompileError>)
        requires
            old(self).wf(),
        ensures
            final(self).wf(),
            final(self).grows_from(*old(self)),
        decreases storage, 0int,
    {
        match storage {
            StorageAccessExpr::Get(key) => {
                self.visit_expression(key)?;
                self.emit_opcode(OpCode::SLOAD);
            },
            StorageAccessExpr::SetValue(key, value) => {
                self.visit_expression(value)?;
                self.visit_expression(key)?;
                self.emit_opcode(OpCode::SSTORE);
                self.visit_expression(value)?;
            },
        }
        Ok(())
    }

    fn visit_memory_access_expr(&mut self, memory: &MemoryAccessExpr) -> (r: Result<(), CompileError>)
        requires
            old(self).wf(),
        ensures
            final(self).wf(),
            final(self).grows_from(*old(self)),
        decreases memory, 0int,
    {
        match memory {
            MemoryAccessExpr::Load(offset) => {
                self.visit_expression(offset)?;
                self.emit_opcode(OpCode::MLOAD);
            },
            MemoryAccessExpr::Store(offset, value) => {
                self.visit_expression(value)?;
                self.visit_expression(offset)?;
                self.emit_opcode(OpCode::MSTORE);
                self.visit_expression(value)?;
            },
        }
        Ok(())
    }

    /// `storage[key]` loads from storage, `memory[offset]` from memory; nothing else indexes.
    fn visit_array_access_expr(&mut self, array_access: &ArrayAccessExpr) -> (r: Result<(), CompileError>)
        requires
            old(self).wf(),
        ensures
            final(self).wf(),
            final(self).grows_from(*old(self)),
        decreases array_access, 0int,
    {
        match &*array_access.object {
            Expression::Variable(var) => {
                if string_is(&var.name, &['s', 't', 'o', 'r', 'a', 'g', 'e']) {
                    self.visit_expression(&array_access.index)?;
                    self.emit_opcode(OpCode::SLOAD);
                    Ok(())
                } else if string_is(&var.name, &['m', 'e', 'm', 'o', 'r', 'y']) {
                    self.visit_expression(&array_access.index)?;
                    self.emit_opcode(OpCode::MLOAD);
                    Ok(())
                } else {
                    let name = str_chars(var.name.as_str());
                    Err(CompileError { message: quoted_message("Array access not supported for '", &name) })
                }
            },
            _ => Err(gen_error("Complex array access not yet supported")),
        }
    }

    /// `memory = value`: stores at the scratch pointer, which then moves one word on.
    fn visit_memory_assignment_expr(&mut self, mem_assign: &MemoryAssignmentExpr) -> (r: Result<(), CompileError>)
        requires
            old(self).wf(),
        ensures
            final(self).wf(),
            final(self).grows_from(*old(self)),
        decreases mem_assign, 0int,
    {
        self.visit_expression(&mem_assign.value)?;
        if self.memory_pointer > u16::MAX - 32 {
            return Err(gen_error("Out of scratch memory"));
        }
        self.emit_opcode(OpCode::DUP1);
        self.emit_push_u256(Word::from_u64(self.memory_pointer as u64));
        self.emit_opcode(OpCode::MSTORE);
        self.memory_pointer = self.memory_pointer + 32;
        Ok(())
    }

    /// `storage[index] = value`: value; index; SSTORE; value again as the result.
    fn visit_storage_array_assignment_expr(&mut self, storage_assign: &StorageArrayAssignmentExpr) -> (r: Result<(), CompileError>)
        requires
            old(self).wf(),
        ensures
            final(self).wf(),
            final(self).grows_from(*old(self)),
        decreases storage_assign, 0int,
    {
        self.visit_expression(&storage_assign.value)?;
        self.visit_expression(&storage_assign.index)?;
        self.emit_opcode(OpCode::SSTORE);
        self.visit_expression(&storage_assign.value)?;
        Ok(())
    }
}

/// The generator's PUSH encoding of a word decodes back to it: wherever the encoding sits in
/// a bytecode, the byte there is PUSHn for the immediate's width n, the n bytes after it are
/// inside the code, and their big-endian value is the word.
pub proof fn lemma_push_round_trip(x: Word, code: Seq<u8>, p: int)
    requires
        0 <= p,
        p + push_code(x.val()).len() <= code.len(),
        code.subrange(p, p + push_code(x.val()).len()) == push_code(x.val()),
    ensures
        ({
            let n = push_width(x.val()) as int;
            &&& 0x60 <= code[p] <= 0x7f
            &&& code[p] - 0x5f == n
            &&& p + n < code.len()
            &&& be_value(code.subrange(p + 1, p + 1 + n)) == x.val()
        }),
{
    reveal_with_fuel(pow256, 5);
    lemma_val_bound(x);
    let v = x.val();
    let n = push_width(v) as int;
    lemma_be_exact(v, n as nat);
    let c = push_code(v);
    assert(c.len() == n + 1);
    assert(code[p] == c[0]);
    assert(code.subrange(p + 1, p + 1 + n) =~= be_bytes(v, n as nat)) by {
        assert forall|i: int| 0 <= i < n implies #[trigger] code.subrange(p + 1, p + 1 + n)[i] == be_bytes(v, n as nat)[i] by {
            assert(code[p + 1 + i] == c[1 + i]);
        }
    }
}

} // verus!
