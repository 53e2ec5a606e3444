//! The opcode table: decoding of bytes, static gas costs and operand sizes.

use vstd::prelude::*;

verus! {

/// Every opcode that the table knows, and `UNKNOWN` for any other byte.
#[derive(Clone, Copy, Debug, PartialEq, Eq, Structural)]
#[allow(non_camel_case_types)]
pub enum OpCode {
    STOP,
    ADD,
    MUL,
    SUB,
    DIV,
    SDIV,
    MOD,
    SMOD,
    ADDMOD,
    MULMOD,
    EXP,
    SIGNEXTEND,
    LT,
    GT,
    SLT,
    SGT,
    EQ,
    ISZERO,
    AND,
    OR,
    XOR,
    NOT,
    BYTE,
    SHL,
    SHR,
    SAR,
    SHA3,
    ADDRESS,
    BALANCE,
    ORIGIN,
    CALLER,
    CALLVALUE,
    CALLDATALOAD,
    CALLDATASIZE,
    CALLDATACOPY,
    CODESIZE,
    CODECOPY,
    GASPRICE,
    EXTCODESIZE,
    EXTCODECOPY,
    RETURNDATASIZE,
    RETURNDATACOPY,
    EXTCODEHASH,
    BLOCKHASH,
    COINBASE,
    TIMESTAMP,
    NUMBER,
    DIFFICULTY,
    GASLIMIT,
    CHAINID,
    SELFBALANCE,
    BASEFEE,
    POP,
    MLOAD,
    MSTORE,
    MSTORE8,
    SLOAD,
    SSTORE,
    JUMP,
    JUMPI,
    PC,
    MSIZE,
    GAS,
    JUMPDEST,
    PUSH1,
    PUSH2,
    PUSH3,
    PUSH4,
    PUSH5,
    PUSH6,
    PUSH7,
    PUSH8,
    PUSH9,
    PUSH10,
    PUSH11,
    PUSH12,
    PUSH13,
    PUSH14,
    PUSH15,
    PUSH16,
    PUSH17,
    PUSH18,
    PUSH19,
    PUSH20,
    PUSH21,
    PUSH22,
    PUSH23,
    PUSH24,
    PUSH25,
    PUSH26,
    PUSH27,
    PUSH28,
    PUSH29,
    PUSH30,
    PUSH31,
    PUSH32,
    DUP1,
    DUP2,
    DUP3,
    DUP4,
    DUP5,
    DUP6,
    DUP7,
    DUP8,
    DUP9,
    DUP10,
    DUP11,
    DUP12,
    DUP13,
    DUP14,
    DUP15,
    DUP16,
    SWAP1,
    SWAP2,
    SWAP3,
    SWAP4,
    SWAP5,
    SWAP6,
    SWAP7,
    SWAP8,
    SWAP9,
    SWAP10,
    SWAP11,
    SWAP12,
    SWAP13,
    SWAP14,
    SWAP15,
    SWAP16,
    LOG0,
    LOG1,
    LOG2,
    LOG3,
    LOG4,
    CREATE,
    CALL,
    CALLCODE,
    RETURN,
    DELEGATECALL,
    CREATE2,
    STATICCALL,
    REVERT,
    INVALID,
    SELFDESTRUCT,
    UNKNOWN(u8),
}

/// Whether the byte encodes a known opcode.
pub open spec fn is_assigned(b: u8) -> bool {
    b <= 0x0b || (0x10 <= b && b <= 0x1d) || b == 0x20 || (0x30 <= b && b <= 0x3f) || (0x40 <= b
        && b <= 0x48) || (0x50 <= b && b <= 0x5b) || (0x60 <= b && b <= 0xa4) || (0xf0 <= b && b <= 0xf5) || b == 0xfa || b
        >= 0xfd
}

/// The byte that encodes an opcode.
pub open spec fn opcode_byte(op: OpCode) -> u8 {
    match op {
        OpCode::STOP => 0x00,
        OpCode::ADD => 0x01,
        OpCode::MUL => 0x02,
        OpCode::SUB => 0x03,
        OpCode::DIV => 0x04,
        OpCode::SDIV => 0x05,
        OpCode::MOD => 0x06,
        OpCode::SMOD => 0x07,
        OpCode::ADDMOD => 0x08,
        OpCode::MULMOD => 0x09,
        OpCode::EXP => 0x0a,
        OpCode::SIGNEXTEND => 0x0b,
        OpCode::LT => 0x10,
        OpCode::GT => 0x11,
        OpCode::SLT => 0x12,
        OpCode::SGT => 0x13,
        OpCode::EQ => 0x14,
        OpCode::ISZERO => 0x15,
        OpCode::AND => 0x16,
        OpCode::OR => 0x17,
        OpCode::XOR => 0x18,
        OpCode::NOT => 0x19,
        OpCode::BYTE => 0x1a,
        OpCode::SHL => 0x1b,
        OpCode::SHR => 0x1c,
        OpCode::SAR => 0x1d,
        OpCode::SHA3 => 0x20,
        OpCode::ADDRESS => 0x30,
        OpCode::BALANCE => 0x31,
        OpCode::ORIGIN => 0x32,
        OpCode::CALLER => 0x33,
        OpCode::CALLVALUE => 0x34,
        OpCode::CALLDATALOAD => 0x35,
        OpCode::CALLDATASIZE => 0x36,
        OpCode::CALLDATACOPY => 0x37,
        OpCode::CODESIZE => 0x38,
        OpCode::CODECOPY => 0x39,
        OpCode::GASPRICE => 0x3a,
        OpCode::EXTCODESIZE => 0x3b,
        OpCode::EXTCODECOPY => 0x3c,
        OpCode::RETURNDATASIZE => 0x3d,
        OpCode::RETURNDATACOPY => 0x3e,
        OpCode::EXTCODEHASH => 0x3f,
        OpCode::BLOCKHASH => 0x40,
        OpCode::COINBASE => 0x41,
        OpCode::TIMESTAMP => 0x42,
        OpCode::NUMBER => 0x43,
        OpCode::DIFFICULTY => 0x44,
        OpCode::GASLIMIT => 0x45,
        OpCode::CHAINID => 0x46,
        OpCode::SELFBALANCE => 0x47,
        OpCode::BASEFEE => 0x48,
        OpCode::POP => 0x50,
        OpCode::MLOAD => 0x51,
        OpCode::MSTORE => 0x52,
        OpCode::MSTORE8 => 0x53,
        OpCode::SLOAD => 0x54,
        OpCode::SSTORE => 0x55,
        OpCode::JUMP => 0x56,
        OpCode::JUMPI => 0x57,
        OpCode::PC => 0x58,
        OpCode::MSIZE => 0x59,
        OpCode::GAS => 0x5a,
        OpCode::JUMPDEST => 0x5b,
        OpCode::PUSH1 => 0x60,
        OpCode::PUSH2 => 0x61,
        OpCode::PUSH3 => 0x62,
        OpCode::PUSH4 => 0x63,
        OpCode::PUSH5 => 0x64,
        OpCode::PUSH6 => 0x65,
        OpCode::PUSH7 => 0x66,
        OpCode::PUSH8 => 0x67,
        OpCode::PUSH9 => 0x68,
        OpCode::PUSH10 => 0x69,
        OpCode::PUSH11 => 0x6a,
        OpCode::PUSH12 => 0x6b,
        OpCode::PUSH13 => 0x6c,
        OpCode::PUSH14 => 0x6d,
        OpCode::PUSH15 => 0x6e,
        OpCode::PUSH16 => 0x6f,
        OpCode::PUSH17 => 0x70,
        OpCode::PUSH18 => 0x71,
        OpCode::PUSH19 => 0x72,
        OpCode::PUSH20 => 0x73,
        OpCode::PUSH21 => 0x74,
        OpCode::PUSH22 => 0x75,
        OpCode::PUSH23 => 0x76,
        OpCode::PUSH24 => 0x77,
        OpCode::PUSH25 => 0x78,
        OpCode::PUSH26 => 0x79,
        OpCode::PUSH27 => 0x7a,
        OpCode::PUSH28 => 0x7b,
        OpCode::PUSH29 => 0x7c,
        OpCode::PUSH30 => 0x7d,
        OpCode::PUSH31 => 0x7e,
        OpCode::PUSH32 => 0x7f,
        OpCode::DUP1 => 0x80,
        OpCode::DUP2 => 0x81,
        OpCode::DUP3 => 0x82,
        OpCode::DUP4 => 0x83,
        OpCode::DUP5 => 0x84,
        OpCode::DUP6 => 0x85,
        OpCode::DUP7 => 0x86,
        OpCode::DUP8 => 0x87,
        OpCode::DUP9 => 0x88,
        OpCode::DUP10 => 0x89,
        OpCode::DUP11 => 0x8a,
        OpCode::DUP12 => 0x8b,
        OpCode::DUP13 => 0x8c,
        OpCode::DUP14 => 0x8d,
        OpCode::DUP15 => 0x8e,
        OpCode::DUP16 => 0x8f,
        OpCode::SWAP1 => 0x90,
        OpCode::SWAP2 => 0x91,
        OpCode::SWAP3 => 0x92,
        OpCode::SWAP4 => 0x93,
        OpCode::SWAP5 => 0x94,
        OpCode::SWAP6 => 0x95,
        OpCode::SWAP7 => 0x96,
        OpCode::SWAP8 => 0x97,
        OpCode::SWAP9 => 0x98,
        OpCode::SWAP10 => 0x99,
        OpCode::SWAP11 => 0x9a,
        OpCode::SWAP12 => 0x9b,
        OpCode::SWAP13 => 0x9c,
        OpCode::SWAP14 => 0x9d,
        OpCode::SWAP15 => 0x9e,
        OpCode::SWAP16 => 0x9f,
        OpCode::LOG0 => 0xa0,
        OpCode::LOG1 => 0xa1,
        OpCode::LOG2 => 0xa2,
        OpCode::LOG3 => 0xa3,
        OpCode::LOG4 => 0xa4,
        OpCode::CREATE => 0xf0,
        OpCode::CALL => 0xf1,
        OpCode::CALLCODE => 0xf2,
        OpCode::RETURN => 0xf3,
        OpCode::DELEGATECALL => 0xf4,
        OpCode::CREATE2 => 0xf5,
        OpCode::STATICCALL => 0xfa,
        OpCode::REVERT => 0xfd,
        OpCode::INVALID => 0xfe,
        OpCode::SELFDESTRUCT => 0xff,
        OpCode::UNKNOWN(b) => b,
    }
}

/// The opcode that a byte encodes.
pub open spec fn decode(byte: u8) -> OpCode {
    match byte {
        0x00 => OpCode::STOP,
        0x01 => OpCode::ADD,
        0x02 => OpCode::MUL,
        0x03 => OpCode::SUB,
        0x04 => OpCode::DIV,
        0x05 => OpCode::SDIV,
        0x06 => OpCode::MOD,
        0x07 => OpCode::SMOD,
        0x08 => OpCode::ADDMOD,
        0x09 => OpCode::MULMOD,
        0x0a => OpCode::EXP,
        0x0b => OpCode::SIGNEXTEND,
        0x10 => OpCode::LT,
        0x11 => OpCode::GT,
        0x12 => OpCode::SLT,
        0x13 => OpCode::SGT,
        0x14 => OpCode::EQ,
        0x15 => OpCode::ISZERO,
        0x16 => OpCode::AND,
        0x17 => OpCode::OR,
        0x18 => OpCode::XOR,
        0x19 => OpCode::NOT,
        0x1a => OpCode::BYTE,
        0x1b => OpCode::SHL,
        0x1c => OpCode::SHR,
        0x1d => OpCode::SAR,
        0x20 => OpCode::SHA3,
        0x30 => OpCode::ADDRESS,
        0x31 => OpCode::BALANCE,
        0x32 => OpCode::ORIGIN,
        0x33 => OpCode::CALLER,
        0x34 => OpCode::CALLVALUE,
        0x35 => OpCode::CALLDATALOAD,
        0x36 => OpCode::CALLDATASIZE,
        0x37 => OpCode::CALLDATACOPY,
        0x38 => OpCode::CODESIZE,
        0x39 => OpCode::CODECOPY,
        0x3a => OpCode::GASPRICE,
        0x3b => OpCode::EXTCODESIZE,
        0x3c => OpCode::EXTCODECOPY,
        0x3d => OpCode::RETURNDATASIZE,
        0x3e => OpCode::RETURNDATACOPY,
        0x3f => OpCode::EXTCODEHASH,
        0x40 => OpCode::BLOCKHASH,
        0x41 => OpCode::COINBASE,
        0x42 => OpCode::TIMESTAMP,
        0x43 => OpCode::NUMBER,
        0x44 => OpCode::DIFFICULTY,
        0x45 => OpCode::GASLIMIT,
        0x46 => OpCode::CHAINID,
        0x47 => OpCode::SELFBALANCE,
        0x48 => OpCode::BASEFEE,
        0x50 => OpCode::POP,
        0x51 => OpCode::MLOAD,
        0x52 => OpCode::MSTORE,
        0x53 => OpCode::MSTORE8,
        0x54 => OpCode::SLOAD,
        0x55 => OpCode::SSTORE,
        0x56 => OpCode::JUMP,
        0x57 => OpCode::JUMPI,
        0x58 => OpCode::PC,
        0x59 => OpCode::MSIZE,
        0x5a => OpCode::GAS,
        0x5b => OpCode::JUMPDEST,
        0x60 => OpCode::PUSH1,
        0x61 => OpCode::PUSH2,
        0x62 => OpCode::PUSH3,
        0x63 => OpCode::PUSH4,
        0x64 => OpCode::PUSH5,
        0x65 => OpCode::PUSH6,
        0x66 => OpCode::PUSH7,
        0x67 => OpCode::PUSH8,
        0x68 => OpCode::PUSH9,
        0x69 => OpCode::PUSH10,
        0x6a => OpCode::PUSH11,
        0x6b => OpCode::PUSH12,
        0x6c => OpCode::PUSH13,
        0x6d => OpCode::PUSH14,
        0x6e => OpCode::PUSH15,
        0x6f => OpCode::PUSH16,
        0x70 => OpCode::PUSH17,
        0x71 => OpCode::PUSH18,
        0x72 => OpCode::PUSH19,
        0x73 => OpCode::PUSH20,
        0x74 => OpCode::PUSH21,
        0x75 => OpCode::PUSH22,
        0x76 => OpCode::PUSH23,
        0x77 => OpCode::PUSH24,
        0x78 => OpCode::PUSH25,
        0x79 => OpCode::PUSH26,
        0x7a => OpCode::PUSH27,
        0x7b => OpCode::PUSH28,
        0x7c => OpCode::PUSH29,
        0x7d => OpCode::PUSH30,
        0x7e => OpCode::PUSH31,
        0x7f => OpCode::PUSH32,
        0x80 => OpCode::DUP1,
        0x81 => OpCode::DUP2,
        0x82 => OpCode::DUP3,
        0x83 => OpCode::DUP4,
        0x84 => OpCode::DUP5,
        0x85 => OpCode::DUP6,
        0x86 => OpCode::DUP7,
        0x87 => OpCode::DUP8,
        0x88 => OpCode::DUP9,
        0x89 => OpCode::DUP10,
        0x8a => OpCode::DUP11,
        0x8b => OpCode::DUP12,
        0x8c => OpCode::DUP13,
        0x8d => OpCode::DUP14,
        0x8e => OpCode::DUP15,
        0x8f => OpCode::DUP16,
        0x90 => OpCode::SWAP1,
        0x91 => OpCode::SWAP2,
        0x92 => OpCode::SWAP3,
        0x93 => OpCode::SWAP4,
        0x94 => OpCode::SWAP5,
        0x95 => OpCode::SWAP6,
        0x96 => OpCode::SWAP7,
        0x97 => OpCode::SWAP8,
        0x98 => OpCode::SWAP9,
        0x99 => OpCode::SWAP10,
        0x9a => OpCode::SWAP11,
        0x9b => OpCode::SWAP12,
        0x9c => OpCode::SWAP13,
        0x9d => OpCode::SWAP14,
        0x9e => OpCode::SWAP15,
        0x9f => OpCode::SWAP16,
        0xa0 => OpCode::LOG0,
        0xa1 => OpCode::LOG1,
        0xa2 => OpCode::LOG2,
        0xa3 => OpCode::LOG3,
        0xa4 => OpCode::LOG4,
        0xf0 => OpCode::CREATE,
        0xf1 => OpCode::CALL,
        0xf2 => OpCode::CALLCODE,
        0xf3 => OpCode::RETURN,
        0xf4 => OpCode::DELEGATECALL,
        0xf5 => OpCode::CREATE2,
        0xfa => OpCode::STATICCALL,
        0xfd => OpCode::REVERT,
        0xfe => OpCode::INVALID,
        0xff => OpCode::SELFDESTRUCT,
        _ => OpCode::UNKNOWN(byte),
    }
}

/// Whether the opcode is one of PUSH1 to PUSH32.
pub open spec fn is_push(op: OpCode) -> bool {
    !(op is UNKNOWN) && 0x60 <= opcode_byte(op) && opcode_byte(op) <= 0x7f
}

/// The number of immediate bytes of a PUSH opcode.
pub open spec fn push_len(op: OpCode) -> nat {
    (opcode_byte(op) - 0x5f) as nat
}

/// Whether the opcode is one of DUP1 to DUP16.
pub open spec fn is_dup(op: OpCode) -> bool {
    !(op is UNKNOWN) && 0x80 <= opcode_byte(op) && opcode_byte(op) <= 0x8f
}

/// Whether the opcode is one of SWAP1 to SWAP16.
pub open spec fn is_swap(op: OpCode) -> bool {
    !(op is UNKNOWN) && 0x90 <= opcode_byte(op) && opcode_byte(op) <= 0x9f
}

/// Whether the opcode is one of LOG0 to LOG4.
pub open spec fn is_log(op: OpCode) -> bool {
    !(op is UNKNOWN) && 0xa0 <= opcode_byte(op) && opcode_byte(op) <= 0xa4
}

/// The base gas that executing an opcode costs.
pub open spec fn gas_of(op: OpCode) -> u64 {
    match op {
        OpCode::STOP | OpCode::RETURN | OpCode::REVERT => 0,
        OpCode::ADD | OpCode::SUB | OpCode::LT | OpCode::GT | OpCode::SLT | OpCode::SGT | OpCode::EQ | OpCode::ISZERO | OpCode::AND | OpCode::OR | OpCode::XOR | OpCode::NOT | OpCode::BYTE | OpCode::SHL | OpCode::SHR | OpCode::SAR | OpCode::MLOAD | OpCode::MSTORE | OpCode::MSTORE8 | OpCode::PUSH1 | OpCode::PUSH2 | OpCode::PUSH3 | OpCode::PUSH4 | OpCode::PUSH5 | OpCode::PUSH6 | OpCode::PUSH7 | OpCode::PUSH8 | OpCode::PUSH9 | OpCode::PUSH10 | OpCode::PUSH11 | OpCode::PUSH12 | OpCode::PUSH13 | OpCode::PUSH14 | OpCode::PUSH15 | OpCode::PUSH16 | OpCode::PUSH17 | OpCode::PUSH18 | OpCode::PUSH19 | OpCode::PUSH20 | OpCode::PUSH21 | OpCode::PUSH22 | OpCode::PUSH23 | OpCode::PUSH24 | OpCode::PUSH25 | OpCode::PUSH26 | OpCode::PUSH27 | OpCode::PUSH28 | OpCode::PUSH29 | OpCode::PUSH30 | OpCode::PUSH31 | OpCode::PUSH32 | OpCode::DUP1 | OpCode::DUP2 | OpCode::DUP3 | OpCode::DUP4 | OpCode::DUP5 | OpCode::DUP6 | OpCode::DUP7 | OpCode::DUP8 | OpCode::DUP9 | OpCode::DUP10 | OpCode::DUP11 | OpCode::DUP12 | OpCode::DUP13 | OpCode::DUP14 | OpCode::DUP15 | OpCode::DUP16 | OpCode::SWAP1 | OpCode::SWAP2 | OpCode::SWAP3 | OpCode::SWAP4 | OpCode::SWAP5 | OpCode::SWAP6 | OpCode::SWAP7 | OpCode::SWAP8 | OpCode::SWAP9 | OpCode::SWAP10 | OpCode::SWAP11 | OpCode::SWAP12 | OpCode::SWAP13 | OpCode::SWAP14 | OpCode::SWAP15 | OpCode::SWAP16 => 3,
        OpCode::MUL | OpCode::DIV | OpCode::SDIV | OpCode::MOD | OpCode::SMOD | OpCode::SIGNEXTEND => 5,
        OpCode::ADDMOD | OpCode::MULMOD | OpCode::JUMP => 8,
        OpCode::SHA3 => 30,
        OpCode::ADDRESS | OpCode::ORIGIN | OpCode::CALLER | OpCode::CALLVALUE | OpCode::CALLDATASIZE | OpCode::CODESIZE | OpCode::GASPRICE | OpCode::COINBASE | OpCode::TIMESTAMP | OpCode::NUMBER | OpCode::DIFFICULTY | OpCode::GASLIMIT | OpCode::CHAINID | OpCode::SELFBALANCE | OpCode::BASEFEE | OpCode::POP | OpCode::PC | OpCode::MSIZE | OpCode::GAS => 2,
        OpCode::SLOAD => 200,
        OpCode::SSTORE => 5000,
        OpCode::JUMPI => 10,
        _ => 1,
    }
}

impl OpCode {
    /// Decodes one byte of bytecode.
    pub fn from_byte(byte: u8) -> (r: OpCode)
        ensures
            r == decode(byte),
            opcode_byte(r) == byte,
            (r is UNKNOWN) == !is_assigned(byte),
    {
        match byte {
            0x00 => OpCode::STOP,
            0x01 => OpCode::ADD,
            0x02 => OpCode::MUL,
            0x03 => OpCode::SUB,
            0x04 => OpCode::DIV,
            0x05 => OpCode::SDIV,
            0x06 => OpCode::MOD,
            0x07 => OpCode::SMOD,
            0x08 => OpCode::ADDMOD,
            0x09 => OpCode::MULMOD,
            0x0a => OpCode::EXP,
            0x0b => OpCode::SIGNEXTEND,
            0x10 => OpCode::LT,
            0x11 => OpCode::GT,
            0x12 => OpCode::SLT,
            0x13 => OpCode::SGT,
            0x14 => OpCode::EQ,
            0x15 => OpCode::ISZERO,
            0x16 => OpCode::AND,
            0x17 => OpCode::OR,
            0x18 => OpCode::XOR,
            0x19 => OpCode::NOT,
            0x1a => OpCode::BYTE,
            0x1b => OpCode::SHL,
            0x1c => OpCode::SHR,
            0x1d => OpCode::SAR,
            0x20 => OpCode::SHA3,
            0x30 => OpCode::ADDRESS,
            0x31 => OpCode::BALANCE,
            0x32 => OpCode::ORIGIN,
            0x33 => OpCode::CALLER,
            0x34 => OpCode::CALLVALUE,
            0x35 => OpCode::CALLDATALOAD,
            0x36 => OpCode::CALLDATASIZE,
            0x37 => OpCode::CALLDATACOPY,
            0x38 => OpCode::CODESIZE,
            0x39 => OpCode::CODECOPY,
            0x3a => OpCode::GASPRICE,
            0x3b => OpCode::EXTCODESIZE,
            0x3c => OpCode::EXTCODECOPY,
            0x3d => OpCode::RETURNDATASIZE,
            0x3e => OpCode::RETURNDATACOPY,
            0x3f => OpCode::EXTCODEHASH,
            0x40 => OpCode::BLOCKHASH,
            0x41 => OpCode::COINBASE,
            0x42 => OpCode::TIMESTAMP,
            0x43 => OpCode::NUMBER,
            0x44 => OpCode::DIFFICULTY,
            0x45 => OpCode::GASLIMIT,
            0x46 => OpCode::CHAINID,
            0x47 => OpCode::SELFBALANCE,
            0x48 => OpCode::BASEFEE,
            0x50 => OpCode::POP,
            0x51 => OpCode::MLOAD,
            0x52 => OpCode::MSTORE,
            0x53 => OpCode::MSTORE8,
            0x54 => OpCode::SLOAD,
            0x55 => OpCode::SSTORE,
            0x56 => OpCode::JUMP,
            0x57 => OpCode::JUMPI,
            0x58 => OpCode::PC,
            0x59 => OpCode::MSIZE,
            0x5a => OpCode::GAS,
            0x5b => OpCode::JUMPDEST,
            0x60 => OpCode::PUSH1,
            0x61 => OpCode::PUSH2,
            0x62 => OpCode::PUSH3,
            0x63 => OpCode::PUSH4,
            0x64 => OpCode::PUSH5,
            0x65 => OpCode::PUSH6,
            0x66 => OpCode::PUSH7,
            0x67 => OpCode::PUSH8,
            0x68 => OpCode::PUSH9,
            0x69 => OpCode::PUSH10,
            0x6a => OpCode::PUSH11,
            0x6b => OpCode::PUSH12,
            0x6c => OpCode::PUSH13,
            0x6d => OpCode::PUSH14,
            0x6e => OpCode::PUSH15,
            0x6f => OpCode::PUSH16,
            0x70 => OpCode::PUSH17,
            0x71 => OpCode::PUSH18,
            0x72 => OpCode::PUSH19,
            0x73 => OpCode::PUSH20,
            0x74 => OpCode::PUSH21,
            0x75 => OpCode::PUSH22,
            0x76 => OpCode::PUSH23,
            0x77 => OpCode::PUSH24,
            0x78 => OpCode::PUSH25,
            0x79 => OpCode::PUSH26,
            0x7a => OpCode::PUSH27,
            0x7b => OpCode::PUSH28,
            0x7c => OpCode::PUSH29,
            0x7d => OpCode::PUSH30,
            0x7e => OpCode::PUSH31,
            0x7f => OpCode::PUSH32,
            0x80 => OpCode::DUP1,
            0x81 => OpCode::DUP2,
            0x82 => OpCode::DUP3,
            0x83 => OpCode::DUP4,
            0x84 => OpCode::DUP5,
            0x85 => OpCode::DUP6,
            0x86 => OpCode::DUP7,
            0x87 => OpCode::DUP8,
            0x88 => OpCode::DUP9,
            0x89 => OpCode::DUP10,
            0x8a => OpCode::DUP11,
            0x8b => OpCode::DUP12,
            0x8c => OpCode::DUP13,
            0x8d => OpCode::DUP14,
            0x8e => OpCode::DUP15,
            0x8f => OpCode::DUP16,
            0x90 => OpCode::SWAP1,
            0x91 => OpCode::SWAP2,
            0x92 => OpCode::SWAP3,
            0x93 => OpCode::SWAP4,
            0x94 => OpCode::SWAP5,
            0x95 => OpCode::SWAP6,
            0x96 => OpCode::SWAP7,
            0x97 => OpCode::SWAP8,
            0x98 => OpCode::SWAP9,
            0x99 => OpCode::SWAP10,
            0x9a => OpCode::SWAP11,
            0x9b => OpCode::SWAP12,
            0x9c => OpCode::SWAP13,
            0x9d => OpCode::SWAP14,
            0x9e => OpCode::SWAP15,
            0x9f => OpCode::SWAP16,
            0xa0 => OpCode::LOG0,
            0xa1 => OpCode::LOG1,
            0xa2 => OpCode::LOG2,
            0xa3 => OpCode::LOG3,
            0xa4 => OpCode::LOG4,
            0xf0 => OpCode::CREATE,
            0xf1 => OpCode::CALL,
            0xf2 => OpCode::CALLCODE,
            0xf3 => OpCode::RETURN,
            0xf4 => OpCode::DELEGATECALL,
            0xf5 => OpCode::CREATE2,
            0xfa => OpCode::STATICCALL,
            0xfd => OpCode::REVERT,
            0xfe => OpCode::INVALID,
            0xff => OpCode::SELFDESTRUCT,
            _ => OpCode::UNKNOWN(byte),
        }
    }

    /// The byte that encodes this opcode.
    pub fn to_byte(&self) -> (r: u8)
        ensures
            r == opcode_byte(*self),
    {
        match self {
            OpCode::STOP => 0x00,
            OpCode::ADD => 0x01,
            OpCode::MUL => 0x02,
            OpCode::SUB => 0x03,
            OpCode::DIV => 0x04,
            OpCode::SDIV => 0x05,
            OpCode::MOD => 0x06,
            OpCode::SMOD => 0x07,
            OpCode::ADDMOD => 0x08,
            OpCode::MULMOD => 0x09,
            OpCode::EXP => 0x0a,
            OpCode::SIGNEXTEND => 0x0b,
            OpCode::LT => 0x10,
            OpCode::GT => 0x11,
            OpCode::SLT => 0x12,
            OpCode::SGT => 0x13,
            OpCode::EQ => 0x14,
            OpCode::ISZERO => 0x15,
            OpCode::AND => 0x16,
            OpCode::OR => 0x17,
            OpCode::XOR => 0x18,
            OpCode::NOT => 0x19,
            OpCode::BYTE => 0x1a,
            OpCode::SHL => 0x1b,
            OpCode::SHR => 0x1c,
            OpCode::SAR => 0x1d,
            OpCode::SHA3 => 0x20,
            OpCode::ADDRESS => 0x30,
            OpCode::BALANCE => 0x31,
            OpCode::ORIGIN => 0x32,
            OpCode::CALLER => 0x33,
            OpCode::CALLVALUE => 0x34,
            OpCode::CALLDATALOAD => 0x35,
            OpCode::CALLDATASIZE => 0x36,
            OpCode::CALLDATACOPY => 0x37,
            OpCode::CODESIZE => 0x38,
            OpCode::CODECOPY => 0x39,
            OpCode::GASPRICE => 0x3a,
            OpCode::EXTCODESIZE => 0x3b,
            OpCode::EXTCODECOPY => 0x3c,
            OpCode::RETURNDATASIZE => 0x3d,
            OpCode::RETURNDATACOPY => 0x3e,
            OpCode::EXTCODEHASH => 0x3f,
            OpCode::BLOCKHASH => 0x40,
            OpCode::COINBASE => 0x41,
            OpCode::TIMESTAMP => 0x42,
            OpCode::NUMBER => 0x43,
            OpCode::DIFFICULTY => 0x44,
            OpCode::GASLIMIT => 0x45,
            OpCode::CHAINID => 0x46,
            OpCode::SELFBALANCE => 0x47,
            OpCode::BASEFEE => 0x48,
            OpCode::POP => 0x50,
            OpCode::MLOAD => 0x51,
            OpCode::MSTORE => 0x52,
            OpCode::MSTORE8 => 0x53,
            OpCode::SLOAD => 0x54,
            OpCode::SSTORE => 0x55,
            OpCode::JUMP => 0x56,
            OpCode::JUMPI => 0x57,
            OpCode::PC => 0x58,
            OpCode::MSIZE => 0x59,
            OpCode::GAS => 0x5a,
            OpCode::JUMPDEST => 0x5b,
            OpCode::PUSH1 => 0x60,
            OpCode::PUSH2 => 0x61,
            OpCode::PUSH3 => 0x62,
            OpCode::PUSH4 => 0x63,
            OpCode::PUSH5 => 0x64,
            OpCode::PUSH6 => 0x65,
            OpCode::PUSH7 => 0x66,
            OpCode::PUSH8 => 0x67,
            OpCode::PUSH9 => 0x68,
            OpCode::PUSH10 => 0x69,
            OpCode::PUSH11 => 0x6a,
            OpCode::PUSH12 => 0x6b,
            OpCode::PUSH13 => 0x6c,
            OpCode::PUSH14 => 0x6d,
            OpCode::PUSH15 => 0x6e,
            OpCode::PUSH16 => 0x6f,
            OpCode::PUSH17 => 0x70,
            OpCode::PUSH18 => 0x71,
            OpCode::PUSH19 => 0x72,
            OpCode::PUSH20 => 0x73,
            OpCode::PUSH21 => 0x74,
            OpCode::PUSH22 => 0x75,
            OpCode::PUSH23 => 0x76,
            OpCode::PUSH24 => 0x77,
            OpCode::PUSH25 => 0x78,
            OpCode::PUSH26 => 0x79,
            OpCode::PUSH27 => 0x7a,
            OpCode::PUSH28 => 0x7b,
            OpCode::PUSH29 => 0x7c,
            OpCode::PUSH30 => 0x7d,
            OpCode::PUSH31 => 0x7e,
            OpCode::PUSH32 => 0x7f,
            OpCode::DUP1 => 0x80,
            OpCode::DUP2 => 0x81,
            OpCode::DUP3 => 0x82,
            OpCode::DUP4 => 0x83,
            OpCode::DUP5 => 0x84,
            OpCode::DUP6 => 0x85,
            OpCode::DUP7 => 0x86,
            OpCode::DUP8 => 0x87,
            OpCode::DUP9 => 0x88,
            OpCode::DUP10 => 0x89,
            OpCode::DUP11 => 0x8a,
            OpCode::DUP12 => 0x8b,
            OpCode::DUP13 => 0x8c,
            OpCode::DUP14 => 0x8d,
            OpCode::DUP15 => 0x8e,
            OpCode::DUP16 => 0x8f,
            OpCode::SWAP1 => 0x90,
            OpCode::SWAP2 => 0x91,
            OpCode::SWAP3 => 0x92,
            OpCode::SWAP4 => 0x93,
            OpCode::SWAP5 => 0x94,
            OpCode::SWAP6 => 0x95,
            OpCode::SWAP7 => 0x96,
            OpCode::SWAP8 => 0x97,
            OpCode::SWAP9 => 0x98,
            OpCode::SWAP10 => 0x99,
            OpCode::SWAP11 => 0x9a,
            OpCode::SWAP12 => 0x9b,
            OpCode::SWAP13 => 0x9c,
            OpCode::SWAP14 => 0x9d,
            OpCode::SWAP15 => 0x9e,
            OpCode::SWAP16 => 0x9f,
            OpCode::LOG0 => 0xa0,
            OpCode::LOG1 => 0xa1,
            OpCode::LOG2 => 0xa2,
            OpCode::LOG3 => 0xa3,
            OpCode::LOG4 => 0xa4,
            OpCode::CREATE => 0xf0,
            OpCode::CALL => 0xf1,
            OpCode::CALLCODE => 0xf2,
            OpCode::RETURN => 0xf3,
            OpCode::DELEGATECALL => 0xf4,
            OpCode::CREATE2 => 0xf5,
            OpCode::STATICCALL => 0xfa,
            OpCode::REVERT => 0xfd,
            OpCode::INVALID => 0xfe,
            OpCode::SELFDESTRUCT => 0xff,
            OpCode::UNKNOWN(b) => *b,
        }
    }

    /// The base gas cost of this opcode.
    pub fn gas_cost(&self) -> (r: u64)
        ensures
            r == gas_of(*self),
    {
        match self {
            OpCode::STOP | OpCode::RETURN | OpCode::REVERT => 0,
            OpCode::ADD | OpCode::SUB | OpCode::LT | OpCode::GT | OpCode::SLT | OpCode::SGT | OpCode::EQ | OpCode::ISZERO | OpCode::AND | OpCode::OR | OpCode::XOR | OpCode::NOT | OpCode::BYTE | OpCode::SHL | OpCode::SHR | OpCode::SAR | OpCode::MLOAD | OpCode::MSTORE | OpCode::MSTORE8 | OpCode::PUSH1 | OpCode::PUSH2 | OpCode::PUSH3 | OpCode::PUSH4 | OpCode::PUSH5 | OpCode::PUSH6 | OpCode::PUSH7 | OpCode::PUSH8 | OpCode::PUSH9 | OpCode::PUSH10 | OpCode::PUSH11 | OpCode::PUSH12 | OpCode::PUSH13 | OpCode::PUSH14 | OpCode::PUSH15 | OpCode::PUSH16 | OpCode::PUSH17 | OpCode::PUSH18 | OpCode::PUSH19 | OpCode::PUSH20 | OpCode::PUSH21 | OpCode::PUSH22 | OpCode::PUSH23 | OpCode::PUSH24 | OpCode::PUSH25 | OpCode::PUSH26 | OpCode::PUSH27 | OpCode::PUSH28 | OpCode::PUSH29 | OpCode::PUSH30 | OpCode::PUSH31 | OpCode::PUSH32 | OpCode::DUP1 | OpCode::DUP2 | OpCode::DUP3 | OpCode::DUP4 | OpCode::DUP5 | OpCode::DUP6 | OpCode::DUP7 | OpCode::DUP8 | OpCode::DUP9 | OpCode::DUP10 | OpCode::DUP11 | OpCode::DUP12 | OpCode::DUP13 | OpCode::DUP14 | OpCode::DUP15 | OpCode::DUP16 | OpCode::SWAP1 | OpCode::SWAP2 | OpCode::SWAP3 | OpCode::SWAP4 | OpCode::SWAP5 | OpCode::SWAP6 | OpCode::SWAP7 | OpCode::SWAP8 | OpCode::SWAP9 | OpCode::SWAP10 | OpCode::SWAP11 | OpCode::SWAP12 | OpCode::SWAP13 | OpCode::SWAP14 | OpCode::SWAP15 | OpCode::SWAP16 => 3,
            OpCode::MUL | OpCode::DIV | OpCode::SDIV | OpCode::MOD | OpCode::SMOD | OpCode::SIGNEXTEND => 5,
            OpCode::ADDMOD | OpCode::MULMOD | OpCode::JUMP => 8,
            OpCode::SHA3 => 30,
            OpCode::ADDRESS | OpCode::ORIGIN | OpCode::CALLER | OpCode::CALLVALUE | OpCode::CALLDATASIZE | OpCode::CODESIZE | OpCode::GASPRICE | OpCode::COINBASE | OpCode::TIMESTAMP | OpCode::NUMBER | OpCode::DIFFICULTY | OpCode::GASLIMIT | OpCode::CHAINID | OpCode::SELFBALANCE | OpCode::BASEFEE | OpCode::POP | OpCode::PC | OpCode::MSIZE | OpCode::GAS => 2,
            OpCode::SLOAD => 200,
            OpCode::SSTORE => 5000,
            OpCode::JUMPI => 10,
            _ => 1,
        }
    }

    /// The number of immediate bytes that follow a PUSH opcode.
    pub fn push_size(&self) -> (r: Option<usize>)
        ensures
            r is Some == is_push(*self),
            r is Some ==> r.unwrap() == push_len(*self),
    {
        match self {
            OpCode::PUSH1 => Some(1),
            OpCode::PUSH2 => Some(2),
            OpCode::PUSH3 => Some(3),
            OpCode::PUSH4 => Some(4),
            OpCode::PUSH5 => Some(5),
            OpCode::PUSH6 => Some(6),
            OpCode::PUSH7 => Some(7),
            OpCode::PUSH8 => Some(8),
            OpCode::PUSH9 => Some(9),
            OpCode::PUSH10 => Some(10),
            OpCode::PUSH11 => Some(11),
            OpCode::PUSH12 => Some(12),
            OpCode::PUSH13 => Some(13),
            OpCode::PUSH14 => Some(14),
            OpCode::PUSH15 => Some(15),
            OpCode::PUSH16 => Some(16),
            OpCode::PUSH17 => Some(17),
            OpCode::PUSH18 => Some(18),
            OpCode::PUSH19 => Some(19),
            OpCode::PUSH20 => Some(20),
            OpCode::PUSH21 => Some(21),
            OpCode::PUSH22 => Some(22),
            OpCode::PUSH23 => Some(23),
            OpCode::PUSH24 => Some(24),
            OpCode::PUSH25 => Some(25),
            OpCode::PUSH26 => Some(26),
            OpCode::PUSH27 => Some(27),
            OpCode::PUSH28 => Some(28),
            OpCode::PUSH29 => Some(29),
            OpCode::PUSH30 => Some(30),
            OpCode::PUSH31 => Some(31),
            OpCode::PUSH32 => Some(32),
            _ => None,
        }
    }

    /// For DUPn, the depth `n` of the element that it copies.
    pub fn dup_depth(&self) -> (r: Option<usize>)
        ensures
            r is Some == is_dup(*self),
            r is Some ==> r.unwrap() == opcode_byte(*self) - 0x7f,
    {
        match self {
            OpCode::DUP1 => Some(1),
            OpCode::DUP2 => Some(2),
            OpCode::DUP3 => Some(3),
            OpCode::DUP4 => Some(4),
            OpCode::DUP5 => Some(5),
            OpCode::DUP6 => Some(6),
            OpCode::DUP7 => Some(7),
            OpCode::DUP8 => Some(8),
            OpCode::DUP9 => Some(9),
            OpCode::DUP10 => Some(10),
            OpCode::DUP11 => Some(11),
            OpCode::DUP12 => Some(12),
            OpCode::DUP13 => Some(13),
            OpCode::DUP14 => Some(14),
            OpCode::DUP15 => Some(15),
            OpCode::DUP16 => Some(16),
            _ => None,
        }
    }

    /// For SWAPn, the depth `n` of the element that it exchanges with the top.
    pub fn swap_depth(&self) -> (r: Option<usize>)
        ensures
            r is Some == is_swap(*self),
            r is Some ==> r.unwrap() == opcode_byte(*self) - 0x8f,
    {
        match self {
            OpCode::SWAP1 => Some(1),
            OpCode::SWAP2 => Some(2),
            OpCode::SWAP3 => Some(3),
            OpCode::SWAP4 => Some(4),
            OpCode::SWAP5 => Some(5),
            OpCode::SWAP6 => Some(6),
            OpCode::SWAP7 => Some(7),
            OpCode::SWAP8 => Some(8),
            OpCode::SWAP9 => Some(9),
            OpCode::SWAP10 => Some(10),
            OpCode::SWAP11 => Some(11),
            OpCode::SWAP12 => Some(12),
            OpCode::SWAP13 => Some(13),
            OpCode::SWAP14 => Some(14),
            OpCode::SWAP15 => Some(15),
            OpCode::SWAP16 => Some(16),
            _ => None,
        }
    }

    /// For LOGn, the number `n` of topics that it takes.
    pub fn log_topics(&self) -> (r: Option<usize>)
        ensures
            r is Some == is_log(*self),
            r is Some ==> r.unwrap() == opcode_byte(*self) - 0xa0,
    {
        match self {
            OpCode::LOG0 => Some(0),
            OpCode::LOG1 => Some(1),
            OpCode::LOG2 => Some(2),
            OpCode::LOG3 => Some(3),
            OpCode::LOG4 => Some(4),
            _ => None,
        }
    }
}

/// A PUSH opcode costs 3 gas, and JUMP is the opcode of byte 0x56, costing 8.
pub proof fn lemma_push_and_jump(op: OpCode)
    ensures
        is_push(op) ==> gas_of(op) == 3 && !(op is JUMP) && !(op is JUMPI),
        opcode_byte(op) == 0x56 && !(op is UNKNOWN) ==> op is JUMP && gas_of(op) == 8,
{
}

} // verus!
