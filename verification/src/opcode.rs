//! The instruction set: one byte of opcode, followed by zero, one or two
//! operand bytes.
use vstd::prelude::*;

verus! {

/// The instructions of the stack machine.
#[derive(Debug, PartialEq, Eq, Structural, Clone, Copy)]
pub enum OpCode {
    Constant,
    Return,
    Negate,
    Add,
    Substract,
    Multiply,
    Divide,
    Nil,
    True,
    False,
    Not,
    Equal,
    Greater,
    Less,
    Print,
    Pop,
    DefineGlobal,
    GetGlobal,
    SetGlobal,
    GetLocal,
    SetLocal,
    JumpIfFalse,
    Jump,
    Loop,
}

/// The byte that encodes each opcode.
pub open spec fn opcode_byte(op: OpCode) -> u8 {
    match op {
        OpCode::Constant => 0,
        OpCode::Return => 1,
        OpCode::Negate => 2,
        OpCode::Add => 3,
        OpCode::Substract => 4,
        OpCode::Multiply => 5,
        OpCode::Divide => 6,
        OpCode::Nil => 7,
        OpCode::True => 8,
        OpCode::False => 9,
        OpCode::Not => 10,
        OpCode::Equal => 11,
        OpCode::Greater => 12,
        OpCode::Less => 13,
        OpCode::Print => 14,
        OpCode::Pop => 15,
        OpCode::DefineGlobal => 16,
        OpCode::GetGlobal => 17,
        OpCode::SetGlobal => 18,
        OpCode::GetLocal => 19,
        OpCode::SetLocal => 20,
        OpCode::JumpIfFalse => 21,
        OpCode::Jump => 22,
        OpCode::Loop => 23,
    }
}

/// The byte just past the highest opcode encoding.
pub open spec fn opcode_count() -> u8 {
    24
}

/// Opcodes whose single operand byte indexes the constant pool.
pub open spec fn is_const_op(b: u8) -> bool {
    b == 0 || b == 16 || b == 17 || b == 18
}

/// Opcodes whose single operand byte indexes a local slot.
pub open spec fn is_slot_op(b: u8) -> bool {
    b == 19 || b == 20
}

/// Opcodes followed by a two-byte jump distance.
pub open spec fn is_jump_op(b: u8) -> bool {
    b == 21 || b == 22 || b == 23
}

/// Total length in bytes of the instruction whose opcode byte is `b`.
pub open spec fn instr_len(b: u8) -> int {
    if is_const_op(b) || is_slot_op(b) {
        2
    } else if is_jump_op(b) {
        3
    } else {
        1
    }
}

impl OpCode {
    /// Encodes the opcode as its instruction byte.
    pub fn as_byte(self) -> (b: u8)
        ensures
            b == opcode_byte(self),
    {
        match self {
            OpCode::Constant => 0,
            OpCode::Return => 1,
            OpCode::Negate => 2,
            OpCode::Add => 3,
            OpCode::Substract => 4,
            OpCode::Multiply => 5,
            OpCode::Divide => 6,
            OpCode::Nil => 7,
            OpCode::True => 8,
            OpCode::False => 9,
            OpCode::Not => 10,
            OpCode::Equal => 11,
            OpCode::Greater => 12,
            OpCode::Less => 13,
            OpCode::Print => 14,
            OpCode::Pop => 15,
            OpCode::DefineGlobal => 16,
            OpCode::GetGlobal => 17,
            OpCode::SetGlobal => 18,
            OpCode::GetLocal => 19,
            OpCode::SetLocal => 20,
            OpCode::JumpIfFalse => 21,
            OpCode::Jump => 22,
            OpCode::Loop => 23,
        }
    }

    /// Decodes an instruction byte; bytes outside the instruction set
    /// decode to nothing.
    pub fn from_byte(b: u8) -> (r: Option<OpCode>)
        ensures
            r matches Some(op) ==> opcode_byte(op) == b,
            r is Some <==> b < opcode_count(),
    {
        match b {
            0 => Some(OpCode::Constant),
            1 => Some(OpCode::Return),
            2 => Some(OpCode::Negate),
            3 => Some(OpCode::Add),
            4 => Some(OpCode::Substract),
            5 => Some(OpCode::Multiply),
            6 => Some(OpCode::Divide),
            7 => Some(OpCode::Nil),
            8 => Some(OpCode::True),
            9 => Some(OpCode::False),
            10 => Some(OpCode::Not),
            11 => Some(OpCode::Equal),
            12 => Some(OpCode::Greater),
            13 => Some(OpCode::Less),
            14 => Some(OpCode::Print),
            15 => Some(OpCode::Pop),
            16 => Some(OpCode::DefineGlobal),
            17 => Some(OpCode::GetGlobal),
            18 => Some(OpCode::SetGlobal),
            19 => Some(OpCode::GetLocal),
            20 => Some(OpCode::SetLocal),
            21 => Some(OpCode::JumpIfFalse),
            22 => Some(OpCode::Jump),
            23 => Some(OpCode::Loop),
            _ => None,
        }
    }
}

} // verus!
