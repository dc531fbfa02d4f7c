//! The lexical model: the closed vocabularies of directives, instructions
//! and registers, and the bidirectional mapping between each symbolic value
//! and its small non-negative opcode integer.

use vstd::prelude::*;

verus! {

/// A value that encodes to a small non-negative opcode and decodes back.
pub trait ByteCode where Self: Sized {
    /// The opcode this value encodes to.
    spec fn spec_to_bytecode(&self) -> i32;

    /// The value a given opcode decodes to, if any.
    spec fn spec_from_bytecode(code: i32) -> Option<Self>;

    fn to_bytecode(&self) -> (r: i32)
        ensures
            r == self.spec_to_bytecode(),
    ;

    fn from_bytecode(code: i32) -> (r: Option<Self>)
        ensures
            r == Self::spec_from_bytecode(code),
    ;
}

/// A data directive: `Byte` occupies one octet in the image, `Word` two
/// (little-endian).
#[derive(Clone, Copy, Debug, PartialEq, Eq, Structural)]
pub enum DirectiveType {
    Byte,
    Word,
}

impl ByteCode for DirectiveType {
    open spec fn spec_to_bytecode(&self) -> i32 {
        match self {
            DirectiveType::Byte => 0,
            DirectiveType::Word => 1,
        }
    }

    open spec fn spec_from_bytecode(code: i32) -> Option<DirectiveType> {
        if code == 0 {
            Some(DirectiveType::Byte)
        } else if code == 1 {
            Some(DirectiveType::Word)
        } else {
            None
        }
    }

    fn to_bytecode(&self) -> (r: i32) {
        match self {
            DirectiveType::Byte => 0,
            DirectiveType::Word => 1,
        }
    }

    fn from_bytecode(code: i32) -> (r: Option<DirectiveType>) {
        if code == 0 {
            Some(DirectiveType::Byte)
        } else if code == 1 {
            Some(DirectiveType::Word)
        } else {
            None
        }
    }
}

/// The 26 instruction mnemonics, grouped by operand shape.
#[derive(Clone, Copy, Debug, PartialEq, Eq, Structural)]
pub enum InstructionType {
    End,
    OutputInteger,
    InputInteger,
    OutputASCII,
    InputASCII,
    ConvertASCIIToInteger,
    ConvertIntegerToASCII,
    Jump,
    JumpRelative,
    NonZeroJump,
    GreaterThanZeroJump,
    LessThanZeroJump,
    CompareZeroJump,
    Move,
    LoadAddress,
    StoreWord,
    LoadWord,
    StoreByte,
    LoadByte,
    Add,
    AddImmediate,
    Subtract,
    Multiply,
    Divide,
    And,
    Or,
    Compare,
}

impl ByteCode for InstructionType {
    open spec fn spec_to_bytecode(&self) -> i32 {
        match self {
            InstructionType::End => 2,
            InstructionType::OutputInteger => 3,
            InstructionType::InputInteger => 4,
            InstructionType::OutputASCII => 5,
            InstructionType::InputASCII => 6,
            InstructionType::ConvertASCIIToInteger => 7,
            InstructionType::ConvertIntegerToASCII => 8,
            InstructionType::Jump => 9,
            InstructionType::JumpRelative => 10,
            InstructionType::NonZeroJump => 11,
            InstructionType::GreaterThanZeroJump => 12,
            InstructionType::LessThanZeroJump => 13,
            InstructionType::CompareZeroJump => 14,
            InstructionType::Move => 15,
            InstructionType::LoadAddress => 16,
            InstructionType::StoreWord => 17,
            InstructionType::LoadWord => 18,
            InstructionType::StoreByte => 19,
            InstructionType::LoadByte => 20,
            InstructionType::Add => 21,
            InstructionType::AddImmediate => 22,
            InstructionType::Subtract => 23,
            InstructionType::Multiply => 24,
            InstructionType::Divide => 25,
            InstructionType::And => 26,
            InstructionType::Or => 27,
            InstructionType::Compare => 28,
        }
    }

    open spec fn spec_from_bytecode(code: i32) -> Option<InstructionType> {
        if code == 2 {
            Some(InstructionType::End)
        } else if code == 3 {
            Some(InstructionType::OutputInteger)
        } else if code == 4 {
            Some(InstructionType::InputInteger)
        } else if code == 5 {
            Some(InstructionType::OutputASCII)
        } else if code == 6 {
            Some(InstructionType::InputASCII)
        } else if code == 7 {
            Some(InstructionType::ConvertASCIIToInteger)
        } else if code == 8 {
            Some(InstructionType::ConvertIntegerToASCII)
        } else if code == 9 {
            Some(InstructionType::Jump)
        } else if code == 10 {
            Some(InstructionType::JumpRelative)
        } else if code == 11 {
            Some(InstructionType::NonZeroJump)
        } else if code == 12 {
            Some(InstructionType::GreaterThanZeroJump)
        } else if code == 13 {
            Some(InstructionType::LessThanZeroJump)
        } else if code == 14 {
            Some(InstructionType::CompareZeroJump)
        } else if code == 15 {
            Some(InstructionType::Move)
        } else if code == 16 {
            Some(InstructionType::LoadAddress)
        } else if code == 17 {
            Some(InstructionType::StoreWord)
        } else if code == 18 {
            Some(InstructionType::LoadWord)
        } else if code == 19 {
            Some(InstructionType::StoreByte)
        } else if code == 20 {
            Some(InstructionType::LoadByte)
        } else if code == 21 {
            Some(InstructionType::Add)
        } else if code == 22 {
            Some(InstructionType::AddImmediate)
        } else if code == 23 {
            Some(InstructionType::Subtract)
        } else if code == 24 {
            Some(InstructionType::Multiply)
        } else if code == 25 {
            Some(InstructionType::Divide)
        } else if code == 26 {
            Some(InstructionType::And)
        } else if code == 27 {
            Some(InstructionType::Or)
        } else if code == 28 {
            Some(InstructionType::Compare)
        } else {
            None
        }
    }

    fn to_bytecode(&self) -> (r: i32) {
        match self {
            InstructionType::End => 2,
            InstructionType::OutputInteger => 3,
            InstructionType::InputInteger => 4,
            InstructionType::OutputASCII => 5,
            InstructionType::InputASCII => 6,
            InstructionType::ConvertASCIIToInteger => 7,
            InstructionType::ConvertIntegerToASCII => 8,
            InstructionType::Jump => 9,
            InstructionType::JumpRelative => 10,
            InstructionType::NonZeroJump => 11,
            InstructionType::GreaterThanZeroJump => 12,
            InstructionType::LessThanZeroJump => 13,
            InstructionType::CompareZeroJump => 14,
            InstructionType::Move => 15,
            InstructionType::LoadAddress => 16,
            InstructionType::StoreWord => 17,
            InstructionType::LoadWord => 18,
            InstructionType::StoreByte => 19,
            InstructionType::LoadByte => 20,
            InstructionType::Add => 21,
            InstructionType::AddImmediate => 22,
            InstructionType::Subtract => 23,
            InstructionType::Multiply => 24,
            InstructionType::Divide => 25,
            InstructionType::And => 26,
            InstructionType::Or => 27,
            InstructionType::Compare => 28,
        }
    }

    fn from_bytecode(code: i32) -> (r: Option<InstructionType>) {
        if code == 2 {
            Some(InstructionType::End)
        } else if code == 3 {
            Some(InstructionType::OutputInteger)
        } else if code == 4 {
            Some(InstructionType::InputInteger)
        } else if code == 5 {
            Some(InstructionType::OutputASCII)
        } else if code == 6 {
            Some(InstructionType::InputASCII)
        } else if code == 7 {
            Some(InstructionType::ConvertASCIIToInteger)
        } else if code == 8 {
            Some(InstructionType::ConvertIntegerToASCII)
        } else if code == 9 {
            Some(InstructionType::Jump)
        } else if code == 10 {
            Some(InstructionType::JumpRelative)
        } else if code == 11 {
            Some(InstructionType::NonZeroJump)
        } else if code == 12 {
            Some(InstructionType::GreaterThanZeroJump)
        } else if code == 13 {
            Some(InstructionType::LessThanZeroJump)
        } else if code == 14 {
            Some(InstructionType::CompareZeroJump)
        } else if code == 15 {
            Some(InstructionType::Move)
        } else if code == 16 {
            Some(InstructionType::LoadAddress)
        } else if code == 17 {
            Some(InstructionType::StoreWord)
        } else if code == 18 {
            Some(InstructionType::LoadWord)
        } else if code == 19 {
            Some(InstructionType::StoreByte)
        } else if code == 20 {
            Some(InstructionType::LoadByte)
        } else if code == 21 {
            Some(InstructionType::Add)
        } else if code == 22 {
            Some(InstructionType::AddImmediate)
        } else if code == 23 {
            Some(InstructionType::Subtract)
        } else if code == 24 {
            Some(InstructionType::Multiply)
        } else if code == 25 {
            Some(InstructionType::Divide)
        } else if code == 26 {
            Some(InstructionType::And)
        } else if code == 27 {
            Some(InstructionType::Or)
        } else if code == 28 {
            Some(InstructionType::Compare)
        } else {
            None
        }
    }
}

/// The 13 registers. The opcode of each register is its index in the
/// execution register file: `Reg0`..`Reg6` map to 0..6, then `IO` (the
/// console channel), `PC` (the program counter), `SL`, `SP`, `FP`, `SB`.
#[derive(Clone, Copy, Debug, PartialEq, Eq, Structural)]
pub enum Register {
    Reg0,
    Reg1,
    Reg2,
    Reg3,
    Reg4,
    Reg5,
    Reg6,
    IO,
    PC,
    SL,
    SP,
    FP,
    SB,
}

impl ByteCode for Register {
    open spec fn spec_to_bytecode(&self) -> i32 {
        match self {
            Register::Reg0 => 0,
            Register::Reg1 => 1,
            Register::Reg2 => 2,
            Register::Reg3 => 3,
            Register::Reg4 => 4,
            Register::Reg5 => 5,
            Register::Reg6 => 6,
            Register::IO => 7,
            Register::PC => 8,
            Register::SL => 9,
            Register::SP => 10,
            Register::FP => 11,
            Register::SB => 12,
        }
    }

    open spec fn spec_from_bytecode(code: i32) -> Option<Register> {
        if code == 0 {
            Some(Register::Reg0)
        } else if code == 1 {
            Some(Register::Reg1)
        } else if code == 2 {
            Some(Register::Reg2)
        } else if code == 3 {
            Some(Register::Reg3)
        } else if code == 4 {
            Some(Register::Reg4)
        } else if code == 5 {
            Some(Register::Reg5)
        } else if code == 6 {
            Some(Register::Reg6)
        } else if code == 7 {
            Some(Register::IO)
        } else if code == 8 {
            Some(Register::PC)
        } else if code == 9 {
            Some(Register::SL)
        } else if code == 10 {
            Some(Register::SP)
        } else if code == 11 {
            Some(Register::FP)
        } else if code == 12 {
            Some(Register::SB)
        } else {
            None
        }
    }

    fn to_bytecode(&self) -> (r: i32) {
        match self {
            Register::Reg0 => 0,
            Register::Reg1 => 1,
            Register::Reg2 => 2,
            Register::Reg3 => 3,
            Register::Reg4 => 4,
            Register::Reg5 => 5,
            Register::Reg6 => 6,
            Register::IO => 7,
            Register::PC => 8,
            Register::SL => 9,
            Register::SP => 10,
            Register::FP => 11,
            Register::SB => 12,
        }
    }

    fn from_bytecode(code: i32) -> (r: Option<Register>) {
        if code == 0 {
            Some(Register::Reg0)
        } else if code == 1 {
            Some(Register::Reg1)
        } else if code == 2 {
            Some(Register::Reg2)
        } else if code == 3 {
            Some(Register::Reg3)
        } else if code == 4 {
            Some(Register::Reg4)
        } else if code == 5 {
            Some(Register::Reg5)
        } else if code == 6 {
            Some(Register::Reg6)
        } else if code == 7 {
            Some(Register::IO)
        } else if code == 8 {
            Some(Register::PC)
        } else if code == 9 {
            Some(Register::SL)
        } else if code == 10 {
            Some(Register::SP)
        } else if code == 11 {
            Some(Register::FP)
        } else if code == 12 {
            Some(Register::SB)
        } else {
            None
        }
    }
}

/// Encoding then decoding gives back every defined directive.
pub proof fn lemma_directive_bytecode_roundtrip(d: DirectiveType)
    ensures
        DirectiveType::spec_from_bytecode(d.spec_to_bytecode()) == Some(d),
{
}

/// Decoding succeeds exactly on the defined directive opcodes, and then
/// encodes back to the same opcode.
pub proof fn lemma_directive_bytecode_exact(code: i32)
    ensures
        (DirectiveType::spec_from_bytecode(code) is Some) <==> 0 <= code <= 1,
        DirectiveType::spec_from_bytecode(code) matches Some(d) ==> d.spec_to_bytecode() == code,
{
}

/// Encoding then decoding gives back every defined instruction.
pub proof fn lemma_instruction_bytecode_roundtrip(i: InstructionType)
    ensures
        InstructionType::spec_from_bytecode(i.spec_to_bytecode()) == Some(i),
{
}

/// Decoding succeeds exactly on the defined instruction opcodes, and then
/// encodes back to the same opcode.
pub proof fn lemma_instruction_bytecode_exact(code: i32)
    ensures
        (InstructionType::spec_from_bytecode(code) is Some) <==> 2 <= code <= 28,
        InstructionType::spec_from_bytecode(code) matches Some(i) ==> i.spec_to_bytecode() == code,
{
}

/// Encoding then decoding gives back every defined register.
pub proof fn lemma_register_bytecode_roundtrip(r: Register)
    ensures
        Register::spec_from_bytecode(r.spec_to_bytecode()) == Some(r),
{
}

/// Decoding succeeds exactly on the defined register opcodes, and then
/// encodes back to the same opcode.
pub proof fn lemma_register_bytecode_exact(code: i32)
    ensures
        (Register::spec_from_bytecode(code) is Some) <==> 0 <= code <= 12,
        Register::spec_from_bytecode(code) matches Some(r) ==> r.spec_to_bytecode() == code,
{
}

} // verus!
