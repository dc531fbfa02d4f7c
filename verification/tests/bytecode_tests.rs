use asmvm::lang::{ByteCode, DirectiveType, InstructionType, Register};
use asmvm::tokenizer::{token_text, TokenType};

fn all_instructions() -> Vec<InstructionType> {
    vec![
        InstructionType::End,
        InstructionType::OutputInteger,
        InstructionType::InputInteger,
        InstructionType::OutputASCII,
        InstructionType::InputASCII,
        InstructionType::ConvertASCIIToInteger,
        InstructionType::ConvertIntegerToASCII,
        InstructionType::Jump,
        InstructionType::JumpRelative,
        InstructionType::NonZeroJump,
        InstructionType::GreaterThanZeroJump,
        InstructionType::LessThanZeroJump,
        InstructionType::CompareZeroJump,
        InstructionType::Move,
        InstructionType::LoadAddress,
        InstructionType::StoreWord,
        InstructionType::LoadWord,
        InstructionType::StoreByte,
        InstructionType::LoadByte,
        InstructionType::Add,
        InstructionType::AddImmediate,
        InstructionType::Subtract,
        InstructionType::Multiply,
        InstructionType::Divide,
        InstructionType::And,
        InstructionType::Or,
        InstructionType::Compare,
    ]
}

fn all_registers() -> Vec<Register> {
    vec![
        Register::Reg0,
        Register::Reg1,
        Register::Reg2,
        Register::Reg3,
        Register::Reg4,
        Register::Reg5,
        Register::Reg6,
        Register::IO,
        Register::PC,
        Register::SL,
        Register::SP,
        Register::FP,
        Register::SB,
    ]
}

#[test]
fn directive_roundtrip() {
    for d in [DirectiveType::Byte, DirectiveType::Word] {
        assert_eq!(DirectiveType::from_bytecode(d.to_bytecode()), Some(d));
    }
    assert_eq!(DirectiveType::Byte.to_bytecode(), 0);
    assert_eq!(DirectiveType::Word.to_bytecode(), 1);
}

#[test]
fn instruction_roundtrip() {
    for i in all_instructions() {
        assert_eq!(InstructionType::from_bytecode(i.to_bytecode()), Some(i));
    }
    assert_eq!(InstructionType::End.to_bytecode(), 2);
    assert_eq!(InstructionType::Compare.to_bytecode(), 28);
    assert_eq!(InstructionType::Add.to_bytecode(), 21);
    assert_eq!(InstructionType::AddImmediate.to_bytecode(), 22);
}

#[test]
fn register_roundtrip() {
    for (k, r) in all_registers().into_iter().enumerate() {
        assert_eq!(r.to_bytecode(), k as i32);
        assert_eq!(Register::from_bytecode(k as i32), Some(r));
    }
    assert_eq!(Register::IO.to_bytecode(), 7);
    assert_eq!(Register::PC.to_bytecode(), 8);
}

#[test]
fn undefined_opcodes_decode_to_nothing() {
    for n in [-1, 2, 3, 100, i32::MIN, i32::MAX] {
        assert_eq!(DirectiveType::from_bytecode(n), None);
    }
    for n in [-1, 0, 1, 29, 1000, i32::MIN, i32::MAX] {
        assert_eq!(InstructionType::from_bytecode(n), None);
    }
    for n in [-1, 13, 200, i32::MIN, i32::MAX] {
        assert_eq!(Register::from_bytecode(n), None);
    }
}

#[test]
fn token_text_renders_source_forms() {
    assert_eq!(token_text(&TokenType::Instruction(InstructionType::Add)), "+");
    assert_eq!(
        token_text(&TokenType::Instruction(InstructionType::AddImmediate)),
        "+"
    );
    assert_eq!(token_text(&TokenType::Instruction(InstructionType::End)), "END");
    assert_eq!(
        token_text(&TokenType::Instruction(InstructionType::CompareZeroJump)),
        "=0"
    );
    assert_eq!(token_text(&TokenType::Directive(DirectiveType::Byte)), ".byte");
    assert_eq!(token_text(&TokenType::Register(Register::Reg3)), "reg_3");
    assert_eq!(token_text(&TokenType::Register(Register::IO)), "IO");
    assert_eq!(token_text(&TokenType::Integer(5)), "5");
    assert_eq!(token_text(&TokenType::Integer(-120)), "-120");
    assert_eq!(token_text(&TokenType::Integer(i32::MIN)), "-2147483648");
    assert_eq!(token_text(&TokenType::Character('x')), "x");
    assert_eq!(token_text(&TokenType::Label(String::from("loop"))), "loop");
}
