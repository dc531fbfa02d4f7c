use asmvm::lang::{DirectiveType, InstructionType, Register};
use asmvm::syntax::verify;
use asmvm::tokenizer::{tokenize, Token, TokenType};

fn toks(source: &str) -> Vec<Token> {
    let lines: Vec<String> = source.lines().map(String::from).collect();
    tokenize(&lines)
}

fn kinds(source: &str) -> Vec<TokenType> {
    toks(source).into_iter().map(|t| t.token_type).collect()
}

#[test]
fn tokenizer_classifies_reserved_words() {
    assert_eq!(
        kinds(".byte .word JMP =0 io END"),
        vec![
            TokenType::Directive(DirectiveType::Byte),
            TokenType::Directive(DirectiveType::Word),
            TokenType::Instruction(InstructionType::Jump),
            TokenType::Instruction(InstructionType::CompareZeroJump),
            TokenType::Register(Register::IO),
            TokenType::Instruction(InstructionType::End),
        ]
    );
}

#[test]
fn tokenizer_strips_comments_and_blank_lines() {
    let ts = toks("# a comment\n\n  OUT # trailing\nEND");
    assert_eq!(ts.len(), 2);
    assert_eq!(ts[0].token_type, TokenType::Instruction(InstructionType::OutputInteger));
    assert_eq!(ts[0].line_number, 3);
    assert_eq!(ts[1].token_type, TokenType::Instruction(InstructionType::End));
    assert_eq!(ts[1].line_number, 4);
}

#[test]
fn tokenizer_splits_on_whitespace_runs() {
    let ts = toks("\t+  io\t\t65  ");
    assert_eq!(
        ts.into_iter().map(|t| t.token_type).collect::<Vec<_>>(),
        vec![
            TokenType::Instruction(InstructionType::Add),
            TokenType::Register(Register::IO),
            TokenType::Integer(65),
        ]
    );
}

#[test]
fn tokenizer_character_literals() {
    assert_eq!(kinds("'H'"), vec![TokenType::Character('H')]);
    assert_eq!(kinds("'9'"), vec![TokenType::Character('9')]);
    assert_eq!(kinds("'''"), vec![TokenType::Character('\'')]);
}

#[test]
fn tokenizer_integers_and_labels() {
    assert_eq!(kinds("42"), vec![TokenType::Integer(42)]);
    assert_eq!(kinds("-17"), vec![TokenType::Integer(-17)]);
    assert_eq!(kinds("+9"), vec![TokenType::Integer(9)]);
    assert_eq!(kinds("2147483647"), vec![TokenType::Integer(i32::MAX)]);
    assert_eq!(kinds("-2147483648"), vec![TokenType::Integer(i32::MIN)]);
    // out of range: falls through to a label
    assert_eq!(
        kinds("2147483648"),
        vec![TokenType::Label(String::from("2147483648"))]
    );
    assert_eq!(kinds("start"), vec![TokenType::Label(String::from("start"))]);
    assert_eq!(kinds("x2"), vec![TokenType::Label(String::from("x2"))]);
}

#[test]
fn tokenizer_line_numbers_are_one_based() {
    let ts = toks("END\nEND");
    assert_eq!(ts[0].line_number, 1);
    assert_eq!(ts[1].line_number, 2);
}

#[test]
fn verify_accepts_well_formed_programs() {
    assert_eq!(verify(&toks("OUT\nEND")), None);
    assert_eq!(verify(&toks(".byte 'H'\n.word 300\nEND")), None);
    assert_eq!(verify(&toks("loop: + io 1\nJMP loop\nEND")), None);
    assert_eq!(verify(&toks("MOV reg_0 reg_1\nJMR reg_0")), None);
    assert_eq!(verify(&toks("!0 reg_0 somewhere\nEND")), None);
    assert_eq!(verify(&toks("")), None);
}

#[test]
fn verify_reports_jump_without_label() {
    assert_eq!(
        verify(&toks("JMP 5")),
        Some(String::from("Line 1: Expected a label but saw \"5\""))
    );
}

#[test]
fn verify_reports_bad_directive_operands() {
    assert_eq!(
        verify(&toks(".byte 5\nEND")),
        Some(String::from("Line 1: Expected an ASCII character but saw \"5\""))
    );
    assert_eq!(
        verify(&toks(".word 'x'\nEND")),
        Some(String::from("Line 1: Expected an integer but saw \"x\""))
    );
}

#[test]
fn verify_reports_bad_instruction_operands() {
    assert_eq!(
        verify(&toks("MOV reg_0 7")),
        Some(String::from("Line 1: Expected a register but saw \"7\""))
    );
    assert_eq!(
        verify(&toks("+ 5 5")),
        Some(String::from("Line 1: Expected a register but saw \"5\""))
    );
    assert_eq!(
        verify(&toks("+ reg_0 somewhere")),
        Some(String::from(
            "Line 1: Expected a register or an integer but saw \"somewhere\""
        ))
    );
    assert_eq!(
        verify(&toks("LDB reg_0 12")),
        Some(String::from("Line 1: Expected a label but saw \"12\""))
    );
}

#[test]
fn verify_reports_consecutive_labels() {
    assert_eq!(
        verify(&toks("one: two: END")),
        Some(String::from(
            "Line 1: Expected a label, directive, or instruction but saw \"two:\""
        ))
    );
}

#[test]
fn verify_reports_stray_operand() {
    assert_eq!(
        verify(&toks("17\nEND")),
        Some(String::from(
            "Line 1: Expected a label, directive, or instruction but saw \"17\""
        ))
    );
}

#[test]
fn verify_reports_premature_end() {
    assert_eq!(verify(&toks(".byte")), Some(String::from("Unexpected end of file")));
    assert_eq!(verify(&toks("JMP")), Some(String::from("Unexpected end of file")));
    assert_eq!(
        verify(&toks("MOV reg_0")),
        Some(String::from("Unexpected end of file"))
    );
    // a nullary instruction may end the stream
    assert_eq!(verify(&toks("OUT")), None);
}

#[test]
fn verify_reports_first_error_only() {
    assert_eq!(
        verify(&toks("JMP 5\n.byte 9")),
        Some(String::from("Line 1: Expected a label but saw \"5\""))
    );
}
