use asmvm::assembler::{AsmError, Assembler, ByteCodeData, Command};
use asmvm::syntax::verify;
use asmvm::tokenizer::tokenize;
use asmvm::vm::{StepEffect, VmError, VM};

/// Assemble a source program, checking it first; panics on a syntax or
/// assembly error.
fn assemble(source: &str) -> (usize, Vec<u8>) {
    let lines: Vec<String> = source.lines().map(String::from).collect();
    let tokens = tokenize(&lines);
    if let Some(err) = verify(&tokens) {
        panic!("rejected: {}", err);
    }
    let (table, commands) = Assembler::to_commands(&tokens);
    Assembler::to_bytecode(&table, &commands).expect("assembly failed")
}

/// Assemble and run a program, feeding it scripted integer inputs and
/// collecting its console output as text.
fn run_with_inputs(source: &str, inputs: &[i32]) -> String {
    let (start, image) = assemble(source);
    let mut vm = VM::new(image);
    vm.set_start(start);
    let mut out = String::new();
    let mut next_input = 0;
    for _ in 0..100_000 {
        match vm.step().expect("vm fault") {
            StepEffect::Continue => {}
            StepEffect::Halt => return out,
            StepEffect::OutputInteger(v) => out.push_str(&format!("{}", v)),
            StepEffect::OutputByte(b) => out.push(b as char),
            StepEffect::RequestInteger | StepEffect::RequestAscii => {
                vm.set_io(inputs[next_input]);
                next_input += 1;
            }
        }
    }
    panic!("program did not halt");
}

fn run(source: &str) -> String {
    run_with_inputs(source, &[])
}

#[test]
fn output_defaults_to_zero() {
    assert_eq!(run("OUT\nEND"), "0");
}

#[test]
fn add_immediate_then_ascii_output() {
    assert_eq!(run("+ io 65\nASCO\nEND"), "A");
}

#[test]
fn data_region_precedes_code() {
    let (start, image) = assemble(".byte 'H'\n.byte 'i'\n.byte '!'\nEND");
    assert_eq!(start, 3);
    assert_eq!(&image[0..3], &[0x48, 0x69, 0x21]);
    // a single 12-octet End slot follows the data
    assert_eq!(image.len(), 15);
    assert_eq!(&image[3..15], &[2, 0, 0, 0, 0, 0, 0, 0, 0, 0, 0, 0]);
    assert_eq!(run(".byte 'H'\n.byte 'i'\n.byte '!'\nEND"), "");
}

#[test]
fn byte_directive_takes_characters_not_integers() {
    let lines: Vec<String> = ".byte 'H'\n.byte 'i'\n.byte 10\nEND"
        .lines()
        .map(String::from)
        .collect();
    let tokens = tokenize(&lines);
    assert_eq!(
        verify(&tokens),
        Some(String::from("Line 3: Expected an ASCII character but saw \"10\""))
    );
}

#[test]
fn two_ascii_outputs() {
    assert_eq!(run("+ io 48\nASCO\n+ io 1\nASCO\nEND"), "01");
}

#[test]
fn counting_loop_prints_digits() {
    let source = "+ reg_0 3\n+ reg_1 1\nloop: MOV io reg_0\nOUT\n- reg_0 reg_1\n>0 reg_0 loop\nEND";
    assert_eq!(run(source), "321");
}

#[test]
fn subtract_takes_registers_not_immediates() {
    let lines: Vec<String> =
        "+ reg_0 3\nloop: + io reg_0\nOUT\n- reg_0 1\n>0 reg_0 loop\nEND"
            .lines()
            .map(String::from)
            .collect();
    let tokens = tokenize(&lines);
    assert_eq!(
        verify(&tokens),
        Some(String::from("Line 4: Expected a register but saw \"1\""))
    );
}

#[test]
fn word_directive_is_little_endian() {
    let (start, image) = assemble(".word 258\nEND");
    assert_eq!(start, 2);
    assert_eq!(&image[0..2], &[2, 1]);
}

#[test]
fn start_address_zero_without_data() {
    let (start, image) = assemble("OUT\nEND");
    assert_eq!(start, 0);
    assert_eq!(image.len(), 24);
}

#[test]
fn end_program_halts_with_registers_zero() {
    let (start, image) = assemble("END");
    assert_eq!(start, 0);
    let mut vm = VM::new(image);
    vm.set_start(start);
    assert_eq!(vm.step(), Ok(StepEffect::Halt));
    for i in 0..13 {
        assert_eq!(vm.register(i), 0);
    }
}

#[test]
fn pc_advances_by_twelve_per_step() {
    let (start, image) = assemble("+ io 1\n+ io 1\nEND");
    let mut vm = VM::new(image);
    vm.set_start(start);
    assert_eq!(vm.step(), Ok(StepEffect::Continue));
    assert_eq!(vm.register(8), 12);
    assert_eq!(vm.step(), Ok(StepEffect::Continue));
    assert_eq!(vm.register(8), 24);
}

#[test]
fn integer_output_wraps_two_complement() {
    assert_eq!(run("+ io 2147483647\n+ io 1\nOUT\nEND"), "-2147483648");
}

#[test]
fn ascii_to_integer_conversion() {
    assert_eq!(run("+ io 53\nA2I\nOUT\nEND"), "5");
    // out of digit range collapses to -1
    assert_eq!(run("+ io 200\nA2I\nOUT\nEND"), "-1");
}

#[test]
fn integer_to_ascii_conversion() {
    assert_eq!(run("+ io 5\nI2A\nASCO\nEND"), "5");
    // out of range collapses to '0'
    assert_eq!(run("+ io 99\nI2A\nASCO\nEND"), "0");
}

#[test]
fn division_truncates() {
    assert_eq!(run("+ reg_0 7\n+ reg_1 2\n/ reg_0 reg_1\nMOV io reg_0\nOUT\nEND"), "3");
    assert_eq!(
        run("+ reg_0 7\n+ reg_1 2\n- reg_2 reg_0\n/ reg_2 reg_1\nMOV io reg_2\nOUT\nEND"),
        "-3"
    );
}

#[test]
fn division_by_zero_is_fatal() {
    let (start, image) = assemble("+ reg_0 5\n/ reg_0 reg_1\nEND");
    let mut vm = VM::new(image);
    vm.set_start(start);
    assert_eq!(vm.step(), Ok(StepEffect::Continue));
    assert_eq!(vm.step(), Err(VmError::DivideByZero));
}

#[test]
fn compare_yields_sign() {
    assert_eq!(run("+ reg_0 9\n+ reg_1 2\n== reg_0 reg_1\nMOV io reg_0\nOUT\nEND"), "1");
    assert_eq!(run("+ reg_0 2\n+ reg_1 9\n== reg_0 reg_1\nMOV io reg_0\nOUT\nEND"), "-1");
    assert_eq!(run("+ reg_0 4\n+ reg_1 4\n== reg_0 reg_1\nMOV io reg_0\nOUT\nEND"), "0");
}

#[test]
fn logical_and_or() {
    assert_eq!(run("+ reg_0 5\n+ reg_1 0\n&& reg_0 reg_1\nMOV io reg_0\nOUT\nEND"), "0");
    assert_eq!(run("+ reg_0 5\n+ reg_1 0\n|| reg_0 reg_1\nMOV io reg_0\nOUT\nEND"), "1");
}

#[test]
fn multiply_registers() {
    assert_eq!(run("+ reg_0 6\n+ reg_1 7\n* reg_0 reg_1\nMOV io reg_0\nOUT\nEND"), "42");
}

#[test]
fn store_and_load_byte_through_label() {
    let source = ".byte 'x'\nslot: .byte 'y'\n+ reg_0 65\nSTB reg_0 slot\nLDB io slot\nASCO\nEND";
    assert_eq!(run(source), "A");
}

#[test]
fn store_and_load_word_through_label() {
    let source = "buf: .word 0\n.word 0\n+ reg_0 305419896\nSTW reg_0 buf\nLDW io buf\nOUT\nEND";
    assert_eq!(run(source), "305419896");
}

#[test]
fn load_address_of_label() {
    let source = ".byte 'a'\n.byte 'b'\nhere: LDA io here\nOUT\nEND";
    assert_eq!(run(source), "2");
}

#[test]
fn unconditional_jump_skips_code() {
    let source = "JMP past\n+ io 9\npast: OUT\nEND";
    assert_eq!(run(source), "0");
}

#[test]
fn jump_relative_through_register() {
    let source = "LDA reg_0 past\nJMR reg_0\n+ io 9\npast: OUT\nEND";
    assert_eq!(run(source), "0");
}

#[test]
fn conditional_jumps_take_and_fall_through() {
    assert_eq!(run("=0 reg_0 past\n+ io 9\npast: OUT\nEND"), "0");
    assert_eq!(run("+ reg_0 1\n=0 reg_0 past\n+ io 9\npast: OUT\nEND"), "9");
    assert_eq!(run("+ reg_0 1\n!0 reg_0 past\n+ io 9\npast: OUT\nEND"), "0");
    assert_eq!(run("+ reg_0 1\n- reg_1 reg_0\n<0 reg_1 past\n+ io 9\npast: OUT\nEND"), "0");
}

#[test]
fn scripted_integer_input() {
    assert_eq!(run_with_inputs("IN\nOUT\nEND", &[42]), "42");
}

#[test]
fn scripted_ascii_input() {
    assert_eq!(run_with_inputs("ASCI\nASCO\nEND", &['Q' as i32]), "Q");
}

#[test]
fn unknown_label_is_an_assembly_error() {
    let lines: Vec<String> = "JMP nowhere\nEND".lines().map(String::from).collect();
    let tokens = tokenize(&lines);
    assert_eq!(verify(&tokens), None);
    let (table, commands) = Assembler::to_commands(&tokens);
    assert_eq!(
        Assembler::to_bytecode(&table, &commands),
        Err(AsmError::UnknownLabel)
    );
}

#[test]
fn malformed_directive_is_an_assembly_error() {
    // `.byte reg_0` passes grouping but carries an operand no directive
    // can emit; the verifier would have rejected it.
    let lines: Vec<String> = ".byte reg_0\nEND".lines().map(String::from).collect();
    let tokens = tokenize(&lines);
    assert!(verify(&tokens).is_some());
    let (table, commands) = Assembler::to_commands(&tokens);
    assert_eq!(
        Assembler::to_bytecode(&table, &commands),
        Err(AsmError::BadOperand)
    );
}

#[test]
fn decoded_slot_matches_encoded_command() {
    let cmd = Command::from_bytecode(&[21, 0, 1]).expect("decodable");
    match cmd.cmd_type {
        asmvm::assembler::CommandType::Instruction(i) => {
            assert_eq!(i, asmvm::lang::InstructionType::Add)
        }
        _ => panic!("wrong command type"),
    }
    // an undefined register code in a two-register slot cannot decode
    assert!(Command::from_bytecode(&[21, 0, 13]).is_none());
    // an undefined opcode decodes to a command of unknown kind
    let unknown = Command::from_bytecode(&[99, 0, 0]).expect("tolerated");
    assert!(matches!(
        unknown.cmd_type,
        asmvm::assembler::CommandType::Unknown
    ));
}

#[test]
fn encoded_instruction_slots_are_little_endian_words() {
    let lines: Vec<String> = "+ io 65\nEND".lines().map(String::from).collect();
    let tokens = tokenize(&lines);
    let (table, commands) = Assembler::to_commands(&tokens);
    match commands[0].to_bytecode(&table) {
        Ok(ByteCodeData::Instruction(words)) => assert_eq!(words, [22, 7, 65]),
        _ => panic!("unexpected encoding"),
    }
    let (_, image) = Assembler::to_bytecode(&table, &commands).unwrap();
    assert_eq!(&image[0..12], &[22, 0, 0, 0, 7, 0, 0, 0, 65, 0, 0, 0]);
}
