//! The syntax verifier: one pass over the token stream that either
//! accepts the program or reports the first violation of the operand
//! shape rules as a single human-readable diagnostic.

use vstd::prelude::*;
use crate::lang::{DirectiveType, InstructionType};
use crate::numerals::{dec_nat, u32_to_decimal};
use crate::tokenizer::{Token, TokenData, TokenView, token_text, token_text_spec, token_views};

verus! {

/// The diagnostic for a token stream that ends while operands are still
/// expected.
pub open spec fn eof_text() -> Seq<char> {
    "Unexpected end of file"@
}

/// The diagnostic naming the source line, the expected token class, and
/// the offending token.
pub open spec fn error_message_spec(expected: Seq<char>, t: TokenView) -> Seq<char> {
    "Line "@ + dec_nat(t.line as nat) + ": Expected "@ + expected + " but saw \""@
        + token_text_spec(t.kind) + "\""@
}

/// The verdict of the verifier on the tokens from index `i` on, where
/// `prev_label` records whether the previous token was a leading label.
pub open spec fn verify_from(ts: Seq<TokenView>, i: int, prev_label: bool) -> Option<Seq<char>>
    decreases ts.len() - i, 1int,
{
    if i < 0 || i >= ts.len() {
        None
    } else {
        let t = ts[i];
        match t.kind {
            TokenData::Label(_) => {
                if prev_label {
                    Some(error_message_spec("a label, directive, or instruction"@, t))
                } else {
                    verify_from(ts, i + 1, true)
                }
            },
            TokenData::Directive(d) => {
                if i + 1 >= ts.len() {
                    Some(eof_text())
                } else {
                    let op = ts[i + 1];
                    match d {
                        DirectiveType::Byte => {
                            if op.kind matches TokenData::Character(_) {
                                verify_from(ts, i + 2, false)
                            } else {
                                Some(error_message_spec("an ASCII character"@, op))
                            }
                        },
                        DirectiveType::Word => {
                            if op.kind matches TokenData::Integer(_) {
                                verify_from(ts, i + 2, false)
                            } else {
                                Some(error_message_spec("an integer"@, op))
                            }
                        },
                    }
                }
            },
            TokenData::Instruction(ins) => verify_instruction_from(ts, i, ins),
            _ => Some(error_message_spec("a label, directive, or instruction"@, t)),
        }
    }
}

/// The verdict on one instruction statement at index `i`, checking its
/// operands against the instruction's shape group.
pub open spec fn verify_instruction_from(
    ts: Seq<TokenView>,
    i: int,
    ins: InstructionType,
) -> Option<Seq<char>>
    decreases ts.len() - i, 0int,
{
    if i < 0 || i >= ts.len() {
        None
    } else {
        match ins {
        InstructionType::End
        | InstructionType::OutputInteger
        | InstructionType::InputInteger
        | InstructionType::OutputASCII
        | InstructionType::InputASCII
        | InstructionType::ConvertASCIIToInteger
        | InstructionType::ConvertIntegerToASCII => verify_from(ts, i + 1, false),
        InstructionType::Jump => {
            if i + 1 >= ts.len() {
                Some(eof_text())
            } else if ts[i + 1].kind matches TokenData::Label(_) {
                verify_from(ts, i + 2, false)
            } else {
                Some(error_message_spec("a label"@, ts[i + 1]))
            }
        },
        InstructionType::JumpRelative => {
            if i + 1 >= ts.len() {
                Some(eof_text())
            } else if ts[i + 1].kind matches TokenData::Register(_) {
                verify_from(ts, i + 2, false)
            } else {
                Some(error_message_spec("a register"@, ts[i + 1]))
            }
        },
        InstructionType::NonZeroJump
        | InstructionType::GreaterThanZeroJump
        | InstructionType::LessThanZeroJump
        | InstructionType::CompareZeroJump
        | InstructionType::LoadAddress
        | InstructionType::StoreWord
        | InstructionType::LoadWord
        | InstructionType::StoreByte
        | InstructionType::LoadByte => {
            if i + 1 >= ts.len() || i + 2 >= ts.len() {
                Some(eof_text())
            } else if !(ts[i + 1].kind matches TokenData::Register(_)) {
                Some(error_message_spec("a register"@, ts[i + 1]))
            } else if ts[i + 2].kind matches TokenData::Label(_) {
                verify_from(ts, i + 3, false)
            } else {
                Some(error_message_spec("a label"@, ts[i + 2]))
            }
        },
        InstructionType::Move
        | InstructionType::Subtract
        | InstructionType::Multiply
        | InstructionType::Divide
        | InstructionType::And
        | InstructionType::Or
        | InstructionType::Compare => {
            if i + 1 >= ts.len() || i + 2 >= ts.len() {
                Some(eof_text())
            } else if !(ts[i + 1].kind matches TokenData::Register(_)) {
                Some(error_message_spec("a register"@, ts[i + 1]))
            } else if ts[i + 2].kind matches TokenData::Register(_) {
                verify_from(ts, i + 3, false)
            } else {
                Some(error_message_spec("a register"@, ts[i + 2]))
            }
        },
        InstructionType::Add | InstructionType::AddImmediate => {
            if i + 1 >= ts.len() || i + 2 >= ts.len() {
                Some(eof_text())
            } else if !(ts[i + 1].kind matches TokenData::Register(_)) {
                Some(error_message_spec("a register"@, ts[i + 1]))
            } else if ts[i + 2].kind matches TokenData::Register(_) || ts[i + 2].kind
                matches TokenData::Integer(_) {
                verify_from(ts, i + 3, false)
            } else {
                Some(error_message_spec("a register or an integer"@, ts[i + 2]))
            }
        },
        }
    }
}

/// The verifier's verdict on a whole token stream.
pub open spec fn verify_spec(ts: Seq<TokenView>) -> Option<Seq<char>> {
    verify_from(ts, 0, false)
}

/// The diagnostic for a stream that ends while operands are expected.
pub fn end_of_file() -> (s: String)
    ensures
        s@ == eof_text(),
{
    String::from_str("Unexpected end of file")
}

/// Build the diagnostic naming the source line, the expected token
/// class, and the offending token.
pub fn error_message(expected: &str, t: &Token) -> (s: String)
    ensures
        s@ == error_message_spec(expected@, t@),
{
    let mut s = String::from_str("Line ");
    let line = u32_to_decimal(t.line_number);
    s.append(line.as_str());
    s.append(": Expected ");
    s.append(expected);
    s.append(" but saw \"");
    let text = token_text(&t.token_type);
    s.append(text.as_str());
    s.append("\"");
    s
}

/// Check the operand shape rules over a whole token stream; the result
/// is the first diagnostic, or nothing when the program is well formed.
pub fn verify(tokens: &Vec<Token>) -> (r: Option<String>)
    ensures
        (r is Some) == (verify_spec(token_views(tokens@)) is Some),
        r matches Some(s) ==> verify_spec(token_views(tokens@)) == Some(s@),
{
    let ghost tv = token_views(tokens@);
    let mut i: usize = 0;
    let mut prev_label: bool = false;
    while i < tokens.len()
        invariant
            0 <= i <= tokens.len(),
            tv == token_views(tokens@),
            tv.len() == tokens@.len(),
            verify_from(tv, 0, false) == verify_from(tv, i as int, prev_label),
        decreases tokens.len() - i,
    {
        proof {
            assert(tv[i as int] == tokens@[i as int]@);
        }
        let t = &tokens[i];
        match &t.token_type {
            crate::tokenizer::TokenType::Label(_) => {
                if prev_label {
                    return Some(error_message("a label, directive, or instruction", t));
                }
                proof {
                    assert(verify_from(tv, i as int, prev_label) == verify_from(tv, i + 1, true));
                }
                prev_label = true;
                i = i + 1;
            },
            crate::tokenizer::TokenType::Directive(d) => {
                if i + 1 >= tokens.len() {
                    return Some(end_of_file());
                }
                proof {
                    assert(tv[i + 1] == tokens@[i + 1]@);
                }
                let op = &tokens[i + 1];
                match d {
                    DirectiveType::Byte => {
                        match &op.token_type {
                            crate::tokenizer::TokenType::Character(_) => {},
                            _ => {
                                return Some(error_message("an ASCII character", op));
                            },
                        }
                    },
                    DirectiveType::Word => {
                        match &op.token_type {
                            crate::tokenizer::TokenType::Integer(_) => {},
                            _ => {
                                return Some(error_message("an integer", op));
                            },
                        }
                    },
                }
                proof {
                    assert(verify_from(tv, i as int, prev_label) == verify_from(tv, i + 2, false));
                }
                prev_label = false;
                i = i + 2;
            },
            crate::tokenizer::TokenType::Instruction(ins) => {
                match ins {
                    InstructionType::End
                    | InstructionType::OutputInteger
                    | InstructionType::InputInteger
                    | InstructionType::OutputASCII
                    | InstructionType::InputASCII
                    | InstructionType::ConvertASCIIToInteger
                    | InstructionType::ConvertIntegerToASCII => {
                        proof {
                            assert(tv[i as int].kind == TokenData::Instruction(*ins));
                            assert(verify_from(tv, i as int, prev_label)
                                == verify_instruction_from(tv, i as int, *ins));
                            assert(verify_instruction_from(tv, i as int, *ins) == verify_from(
                                tv,
                                i + 1,
                                false,
                            ));
                        }
                        prev_label = false;
                        i = i + 1;
                    },
                    InstructionType::Jump => {
                        if i + 1 >= tokens.len() {
                            proof {
                                assert(tv.len() == tokens@.len());
                                assert(verify_from(tv, i as int, prev_label)
                                    == verify_instruction_from(tv, i as int, InstructionType::Jump));
                                assert(verify_instruction_from(tv, i as int, InstructionType::Jump)
                                    == Some(eof_text()));
                            }
                            return Some(end_of_file());
                        }
                        proof {
                            assert(tv[i + 1] == tokens@[i + 1]@);
                        }
                        let op = &tokens[i + 1];
                        match &op.token_type {
                            crate::tokenizer::TokenType::Label(_) => {},
                            _ => {
                                return Some(error_message("a label", op));
                            },
                        }
                        proof {
                            assert(verify_from(tv, i as int, prev_label) == verify_from(
                                tv,
                                i + 2,
                                false,
                            ));
                        }
                        prev_label = false;
                        i = i + 2;
                    },
                    InstructionType::JumpRelative => {
                        if i + 1 >= tokens.len() {
                            return Some(end_of_file());
                        }
                        proof {
                            assert(tv[i + 1] == tokens@[i + 1]@);
                        }
                        let op = &tokens[i + 1];
                        match &op.token_type {
                            crate::tokenizer::TokenType::Register(_) => {},
                            _ => {
                                return Some(error_message("a register", op));
                            },
                        }
                        proof {
                            assert(verify_from(tv, i as int, prev_label) == verify_from(
                                tv,
                                i + 2,
                                false,
                            ));
                        }
                        prev_label = false;
                        i = i + 2;
                    },
                    InstructionType::NonZeroJump
                    | InstructionType::GreaterThanZeroJump
                    | InstructionType::LessThanZeroJump
                    | InstructionType::CompareZeroJump
                    | InstructionType::LoadAddress
                    | InstructionType::StoreWord
                    | InstructionType::LoadWord
                    | InstructionType::StoreByte
                    | InstructionType::LoadByte => {
                        if i + 1 >= tokens.len() || i + 2 >= tokens.len() {
                            return Some(end_of_file());
                        }
                        proof {
                            assert(tv[i + 1] == tokens@[i + 1]@);
                            assert(tv[i + 2] == tokens@[i + 2]@);
                        }
                        let op1 = &tokens[i + 1];
                        let op2 = &tokens[i + 2];
                        match &op1.token_type {
                            crate::tokenizer::TokenType::Register(_) => {},
                            _ => {
                                return Some(error_message("a register", op1));
                            },
                        }
                        match &op2.token_type {
                            crate::tokenizer::TokenType::Label(_) => {},
                            _ => {
                                return Some(error_message("a label", op2));
                            },
                        }
                        proof {
                            assert(verify_from(tv, i as int, prev_label) == verify_from(
                                tv,
                                i + 3,
                                false,
                            ));
                        }
                        prev_label = false;
                        i = i + 3;
                    },
                    InstructionType::Move
                    | InstructionType::Subtract
                    | InstructionType::Multiply
                    | InstructionType::Divide
                    | InstructionType::And
                    | InstructionType::Or
                    | InstructionType::Compare => {
                        if i + 1 >= tokens.len() || i + 2 >= tokens.len() {
                            return Some(end_of_file());
                        }
                        proof {
                            assert(tv[i + 1] == tokens@[i + 1]@);
                            assert(tv[i + 2] == tokens@[i + 2]@);
                        }
                        let op1 = &tokens[i + 1];
                        let op2 = &tokens[i + 2];
                        match &op1.token_type {
                            crate::tokenizer::TokenType::Register(_) => {},
                            _ => {
                                return Some(error_message("a register", op1));
                            },
                        }
                        match &op2.token_type {
                            crate::tokenizer::TokenType::Register(_) => {},
                            _ => {
                                return Some(error_message("a register", op2));
                            },
                        }
                        proof {
                            assert(verify_from(tv, i as int, prev_label) == verify_from(
                                tv,
                                i + 3,
                                false,
                            ));
                        }
                        prev_label = false;
                        i = i + 3;
                    },
                    InstructionType::Add | InstructionType::AddImmediate => {
                        if i + 1 >= tokens.len() || i + 2 >= tokens.len() {
                            return Some(end_of_file());
                        }
                        proof {
                            assert(tv[i + 1] == tokens@[i + 1]@);
                            assert(tv[i + 2] == tokens@[i + 2]@);
                        }
                        let op1 = &tokens[i + 1];
                        let op2 = &tokens[i + 2];
                        match &op1.token_type {
                            crate::tokenizer::TokenType::Register(_) => {},
                            _ => {
                                return Some(error_message("a register", op1));
                            },
                        }
                        match &op2.token_type {
                            crate::tokenizer::TokenType::Register(_) => {},
                            crate::tokenizer::TokenType::Integer(_) => {},
                            _ => {
                                return Some(error_message("a register or an integer", op2));
                            },
                        }
                        proof {
                            assert(verify_from(tv, i as int, prev_label) == verify_from(
                                tv,
                                i + 3,
                                false,
                            ));
                        }
                        prev_label = false;
                        i = i + 3;
                    },
                }
            },
            _ => {
                return Some(error_message("a label, directive, or instruction", t));
            },
        }
    }
    None
}

} // verus!
