//! The interpreter: a fixed-size memory loaded with the bytecode image,
//! a 13-slot register file, and a fetch-decode-execute step. Console
//! input and output are surfaced as effects so that the run loop around
//! the machine performs them.

use vstd::prelude::*;
use crate::encoding::{le_bytes_i32, read_i32_le, u32_of_le};
use crate::lang::{ByteCode, InstructionType};
use vstd::wrapping::i32_specs;
use vstd::arithmetic::div_mod::{lemma_div_pos_is_pos, lemma_div_nonincreasing, lemma_div_is_ordered_by_denominator};

verus! {

/// The size of the flat guest memory, in octets.
pub const MAX_MEMORY: usize = 10_000_000;

/// The register-file slot of the console channel.
pub const IO_INDEX: usize = 7;

/// The register-file slot of the program counter.
pub const PC_INDEX: usize = 8;

/// What one machine step asks of its surroundings: carry on, stop, write
/// a decimal integer or a raw byte to the console, or read a line and
/// deliver it through the IO register.
#[derive(Clone, Copy, Debug, PartialEq, Eq, Structural)]
pub enum StepEffect {
    Continue,
    Halt,
    OutputInteger(i32),
    OutputByte(u8),
    RequestInteger,
    RequestAscii,
}

/// A fatal machine fault: the program counter or a memory operand
/// outside memory, an undefined register opcode, or division by zero.
#[derive(Clone, Copy, Debug, PartialEq, Eq, Structural)]
pub enum VmError {
    PcOutOfRange,
    BadRegister,
    MemoryOutOfRange,
    DivideByZero,
}

/// The mathematical model of the machine: the register file and the
/// flat memory.
pub struct VmView {
    pub regs: Seq<i32>,
    pub mem: Seq<u8>,
}

/// A well-formed machine: 13 registers and the full fixed-size memory.
pub open spec fn vm_wf(v: VmView) -> bool {
    v.regs.len() == 13 && v.mem.len() == MAX_MEMORY
}

/// The 32-bit word stored little-endian at `a`.
pub open spec fn word_at(mem: Seq<u8>, a: int) -> u32 {
    u32_of_le(mem[a], mem[a + 1], mem[a + 2], mem[a + 3])
}

/// Division truncating toward zero, written over the four sign cases of
/// the mathematical integers.
pub open spec fn div_trunc(xi: int, di: int) -> int {
    if xi == 0 {
        0
    } else if xi > 0 && di > 0 {
        xi / di
    } else if xi < 0 && di < 0 {
        (xi * -1) / (di * -1)
    } else if xi < 0 {
        ((xi * -1) / di) * -1
    } else {
        (xi / (di * -1)) * -1
    }
}

/// Truncating division as the machine performs it: the one overflowing
/// quotient wraps back to the minimum value.
pub open spec fn div_wrap(x: i32, y: i32) -> i32 {
    if x == i32::MIN && y == -1 {
        i32::MIN
    } else if y != 0 {
        div_trunc(x as int, y as int) as i32
    } else {
        0
    }
}

/// Away from the one overflowing quotient, truncating division stays
/// within the 32-bit signed range.
pub proof fn lemma_div_trunc_range(x: i32, y: i32)
    requires
        y != 0,
        !(x == i32::MIN && y == -1),
    ensures
        i32::MIN <= div_trunc(x as int, y as int) <= i32::MAX,
{
    let xi = x as int;
    let di = y as int;
    if xi == 0 {
    } else if xi > 0 && di > 0 {
        lemma_div_pos_is_pos(xi, di);
        lemma_div_nonincreasing(xi, di);
    } else if xi < 0 && di < 0 {
        let nx = xi * -1;
        let nd = di * -1;
        lemma_div_pos_is_pos(nx, nd);
        lemma_div_nonincreasing(nx, nd);
        if x == i32::MIN {
            lemma_div_is_ordered_by_denominator(nx, 2, nd);
            assert(nx / 2 == 0x4000_0000);
        }
    } else if xi < 0 {
        lemma_div_pos_is_pos(xi * -1, di);
        lemma_div_nonincreasing(xi * -1, di);
    } else {
        lemma_div_pos_is_pos(xi, di * -1);
        lemma_div_nonincreasing(xi, di * -1);
    }
}

/// The low eight bits of a register value.
pub open spec fn low_byte(x: i32) -> u8 {
    ((x as u32) % 256) as u8
}

/// The state after one executed instruction, before the uniform program
/// counter advance, together with the effect it produces.
pub open spec fn exec_instr_spec(v: VmView, ins: InstructionType, a: i32, b: i32) -> Result<
    (VmView, StepEffect),
    VmError,
> {
    match ins {
        InstructionType::End => Ok((v, StepEffect::Halt)),
        InstructionType::OutputInteger => Ok((v, StepEffect::OutputInteger(v.regs[7]))),
        InstructionType::OutputASCII => Ok((v, StepEffect::OutputByte(low_byte(v.regs[7])))),
        InstructionType::InputInteger => Ok((v, StepEffect::RequestInteger)),
        InstructionType::InputASCII => Ok((v, StepEffect::RequestAscii)),
        InstructionType::ConvertASCIIToInteger => {
            let t = i32_specs::wrapping_sub(v.regs[7], 48);
            let r: i32 = if t < 0 || t > 9 {
                -1 as i32
            } else {
                t
            };
            Ok((VmView { regs: v.regs.update(7, r), ..v }, StepEffect::Continue))
        },
        InstructionType::ConvertIntegerToASCII => {
            let t = i32_specs::wrapping_add(v.regs[7], 48);
            let r: i32 = if t < 48 || t > 57 {
                48
            } else {
                t
            };
            Ok((VmView { regs: v.regs.update(7, r), ..v }, StepEffect::Continue))
        },
        InstructionType::Jump => Ok(
            (
                VmView { regs: v.regs.update(8, i32_specs::wrapping_sub(a, 12)), ..v },
                StepEffect::Continue,
            ),
        ),
        InstructionType::JumpRelative => {
            if !(0 <= a < 13) {
                Err(VmError::BadRegister)
            } else {
                Ok(
                    (
                        VmView {
                            regs: v.regs.update(8, i32_specs::wrapping_sub(v.regs[a as int], 12)),
                            ..v
                        },
                        StepEffect::Continue,
                    ),
                )
            }
        },
        InstructionType::NonZeroJump
        | InstructionType::GreaterThanZeroJump
        | InstructionType::LessThanZeroJump
        | InstructionType::CompareZeroJump => {
            if !(0 <= a < 13) {
                Err(VmError::BadRegister)
            } else {
                let x = v.regs[a as int];
                let taken = match ins {
                    InstructionType::NonZeroJump => x != 0,
                    InstructionType::GreaterThanZeroJump => x > 0,
                    InstructionType::LessThanZeroJump => x < 0,
                    _ => x == 0,
                };
                if taken {
                    Ok(
                        (
                            VmView { regs: v.regs.update(8, i32_specs::wrapping_sub(b, 12)), ..v },
                            StepEffect::Continue,
                        ),
                    )
                } else {
                    Ok((v, StepEffect::Continue))
                }
            }
        },
        InstructionType::LoadAddress => {
            if !(0 <= a < 13) {
                Err(VmError::BadRegister)
            } else {
                Ok((VmView { regs: v.regs.update(a as int, b), ..v }, StepEffect::Continue))
            }
        },
        InstructionType::LoadByte => {
            if !(0 <= a < 13) {
                Err(VmError::BadRegister)
            } else if !(0 <= b && b < v.mem.len()) {
                Err(VmError::MemoryOutOfRange)
            } else {
                Ok(
                    (
                        VmView { regs: v.regs.update(a as int, v.mem[b as int] as i32), ..v },
                        StepEffect::Continue,
                    ),
                )
            }
        },
        InstructionType::LoadWord => {
            if !(0 <= a < 13) {
                Err(VmError::BadRegister)
            } else if !(0 <= b && b + 4 <= v.mem.len()) {
                Err(VmError::MemoryOutOfRange)
            } else {
                Ok(
                    (
                        VmView {
                            regs: v.regs.update(a as int, word_at(v.mem, b as int) as i32),
                            ..v
                        },
                        StepEffect::Continue,
                    ),
                )
            }
        },
        InstructionType::StoreByte => {
            if !(0 <= a < 13) {
                Err(VmError::BadRegister)
            } else if !(0 <= b && b < v.mem.len()) {
                Err(VmError::MemoryOutOfRange)
            } else {
                Ok(
                    (
                        VmView { mem: v.mem.update(b as int, low_byte(v.regs[a as int])), ..v },
                        StepEffect::Continue,
                    ),
                )
            }
        },
        InstructionType::StoreWord => {
            if !(0 <= a < 13) {
                Err(VmError::BadRegister)
            } else if !(0 <= b && b + 4 <= v.mem.len()) {
                Err(VmError::MemoryOutOfRange)
            } else {
                let bs = le_bytes_i32(v.regs[a as int]);
                Ok(
                    (
                        VmView {
                            mem: v.mem.update(b as int, bs[0]).update(b + 1, bs[1]).update(
                                b + 2,
                                bs[2],
                            ).update(b + 3, bs[3]),
                            ..v
                        },
                        StepEffect::Continue,
                    ),
                )
            }
        },
        InstructionType::Move => {
            if !(0 <= a < 13 && 0 <= b < 13) {
                Err(VmError::BadRegister)
            } else {
                Ok(
                    (
                        VmView { regs: v.regs.update(a as int, v.regs[b as int]), ..v },
                        StepEffect::Continue,
                    ),
                )
            }
        },
        InstructionType::Add => {
            if !(0 <= a < 13 && 0 <= b < 13) {
                Err(VmError::BadRegister)
            } else {
                Ok(
                    (
                        VmView {
                            regs: v.regs.update(
                                a as int,
                                i32_specs::wrapping_add(v.regs[a as int], v.regs[b as int]),
                            ),
                            ..v
                        },
                        StepEffect::Continue,
                    ),
                )
            }
        },
        InstructionType::AddImmediate => {
            if !(0 <= a < 13) {
                Err(VmError::BadRegister)
            } else {
                Ok(
                    (
                        VmView {
                            regs: v.regs.update(
                                a as int,
                                i32_specs::wrapping_add(v.regs[a as int], b),
                            ),
                            ..v
                        },
                        StepEffect::Continue,
                    ),
                )
            }
        },
        InstructionType::Subtract => {
            if !(0 <= a < 13 && 0 <= b < 13) {
                Err(VmError::BadRegister)
            } else {
                Ok(
                    (
                        VmView {
                            regs: v.regs.update(
                                a as int,
                                i32_specs::wrapping_sub(v.regs[a as int], v.regs[b as int]),
                            ),
                            ..v
                        },
                        StepEffect::Continue,
                    ),
                )
            }
        },
        InstructionType::Multiply => {
            if !(0 <= a < 13 && 0 <= b < 13) {
                Err(VmError::BadRegister)
            } else {
                Ok(
                    (
                        VmView {
                            regs: v.regs.update(
                                a as int,
                                i32_specs::wrapping_mul(v.regs[a as int], v.regs[b as int]),
                            ),
                            ..v
                        },
                        StepEffect::Continue,
                    ),
                )
            }
        },
        InstructionType::Divide => {
            if !(0 <= a < 13 && 0 <= b < 13) {
                Err(VmError::BadRegister)
            } else if v.regs[b as int] == 0 {
                Err(VmError::DivideByZero)
            } else {
                Ok(
                    (
                        VmView {
                            regs: v.regs.update(
                                a as int,
                                div_wrap(v.regs[a as int], v.regs[b as int]),
                            ),
                            ..v
                        },
                        StepEffect::Continue,
                    ),
                )
            }
        },
        InstructionType::And | InstructionType::Or => {
            if !(0 <= a < 13 && 0 <= b < 13) {
                Err(VmError::BadRegister)
            } else {
                let x = v.regs[a as int];
                let y = v.regs[b as int];
                let t = match ins {
                    InstructionType::And => x != 0 && y != 0,
                    _ => x != 0 || y != 0,
                };
                let r: i32 = if t {
                    1
                } else {
                    0
                };
                Ok((VmView { regs: v.regs.update(a as int, r), ..v }, StepEffect::Continue))
            }
        },
        InstructionType::Compare => {
            if !(0 <= a < 13 && 0 <= b < 13) {
                Err(VmError::BadRegister)
            } else {
                let x = v.regs[a as int];
                let y = v.regs[b as int];
                let r: i32 = if x < y {
                    -1 as i32
                } else if x > y {
                    1
                } else {
                    0
                };
                Ok((VmView { regs: v.regs.update(a as int, r), ..v }, StepEffect::Continue))
            }
        },
    }
}

/// One whole machine step: fetch the slot at the program counter, decode
/// it, execute it, and advance the program counter by 12 unless the
/// machine halted or faulted. A slot whose opcode is not an instruction
/// stops the machine as `End` does.
pub open spec fn step_spec(v: VmView) -> (VmView, Result<StepEffect, VmError>) {
    let pc = v.regs[8];
    if !(0 <= pc && pc + 12 <= v.mem.len()) {
        (v, Err(VmError::PcOutOfRange))
    } else {
        let w0 = word_at(v.mem, pc as int) as i32;
        let a = word_at(v.mem, pc + 4) as i32;
        let b = word_at(v.mem, pc + 8) as i32;
        match InstructionType::spec_from_bytecode(w0) {
            None => (v, Ok(StepEffect::Halt)),
            Some(InstructionType::End) => (v, Ok(StepEffect::Halt)),
            Some(ins) => match exec_instr_spec(v, ins, a, b) {
                Err(e) => (v, Err(e)),
                Ok((v2, eff)) => (
                    VmView {
                        regs: v2.regs.update(8, i32_specs::wrapping_add(v2.regs[8], 12)),
                        ..v2
                    },
                    Ok(eff),
                ),
            },
        }
    }
}

/// The machine itself: the register file and the flat memory.
pub struct VM {
    registers: Vec<i32>,
    memory: Vec<u8>,
}

impl View for VM {
    type V = VmView;

    closed spec fn view(&self) -> VmView {
        VmView { regs: self.registers@, mem: self.memory@ }
    }
}

impl VM {
    /// A machine loaded with the given image: memory holds the image at
    /// offset zero and zeroes beyond it, and every register is zero.
    pub fn new(code: Vec<u8>) -> (r: VM)
        requires
            code@.len() <= MAX_MEMORY,
        ensures
            vm_wf(r@),
            forall|i: int| 0 <= i < 13 ==> r@.regs[i] == 0,
            forall|i: int| 0 <= i < code@.len() ==> r@.mem[i] == code@[i],
            forall|i: int| code@.len() <= i < MAX_MEMORY ==> r@.mem[i] == 0,
    {
        let mut memory: Vec<u8> = vec![0u8; MAX_MEMORY];
        proof {
            assert(forall|i: int|
                0 <= i < MAX_MEMORY ==> #[trigger] memory@[i] == 0u8) by {
                assert(forall|i: int|
                    0 <= i < MAX_MEMORY ==> cloned(
                        0u8,
                        #[trigger] memory@[i],
                    ));
            }
        }
        let mut i: usize = 0;
        while i < code.len()
            invariant
                0 <= i <= code@.len(),
                code@.len() <= MAX_MEMORY,
                memory@.len() == MAX_MEMORY,
                forall|j: int| 0 <= j < i ==> memory@[j] == code@[j],
                forall|j: int| i <= j < MAX_MEMORY ==> memory@[j] == 0,
            decreases code.len() - i,
        {
            memory[i] = code[i];
            i = i + 1;
        }
        let mut registers: Vec<i32> = Vec::new();
        let mut k: usize = 0;
        while k < 13
            invariant
                0 <= k <= 13,
                registers@.len() == k,
                forall|j: int| 0 <= j < k ==> registers@[j] == 0,
            decreases 13 - k,
        {
            registers.push(0);
            k = k + 1;
        }
        VM { registers, memory }
    }

    /// Point the program counter at the image's start address.
    pub fn set_start(&mut self, start_address: usize)
        requires
            vm_wf(old(self)@),
            start_address <= 0x7fff_ffff,
        ensures
            vm_wf(final(self)@),
            final(self)@.regs == old(self)@.regs.update(8, start_address as i32),
            final(self)@.mem == old(self)@.mem,
    {
        self.registers[PC_INDEX] = start_address as i32;
    }

    /// Deliver a console input value into the IO register.
    pub fn set_io(&mut self, value: i32)
        requires
            vm_wf(old(self)@),
        ensures
            vm_wf(final(self)@),
            final(self)@.regs == old(self)@.regs.update(7, value),
            final(self)@.mem == old(self)@.mem,
    {
        self.registers[IO_INDEX] = value;
    }

    /// The current value of a register, by its opcode index.
    pub fn register(&self, index: usize) -> (r: i32)
        requires
            vm_wf(self@),
            index < 13,
        ensures
            r == self@.regs[index as int],
    {
        self.registers[index]
    }

    /// Perform one fetch-decode-execute step.
    pub fn step(&mut self) -> (r: Result<StepEffect, VmError>)
        requires
            vm_wf(old(self)@),
        ensures
            vm_wf(final(self)@),
            final(self)@ == step_spec(old(self)@).0,
            r == step_spec(old(self)@).1,
    {
        let ghost v0 = self@;
        let pc = self.registers[PC_INDEX];
        if pc < 0 {
            return Err(VmError::PcOutOfRange);
        }
        let pcu = pc as usize;
        if pcu + 12 > self.memory.len() {
            return Err(VmError::PcOutOfRange);
        }
        let w0 = read_i32_le(&self.memory, pcu);
        let a = read_i32_le(&self.memory, pcu + 4);
        let b = read_i32_le(&self.memory, pcu + 8);
        proof {
            let gw0: u32 = word_at(v0.mem, pc as int);
            let ga: u32 = word_at(v0.mem, pc + 4);
            let gb: u32 = word_at(v0.mem, pc + 8);
            assert(w0 as u32 == gw0 && a as u32 == ga && b as u32 == gb);
            assert(w0 == gw0 as i32 && a == ga as i32 && b == gb as i32) by (bit_vector)
                requires
                    w0 as u32 == gw0 && a as u32 == ga && b as u32 == gb,
            ;
        }
        let ins = match InstructionType::from_bytecode(w0) {
            None => {
                return Ok(StepEffect::Halt);
            },
            Some(ins) => ins,
        };
        if matches!(ins, InstructionType::End) {
            return Ok(StepEffect::Halt);
        }
        let eff = match self.exec_instr(ins, a, b) {
            Ok(eff) => eff,
            Err(e) => {
                return Err(e);
            },
        };
        let newpc = self.registers[PC_INDEX].wrapping_add(12);
        self.registers[PC_INDEX] = newpc;
        Ok(eff)
    }

    /// Execute one decoded instruction, without the program counter
    /// advance that follows a continuing step.
    fn exec_instr(&mut self, ins: InstructionType, a: i32, b: i32) -> (r: Result<
        StepEffect,
        VmError,
    >)
        requires
            vm_wf(old(self)@),
            !(ins matches InstructionType::End),
        ensures
            vm_wf(final(self)@),
            match r {
                Ok(eff) => exec_instr_spec(old(self)@, ins, a, b) == Ok::<
                    (VmView, StepEffect),
                    VmError,
                >((final(self)@, eff)),
                Err(e) => final(self)@ == old(self)@ && exec_instr_spec(old(self)@, ins, a, b)
                    == Err::<(VmView, StepEffect), VmError>(e),
            },
    {
        match ins {
            InstructionType::End => Ok(StepEffect::Halt),
            InstructionType::OutputInteger => Ok(
                StepEffect::OutputInteger(self.registers[IO_INDEX]),
            ),
            InstructionType::OutputASCII => {
                let x = self.registers[IO_INDEX];
                let lo = (#[verifier::truncate] (x as u32)) % 256;
                Ok(StepEffect::OutputByte(lo as u8))
            },
            InstructionType::InputInteger => Ok(StepEffect::RequestInteger),
            InstructionType::InputASCII => Ok(StepEffect::RequestAscii),
            InstructionType::ConvertASCIIToInteger => {
                let t = self.registers[IO_INDEX].wrapping_sub(48);
                let r: i32 = if t < 0 || t > 9 {
                    -1
                } else {
                    t
                };
                self.registers[IO_INDEX] = r;
                Ok(StepEffect::Continue)
            },
            InstructionType::ConvertIntegerToASCII => {
                let t = self.registers[IO_INDEX].wrapping_add(48);
                let r: i32 = if t < 48 || t > 57 {
                    48
                } else {
                    t
                };
                self.registers[IO_INDEX] = r;
                Ok(StepEffect::Continue)
            },
            InstructionType::Jump => {
                self.registers[PC_INDEX] = a.wrapping_sub(12);
                Ok(StepEffect::Continue)
            },
            InstructionType::JumpRelative => {
                if a < 0 || a >= 13 {
                    return Err(VmError::BadRegister);
                }
                let target = self.registers[a as usize];
                self.registers[PC_INDEX] = target.wrapping_sub(12);
                Ok(StepEffect::Continue)
            },
            InstructionType::NonZeroJump
            | InstructionType::GreaterThanZeroJump
            | InstructionType::LessThanZeroJump
            | InstructionType::CompareZeroJump => {
                if a < 0 || a >= 13 {
                    return Err(VmError::BadRegister);
                }
                let x = self.registers[a as usize];
                let taken = match ins {
                    InstructionType::NonZeroJump => x != 0,
                    InstructionType::GreaterThanZeroJump => x > 0,
                    InstructionType::LessThanZeroJump => x < 0,
                    _ => x == 0,
                };
                if taken {
                    self.registers[PC_INDEX] = b.wrapping_sub(12);
                }
                Ok(StepEffect::Continue)
            },
            InstructionType::LoadAddress => {
                if a < 0 || a >= 13 {
                    return Err(VmError::BadRegister);
                }
                self.registers[a as usize] = b;
                Ok(StepEffect::Continue)
            },
            InstructionType::LoadByte => {
                if a < 0 || a >= 13 {
                    return Err(VmError::BadRegister);
                }
                if b < 0 || b as usize >= self.memory.len() {
                    return Err(VmError::MemoryOutOfRange);
                }
                let value = self.memory[b as usize];
                self.registers[a as usize] = value as i32;
                Ok(StepEffect::Continue)
            },
            InstructionType::LoadWord => {
                if a < 0 || a >= 13 {
                    return Err(VmError::BadRegister);
                }
                if b < 0 || b as usize + 4 > self.memory.len() {
                    return Err(VmError::MemoryOutOfRange);
                }
                let w = read_i32_le(&self.memory, b as usize);
                proof {
                    let gw: u32 = word_at(old(self)@.mem, b as int);
                    assert(w as u32 == gw);
                    assert(w == gw as i32) by (bit_vector)
                        requires
                            w as u32 == gw,
                    ;
                }
                self.registers[a as usize] = w;
                proof {
                    assert(w == word_at(old(self)@.mem, b as int) as i32);
                    assert(self@.regs == old(self)@.regs.update(
                        a as int,
                        word_at(old(self)@.mem, b as int) as i32,
                    ));
                }
                Ok(StepEffect::Continue)
            },
            InstructionType::StoreByte => {
                if a < 0 || a >= 13 {
                    return Err(VmError::BadRegister);
                }
                if b < 0 || b as usize >= self.memory.len() {
                    return Err(VmError::MemoryOutOfRange);
                }
                let x = self.registers[a as usize];
                let lo = (#[verifier::truncate] (x as u32)) % 256;
                self.memory[b as usize] = lo as u8;
                Ok(StepEffect::Continue)
            },
            InstructionType::StoreWord => {
                if a < 0 || a >= 13 {
                    return Err(VmError::BadRegister);
                }
                if b < 0 || b as usize + 4 > self.memory.len() {
                    return Err(VmError::MemoryOutOfRange);
                }
                let x = self.registers[a as usize];
                let xu = #[verifier::truncate] (x as u32);
                let bu = b as usize;
                proof {
                    assert(((xu >> 8) & 0xff) < 256 && ((xu >> 16) & 0xff) < 256 && ((xu >> 24)
                        & 0xff) < 256 && (xu & 0xff) < 256) by (bit_vector);
                }
                self.memory[bu] = (xu & 0xff) as u8;
                self.memory[bu + 1] = ((xu >> 8) & 0xff) as u8;
                self.memory[bu + 2] = ((xu >> 16) & 0xff) as u8;
                self.memory[bu + 3] = ((xu >> 24) & 0xff) as u8;
                Ok(StepEffect::Continue)
            },
            InstructionType::Move => {
                if a < 0 || a >= 13 || b < 0 || b >= 13 {
                    return Err(VmError::BadRegister);
                }
                let y = self.registers[b as usize];
                self.registers[a as usize] = y;
                Ok(StepEffect::Continue)
            },
            InstructionType::Add => {
                if a < 0 || a >= 13 || b < 0 || b >= 13 {
                    return Err(VmError::BadRegister);
                }
                let x = self.registers[a as usize];
                let y = self.registers[b as usize];
                self.registers[a as usize] = x.wrapping_add(y);
                Ok(StepEffect::Continue)
            },
            InstructionType::AddImmediate => {
                if a < 0 || a >= 13 {
                    return Err(VmError::BadRegister);
                }
                let x = self.registers[a as usize];
                self.registers[a as usize] = x.wrapping_add(b);
                Ok(StepEffect::Continue)
            },
            InstructionType::Subtract => {
                if a < 0 || a >= 13 || b < 0 || b >= 13 {
                    return Err(VmError::BadRegister);
                }
                let x = self.registers[a as usize];
                let y = self.registers[b as usize];
                self.registers[a as usize] = x.wrapping_sub(y);
                Ok(StepEffect::Continue)
            },
            InstructionType::Multiply => {
                if a < 0 || a >= 13 || b < 0 || b >= 13 {
                    return Err(VmError::BadRegister);
                }
                let x = self.registers[a as usize];
                let y = self.registers[b as usize];
                self.registers[a as usize] = x.wrapping_mul(y);
                Ok(StepEffect::Continue)
            },
            InstructionType::Divide => {
                if a < 0 || a >= 13 || b < 0 || b >= 13 {
                    return Err(VmError::BadRegister);
                }
                let x = self.registers[a as usize];
                let y = self.registers[b as usize];
                if y == 0 {
                    return Err(VmError::DivideByZero);
                }
                let q: i32 = if x == i32::MIN && y == -1 {
                    i32::MIN
                } else {
                    match x.checked_div(y) {
                        Some(q0) => q0,
                        None => {
                            proof {
                                lemma_div_trunc_range(x, y);
                            }
                            i32::MIN
                        },
                    }
                };
                proof {
                    assert(q == div_wrap(x, y));
                }
                self.registers[a as usize] = q;
                Ok(StepEffect::Continue)
            },
            InstructionType::And | InstructionType::Or => {
                if a < 0 || a >= 13 || b < 0 || b >= 13 {
                    return Err(VmError::BadRegister);
                }
                let x = self.registers[a as usize];
                let y = self.registers[b as usize];
                let t = match ins {
                    InstructionType::And => x != 0 && y != 0,
                    _ => x != 0 || y != 0,
                };
                self.registers[a as usize] = if t {
                    1
                } else {
                    0
                };
                Ok(StepEffect::Continue)
            },
            InstructionType::Compare => {
                if a < 0 || a >= 13 || b < 0 || b >= 13 {
                    return Err(VmError::BadRegister);
                }
                let x = self.registers[a as usize];
                let y = self.registers[b as usize];
                let r: i32 = if x < y {
                    -1
                } else if x > y {
                    1
                } else {
                    0
                };
                self.registers[a as usize] = r;
                Ok(StepEffect::Continue)
            },
        }
    }
}

/// The instructions that may redirect the program counter.
pub open spec fn branching(ins: InstructionType) -> bool {
    match ins {
        InstructionType::Jump
        | InstructionType::JumpRelative
        | InstructionType::NonZeroJump
        | InstructionType::GreaterThanZeroJump
        | InstructionType::LessThanZeroJump
        | InstructionType::CompareZeroJump => true,
        _ => false,
    }
}

/// The instructions whose first operand names the register they write.
pub open spec fn writes_operand_register(ins: InstructionType) -> bool {
    match ins {
        InstructionType::LoadAddress
        | InstructionType::LoadByte
        | InstructionType::LoadWord
        | InstructionType::Move
        | InstructionType::Add
        | InstructionType::AddImmediate
        | InstructionType::Subtract
        | InstructionType::Multiply
        | InstructionType::Divide
        | InstructionType::And
        | InstructionType::Or
        | InstructionType::Compare => true,
        _ => false,
    }
}

/// The instruction the slot at the program counter decodes to.
pub open spec fn decoded_instruction(v: VmView) -> Option<InstructionType> {
    InstructionType::spec_from_bytecode(word_at(v.mem, v.regs[8] as int) as i32)
}

/// The first operand word of the slot at the program counter.
pub open spec fn operand_a(v: VmView) -> i32 {
    word_at(v.mem, v.regs[8] + 4) as i32
}

/// After any successful step of a non-branching instruction that does
/// not itself write the program counter, the program counter has
/// advanced by exactly 12.
pub proof fn lemma_step_pc_advance(v: VmView)
    requires
        vm_wf(v),
        0 <= v.regs[8],
        v.regs[8] + 12 <= v.mem.len(),
        decoded_instruction(v) matches Some(ins) && !branching(ins) && !(
        writes_operand_register(ins) && operand_a(v) == 8),
        step_spec(v).1 matches Ok(e) && e != StepEffect::Halt,
    ensures
        step_spec(v).0.regs[8] == v.regs[8] + 12,
{
    let pc = v.regs[8];
    let ins = decoded_instruction(v).unwrap();
    let a = operand_a(v);
    let b = word_at(v.mem, pc + 8) as i32;
    match exec_instr_spec(v, ins, a, b) {
        Err(_) => {},
        Ok((v2, eff)) => {
            assert(v2.regs[8] == pc);
            assert(i32_specs::wrapping_add(v2.regs[8], 12) == pc + 12);
        },
    }
}

/// A machine whose program counter points at an `End` slot halts at
/// once, leaving every register and all of memory untouched; in
/// particular a freshly loaded machine whose whole program is `End`
/// halts with all registers still zero.
pub proof fn lemma_end_program_halts(v: VmView)
    requires
        vm_wf(v),
        v.regs[8] == 0,
        word_at(v.mem, 0) == 2,
    ensures
        step_spec(v) == (v, Ok::<StepEffect, VmError>(StepEffect::Halt)),
{
}

/// Reading back a word stored by `StoreWord` yields the stored register
/// value: the four updated octets decode to the value's unsigned image.
pub proof fn lemma_store_word_readback(x: i32, mem: Seq<u8>, b: int)
    requires
        0 <= b,
        b + 4 <= mem.len(),
    ensures
        word_at(
            mem.update(b, le_bytes_i32(x)[0]).update(b + 1, le_bytes_i32(x)[1]).update(
                b + 2,
                le_bytes_i32(x)[2],
            ).update(b + 3, le_bytes_i32(x)[3]),
            b,
        ) == x as u32,
{
    crate::encoding::lemma_le_u32_roundtrip(x as u32);
}

} // verus!
