//! The two-pass assembler: tokens are grouped into commands while label
//! addresses are assigned, then each command is encoded into the flat
//! little-endian bytecode image.

use vstd::prelude::*;
use crate::encoding::{le_bytes_i32, le_bytes_u16, push_i32_le, push_u16_le, push_u8};
use crate::lang::{ByteCode, DirectiveType, InstructionType, Register};
use crate::syntax::{verify_from, verify_instruction_from, verify_spec};
use crate::tokenizer::{Token, TokenData, TokenType, TokenView, token_views};

verus! {

/// What a command does: emit data for a directive, or encode one
/// instruction; `Unknown` is a command still being gathered.
#[derive(Clone, Copy, Debug, PartialEq, Eq, Structural)]
pub enum CommandType {
    Directive(DirectiveType),
    Instruction(InstructionType),
    Unknown,
}

/// One grouped statement: an optional leading label, the command kind,
/// and up to two operand tokens.
#[derive(Debug)]
pub struct Command {
    pub label: Option<Token>,
    pub cmd_type: CommandType,
    pub operand1: Option<Token>,
    pub operand2: Option<Token>,
}

/// The mathematical model of a command.
pub struct CommandView {
    pub label: Option<TokenView>,
    pub cmd_type: CommandType,
    pub operand1: Option<TokenView>,
    pub operand2: Option<TokenView>,
}

impl View for Command {
    type V = CommandView;

    open spec fn view(&self) -> CommandView {
        CommandView {
            label: match self.label {
                Some(t) => Some(t@),
                None => None,
            },
            cmd_type: self.cmd_type,
            operand1: match self.operand1 {
                Some(t) => Some(t@),
                None => None,
            },
            operand2: match self.operand2 {
                Some(t) => Some(t@),
                None => None,
            },
        }
    }
}

/// The views of a vector of commands.
pub open spec fn command_views(cs: Seq<Command>) -> Seq<CommandView> {
    cs.map_values(|c: Command| c@)
}

/// A command with nothing gathered yet.
pub open spec fn empty_command() -> CommandView {
    CommandView { label: None, cmd_type: CommandType::Unknown, operand1: None, operand2: None }
}

/// What adding an operand token does: it fills the first free operand
/// slot, and an integer in the second slot of an `Add` turns the command
/// into `AddImmediate`.
pub open spec fn add_operand_spec(c: CommandView, t: TokenView) -> CommandView {
    if c.operand1 is None {
        CommandView { operand1: Some(t), ..c }
    } else {
        let filled = CommandView { operand2: Some(t), ..c };
        if c.cmd_type == CommandType::Instruction(InstructionType::Add) && t.kind
            matches TokenData::Integer(_) {
            CommandView { cmd_type: CommandType::Instruction(InstructionType::AddImmediate), ..filled }
        } else {
            filled
        }
    }
}

/// Whether a command has all the operands its kind requires.
pub open spec fn complete_spec(c: CommandView) -> bool {
    match c.cmd_type {
        CommandType::Directive(_) => c.operand1 is Some,
        CommandType::Instruction(i) => match i {
            InstructionType::End
            | InstructionType::OutputInteger
            | InstructionType::InputInteger
            | InstructionType::OutputASCII
            | InstructionType::InputASCII
            | InstructionType::ConvertASCIIToInteger
            | InstructionType::ConvertIntegerToASCII => true,
            InstructionType::Jump | InstructionType::JumpRelative => c.operand1 is Some,
            _ => c.operand1 is Some && c.operand2 is Some,
        },
        CommandType::Unknown => false,
    }
}

/// The byte width a complete command occupies in the image: one or two
/// octets for a data directive, a 12-octet slot for an instruction.
pub open spec fn command_width(c: CommandView) -> int {
    match c.cmd_type {
        CommandType::Directive(DirectiveType::Byte) => 1,
        CommandType::Directive(DirectiveType::Word) => 2,
        CommandType::Instruction(_) => 12,
        CommandType::Unknown => 0,
    }
}

impl Command {
    /// A fresh command with nothing gathered yet.
    pub fn new() -> (r: Command)
        ensures
            r@ == empty_command(),
    {
        Command { label: None, cmd_type: CommandType::Unknown, operand1: None, operand2: None }
    }

    /// Add an operand token into the first free slot; an integer second
    /// operand promotes `Add` to `AddImmediate`.
    pub fn add_operand(&mut self, operand: Token)
        ensures
            final(self)@ == add_operand_spec(old(self)@, operand@),
    {
        if self.operand1.is_none() {
            self.operand1 = Some(operand);
        } else {
            let is_int = matches!(operand.token_type, TokenType::Integer(_));
            self.operand2 = Some(operand);
            if is_int && self.cmd_type == CommandType::Instruction(InstructionType::Add) {
                self.cmd_type = CommandType::Instruction(InstructionType::AddImmediate);
            }
        }
    }

    /// Whether this command has all the operands its kind requires.
    pub fn is_complete(&self) -> (r: bool)
        ensures
            r == complete_spec(self@),
    {
        match &self.cmd_type {
            CommandType::Directive(_) => self.is_directive_complete(),
            CommandType::Instruction(instruction) => {
                let i = *instruction;
                self.is_instruction_complete(&i)
            },
            CommandType::Unknown => false,
        }
    }

    fn is_directive_complete(&self) -> (r: bool)
        ensures
            r == (self@.operand1 is Some),
    {
        self.operand1.is_some()
    }

    fn is_instruction_complete(&self, instruction: &InstructionType) -> (r: bool)
        ensures
            r == complete_spec(
                CommandView { cmd_type: CommandType::Instruction(*instruction), ..self@ },
            ),
    {
        match instruction {
            InstructionType::End
            | InstructionType::OutputInteger
            | InstructionType::InputInteger
            | InstructionType::OutputASCII
            | InstructionType::InputASCII
            | InstructionType::ConvertASCIIToInteger
            | InstructionType::ConvertIntegerToASCII => true,
            InstructionType::Jump | InstructionType::JumpRelative => self.operand1.is_some(),
            _ => self.operand1.is_some() && self.operand2.is_some(),
        }
    }
}

/// The views of label-table entries: names as character sequences,
/// offsets as plain integers.
pub open spec fn entry_views(s: Seq<(String, i32)>) -> Seq<(Seq<char>, int)> {
    s.map_values(|e: (String, i32)| (e.0@, e.1 as int))
}

/// The mapping an entry list denotes: a later entry for the same name
/// overrides an earlier one.
pub open spec fn table_map(s: Seq<(Seq<char>, int)>) -> Map<Seq<char>, int>
    decreases s.len(),
{
    if s.len() == 0 {
        Map::empty()
    } else {
        table_map(s.drop_last()).insert(s.last().0, s.last().1)
    }
}

/// The mapping from label identifiers to the byte offsets of their
/// targets in the image.
pub struct LabelTable {
    entries: Vec<(String, i32)>,
}

impl View for LabelTable {
    type V = Map<Seq<char>, int>;

    closed spec fn view(&self) -> Map<Seq<char>, int> {
        table_map(entry_views(self.entries@))
    }
}

/// Entries untouched past `j` leave the denoted mapping at `name`
/// unchanged from the prefix up to `j`.
proof fn lemma_table_map_frame(s: Seq<(Seq<char>, int)>, j: int, name: Seq<char>)
    requires
        0 <= j <= s.len(),
        forall|k: int| j <= k < s.len() ==> (#[trigger] s[k]).0 != name,
    ensures
        table_map(s).contains_key(name) == table_map(s.take(j)).contains_key(name),
        table_map(s.take(j)).contains_key(name) ==> table_map(s)[name] == table_map(s.take(j))[name],
    decreases s.len() - j,
{
    if j < s.len() {
        lemma_table_map_frame(s, j + 1, name);
        assert(s.take(j + 1).drop_last() =~= s.take(j));
        assert(s.take(j + 1).last() == s[j]);
    } else {
        assert(s.take(j) =~= s);
    }
}

impl LabelTable {
    /// An empty label table.
    pub fn new() -> (r: LabelTable)
        ensures
            r@ == Map::<Seq<char>, int>::empty(),
    {
        let r = LabelTable { entries: Vec::new() };
        proof {
            assert(entry_views(r.entries@) =~= Seq::<(Seq<char>, int)>::empty());
        }
        r
    }

    /// Record `name` at byte offset `off`, overriding any earlier entry.
    pub fn insert(&mut self, name: String, off: i32)
        ensures
            final(self)@ == old(self)@.insert(name@, off as int),
    {
        let ghost oldes = self.entries@;
        let ghost gname = name@;
        self.entries.push((name, off));
        proof {
            assert(entry_views(self.entries@).drop_last() =~= entry_views(oldes));
            assert(entry_views(self.entries@).last() == (gname, off as int));
        }
    }

    /// Look up the byte offset recorded for `name`, if any.
    pub fn get(&self, name: &String) -> (r: Option<i32>)
        ensures
            match r {
                Some(v) => self@.contains_key(name@) && self@[name@] == v as int,
                None => !self@.contains_key(name@),
            },
    {
        let ghost ms = entry_views(self.entries@);
        let mut j: usize = self.entries.len();
        while j > 0
            invariant
                0 <= j <= self.entries.len(),
                ms == entry_views(self.entries@),
                ms.len() == self.entries@.len(),
                forall|k: int| j <= k < ms.len() ==> (#[trigger] ms[k]).0 != name@,
            decreases j,
        {
            j = j - 1;
            proof {
                assert(ms[j as int] == (self.entries@[j as int].0@, self.entries@[j as int].1 as int));
            }
            let hit = self.entries[j].0 == *name;
            if hit {
                proof {
                    lemma_table_map_frame(ms, j + 1, name@);
                    assert(ms.take(j + 1).drop_last() =~= ms.take(j as int));
                    assert(ms.take(j + 1).last() == ms[j as int]);
                }
                return Some(self.entries[j].1);
            }
        }
        proof {
            lemma_table_map_frame(ms, 0, name@);
            assert(ms.take(0) =~= Seq::<(Seq<char>, int)>::empty());
        }
        None
    }
}

/// The identifier a leading label records: the lexeme without its
/// trailing colon, where one is present.
pub open spec fn label_key(s: Seq<char>) -> Seq<char> {
    if s.len() >= 2 && s.last() == ':' {
        s.drop_last()
    } else {
        s
    }
}

/// The identifier a leading label lexeme records in the label table.
pub fn label_key_string(name: &String) -> (r: String)
    ensures
        r@ == label_key(name@),
{
    let n = name.as_str().unicode_len();
    if n >= 2 {
        let last = name.as_str().get_char(n - 1);
        if last == ':' {
            let head = name.as_str().substring_char(0, n - 1);
            proof {
                assert(name@.subrange(0, name@.len() - 1) =~= name@.drop_last());
            }
            return String::from_str(head);
        }
    }
    name.clone()
}

/// The state of assembly pass one: the label table built so far, the
/// completed commands, the byte offset of the next command, and the
/// command currently being gathered.
pub struct Pass1State {
    pub table: Map<Seq<char>, int>,
    pub commands: Seq<CommandView>,
    pub offset: int,
    pub cur: CommandView,
}

/// The starting state of pass one.
pub open spec fn pass1_init() -> Pass1State {
    Pass1State {
        table: Map::empty(),
        commands: Seq::empty(),
        offset: 0,
        cur: empty_command(),
    }
}

/// Flush the current command if it is complete: append it and advance
/// the offset by its byte width.
pub open spec fn pass1_flush(st: Pass1State) -> Pass1State {
    if complete_spec(st.cur) {
        Pass1State {
            table: st.table,
            commands: st.commands.push(st.cur),
            offset: st.offset + command_width(st.cur),
            cur: empty_command(),
        }
    } else {
        st
    }
}

/// Consume one token: a completed command is flushed first; an
/// instruction or directive token sets the command kind; a label either
/// names the current offset or becomes an operand; anything else becomes
/// an operand.
pub open spec fn pass1_step(st0: Pass1State, t: TokenView) -> Pass1State {
    let st = pass1_flush(st0);
    match t.kind {
        TokenData::Instruction(ins) => Pass1State {
            cur: CommandView { cmd_type: CommandType::Instruction(ins), ..st.cur },
            ..st
        },
        TokenData::Directive(d) => Pass1State {
            cur: CommandView { cmd_type: CommandType::Directive(d), ..st.cur },
            ..st
        },
        TokenData::Label(name) => {
            if st.cur.cmd_type == CommandType::Unknown {
                Pass1State {
                    table: st.table.insert(label_key(name), st.offset),
                    cur: CommandView { label: Some(t), ..st.cur },
                    ..st
                }
            } else {
                Pass1State { cur: add_operand_spec(st.cur, t), ..st }
            }
        },
        _ => Pass1State { cur: add_operand_spec(st.cur, t), ..st },
    }
}

/// Run pass one over the tokens from index `i` on; at the end a final
/// complete command is appended.
pub open spec fn pass1_from(ts: Seq<TokenView>, i: int, st: Pass1State) -> Pass1State
    decreases ts.len() - i,
{
    if 0 <= i < ts.len() {
        pass1_from(ts, i + 1, pass1_step(st, ts[i]))
    } else {
        if complete_spec(st.cur) {
            Pass1State { commands: st.commands.push(st.cur), ..st }
        } else {
            st
        }
    }
}

/// The result of pass one on a whole token stream.
pub open spec fn pass1_spec(ts: Seq<TokenView>) -> Pass1State {
    pass1_from(ts, 0, pass1_init())
}

/// The assembler: pass one groups tokens into commands, pass two encodes
/// them into the bytecode image.
pub struct Assembler;

impl Assembler {
    /// Pass one: group the token stream into commands, recording each
    /// leading label at the byte offset its command will start at.
    pub fn to_commands(tokens: &Vec<Token>) -> (r: (LabelTable, Vec<Command>))
        requires
            12 * tokens@.len() <= 0x7fff_ffff,
        ensures
            r.0@ == pass1_spec(token_views(tokens@)).table,
            command_views(r.1@) == pass1_spec(token_views(tokens@)).commands,
    {
        let ghost tv = token_views(tokens@);
        let mut table = LabelTable::new();
        let mut commands: Vec<Command> = Vec::new();
        let mut command = Command::new();
        let mut offset: i32 = 0;
        let mut i: usize = 0;
        proof {
            assert(command_views(commands@) =~= Seq::<CommandView>::empty());
        }
    
        while i < tokens.len()
            invariant
                0 <= i <= tokens.len(),
                12 * tokens@.len() <= 0x7fff_ffff,
                tv == token_views(tokens@),
                tv.len() == tokens@.len(),
                commands@.len() <= i,
                0 <= offset,
                offset as int <= 12 * commands@.len(),
                pass1_spec(tv) == pass1_from(
                    tv,
                    i as int,
                    Pass1State {
                        table: table@,
                        commands: command_views(commands@),
                        offset: offset as int,
                        cur: command@,
                    },
                ),
            decreases tokens.len() - i,
        {
            let ghost st0 = Pass1State {
                table: table@,
                commands: command_views(commands@),
                offset: offset as int,
                cur: command@,
            };
            proof {
                assert(tv[i as int] == tokens@[i as int]@);
            }
            if command.is_complete() {
                let w: i32 = match &command.cmd_type {
                    CommandType::Directive(DirectiveType::Byte) => 1,
                    CommandType::Directive(DirectiveType::Word) => 2,
                    _ => 12,
                };
                proof {
                    assert(w as int == command_width(command@));
                }
                offset = offset + w;
                let ghost oldcs = commands@;
                let ghost gcmd = command@;
                commands.push(command);
                command = Command::new();
                proof {
                    assert(command_views(commands@) =~= command_views(oldcs).push(gcmd));
                }
            }
            proof {
                assert(command_views(commands@) =~= pass1_flush(st0).commands);
                assert(Pass1State {
                    table: table@,
                    commands: command_views(commands@),
                    offset: offset as int,
                    cur: command@,
                } == pass1_flush(st0));
            }
            let ghost st1 = pass1_flush(st0);
            let t = &tokens[i];
            match &t.token_type {
                TokenType::Instruction(ins) => {
                    command.cmd_type = CommandType::Instruction(*ins);
                },
                TokenType::Directive(d) => {
                    command.cmd_type = CommandType::Directive(*d);
                },
                TokenType::Label(name) => {
                    if command.cmd_type == CommandType::Unknown {
                        table.insert(label_key_string(name), offset);
                        command.label = Some(t.duplicate());
                    } else {
                        command.add_operand(t.duplicate());
                    }
                },
                _ => {
                    command.add_operand(t.duplicate());
                },
            }
            proof {
                assert(Pass1State {
                    table: table@,
                    commands: command_views(commands@),
                    offset: offset as int,
                    cur: command@,
                } == pass1_step(st0, tv[i as int]));
            }
            i = i + 1;
        }
        if command.is_complete() {
            let ghost oldcs = commands@;
            let ghost gcmd = command@;
            commands.push(command);
            proof {
                assert(command_views(commands@) =~= command_views(oldcs).push(gcmd));
            }
        }
        (table, commands)
    }
}

/// Why assembly fails: a label operand with no entry in the label table,
/// or a command whose operands do not fit its kind.
#[derive(Clone, Copy, Debug, PartialEq, Eq, Structural)]
pub enum AsmError {
    UnknownLabel,
    BadOperand,
}

/// The encoded form of one command: one octet for a byte directive, a
/// 16-bit little-endian word for a word directive, or the three 32-bit
/// words of an instruction slot.
pub enum ByteCodeData {
    ByteDirective(u8),
    WordDirective(u16),
    Instruction([i32; 3]),
}

/// The mathematical model of one command's encoding.
pub enum ByteCodeView {
    ByteDirective(u8),
    WordDirective(u16),
    Instruction(i32, i32, i32),
}

impl View for ByteCodeData {
    type V = ByteCodeView;

    open spec fn view(&self) -> ByteCodeView {
        match self {
            ByteCodeData::ByteDirective(b) => ByteCodeView::ByteDirective(*b),
            ByteCodeData::WordDirective(w) => ByteCodeView::WordDirective(*w),
            ByteCodeData::Instruction(a) => ByteCodeView::Instruction(a@[0], a@[1], a@[2]),
        }
    }
}

/// What one operand token encodes to: a character's low eight bits, an
/// integer verbatim, a register's opcode, a label's recorded offset, and
/// zero for an absent operand.
pub open spec fn encode_operand_spec(op: Option<TokenView>, m: Map<Seq<char>, int>) -> Result<
    i32,
    AsmError,
> {
    match op {
        None => Ok(0),
        Some(t) => match t.kind {
            TokenData::Character(c) => Ok(((c as u32) % 256) as i32),
            TokenData::Integer(v) => Ok(v),
            TokenData::Register(r) => Ok(r.spec_to_bytecode()),
            TokenData::Label(name) => if m.contains_key(name) {
                Ok(m[name] as i32)
            } else {
                Err(AsmError::UnknownLabel)
            },
            _ => Ok(0),
        },
    }
}

/// What one command encodes to: a directive emits its operand's payload,
/// an instruction emits its opcode and two encoded operands.
pub open spec fn encode_command_spec(c: CommandView, m: Map<Seq<char>, int>) -> Result<
    ByteCodeView,
    AsmError,
> {
    match c.cmd_type {
        CommandType::Directive(_) => match c.operand1 {
            Some(t) => match t.kind {
                TokenData::Character(ch) => Ok(ByteCodeView::ByteDirective(((ch as u32) % 256) as u8)),
                TokenData::Integer(v) => Ok(ByteCodeView::WordDirective(v as u16)),
                _ => Err(AsmError::BadOperand),
            },
            None => Err(AsmError::BadOperand),
        },
        CommandType::Instruction(ins) => match encode_operand_spec(c.operand1, m) {
            Err(e) => Err(e),
            Ok(a) => match encode_operand_spec(c.operand2, m) {
                Err(e) => Err(e),
                Ok(b) => Ok(ByteCodeView::Instruction(ins.spec_to_bytecode(), a, b)),
            },
        },
        CommandType::Unknown => Err(AsmError::BadOperand),
    }
}

/// The octets one encoded command contributes to the image.
pub open spec fn data_bytes(d: ByteCodeView) -> Seq<u8> {
    match d {
        ByteCodeView::ByteDirective(b) => seq![b],
        ByteCodeView::WordDirective(w) => le_bytes_u16(w),
        ByteCodeView::Instruction(a, b, c) => le_bytes_i32(a) + le_bytes_i32(b) + le_bytes_i32(c),
    }
}

/// The image octets of the commands from index `i` on, or the first
/// encoding error.
pub open spec fn image_from(cs: Seq<CommandView>, i: int, m: Map<Seq<char>, int>) -> Result<
    Seq<u8>,
    AsmError,
>
    decreases cs.len() - i,
{
    if 0 <= i < cs.len() {
        match encode_command_spec(cs[i], m) {
            Err(e) => Err(e),
            Ok(d) => match image_from(cs, i + 1, m) {
                Err(e) => Err(e),
                Ok(rest) => Ok(data_bytes(d) + rest),
            },
        }
    } else {
        Ok(Seq::empty())
    }
}

/// The octets one command contributes, or none where encoding fails.
pub open spec fn encoded_len(c: CommandView, m: Map<Seq<char>, int>) -> int {
    match encode_command_spec(c, m) {
        Ok(d) => data_bytes(d).len() as int,
        Err(_) => 0,
    }
}

/// The byte offset of the first instruction slot among the commands from
/// index `i` on, if any instruction occurs there.
pub open spec fn start_from(cs: Seq<CommandView>, i: int, m: Map<Seq<char>, int>) -> Option<int>
    decreases cs.len() - i,
{
    if 0 <= i < cs.len() {
        if cs[i].cmd_type matches CommandType::Instruction(_) {
            Some(0)
        } else {
            match start_from(cs, i + 1, m) {
                Some(k) => Some(k + encoded_len(cs[i], m)),
                None => None,
            }
        }
    } else {
        None
    }
}

/// The start address the assembler reports: the byte offset of the first
/// instruction slot, or zero for an image with no instruction.
pub open spec fn start_address_spec(cs: Seq<CommandView>, m: Map<Seq<char>, int>) -> int {
    match start_from(cs, 0, m) {
        Some(k) => k,
        None => 0,
    }
}

impl Command {
    /// Encode this command against the label table.
    pub fn to_bytecode(&self, label_table: &LabelTable) -> (r: Result<ByteCodeData, AsmError>)
        ensures
            match r {
                Ok(d) => encode_command_spec(self@, label_table@) == Ok::<
                    ByteCodeView,
                    AsmError,
                >(d@),
                Err(e) => encode_command_spec(self@, label_table@) == Err::<
                    ByteCodeView,
                    AsmError,
                >(e),
            },
    {
        match &self.cmd_type {
            CommandType::Directive(_) => match &self.operand1 {
                Some(t) => match &t.token_type {
                    TokenType::Character(c) => {
                        let cu = *c as u32;
                        Ok(ByteCodeData::ByteDirective((cu % 256) as u8))
                    },
                    TokenType::Integer(v) => {
                        let w = #[verifier::truncate] (*v as u16);
                        Ok(ByteCodeData::WordDirective(w))
                    },
                    _ => Err(AsmError::BadOperand),
                },
                None => Err(AsmError::BadOperand),
            },
            CommandType::Instruction(ins) => {
                let opcode = ins.to_bytecode();
                let a = match Self::encode_operand(&self.operand1, label_table) {
                    Ok(a) => a,
                    Err(e) => {
                        return Err(e);
                    },
                };
                let b = match Self::encode_operand(&self.operand2, label_table) {
                    Ok(b) => b,
                    Err(e) => {
                        return Err(e);
                    },
                };
                Ok(ByteCodeData::Instruction([opcode, a, b]))
            },
            CommandType::Unknown => Err(AsmError::BadOperand),
        }
    }

    /// Encode one operand token against the label table.
    fn encode_operand(op: &Option<Token>, label_table: &LabelTable) -> (r: Result<i32, AsmError>)
        ensures
            match r {
                Ok(v) => encode_operand_spec(
                    match op {
                        Some(t) => Some(t@),
                        None => None,
                    },
                    label_table@,
                ) == Ok::<i32, AsmError>(v),
                Err(e) => encode_operand_spec(
                    match op {
                        Some(t) => Some(t@),
                        None => None,
                    },
                    label_table@,
                ) == Err::<i32, AsmError>(e),
            },
    {
        match op {
            None => Ok(0),
            Some(t) => match &t.token_type {
                TokenType::Character(c) => {
                    let cu = *c as u32;
                    Ok((cu % 256) as i32)
                },
                TokenType::Integer(v) => Ok(*v),
                TokenType::Register(r) => Ok(r.to_bytecode()),
                TokenType::Label(name) => match label_table.get(name) {
                    Some(off) => Ok(off),
                    None => Err(AsmError::UnknownLabel),
                },
                _ => Ok(0),
            },
        }
    }
}

impl Assembler {
    /// Pass two: encode the commands in source order into a flat image,
    /// reporting the byte offset of the first instruction slot.
    pub fn to_bytecode(label_table: &LabelTable, commands: &Vec<Command>) -> (r: Result<
        (usize, Vec<u8>),
        AsmError,
    >)
        ensures
            match r {
                Ok(p) => image_from(command_views(commands@), 0, label_table@) == Ok::<
                    Seq<u8>,
                    AsmError,
                >(p.1@) && p.0 as int == start_address_spec(command_views(commands@), label_table@),
                Err(e) => image_from(command_views(commands@), 0, label_table@) == Err::<
                    Seq<u8>,
                    AsmError,
                >(e),
            },
    {
        let ghost cvs = command_views(commands@);
        let ghost m = label_table@;
        let mut bytecode: Vec<u8> = Vec::new();
        let mut start: usize = 0;
        let mut found_start: bool = false;
        let mut ci: usize = 0;
        proof {
            assert(Seq::<u8>::empty() + bytecode@ =~= bytecode@);
        }
        while ci < commands.len()
            invariant
                0 <= ci <= commands.len(),
                cvs == command_views(commands@),
                m == label_table@,
                cvs.len() == commands@.len(),
                match image_from(cvs, ci as int, m) {
                    Ok(rest) => image_from(cvs, 0, m) == Ok::<Seq<u8>, AsmError>(bytecode@ + rest),
                    Err(e) => image_from(cvs, 0, m) == Err::<Seq<u8>, AsmError>(e),
                },
                found_start ==> start_from(cvs, 0, m) == Some(start as int),
                !found_start ==> start == 0 && match start_from(cvs, ci as int, m) {
                    Some(k) => start_from(cvs, 0, m) == Some(bytecode@.len() + k),
                    None => start_from(cvs, 0, m) is None,
                },
            decreases commands.len() - ci,
        {
            proof {
                assert(cvs[ci as int] == commands@[ci as int]@);
            }
            let cmd = &commands[ci];
            let d = match cmd.to_bytecode(label_table) {
                Ok(d) => d,
                Err(e) => {
                    return Err(e);
                },
            };
            let ghost oldbytes = bytecode@;
            match d {
                ByteCodeData::ByteDirective(b) => {
                    push_u8(&mut bytecode, b);
                    proof {
                        assert(bytecode@ =~= oldbytes + data_bytes(ByteCodeView::ByteDirective(b)));
                    }
                },
                ByteCodeData::WordDirective(w) => {
                    push_u16_le(&mut bytecode, w);
                },
                ByteCodeData::Instruction(a) => {
                    if !found_start {
                        start = bytecode.len();
                        found_start = true;
                    }
                    let w0 = a[0];
                    let w1 = a[1];
                    let w2 = a[2];
                    push_i32_le(&mut bytecode, w0);
                    push_i32_le(&mut bytecode, w1);
                    push_i32_le(&mut bytecode, w2);
                    proof {
                        assert(bytecode@ =~= oldbytes + (le_bytes_i32(w0) + le_bytes_i32(w1)
                            + le_bytes_i32(w2)));
                    }
                },
            }
            proof {
                assert(bytecode@ == oldbytes + data_bytes(d@));
                match image_from(cvs, ci + 1, m) {
                    Ok(rest) => {
                        assert(image_from(cvs, ci as int, m) == Ok::<Seq<u8>, AsmError>(data_bytes(
                            d@,
                        ) + rest));
                        assert(oldbytes + (data_bytes(d@) + rest) =~= bytecode@ + rest);
                    },
                    Err(e) => {
                        assert(image_from(cvs, ci as int, m) == Err::<Seq<u8>, AsmError>(e));
                    },
                }
                if !(cvs[ci as int].cmd_type matches CommandType::Instruction(_)) {
                    assert(encoded_len(cvs[ci as int], m) == data_bytes(d@).len());
                    assert(start_from(cvs, ci as int, m) == match start_from(cvs, ci + 1, m) {
                        Some(k) => Some(k + encoded_len(cvs[ci as int], m)),
                        None => None::<int>,
                    });
                }
            }
            ci = ci + 1;
        }
        proof {
            assert(image_from(cvs, ci as int, m) == Ok::<Seq<u8>, AsmError>(Seq::empty()));
            assert(bytecode@ + Seq::<u8>::empty() =~= bytecode@);
            if !found_start {
                assert(start_from(cvs, ci as int, m) is None);
            }
        }
        Ok((start, bytecode))
    }
}

/// A token view carrying a decoded operand; decoded tokens have no
/// source line, so they carry line 0.
pub open spec fn decoded(kind: TokenData) -> Option<TokenView> {
    Some(TokenView { kind, line: 0 })
}

/// The command a decoded instruction slot denotes: the opcode picks the
/// directive or instruction, register operands must decode to defined
/// registers, and an undefined opcode leaves the command unknown.
pub open spec fn from_bytecode_spec(c0: i32, c1: i32, c2: i32) -> Option<CommandView> {
    match DirectiveType::spec_from_bytecode(c0) {
        Some(d) => Some(CommandView { cmd_type: CommandType::Directive(d), ..empty_command() }),
        None => match InstructionType::spec_from_bytecode(c0) {
            None => Some(empty_command()),
            Some(ins) => match ins {
            InstructionType::Add
            | InstructionType::And
            | InstructionType::Divide
            | InstructionType::Compare
            | InstructionType::Move
            | InstructionType::Multiply
            | InstructionType::Or
            | InstructionType::Subtract => {
                match (Register::spec_from_bytecode(c1), Register::spec_from_bytecode(c2)) {
                    (Some(r1), Some(r2)) => Some(
                        CommandView {
                            cmd_type: CommandType::Instruction(ins),
                            operand1: decoded(TokenData::Register(r1)),
                            operand2: decoded(TokenData::Register(r2)),
                            ..empty_command()
                        },
                    ),
                    _ => None,
                }
            },
            InstructionType::AddImmediate
            | InstructionType::NonZeroJump
            | InstructionType::GreaterThanZeroJump
            | InstructionType::LessThanZeroJump
            | InstructionType::CompareZeroJump
            | InstructionType::LoadAddress
            | InstructionType::StoreWord
            | InstructionType::LoadWord
            | InstructionType::StoreByte
            | InstructionType::LoadByte => {
                match Register::spec_from_bytecode(c1) {
                    Some(r1) => Some(
                        CommandView {
                            cmd_type: CommandType::Instruction(ins),
                            operand1: decoded(TokenData::Register(r1)),
                            operand2: decoded(TokenData::Integer(c2)),
                            ..empty_command()
                        },
                    ),
                    None => None,
                }
            },
            InstructionType::Jump => Some(
                CommandView {
                    cmd_type: CommandType::Instruction(ins),
                    operand1: decoded(TokenData::Integer(c1)),
                    ..empty_command()
                },
            ),
            InstructionType::JumpRelative => {
                match Register::spec_from_bytecode(c1) {
                    Some(r1) => Some(
                        CommandView {
                            cmd_type: CommandType::Instruction(ins),
                            operand1: decoded(TokenData::Register(r1)),
                            ..empty_command()
                        },
                    ),
                    None => None,
                }
            },
            _ => Some(
                CommandView { cmd_type: CommandType::Instruction(ins), ..empty_command() },
            ),
            },
        },
    }
}

impl Command {
    /// Decode one 12-octet instruction slot, already split into its
    /// three 32-bit words, back into a command.
    pub fn from_bytecode(code: &[i32; 3]) -> (r: Option<Command>)
        ensures
            match r {
                Some(c) => from_bytecode_spec(code@[0], code@[1], code@[2]) == Some(c@),
                None => from_bytecode_spec(code@[0], code@[1], code@[2]) is None,
            },
    {
        let c0 = code[0];
        let c1 = code[1];
        let c2 = code[2];
        let mut command = Command::new();
        if let Some(directive) = DirectiveType::from_bytecode(c0) {
            command.cmd_type = CommandType::Directive(directive);
            return Some(command);
        }
        let instruction = match InstructionType::from_bytecode(c0) {
            Some(ins) => ins,
            None => {
                return Some(command);
            },
        };
        match &instruction {
            InstructionType::Add
            | InstructionType::And
            | InstructionType::Divide
            | InstructionType::Compare
            | InstructionType::Move
            | InstructionType::Multiply
            | InstructionType::Or
            | InstructionType::Subtract => {
                let r1 = match Register::from_bytecode(c1) {
                    Some(r) => r,
                    None => {
                        return None;
                    },
                };
                let r2 = match Register::from_bytecode(c2) {
                    Some(r) => r,
                    None => {
                        return None;
                    },
                };
                command.operand1 = Some(Token::new(TokenType::Register(r1), 0));
                command.operand2 = Some(Token::new(TokenType::Register(r2), 0));
            },
            InstructionType::AddImmediate
            | InstructionType::NonZeroJump
            | InstructionType::GreaterThanZeroJump
            | InstructionType::LessThanZeroJump
            | InstructionType::CompareZeroJump
            | InstructionType::LoadAddress
            | InstructionType::StoreWord
            | InstructionType::LoadWord
            | InstructionType::StoreByte
            | InstructionType::LoadByte => {
                let r1 = match Register::from_bytecode(c1) {
                    Some(r) => r,
                    None => {
                        return None;
                    },
                };
                command.operand1 = Some(Token::new(TokenType::Register(r1), 0));
                command.operand2 = Some(Token::new(TokenType::Integer(c2), 0));
            },
            InstructionType::Jump => {
                command.operand1 = Some(Token::new(TokenType::Integer(c1), 0));
            },
            InstructionType::JumpRelative => {
                let r1 = match Register::from_bytecode(c1) {
                    Some(r) => r,
                    None => {
                        return None;
                    },
                };
                command.operand1 = Some(Token::new(TokenType::Register(r1), 0));
            },
            _ => {},
        }
        command.cmd_type = CommandType::Instruction(instruction);
        Some(command)
    }
}

/// Whether a directive command carries the operand its kind expects: a
/// character for `Byte`, an integer for `Word`. Instruction commands and
/// gathering commands are unconstrained here.
pub open spec fn directive_shaped(c: CommandView) -> bool {
    match c.cmd_type {
        CommandType::Directive(DirectiveType::Byte) => match c.operand1 {
            Some(t) => t.kind matches TokenData::Character(_),
            None => false,
        },
        CommandType::Directive(DirectiveType::Word) => match c.operand1 {
            Some(t) => t.kind matches TokenData::Integer(_),
            None => false,
        },
        _ => true,
    }
}

/// The summed byte widths of the commands from index `i` on.
pub open spec fn widths_from(cs: Seq<CommandView>, i: int) -> int
    decreases cs.len() - i,
{
    if 0 <= i < cs.len() {
        command_width(cs[i]) + widths_from(cs, i + 1)
    } else {
        0
    }
}

/// The summed byte widths of the data directives before the first
/// instruction command, from index `i` on.
pub open spec fn prefix_data_width(cs: Seq<CommandView>, i: int) -> int
    decreases cs.len() - i,
{
    if 0 <= i < cs.len() {
        if cs[i].cmd_type matches CommandType::Instruction(_) {
            0
        } else {
            command_width(cs[i]) + prefix_data_width(cs, i + 1)
        }
    } else {
        0
    }
}

/// A command that encodes successfully and carries the operand its
/// directive kind expects contributes exactly its byte width to the
/// image: one octet for `Byte`, two for `Word`, twelve for an
/// instruction slot.
pub proof fn lemma_encoded_len_is_width(c: CommandView, m: Map<Seq<char>, int>)
    requires
        directive_shaped(c),
        encode_command_spec(c, m) is Ok,
    ensures
        encoded_len(c, m) == command_width(c),
{
}

/// The image of a valid program is exactly as long as the summed widths
/// of its commands: each data directive contributes its one or two
/// octets and each instruction its 12-octet slot.
pub proof fn lemma_image_length(cs: Seq<CommandView>, i: int, m: Map<Seq<char>, int>)
    requires
        forall|k: int| 0 <= k < cs.len() ==> directive_shaped(#[trigger] cs[k]),
        image_from(cs, i, m) is Ok,
    ensures
        image_from(cs, i, m).unwrap().len() == widths_from(cs, i),
    decreases cs.len() - i,
{
    if 0 <= i < cs.len() {
        lemma_image_length(cs, i + 1, m);
        lemma_encoded_len_is_width(cs[i], m);
    }
}

/// The reported start address of a valid program that has at least one
/// instruction is the summed width of the data directives before its
/// first instruction command.
pub proof fn lemma_start_address(cs: Seq<CommandView>, i: int, m: Map<Seq<char>, int>)
    requires
        0 <= i,
        forall|k: int| 0 <= k < cs.len() ==> directive_shaped(#[trigger] cs[k]),
        image_from(cs, i, m) is Ok,
    ensures
        start_from(cs, i, m) matches Some(k) ==> k == prefix_data_width(cs, i),
        (start_from(cs, i, m) is None) ==> forall|j: int|
            i <= j < cs.len() ==> !((#[trigger] cs[j]).cmd_type matches CommandType::Instruction(
                _,
            )),
    decreases cs.len() - i,
{
    if 0 <= i < cs.len() {
        assert(encode_command_spec(cs[i], m) is Ok);
        assert(image_from(cs, i + 1, m) is Ok);
        lemma_start_address(cs, i + 1, m);
        lemma_encoded_len_is_width(cs[i], m);
        if !(cs[i].cmd_type matches CommandType::Instruction(_)) {
            match start_from(cs, i + 1, m) {
                Some(k) => {
                    assert(start_from(cs, i, m) == Some(k + encoded_len(cs[i], m)));
                },
                None => {
                    assert(start_from(cs, i, m) is None);
                },
            }
        }
        if start_from(cs, i, m) is None {
            assert forall|j: int|
                i <= j < cs.len() implies !((#[trigger] cs[j]).cmd_type
                matches CommandType::Instruction(_)) by {
                if j > i {
                    assert(!(cs[j].cmd_type matches CommandType::Instruction(_)));
                }
            }
        }
    }
}

/// Whether a command's leading label records the identifier `name`:
/// the label lexeme, without its trailing colon, spells `name`.
pub open spec fn labeled(c: CommandView, name: Seq<char>) -> bool {
    match c.label {
        Some(t) => match t.kind {
            TokenData::Label(s) => label_key(s) == name,
            _ => false,
        },
        None => false,
    }
}

/// The summed byte widths of the first `j` commands.
pub open spec fn widths_upto(cs: Seq<CommandView>, j: int) -> int
    decreases j,
{
    if j <= 0 {
        0
    } else {
        widths_upto(cs, j - 1) + command_width(cs[j - 1])
    }
}

/// A width prefix sum reads only the commands before its bound.
proof fn lemma_widths_upto_push(cs: Seq<CommandView>, c: CommandView, j: int)
    requires
        0 <= j <= cs.len(),
    ensures
        widths_upto(cs.push(c), j) == widths_upto(cs, j),
    decreases j,
{
    if j > 0 {
        lemma_widths_upto_push(cs, c, j - 1);
    }
}

/// The invariant pass one maintains: the running offset is the summed
/// width of the completed commands; a completed command whose label is
/// not reused later (nor by the command being gathered) is in the table
/// at its own byte offset; and the gathered command's label is in the
/// table at the current offset.
pub open spec fn pass1_inv(st: Pass1State) -> bool {
    &&& st.offset == widths_upto(st.commands, st.commands.len() as int)
    &&& (forall|j: int, name: Seq<char>|
        0 <= j < st.commands.len() && #[trigger] labeled(st.commands[j], name) && (
        forall|k: int| j < k < st.commands.len() ==> !labeled(#[trigger] st.commands[k], name))
            && !labeled(st.cur, name) ==> st.table.contains_key(name) && st.table[name]
            == widths_upto(st.commands, j))
    &&& (forall|name: Seq<char>|
        #[trigger] labeled(st.cur, name) ==> st.table.contains_key(name) && st.table[name]
            == st.offset)
}

/// What pass one guarantees of its result: every command whose label is
/// not reused by a later command, nor left on an incomplete trailing
/// fragment, stands in the table at the summed width of the commands
/// before it.
pub open spec fn labels_resolved(fin: Pass1State) -> bool {
    forall|j: int, name: Seq<char>|
        0 <= j < fin.commands.len() && #[trigger] labeled(fin.commands[j], name) && (
        forall|k: int| j < k < fin.commands.len() ==> !labeled(#[trigger] fin.commands[k], name))
            && (complete_spec(fin.cur) || !labeled(fin.cur, name)) ==> fin.table.contains_key(name)
            && fin.table[name] == widths_upto(fin.commands, j)
}

/// Whether, from index `i` on, no statement ever carries a second
/// leading label: a label token never arrives while the gathered
/// command is still of unknown kind and already labeled. The syntax
/// verifier rejects exactly the programs that break this.
pub open spec fn pass1_single_labels(ts: Seq<TokenView>, i: int, st: Pass1State) -> bool
    decreases ts.len() - i,
{
    if 0 <= i < ts.len() {
        let st1 = pass1_flush(st);
        let ok = match ts[i].kind {
            TokenData::Label(_) => !(st1.cur.cmd_type == CommandType::Unknown && st1.cur.label
                is Some),
            _ => true,
        };
        ok && pass1_single_labels(ts, i + 1, pass1_step(st, ts[i]))
    } else {
        true
    }
}

/// Flushing a completed command preserves the pass-one invariant.
proof fn lemma_pass1_flush_inv(st: Pass1State)
    requires
        pass1_inv(st),
    ensures
        pass1_inv(pass1_flush(st)),
{
    if complete_spec(st.cur) {
        let st2 = pass1_flush(st);
        let n = st.commands.len() as int;
        assert(st2.commands == st.commands.push(st.cur));
        assert(widths_upto(st2.commands, n) == widths_upto(st.commands, n)) by {
            lemma_widths_upto_push(st.commands, st.cur, n);
        }
        assert(st2.commands[n] == st.cur);
        assert(st2.offset == widths_upto(st2.commands, st2.commands.len() as int));
        assert forall|j: int, name: Seq<char>|
            0 <= j < st2.commands.len() && #[trigger] labeled(st2.commands[j], name)
                && (forall|k: int|
                j < k < st2.commands.len() ==> !labeled(#[trigger] st2.commands[k], name))
                && !labeled(st2.cur, name) implies st2.table.contains_key(name) && st2.table[name]
            == widths_upto(st2.commands, j) by {
            lemma_widths_upto_push(st.commands, st.cur, j);
            if j < n {
                assert(st2.commands[j] == st.commands[j]);
                assert(!labeled(st.cur, name)) by {
                    assert(st2.commands[n] == st.cur);
                    assert(!labeled(st2.commands[n], name));
                }
                assert forall|k: int|
                    j < k < st.commands.len() implies !labeled(#[trigger] st.commands[k], name) by {
                    assert(st.commands[k] == st2.commands[k]);
                    assert(!labeled(st2.commands[k], name));
                }
            } else {
                assert(st2.commands[j] == st.cur);
                assert(st.table.contains_key(name) && st.table[name] == st.offset);
                assert(widths_upto(st2.commands, n) == st.offset);
            }
        }
    }
}

/// One pass-one step preserves the invariant, provided a label token
/// never lands on an already labeled command of unknown kind.
proof fn lemma_pass1_step_inv(st: Pass1State, t: TokenView)
    requires
        pass1_inv(st),
        t.kind matches TokenData::Label(_) ==> !(pass1_flush(st).cur.cmd_type
            == CommandType::Unknown && pass1_flush(st).cur.label is Some),
    ensures
        pass1_inv(pass1_step(st, t)),
{
    lemma_pass1_flush_inv(st);
    let st1 = pass1_flush(st);
    let st2 = pass1_step(st, t);
    match t.kind {
        TokenData::Instruction(_) | TokenData::Directive(_) => {
            assert(st2.cur.label == st1.cur.label);
                assert forall|name: Seq<char>| #[trigger] labeled(st2.cur, name)
                    implies st2.table.contains_key(name) && st2.table[name] == st2.offset by {
                    assert(labeled(st1.cur, name));
                }
        },
        TokenData::Label(name) => {
            if st1.cur.cmd_type == CommandType::Unknown {
                let key = label_key(name);
                assert(st2.table == st1.table.insert(key, st1.offset));
                assert(labeled(st2.cur, key));
                assert forall|j: int, nm: Seq<char>|
                    0 <= j < st2.commands.len() && #[trigger] labeled(st2.commands[j], nm) && (forall|k: int|
                        j < k < st2.commands.len() ==> !labeled(#[trigger] st2.commands[k], nm))
                        && !labeled(st2.cur, nm) implies st2.table.contains_key(nm) && st2.table[nm]
                    == widths_upto(st2.commands, j) by {
                    assert(labeled(st2.cur, key));
                    assert(nm != key) by {
                        if nm == key {
                            assert(labeled(st2.cur, nm));
                        }
                    }
                    assert(st2.commands == st1.commands);
                    assert(st1.cur.label is None);
                    assert(!labeled(st1.cur, nm));
                }
            } else {
                assert(st2.cur.label == st1.cur.label);
                assert forall|name: Seq<char>| #[trigger] labeled(st2.cur, name)
                    implies st2.table.contains_key(name) && st2.table[name] == st2.offset by {
                    assert(labeled(st1.cur, name));
                }
            }
        },
        _ => {
            assert(st2.cur.label == st1.cur.label);
                assert forall|name: Seq<char>| #[trigger] labeled(st2.cur, name)
                    implies st2.table.contains_key(name) && st2.table[name] == st2.offset by {
                    assert(labeled(st1.cur, name));
                }
        },
    }
}

/// Pass one establishes `labels_resolved` from any state satisfying its
/// invariant.
proof fn lemma_pass1_from_resolves(ts: Seq<TokenView>, i: int, st: Pass1State)
    requires
        pass1_inv(st),
        pass1_single_labels(ts, i, st),
    ensures
        labels_resolved(pass1_from(ts, i, st)),
    decreases ts.len() - i,
{
    if 0 <= i < ts.len() {
        lemma_pass1_step_inv(st, ts[i]);
        lemma_pass1_from_resolves(ts, i + 1, pass1_step(st, ts[i]));
    } else {
        let fin = pass1_from(ts, i, st);
        if complete_spec(st.cur) {
            let n = st.commands.len() as int;
            assert(fin.commands == st.commands.push(st.cur));
            assert(fin.commands[n] == st.cur);
            assert(fin.cur == st.cur);
            assert forall|j: int, name: Seq<char>|
                0 <= j < fin.commands.len() && #[trigger] labeled(fin.commands[j], name)
                    && (forall|k: int|
                    j < k < fin.commands.len() ==> !labeled(#[trigger] fin.commands[k], name)) && (
                complete_spec(fin.cur) || !labeled(fin.cur, name)) implies fin.table.contains_key(
                name,
            ) && fin.table[name] == widths_upto(fin.commands, j) by {
                lemma_widths_upto_push(st.commands, st.cur, j);
                if j < n {
                    assert(fin.commands[j] == st.commands[j]);
                    assert(!labeled(st.cur, name)) by {
                        assert(!labeled(fin.commands[n], name));
                    }
                    assert forall|k: int|
                        j < k < st.commands.len() implies !labeled(
                        #[trigger] st.commands[k],
                        name,
                    ) by {
                        assert(st.commands[k] == fin.commands[k]);
                        assert(!labeled(fin.commands[k], name));
                    }
                } else {
                    assert(fin.commands[j] == st.cur);
                    assert(st.table.contains_key(name) && st.table[name] == st.offset);
                    assert(widths_upto(fin.commands, n) == widths_upto(st.commands, n)) by {
                        lemma_widths_upto_push(st.commands, st.cur, n);
                    }
                }
            }
        } else {
            assert(fin == st);
        }
    }
}

/// Every label, not reused by a later statement nor left on a trailing
/// incomplete fragment, is recorded in the label table at the summed
/// byte width of the commands before its own: the byte offset at which
/// its command's encoding begins in the image.
pub proof fn lemma_label_table_offsets(ts: Seq<TokenView>, j: int, name: Seq<char>)
    requires
        pass1_single_labels(ts, 0, pass1_init()),
        0 <= j < pass1_spec(ts).commands.len(),
        labeled(pass1_spec(ts).commands[j], name),
        forall|k: int|
            j < k < pass1_spec(ts).commands.len() ==> !labeled(
                #[trigger] pass1_spec(ts).commands[k],
                name,
            ),
        complete_spec(pass1_spec(ts).cur) || !labeled(pass1_spec(ts).cur, name),
    ensures
        pass1_spec(ts).table.contains_key(name),
        pass1_spec(ts).table[name] == widths_upto(pass1_spec(ts).commands, j),
{
    assert(pass1_inv(pass1_init())) by {
        assert(widths_upto(Seq::<CommandView>::empty(), 0) == 0);
    }
    lemma_pass1_from_resolves(ts, 0, pass1_init());
}

/// Width prefix sums are monotone.
proof fn lemma_widths_upto_mono(cs: Seq<CommandView>, i: int, j: int)
    requires
        0 <= i <= j <= cs.len(),
    ensures
        widths_upto(cs, i) <= widths_upto(cs, j),
    decreases j - i,
{
    if i < j {
        lemma_widths_upto_mono(cs, i, j - 1);
    }
}

/// Within the image of the commands from `i` on, the encoding of
/// command `j` occupies exactly the bytes between the summed widths of
/// the commands before and through it.
proof fn lemma_image_slice_from(cs: Seq<CommandView>, i: int, j: int, m: Map<Seq<char>, int>)
    requires
        forall|k: int| 0 <= k < cs.len() ==> directive_shaped(#[trigger] cs[k]),
        image_from(cs, i, m) is Ok,
        0 <= i <= j < cs.len(),
    ensures
        image_from(cs, i, m).unwrap().subrange(
            widths_upto(cs, j) - widths_upto(cs, i),
            widths_upto(cs, j) - widths_upto(cs, i) + command_width(cs[j]),
        ) == data_bytes(encode_command_spec(cs[j], m).unwrap()),
    decreases j - i,
{
    let whole = image_from(cs, i, m).unwrap();
    let d = encode_command_spec(cs[i], m).unwrap();
    let tail = image_from(cs, i + 1, m).unwrap();
    lemma_encoded_len_is_width(cs[i], m);
    lemma_image_length(cs, i + 1, m);
    assert(whole == data_bytes(d) + tail);
    if i == j {
        assert(whole.subrange(0, command_width(cs[j])) =~= data_bytes(d));
        assert(widths_upto(cs, j) - widths_upto(cs, i) == 0);
    } else {
        lemma_image_slice_from(cs, i + 1, j, m);
        lemma_widths_upto_mono(cs, i + 1, j);
        lemma_widths_from_upto(cs, i + 1);
        lemma_widths_upto_mono(cs, j + 1, cs.len() as int);
        let off = widths_upto(cs, j) - widths_upto(cs, i);
        assert(widths_upto(cs, i + 1) == widths_upto(cs, i) + command_width(cs[i]));
        assert(widths_upto(cs, j + 1) == widths_upto(cs, j) + command_width(cs[j]));
        assert(tail.len() == widths_from(cs, i + 1));
        assert(whole.subrange(off, off + command_width(cs[j])) =~= tail.subrange(
            widths_upto(cs, j) - widths_upto(cs, i + 1),
            widths_upto(cs, j) - widths_upto(cs, i + 1) + command_width(cs[j]),
        ));
    }
}

/// In the image of a valid program, the encoding of command `j` begins
/// at the summed width of the commands before it: the byte offset that
/// pass one records for a label on command `j`.
pub proof fn lemma_image_offset(cs: Seq<CommandView>, j: int, m: Map<Seq<char>, int>)
    requires
        forall|k: int| 0 <= k < cs.len() ==> directive_shaped(#[trigger] cs[k]),
        image_from(cs, 0, m) is Ok,
        0 <= j < cs.len(),
    ensures
        0 <= widths_upto(cs, j),
        widths_upto(cs, j) + command_width(cs[j]) <= image_from(cs, 0, m).unwrap().len(),
        image_from(cs, 0, m).unwrap().subrange(
            widths_upto(cs, j),
            widths_upto(cs, j) + command_width(cs[j]),
        ) == data_bytes(encode_command_spec(cs[j], m).unwrap()),
{
    lemma_image_slice_from(cs, 0, j, m);
    lemma_widths_upto_mono(cs, 0, j);
    lemma_image_length(cs, 0, m);
    assert(widths_from(cs, 0) >= widths_upto(cs, j) + command_width(cs[j])) by {
        lemma_widths_from_upto(cs, 0);
        lemma_widths_upto_mono(cs, j + 1, cs.len() as int);
        assert(widths_upto(cs, j + 1) == widths_upto(cs, j) + command_width(cs[j]));
    }
}

/// The suffix width sum from `i` equals the difference of prefix sums.
proof fn lemma_widths_from_upto(cs: Seq<CommandView>, i: int)
    requires
        0 <= i <= cs.len(),
    ensures
        widths_from(cs, i) == widths_upto(cs, cs.len() as int) - widths_upto(cs, i),
    decreases cs.len() - i,
{
    if i < cs.len() {
        lemma_widths_from_upto(cs, i + 1);
        assert(widths_upto(cs, i + 1) == widths_upto(cs, i) + command_width(cs[i]));
    }
}

/// Between statements, the gathered command is either complete, about to
/// be flushed, or empty except possibly for a leading label recorded by
/// the previous token.
pub open spec fn statement_boundary(prev_label: bool, st: Pass1State) -> bool {
    if prev_label {
        st.cur.cmd_type == CommandType::Unknown && st.cur.label is Some && st.cur.operand1 is None
            && st.cur.operand2 is None
    } else {
        complete_spec(st.cur) || st.cur == empty_command()
    }
}

/// From any statement boundary of a token stream the syntax verifier
/// accepts, pass one never puts a second leading label on one statement.
proof fn lemma_verified_single_labels_from(
    ts: Seq<TokenView>,
    i: int,
    prev_label: bool,
    st: Pass1State,
)
    requires
        0 <= i,
        verify_from(ts, i, prev_label) is None,
        statement_boundary(prev_label, st),
    ensures
        pass1_single_labels(ts, i, st),
    decreases ts.len() - i,
{
    if i < ts.len() {
        let st1 = pass1_flush(st);
        let sta = pass1_step(st, ts[i]);
        match ts[i].kind {
            TokenData::Label(_) => {
                assert(!prev_label);
                assert(st1.cur == empty_command());
                assert(statement_boundary(true, sta));
                lemma_verified_single_labels_from(ts, i + 1, true, sta);
            },
            TokenData::Directive(_) => {
                assert(i + 1 < ts.len());
                let stb = pass1_step(sta, ts[i + 1]);
                assert(!(sta.cur.cmd_type == CommandType::Unknown));
                assert(complete_spec(stb.cur));
                assert(verify_from(ts, i + 2, false) is None);
                lemma_verified_single_labels_from(ts, i + 2, false, stb);
                assert(pass1_single_labels(ts, i + 1, sta));
            },
            TokenData::Instruction(ins) => {
                match ins {
                    InstructionType::End
                    | InstructionType::OutputInteger
                    | InstructionType::InputInteger
                    | InstructionType::OutputASCII
                    | InstructionType::InputASCII
                    | InstructionType::ConvertASCIIToInteger
                    | InstructionType::ConvertIntegerToASCII => {
                        assert(complete_spec(sta.cur));
                        assert(verify_from(ts, i, prev_label) == verify_instruction_from(
                            ts,
                            i,
                            ins,
                        ));
                        assert(verify_from(ts, i + 1, false) is None);
                        lemma_verified_single_labels_from(ts, i + 1, false, sta);
                    },
                    InstructionType::Jump | InstructionType::JumpRelative => {
                        assert(verify_from(ts, i, prev_label) == verify_instruction_from(
                            ts,
                            i,
                            ins,
                        ));
                        assert(i + 1 < ts.len());
                        let stb = pass1_step(sta, ts[i + 1]);
                        assert(!(sta.cur.cmd_type == CommandType::Unknown));
                        assert(complete_spec(stb.cur));
                        assert(verify_from(ts, i + 2, false) is None);
                        lemma_verified_single_labels_from(ts, i + 2, false, stb);
                        assert(pass1_single_labels(ts, i + 1, sta));
                    },
                    _ => {
                        assert(verify_from(ts, i, prev_label) == verify_instruction_from(
                            ts,
                            i,
                            ins,
                        ));
                        assert(i + 1 < ts.len() && i + 2 < ts.len());
                        let stb = pass1_step(sta, ts[i + 1]);
                        let stc = pass1_step(stb, ts[i + 2]);
                        assert(!(sta.cur.cmd_type == CommandType::Unknown));
                        assert(!(stb.cur.cmd_type == CommandType::Unknown));
                        assert(complete_spec(stc.cur));
                        assert(verify_from(ts, i + 3, false) is None);
                        lemma_verified_single_labels_from(ts, i + 3, false, stc);
                        assert(pass1_single_labels(ts, i + 2, stb));
                        assert(pass1_single_labels(ts, i + 1, sta));
                    },
                }
            },
            _ => {
                assert(false);
            },
        }
    }
}

/// A token stream the syntax verifier accepts never carries two leading
/// labels on one statement, so the label-address law applies to every
/// valid source program.
pub proof fn lemma_verified_single_labels(ts: Seq<TokenView>)
    requires
        verify_spec(ts) is None,
    ensures
        pass1_single_labels(ts, 0, pass1_init()),
{
    lemma_verified_single_labels_from(ts, 0, false, pass1_init());
}

} // verus!