//! The tokenizer: each source line is stripped of its comment, split on
//! runs of whitespace, and every lexeme classified against the reserved
//! vocabulary, as a character literal, as a signed decimal integer, or
//! else as a label.

use vstd::prelude::*;
use crate::lang::{DirectiveType, InstructionType, Register};
use crate::numerals::{dec_i32, parse_i32, parse_i32_spec, i32_to_decimal};

verus! {

/// The mathematical model of a token's payload: labels are plain
/// character sequences.
pub enum TokenData {
    Character(char),
    Directive(DirectiveType),
    Instruction(InstructionType),
    Integer(i32),
    Register(Register),
    Label(Seq<char>),
}

/// The kind of a token.
#[derive(Clone, Debug, PartialEq)]
pub enum TokenType {
    Character(char),
    Directive(DirectiveType),
    Instruction(InstructionType),
    Integer(i32),
    Register(Register),
    Label(String),
}

impl View for TokenType {
    type V = TokenData;

    open spec fn view(&self) -> TokenData {
        match self {
            TokenType::Character(c) => TokenData::Character(*c),
            TokenType::Directive(d) => TokenData::Directive(*d),
            TokenType::Instruction(i) => TokenData::Instruction(*i),
            TokenType::Integer(v) => TokenData::Integer(*v),
            TokenType::Register(r) => TokenData::Register(*r),
            TokenType::Label(s) => TokenData::Label(s@),
        }
    }
}

/// The model of a token: its payload and its 1-based source line.
pub struct TokenView {
    pub kind: TokenData,
    pub line: u32,
}

/// A classified lexeme together with the 1-based source line it came from.
#[derive(Clone, Debug, PartialEq)]
pub struct Token {
    pub token_type: TokenType,
    pub line_number: u32,
}

impl View for Token {
    type V = TokenView;

    open spec fn view(&self) -> TokenView {
        TokenView { kind: self.token_type@, line: self.line_number }
    }
}

impl TokenType {
    /// A copy of this payload with the same model.
    pub fn duplicate(&self) -> (r: TokenType)
        ensures
            r@ == self@,
    {
        match self {
            TokenType::Character(c) => TokenType::Character(*c),
            TokenType::Directive(d) => TokenType::Directive(*d),
            TokenType::Instruction(i) => TokenType::Instruction(*i),
            TokenType::Integer(v) => TokenType::Integer(*v),
            TokenType::Register(r) => TokenType::Register(*r),
            TokenType::Label(s) => TokenType::Label(s.clone()),
        }
    }
}

impl Token {
    pub fn new(t: TokenType, l: u32) -> (r: Token)
        ensures
            r@.kind == t@,
            r@.line == l,
    {
        Token { token_type: t, line_number: l }
    }

    /// A copy of this token with the same model.
    pub fn duplicate(&self) -> (r: Token)
        ensures
            r@ == self@,
    {
        Token { token_type: self.token_type.duplicate(), line_number: self.line_number }
    }
}

/// The source text of an instruction mnemonic; `Add` and `AddImmediate`
/// both render as `+`.
pub open spec fn instruction_text(i: InstructionType) -> Seq<char> {
    match i {
        InstructionType::Add => "+"@,
        InstructionType::AddImmediate => "+"@,
        InstructionType::And => "&&"@,
        InstructionType::ConvertASCIIToInteger => "A2I"@,
        InstructionType::ConvertIntegerToASCII => "I2A"@,
        InstructionType::Divide => "/"@,
        InstructionType::End => "END"@,
        InstructionType::Compare => "=="@,
        InstructionType::CompareZeroJump => "=0"@,
        InstructionType::GreaterThanZeroJump => ">0"@,
        InstructionType::InputASCII => "ASCI"@,
        InstructionType::InputInteger => "IN"@,
        InstructionType::Jump => "JMP"@,
        InstructionType::JumpRelative => "JMR"@,
        InstructionType::LessThanZeroJump => "<0"@,
        InstructionType::LoadAddress => "LDA"@,
        InstructionType::LoadByte => "LDB"@,
        InstructionType::LoadWord => "LDW"@,
        InstructionType::Move => "MOV"@,
        InstructionType::Multiply => "*"@,
        InstructionType::NonZeroJump => "!0"@,
        InstructionType::Or => "||"@,
        InstructionType::OutputASCII => "ASCO"@,
        InstructionType::OutputInteger => "OUT"@,
        InstructionType::StoreByte => "STB"@,
        InstructionType::StoreWord => "STW"@,
        InstructionType::Subtract => "-"@,
    }
}

/// The display text of a register in diagnostics.
pub open spec fn register_text(r: Register) -> Seq<char> {
    match r {
        Register::Reg0 => "reg_0"@,
        Register::Reg1 => "reg_1"@,
        Register::Reg2 => "reg_2"@,
        Register::Reg3 => "reg_3"@,
        Register::Reg4 => "reg_4"@,
        Register::Reg5 => "reg_5"@,
        Register::Reg6 => "reg_6"@,
        Register::IO => "IO"@,
        Register::PC => "PC"@,
        Register::SL => "SL"@,
        Register::SP => "SP"@,
        Register::FP => "FP"@,
        Register::SB => "SB"@,
    }
}

/// The display text of a token payload in diagnostics.
pub open spec fn token_text_spec(k: TokenData) -> Seq<char> {
    match k {
        TokenData::Character(c) => seq![c],
        TokenData::Directive(DirectiveType::Byte) => ".byte"@,
        TokenData::Directive(DirectiveType::Word) => ".word"@,
        TokenData::Instruction(i) => instruction_text(i),
        TokenData::Integer(v) => dec_i32(v),
        TokenData::Register(r) => register_text(r),
        TokenData::Label(s) => s,
    }
}

/// Relies on `String::from` for `char` from std: the returned string
/// holds exactly the one given character.
#[verifier::external_body]
fn char_to_string(c: char) -> (s: String)
    ensures
        s@ == seq![c],
{
    String::from(c)
}

/// Render a token payload as it appears in diagnostics.
pub fn token_text(t: &TokenType) -> (s: String)
    ensures
        s@ == token_text_spec(t@),
{
    match t {
        TokenType::Character(c) => char_to_string(*c),
        TokenType::Directive(DirectiveType::Byte) => String::from_str(".byte"),
        TokenType::Directive(DirectiveType::Word) => String::from_str(".word"),
        TokenType::Instruction(i) => {
            let s: &str = match i {
                InstructionType::Add => "+",
                InstructionType::AddImmediate => "+",
                InstructionType::And => "&&",
                InstructionType::ConvertASCIIToInteger => "A2I",
                InstructionType::ConvertIntegerToASCII => "I2A",
                InstructionType::Divide => "/",
                InstructionType::End => "END",
                InstructionType::Compare => "==",
                InstructionType::CompareZeroJump => "=0",
                InstructionType::GreaterThanZeroJump => ">0",
                InstructionType::InputASCII => "ASCI",
                InstructionType::InputInteger => "IN",
                InstructionType::Jump => "JMP",
                InstructionType::JumpRelative => "JMR",
                InstructionType::LessThanZeroJump => "<0",
                InstructionType::LoadAddress => "LDA",
                InstructionType::LoadByte => "LDB",
                InstructionType::LoadWord => "LDW",
                InstructionType::Move => "MOV",
                InstructionType::Multiply => "*",
                InstructionType::NonZeroJump => "!0",
                InstructionType::Or => "||",
                InstructionType::OutputASCII => "ASCO",
                InstructionType::OutputInteger => "OUT",
                InstructionType::StoreByte => "STB",
                InstructionType::StoreWord => "STW",
                InstructionType::Subtract => "-",
            };
            String::from_str(s)
        },
        TokenType::Integer(v) => i32_to_decimal(*v),
        TokenType::Register(r) => {
            let s: &str = match r {
                Register::Reg0 => "reg_0",
                Register::Reg1 => "reg_1",
                Register::Reg2 => "reg_2",
                Register::Reg3 => "reg_3",
                Register::Reg4 => "reg_4",
                Register::Reg5 => "reg_5",
                Register::Reg6 => "reg_6",
                Register::IO => "IO",
                Register::PC => "PC",
                Register::SL => "SL",
                Register::SP => "SP",
                Register::FP => "FP",
                Register::SB => "SB",
            };
            String::from_str(s)
        },
        TokenType::Label(s) => s.clone(),
    }
}

/// Whitespace that separates lexemes: spaces and tabs.
pub open spec fn is_space(c: char) -> bool {
    c == ' ' || c == '\t'
}

/// The lexemes of the remainder `s` of a line, given the partial lexeme
/// `cur` read so far. A `#` discards the rest of the line.
pub open spec fn lex_words(s: Seq<char>, cur: Seq<char>) -> Seq<Seq<char>>
    decreases s.len(),
{
    if s.len() == 0 || s[0] == '#' {
        if cur.len() > 0 {
            seq![cur]
        } else {
            seq![]
        }
    } else if is_space(s[0]) {
        (if cur.len() > 0 {
            seq![cur]
        } else {
            seq![]
        }) + lex_words(s.skip(1), Seq::empty())
    } else {
        lex_words(s.skip(1), cur.push(s[0]))
    }
}

/// The lexemes of one whole source line.
pub open spec fn line_lexemes(s: Seq<char>) -> Seq<Seq<char>> {
    lex_words(s, Seq::empty())
}

/// The views of a vector of lexemes.
pub open spec fn word_views(ws: Seq<Vec<char>>) -> Seq<Seq<char>> {
    ws.map_values(|w: Vec<char>| w@)
}

/// The views of a vector of tokens.
pub open spec fn token_views(ts: Seq<Token>) -> Seq<TokenView> {
    ts.map_values(|t: Token| t@)
}

/// The views of a vector of source lines.
pub open spec fn line_views(ls: Seq<String>) -> Seq<Seq<char>> {
    ls.map_values(|l: String| l@)
}

/// How a lexeme is classified: the reserved vocabulary first, then a
/// quoted character literal, then a signed decimal integer, else a label.
pub open spec fn classify_spec(w: Seq<char>) -> TokenData {
    if w == ".byte"@ {
        TokenData::Directive(DirectiveType::Byte)
    } else if w == ".word"@ {
        TokenData::Directive(DirectiveType::Word)
    } else if w == "JMP"@ {
        TokenData::Instruction(InstructionType::Jump)
    } else if w == "JMR"@ {
        TokenData::Instruction(InstructionType::JumpRelative)
    } else if w == "!0"@ {
        TokenData::Instruction(InstructionType::NonZeroJump)
    } else if w == ">0"@ {
        TokenData::Instruction(InstructionType::GreaterThanZeroJump)
    } else if w == "<0"@ {
        TokenData::Instruction(InstructionType::LessThanZeroJump)
    } else if w == "=0"@ {
        TokenData::Instruction(InstructionType::CompareZeroJump)
    } else if w == "MOV"@ {
        TokenData::Instruction(InstructionType::Move)
    } else if w == "LDA"@ {
        TokenData::Instruction(InstructionType::LoadAddress)
    } else if w == "STW"@ {
        TokenData::Instruction(InstructionType::StoreWord)
    } else if w == "LDW"@ {
        TokenData::Instruction(InstructionType::LoadWord)
    } else if w == "STB"@ {
        TokenData::Instruction(InstructionType::StoreByte)
    } else if w == "LDB"@ {
        TokenData::Instruction(InstructionType::LoadByte)
    } else if w == "+"@ {
        TokenData::Instruction(InstructionType::Add)
    } else if w == "-"@ {
        TokenData::Instruction(InstructionType::Subtract)
    } else if w == "*"@ {
        TokenData::Instruction(InstructionType::Multiply)
    } else if w == "/"@ {
        TokenData::Instruction(InstructionType::Divide)
    } else if w == "&&"@ {
        TokenData::Instruction(InstructionType::And)
    } else if w == "||"@ {
        TokenData::Instruction(InstructionType::Or)
    } else if w == "=="@ {
        TokenData::Instruction(InstructionType::Compare)
    } else if w == "reg_0"@ {
        TokenData::Register(Register::Reg0)
    } else if w == "reg_1"@ {
        TokenData::Register(Register::Reg1)
    } else if w == "reg_2"@ {
        TokenData::Register(Register::Reg2)
    } else if w == "reg_3"@ {
        TokenData::Register(Register::Reg3)
    } else if w == "reg_4"@ {
        TokenData::Register(Register::Reg4)
    } else if w == "reg_5"@ {
        TokenData::Register(Register::Reg5)
    } else if w == "reg_6"@ {
        TokenData::Register(Register::Reg6)
    } else if w == "io"@ {
        TokenData::Register(Register::IO)
    } else if w == "pc"@ {
        TokenData::Register(Register::PC)
    } else if w == "sl"@ {
        TokenData::Register(Register::SL)
    } else if w == "sp"@ {
        TokenData::Register(Register::SP)
    } else if w == "fp"@ {
        TokenData::Register(Register::FP)
    } else if w == "sb"@ {
        TokenData::Register(Register::SB)
    } else if w == "END"@ {
        TokenData::Instruction(InstructionType::End)
    } else if w == "OUT"@ {
        TokenData::Instruction(InstructionType::OutputInteger)
    } else if w == "IN"@ {
        TokenData::Instruction(InstructionType::InputInteger)
    } else if w == "ASCO"@ {
        TokenData::Instruction(InstructionType::OutputASCII)
    } else if w == "ASCI"@ {
        TokenData::Instruction(InstructionType::InputASCII)
    } else if w == "A2I"@ {
        TokenData::Instruction(InstructionType::ConvertASCIIToInteger)
    } else if w == "I2A"@ {
        TokenData::Instruction(InstructionType::ConvertIntegerToASCII)
    } else if w.len() >= 2 && w[0] == '\'' && w[w.len() - 1] == '\'' {
        TokenData::Character(w[1])
    } else if parse_i32_spec(w) is Some {
        TokenData::Integer(parse_i32_spec(w).unwrap())
    } else {
        TokenData::Label(w)
    }
}

/// Whether the characters of `w` spell exactly the string `s`.
fn chars_eq_str(w: &Vec<char>, s: &str) -> (r: bool)
    ensures
        r == (w@ == s@),
{
    let n = s.unicode_len();
    if w.len() != n {
        return false;
    }
    let mut i: usize = 0;
    while i < n
        invariant
            0 <= i <= n,
            n == s@.len(),
            n == w@.len(),
            forall|j: int| 0 <= j < i ==> w@[j] == s@[j],
        decreases n - i,
    {
        let c = s.get_char(i);
        if w[i] != c {
            return false;
        }
        i = i + 1;
    }
    proof {
        assert(w@ =~= s@);
    }
    true
}

/// The characters of a string slice, in order.
pub fn str_chars(s: &str) -> (v: Vec<char>)
    ensures
        v@ == s@,
{
    let n = s.unicode_len();
    let mut v: Vec<char> = Vec::new();
    let mut i: usize = 0;
    while i < n
        invariant
            0 <= i <= n,
            n == s@.len(),
            v@ == s@.take(i as int),
        decreases n - i,
    {
        let c = s.get_char(i);
        v.push(c);
        proof {
            assert(v@ =~= s@.take(i + 1));
        }
        i = i + 1;
    }
    proof {
        assert(s@.take(n as int) =~= s@);
    }
    v
}

/// A `String` holding exactly the given characters.
pub fn chars_to_string(w: &Vec<char>) -> (s: String)
    ensures
        s@ == w@,
{
    let mut s = String::new();
    let mut i: usize = 0;
    while i < w.len()
        invariant
            0 <= i <= w.len(),
            s@ == w@.take(i as int),
        decreases w.len() - i,
    {
        let cs = char_to_string(w[i]);
        s.append(cs.as_str());
        proof {
            assert(s@ =~= w@.take(i + 1));
        }
        i = i + 1;
    }
    proof {
        assert(w@.take(w@.len() as int) =~= w@);
    }
    s
}

/// Classify one lexeme, trying the reserved vocabulary first, then a
/// quoted character literal, then a signed decimal integer, else a label.
pub fn classify(w: &Vec<char>) -> (t: TokenType)
    ensures
        t@ == classify_spec(w@),
{
    if chars_eq_str(w, ".byte") {
        TokenType::Directive(DirectiveType::Byte)
    } else if chars_eq_str(w, ".word") {
        TokenType::Directive(DirectiveType::Word)
    } else if chars_eq_str(w, "JMP") {
        TokenType::Instruction(InstructionType::Jump)
    } else if chars_eq_str(w, "JMR") {
        TokenType::Instruction(InstructionType::JumpRelative)
    } else if chars_eq_str(w, "!0") {
        TokenType::Instruction(InstructionType::NonZeroJump)
    } else if chars_eq_str(w, ">0") {
        TokenType::Instruction(InstructionType::GreaterThanZeroJump)
    } else if chars_eq_str(w, "<0") {
        TokenType::Instruction(InstructionType::LessThanZeroJump)
    } else if chars_eq_str(w, "=0") {
        TokenType::Instruction(InstructionType::CompareZeroJump)
    } else if chars_eq_str(w, "MOV") {
        TokenType::Instruction(InstructionType::Move)
    } else if chars_eq_str(w, "LDA") {
        TokenType::Instruction(InstructionType::LoadAddress)
    } else if chars_eq_str(w, "STW") {
        TokenType::Instruction(InstructionType::StoreWord)
    } else if chars_eq_str(w, "LDW") {
        TokenType::Instruction(InstructionType::LoadWord)
    } else if chars_eq_str(w, "STB") {
        TokenType::Instruction(InstructionType::StoreByte)
    } else if chars_eq_str(w, "LDB") {
        TokenType::Instruction(InstructionType::LoadByte)
    } else if chars_eq_str(w, "+") {
        TokenType::Instruction(InstructionType::Add)
    } else if chars_eq_str(w, "-") {
        TokenType::Instruction(InstructionType::Subtract)
    } else if chars_eq_str(w, "*") {
        TokenType::Instruction(InstructionType::Multiply)
    } else if chars_eq_str(w, "/") {
        TokenType::Instruction(InstructionType::Divide)
    } else if chars_eq_str(w, "&&") {
        TokenType::Instruction(InstructionType::And)
    } else if chars_eq_str(w, "||") {
        TokenType::Instruction(InstructionType::Or)
    } else if chars_eq_str(w, "==") {
        TokenType::Instruction(InstructionType::Compare)
    } else if chars_eq_str(w, "reg_0") {
        TokenType::Register(Register::Reg0)
    } else if chars_eq_str(w, "reg_1") {
        TokenType::Register(Register::Reg1)
    } else if chars_eq_str(w, "reg_2") {
        TokenType::Register(Register::Reg2)
    } else if chars_eq_str(w, "reg_3") {
        TokenType::Register(Register::Reg3)
    } else if chars_eq_str(w, "reg_4") {
        TokenType::Register(Register::Reg4)
    } else if chars_eq_str(w, "reg_5") {
        TokenType::Register(Register::Reg5)
    } else if chars_eq_str(w, "reg_6") {
        TokenType::Register(Register::Reg6)
    } else if chars_eq_str(w, "io") {
        TokenType::Register(Register::IO)
    } else if chars_eq_str(w, "pc") {
        TokenType::Register(Register::PC)
    } else if chars_eq_str(w, "sl") {
        TokenType::Register(Register::SL)
    } else if chars_eq_str(w, "sp") {
        TokenType::Register(Register::SP)
    } else if chars_eq_str(w, "fp") {
        TokenType::Register(Register::FP)
    } else if chars_eq_str(w, "sb") {
        TokenType::Register(Register::SB)
    } else if chars_eq_str(w, "END") {
        TokenType::Instruction(InstructionType::End)
    } else if chars_eq_str(w, "OUT") {
        TokenType::Instruction(InstructionType::OutputInteger)
    } else if chars_eq_str(w, "IN") {
        TokenType::Instruction(InstructionType::InputInteger)
    } else if chars_eq_str(w, "ASCO") {
        TokenType::Instruction(InstructionType::OutputASCII)
    } else if chars_eq_str(w, "ASCI") {
        TokenType::Instruction(InstructionType::InputASCII)
    } else if chars_eq_str(w, "A2I") {
        TokenType::Instruction(InstructionType::ConvertASCIIToInteger)
    } else if chars_eq_str(w, "I2A") {
        TokenType::Instruction(InstructionType::ConvertIntegerToASCII)
    } else if w.len() >= 2 && w[0] == '\'' && w[w.len() - 1] == '\'' {
        TokenType::Character(w[1])
    } else {
        match parse_i32(w) {
            Some(v) => TokenType::Integer(v),
            None => TokenType::Label(chars_to_string(w)),
        }
    }
}

/// Split one line into lexemes: whitespace separates them and `#` starts
/// a comment that discards the rest of the line.
pub fn lex_line(line: &Vec<char>) -> (ws: Vec<Vec<char>>)
    ensures
        word_views(ws@) == line_lexemes(line@),
{
    let ghost gl = line@;
    let mut out: Vec<Vec<char>> = Vec::new();
    let mut cur: Vec<char> = Vec::new();
    let mut i: usize = 0;
    proof {
        assert(gl.skip(0) =~= gl);
        assert(Seq::<Seq<char>>::empty() + lex_words(gl, Seq::empty()) =~= lex_words(
            gl,
            Seq::empty(),
        ));
        assert(word_views(out@) =~= Seq::<Seq<char>>::empty());
    }
    while i < line.len()
        invariant
            0 <= i <= line.len(),
            line@ == gl,
            line_lexemes(gl) == word_views(out@) + lex_words(gl.skip(i as int), cur@),
        decreases line.len() - i,
    {
        let c = line[i];
        proof {
            assert(gl.skip(i as int)[0] == gl[i as int]);
            assert(gl.skip(i as int).skip(1) =~= gl.skip(i + 1));
        }
        if c == '#' {
            if cur.len() > 0 {
                let done = cur;
                let ghost oldout = out@;
                out.push(done);
                proof {
                    assert(word_views(out@) =~= word_views(oldout).push(done@));
                    assert(line_lexemes(gl) =~= word_views(out@));
                }
            } else {
                proof {
                    assert(line_lexemes(gl) =~= word_views(out@));
                }
            }
            return out;
        } else if c == ' ' || c == '\t' {
            if cur.len() > 0 {
                let done = cur;
                cur = Vec::new();
                let ghost oldout = out@;
                out.push(done);
                proof {
                    assert(word_views(out@) =~= word_views(oldout).push(done@));
                    assert(word_views(oldout) + (seq![done@] + lex_words(
                        gl.skip(i + 1),
                        Seq::empty(),
                    )) =~= word_views(out@) + lex_words(gl.skip(i + 1), Seq::empty()));
                    assert(cur@ =~= Seq::<char>::empty());
                    assert(line_lexemes(gl) == word_views(out@) + lex_words(
                        gl.skip(i + 1),
                        cur@,
                    ));
                }
            } else {
                proof {
                    assert(cur@ =~= Seq::<char>::empty());
                    assert(lex_words(gl.skip(i as int), cur@) == lex_words(
                        gl.skip(i + 1),
                        Seq::empty(),
                    ));
                    assert(line_lexemes(gl) == word_views(out@) + lex_words(
                        gl.skip(i + 1),
                        cur@,
                    ));
                }
            }
        } else {
            let ghost prev = cur@;
            cur.push(c);
            proof {
                assert(cur@ == prev.push(c));
                assert(lex_words(gl.skip(i as int), prev) == lex_words(gl.skip(i + 1), cur@));
                assert(line_lexemes(gl) == word_views(out@) + lex_words(gl.skip(i + 1), cur@));
            }
        }
        i = i + 1;
    }
    proof {
        assert(gl.skip(i as int).len() == 0);
    }
    if cur.len() > 0 {
        let done = cur;
        let ghost oldout = out@;
        out.push(done);
        proof {
            assert(word_views(out@) =~= word_views(oldout).push(done@));
            assert(line_lexemes(gl) =~= word_views(out@));
        }
    } else {
        proof {
            assert(line_lexemes(gl) =~= word_views(out@));
        }
    }
    out
}

/// The tokens of one source line with its 1-based line number.
pub open spec fn line_tokens(s: Seq<char>, n: u32) -> Seq<TokenView> {
    line_lexemes(s).map_values(|w: Seq<char>| TokenView { kind: classify_spec(w), line: n })
}

/// The tokens of the source lines from index `i` on, each line numbered
/// by its 1-based position.
pub open spec fn tokens_from(lines: Seq<Seq<char>>, i: int) -> Seq<TokenView>
    decreases lines.len() - i,
{
    if 0 <= i < lines.len() {
        line_tokens(lines[i], (i + 1) as u32) + tokens_from(lines, i + 1)
    } else {
        seq![]
    }
}

/// The token stream of a whole source file, given as its lines.
pub open spec fn tokenize_spec(lines: Seq<Seq<char>>) -> Seq<TokenView> {
    tokens_from(lines, 0)
}

/// Tokenize a source file, given as its lines with line terminators
/// already stripped.
pub fn tokenize(lines: &Vec<String>) -> (ts: Vec<Token>)
    requires
        lines.len() <= u32::MAX,
    ensures
        token_views(ts@) == tokenize_spec(line_views(lines@)),
{
    let ghost gls = line_views(lines@);
    let mut ts: Vec<Token> = Vec::new();
    let mut li: usize = 0;
    proof {
        assert(token_views(ts@) =~= Seq::<TokenView>::empty());
        assert(Seq::<TokenView>::empty() + tokens_from(gls, 0) =~= tokens_from(gls, 0));
    }
    while li < lines.len()
        invariant
            0 <= li <= lines.len(),
            lines.len() <= u32::MAX,
            gls == line_views(lines@),
            tokenize_spec(gls) == token_views(ts@) + tokens_from(gls, li as int),
        decreases lines.len() - li,
    {
        let cs = str_chars(lines[li].as_str());
        let ws = lex_line(&cs);
        let n: u32 = (li + 1) as u32;
        proof {
            assert(gls[li as int] == lines@[li as int]@);
            assert(word_views(ws@) == line_lexemes(gls[li as int]));
            assert(tokens_from(gls, li as int) == line_tokens(gls[li as int], n) + tokens_from(
                gls,
                li + 1,
            ));
            assert(line_tokens(gls[li as int], n).skip(0) =~= line_tokens(gls[li as int], n));
            assert(token_views(ts@) + (line_tokens(gls[li as int], n) + tokens_from(gls, li + 1))
                =~= token_views(ts@) + line_tokens(gls[li as int], n).skip(0) + tokens_from(
                gls,
                li + 1,
            ));
        }
        let mut wi: usize = 0;
        while wi < ws.len()
            invariant
                0 <= wi <= ws.len(),
                lines.len() <= u32::MAX,
                0 <= li < lines.len(),
                n == li + 1,
                gls == line_views(lines@),
                word_views(ws@) == line_lexemes(gls[li as int]),
                tokenize_spec(gls) == token_views(ts@) + line_tokens(gls[li as int], n).skip(
                    wi as int,
                ) + tokens_from(gls, li + 1),
            decreases ws.len() - wi,
        {
            let t = Token::new(classify(&ws[wi]), n);
            let ghost oldts = ts@;
            ts.push(t);
            proof {
                let lt = line_tokens(gls[li as int], n);
                assert(word_views(ws@)[wi as int] == ws@[wi as int]@);
                assert(lt[wi as int] == t@);
                assert(token_views(ts@) =~= token_views(oldts).push(t@));
                assert(lt.skip(wi as int) =~= seq![lt[wi as int]] + lt.skip(wi + 1));
                assert(token_views(oldts) + (seq![lt[wi as int]] + lt.skip(wi + 1)) + tokens_from(
                    gls,
                    li + 1,
                ) =~= token_views(ts@) + lt.skip(wi + 1) + tokens_from(gls, li + 1));
            }
            wi = wi + 1;
        }
        proof {
            let lt = line_tokens(gls[li as int], n);
            assert(lt.skip(ws@.len() as int) =~= Seq::<TokenView>::empty());
            assert(token_views(ts@) + Seq::<TokenView>::empty() + tokens_from(gls, li + 1)
                =~= token_views(ts@) + tokens_from(gls, li + 1));
        }
        li = li + 1;
    }
    proof {
        assert(token_views(ts@) + tokens_from(gls, li as int) =~= token_views(ts@));
    }
    ts
}

} // verus!
