//! Instructions of the assembly language: reading them from a line of text
//! and writing them back as text.
use vstd::prelude::*;
use crate::reg::{Reg, reg_of_name, reg_name, reg_from_chars, reg_name_chars};
use crate::text::{chars_of, chars_is, clean_word, extend_chars, is_space, lacks, string_of, split, split_chars, trim, trim_chars, views, lemma_split_len, lemma_split_lacking, lemma_split_append, lemma_trim_tight, lemma_trim_strips_white_space, unicode_white_space};
use crate::value::{Value, ValueModel, parse_value, parse_value_chars, plain_value, value_text, push_value_text, lemma_reg_name_clean, lemma_value_text_clean, lemma_value_round_trip};
use crate::reg::lemma_reg_name_round_trip;

verus! {

/// One instruction (or label) of a program.
#[derive(Debug)]
pub enum Instruction {
    Add { dest: Reg, a: Value, b: Value },
    Sub { dest: Reg, a: Value, b: Value },
    Mul { dest: Reg, a: Value, b: Value },
    Div { dest: Reg, a: Value, b: Value },
    And { dest: Reg, a: Value, b: Value },
    Or { dest: Reg, a: Value, b: Value },
    Xor { dest: Reg, a: Value, b: Value },
    NXor { dest: Reg, a: Value, b: Value },
    NAnd { dest: Reg, a: Value, b: Value },
    NOr { dest: Reg, a: Value, b: Value },
    Mov { dest: Reg, a: Value },
    Not { dest: Reg, a: Value },
    Neg { dest: Reg, a: Value },
    Store { a: Value, offset: Value },
    Load { dest: Reg, offset: Value },
    Push { a: Value },
    Pop { dest: Reg },
    Eq { a: Value, b: Value },
    NEq { a: Value, b: Value },
    Br { label: String },
    BrIf { label: String },
    Bl { label: String },
    BlIf { label: String },
    Label { name: String },
    Put { a: Value },
    Assert,
    Ret,
    RetIf,
    SysCall,
    End,
}

/// The mathematical form of an `Instruction`.
pub enum InstModel {
    Add { dest: Reg, a: ValueModel, b: ValueModel },
    Sub { dest: Reg, a: ValueModel, b: ValueModel },
    Mul { dest: Reg, a: ValueModel, b: ValueModel },
    Div { dest: Reg, a: ValueModel, b: ValueModel },
    And { dest: Reg, a: ValueModel, b: ValueModel },
    Or { dest: Reg, a: ValueModel, b: ValueModel },
    Xor { dest: Reg, a: ValueModel, b: ValueModel },
    NXor { dest: Reg, a: ValueModel, b: ValueModel },
    NAnd { dest: Reg, a: ValueModel, b: ValueModel },
    NOr { dest: Reg, a: ValueModel, b: ValueModel },
    Mov { dest: Reg, a: ValueModel },
    Not { dest: Reg, a: ValueModel },
    Neg { dest: Reg, a: ValueModel },
    Store { a: ValueModel, offset: ValueModel },
    Load { dest: Reg, offset: ValueModel },
    Push { a: ValueModel },
    Pop { dest: Reg },
    Eq { a: ValueModel, b: ValueModel },
    NEq { a: ValueModel, b: ValueModel },
    Br { label: Seq<char> },
    BrIf { label: Seq<char> },
    Bl { label: Seq<char> },
    BlIf { label: Seq<char> },
    Label { name: Seq<char> },
    Put { a: ValueModel },
    Assert,
    Ret,
    RetIf,
    SysCall,
    End,
}

impl View for Instruction {
    type V = InstModel;

    open spec fn view(&self) -> InstModel {
        match self {
            Instruction::Add { dest, a, b } => InstModel::Add { dest: *dest, a: a@, b: b@ },
            Instruction::Sub { dest, a, b } => InstModel::Sub { dest: *dest, a: a@, b: b@ },
            Instruction::Mul { dest, a, b } => InstModel::Mul { dest: *dest, a: a@, b: b@ },
            Instruction::Div { dest, a, b } => InstModel::Div { dest: *dest, a: a@, b: b@ },
            Instruction::And { dest, a, b } => InstModel::And { dest: *dest, a: a@, b: b@ },
            Instruction::Or { dest, a, b } => InstModel::Or { dest: *dest, a: a@, b: b@ },
            Instruction::Xor { dest, a, b } => InstModel::Xor { dest: *dest, a: a@, b: b@ },
            Instruction::NXor { dest, a, b } => InstModel::NXor { dest: *dest, a: a@, b: b@ },
            Instruction::NAnd { dest, a, b } => InstModel::NAnd { dest: *dest, a: a@, b: b@ },
            Instruction::NOr { dest, a, b } => InstModel::NOr { dest: *dest, a: a@, b: b@ },
            Instruction::Mov { dest, a } => InstModel::Mov { dest: *dest, a: a@ },
            Instruction::Not { dest, a } => InstModel::Not { dest: *dest, a: a@ },
            Instruction::Neg { dest, a } => InstModel::Neg { dest: *dest, a: a@ },
            Instruction::Store { a, offset } => InstModel::Store { a: a@, offset: offset@ },
            Instruction::Load { dest, offset } => InstModel::Load { dest: *dest, offset: offset@ },
            Instruction::Push { a } => InstModel::Push { a: a@ },
            Instruction::Pop { dest } => InstModel::Pop { dest: *dest },
            Instruction::Eq { a, b } => InstModel::Eq { a: a@, b: b@ },
            Instruction::NEq { a, b } => InstModel::NEq { a: a@, b: b@ },
            Instruction::Br { label } => InstModel::Br { label: label@ },
            Instruction::BrIf { label } => InstModel::BrIf { label: label@ },
            Instruction::Bl { label } => InstModel::Bl { label: label@ },
            Instruction::BlIf { label } => InstModel::BlIf { label: label@ },
            Instruction::Label { name } => InstModel::Label { name: name@ },
            Instruction::Put { a } => InstModel::Put { a: a@ },
            Instruction::Assert => InstModel::Assert,
            Instruction::Ret => InstModel::Ret,
            Instruction::RetIf => InstModel::RetIf,
            Instruction::SysCall => InstModel::SysCall,
            Instruction::End => InstModel::End,
        }
    }
}


/// Why a line holds no instruction.
#[derive(Clone, Copy, Debug, PartialEq, Eq, Structural)]
pub enum LineError {
    /// Nothing but white space.
    EmptyLine,
    /// A section header (`.text`, `.data`, ...).
    SectionHeader,
    /// A comment (`; ...`).
    Comment,
}

/// A register then an operand, as read by the two-operand instructions that
/// write a register.
pub open spec fn reg_then_value(a: Seq<char>, b: Seq<char>) -> Option<(Reg, ValueModel)> {
    match (reg_of_name(a), parse_value(b)) {
        (Some(r), Some(v)) => Some((r, v)),
        _ => None,
    }
}

/// Two operands.
pub open spec fn value_then_value(a: Seq<char>, b: Seq<char>) -> Option<(ValueModel, ValueModel)> {
    match (parse_value(a), parse_value(b)) {
        (Some(x), Some(y)) => Some((x, y)),
        _ => None,
    }
}

/// The instruction with no operands named `code`, or `None` for an unknown code.
pub open spec fn zero_arg(code: Seq<char>) -> Option<InstModel> {
    if code == "assert"@ {
        Some(InstModel::Assert)
    } else if code == "end"@ {
        Some(InstModel::End)
    } else if code == "ret"@ {
        Some(InstModel::Ret)
    } else if code == "retif"@ {
        Some(InstModel::RetIf)
    } else if code == "sys"@ {
        Some(InstModel::SysCall)
    } else {
        None
    }
}

/// The instruction `code a`, or `None` for an unknown code or a bad operand.
pub open spec fn one_arg(code: Seq<char>, a: Seq<char>) -> Option<InstModel> {
    if code == "bl"@ {
        Some(InstModel::Bl { label: a })
    } else if code == "blif"@ {
        Some(InstModel::BlIf { label: a })
    } else if code == "br"@ {
        Some(InstModel::Br { label: a })
    } else if code == "brif"@ {
        Some(InstModel::BrIf { label: a })
    } else if code == "push"@ {
        match parse_value(a) {
            Some(v) => Some(InstModel::Push { a: v }),
            None => None,
        }
    } else if code == "pop"@ {
        match reg_of_name(a) {
            Some(r) => Some(InstModel::Pop { dest: r }),
            None => None,
        }
    } else if code == "put"@ {
        match parse_value(a) {
            Some(v) => Some(InstModel::Put { a: v }),
            None => None,
        }
    } else {
        None
    }
}

/// The instruction `code a b`, or `None` for an unknown code or bad operands.
pub open spec fn two_arg(code: Seq<char>, a: Seq<char>, b: Seq<char>) -> Option<InstModel> {
    if code == "mov"@ || code == "not"@ || code == "neg"@ || code == "ldr"@ {
        match reg_then_value(a, b) {
            Some((r, v)) => if code == "mov"@ {
                Some(InstModel::Mov { dest: r, a: v })
            } else if code == "not"@ {
                Some(InstModel::Not { dest: r, a: v })
            } else if code == "neg"@ {
                Some(InstModel::Neg { dest: r, a: v })
            } else {
                Some(InstModel::Load { dest: r, offset: v })
            },
            None => None,
        }
    } else if code == "eq"@ || code == "neq"@ || code == "str"@ {
        match value_then_value(a, b) {
            Some((x, y)) => if code == "eq"@ {
                Some(InstModel::Eq { a: x, b: y })
            } else if code == "neq"@ {
                Some(InstModel::NEq { a: x, b: y })
            } else {
                Some(InstModel::Store { a: x, offset: y })
            },
            None => None,
        }
    } else {
        None
    }
}

/// The instruction `code a b c`, or `None` for an unknown code or bad operands.
pub open spec fn three_arg(code: Seq<char>, a: Seq<char>, b: Seq<char>, c: Seq<char>) -> Option<InstModel> {
    match (reg_of_name(a), parse_value(b), parse_value(c)) {
        (Some(dest), Some(a), Some(b)) => if code == "add"@ {
            Some(InstModel::Add { dest, a, b })
        } else if code == "sub"@ {
            Some(InstModel::Sub { dest, a, b })
        } else if code == "mul"@ {
            Some(InstModel::Mul { dest, a, b })
        } else if code == "div"@ {
            Some(InstModel::Div { dest, a, b })
        } else if code == "and"@ {
            Some(InstModel::And { dest, a, b })
        } else if code == "or"@ {
            Some(InstModel::Or { dest, a, b })
        } else if code == "xor"@ {
            Some(InstModel::Xor { dest, a, b })
        } else if code == "nand"@ {
            Some(InstModel::NAnd { dest, a, b })
        } else if code == "nor"@ {
            Some(InstModel::NOr { dest, a, b })
        } else if code == "nxor"@ {
            Some(InstModel::NXor { dest, a, b })
        } else {
            None
        },
        _ => None,
    }
}

/// The instruction that the space-separated words `parts` spell.
pub open spec fn parts_inst(parts: Seq<Seq<char>>) -> Option<InstModel> {
    if parts.len() == 1 {
        zero_arg(parts[0])
    } else if parts.len() == 2 {
        one_arg(parts[0], parts[1])
    } else if parts.len() == 3 {
        two_arg(parts[0], parts[1], parts[2])
    } else if parts.len() == 4 {
        three_arg(parts[0], parts[1], parts[2], parts[3])
    } else {
        None
    }
}

/// How a line of assembly is read. After trimming white space: an empty line,
/// a section header (`.`) and a comment (`;`) hold no instruction; a line
/// starting with `@` is a label named by the whole trimmed line; anything else
/// is an instruction whose words, before any `;`, are separated by single
/// spaces. `None` where reading fails (an unknown code, a bad operand, more
/// than three operands).
pub open spec fn parse_line(line: Seq<char>) -> Option<Result<InstModel, LineError>> {
    let t = trim(line);
    if t.len() == 0 {
        Some(Err(LineError::EmptyLine))
    } else if t[0] == '@' {
        Some(Ok(InstModel::Label { name: t }))
    } else if t[0] == '.' {
        Some(Err(LineError::SectionHeader))
    } else if t[0] == ';' {
        Some(Err(LineError::Comment))
    } else {
        match parts_inst(split(trim(split(t, ';')[0]), ' ')) {
            Some(i) => Some(Ok(i)),
            None => None,
        }
    }
}

/// A register then an operand (see `reg_then_value`).
fn reg_then_value_chars(a: &[char], b: &[char]) -> (r: Option<(Reg, Value)>)
    ensures
        match r {
            Some((x, y)) => reg_then_value(a@, b@) == Some((x, y@)),
            None => reg_then_value(a@, b@) is None,
        },
{
    match reg_from_chars(a) {
        Some(x) => match parse_value_chars(b) {
            Some(y) => Some((x, y)),
            None => None,
        },
        None => None,
    }
}

/// Two operands (see `value_then_value`).
fn value_then_value_chars(a: &[char], b: &[char]) -> (r: Option<(Value, Value)>)
    ensures
        match r {
            Some((x, y)) => value_then_value(a@, b@) == Some((x@, y@)),
            None => value_then_value(a@, b@) is None,
        },
{
    match parse_value_chars(a) {
        Some(x) => match parse_value_chars(b) {
            Some(y) => Some((x, y)),
            None => None,
        },
        None => None,
    }
}

impl Instruction {
    /// The instruction with no operands named `code` (see `zero_arg`).
    fn match_zero_arg_code(code: &[char]) -> (r: Option<Instruction>)
        ensures
            match r {
                Some(i) => zero_arg(code@) == Some(i@),
                None => zero_arg(code@) is None,
            },
    {
        if chars_is(code, "assert") {
            Some(Instruction::Assert)
        } else if chars_is(code, "end") {
            Some(Instruction::End)
        } else if chars_is(code, "ret") {
            Some(Instruction::Ret)
        } else if chars_is(code, "retif") {
            Some(Instruction::RetIf)
        } else if chars_is(code, "sys") {
            Some(Instruction::SysCall)
        } else {
            None
        }
    }

    /// The instruction `code a` (see `one_arg`).
    fn match_one_arg_code(code: &[char], a: &[char]) -> (r: Option<Instruction>)
        ensures
            match r {
                Some(i) => one_arg(code@, a@) == Some(i@),
                None => one_arg(code@, a@) is None,
            },
    {
        if chars_is(code, "bl") {
            Some(Instruction::Bl { label: string_of(a) })
        } else if chars_is(code, "blif") {
            Some(Instruction::BlIf { label: string_of(a) })
        } else if chars_is(code, "br") {
            Some(Instruction::Br { label: string_of(a) })
        } else if chars_is(code, "brif") {
            Some(Instruction::BrIf { label: string_of(a) })
        } else if chars_is(code, "push") {
            match parse_value_chars(a) {
                Some(v) => Some(Instruction::Push { a: v }),
                None => None,
            }
        } else if chars_is(code, "pop") {
            match reg_from_chars(a) {
                Some(r) => Some(Instruction::Pop { dest: r }),
                None => None,
            }
        } else if chars_is(code, "put") {
            match parse_value_chars(a) {
                Some(v) => Some(Instruction::Put { a: v }),
                None => None,
            }
        } else {
            None
        }
    }

    /// The instruction `code a b` (see `two_arg`).
    fn match_two_arg_code(code: &[char], a: &[char], b: &[char]) -> (r: Option<Instruction>)
        ensures
            match r {
                Some(i) => two_arg(code@, a@, b@) == Some(i@),
                None => two_arg(code@, a@, b@) is None,
            },
    {
        if chars_is(code, "mov") {
            match reg_then_value_chars(a, b) {
                Some((dest, a)) => Some(Instruction::Mov { dest, a }),
                None => None,
            }
        } else if chars_is(code, "not") {
            match reg_then_value_chars(a, b) {
                Some((dest, a)) => Some(Instruction::Not { dest, a }),
                None => None,
            }
        } else if chars_is(code, "neg") {
            match reg_then_value_chars(a, b) {
                Some((dest, a)) => Some(Instruction::Neg { dest, a }),
                None => None,
            }
        } else if chars_is(code, "ldr") {
            match reg_then_value_chars(a, b) {
                Some((dest, offset)) => Some(Instruction::Load { dest, offset }),
                None => None,
            }
        } else if chars_is(code, "eq") {
            match value_then_value_chars(a, b) {
                Some((a, b)) => Some(Instruction::Eq { a, b }),
                None => None,
            }
        } else if chars_is(code, "neq") {
            match value_then_value_chars(a, b) {
                Some((a, b)) => Some(Instruction::NEq { a, b }),
                None => None,
            }
        } else if chars_is(code, "str") {
            match value_then_value_chars(a, b) {
                Some((a, offset)) => Some(Instruction::Store { a, offset }),
                None => None,
            }
        } else {
            None
        }
    }

    /// The instruction `code a b c` (see `three_arg`).
    fn match_three_arg_code(code: &[char], a: &[char], b: &[char], c: &[char]) -> (r: Option<
        Instruction,
    >)
        ensures
            match r {
                Some(i) => three_arg(code@, a@, b@, c@) == Some(i@),
                None => three_arg(code@, a@, b@, c@) is None,
            },
    {
        let dest = match reg_from_chars(a) {
            Some(r) => r,
            None => return None,
        };
        let a = match parse_value_chars(b) {
            Some(v) => v,
            None => return None,
        };
        let b = match parse_value_chars(c) {
            Some(v) => v,
            None => return None,
        };
        if chars_is(code, "add") {
            Some(Instruction::Add { dest, a, b })
        } else if chars_is(code, "sub") {
            Some(Instruction::Sub { dest, a, b })
        } else if chars_is(code, "mul") {
            Some(Instruction::Mul { dest, a, b })
        } else if chars_is(code, "div") {
            Some(Instruction::Div { dest, a, b })
        } else if chars_is(code, "and") {
            Some(Instruction::And { dest, a, b })
        } else if chars_is(code, "or") {
            Some(Instruction::Or { dest, a, b })
        } else if chars_is(code, "xor") {
            Some(Instruction::Xor { dest, a, b })
        } else if chars_is(code, "nand") {
            Some(Instruction::NAnd { dest, a, b })
        } else if chars_is(code, "nor") {
            Some(Instruction::NOr { dest, a, b })
        } else if chars_is(code, "nxor") {
            Some(Instruction::NXor { dest, a, b })
        } else {
            None
        }
    }

    /// Reads a line of assembly (see `parse_line`); `None` where reading fails.
    pub fn parse_line_chars(line: &[char]) -> (r: Option<Result<Instruction, LineError>>)
        ensures
            match r {
                Some(Ok(i)) => parse_line(line@) == Some(Ok::<InstModel, LineError>(i@)),
                Some(Err(e)) => parse_line(line@) == Some(Err::<InstModel, LineError>(e)),
                None => parse_line(line@) is None,
            },
    {
        let t = trim_chars(line);
        if t.len() == 0 {
            return Some(Err(LineError::EmptyLine));
        }
        let first = t[0];
        if first == '@' {
            return Some(Ok(Instruction::Label { name: string_of(t.as_slice()) }));
        } else if first == '.' {
            return Some(Err(LineError::SectionHeader));
        } else if first == ';' {
            return Some(Err(LineError::Comment));
        }
        let pieces = split_chars(t.as_slice(), ';');
        proof { lemma_split_len(t@, ';'); }
        assert(pieces[0]@ == split(t@, ';')[0]);
        let body = trim_chars(pieces[0].as_slice());
        let parts = split_chars(body.as_slice(), ' ');
        let ghost pv = views(parts@);
        assert(forall|k: int| 0 <= k < parts@.len() ==> parts@[k]@ == #[trigger] pv[k]);
        let r = if parts.len() == 1 {
            Self::match_zero_arg_code(parts[0].as_slice())
        } else if parts.len() == 2 {
            Self::match_one_arg_code(parts[0].as_slice(), parts[1].as_slice())
        } else if parts.len() == 3 {
            Self::match_two_arg_code(parts[0].as_slice(), parts[1].as_slice(), parts[2].as_slice())
        } else if parts.len() == 4 {
            Self::match_three_arg_code(
                parts[0].as_slice(),
                parts[1].as_slice(),
                parts[2].as_slice(),
                parts[3].as_slice(),
            )
        } else {
            None
        };
        match r {
            Some(i) => Some(Ok(i)),
            None => None,
        }
    }

    /// Reads a line of assembly: `Err` for an empty line, a section header or
    /// a comment, else the instruction or label. Requires that the line names
    /// a known instruction with good operands (see `parse_line_chars`).
    pub fn try_from(line: &str) -> (r: Result<Instruction, LineError>)
        requires
            parse_line(line@) is Some,
        ensures
            match r {
                Ok(i) => parse_line(line@) == Some(Ok::<InstModel, LineError>(i@)),
                Err(e) => parse_line(line@) == Some(Err::<InstModel, LineError>(e)),
            },
    {
        let cs = chars_of(line);
        match Self::parse_line_chars(cs.as_slice()) {
            Some(r) => r,
            None => Err(LineError::EmptyLine),
        }
    }
}


/// The words `ws` joined by single spaces.
pub open spec fn join_words(ws: Seq<Seq<char>>) -> Seq<char>
    decreases ws.len(),
{
    if ws.len() == 0 {
        Seq::empty()
    } else if ws.len() == 1 {
        ws[0]
    } else {
        join_words(ws.drop_last()) + seq![' '] + ws.last()
    }
}

/// The words of an instruction's text: its name, then its operands.
pub open spec fn inst_words(i: InstModel) -> Seq<Seq<char>> {
    match i {
        InstModel::End => seq!["end"@],
        InstModel::Assert => seq!["assert"@],
        InstModel::Ret => seq!["ret"@],
        InstModel::RetIf => seq!["retif"@],
        InstModel::SysCall => seq!["sys"@],
        InstModel::Label { name } => seq!["@"@ + name],
        InstModel::And { dest, a, b } => seq!["and"@, reg_name(dest), value_text(a), value_text(b)],
        InstModel::Or { dest, a, b } => seq!["or"@, reg_name(dest), value_text(a), value_text(b)],
        InstModel::Xor { dest, a, b } => seq!["xor"@, reg_name(dest), value_text(a), value_text(b)],
        InstModel::NAnd { dest, a, b } => seq!["nand"@, reg_name(dest), value_text(a), value_text(b)],
        InstModel::NOr { dest, a, b } => seq!["nor"@, reg_name(dest), value_text(a), value_text(b)],
        InstModel::NXor { dest, a, b } => seq!["nxor"@, reg_name(dest), value_text(a), value_text(b)],
        InstModel::Add { dest, a, b } => seq!["add"@, reg_name(dest), value_text(a), value_text(b)],
        InstModel::Sub { dest, a, b } => seq!["sub"@, reg_name(dest), value_text(a), value_text(b)],
        InstModel::Mul { dest, a, b } => seq!["mul"@, reg_name(dest), value_text(a), value_text(b)],
        InstModel::Div { dest, a, b } => seq!["div"@, reg_name(dest), value_text(a), value_text(b)],
        InstModel::Br { label } => seq!["br"@, label],
        InstModel::BrIf { label } => seq!["brif"@, label],
        InstModel::Bl { label } => seq!["bl"@, label],
        InstModel::BlIf { label } => seq!["blif"@, label],
        InstModel::Mov { dest, a } => seq!["mov"@, reg_name(dest), value_text(a)],
        InstModel::Not { dest, a } => seq!["not"@, reg_name(dest), value_text(a)],
        InstModel::Neg { dest, a } => seq!["neg"@, reg_name(dest), value_text(a)],
        InstModel::Load { dest, offset } => seq!["ldr"@, reg_name(dest), value_text(offset)],
        InstModel::Store { a, offset } => seq!["str"@, value_text(a), value_text(offset)],
        InstModel::Push { a } => seq!["push"@, value_text(a)],
        InstModel::Pop { dest } => seq!["pop"@, reg_name(dest)],
        InstModel::Put { a } => seq!["pub"@, value_text(a)],
        InstModel::Eq { a, b } => seq!["eq"@, value_text(a), value_text(b)],
        InstModel::NEq { a, b } => seq!["neq"@, value_text(a), value_text(b)],
    }
}

/// The text of an instruction: its name and operands separated by spaces
/// (`add %a %b 1`); a label is `@` followed by its name, and `put` is written
/// with the name `pub`.
pub open spec fn inst_text(i: InstModel) -> Seq<char> {
    join_words(inst_words(i))
}

/// Appends a space and then `w` to `out`.
fn push_word(out: &mut Vec<char>, w: &[char])
    ensures
        final(out)@ == old(out)@ + seq![' '] + w@,
{
    out.push(' ');
    extend_chars(out, w);
}

/// The text of a register as a word.
fn reg_word(r: Reg) -> (v: Vec<char>)
    ensures
        v@ == reg_name(r),
{
    reg_name_chars(r)
}

/// The text of an operand as a word.
fn value_word(v: &Value) -> (w: Vec<char>)
    ensures
        w@ == value_text(v@),
{
    let mut w: Vec<char> = Vec::new();
    push_value_text(v, &mut w);
    assert(w@ =~= value_text(v@));
    w
}

/// The text of the instruction `name dest a b`.
fn text3(name: &str, dest: Reg, a: &Value, b: &Value) -> (v: Vec<char>)
    ensures
        v@ == join_words(seq![name@, reg_name(dest), value_text(a@), value_text(b@)]),
{
    let mut v = chars_of(name);
    push_word(&mut v, reg_word(dest).as_slice());
    push_word(&mut v, value_word(a).as_slice());
    push_word(&mut v, value_word(b).as_slice());
    let ghost ws = seq![name@, reg_name(dest), value_text(a@), value_text(b@)];
    assert(ws.drop_last().drop_last().drop_last() =~= seq![name@]);
    assert(ws.drop_last().drop_last() =~= seq![name@, reg_name(dest)]);
    assert(ws.drop_last() =~= seq![name@, reg_name(dest), value_text(a@)]);
    assert(join_words(seq![name@]) == name@);
    assert(join_words(seq![name@, reg_name(dest)]) == name@ + seq![' '] + reg_name(dest));
    assert(join_words(seq![name@, reg_name(dest), value_text(a@)]) == name@ + seq![' '] + reg_name(
        dest,
    ) + seq![' '] + value_text(a@));
    assert(v@ =~= name@ + seq![' '] + reg_name(dest) + seq![' '] + value_text(a@) + seq![' ']
        + value_text(b@));
    v
}

/// The text of the instruction `name x y` with two words after the name.
fn text2(name: &str, x: &[char], y: &[char]) -> (v: Vec<char>)
    ensures
        v@ == join_words(seq![name@, x@, y@]),
{
    let mut v = chars_of(name);
    push_word(&mut v, x);
    push_word(&mut v, y);
    let ghost ws = seq![name@, x@, y@];
    assert(ws.drop_last().drop_last() =~= seq![name@]);
    assert(ws.drop_last() =~= seq![name@, x@]);
    assert(join_words(seq![name@]) == name@);
    assert(join_words(seq![name@, x@]) == name@ + seq![' '] + x@);
    assert(v@ =~= name@ + seq![' '] + x@ + seq![' '] + y@);
    v
}

/// The text of the instruction `name x` with one word after the name.
fn text1(name: &str, x: &[char]) -> (v: Vec<char>)
    ensures
        v@ == join_words(seq![name@, x@]),
{
    let mut v = chars_of(name);
    push_word(&mut v, x);
    let ghost ws = seq![name@, x@];
    assert(ws.drop_last() =~= seq![name@]);
    assert(join_words(seq![name@]) == name@);
    assert(v@ =~= name@ + seq![' '] + x@);
    v
}

/// The text of an instruction with no operands.
fn text0(name: &str) -> (v: Vec<char>)
    ensures
        v@ == join_words(seq![name@]),
{
    chars_of(name)
}

impl Instruction {
    /// The instruction's text (see `inst_text`).
    pub fn text_chars(&self) -> (v: Vec<char>)
        ensures
            v@ == inst_text(self@),
    {
        match self {
            Instruction::End => text0("end"),
            Instruction::Assert => text0("assert"),
            Instruction::Ret => text0("ret"),
            Instruction::RetIf => text0("retif"),
            Instruction::SysCall => text0("sys"),
            Instruction::Label { name } => {
                let mut v = chars_of("@");
                let n = chars_of(name.as_str());
                extend_chars(&mut v, n.as_slice());
                v
            },
            Instruction::And { dest, a, b } => text3("and", *dest, a, b),
            Instruction::Or { dest, a, b } => text3("or", *dest, a, b),
            Instruction::Xor { dest, a, b } => text3("xor", *dest, a, b),
            Instruction::NAnd { dest, a, b } => text3("nand", *dest, a, b),
            Instruction::NOr { dest, a, b } => text3("nor", *dest, a, b),
            Instruction::NXor { dest, a, b } => text3("nxor", *dest, a, b),
            Instruction::Add { dest, a, b } => text3("add", *dest, a, b),
            Instruction::Sub { dest, a, b } => text3("sub", *dest, a, b),
            Instruction::Mul { dest, a, b } => text3("mul", *dest, a, b),
            Instruction::Div { dest, a, b } => text3("div", *dest, a, b),
            Instruction::Br { label } => text1("br", chars_of(label.as_str()).as_slice()),
            Instruction::BrIf { label } => text1("brif", chars_of(label.as_str()).as_slice()),
            Instruction::Bl { label } => text1("bl", chars_of(label.as_str()).as_slice()),
            Instruction::BlIf { label } => text1("blif", chars_of(label.as_str()).as_slice()),
            Instruction::Mov { dest, a } => text2(
                "mov",
                reg_word(*dest).as_slice(),
                value_word(a).as_slice(),
            ),
            Instruction::Not { dest, a } => text2(
                "not",
                reg_word(*dest).as_slice(),
                value_word(a).as_slice(),
            ),
            Instruction::Neg { dest, a } => text2(
                "neg",
                reg_word(*dest).as_slice(),
                value_word(a).as_slice(),
            ),
            Instruction::Load { dest, offset } => text2(
                "ldr",
                reg_word(*dest).as_slice(),
                value_word(offset).as_slice(),
            ),
            Instruction::Store { a, offset } => text2(
                "str",
                value_word(a).as_slice(),
                value_word(offset).as_slice(),
            ),
            Instruction::Push { a } => text1("push", value_word(a).as_slice()),
            Instruction::Pop { dest } => text1("pop", reg_word(*dest).as_slice()),
            Instruction::Put { a } => text1("pub", value_word(a).as_slice()),
            Instruction::Eq { a, b } => text2(
                "eq",
                value_word(a).as_slice(),
                value_word(b).as_slice(),
            ),
            Instruction::NEq { a, b } => text2(
                "neq",
                value_word(a).as_slice(),
                value_word(b).as_slice(),
            ),
        }
    }

    /// The instruction's text (see `inst_text`), as `add %a %b 1`.
    pub fn to_string(&self) -> (s: String)
        ensures
            s@ == inst_text(self@),
    {
        let v = self.text_chars();
        string_of(v.as_slice())
    }
}

/// The text of each instruction followed by a newline, one string per instruction.
pub fn render_instructions(instructions: &[Instruction]) -> (lines: Vec<String>)
    ensures
        lines@.len() == instructions@.len(),
        forall|k: int|
            0 <= k < instructions@.len() ==> #[trigger] lines@[k]@ == inst_text(instructions@[k]@)
                + seq!['\n'],
{
    let mut lines: Vec<String> = Vec::new();
    let mut i: usize = 0;
    while i < instructions.len()
        invariant
            i <= instructions@.len(),
            lines@.len() == i,
            forall|k: int|
                0 <= k < i ==> #[trigger] lines@[k]@ == inst_text(instructions@[k]@) + seq!['\n'],
        decreases instructions@.len() - i,
    {
        let mut v = instructions[i].text_chars();
        v.push('\n');
        lines.push(string_of(v.as_slice()));
        i = i + 1;
    }
    lines
}


/// An instruction that reads back as itself from its text: not a label or a
/// `put` (written as `pub`, which reads as no instruction), its labels words
/// and its operands' data names plain.
pub open spec fn plain_inst(i: InstModel) -> bool {
    match i {
        InstModel::Label { .. } => false,
        InstModel::Br { label } => clean_word(label),
        InstModel::BrIf { label } => clean_word(label),
        InstModel::Bl { label } => clean_word(label),
        InstModel::BlIf { label } => clean_word(label),
        InstModel::Add { a, b, .. } => plain_value(a) && plain_value(b),
        InstModel::Sub { a, b, .. } => plain_value(a) && plain_value(b),
        InstModel::Mul { a, b, .. } => plain_value(a) && plain_value(b),
        InstModel::Div { a, b, .. } => plain_value(a) && plain_value(b),
        InstModel::And { a, b, .. } => plain_value(a) && plain_value(b),
        InstModel::Or { a, b, .. } => plain_value(a) && plain_value(b),
        InstModel::Xor { a, b, .. } => plain_value(a) && plain_value(b),
        InstModel::NAnd { a, b, .. } => plain_value(a) && plain_value(b),
        InstModel::NOr { a, b, .. } => plain_value(a) && plain_value(b),
        InstModel::NXor { a, b, .. } => plain_value(a) && plain_value(b),
        InstModel::Mov { a, .. } => plain_value(a),
        InstModel::Not { a, .. } => plain_value(a),
        InstModel::Neg { a, .. } => plain_value(a),
        InstModel::Load { offset, .. } => plain_value(offset),
        InstModel::Store { a, offset } => plain_value(a) && plain_value(offset),
        InstModel::Push { a } => plain_value(a),
        InstModel::Put { .. } => false,
        InstModel::Eq { a, b } => plain_value(a) && plain_value(b),
        InstModel::NEq { a, b } => plain_value(a) && plain_value(b),
        _ => true,
    }
}

/// Joined words: what the reader of a line needs to know of them.
proof fn lemma_join(ws: Seq<Seq<char>>)
    requires
        ws.len() >= 1,
        forall|k: int| 0 <= k < ws.len() ==> clean_word(#[trigger] ws[k]),
    ensures
        join_words(ws).len() > 0,
        join_words(ws)[0] == ws[0][0],
        join_words(ws).last() == ws.last().last(),
        lacks(join_words(ws), ';'),
        split(join_words(ws), ' ') == ws,
    decreases ws.len(),
{
    let j = join_words(ws);
    if ws.len() == 1 {
        let w = ws[0];
        assert(clean_word(w));
        assert(lacks(w, ' ')) by {
            assert forall|i: int| 0 <= i < w.len() implies w[i] != ' ' by {
                assert(!is_space(w[i]));
            }
        }
        lemma_split_lacking(w, ' ');
        assert(seq![w] =~= ws);
    } else {
        let p = ws.drop_last();
        assert forall|k: int| 0 <= k < p.len() implies clean_word(#[trigger] p[k]) by {
            assert(p[k] == ws[k]);
        }
        lemma_join(p);
        let jp = join_words(p);
        let w = ws.last();
        assert(clean_word(ws[ws.len() - 1]));
        assert(lacks(w, ' ')) by {
            assert forall|i: int| 0 <= i < w.len() implies w[i] != ' ' by {
                assert(!is_space(w[i]));
            }
        }
        lemma_split_append(jp, w, ' ');
        assert(p.push(w) =~= ws);
        assert(j[0] == jp[0]);
        assert(lacks(j, ';')) by {
            assert forall|i: int| 0 <= i < j.len() implies j[i] != ';' by {
                if i < jp.len() {
                    assert(j[i] == jp[i]);
                } else if i > jp.len() {
                    assert(j[i] == w[i - jp.len() - 1]);
                }
            }
        }
    }
}

/// A lower-case instruction name is a word that starts no label, header or comment.
proof fn lemma_name(w: Seq<char>)
    requires
        1 <= w.len(),
        forall|c: int| 0 <= c < w.len() ==> 'a' <= #[trigger] w[c] <= 'z',
    ensures
        clean_word(w),
        w[0] != '@' && w[0] != '.' && w[0] != ';',
{
    assert forall|c: int| 0 <= c < w.len() implies !is_space(#[trigger] w[c]) && w[c] != ';' by {
        assert('a' <= w[c] <= 'z');
    }
}

/// What the reader of a line needs of an instruction's words.
pub open spec fn words_ok(ws: Seq<Seq<char>>) -> bool {
    &&& ws.len() >= 1
    &&& forall|k: int| 0 <= k < ws.len() ==> clean_word(#[trigger] ws[k])
    &&& ws[0][0] != '@' && ws[0][0] != '.' && ws[0][0] != ';'
}

proof fn lemma_parts_zero(i: InstModel)
    requires
        i is End || i is Assert || i is Ret || i is RetIf || i is SysCall,
    ensures
        parts_inst(inst_words(i)) == Some(i),
        words_ok(inst_words(i)),
{
    reveal_strlit("assert");
    reveal_strlit("end");
    reveal_strlit("ret");
    reveal_strlit("retif");
    reveal_strlit("sys");
    assert("assert"@.len() == 6);
    assert("assert"@[0] == 'a');
    assert("assert"@[1] == 's');
    assert("assert"@[2] == 's');
    assert("assert"@[3] == 'e');
    assert("assert"@[4] == 'r');
    assert("assert"@[5] == 't');
    assert("end"@.len() == 3);
    assert("end"@[0] == 'e');
    assert("end"@[1] == 'n');
    assert("end"@[2] == 'd');
    assert("ret"@.len() == 3);
    assert("ret"@[0] == 'r');
    assert("ret"@[1] == 'e');
    assert("ret"@[2] == 't');
    assert("retif"@.len() == 5);
    assert("retif"@[0] == 'r');
    assert("retif"@[1] == 'e');
    assert("retif"@[2] == 't');
    assert("retif"@[3] == 'i');
    assert("retif"@[4] == 'f');
    assert("sys"@.len() == 3);
    assert("sys"@[0] == 's');
    assert("sys"@[1] == 'y');
    assert("sys"@[2] == 's');
    assert("assert"@ != "end"@);
    assert("assert"@ != "ret"@);
    assert("assert"@ != "retif"@);
    assert("assert"@ != "sys"@);
    assert("end"@ != "ret"@);
    assert("end"@ != "retif"@);
    assert("end"@ != "sys"@);
    assert("ret"@ != "retif"@);
    assert("ret"@ != "sys"@);
    assert("retif"@ != "sys"@);
    let ws = inst_words(i);
    lemma_name(ws[0]);
}

proof fn lemma_parts_one(i: InstModel)
    requires
        plain_inst(i),
        i is Br || i is BrIf || i is Bl || i is BlIf || i is Push || i is Pop,
    ensures
        parts_inst(inst_words(i)) == Some(i),
        words_ok(inst_words(i)),
{
    reveal_strlit("bl");
    reveal_strlit("blif");
    reveal_strlit("br");
    reveal_strlit("brif");
    reveal_strlit("push");
    reveal_strlit("pop");
    assert("bl"@.len() == 2);
    assert("bl"@[0] == 'b');
    assert("bl"@[1] == 'l');
    assert("blif"@.len() == 4);
    assert("blif"@[0] == 'b');
    assert("blif"@[1] == 'l');
    assert("blif"@[2] == 'i');
    assert("blif"@[3] == 'f');
    assert("br"@.len() == 2);
    assert("br"@[0] == 'b');
    assert("br"@[1] == 'r');
    assert("brif"@.len() == 4);
    assert("brif"@[0] == 'b');
    assert("brif"@[1] == 'r');
    assert("brif"@[2] == 'i');
    assert("brif"@[3] == 'f');
    assert("push"@.len() == 4);
    assert("push"@[0] == 'p');
    assert("push"@[1] == 'u');
    assert("push"@[2] == 's');
    assert("push"@[3] == 'h');
    assert("pop"@.len() == 3);
    assert("pop"@[0] == 'p');
    assert("pop"@[1] == 'o');
    assert("pop"@[2] == 'p');
    assert("bl"@ != "blif"@);
    assert("bl"@ != "br"@);
    assert("bl"@ != "brif"@);
    assert("bl"@ != "push"@);
    assert("bl"@ != "pop"@);
    assert("blif"@ != "br"@);
    assert("blif"@ != "brif"@);
    assert("blif"@ != "push"@);
    assert("blif"@ != "pop"@);
    assert("br"@ != "brif"@);
    assert("br"@ != "push"@);
    assert("br"@ != "pop"@);
    assert("brif"@ != "push"@);
    assert("brif"@ != "pop"@);
    assert("push"@ != "pop"@);
    let ws = inst_words(i);
    lemma_name(ws[0]);
    match i {
        InstModel::Push { a } => {
            lemma_value_round_trip(a);
            lemma_value_text_clean(a);
        },
        InstModel::Pop { dest } => {
            lemma_reg_name_round_trip(dest);
            lemma_reg_name_clean(dest);
        },
        _ => {},
    }
    assert(clean_word(ws[1]));
}

proof fn lemma_parts_two(i: InstModel)
    requires
        plain_inst(i),
        i is Mov || i is Not || i is Neg || i is Load || i is Store || i is Eq || i is NEq,
    ensures
        parts_inst(inst_words(i)) == Some(i),
        words_ok(inst_words(i)),
{
    reveal_strlit("mov");
    reveal_strlit("not");
    reveal_strlit("neg");
    reveal_strlit("ldr");
    reveal_strlit("eq");
    reveal_strlit("neq");
    reveal_strlit("str");
    assert("mov"@.len() == 3);
    assert("mov"@[0] == 'm');
    assert("mov"@[1] == 'o');
    assert("mov"@[2] == 'v');
    assert("not"@.len() == 3);
    assert("not"@[0] == 'n');
    assert("not"@[1] == 'o');
    assert("not"@[2] == 't');
    assert("neg"@.len() == 3);
    assert("neg"@[0] == 'n');
    assert("neg"@[1] == 'e');
    assert("neg"@[2] == 'g');
    assert("ldr"@.len() == 3);
    assert("ldr"@[0] == 'l');
    assert("ldr"@[1] == 'd');
    assert("ldr"@[2] == 'r');
    assert("eq"@.len() == 2);
    assert("eq"@[0] == 'e');
    assert("eq"@[1] == 'q');
    assert("neq"@.len() == 3);
    assert("neq"@[0] == 'n');
    assert("neq"@[1] == 'e');
    assert("neq"@[2] == 'q');
    assert("str"@.len() == 3);
    assert("str"@[0] == 's');
    assert("str"@[1] == 't');
    assert("str"@[2] == 'r');
    assert("mov"@ != "not"@);
    assert("mov"@ != "neg"@);
    assert("mov"@ != "ldr"@);
    assert("mov"@ != "eq"@);
    assert("mov"@ != "neq"@);
    assert("mov"@ != "str"@);
    assert("not"@ != "neg"@);
    assert("not"@ != "ldr"@);
    assert("not"@ != "eq"@);
    assert("not"@ != "neq"@);
    assert("not"@ != "str"@);
    assert("neg"@ != "ldr"@);
    assert("neg"@ != "eq"@);
    assert("neg"@ != "neq"@);
    assert("neg"@ != "str"@);
    assert("ldr"@ != "eq"@);
    assert("ldr"@ != "neq"@);
    assert("ldr"@ != "str"@);
    assert("eq"@ != "neq"@);
    assert("eq"@ != "str"@);
    assert("neq"@ != "str"@);
    let ws = inst_words(i);
    lemma_name(ws[0]);
    match i {
        InstModel::Mov { dest, a } | InstModel::Not { dest, a } | InstModel::Neg { dest, a }
        | InstModel::Load { dest, offset: a } => {
            lemma_reg_name_round_trip(dest);
            lemma_value_round_trip(a);
            lemma_reg_name_clean(dest);
            lemma_value_text_clean(a);
        },
        InstModel::Store { a, offset: b } | InstModel::Eq { a, b } | InstModel::NEq { a, b } => {
            lemma_value_round_trip(a);
            lemma_value_round_trip(b);
            lemma_value_text_clean(a);
            lemma_value_text_clean(b);
        },
        _ => {},
    }
    assert(clean_word(ws[1]) && clean_word(ws[2]));
}

proof fn lemma_parts_three(i: InstModel)
    requires
        plain_inst(i),
        i is Add || i is Sub || i is Mul || i is Div || i is And || i is Or || i is Xor || i is NAnd
            || i is NOr || i is NXor,
    ensures
        parts_inst(inst_words(i)) == Some(i),
        words_ok(inst_words(i)),
{
    reveal_strlit("add");
    reveal_strlit("sub");
    reveal_strlit("mul");
    reveal_strlit("div");
    reveal_strlit("and");
    reveal_strlit("or");
    reveal_strlit("xor");
    reveal_strlit("nand");
    reveal_strlit("nor");
    reveal_strlit("nxor");
    assert("add"@.len() == 3);
    assert("add"@[0] == 'a');
    assert("add"@[1] == 'd');
    assert("add"@[2] == 'd');
    assert("sub"@.len() == 3);
    assert("sub"@[0] == 's');
    assert("sub"@[1] == 'u');
    assert("sub"@[2] == 'b');
    assert("mul"@.len() == 3);
    assert("mul"@[0] == 'm');
    assert("mul"@[1] == 'u');
    assert("mul"@[2] == 'l');
    assert("div"@.len() == 3);
    assert("div"@[0] == 'd');
    assert("div"@[1] == 'i');
    assert("div"@[2] == 'v');
    assert("and"@.len() == 3);
    assert("and"@[0] == 'a');
    assert("and"@[1] == 'n');
    assert("and"@[2] == 'd');
    assert("or"@.len() == 2);
    assert("or"@[0] == 'o');
    assert("or"@[1] == 'r');
    assert("xor"@.len() == 3);
    assert("xor"@[0] == 'x');
    assert("xor"@[1] == 'o');
    assert("xor"@[2] == 'r');
    assert("nand"@.len() == 4);
    assert("nand"@[0] == 'n');
    assert("nand"@[1] == 'a');
    assert("nand"@[2] == 'n');
    assert("nand"@[3] == 'd');
    assert("nor"@.len() == 3);
    assert("nor"@[0] == 'n');
    assert("nor"@[1] == 'o');
    assert("nor"@[2] == 'r');
    assert("nxor"@.len() == 4);
    assert("nxor"@[0] == 'n');
    assert("nxor"@[1] == 'x');
    assert("nxor"@[2] == 'o');
    assert("nxor"@[3] == 'r');
    assert("add"@ != "sub"@);
    assert("add"@ != "mul"@);
    assert("add"@ != "div"@);
    assert("add"@ != "and"@);
    assert("add"@ != "or"@);
    assert("add"@ != "xor"@);
    assert("add"@ != "nand"@);
    assert("add"@ != "nor"@);
    assert("add"@ != "nxor"@);
    assert("sub"@ != "mul"@);
    assert("sub"@ != "div"@);
    assert("sub"@ != "and"@);
    assert("sub"@ != "or"@);
    assert("sub"@ != "xor"@);
    assert("sub"@ != "nand"@);
    assert("sub"@ != "nor"@);
    assert("sub"@ != "nxor"@);
    assert("mul"@ != "div"@);
    assert("mul"@ != "and"@);
    assert("mul"@ != "or"@);
    assert("mul"@ != "xor"@);
    assert("mul"@ != "nand"@);
    assert("mul"@ != "nor"@);
    assert("mul"@ != "nxor"@);
    assert("div"@ != "and"@);
    assert("div"@ != "or"@);
    assert("div"@ != "xor"@);
    assert("div"@ != "nand"@);
    assert("div"@ != "nor"@);
    assert("div"@ != "nxor"@);
    assert("and"@ != "or"@);
    assert("and"@ != "xor"@);
    assert("and"@ != "nand"@);
    assert("and"@ != "nor"@);
    assert("and"@ != "nxor"@);
    assert("or"@ != "xor"@);
    assert("or"@ != "nand"@);
    assert("or"@ != "nor"@);
    assert("or"@ != "nxor"@);
    assert("xor"@ != "nand"@);
    assert("xor"@ != "nor"@);
    assert("xor"@ != "nxor"@);
    assert("nand"@ != "nor"@);
    assert("nand"@ != "nxor"@);
    assert("nor"@ != "nxor"@);
    let ws = inst_words(i);
    lemma_name(ws[0]);
    match i {
        InstModel::Add { dest, a, b } | InstModel::Sub { dest, a, b } | InstModel::Mul { dest, a, b }
        | InstModel::Div { dest, a, b } | InstModel::And { dest, a, b } | InstModel::Or { dest, a, b }
        | InstModel::Xor { dest, a, b } | InstModel::NAnd { dest, a, b } | InstModel::NOr { dest, a, b }
        | InstModel::NXor { dest, a, b } => {
            lemma_reg_name_round_trip(dest);
            lemma_value_round_trip(a);
            lemma_value_round_trip(b);
            lemma_reg_name_clean(dest);
            lemma_value_text_clean(a);
            lemma_value_text_clean(b);
        },
        _ => {},
    }
    assert(clean_word(ws[1]) && clean_word(ws[2]) && clean_word(ws[3]));
}

/// An instruction's words read back as that instruction.
proof fn lemma_parts_inst(i: InstModel)
    requires
        plain_inst(i),
    ensures
        parts_inst(inst_words(i)) == Some(i),
        words_ok(inst_words(i)),
{
    if i is End || i is Assert || i is Ret || i is RetIf || i is SysCall {
        lemma_parts_zero(i);
    } else if i is Br || i is BrIf || i is Bl || i is BlIf || i is Push || i is Pop {
        lemma_parts_one(i);
    } else if i is Mov || i is Not || i is Neg || i is Load || i is Store || i is Eq || i is NEq {
        lemma_parts_two(i);
    } else {
        lemma_parts_three(i);
    }
}

/// Reading the text of an instruction gives back that instruction, when it
/// is not a label and its labels and data names are plain words.
pub proof fn lemma_inst_round_trip(i: InstModel)
    requires
        plain_inst(i),
    ensures
        parse_line(inst_text(i)) == Some(Ok::<InstModel, LineError>(i)),
{
    lemma_parts_inst(i);
    let ws = inst_words(i);
    lemma_join(ws);
    let t = join_words(ws);
    assert(clean_word(ws[0]));
    assert(clean_word(ws[ws.len() - 1]));
    lemma_trim_tight(t);
    lemma_split_lacking(t, ';');
}


/// White space at either end of a line, tab included, does not change how
/// the line is read; a line that starts with any other character reads as
/// that line with the character in front.
pub proof fn lemma_line_ignores_surrounding_white_space(c: char, l: Seq<char>)
    requires
        unicode_white_space(c),
    ensures
        parse_line(seq![c] + l) == parse_line(l),
        parse_line(l.push(c)) == parse_line(l),
{
    lemma_trim_strips_white_space(c, l);
}

/// A plain instruction's text indented by white space, or followed by it,
/// still reads back as that instruction.
pub proof fn lemma_indented_inst_round_trip(i: InstModel, c: char)
    requires
        plain_inst(i),
        unicode_white_space(c),
    ensures
        parse_line(seq![c] + inst_text(i)) == Some(Ok::<InstModel, LineError>(i)),
        parse_line(inst_text(i).push(c)) == Some(Ok::<InstModel, LineError>(i)),
{
    lemma_inst_round_trip(i);
    lemma_line_ignores_surrounding_white_space(c, inst_text(i));
}

} // verus!
