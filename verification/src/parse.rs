//! From source lines to instructions.
//!
//! A line is put in lower case and loses its comment. Its first word is the
//! mnemonic; the words after it, run together, list the operands between
//! commas. A first word that is no mnemonic must declare a label: the part of
//! it before its first colon is the label's name. A blank line and a
//! declaration each hold the place of one `Noop`, so that the index of an
//! instruction is the index of its line.

use vstd::prelude::*;
use crate::error::{seen, Error, ErrorView};
use crate::instruction::{Instruction, InstructionView};
use crate::operands::{
    garbage, immediate_read, label_read, read_imm, read_label, read_reg, register_of,
    register_read, rest, Operands,
};
use crate::state::{Register, State, StateView};
use crate::text::{
    chars_of, code_end, find, first, lemma_operands_are_trimmed, operands, slice_of, spells,
    squeeze, squeezed, string_of, strip_comment, trimmed, Mark,
};

verus! {

/// The operations that the assembly language names.
#[derive(Clone, Copy, Debug, PartialEq, Eq)]
pub enum Mnemonic {
    Zero,
    Debug,
    Mov,
    Add,
    Sub,
    Inc,
    Dec,
    And,
    Or,
    Xor,
    Not,
    Shl,
    Shr,
    Jz,
    Jnz,
    J,
}

impl Mnemonic {
    /// How many operands of the operation name registers. They come first.
    pub open spec fn registers(self) -> nat {
        match self {
            Mnemonic::Debug | Mnemonic::Jz | Mnemonic::Jnz | Mnemonic::J => 0,
            Mnemonic::Zero
            | Mnemonic::Inc
            | Mnemonic::Dec
            | Mnemonic::Not
            | Mnemonic::Shl
            | Mnemonic::Shr => 1,
            Mnemonic::Mov => 2,
            Mnemonic::Add | Mnemonic::Sub | Mnemonic::And | Mnemonic::Or | Mnemonic::Xor => 3,
        }
    }
}

/// The operation that `word` names, if it names one.
pub open spec fn mnemonic_of(word: Seq<char>) -> Option<Mnemonic> {
    if word == "zero"@ {
        Some(Mnemonic::Zero)
    } else if word == "debug"@ {
        Some(Mnemonic::Debug)
    } else if word == "mov"@ {
        Some(Mnemonic::Mov)
    } else if word == "add"@ {
        Some(Mnemonic::Add)
    } else if word == "sub"@ {
        Some(Mnemonic::Sub)
    } else if word == "inc"@ {
        Some(Mnemonic::Inc)
    } else if word == "dec"@ {
        Some(Mnemonic::Dec)
    } else if word == "and"@ {
        Some(Mnemonic::And)
    } else if word == "or"@ {
        Some(Mnemonic::Or)
    } else if word == "xor"@ {
        Some(Mnemonic::Xor)
    } else if word == "not"@ {
        Some(Mnemonic::Not)
    } else if word == "shl"@ {
        Some(Mnemonic::Shl)
    } else if word == "shr"@ {
        Some(Mnemonic::Shr)
    } else if word == "jz"@ {
        Some(Mnemonic::Jz)
    } else if word == "jnz"@ {
        Some(Mnemonic::Jnz)
    } else if word == "j"@ {
        Some(Mnemonic::J)
    } else {
        None
    }
}

/// Where the first word of `code` starts.
pub open spec fn word_start(code: Seq<char>) -> int {
    first(code, 0, Mark::Word)
}

/// Where the first word of `code` ends.
pub open spec fn word_end(code: Seq<char>) -> int {
    first(code, word_start(code), Mark::Space)
}

/// The first word of `code`; empty if `code` is blank.
pub open spec fn first_word(code: Seq<char>) -> Seq<char> {
    code.subrange(word_start(code), word_end(code))
}

/// What follows the first word of `code`, without its white space.
pub open spec fn operand_text(code: Seq<char>) -> Seq<char> {
    squeeze(code.subrange(word_end(code), code.len() as int))
}

/// No operand may be left in `items`, for the instruction at `index`.
pub open spec fn nothing_left(items: Seq<Seq<char>>, index: usize) -> Result<(), ErrorView> {
    if items.len() == 0 {
        Ok(())
    } else {
        Err(garbage(index))
    }
}

/// `items` read as one register and nothing more.
pub open spec fn one_register(items: Seq<Seq<char>>, index: usize) -> Result<
    Register,
    ErrorView,
> {
    match register_read(items, index) {
        Err(e) => Err(e),
        Ok(reg) => match nothing_left(rest(items), index) {
            Err(e) => Err(e),
            Ok(_) => Ok(reg),
        },
    }
}

/// `items` read as two registers and nothing more.
pub open spec fn two_registers(items: Seq<Seq<char>>, index: usize) -> Result<
    (Register, Register),
    ErrorView,
> {
    match register_read(items, index) {
        Err(e) => Err(e),
        Ok(a) => match one_register(rest(items), index) {
            Err(e) => Err(e),
            Ok(b) => Ok((a, b)),
        },
    }
}

/// `items` read as three registers and nothing more.
pub open spec fn three_registers(items: Seq<Seq<char>>, index: usize) -> Result<
    (Register, Register, Register),
    ErrorView,
> {
    match register_read(items, index) {
        Err(e) => Err(e),
        Ok(a) => match two_registers(rest(items), index) {
            Err(e) => Err(e),
            Ok(bc) => Ok((a, bc.0, bc.1)),
        },
    }
}

/// `items` read as a register, a number and nothing more.
pub open spec fn register_and_number(items: Seq<Seq<char>>, index: usize) -> Result<
    (Register, u64),
    ErrorView,
> {
    match register_read(items, index) {
        Err(e) => Err(e),
        Ok(reg) => match immediate_read(rest(items), index) {
            Err(e) => Err(e),
            Ok(amount) => match nothing_left(rest(rest(items)), index) {
                Err(e) => Err(e),
                Ok(_) => Ok((reg, amount)),
            },
        },
    }
}

/// `items` read as one label and nothing more.
pub open spec fn one_label(items: Seq<Seq<char>>, index: usize) -> Result<Seq<char>, ErrorView> {
    match label_read(items, index) {
        Err(e) => Err(e),
        Ok(label) => match nothing_left(rest(items), index) {
            Err(e) => Err(e),
            Ok(_) => Ok(label),
        },
    }
}

/// The instruction that `mnemonic` makes with the operands `items`, at `index`.
pub open spec fn assemble(mnemonic: Mnemonic, items: Seq<Seq<char>>, index: usize) -> Result<
    InstructionView,
    ErrorView,
> {
    match mnemonic {
        Mnemonic::Debug => match nothing_left(items, index) {
            Ok(_) => Ok(InstructionView::Debug),
            Err(e) => Err(e),
        },
        Mnemonic::Zero => match one_register(items, index) {
            Ok(reg) => Ok(InstructionView::Zero { reg }),
            Err(e) => Err(e),
        },
        Mnemonic::Inc => match one_register(items, index) {
            Ok(reg) => Ok(InstructionView::Inc { reg }),
            Err(e) => Err(e),
        },
        Mnemonic::Dec => match one_register(items, index) {
            Ok(reg) => Ok(InstructionView::Dec { reg }),
            Err(e) => Err(e),
        },
        Mnemonic::Not => match one_register(items, index) {
            Ok(reg) => Ok(InstructionView::Not { reg }),
            Err(e) => Err(e),
        },
        Mnemonic::Mov => match two_registers(items, index) {
            Ok(r) => Ok(InstructionView::Mov { to: r.0, from: r.1 }),
            Err(e) => Err(e),
        },
        Mnemonic::Add => match three_registers(items, index) {
            Ok(r) => Ok(InstructionView::Add { to: r.0, op1: r.1, op2: r.2 }),
            Err(e) => Err(e),
        },
        Mnemonic::Sub => match three_registers(items, index) {
            Ok(r) => Ok(InstructionView::Sub { to: r.0, op1: r.1, op2: r.2 }),
            Err(e) => Err(e),
        },
        Mnemonic::And => match three_registers(items, index) {
            Ok(r) => Ok(InstructionView::And { to: r.0, op1: r.1, op2: r.2 }),
            Err(e) => Err(e),
        },
        Mnemonic::Or => match three_registers(items, index) {
            Ok(r) => Ok(InstructionView::Or { to: r.0, op1: r.1, op2: r.2 }),
            Err(e) => Err(e),
        },
        Mnemonic::Xor => match three_registers(items, index) {
            Ok(r) => Ok(InstructionView::Xor { to: r.0, op1: r.1, op2: r.2 }),
            Err(e) => Err(e),
        },
        Mnemonic::Shl => match register_and_number(items, index) {
            Ok(r) => Ok(InstructionView::Shl { reg: r.0, amount: r.1 }),
            Err(e) => Err(e),
        },
        Mnemonic::Shr => match register_and_number(items, index) {
            Ok(r) => Ok(InstructionView::Shr { reg: r.0, amount: r.1 }),
            Err(e) => Err(e),
        },
        Mnemonic::Jz => match one_label(items, index) {
            Ok(label) => Ok(InstructionView::Jz { label }),
            Err(e) => Err(e),
        },
        Mnemonic::Jnz => match one_label(items, index) {
            Ok(label) => Ok(InstructionView::Jnz { label }),
            Err(e) => Err(e),
        },
        Mnemonic::J => match one_label(items, index) {
            Ok(label) => Ok(InstructionView::J { label }),
            Err(e) => Err(e),
        },
    }
}

/// What a line comes to: its instruction, and the label that it declares if it
/// declares one.
pub struct Parsed {
    pub instruction: InstructionView,
    pub label: Option<Seq<char>>,
}

/// What the line at `index` comes to, given its text `code` in lower case and
/// without its comment.
pub open spec fn parse_code(code: Seq<char>, index: usize) -> Result<Parsed, ErrorView> {
    let word = first_word(code);
    if word.len() == 0 {
        Ok(Parsed { instruction: InstructionView::Noop, label: None })
    } else {
        match mnemonic_of(word) {
            Some(mnemonic) => match assemble(mnemonic, operands(operand_text(code)), index) {
                Ok(instruction) => Ok(Parsed { instruction, label: None }),
                Err(e) => Err(e),
            },
            None => {
                let colon = first(word, 0, Mark::Char(':'));
                if colon < word.len() {
                    Ok(Parsed { instruction: InstructionView::Noop, label: Some(word.take(colon)) })
                } else {
                    Err(ErrorView::GarbageInstruction { text: word })
                }
            },
        }
    }
}

impl StateView {
    /// The state once a line that declares `label`, if any, is parsed at `index`.
    pub open spec fn noted(self, label: Option<Seq<char>>, index: usize) -> StateView {
        match label {
            Some(name) => self.declare(name, index),
            None => self,
        }
    }
}

/// Tells which operation the characters of `text` from `from` up to `to` name.
pub fn classify(text: &Vec<char>, from: usize, to: usize) -> (r: Option<Mnemonic>)
    requires
        from <= to <= text.len(),
    ensures
        r == mnemonic_of(text@.subrange(from as int, to as int)),
{
    if spells(text, from, to, "zero") {
        Some(Mnemonic::Zero)
    } else if spells(text, from, to, "debug") {
        Some(Mnemonic::Debug)
    } else if spells(text, from, to, "mov") {
        Some(Mnemonic::Mov)
    } else if spells(text, from, to, "add") {
        Some(Mnemonic::Add)
    } else if spells(text, from, to, "sub") {
        Some(Mnemonic::Sub)
    } else if spells(text, from, to, "inc") {
        Some(Mnemonic::Inc)
    } else if spells(text, from, to, "dec") {
        Some(Mnemonic::Dec)
    } else if spells(text, from, to, "and") {
        Some(Mnemonic::And)
    } else if spells(text, from, to, "or") {
        Some(Mnemonic::Or)
    } else if spells(text, from, to, "xor") {
        Some(Mnemonic::Xor)
    } else if spells(text, from, to, "not") {
        Some(Mnemonic::Not)
    } else if spells(text, from, to, "shl") {
        Some(Mnemonic::Shl)
    } else if spells(text, from, to, "shr") {
        Some(Mnemonic::Shr)
    } else if spells(text, from, to, "jz") {
        Some(Mnemonic::Jz)
    } else if spells(text, from, to, "jnz") {
        Some(Mnemonic::Jnz)
    } else if spells(text, from, to, "j") {
        Some(Mnemonic::J)
    } else {
        None
    }
}

fn read_nothing(items: &Operands, index: usize) -> (r: Result<(), Error>)
    requires
        index < usize::MAX,
    ensures
        seen(r) == nothing_left(items@, index),
{
    if items.exhausted() {
        Ok(())
    } else {
        Err(Error::GarbageOperands { line: index + 1 })
    }
}

fn read_one_register(items: &mut Operands, index: usize) -> (r: Result<Register, Error>)
    requires
        index < usize::MAX,
    ensures
        seen(r) == one_register(old(items)@, index),
{
    let reg: Register = match read_reg(items, index) {
        Ok(reg) => reg,
        Err(e) => {
            return Err(e);
        },
    };
    match read_nothing(items, index) {
        Ok(_) => Ok(reg),
        Err(e) => Err(e),
    }
}

fn read_two_registers(items: &mut Operands, index: usize) -> (r: Result<
    (Register, Register),
    Error,
>)
    requires
        index < usize::MAX,
    ensures
        seen(r) == two_registers(old(items)@, index),
{
    let a: Register = match read_reg(items, index) {
        Ok(reg) => reg,
        Err(e) => {
            return Err(e);
        },
    };
    match read_one_register(items, index) {
        Ok(b) => Ok((a, b)),
        Err(e) => Err(e),
    }
}

fn read_three_registers(items: &mut Operands, index: usize) -> (r: Result<
    (Register, Register, Register),
    Error,
>)
    requires
        index < usize::MAX,
    ensures
        seen(r) == three_registers(old(items)@, index),
{
    let a: Register = match read_reg(items, index) {
        Ok(reg) => reg,
        Err(e) => {
            return Err(e);
        },
    };
    match read_two_registers(items, index) {
        Ok(bc) => Ok((a, bc.0, bc.1)),
        Err(e) => Err(e),
    }
}

fn read_register_and_number(items: &mut Operands, index: usize) -> (r: Result<
    (Register, u64),
    Error,
>)
    requires
        index < usize::MAX,
    ensures
        seen(r) == register_and_number(old(items)@, index),
{
    let reg: Register = match read_reg(items, index) {
        Ok(reg) => reg,
        Err(e) => {
            return Err(e);
        },
    };
    let amount: u64 = match read_imm(items, index) {
        Ok(amount) => amount,
        Err(e) => {
            return Err(e);
        },
    };
    match read_nothing(items, index) {
        Ok(_) => Ok((reg, amount)),
        Err(e) => Err(e),
    }
}

fn read_one_label(items: &mut Operands, index: usize) -> (r: Result<String, Error>)
    requires
        index < usize::MAX,
    ensures
        match one_label(old(items)@, index) {
            Ok(label) => r is Ok && r->Ok_0@ == label,
            Err(e) => r is Err && r->Err_0@ == e,
        },
{
    let label: String = match read_label(items, index) {
        Ok(label) => label,
        Err(e) => {
            return Err(e);
        },
    };
    match read_nothing(items, index) {
        Ok(_) => Ok(label),
        Err(e) => Err(e),
    }
}

/// Makes the instruction of `mnemonic` from the operands `items`, for the
/// line at `index`.
pub fn build(mnemonic: Mnemonic, items: &mut Operands, index: usize) -> (r: Result<
    Instruction,
    Error,
>)
    requires
        index < usize::MAX,
    ensures
        match assemble(mnemonic, old(items)@, index) {
            Ok(instruction) => r is Ok && r->Ok_0@ == instruction,
            Err(e) => r is Err && r->Err_0@ == e,
        },
{
    match mnemonic {
        Mnemonic::Debug => match read_nothing(items, index) {
            Ok(_) => Ok(Instruction::Debug),
            Err(e) => Err(e),
        },
        Mnemonic::Zero => match read_one_register(items, index) {
            Ok(reg) => Ok(Instruction::Zero { reg }),
            Err(e) => Err(e),
        },
        Mnemonic::Inc => match read_one_register(items, index) {
            Ok(reg) => Ok(Instruction::Inc { reg }),
            Err(e) => Err(e),
        },
        Mnemonic::Dec => match read_one_register(items, index) {
            Ok(reg) => Ok(Instruction::Dec { reg }),
            Err(e) => Err(e),
        },
        Mnemonic::Not => match read_one_register(items, index) {
            Ok(reg) => Ok(Instruction::Not { reg }),
            Err(e) => Err(e),
        },
        Mnemonic::Mov => match read_two_registers(items, index) {
            Ok(r) => Ok(Instruction::Mov { to: r.0, from: r.1 }),
            Err(e) => Err(e),
        },
        Mnemonic::Add => match read_three_registers(items, index) {
            Ok(r) => Ok(Instruction::Add { to: r.0, op1: r.1, op2: r.2 }),
            Err(e) => Err(e),
        },
        Mnemonic::Sub => match read_three_registers(items, index) {
            Ok(r) => Ok(Instruction::Sub { to: r.0, op1: r.1, op2: r.2 }),
            Err(e) => Err(e),
        },
        Mnemonic::And => match read_three_registers(items, index) {
            Ok(r) => Ok(Instruction::And { to: r.0, op1: r.1, op2: r.2 }),
            Err(e) => Err(e),
        },
        Mnemonic::Or => match read_three_registers(items, index) {
            Ok(r) => Ok(Instruction::Or { to: r.0, op1: r.1, op2: r.2 }),
            Err(e) => Err(e),
        },
        Mnemonic::Xor => match read_three_registers(items, index) {
            Ok(r) => Ok(Instruction::Xor { to: r.0, op1: r.1, op2: r.2 }),
            Err(e) => Err(e),
        },
        Mnemonic::Shl => match read_register_and_number(items, index) {
            Ok(r) => Ok(Instruction::Shl { reg: r.0, amount: r.1 }),
            Err(e) => Err(e),
        },
        Mnemonic::Shr => match read_register_and_number(items, index) {
            Ok(r) => Ok(Instruction::Shr { reg: r.0, amount: r.1 }),
            Err(e) => Err(e),
        },
        Mnemonic::Jz => match read_one_label(items, index) {
            Ok(label) => Ok(Instruction::Jz { label }),
            Err(e) => Err(e),
        },
        Mnemonic::Jnz => match read_one_label(items, index) {
            Ok(label) => Ok(Instruction::Jnz { label }),
            Err(e) => Err(e),
        },
        Mnemonic::J => match read_one_label(items, index) {
            Ok(label) => Ok(Instruction::J { label }),
            Err(e) => Err(e),
        },
    }
}

/// What `str::to_lowercase` makes of a text.
pub uninterp spec fn lowercased(text: Seq<char>) -> Seq<char>;

/// `str::to_lowercase`: the text with each character replaced by its lower
/// case, as Unicode defines it. The result depends on the text alone.
#[verifier::external_body]
fn lowercase(src: &str) -> (r: String)
    ensures
        r@ == lowercased(src@),
{
    src.to_lowercase()
}

/// What the source line `src` at `index` comes to.
pub open spec fn parse_line(src: Seq<char>, index: usize) -> Result<Parsed, ErrorView> {
    parse_code(strip_comment(lowercased(src)), index)
}

impl Instruction {
    /// Parses the line at `index`, whose text `line` is in lower case already.
    /// A label that the line declares is entered in `state`; a line that
    /// fails leaves `state` as it was.
    pub fn parse_lowered(state: &mut State, index: usize, line: &str) -> (r: Result<
        Instruction,
        Error,
    >)
        requires
            index < usize::MAX,
        ensures
            match parse_code(strip_comment(line@), index) {
                Ok(parsed) => r is Ok && r->Ok_0@ == parsed.instruction && final(state)@ == old(
                    state,
                )@.noted(parsed.label, index),
                Err(e) => r is Err && r->Err_0@ == e && final(state)@ == old(state)@,
            },
    {
        let text: Vec<char> = chars_of(line);
        let end: usize = code_end(&text);
        let start: usize = find(&text, 0, end, Mark::Word);
        let stop: usize = find(&text, start, end, Mark::Space);
        let ghost code = text@.take(end as int);
        proof {
            assert(code == strip_comment(line@));
            assert(code.subrange(start as int, stop as int) =~= text@.subrange(
                start as int,
                stop as int,
            ));
            assert(code.subrange(stop as int, code.len() as int) =~= text@.subrange(
                stop as int,
                end as int,
            ));
        }
        if start == stop {
            return Ok(Instruction::Noop);
        }
        match classify(&text, start, stop) {
            Some(mnemonic) => {
                let mut items: Operands = Operands::new(squeezed(&text, stop, end));
                build(mnemonic, &mut items, index)
            },
            None => {
                let word: Vec<char> = slice_of(&text, start, stop);
                let colon: usize = find(&word, 0, word.len(), Mark::Char(':'));
                assert(word@.take(word.len() as int) =~= word@);
                if colon < word.len() {
                    let name: String = string_of(&word, 0, colon);
                    assert(word@.subrange(0, colon as int) =~= word@.take(colon as int));
                    state.add_label(name, index);
                    Ok(Instruction::Noop)
                } else {
                    let shown: String = string_of(&word, 0, word.len());
                    assert(word@.subrange(0, word.len() as int) =~= word@);
                    Err(Error::GarbageInstruction { text: shown })
                }
            },
        }
    }

    /// Parses the source line `src` at `index`. A label that the line declares
    /// is entered in `state`; a line that fails leaves `state` as it was.
    pub fn parse(state: &mut State, index: usize, src: &str) -> (r: Result<Instruction, Error>)
        requires
            index < usize::MAX,
        ensures
            match parse_line(src@, index) {
                Ok(parsed) => r is Ok && r->Ok_0@ == parsed.instruction && final(state)@ == old(
                    state,
                )@.noted(parsed.label, index),
                Err(e) => r is Err && r->Err_0@ == e && final(state)@ == old(state)@,
            },
    {
        let lowered: String = lowercase(src);
        Instruction::parse_lowered(state, index, lowered.as_str())
    }
}

/// Every mnemonic is a word of one letter or more.
pub proof fn lemma_mnemonic_is_a_word(word: Seq<char>)
    requires
        mnemonic_of(word) is Some,
    ensures
        word.len() > 0,
{
    reveal_strlit("zero");
    reveal_strlit("debug");
    reveal_strlit("mov");
    reveal_strlit("add");
    reveal_strlit("sub");
    reveal_strlit("inc");
    reveal_strlit("dec");
    reveal_strlit("and");
    reveal_strlit("or");
    reveal_strlit("xor");
    reveal_strlit("not");
    reveal_strlit("shl");
    reveal_strlit("shr");
    reveal_strlit("jz");
    reveal_strlit("jnz");
    reveal_strlit("j");
}

/// Within a line no operand has white space to trim: the operands are cut from
/// a text that holds none.
pub proof fn lemma_operands_of_a_line_are_trimmed(code: Seq<char>, k: int)
    requires
        0 <= k < operands(operand_text(code)).len(),
    ensures
        trimmed(operands(operand_text(code))[k]) == operands(operand_text(code))[k],
{
    lemma_operands_are_trimmed(code.subrange(word_end(code), code.len() as int), k);
}

/// An instruction that parses names only registers that exist.
pub proof fn lemma_assembled_is_well_formed(mnemonic: Mnemonic, items: Seq<Seq<char>>, index: usize)
    ensures
        (match assemble(mnemonic, items, index) {
            Ok(instruction) => instruction.wf(),
            Err(_) => true,
        }),
{
}

/// An instruction that parses names only registers that exist.
pub proof fn lemma_parsed_is_well_formed(code: Seq<char>, index: usize)
    ensures
        (match parse_code(code, index) {
            Ok(parsed) => parsed.instruction.wf(),
            Err(_) => true,
        }),
{
    if first_word(code).len() > 0 {
        match mnemonic_of(first_word(code)) {
            Some(mnemonic) => {
                lemma_assembled_is_well_formed(mnemonic, operands(operand_text(code)), index);
            },
            None => {},
        }
    }
}

/// An operand that names register 8 or a higher one, with or without white
/// space round the name, is rejected in every place where the operation takes
/// a register. If it is the first operand, the failure names the register.
pub proof fn lemma_high_register_is_rejected(
    mnemonic: Mnemonic,
    items: Seq<Seq<char>>,
    index: usize,
    k: int,
)
    requires
        0 <= k < mnemonic.registers(),
        k < items.len(),
        register_of(trimmed(items[k])) is Some,
        register_of(trimmed(items[k]))->0 >= 8,
    ensures
        assemble(mnemonic, items, index) is Err,
        (k == 0 ==> assemble(mnemonic, items, index) == Err::<InstructionView, ErrorView>(
            ErrorView::NoSuchRegister { reg: register_of(trimmed(items[0]))->0 },
        )),
{
    if k == 1 {
        assert(rest(items)[0] == items[1]);
    }
    if k == 2 {
        assert(rest(items)[0] == items[1]);
        assert(rest(rest(items))[0] == items[2]);
    }
}

/// A line whose operation takes a register in place `k`, and whose operand
/// there names register 8 or a higher one, fails to parse.
pub proof fn lemma_line_with_high_register_fails(code: Seq<char>, index: usize, k: int)
    requires
        mnemonic_of(first_word(code)) is Some,
        0 <= k < mnemonic_of(first_word(code))->0.registers(),
        k < operands(operand_text(code)).len(),
        register_of(operands(operand_text(code))[k]) is Some,
        register_of(operands(operand_text(code))[k])->0 >= 8,
    ensures
        parse_code(code, index) is Err,
{
    lemma_mnemonic_is_a_word(first_word(code));
    lemma_operands_of_a_line_are_trimmed(code, k);
    lemma_high_register_is_rejected(
        mnemonic_of(first_word(code))->0,
        operands(operand_text(code)),
        index,
        k,
    );
}

/// A jump parses whether or not its label is declared anywhere: its one
/// operand, without the white space at its ends, is the label.
pub proof fn lemma_jump_parses(items: Seq<Seq<char>>, index: usize)
    requires
        items.len() == 1,
    ensures
        (assemble(Mnemonic::J, items, index) == Ok::<InstructionView, ErrorView>(
            InstructionView::J { label: trimmed(items[0]) },
        )),
        (assemble(Mnemonic::Jz, items, index) == Ok::<InstructionView, ErrorView>(
            InstructionView::Jz { label: trimmed(items[0]) },
        )),
        (assemble(Mnemonic::Jnz, items, index) == Ok::<InstructionView, ErrorView>(
            InstructionView::Jnz { label: trimmed(items[0]) },
        )),
{
}

} // verus!
