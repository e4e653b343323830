//! Whole programs: every line parsed in turn, and the label table that results.

use vstd::prelude::*;
use crate::error::{Error, ErrorView};
use crate::instruction::{Instruction, InstructionView};
use crate::machine::{views, well_formed};
use crate::parse::{lemma_parsed_is_well_formed, lowercased, parse_line, Parsed};
use crate::text::strip_comment;
use crate::state::{State, StateView};

verus! {

/// The texts of `lines`.
pub open spec fn texts(lines: Seq<String>) -> Seq<Seq<char>> {
    Seq::new(lines.len(), |i: int| lines[i]@)
}

/// The index of the first of `lines`, from `from` on, that fails to parse, or
/// the number of lines if all of them parse.
pub open spec fn failing(lines: Seq<Seq<char>>, from: int) -> int
    decreases lines.len() - from,
{
    if from < 0 || from >= lines.len() {
        lines.len() as int
    } else if parse_line(lines[from], from as usize) is Err {
        from
    } else {
        failing(lines, from + 1)
    }
}

/// The state once the first `n` of `lines` are parsed, starting from `s`: each
/// label is declared at the index of its line, in the order of the lines.
pub open spec fn state_after(s: StateView, lines: Seq<Seq<char>>, n: int) -> StateView
    decreases n,
{
    if n <= 0 {
        s
    } else {
        let before = state_after(s, lines, n - 1);
        match parse_line(lines[n - 1], (n - 1) as usize) {
            Ok(parsed) => before.noted(parsed.label, (n - 1) as usize),
            Err(_) => before,
        }
    }
}

/// Whether line `i` of `lines` declares the label `name`.
pub open spec fn declares(lines: Seq<Seq<char>>, i: int, name: Seq<char>) -> bool {
    match parse_line(lines[i], i as usize) {
        Ok(parsed) => parsed.label == Some(name),
        Err(_) => false,
    }
}

/// Whether `program` holds, line for line, the instructions of `lines`.
pub open spec fn assembles(program: Seq<Instruction>, lines: Seq<Seq<char>>) -> bool {
    &&& program.len() == lines.len()
    &&& forall|i: int|
        0 <= i < lines.len() ==> match parse_line(lines[i], i as usize) {
            Ok(parsed) => (#[trigger] program[i])@ == parsed.instruction,
            Err(_) => false,
        }
}

/// No line from `from` up to the first failing one fails, and that one does.
pub proof fn lemma_failing(lines: Seq<Seq<char>>, from: int)
    requires
        0 <= from <= lines.len(),
    ensures
        from <= failing(lines, from) <= lines.len(),
        forall|i: int|
            from <= i < failing(lines, from) ==> (#[trigger] parse_line(lines[i], i as usize)) is Ok,
        failing(lines, from) < lines.len() ==> parse_line(
            lines[failing(lines, from)],
            failing(lines, from) as usize,
        ) is Err,
    decreases lines.len() - from,
{
    if from < lines.len() && parse_line(lines[from], from as usize) is Ok {
        lemma_failing(lines, from + 1);
    }
}

/// A label resolves to the index of the last line that declares it.
///
/// If line `i` of the first `n` lines declares `name` and no later one of them
/// does, the label table after these lines maps `name` to `i`, whatever it
/// held before.
pub proof fn lemma_label_resolves_to_last_declaration(
    s: StateView,
    lines: Seq<Seq<char>>,
    n: int,
    i: int,
    name: Seq<char>,
)
    requires
        0 <= i < n <= lines.len(),
        lines.len() <= usize::MAX,
        declares(lines, i, name),
        forall|j: int| i < j < n ==> !declares(lines, j, name),
    ensures
        state_after(s, lines, n).labels.contains_key(name),
        state_after(s, lines, n).labels[name] == i,
    decreases n,
{
    if i < n - 1 {
        lemma_label_resolves_to_last_declaration(s, lines, n - 1, i, name);
        assert(!declares(lines, n - 1, name));
    }
}

/// A label that none of the first `n` lines declares is as it was before them.
pub proof fn lemma_undeclared_label_is_kept(
    s: StateView,
    lines: Seq<Seq<char>>,
    n: int,
    name: Seq<char>,
)
    requires
        0 <= n <= lines.len(),
        forall|j: int| 0 <= j < n ==> !declares(lines, j, name),
    ensures
        state_after(s, lines, n).labels.contains_key(name) == s.labels.contains_key(name),
        s.labels.contains_key(name) ==> state_after(s, lines, n).labels[name] == s.labels[name],
    decreases n,
{
    if n > 0 {
        lemma_undeclared_label_is_kept(s, lines, n - 1, name);
        assert(!declares(lines, n - 1, name));
    }
}

/// Parsing touches neither the registers nor the zero flag, and declares no
/// label beyond the lines parsed.
pub proof fn lemma_parsing_keeps_registers(s: StateView, lines: Seq<Seq<char>>, n: int)
    requires
        0 <= n <= lines.len(),
        lines.len() <= usize::MAX,
    ensures
        state_after(s, lines, n).registers == s.registers,
        state_after(s, lines, n).zero == s.zero,
        state_after(s, lines, n).label_limit <= if s.label_limit > n {
            s.label_limit as int
        } else {
            n
        },
    decreases n,
{
    if n > 0 {
        lemma_parsing_keeps_registers(s, lines, n - 1);
    }
}

/// Labels that stood for indices of at most `len` still do after the first `n`
/// lines, if `n` is at most `len`.
pub proof fn lemma_labels_stay_within(s: StateView, lines: Seq<Seq<char>>, n: int, len: int)
    requires
        0 <= n <= lines.len(),
        n <= len,
        lines.len() <= usize::MAX,
        s.labels_within(len),
    ensures
        state_after(s, lines, n).labels_within(len),
    decreases n,
{
    if n > 0 {
        lemma_labels_stay_within(s, lines, n - 1, len);
    }
}

/// A program that holds the instructions of its lines names only registers
/// that exist.
pub proof fn lemma_assembled_program_is_well_formed(
    program: Seq<Instruction>,
    lines: Seq<Seq<char>>,
)
    requires
        assembles(program, lines),
    ensures
        well_formed(views(program)),
{
    assert forall|i: int| 0 <= i < program.len() implies (#[trigger] views(program)[i]).wf() by {
        lemma_parsed_is_well_formed(strip_comment(lowercased(lines[i])), i as usize);
        assert(program[i]@ == parse_line(lines[i], i as usize)->Ok_0.instruction);
    }
}

/// A jump reaches the declaration of its label, whether the declaration
/// stands before the jump or after it.
///
/// If line `to` is the last of `lines` that declares `name`, then once all
/// lines are parsed a jump to `name` from any index `at` goes to `to`.
pub proof fn lemma_jump_reaches_declaration(
    s: StateView,
    lines: Seq<Seq<char>>,
    at: usize,
    to: int,
    name: Seq<char>,
)
    requires
        0 <= to < lines.len(),
        lines.len() <= usize::MAX,
        declares(lines, to, name),
        forall|j: int| to < j < lines.len() ==> !declares(lines, j, name),
    ensures
        ((InstructionView::J { label: name }).next(
            state_after(s, lines, lines.len() as int),
            at,
        ) == Ok::<usize, ErrorView>(to as usize)),
{
    lemma_label_resolves_to_last_declaration(s, lines, lines.len() as int, to, name);
}

/// Parses `lines` in turn, entering the labels that they declare in `state`.
///
/// All lines parse: the result is the program, one instruction for each line.
/// A line fails: the result is the failure of the first line that does, and
/// `state` holds the labels of the lines before it.
pub fn parse_program(state: &mut State, lines: &Vec<String>) -> (r: Result<Vec<Instruction>, Error>)
    ensures
        ({
            let stop = failing(texts(lines@), 0);
            &&& final(state)@ == state_after(old(state)@, texts(lines@), stop)
            &&& match r {
                Ok(program) => stop == lines.len() && assembles(program@, texts(lines@))
                    && well_formed(views(program@)),
                Err(e) => stop < lines.len() && parse_line(lines[stop]@, stop as usize) == Err::<
                    Parsed,
                    ErrorView,
                >(e@),
            }
        }),
        old(state)@.labels_within(lines.len() as int) ==> final(state)@.labels_within(
            lines.len() as int,
        ),
{
    let ghost source = texts(lines@);
    let mut program: Vec<Instruction> = Vec::new();
    let mut i: usize = 0;
    while i < lines.len()
        invariant
            i <= lines.len(),
            source == texts(lines@),
            program.len() == i,
            failing(source, 0) == failing(source, i as int),
            state@ == state_after(old(state)@, source, i as int),
            forall|j: int|
                0 <= j < i ==> match parse_line(source[j], j as usize) {
                    Ok(parsed) => (#[trigger] program[j])@ == parsed.instruction,
                    Err(_) => false,
                },
        decreases lines.len() - i,
    {
        let ghost before = program@;
        match Instruction::parse(state, i, lines[i].as_str()) {
            Ok(instruction) => {
                program.push(instruction);
                assert forall|j: int| 0 <= j < i + 1 implies match parse_line(
                    source[j],
                    j as usize,
                ) {
                    Ok(parsed) => (#[trigger] program[j])@ == parsed.instruction,
                    Err(_) => false,
                } by {
                    if j < i {
                        assert(program[j] == before[j]);
                    }
                }
            },
            Err(e) => {
                proof {
                    lemma_failing(source, 0);
                    if old(state)@.labels_within(lines.len() as int) {
                        lemma_labels_stay_within(
                            old(state)@,
                            source,
                            i as int,
                            lines.len() as int,
                        );
                    }
                }
                return Err(e);
            },
        }
        i += 1;
    }
    proof {
        lemma_assembled_program_is_well_formed(program@, source);
        if old(state)@.labels_within(lines.len() as int) {
            lemma_labels_stay_within(old(state)@, source, i as int, lines.len() as int);
        }
    }
    Ok(program)
}

} // verus!
