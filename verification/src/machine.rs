//! The fetch-and-execute loop.

use vstd::prelude::*;
use crate::error::{seen, Error, ErrorView};
use crate::instruction::{Instruction, InstructionView};
use crate::state::{State, StateView};

verus! {

/// Why a run stopped without a failure.
#[derive(Clone, Copy, Debug, PartialEq, Eq)]
pub enum Stop {
    /// The program counter reached the end of the program.
    Finished,
    /// The `Debug` at index `at` was executed. The run goes on at `at + 1`.
    Breakpoint { at: usize },
    /// The steps allowed were used up before the instruction at index `at`.
    OutOfSteps { at: usize },
}

/// The instructions of `program`, each by its view.
pub open spec fn views(program: Seq<Instruction>) -> Seq<InstructionView> {
    Seq::new(program.len(), |i: int| program[i]@)
}

/// Whether every instruction of `program` names registers that exist.
pub open spec fn well_formed(program: Seq<InstructionView>) -> bool {
    forall|i: int| 0 <= i < program.len() ==> (#[trigger] program[i]).wf()
}

/// The run of `program` from state `s` and program counter `pc`, for at most
/// `steps` instructions: the state it ends in, and why it ends.
///
/// The run is finished when the program counter is the number of
/// instructions. Each instruction executed counts as a step. A taken jump to an
/// undeclared label ends the run with that failure, a `Debug` with a
/// breakpoint, and neither changes the state.
pub open spec fn run_from(program: Seq<InstructionView>, s: StateView, pc: usize, steps: nat) -> (
    StateView,
    Result<Stop, ErrorView>,
)
    decreases steps,
{
    if pc >= program.len() {
        (s, Ok(Stop::Finished))
    } else if steps == 0 {
        (s, Ok(Stop::OutOfSteps { at: pc }))
    } else {
        let instruction = program[pc as int];
        match instruction.next(s, pc) {
            Err(e) => (s, Err(e)),
            Ok(next) => if instruction is Debug {
                (s, Ok(Stop::Breakpoint { at: pc }))
            } else {
                run_from(program, instruction.effect(s), next, (steps - 1) as nat)
            },
        }
    }
}

/// Runs `program` on `state` from program counter `pc`, for at most `steps`
/// instructions.
///
/// A run that no failure ends and that never reaches the end of the program
/// goes on for ever: it is had by calling again from where the steps ran out.
pub fn run(program: &Vec<Instruction>, state: &mut State, pc: usize, steps: u64) -> (r: Result<
    Stop,
    Error,
>)
    requires
        pc <= program.len(),
        well_formed(views(program@)),
        old(state)@.labels_within(program.len() as int),
    ensures
        (final(state)@, seen(r)) == run_from(views(program@), old(state)@, pc, steps as nat),
{
    let ghost all = views(program@);
    let mut at: usize = pc;
    let mut left: u64 = steps;
    while at != program.len() && left > 0
        invariant
            at <= program.len(),
            all == views(program@),
            well_formed(all),
            state@.labels_within(program.len() as int),
            run_from(all, state@, at, left as nat) == run_from(all, old(state)@, pc, steps as nat),
        decreases left,
    {
        let instruction: &Instruction = &program[at];
        let ghost before = state@;
        assert(all[at as int] == instruction@);
        assert(instruction@.wf());
        match instruction.apply(state, at) {
            Err(e) => {
                return Err(e);
            },
            Ok(next) => {
                match instruction {
                    Instruction::Debug => {
                        return Ok(Stop::Breakpoint { at });
                    },
                    _ => {},
                }
                assert(state@.labels == before.labels);
                at = next;
                left -= 1;
            },
        }
    }
    if at == program.len() {
        Ok(Stop::Finished)
    } else {
        Ok(Stop::OutOfSteps { at })
    }
}

/// `Inc` does what `Add` does with a register that holds 1, to the registers
/// and to the zero flag.
pub proof fn lemma_inc_is_add_one(s: StateView, reg: usize, one: usize)
    requires
        s.registers.len() == 8,
        reg < 8,
        one < 8,
        s.registers[one as int] == 1,
    ensures
        ((InstructionView::Inc { reg }).effect(s) == (InstructionView::Add {
            to: reg,
            op1: reg,
            op2: one,
        }).effect(s)),
{
}

/// `Dec` does what `Sub` does with a register that holds 1, to the registers
/// and to the zero flag.
pub proof fn lemma_dec_is_sub_one(s: StateView, reg: usize, one: usize)
    requires
        s.registers.len() == 8,
        reg < 8,
        one < 8,
        s.registers[one as int] == 1,
    ensures
        ((InstructionView::Dec { reg }).effect(s) == (InstructionView::Sub {
            to: reg,
            op1: reg,
            op2: one,
        }).effect(s)),
{
}

/// `Jz` is taken if and only if the zero flag is set, `Jnz` if and only if it
/// is clear, and `J` always.
pub proof fn lemma_when_jumps_are_taken(s: StateView, label: Seq<char>)
    ensures
        ((InstructionView::Jz { label }).jump(s) is Some <==> s.zero),
        ((InstructionView::Jnz { label }).jump(s) is Some <==> !s.zero),
        ((InstructionView::J { label }).jump(s) is Some),
{
}

/// A jump that is taken goes where its label was declared; any other
/// instruction is followed by the next one.
pub proof fn lemma_where_execution_goes(instruction: InstructionView, s: StateView, index: usize)
    ensures
        (match instruction.jump(s) {
            Some(label) => s.labels.contains_key(label) ==> instruction.next(s, index) == Ok::<
                usize,
                ErrorView,
            >(s.labels[label]),
            None => instruction.next(s, index) == Ok::<usize, ErrorView>((index + 1) as usize),
        }),
{
}

/// A jump that is taken to a label that was not declared fails, and names the
/// label and the line of the jump. A jump that is not taken does not look its
/// label up.
pub proof fn lemma_taken_jump_needs_its_label(
    instruction: InstructionView,
    s: StateView,
    label: Seq<char>,
    index: usize,
)
    requires
        instruction.jump(s) == Some(label),
        !s.labels.contains_key(label),
    ensures
        (instruction.next(s, index) == Err::<usize, ErrorView>(
            ErrorView::UnknownLabel { label, line: (index + 1) as usize },
        )),
        instruction.effect(s) == s,
{
}

} // verus!
