//! The instruction set and what each instruction does to the state.

use vstd::prelude::*;
use crate::error::{seen, Error, ErrorView};
use crate::state::{Register, State, StateView};

verus! {

/// One instruction. A register is named by its number, a jump target by its
/// label.
#[derive(Debug, Clone, PartialEq, Eq)]
pub enum Instruction {
    /// Does nothing. Blank lines and label declarations hold the place of one.
    Noop,
    /// A breakpoint: the state is shown and the run waits for the operator.
    Debug,
    /// `reg` becomes 0.
    Zero { reg: Register },
    /// `to` becomes what `from` holds.
    Mov { to: Register, from: Register },
    /// `to` becomes `op1 + op2`.
    Add { to: Register, op1: Register, op2: Register },
    /// `to` becomes `op1 - op2`.
    Sub { to: Register, op1: Register, op2: Register },
    /// `reg` grows by 1.
    Inc { reg: Register },
    /// `reg` shrinks by 1.
    Dec { reg: Register },
    /// `to` becomes `op1 & op2`.
    And { to: Register, op1: Register, op2: Register },
    /// `to` becomes `op1 | op2`.
    Or { to: Register, op1: Register, op2: Register },
    /// `to` becomes `op1 ^ op2`.
    Xor { to: Register, op1: Register, op2: Register },
    /// Every bit of `reg` is flipped.
    Not { reg: Register },
    /// `reg` is shifted left by `amount` bits.
    Shl { reg: Register, amount: u64 },
    /// `reg` is shifted right by `amount` bits.
    Shr { reg: Register, amount: u64 },
    /// Jumps to `label` if the zero flag is set.
    Jz { label: String },
    /// Jumps to `label` if the zero flag is clear.
    Jnz { label: String },
    /// Jumps to `label`.
    J { label: String },
}

/// An [`Instruction`], with a sequence of characters for each label.
pub enum InstructionView {
    Noop,
    Debug,
    Zero { reg: Register },
    Mov { to: Register, from: Register },
    Add { to: Register, op1: Register, op2: Register },
    Sub { to: Register, op1: Register, op2: Register },
    Inc { reg: Register },
    Dec { reg: Register },
    And { to: Register, op1: Register, op2: Register },
    Or { to: Register, op1: Register, op2: Register },
    Xor { to: Register, op1: Register, op2: Register },
    Not { reg: Register },
    Shl { reg: Register, amount: u64 },
    Shr { reg: Register, amount: u64 },
    Jz { label: Seq<char> },
    Jnz { label: Seq<char> },
    J { label: Seq<char> },
}

impl View for Instruction {
    type V = InstructionView;

    open spec fn view(&self) -> InstructionView {
        match self {
            Instruction::Noop => InstructionView::Noop,
            Instruction::Debug => InstructionView::Debug,
            Instruction::Zero { reg } => InstructionView::Zero { reg: *reg },
            Instruction::Mov { to, from } => InstructionView::Mov { to: *to, from: *from },
            Instruction::Add { to, op1, op2 } => InstructionView::Add {
                to: *to,
                op1: *op1,
                op2: *op2,
            },
            Instruction::Sub { to, op1, op2 } => InstructionView::Sub {
                to: *to,
                op1: *op1,
                op2: *op2,
            },
            Instruction::Inc { reg } => InstructionView::Inc { reg: *reg },
            Instruction::Dec { reg } => InstructionView::Dec { reg: *reg },
            Instruction::And { to, op1, op2 } => InstructionView::And {
                to: *to,
                op1: *op1,
                op2: *op2,
            },
            Instruction::Or { to, op1, op2 } => InstructionView::Or {
                to: *to,
                op1: *op1,
                op2: *op2,
            },
            Instruction::Xor { to, op1, op2 } => InstructionView::Xor {
                to: *to,
                op1: *op1,
                op2: *op2,
            },
            Instruction::Not { reg } => InstructionView::Not { reg: *reg },
            Instruction::Shl { reg, amount } => InstructionView::Shl { reg: *reg, amount: *amount },
            Instruction::Shr { reg, amount } => InstructionView::Shr { reg: *reg, amount: *amount },
            Instruction::Jz { label } => InstructionView::Jz { label: label@ },
            Instruction::Jnz { label } => InstructionView::Jnz { label: label@ },
            Instruction::J { label } => InstructionView::J { label: label@ },
        }
    }
}

/// `i` brought into 64 bits: arithmetic on registers wraps around.
pub open spec fn wrap(i: int) -> u64 {
    (i % 0x1_0000_0000_0000_0000) as u64
}

impl InstructionView {
    /// Whether every register that the instruction names exists.
    pub open spec fn wf(self) -> bool {
        match self {
            InstructionView::Zero { reg }
            | InstructionView::Inc { reg }
            | InstructionView::Dec { reg }
            | InstructionView::Not { reg }
            | InstructionView::Shl { reg, .. }
            | InstructionView::Shr { reg, .. } => reg < 8,
            InstructionView::Mov { to, from } => to < 8 && from < 8,
            InstructionView::Add { to, op1, op2 }
            | InstructionView::Sub { to, op1, op2 }
            | InstructionView::And { to, op1, op2 }
            | InstructionView::Or { to, op1, op2 }
            | InstructionView::Xor { to, op1, op2 } => to < 8 && op1 < 8 && op2 < 8,
            _ => true,
        }
    }

    /// The state after the instruction, given the state `s` before it.
    ///
    /// Sums and differences wrap around. A shift moves by `amount` modulo 64
    /// bits and fills with zeros. `Zero`, `Mov` and the shifts leave the zero
    /// flag alone; every other instruction that writes a register sets it by
    /// the value written.
    pub open spec fn effect(self, s: StateView) -> StateView {
        let r = s.registers;
        match self {
            InstructionView::Zero { reg } => s.write(reg as int, 0),
            InstructionView::Mov { to, from } => s.write(to as int, r[from as int]),
            InstructionView::Add { to, op1, op2 } => s.write_flagged(
                to as int,
                wrap(r[op1 as int] + r[op2 as int]),
            ),
            InstructionView::Sub { to, op1, op2 } => s.write_flagged(
                to as int,
                wrap(r[op1 as int] - r[op2 as int]),
            ),
            InstructionView::Inc { reg } => s.write_flagged(reg as int, wrap(r[reg as int] + 1)),
            InstructionView::Dec { reg } => s.write_flagged(reg as int, wrap(r[reg as int] - 1)),
            InstructionView::And { to, op1, op2 } => s.write_flagged(
                to as int,
                r[op1 as int] & r[op2 as int],
            ),
            InstructionView::Or { to, op1, op2 } => s.write_flagged(
                to as int,
                r[op1 as int] | r[op2 as int],
            ),
            InstructionView::Xor { to, op1, op2 } => s.write_flagged(
                to as int,
                r[op1 as int] ^ r[op2 as int],
            ),
            InstructionView::Not { reg } => s.write_flagged(reg as int, !r[reg as int]),
            InstructionView::Shl { reg, amount } => s.write(
                reg as int,
                r[reg as int] << (amount % 64),
            ),
            InstructionView::Shr { reg, amount } => s.write(
                reg as int,
                r[reg as int] >> (amount % 64),
            ),
            _ => s,
        }
    }

    /// The label that the instruction jumps to in state `s`, if it jumps.
    pub open spec fn jump(self, s: StateView) -> Option<Seq<char>> {
        match self {
            InstructionView::Jz { label } => if s.zero {
                Some(label)
            } else {
                None
            },
            InstructionView::Jnz { label } => if s.zero {
                None
            } else {
                Some(label)
            },
            InstructionView::J { label } => Some(label),
            _ => None,
        }
    }

    /// The index of the instruction to execute after this one, which stands at
    /// `index`, in state `s`: the next one, or where the label of a taken jump
    /// was declared. A taken jump to a label that was not declared fails.
    pub open spec fn next(self, s: StateView, index: usize) -> Result<usize, ErrorView> {
        match self.jump(s) {
            None => Ok((index + 1) as usize),
            Some(label) => if s.labels.contains_key(label) {
                Ok(s.labels[label])
            } else {
                Err(ErrorView::UnknownLabel { label, line: (index + 1) as usize })
            },
        }
    }
}

/// Where the label `label` was declared, for the jump at `index`.
fn resolve(state: &State, label: &String, index: usize) -> (r: Result<usize, Error>)
    requires
        index < usize::MAX,
    ensures
        seen(r) == if state@.labels.contains_key(label@) {
            Ok::<usize, ErrorView>(state@.labels[label@])
        } else {
            Err(ErrorView::UnknownLabel { label: label@, line: (index + 1) as usize })
        },
{
    match state.label(label.as_str()) {
        Some(target) => Ok(target),
        None => Err(Error::UnknownLabel { label: label.clone(), line: index + 1 }),
    }
}

impl Instruction {
    /// Whether every register that the instruction names exists.
    pub fn is_valid(&self) -> (r: bool)
        ensures
            r == self@.wf(),
    {
        match self {
            Instruction::Zero { reg }
            | Instruction::Inc { reg }
            | Instruction::Dec { reg }
            | Instruction::Not { reg } => *reg < 8,
            Instruction::Shl { reg, .. } | Instruction::Shr { reg, .. } => *reg < 8,
            Instruction::Mov { to, from } => *to < 8 && *from < 8,
            Instruction::Add { to, op1, op2 }
            | Instruction::Sub { to, op1, op2 }
            | Instruction::And { to, op1, op2 }
            | Instruction::Or { to, op1, op2 }
            | Instruction::Xor { to, op1, op2 } => *to < 8 && *op1 < 8 && *op2 < 8,
            _ => true,
        }
    }

    /// Executes the instruction, which stands at `index`, on `state`, and
    /// returns the index of the instruction to execute next.
    ///
    /// `Debug` changes nothing here: showing the state and waiting is left to
    /// the caller.
    pub fn apply(&self, state: &mut State, index: usize) -> (r: Result<usize, Error>)
        requires
            self@.wf(),
            index < usize::MAX,
        ensures
            final(state)@ == self@.effect(old(state)@),
            seen(r) == self@.next(old(state)@, index),
    {
        proof {
            state.lemma_eight_registers();
        }
        match self {
            Instruction::Noop => {},
            Instruction::Debug => {},
            Instruction::Zero { reg } => state.set(*reg, 0),
            Instruction::Mov { to, from } => {
                let v: u64 = state.get(*from);
                state.set(*to, v);
            },
            Instruction::Add { to, op1, op2 } => {
                let v: u64 = state.get(*op1).wrapping_add(state.get(*op2));
                state.with_zero(*to, v);
            },
            Instruction::Sub { to, op1, op2 } => {
                let v: u64 = state.get(*op1).wrapping_sub(state.get(*op2));
                state.with_zero(*to, v);
            },
            Instruction::Inc { reg } => {
                let v: u64 = state.get(*reg).wrapping_add(1);
                state.with_zero(*reg, v);
            },
            Instruction::Dec { reg } => {
                let v: u64 = state.get(*reg).wrapping_sub(1);
                state.with_zero(*reg, v);
            },
            Instruction::And { to, op1, op2 } => {
                let v: u64 = state.get(*op1) & state.get(*op2);
                state.with_zero(*to, v);
            },
            Instruction::Or { to, op1, op2 } => {
                let v: u64 = state.get(*op1) | state.get(*op2);
                state.with_zero(*to, v);
            },
            Instruction::Xor { to, op1, op2 } => {
                let v: u64 = state.get(*op1) ^ state.get(*op2);
                state.with_zero(*to, v);
            },
            Instruction::Not { reg } => {
                let v: u64 = !state.get(*reg);
                state.with_zero(*reg, v);
            },
            Instruction::Shl { reg, amount } => {
                let v: u64 = state.get(*reg) << (*amount % 64);
                state.set(*reg, v);
            },
            Instruction::Shr { reg, amount } => {
                let v: u64 = state.get(*reg) >> (*amount % 64);
                state.set(*reg, v);
            },
            Instruction::Jz { label } => {
                if state.zero() {
                    return resolve(state, label, index);
                }
            },
            Instruction::Jnz { label } => {
                if !state.zero() {
                    return resolve(state, label, index);
                }
            },
            Instruction::J { label } => {
                return resolve(state, label, index);
            },
        }
        Ok(index + 1)
    }
}

} // verus!
