//! A small register machine: eight 64-bit registers, a zero flag, and a
//! line-oriented assembly language with labels and jumps.
//!
//! A program is a list of source lines. [`parse_program`] turns each line into
//! one [`Instruction`] and enters the labels in the table of a [`State`];
//! [`run`] then executes the instructions on that state. [`interpret_arg`]
//! reads an initial register value, and [`display`] writes out what the
//! machine shows.
//!
//! The modules, from the bottom up: [`text`] is the lexical layer, [`operands`]
//! reads the operands of one instruction, [`parse`] parses a line, [`program`]
//! a whole program; [`instruction`] says what each instruction does and
//! [`machine`] holds the loop that executes them.

pub mod args;
pub mod display;
pub mod error;
pub mod instruction;
pub mod machine;
pub mod operands;
pub mod parse;
pub mod program;
pub mod state;
pub mod text;

pub use args::interpret_arg;
pub use error::{report_error_if_none, Error};
pub use instruction::Instruction;
pub use machine::{run, Stop};
pub use operands::{read_imm, read_imm_, read_label, read_label_, read_reg, read_reg_, Operands};
pub use program::parse_program;
pub use state::{signed, Register, State};
