//! What can go wrong, from the first argument to the last jump.

use vstd::prelude::*;

verus! {

/// A failure. Each one is final: nothing is parsed or run after it.
#[derive(Debug, Clone, PartialEq, Eq)]
pub enum Error {
    /// A register number of 8 or more was written.
    NoSuchRegister { reg: usize },
    /// The operands of the instruction on line `line` (counted from 1) are
    /// missing, malformed or too many.
    GarbageOperands { line: usize },
    /// A line starts with `text`, which is neither a mnemonic nor the
    /// declaration of a label.
    GarbageInstruction { text: String },
    /// The jump on line `line` (counted from 1) was taken to `label`, which no
    /// line declares.
    UnknownLabel { label: String, line: usize },
    /// An initial register value is not of the form `r<N>=<value>`.
    BadArgument { arg: String },
}

/// An [`Error`], with sequences of characters for its strings.
pub enum ErrorView {
    NoSuchRegister { reg: usize },
    GarbageOperands { line: usize },
    GarbageInstruction { text: Seq<char> },
    UnknownLabel { label: Seq<char>, line: usize },
    BadArgument { arg: Seq<char> },
}

impl View for Error {
    type V = ErrorView;

    open spec fn view(&self) -> ErrorView {
        match self {
            Error::NoSuchRegister { reg } => ErrorView::NoSuchRegister { reg: *reg },
            Error::GarbageOperands { line } => ErrorView::GarbageOperands { line: *line },
            Error::GarbageInstruction { text } => ErrorView::GarbageInstruction { text: text@ },
            Error::UnknownLabel { label, line } => ErrorView::UnknownLabel {
                label: label@,
                line: *line,
            },
            Error::BadArgument { arg } => ErrorView::BadArgument { arg: arg@ },
        }
    }
}

/// A result whose error is seen through its view.
pub open spec fn seen<T>(r: Result<T, Error>) -> Result<T, ErrorView> {
    match r {
        Ok(v) => Ok(v),
        Err(e) => Err(e@),
    }
}

/// The value that `opt` holds, or else `error`.
pub fn report_error_if_none<T>(opt: Option<T>, error: Error) -> (r: Result<T, Error>)
    ensures
        r == match opt {
            Some(v) => Ok::<T, Error>(v),
            None => Err(error),
        },
{
    match opt {
        Some(v) => Ok(v),
        None => Err(error),
    }
}

} // verus!
