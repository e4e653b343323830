//! Initial register values, written `r<N>=<value>`.

use vstd::prelude::*;
use crate::error::{seen, Error, ErrorView};
use crate::state::Register;
use crate::text::{
    bits, chars_of, find, first, read_signed, read_unsigned, signed, slice_of, unsigned, Mark,
};

verus! {

/// The 64 bits that `text` writes: an unsigned number, or else a signed one in
/// two's complement.
pub open spec fn value_of(text: Seq<char>) -> Option<u64> {
    match unsigned(text, u64::MAX as nat) {
        Some(n) => Some(n as u64),
        None => match signed(text) {
            Some(i) => Some(bits(i)),
            None => None,
        },
    }
}

/// The register and the value that `arg` names.
///
/// `arg` is split at its first `=`. What follows must be a value; what comes
/// before must be `r` or `R` and the number of a register. Failing that, `arg`
/// is a bad argument; a register that does not exist is a failure of its own.
pub open spec fn interpret(arg: Seq<char>) -> Result<(Register, u64), ErrorView> {
    let eq = first(arg, 0, Mark::Char('='));
    let bad = Err(ErrorView::BadArgument { arg });
    if eq >= arg.len() {
        bad
    } else {
        let before = arg.take(eq);
        match value_of(arg.skip(eq + 1)) {
            None => bad,
            Some(value) => if before.len() == 0 || (before[0] != 'r' && before[0] != 'R') {
                bad
            } else {
                match unsigned(before.drop_first(), usize::MAX as nat) {
                    None => bad,
                    Some(reg) => if reg >= 8 {
                        Err(ErrorView::NoSuchRegister { reg: reg as usize })
                    } else {
                        Ok((reg as usize, value))
                    },
                }
            },
        }
    }
}

/// Reads the characters of `text` from position `from` on as a value.
pub fn read_value(text: &Vec<char>, from: usize) -> (r: Option<u64>)
    requires
        from <= text.len(),
    ensures
        r == value_of(text@.skip(from as int)),
{
    match read_unsigned(text, from, u64::MAX) {
        Some(n) => Some(n),
        None => read_signed(text, from),
    }
}

/// Reads `arg` as the initial value of a register.
pub fn interpret_arg(arg: String) -> (r: Result<(Register, u64), Error>)
    ensures
        seen(r) == interpret(arg@),
{
    let text: Vec<char> = chars_of(arg.as_str());
    let eq: usize = find(&text, 0, text.len(), Mark::Char('='));
    assert(text@.take(text.len() as int) =~= text@);
    if eq == text.len() {
        return Err(Error::BadArgument { arg });
    }
    let value: u64 = match read_value(&text, eq + 1) {
        Some(value) => value,
        None => {
            return Err(Error::BadArgument { arg });
        },
    };
    let before: Vec<char> = slice_of(&text, 0, eq);
    assert(before@ =~= text@.take(eq as int));
    if before.len() == 0 || (before[0] != 'r' && before[0] != 'R') {
        return Err(Error::BadArgument { arg });
    }
    assert(before@.drop_first() =~= before@.skip(1));
    match read_unsigned(&before, 1, usize::MAX as u64) {
        None => Err(Error::BadArgument { arg }),
        Some(reg) => {
            if reg >= 8 {
                Err(Error::NoSuchRegister { reg: reg as usize })
            } else {
                Ok((reg as usize, value))
            }
        },
    }
}

} // verus!
