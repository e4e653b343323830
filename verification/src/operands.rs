//! The operands of an instruction, read one after the other.

use vstd::prelude::*;
use crate::error::{seen, Error, ErrorView};
use crate::state::Register;
use crate::text::{
    find, operands, pieces, read_unsigned, slice_of, string_of, trim, trimmed, unsigned, Mark,
};

verus! {

/// The first of `items`, if there is one.
pub open spec fn head(items: Seq<Seq<char>>) -> Option<Seq<char>> {
    if items.len() == 0 {
        None
    } else {
        Some(items[0])
    }
}

/// `items` without the first.
pub open spec fn rest(items: Seq<Seq<char>>) -> Seq<Seq<char>> {
    if items.len() == 0 {
        items
    } else {
        items.drop_first()
    }
}

/// The register that `operand` names: `r`, then its number.
pub open spec fn register_of(operand: Seq<char>) -> Option<Register> {
    if operand.len() > 0 && operand[0] == 'r' {
        match unsigned(operand.drop_first(), usize::MAX as nat) {
            Some(n) => Some(n as usize),
            None => None,
        }
    } else {
        None
    }
}

/// The number that `operand` writes.
pub open spec fn immediate_of(operand: Seq<char>) -> Option<u64> {
    match unsigned(operand, u64::MAX as nat) {
        Some(n) => Some(n as u64),
        None => None,
    }
}

/// The failure of an instruction at `index` whose operands are not as they
/// should be.
pub open spec fn garbage(index: usize) -> ErrorView {
    ErrorView::GarbageOperands { line: (index + 1) as usize }
}

/// A register read from the head of `items`, for the instruction at `index`:
/// the operand must be there and, without the white space at its ends, name a
/// register, and the register must exist.
pub open spec fn register_read(items: Seq<Seq<char>>, index: usize) -> Result<
    Register,
    ErrorView,
> {
    match head(items) {
        None => Err(garbage(index)),
        Some(operand) => match register_of(trimmed(operand)) {
            None => Err(garbage(index)),
            Some(reg) => if reg >= 8 {
                Err(ErrorView::NoSuchRegister { reg })
            } else {
                Ok(reg)
            },
        },
    }
}

/// A number read from the head of `items`, for the instruction at `index`:
/// what the operand writes without the white space at its ends.
pub open spec fn immediate_read(items: Seq<Seq<char>>, index: usize) -> Result<u64, ErrorView> {
    match head(items) {
        None => Err(garbage(index)),
        Some(operand) => match immediate_of(trimmed(operand)) {
            None => Err(garbage(index)),
            Some(value) => Ok(value),
        },
    }
}

/// A label read from the head of `items`, for the instruction at `index`: the
/// operand without the white space at its ends.
pub open spec fn label_read(items: Seq<Seq<char>>, index: usize) -> Result<
    Seq<char>,
    ErrorView,
> {
    match head(items) {
        None => Err(garbage(index)),
        Some(operand) => Ok(trimmed(operand)),
    }
}

/// The operands of one instruction that are still to be read.
pub struct Operands {
    text: Vec<char>,
    next: usize,
    done: bool,
}

impl View for Operands {
    type V = Seq<Seq<char>>;

    closed spec fn view(&self) -> Seq<Seq<char>> {
        if self.done {
            Seq::empty()
        } else {
            pieces(self.text@, self.next as int, ',')
        }
    }
}

impl Operands {
    #[verifier::type_invariant]
    spec fn in_text(&self) -> bool {
        self.next <= self.text.len()
    }

    /// The operands that `text` lists.
    pub fn new(text: Vec<char>) -> (r: Operands)
        ensures
            r@ == operands(text@),
    {
        let done: bool = text.len() == 0;
        Operands { text, next: 0, done }
    }

    /// Takes the next operand, if one is left.
    pub fn next(&mut self) -> (r: Option<Vec<char>>)
        ensures
            final(self)@ == rest(old(self)@),
            match head(old(self)@) {
                Some(operand) => r is Some && r->0@ == operand,
                None => r is None,
            },
    {
        proof {
            use_type_invariant(&*self);
        }
        if self.done {
            return None;
        }
        let len: usize = self.text.len();
        let from: usize = self.next;
        let to: usize = find(&self.text, from, len, Mark::Char(','));
        assert(self.text@.take(len as int) =~= self.text@);
        let item: Vec<char> = slice_of(&self.text, from, to);
        let ghost before = self@;
        if to == len {
            self.done = true;
            assert(rest(before) =~= Seq::<Seq<char>>::empty());
        } else {
            self.next = to + 1;
            assert(rest(before) =~= pieces(self.text@, to + 1, ','));
        }
        Some(item)
    }

    /// Whether every operand was taken.
    pub fn exhausted(&self) -> (r: bool)
        ensures
            r == (self@.len() == 0),
    {
        proof {
            use_type_invariant(self);
        }
        self.done
    }
}

/// Takes the next operand, without the white space at its ends, as the name
/// of a register. Whether the machine has the register is not asked here.
pub fn read_reg_(i: &mut Operands) -> (r: Option<Register>)
    ensures
        final(i)@ == rest(old(i)@),
        r == match head(old(i)@) {
            Some(operand) => register_of(trimmed(operand)),
            None => None,
        },
{
    let n: Vec<char> = match i.next() {
        Some(n) => trim(&n),
        None => {
            return None;
        },
    };
    if n.len() > 0 && n[0] == 'r' {
        assert(n@.drop_first() =~= n@.skip(1));
        match read_unsigned(&n, 1, usize::MAX as u64) {
            Some(reg) => Some(reg as usize),
            None => None,
        }
    } else {
        None
    }
}

/// Takes the next operand as a register of the machine, for the instruction
/// at `index`.
pub fn read_reg(operands: &mut Operands, index: usize) -> (r: Result<Register, Error>)
    requires
        index < usize::MAX,
    ensures
        final(operands)@ == rest(old(operands)@),
        seen(r) == register_read(old(operands)@, index),
{
    match read_reg_(operands) {
        Some(reg) => {
            if reg >= 8 {
                Err(Error::NoSuchRegister { reg })
            } else {
                Ok(reg)
            }
        },
        None => Err(Error::GarbageOperands { line: index + 1 }),
    }
}

/// Takes the next operand, without the white space at its ends, as a number.
pub fn read_imm_(i: &mut Operands) -> (r: Option<u64>)
    ensures
        final(i)@ == rest(old(i)@),
        r == match head(old(i)@) {
            Some(operand) => immediate_of(trimmed(operand)),
            None => None,
        },
{
    let n: Vec<char> = match i.next() {
        Some(n) => trim(&n),
        None => {
            return None;
        },
    };
    assert(n@.skip(0) =~= n@);
    read_unsigned(&n, 0, u64::MAX)
}

/// Takes the next operand as a number, for the instruction at `index`.
pub fn read_imm(operands: &mut Operands, index: usize) -> (r: Result<u64, Error>)
    requires
        index < usize::MAX,
    ensures
        final(operands)@ == rest(old(operands)@),
        seen(r) == immediate_read(old(operands)@, index),
{
    match read_imm_(operands) {
        Some(v) => Ok(v),
        None => Err(Error::GarbageOperands { line: index + 1 }),
    }
}

/// Takes the next operand, without the white space at its ends, as a label.
pub fn read_label_(i: &mut Operands) -> (r: Option<String>)
    ensures
        final(i)@ == rest(old(i)@),
        match head(old(i)@) {
            Some(operand) => r is Some && r->0@ == trimmed(operand),
            None => r is None,
        },
{
    let n: Vec<char> = match i.next() {
        Some(n) => trim(&n),
        None => {
            return None;
        },
    };
    let label: String = string_of(&n, 0, n.len());
    assert(n@.subrange(0, n.len() as int) =~= n@);
    Some(label)
}

/// Takes the next operand as a label, for the instruction at `index`.
pub fn read_label(operands: &mut Operands, index: usize) -> (r: Result<String, Error>)
    requires
        index < usize::MAX,
    ensures
        final(operands)@ == rest(old(operands)@),
        match label_read(old(operands)@, index) {
            Ok(label) => r is Ok && r->Ok_0@ == label,
            Err(e) => r is Err && r->Err_0@ == e,
        },
{
    match read_label_(operands) {
        Some(v) => Ok(v),
        None => Err(Error::GarbageOperands { line: index + 1 }),
    }
}

} // verus!
