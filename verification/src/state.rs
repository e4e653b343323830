//! The machine's state: eight registers, the zero flag and the label table.

use vstd::prelude::*;
use vstd::hash_map::StringHashMap;

verus! {

/// The number of a register, from 0 to 7.
pub type Register = usize;

/// The state of the machine as a mathematical value.
pub struct StateView {
    /// What the eight registers hold.
    pub registers: Seq<u64>,
    /// The zero flag.
    pub zero: bool,
    /// The instruction index of each declared label.
    pub labels: Map<Seq<char>, usize>,
    /// The largest index that a label was ever declared at, 0 before the first.
    pub label_limit: usize,
}

impl StateView {
    /// All registers 0, the flag clear, no label.
    pub open spec fn initial() -> StateView {
        StateView {
            registers: Seq::new(8, |i: int| 0u64),
            zero: false,
            labels: Map::empty(),
            label_limit: 0,
        }
    }

    /// `value` stored in register `reg`; the flag is left alone.
    pub open spec fn write(self, reg: int, value: u64) -> StateView {
        StateView { registers: self.registers.update(reg, value), ..self }
    }

    /// `value` stored in register `reg`, and the flag set if and only if
    /// `value` is 0.
    pub open spec fn write_flagged(self, reg: int, value: u64) -> StateView {
        StateView { registers: self.registers.update(reg, value), zero: value == 0, ..self }
    }

    /// `name` declared at instruction `index`; an earlier declaration of the
    /// same name is forgotten.
    pub open spec fn declare(self, name: Seq<char>, index: usize) -> StateView {
        StateView {
            labels: self.labels.insert(name, index),
            label_limit: if index > self.label_limit {
                index
            } else {
                self.label_limit
            },
            ..self
        }
    }

    /// Whether every label stands for an index of at most `len`.
    pub open spec fn labels_within(self, len: int) -> bool {
        forall|name: Seq<char>| #[trigger]
            self.labels.contains_key(name) ==> self.labels[name] <= len
    }
}

/// The state of the machine.
pub struct State {
    registers: [u64; 8],
    zero: bool,
    labels: StringHashMap<usize>,
    limit: usize,
}

impl View for State {
    type V = StateView;

    closed spec fn view(&self) -> StateView {
        StateView {
            registers: self.registers@,
            zero: self.zero,
            labels: self.labels@,
            label_limit: self.limit,
        }
    }
}

impl State {
    #[verifier::type_invariant]
    spec fn bounded(&self) -> bool {
        forall|name: Seq<char>| #[trigger]
            self.labels@.contains_key(name) ==> self.labels@[name] <= self.limit
    }

    /// Every state has eight registers.
    pub proof fn lemma_eight_registers(self)
        ensures
            self@.registers.len() == 8,
    {
    }

    /// The state that a run starts from.
    pub fn new() -> (s: State)
        ensures
            s@ == StateView::initial(),
    {
        let s = State { registers: [0u64; 8], zero: false, labels: StringHashMap::new(), limit: 0 };
        assert(s.registers@ =~= Seq::new(8, |i: int| 0u64));
        s
    }

    /// Declares `label` at instruction `index`.
    pub fn add_label(&mut self, label: String, index: usize)
        ensures
            final(self)@ == old(self)@.declare(label@, index),
    {
        proof {
            use_type_invariant(&*self);
        }
        let mut labels: StringHashMap<usize> = StringHashMap::new();
        core::mem::swap(&mut self.labels, &mut labels);
        labels.insert(label, index);
        if index > self.limit {
            self.limit = index;
        }
        core::mem::swap(&mut self.labels, &mut labels);
    }

    /// Stores `value` in register `reg` and sets the zero flag by it.
    pub fn with_zero(&mut self, reg: Register, value: u64)
        requires
            reg < 8,
        ensures
            final(self)@ == old(self)@.write_flagged(reg as int, value),
    {
        proof {
            use_type_invariant(&*self);
        }
        self.registers[reg] = value;
        self.zero = value == 0;
    }

    /// Stores `value` in register `reg`.
    pub fn set(&mut self, reg: Register, value: u64)
        requires
            reg < 8,
        ensures
            final(self)@ == old(self)@.write(reg as int, value),
    {
        proof {
            use_type_invariant(&*self);
        }
        self.registers[reg] = value;
    }

    /// What register `reg` holds.
    pub fn get(&self, reg: Register) -> (value: u64)
        requires
            reg < 8,
        ensures
            value == self@.registers[reg as int],
    {
        self.registers[reg]
    }

    /// What the eight registers hold.
    pub fn registers(&self) -> (all: [u64; 8])
        ensures
            all@ == self@.registers,
    {
        self.registers
    }

    /// The zero flag.
    pub fn zero(&self) -> (flag: bool)
        ensures
            flag == self@.zero,
    {
        self.zero
    }

    /// The instruction index that `name` was declared at, if it was.
    pub fn label(&self, name: &str) -> (index: Option<usize>)
        ensures
            index == if self@.labels.contains_key(name@) {
                Some(self@.labels[name@])
            } else {
                None
            },
    {
        match self.labels.get(name) {
            Some(index) => Some(*index),
            None => None,
        }
    }

    /// Whether no label was ever declared beyond `len`. Then every label stands
    /// for an index of at most `len`.
    pub fn labels_fit(&self, len: usize) -> (fit: bool)
        ensures
            fit == (self@.label_limit <= len),
            fit ==> self@.labels_within(len as int),
    {
        proof {
            use_type_invariant(self);
        }
        self.limit <= len
    }
}

/// The 64 bits of `value` read as a signed number in two's complement.
pub open spec fn as_signed(value: u64) -> int {
    if value < 0x8000_0000_0000_0000 {
        value as int
    } else {
        value as int - 0x1_0000_0000_0000_0000
    }
}

/// The 64 bits of `value` read as a signed number in two's complement.
pub fn signed(value: u64) -> (r: i64)
    ensures
        r as int == as_signed(value),
{
    let r: i64 = #[verifier::truncate]
    (value as i64);
    assert(r as int == if value < 0x8000_0000_0000_0000 {
        value as int
    } else {
        value as int - 0x1_0000_0000_0000_0000
    }) by (bit_vector)
        requires
            r == value as i64,
    ;
    r
}

} // verus!
