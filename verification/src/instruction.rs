//! The structured form of a decoded instruction.
use vstd::prelude::*;
use crate::register::{Register, Width};

verus! {

/// The registers whose sum is the base of an effective address.
#[derive(Clone, Copy, Debug, PartialEq, Eq, Structural)]
pub enum Base {
    BxSi,
    BxDi,
    BpSi,
    BpDi,
    Si,
    Di,
    Bp,
    Bx,
}

/// The signed offset added to the base of an effective address, kept at the
/// width at which it was encoded.
#[derive(Clone, Copy, Debug, PartialEq, Eq, Structural)]
pub enum Displacement {
    Absent,
    Byte(i8),
    Word(i16),
}

impl Displacement {
    /// The offset as a number; no displacement counts as zero.
    pub open spec fn spec_value(self) -> i16 {
        match self {
            Displacement::Absent => 0,
            Displacement::Byte(offset) => offset as i16,
            Displacement::Word(offset) => offset,
        }
    }

    /// The offset as a number; no displacement counts as zero.
    #[verifier::when_used_as_spec(spec_value)]
    pub fn value(self) -> (value: i16)
        ensures
            value == self.spec_value(),
    {
        match self {
            Displacement::Absent => 0,
            Displacement::Byte(offset) => offset as i16,
            Displacement::Word(offset) => offset,
        }
    }
}

/// The memory location that an operand names.
#[derive(Clone, Copy, Debug, PartialEq, Eq, Structural)]
pub enum EffectiveAddress {
    /// The sum of the base registers and the displacement.
    Based { base: Base, displacement: Displacement },
    /// A fixed 16-bit address, with no register in it.
    Direct { address: u16 },
}

/// One side of a move.
#[derive(Clone, Copy, Debug, PartialEq, Eq, Structural)]
pub enum Operand {
    Register(Register),
    Memory(EffectiveAddress),
    Immediate { value: u16, width: Width },
}

impl Operand {
    /// A register operand holds a 3-bit code, and a byte-wide immediate
    /// fits in a byte.
    pub open spec fn wf(self) -> bool {
        match self {
            Operand::Register(register) => register.wf(),
            Operand::Memory(_) => true,
            Operand::Immediate { value, width } => width == Width::Byte ==> value < 256,
        }
    }
}

/// The operation of an instruction. This decoder knows one.
#[derive(Clone, Copy, Debug, PartialEq, Eq, Structural)]
pub enum Mnemonic {
    Mov,
}

/// A decoded instruction: the operation, where the data goes and where it
/// comes from.
#[derive(Clone, Copy, Debug, PartialEq, Eq, Structural)]
pub struct Instruction {
    pub mnemonic: Mnemonic,
    pub destination: Operand,
    pub source: Operand,
}

impl Instruction {
    /// Both operands are well formed.
    pub open spec fn wf(self) -> bool {
        self.destination.wf() && self.source.wf()
    }
}

} // verus!
