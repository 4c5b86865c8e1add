//! The register name table.
use vstd::prelude::*;

verus! {

/// The size of the data an instruction moves.
#[derive(Clone, Copy, Debug, PartialEq, Eq, Structural)]
pub enum Width {
    Byte,
    Word,
}

impl Width {
    /// The width bit of an encoding: 0 for a byte, 1 for a word.
    pub open spec fn spec_bit(self) -> u8 {
        match self {
            Width::Byte => 0,
            Width::Word => 1,
        }
    }

    /// The width bit of an encoding: 0 for a byte, 1 for a word.
    #[verifier::when_used_as_spec(spec_bit)]
    pub fn bit(self) -> (bit: u8)
        ensures
            bit == self.spec_bit(),
    {
        match self {
            Width::Byte => 0,
            Width::Word => 1,
        }
    }
}

/// A register operand: a 3-bit register code read at a width.
#[derive(Clone, Copy, Debug, PartialEq, Eq, Structural)]
pub struct Register {
    pub code: u8,
    pub width: Width,
}

impl Register {
    /// The code fits in three bits.
    pub open spec fn wf(self) -> bool {
        self.code < 8
    }

    /// The register's mnemonic.
    pub open spec fn text(self) -> Seq<char> {
        register_name(self.code, self.width.bit())
    }

    /// The register's mnemonic.
    pub fn name(self) -> (name: &'static str)
        requires
            self.wf(),
        ensures
            name@ == self.text(),
    {
        register_for(self.code, self.width.bit())
    }
}

/// The mnemonic of the register with code `reg` at width bit `w`. The
/// table is defined for the codes 0 to 7 and the width bits 0 and 1.
pub open spec fn register_name(reg: u8, w: u8) -> Seq<char> {
    if w == 0 {
        match reg {
            0 => "al"@,
            1 => "cl"@,
            2 => "dl"@,
            3 => "bl"@,
            4 => "ah"@,
            5 => "ch"@,
            6 => "dh"@,
            _ => "bh"@,
        }
    } else {
        match reg {
            0 => "ax"@,
            1 => "cx"@,
            2 => "dx"@,
            3 => "bx"@,
            4 => "sp"@,
            5 => "bp"@,
            6 => "si"@,
            _ => "di"@,
        }
    }
}

/// Looks up the mnemonic of the register with code `reg` (0 to 7) at
/// width bit `w` (0 for a byte, 1 for a word).
pub fn register_for(reg: u8, w: u8) -> (name: &'static str)
    requires
        reg < 8,
        w < 2,
    ensures
        name@ == register_name(reg, w),
{
    match (reg, w) {
        (0b_000, 0) => "al",
        (0b_001, 0) => "cl",
        (0b_010, 0) => "dl",
        (0b_011, 0) => "bl",
        (0b_100, 0) => "ah",
        (0b_101, 0) => "ch",
        (0b_110, 0) => "dh",
        (0b_111, 0) => "bh",
        (0b_000, _) => "ax",
        (0b_001, _) => "cx",
        (0b_010, _) => "dx",
        (0b_011, _) => "bx",
        (0b_100, _) => "sp",
        (0b_101, _) => "bp",
        (0b_110, _) => "si",
        _ => "di",
    }
}

/// Every entry of the table is a name of two letters.
pub proof fn lemma_register_name_len(reg: u8, w: u8)
    requires
        reg < 8,
        w < 2,
    ensures
        register_name(reg, w).len() == 2,
{
    reveal_register_names();
}

/// No name stands twice in the table: two entries with the same name have
/// the same code and the same width.
pub proof fn lemma_register_name_unique(reg1: u8, w1: u8, reg2: u8, w2: u8)
    requires
        reg1 < 8,
        w1 < 2,
        reg2 < 8,
        w2 < 2,
        register_name(reg1, w1) == register_name(reg2, w2),
    ensures
        reg1 == reg2,
        w1 == w2,
{
    reveal_register_names();
    let a = register_name(reg1, w1);
    let b = register_name(reg2, w2);
    assert(a[0] == b[0] && a[1] == b[1]);
}

/// The letters of the sixteen names.
pub proof fn reveal_register_names()
    ensures
        "al"@ == seq!['a', 'l'],
        "cl"@ == seq!['c', 'l'],
        "dl"@ == seq!['d', 'l'],
        "bl"@ == seq!['b', 'l'],
        "ah"@ == seq!['a', 'h'],
        "ch"@ == seq!['c', 'h'],
        "dh"@ == seq!['d', 'h'],
        "bh"@ == seq!['b', 'h'],
        "ax"@ == seq!['a', 'x'],
        "cx"@ == seq!['c', 'x'],
        "dx"@ == seq!['d', 'x'],
        "bx"@ == seq!['b', 'x'],
        "sp"@ == seq!['s', 'p'],
        "bp"@ == seq!['b', 'p'],
        "si"@ == seq!['s', 'i'],
        "di"@ == seq!['d', 'i'],
{
    reveal_strlit("al");
    reveal_strlit("cl");
    reveal_strlit("dl");
    reveal_strlit("bl");
    reveal_strlit("ah");
    reveal_strlit("ch");
    reveal_strlit("dh");
    reveal_strlit("bh");
    reveal_strlit("ax");
    reveal_strlit("cx");
    reveal_strlit("dx");
    reveal_strlit("bx");
    reveal_strlit("sp");
    reveal_strlit("bp");
    reveal_strlit("si");
    reveal_strlit("di");
}

} // verus!
