//! The bit fields of instruction bytes.
use vstd::prelude::*;
use crate::register::Width;

verus! {

/// The three fields of the byte that follows the opcode of a
/// register-or-memory move.
#[derive(Clone, Copy, Debug, PartialEq, Eq, Structural)]
pub struct ModRm {
    /// The top two bits: 3 for a register operand, else the width of the
    /// displacement of a memory operand.
    pub mode: u8,
    /// The middle three bits: a register code.
    pub reg: u8,
    /// The low three bits: a register code or the base of an address.
    pub rm: u8,
}

impl ModRm {
    /// The fields of `byte`.
    pub open spec fn of_byte(byte: u8) -> ModRm {
        ModRm { mode: byte / 64, reg: byte / 8 % 8, rm: byte % 8 }
    }

    /// Splits `byte` into its three fields.
    pub fn from_byte(byte: u8) -> (fields: ModRm)
        ensures
            fields == ModRm::of_byte(byte),
            fields.mode < 4,
            fields.reg < 8,
            fields.rm < 8,
    {
        assert(byte >> 6 == byte / 64) by (bit_vector);
        assert((byte & 0b0011_1000) >> 3 == byte / 8 % 8) by (bit_vector);
        assert(byte & 0b0000_0111 == byte % 8) by (bit_vector);
        ModRm { mode: byte >> 6, reg: (byte & 0b0011_1000) >> 3, rm: byte & 0b0000_0111 }
    }
}

/// The width that the bit `bit` of an opcode selects: a word if it is set.
pub open spec fn width_of_bit(bit: u8) -> Width {
    if bit == 0 {
        Width::Byte
    } else {
        Width::Word
    }
}

/// The byte `byte` read as a two's complement number.
pub open spec fn signed_byte(byte: u8) -> i8 {
    if byte < 128 {
        byte as i8
    } else {
        (byte - 256) as i8
    }
}

/// The word `word` read as a two's complement number.
pub open spec fn signed_word(word: u16) -> i16 {
    if word < 32768 {
        word as i16
    } else {
        (word - 65536) as i16
    }
}

/// Reads `byte` as a two's complement number.
pub fn sign_extend_byte(byte: u8) -> (value: i8)
    ensures
        value == signed_byte(byte),
{
    assert(byte as i8 == signed_byte(byte)) by (bit_vector);
    byte as i8
}

/// Reads `word` as a two's complement number.
pub fn sign_extend_word(word: u16) -> (value: i16)
    ensures
        value == signed_word(word),
{
    assert(word as i16 == signed_word(word)) by (bit_vector);
    word as i16
}

} // verus!
