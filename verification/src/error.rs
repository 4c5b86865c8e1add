//! The ways in which decoding can fail.
use vstd::prelude::*;
use vstd::string::StringExecFns;
use crate::decimal::{binary, decimal, push_binary, push_decimal};

verus! {

/// Why a byte buffer could not be decoded. Every failure ends the run: the
/// decoder never skips ahead to look for the next instruction.
#[derive(Clone, Copy, Debug, PartialEq, Eq, Structural)]
pub enum DecodeError {
    /// The buffer ended where an instruction still needed a byte. `offset`
    /// is the place of the missing byte, which is the length of the buffer.
    UnexpectedEnd { offset: usize },
    /// The byte at `offset` starts no instruction that this decoder knows.
    UnsupportedOpcode { byte: u8, offset: usize },
    /// An addressing mode and register-or-memory code outside the
    /// combinations that name a memory operand.
    MalformedModRm { mode: u8, rm: u8 },
}

/// The message of a failure: what was expected and where, offsets in
/// decimal and the offending byte in its eight bits.
pub open spec fn error_text(error: DecodeError) -> Seq<char> {
    match error {
        DecodeError::UnexpectedEnd { offset } => "unexpected end of input at offset "@ + decimal(
            offset as nat,
        ),
        DecodeError::UnsupportedOpcode { byte, offset } => "unsupported opcode "@ + binary(byte, 8)
            + " at offset "@ + decimal(offset as nat),
        DecodeError::MalformedModRm { mode, rm } => "malformed addressing mode "@ + decimal(
            mode as nat,
        ) + " with register-or-memory code "@ + decimal(rm as nat),
    }
}

impl DecodeError {
    /// Describes the failure for the user.
    pub fn describe(&self) -> (message: String)
        ensures
            message@ == error_text(*self),
    {
        let mut message = String::new();
        match *self {
            DecodeError::UnexpectedEnd { offset } => {
                message.append("unexpected end of input at offset ");
                push_decimal(&mut message, offset as u64);
            },
            DecodeError::UnsupportedOpcode { byte, offset } => {
                message.append("unsupported opcode ");
                push_binary(&mut message, byte, 8);
                message.append(" at offset ");
                push_decimal(&mut message, offset as u64);
            },
            DecodeError::MalformedModRm { mode, rm } => {
                message.append("malformed addressing mode ");
                push_decimal(&mut message, mode as u64);
                message.append(" with register-or-memory code ");
                push_decimal(&mut message, rm as u64);
            },
        }
        message
    }
}

} // verus!
