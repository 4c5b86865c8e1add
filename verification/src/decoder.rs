//! The instruction decoder: from the bytes at a cursor to one instruction.
use vstd::prelude::*;
use crate::address::{address_at, resolve_address};
use crate::cursor::{byte_at, word_at, Cursor, CursorView, Step};
use crate::error::DecodeError;
use crate::fields::{width_of_bit, ModRm};
use crate::instruction::{Instruction, Mnemonic, Operand};
use crate::register::{Register, Width};

verus! {

/// Whether `opcode` starts a move of an immediate value to a register: its
/// top four bits are 1011.
pub open spec fn is_immediate_move(opcode: u8) -> bool {
    opcode / 16 == 0b1011
}

/// Whether `opcode` starts a move between a register and a register or
/// memory operand: its top six bits are 100010.
pub open spec fn is_register_memory_move(opcode: u8) -> bool {
    opcode / 4 == 0b100010
}

/// A move of `source` to `destination`.
pub open spec fn move_of(destination: Operand, source: Operand) -> Instruction {
    Instruction { mnemonic: Mnemonic::Mov, destination, source }
}

/// The immediate-to-register move that `opcode` starts when the bytes
/// after it start at `pos` of `bytes`.
///
/// Bit 3 of the opcode is the width and its low three bits are the code of
/// the destination register. The value is the next byte, or for a word the
/// next two bytes, low byte first.
pub open spec fn immediate_move_at(bytes: Seq<u8>, pos: nat, opcode: u8) -> Step<Instruction> {
    let width = width_of_bit(opcode / 8 % 2);
    let destination = Operand::Register(Register { code: opcode % 8, width });
    match width {
        Width::Byte => match byte_at(bytes, pos) {
            Ok(byte) => Step {
                outcome: Ok(
                    move_of(destination, Operand::Immediate { value: byte as u16, width }),
                ),
                next: pos + 1,
            },
            Err(error) => Step { outcome: Err(error), next: pos },
        },
        Width::Word => match word_at(bytes, pos) {
            Ok(word) => Step {
                outcome: Ok(move_of(destination, Operand::Immediate { value: word, width })),
                next: pos + 2,
            },
            Err(error) => Step { outcome: Err(error), next: pos },
        },
    }
}

/// The register-or-memory move that `opcode` starts when the bytes after
/// it start at `pos` of `bytes`.
///
/// Bit 0 of the opcode is the width and bit 1 the direction. The next byte
/// holds the mode and the two operand codes. The first operand is the
/// register of the middle code. The second is the register of the low code
/// where the mode is 3, and else the memory operand that the mode and the
/// low code name. With the direction bit set the register of the middle
/// code is the destination, else it is the source.
pub open spec fn register_memory_move_at(bytes: Seq<u8>, pos: nat, opcode: u8) -> Step<
    Instruction,
> {
    let width = width_of_bit(opcode % 2);
    let to_register = opcode / 2 % 2 == 1;
    match byte_at(bytes, pos) {
        Err(error) => Step { outcome: Err(error), next: pos },
        Ok(byte) => {
            let fields = ModRm::of_byte(byte);
            let register = Operand::Register(Register { code: fields.reg, width });
            if fields.mode == 3 {
                let other = Operand::Register(Register { code: fields.rm, width });
                Step {
                    outcome: Ok(
                        if to_register {
                            move_of(register, other)
                        } else {
                            move_of(other, register)
                        },
                    ),
                    next: pos + 1,
                }
            } else {
                let resolved = address_at(bytes, pos + 1, fields.mode, fields.rm);
                match resolved.outcome {
                    Ok(address) => Step {
                        outcome: Ok(
                            if to_register {
                                move_of(register, Operand::Memory(address))
                            } else {
                                move_of(Operand::Memory(address), register)
                            },
                        ),
                        next: resolved.next,
                    },
                    Err(error) => Step { outcome: Err(error), next: resolved.next },
                }
            }
        },
    }
}

/// The instruction that starts at `pos` of `bytes`, or why there is none.
pub open spec fn decode_at(bytes: Seq<u8>, pos: nat) -> Step<Instruction> {
    match byte_at(bytes, pos) {
        Err(error) => Step { outcome: Err(error), next: pos },
        Ok(opcode) => if is_immediate_move(opcode) {
            immediate_move_at(bytes, pos + 1, opcode)
        } else if is_register_memory_move(opcode) {
            register_memory_move_at(bytes, pos + 1, opcode)
        } else {
            Step {
                outcome: Err(DecodeError::UnsupportedOpcode { byte: opcode, offset: pos as usize }),
                next: pos + 1,
            }
        },
    }
}

/// Decodes the rest of an immediate-to-register move whose first byte,
/// `opcode`, has been read.
pub fn decode_immediate_move(opcode: u8, cursor: &mut Cursor) -> (decoded: Result<
    Instruction,
    DecodeError,
>)
    ensures
        decoded == immediate_move_at(old(cursor)@.bytes, old(cursor)@.position, opcode).outcome,
        final(cursor)@ == (CursorView {
            bytes: old(cursor)@.bytes,
            position: immediate_move_at(old(cursor)@.bytes, old(cursor)@.position, opcode).next,
        }),
        decoded matches Ok(instruction) ==> instruction.wf(),
{
    assert((opcode & 0b0000_1000) >> 3 == opcode / 8 % 2) by (bit_vector);
    assert(opcode & 0b0000_0111 == opcode % 8) by (bit_vector);
    let wide = (opcode & 0b0000_1000) >> 3 != 0;
    let code = opcode & 0b0000_0111;
    let (value, width) = if wide {
        match cursor.next_word() {
            Ok(word) => (word, Width::Word),
            Err(error) => {
                return Err(error);
            },
        }
    } else {
        match cursor.next() {
            Ok(byte) => (byte as u16, Width::Byte),
            Err(error) => {
                return Err(error);
            },
        }
    };
    Ok(
        Instruction {
            mnemonic: Mnemonic::Mov,
            destination: Operand::Register(Register { code, width }),
            source: Operand::Immediate { value, width },
        },
    )
}

/// Decodes the rest of a register-or-memory move whose first byte,
/// `opcode`, has been read.
pub fn decode_register_memory_move(opcode: u8, cursor: &mut Cursor) -> (decoded: Result<
    Instruction,
    DecodeError,
>)
    ensures
        decoded == register_memory_move_at(
            old(cursor)@.bytes,
            old(cursor)@.position,
            opcode,
        ).outcome,
        final(cursor)@ == (CursorView {
            bytes: old(cursor)@.bytes,
            position: register_memory_move_at(
                old(cursor)@.bytes,
                old(cursor)@.position,
                opcode,
            ).next,
        }),
        decoded matches Ok(instruction) ==> instruction.wf(),
{
    assert((opcode & 0b0000_0010) >> 1 == opcode / 2 % 2) by (bit_vector);
    assert(opcode & 0b0000_0001 == opcode % 2) by (bit_vector);
    let to_register = (opcode & 0b0000_0010) >> 1 != 0;
    let width = if opcode & 0b0000_0001 != 0 {
        Width::Word
    } else {
        Width::Byte
    };
    let fields = match cursor.next() {
        Ok(byte) => ModRm::from_byte(byte),
        Err(error) => {
            return Err(error);
        },
    };
    let register = Operand::Register(Register { code: fields.reg, width });
    let other = match fields.mode {
        0b00 | 0b01 | 0b10 => match resolve_address(fields.mode, fields.rm, cursor) {
            Ok(address) => Operand::Memory(address),
            Err(error) => {
                return Err(error);
            },
        },
        0b11 => Operand::Register(Register { code: fields.rm, width }),
        _ => {
            return Err(DecodeError::MalformedModRm { mode: fields.mode, rm: fields.rm });
        },
    };
    let (destination, source) = if to_register {
        (register, other)
    } else {
        (other, register)
    };
    Ok(Instruction { mnemonic: Mnemonic::Mov, destination, source })
}

/// Decodes the instruction at `cursor` and steps past its bytes. On
/// failure the cursor stays behind the bytes that were read before it.
pub fn decode_instruction(cursor: &mut Cursor) -> (decoded: Result<Instruction, DecodeError>)
    ensures
        decoded == decode_at(old(cursor)@.bytes, old(cursor)@.position).outcome,
        final(cursor)@ == (CursorView {
            bytes: old(cursor)@.bytes,
            position: decode_at(old(cursor)@.bytes, old(cursor)@.position).next,
        }),
        decoded matches Ok(instruction) ==> instruction.wf(),
{
    let offset = cursor.position();
    let opcode = match cursor.next() {
        Ok(byte) => byte,
        Err(error) => {
            return Err(error);
        },
    };
    assert(opcode >> 4 == opcode / 16) by (bit_vector);
    assert(opcode >> 2 == opcode / 4) by (bit_vector);
    if opcode >> 4 == 0b1011 {
        decode_immediate_move(opcode, cursor)
    } else if opcode >> 2 == 0b100010 {
        decode_register_memory_move(opcode, cursor)
    } else {
        Err(DecodeError::UnsupportedOpcode { byte: opcode, offset })
    }
}

} // verus!
