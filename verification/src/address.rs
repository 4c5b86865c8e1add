//! Effective addresses: from an addressing mode and a register-or-memory
//! code, and the bytes that follow them, to a memory operand.
use vstd::prelude::*;
use crate::cursor::{byte_at, word_at, word_of, Cursor, CursorView, Step};
use crate::error::DecodeError;
use crate::fields::{sign_extend_byte, sign_extend_word, signed_byte, signed_word};
use crate::instruction::{Base, Displacement, EffectiveAddress};

verus! {

/// The base registers that the code `rm` selects where a base is used.
pub open spec fn base_of(rm: u8) -> Base {
    match rm {
        0 => Base::BxSi,
        1 => Base::BxDi,
        2 => Base::BpSi,
        3 => Base::BpDi,
        4 => Base::Si,
        5 => Base::Di,
        6 => Base::Bp,
        _ => Base::Bx,
    }
}

/// The memory operand that mode `mode` and code `rm` name when the bytes
/// after them start at `pos` of `bytes`.
///
/// Mode 0 with code 6 is a direct address in the next two bytes. Otherwise
/// the code selects the base, and the mode the displacement: none for
/// mode 0, one sign-extended byte for mode 1, a signed word for mode 2.
/// A mode above 2 or a code above 7 names no memory operand.
pub open spec fn address_at(bytes: Seq<u8>, pos: nat, mode: u8, rm: u8) -> Step<EffectiveAddress> {
    if mode > 2 || rm > 7 {
        Step { outcome: Err(DecodeError::MalformedModRm { mode, rm }), next: pos }
    } else if mode == 0 && rm == 6 {
        match word_at(bytes, pos) {
            Ok(address) => Step {
                outcome: Ok(EffectiveAddress::Direct { address }),
                next: pos + 2,
            },
            Err(error) => Step { outcome: Err(error), next: pos },
        }
    } else if mode == 0 {
        Step {
            outcome: Ok(
                EffectiveAddress::Based { base: base_of(rm), displacement: Displacement::Absent },
            ),
            next: pos,
        }
    } else if mode == 1 {
        match byte_at(bytes, pos) {
            Ok(byte) => Step {
                outcome: Ok(
                    EffectiveAddress::Based {
                        base: base_of(rm),
                        displacement: Displacement::Byte(signed_byte(byte)),
                    },
                ),
                next: pos + 1,
            },
            Err(error) => Step { outcome: Err(error), next: pos },
        }
    } else {
        match word_at(bytes, pos) {
            Ok(word) => Step {
                outcome: Ok(
                    EffectiveAddress::Based {
                        base: base_of(rm),
                        displacement: Displacement::Word(signed_word(word)),
                    },
                ),
                next: pos + 2,
            },
            Err(error) => Step { outcome: Err(error), next: pos },
        }
    }
}

/// Resolves the memory operand that `mode` and `rm` name, reading its
/// address or displacement bytes from `cursor`.
pub fn resolve_address(mode: u8, rm: u8, cursor: &mut Cursor) -> (resolved: Result<
    EffectiveAddress,
    DecodeError,
>)
    ensures
        resolved == address_at(old(cursor)@.bytes, old(cursor)@.position, mode, rm).outcome,
        final(cursor)@ == (CursorView {
            bytes: old(cursor)@.bytes,
            position: address_at(old(cursor)@.bytes, old(cursor)@.position, mode, rm).next,
        }),
{
    let base = match rm {
        0b000 => Base::BxSi,
        0b001 => Base::BxDi,
        0b010 => Base::BpSi,
        0b011 => Base::BpDi,
        0b100 => Base::Si,
        0b101 => Base::Di,
        0b110 => {
            if mode == 0b00 {
                return match cursor.next_word() {
                    Ok(address) => Ok(EffectiveAddress::Direct { address }),
                    Err(error) => Err(error),
                };
            }
            Base::Bp
        },
        0b111 => Base::Bx,
        _ => {
            return Err(DecodeError::MalformedModRm { mode, rm });
        },
    };
    let displacement = match mode {
        0b00 => Displacement::Absent,
        0b01 => match cursor.next() {
            Ok(byte) => Displacement::Byte(sign_extend_byte(byte)),
            Err(error) => {
                return Err(error);
            },
        },
        0b10 => match cursor.next_word() {
            Ok(word) => Displacement::Word(sign_extend_word(word)),
            Err(error) => {
                return Err(error);
            },
        },
        _ => {
            return Err(DecodeError::MalformedModRm { mode, rm });
        },
    };
    Ok(EffectiveAddress::Based { base, displacement })
}

/// A direct address takes exactly the two bytes after the mode byte and
/// is the word in them, with no base register; where fewer than two bytes
/// are left it takes none and the buffer has ended too early.
pub proof fn lemma_direct_address(bytes: Seq<u8>, pos: nat)
    ensures
        pos + 2 <= bytes.len() ==> address_at(bytes, pos, 0, 6) == (Step {
            outcome: Ok(
                EffectiveAddress::Direct {
                    address: word_of(bytes[pos as int], bytes[pos as int + 1]),
                },
            ),
            next: pos + 2,
        }),
        pos + 2 > bytes.len() ==> address_at(bytes, pos, 0, 6) == (Step {
            outcome: Err::<EffectiveAddress, DecodeError>(
                DecodeError::UnexpectedEnd { offset: bytes.len() as usize },
            ),
            next: pos,
        }),
{
}

} // verus!
