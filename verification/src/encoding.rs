//! The bytes of an instruction, and the laws that tie them to the decoder.
use vstd::prelude::*;
use crate::address::address_at;
use crate::cursor::{byte_at, word_at, word_of, Step};
use crate::decoder::{
    decode_at, immediate_move_at, is_immediate_move, is_register_memory_move, move_of,
};
use crate::error::DecodeError;
use crate::fields::{signed_byte, signed_word, ModRm};
use crate::instruction::{Base, Displacement, EffectiveAddress, Instruction, Operand};
use crate::listing::{decoded_from, first_failure};
use crate::register::{Register, Width};

verus! {

/// The register-or-memory code that selects `base`.
pub open spec fn base_code(base: Base) -> u8 {
    match base {
        Base::BxSi => 0,
        Base::BxDi => 1,
        Base::BpSi => 2,
        Base::BpDi => 3,
        Base::Si => 4,
        Base::Di => 5,
        Base::Bp => 6,
        Base::Bx => 7,
    }
}

/// The addressing mode of a memory operand: the width of what follows the
/// mode byte, with a direct address under mode 0.
pub open spec fn address_mode(address: EffectiveAddress) -> u8 {
    match address {
        EffectiveAddress::Direct { .. } => 0,
        EffectiveAddress::Based { displacement: Displacement::Absent, .. } => 0,
        EffectiveAddress::Based { displacement: Displacement::Byte(_), .. } => 1,
        EffectiveAddress::Based { displacement: Displacement::Word(_), .. } => 2,
    }
}

/// The register-or-memory code of a memory operand: 6 for a direct
/// address, else the code of the base.
pub open spec fn address_code(address: EffectiveAddress) -> u8 {
    match address {
        EffectiveAddress::Direct { .. } => 6,
        EffectiveAddress::Based { base, .. } => base_code(base),
    }
}

/// The two bytes of `word`, low byte first.
pub open spec fn word_bytes(word: u16) -> Seq<u8> {
    seq![(word % 256) as u8, (word / 256) as u8]
}

/// The byte that holds `value` in two's complement.
pub open spec fn unsigned_byte(value: i8) -> u8 {
    if value >= 0 {
        value as u8
    } else {
        (value + 256) as u8
    }
}

/// The word that holds `value` in two's complement.
pub open spec fn unsigned_word(value: i16) -> u16 {
    if value >= 0 {
        value as u16
    } else {
        (value + 65536) as u16
    }
}

/// The bytes that follow the mode byte of a memory operand: its direct
/// address or its displacement.
pub open spec fn address_bytes(address: EffectiveAddress) -> Seq<u8> {
    match address {
        EffectiveAddress::Direct { address } => word_bytes(address),
        EffectiveAddress::Based { displacement: Displacement::Absent, .. } => Seq::empty(),
        EffectiveAddress::Based { displacement: Displacement::Byte(value), .. } => seq![
            unsigned_byte(value),
        ],
        EffectiveAddress::Based { displacement: Displacement::Word(value), .. } => word_bytes(
            unsigned_word(value),
        ),
    }
}

/// Whether a memory operand has an encoding. The base `bp` alone, with no
/// displacement, has none: its mode and code are those of a direct
/// address.
pub open spec fn is_encodable_address(address: EffectiveAddress) -> bool {
    !(address matches EffectiveAddress::Based {
        base: Base::Bp,
        displacement: Displacement::Absent,
    })
}

/// The mode byte with the fields `mode`, `reg` and `rm`.
pub open spec fn mode_byte(mode: u8, reg: u8, rm: u8) -> u8 {
    (64 * mode + 8 * reg + rm) as u8
}

/// Whether an instruction is one of the moves that have an encoding: an
/// immediate to a register of its width, a register to a register of its
/// width, or a register to or from memory.
pub open spec fn is_move_form(instruction: Instruction) -> bool {
    &&& instruction.wf()
    &&& match (instruction.destination, instruction.source) {
        (Operand::Register(to), Operand::Immediate { value, width }) => to.width == width,
        (Operand::Register(to), Operand::Register(from)) => to.width == from.width,
        (Operand::Register(_), Operand::Memory(address)) => is_encodable_address(address),
        (Operand::Memory(address), Operand::Register(_)) => is_encodable_address(address),
        _ => false,
    }
}

/// The bytes of an instruction. A move between two registers is encoded
/// with the direction bit clear, the source in the middle code.
pub open spec fn encoding(instruction: Instruction) -> Seq<u8> {
    match (instruction.destination, instruction.source) {
        (Operand::Register(to), Operand::Immediate { value, width }) => {
            let opcode = (0b1011_0000 + 8 * width.bit() + to.code) as u8;
            match width {
                Width::Byte => seq![opcode, value as u8],
                Width::Word => seq![opcode] + word_bytes(value),
            }
        },
        (Operand::Register(to), Operand::Register(from)) => seq![
            (0b1000_1000 + from.width.bit()) as u8,
            mode_byte(3, from.code, to.code),
        ],
        (Operand::Register(to), Operand::Memory(address)) => seq![
            (0b1000_1010 + to.width.bit()) as u8,
            mode_byte(address_mode(address), to.code, address_code(address)),
        ] + address_bytes(address),
        (Operand::Memory(address), Operand::Register(from)) => seq![
            (0b1000_1000 + from.width.bit()) as u8,
            mode_byte(address_mode(address), from.code, address_code(address)),
        ] + address_bytes(address),
        _ => Seq::empty(),
    }
}

/// Whether the bytes at `pos` of `bytes` hold a move between two registers
/// with the direction bit set: the second of the two encodings that such a
/// move has.
pub open spec fn is_reversed_register_move(bytes: Seq<u8>, pos: nat) -> bool {
    &&& pos + 1 < bytes.len()
    &&& is_register_memory_move(bytes[pos as int])
    &&& bytes[pos as int] / 2 % 2 == 1
    &&& bytes[pos as int + 1] / 64 == 3
}

/// A memory operand is read back from its mode, its code and its bytes.
pub proof fn lemma_address_round_trip(bytes: Seq<u8>, pos: nat, address: EffectiveAddress)
    requires
        is_encodable_address(address),
        pos + address_bytes(address).len() <= bytes.len(),
        bytes.subrange(pos as int, pos + address_bytes(address).len() as int) == address_bytes(address),
    ensures
        address_at(bytes, pos, address_mode(address), address_code(address)) == (Step {
            outcome: Ok(address),
            next: pos + address_bytes(address).len(),
        }),
{
    let tail = bytes.subrange(pos as int, pos + address_bytes(address).len() as int);
    match address {
        EffectiveAddress::Direct { address: word } => {
            assert(bytes[pos as int] == tail[0]);
            assert(bytes[pos as int + 1] == tail[1]);
        },
        EffectiveAddress::Based { base, displacement: Displacement::Absent } => {},
        EffectiveAddress::Based { base, displacement: Displacement::Byte(value) } => {
            assert(bytes[pos as int] == tail[0]);
        },
        EffectiveAddress::Based { base, displacement: Displacement::Word(value) } => {
            assert(bytes[pos as int] == tail[0]);
            assert(bytes[pos as int + 1] == tail[1]);
        },
    }
}

/// The fields of a mode byte are the fields that it was made of.
pub proof fn lemma_mode_byte_fields(mode: u8, reg: u8, rm: u8)
    requires
        mode < 4,
        reg < 8,
        rm < 8,
    ensures
        ModRm::of_byte(mode_byte(mode, reg, rm)) == (ModRm { mode, reg, rm }),
{
}

/// The decoder reads an immediate-to-register move from its encoding.
proof fn lemma_decode_immediate(bytes: Seq<u8>, pos: nat, to: Register, value: u16, width: Width)
    requires
        to.wf(),
        to.width == width,
        width == Width::Byte ==> value < 256,
        ({
            let instruction = move_of(Operand::Register(to), Operand::Immediate { value, width });
            &&& pos + encoding(instruction).len() <= bytes.len()
            &&& bytes.subrange(pos as int, pos + encoding(instruction).len() as int) == encoding(
                instruction,
            )
        }),
    ensures
        ({
            let instruction = move_of(Operand::Register(to), Operand::Immediate { value, width });
            decode_at(bytes, pos) == (Step {
                outcome: Ok(instruction),
                next: pos + encoding(instruction).len(),
            })
        }),
{
    let instruction = move_of(Operand::Register(to), Operand::Immediate { value, width });
    let code = encoding(instruction);
    let here = bytes.subrange(pos as int, pos + code.len() as int);
    let opcode = (0b1011_0000 + 8 * width.bit() + to.code) as u8;
    assert(bytes[pos as int] == here[0]);
    assert(bytes[pos as int + 1] == here[1]);
    assert(bytes[pos as int] == opcode);
    assert(opcode / 16 == 0b1011);
    assert(opcode / 8 % 2 == width.bit());
    assert(opcode % 8 == to.code);
    match width {
        Width::Byte => {
            assert(byte_at(bytes, pos + 1) == Ok::<u8, DecodeError>(value as u8));
        },
        Width::Word => {
            assert(bytes[pos as int + 2] == here[2]);
            assert(word_of((value % 256) as u8, (value / 256) as u8) == value);
            assert(word_at(bytes, pos + 1) == Ok::<u16, DecodeError>(value));
        },
    }
    assert(immediate_move_at(bytes, pos + 1, opcode) == (Step {
        outcome: Ok(instruction),
        next: pos + code.len(),
    }));
}

/// The decoder reads a move between a register and a register or memory
/// operand from an opcode of that kind and what follows it.
proof fn lemma_decode_register_memory(
    bytes: Seq<u8>,
    pos: nat,
    to_register: bool,
    register: Register,
    other: Operand,
)
    requires
        register.wf(),
        pos + 2 <= bytes.len(),
        bytes[pos as int] == (0b1000_1000 + (if to_register {
            2int
        } else {
            0int
        }) + register.width.bit()) as u8,
        match other {
            Operand::Register(second) => {
                &&& second.wf()
                &&& second.width == register.width
                &&& bytes[pos as int + 1] == mode_byte(3, register.code, second.code)
            },
            Operand::Memory(address) => {
                &&& is_encodable_address(address)
                &&& bytes[pos as int + 1] == mode_byte(
                    address_mode(address),
                    register.code,
                    address_code(address),
                )
                &&& pos + 2 + address_bytes(address).len() <= bytes.len()
                &&& bytes.subrange(pos as int + 2, pos + 2 + address_bytes(address).len() as int)
                    == address_bytes(address)
            },
            Operand::Immediate { .. } => false,
        },
    ensures
        decode_at(bytes, pos) == (Step {
            outcome: Ok(
                if to_register {
                    move_of(Operand::Register(register), other)
                } else {
                    move_of(other, Operand::Register(register))
                },
            ),
            next: pos + 2 + match other {
                Operand::Memory(address) => address_bytes(address).len(),
                _ => 0,
            },
        }),
{
    let opcode = bytes[pos as int];
    assert(opcode / 4 == 0b100010);
    assert(opcode / 16 != 0b1011);
    assert(opcode % 2 == register.width.bit());
    assert((opcode / 2 % 2 == 1) == to_register);
    assert(byte_at(bytes, pos) == Ok::<u8, DecodeError>(opcode));
    assert(byte_at(bytes, pos + 1) == Ok::<u8, DecodeError>(bytes[pos as int + 1]));
    match other {
        Operand::Register(second) => {
            lemma_mode_byte_fields(3, register.code, second.code);
        },
        Operand::Memory(address) => {
            lemma_mode_byte_fields(address_mode(address), register.code, address_code(address));
            lemma_address_round_trip(bytes, pos + 2, address);
        },
        Operand::Immediate { .. } => {},
    }
}

/// Decoding undoes encoding: where the bytes at `pos` are the encoding of
/// a move, the decoder reads that move there and stops behind it.
pub proof fn lemma_decode_of_encoding(bytes: Seq<u8>, pos: nat, instruction: Instruction)
    requires
        is_move_form(instruction),
        pos + encoding(instruction).len() <= bytes.len(),
        bytes.subrange(pos as int, pos + encoding(instruction).len() as int) == encoding(
            instruction,
        ),
    ensures
        decode_at(bytes, pos) == (Step {
            outcome: Ok(instruction),
            next: pos + encoding(instruction).len(),
        }),
{
    let code = encoding(instruction);
    let here = bytes.subrange(pos as int, pos + code.len() as int);
    assert(code.len() >= 2);
    assert(bytes[pos as int] == here[0]);
    assert(bytes[pos as int + 1] == here[1]);
    match (instruction.destination, instruction.source) {
        (Operand::Register(to), Operand::Immediate { value, width }) => {
            lemma_decode_immediate(bytes, pos, to, value, width);
        },
        (Operand::Register(to), Operand::Register(from)) => {
            lemma_decode_register_memory(bytes, pos, false, from, instruction.destination);
        },
        (Operand::Register(to), Operand::Memory(address)) => {
            let tail = address_bytes(address);
            assert(bytes.subrange(pos as int + 2, pos + 2 + tail.len() as int) == tail) by {
                assert forall|i: int| 0 <= i < tail.len() implies bytes[pos + 2 + i] == tail[i] by {
                    assert(bytes[pos + 2 + i] == here[2 + i]);
                }
            }
            lemma_decode_register_memory(bytes, pos, true, to, instruction.source);
        },
        (Operand::Memory(address), Operand::Register(from)) => {
            let tail = address_bytes(address);
            assert(bytes.subrange(pos as int + 2, pos + 2 + tail.len() as int) == tail) by {
                assert forall|i: int| 0 <= i < tail.len() implies bytes[pos + 2 + i] == tail[i] by {
                    assert(bytes[pos + 2 + i] == here[2 + i]);
                }
            }
            lemma_decode_register_memory(bytes, pos, false, from, instruction.destination);
        },
        _ => {},
    }
}

/// The mode, the code and the bytes of a memory operand are those that
/// it was resolved from.
pub proof fn lemma_address_of_resolved(bytes: Seq<u8>, pos: nat, mode: u8, rm: u8)
    requires
        pos <= bytes.len(),
        address_at(bytes, pos, mode, rm).outcome is Ok,
    ensures
        ({
            let step = address_at(bytes, pos, mode, rm);
            let address = step.outcome->Ok_0;
            &&& is_encodable_address(address)
            &&& address_mode(address) == mode
            &&& address_code(address) == rm
            &&& step.next == pos + address_bytes(address).len()
            &&& step.next <= bytes.len()
            &&& bytes.subrange(pos as int, step.next as int) == address_bytes(address)
        }),
{
    let step = address_at(bytes, pos, mode, rm);
    let address = step.outcome->Ok_0;
    let read = bytes.subrange(pos as int, step.next as int);
    if mode == 0 && rm != 6 {
        assert(read =~= address_bytes(address));
    } else if mode == 1 {
        let byte = bytes[pos as int];
        assert(unsigned_byte(signed_byte(byte)) == byte);
        assert(read =~= address_bytes(address));
    } else {
        let low = bytes[pos as int];
        let high = bytes[pos as int + 1];
        let word = word_of(low, high);
        assert(word == low + 256 * high);
        assert(word % 256 == low && word / 256 == high);
        assert(unsigned_word(signed_word(word)) == word);
        assert(word_bytes(word) =~= seq![low, high]);
        assert(read =~= seq![low, high]);
    }
}

/// What the decoder reads is a move that has an encoding.
pub proof fn lemma_decoded_is_move(bytes: Seq<u8>, pos: nat)
    requires
        decode_at(bytes, pos).outcome is Ok,
    ensures
        is_move_form(decode_at(bytes, pos).outcome->Ok_0),
{
}

/// Encoding undoes decoding: the bytes that an instruction was decoded
/// from are its encoding, but where they hold a move between two registers
/// with the direction bit set.
pub proof fn lemma_encoding_of_decoded(bytes: Seq<u8>, pos: nat)
    requires
        decode_at(bytes, pos).outcome is Ok,
        !is_reversed_register_move(bytes, pos),
    ensures
        ({
            let step = decode_at(bytes, pos);
            let instruction = step.outcome->Ok_0;
            &&& is_move_form(instruction)
            &&& pos < step.next <= bytes.len()
            &&& step.next == pos + encoding(instruction).len()
            &&& bytes.subrange(pos as int, step.next as int) == encoding(instruction)
        }),
{
    let step = decode_at(bytes, pos);
    let instruction = step.outcome->Ok_0;
    let opcode = bytes[pos as int];
    if is_immediate_move(opcode) {
        assert(bytes.subrange(pos as int, step.next as int) =~= encoding(instruction));
    } else {
        let fields = ModRm::of_byte(bytes[pos as int + 1]);
        assert(mode_byte(fields.mode, fields.reg, fields.rm) == bytes[pos as int + 1]);
        if fields.mode == 3 {
            assert(bytes.subrange(pos as int, step.next as int) =~= encoding(instruction));
        } else {
            lemma_address_of_resolved(bytes, pos + 2, fields.mode, fields.rm);
            let address = address_at(bytes, pos + 2, fields.mode, fields.rm).outcome->Ok_0;
            let tail = bytes.subrange(pos as int + 2, step.next as int);
            assert(tail == address_bytes(address));
            assert(bytes.subrange(pos as int, step.next as int) =~= seq![
                opcode,
                bytes[pos as int + 1],
            ] + tail);
        }
    }
}

/// The bytes of a list of instructions: their encodings, one after the
/// other.
pub open spec fn program_encoding(instructions: Seq<Instruction>) -> Seq<u8>
    decreases instructions.len(),
{
    if instructions.len() == 0 {
        Seq::empty()
    } else {
        encoding(instructions.first()) + program_encoding(instructions.drop_first())
    }
}

/// Whether one of the instructions of `bytes` from `pos` on is a move
/// between two registers with the direction bit set.
pub open spec fn has_reversed_register_move(bytes: Seq<u8>, pos: nat) -> bool
    decreases bytes.len() - pos,
{
    let step = decode_at(bytes, pos);
    if pos >= bytes.len() {
        false
    } else {
        is_reversed_register_move(bytes, pos) || (step.outcome is Ok
            && has_reversed_register_move(bytes, step.next))
    }
}

/// A buffer that decodes from `pos` to its end is the encoding of the
/// instructions decoded from it, but where it holds a move between two
/// registers with the direction bit set.
pub proof fn lemma_program_round_trip(bytes: Seq<u8>, pos: nat)
    requires
        pos <= bytes.len(),
        first_failure(bytes, pos) is None,
        !has_reversed_register_move(bytes, pos),
    ensures
        program_encoding(decoded_from(bytes, pos)) == bytes.subrange(
            pos as int,
            bytes.len() as int,
        ),
    decreases bytes.len() - pos,
{
    if pos < bytes.len() {
        let step = decode_at(bytes, pos);
        let instruction = step.outcome->Ok_0;
        let rest = decoded_from(bytes, step.next);
        lemma_encoding_of_decoded(bytes, pos);
        lemma_program_round_trip(bytes, step.next);
        assert(decoded_from(bytes, pos) == seq![instruction] + rest);
        assert((seq![instruction] + rest).first() == instruction);
        assert((seq![instruction] + rest).drop_first() == rest);
        assert(bytes.subrange(pos as int, bytes.len() as int) == bytes.subrange(
            pos as int,
            step.next as int,
        ) + bytes.subrange(step.next as int, bytes.len() as int));
    } else {
        assert(bytes.subrange(pos as int, bytes.len() as int) == Seq::<u8>::empty());
    }
}

/// The encodings of a list of moves, laid one after the other behind
/// `before`, decode from there to that list, and to the end of the buffer
/// without a failure.
pub proof fn lemma_decode_of_program(before: Seq<u8>, instructions: Seq<Instruction>)
    requires
        forall|i: int| 0 <= i < instructions.len() ==> is_move_form(#[trigger] instructions[i]),
    ensures
        decoded_from(before + program_encoding(instructions), before.len()) == instructions,
        first_failure(before + program_encoding(instructions), before.len()) is None,
    decreases instructions.len(),
{
    let bytes = before + program_encoding(instructions);
    if instructions.len() == 0 {
        assert(decoded_from(bytes, before.len()) == instructions);
    } else {
        let first = instructions.first();
        let rest = instructions.drop_first();
        let code = encoding(first);
        assert(is_move_form(first));
        assert(code.len() >= 2);
        assert(bytes.subrange(before.len() as int, before.len() + code.len() as int) == code);
        lemma_decode_of_encoding(bytes, before.len(), first);
        assert forall|i: int| 0 <= i < rest.len() implies is_move_form(#[trigger] rest[i]) by {
            assert(rest[i] == instructions[i + 1]);
        }
        lemma_decode_of_program(before + code, rest);
        assert(before + code + program_encoding(rest) == bytes);
        assert(seq![first] + rest == instructions);
    }
}

/// Encodes an instruction, if it is one of the moves that have an
/// encoding.
pub fn encode(instruction: &Instruction) -> (encoded: Option<Vec<u8>>)
    ensures
        match encoded {
            Some(bytes) => is_move_form(*instruction) && bytes@ == encoding(*instruction),
            None => !is_move_form(*instruction),
        },
{
    match (instruction.destination, instruction.source) {
        (Operand::Register(to), Operand::Immediate { value, width }) => {
            if to.code >= 8 || to.width != width {
                return None;
            }
            let opcode = 0b1011_0000 + 8 * width.bit() + to.code;
            let mut bytes: Vec<u8> = Vec::new();
            bytes.push(opcode);
            match width {
                Width::Byte => {
                    if value >= 256 {
                        return None;
                    }
                    bytes.push(value as u8);
                },
                Width::Word => {
                    push_word(&mut bytes, value);
                },
            }
            assert(bytes@ =~= encoding(*instruction));
            Some(bytes)
        },
        (Operand::Register(to), Operand::Register(from)) => {
            if to.code >= 8 || from.code >= 8 || to.width != from.width {
                return None;
            }
            let mut bytes: Vec<u8> = Vec::new();
            bytes.push(0b1000_1000 + from.width.bit());
            bytes.push(64 * 3 + 8 * from.code + to.code);
            assert(bytes@ =~= encoding(*instruction));
            Some(bytes)
        },
        (Operand::Register(to), Operand::Memory(address)) => {
            if to.code >= 8 {
                return None;
            }
            let mut bytes: Vec<u8> = Vec::new();
            bytes.push(0b1000_1010 + to.width.bit());
            if !push_mode_and_address(&mut bytes, to.code, address) {
                return None;
            }
            Some(bytes)
        },
        (Operand::Memory(address), Operand::Register(from)) => {
            if from.code >= 8 {
                return None;
            }
            let mut bytes: Vec<u8> = Vec::new();
            bytes.push(0b1000_1000 + from.width.bit());
            if !push_mode_and_address(&mut bytes, from.code, address) {
                return None;
            }
            Some(bytes)
        },
        _ => None,
    }
}

/// Appends the two bytes of `word` to `bytes`, low byte first.
fn push_word(bytes: &mut Vec<u8>, word: u16)
    ensures
        final(bytes)@ == old(bytes)@ + word_bytes(word),
{
    bytes.push((word % 256) as u8);
    bytes.push((word / 256) as u8);
    assert(bytes@ =~= old(bytes)@ + word_bytes(word));
}

/// Appends the mode byte of a memory operand beside the register code
/// `reg`, and the bytes of the operand. Appends nothing and says so where
/// the operand has no encoding.
fn push_mode_and_address(bytes: &mut Vec<u8>, reg: u8, address: EffectiveAddress) -> (encodable: bool)
    requires
        reg < 8,
    ensures
        encodable == is_encodable_address(address),
        final(bytes)@ == old(bytes)@ + if encodable {
            seq![mode_byte(address_mode(address), reg, address_code(address))] + address_bytes(
                address,
            )
        } else {
            Seq::<u8>::empty()
        },
{
    match address {
        EffectiveAddress::Direct { address: word } => {
            bytes.push(8 * reg + 6);
            push_word(bytes, word);
        },
        EffectiveAddress::Based { base, displacement } => {
            let rm: u8 = match base {
                Base::BxSi => 0,
                Base::BxDi => 1,
                Base::BpSi => 2,
                Base::BpDi => 3,
                Base::Si => 4,
                Base::Di => 5,
                Base::Bp => 6,
                Base::Bx => 7,
            };
            match displacement {
                Displacement::Absent => {
                    if rm == 6 {
                        assert(bytes@ =~= old(bytes)@ + Seq::<u8>::empty());
                        return false;
                    }
                    bytes.push(8 * reg + rm);
                },
                Displacement::Byte(value) => {
                    assert(value as u8 == unsigned_byte(value)) by (bit_vector);
                    bytes.push(64 + 8 * reg + rm);
                    bytes.push(value as u8);
                },
                Displacement::Word(value) => {
                    assert(value as u16 == unsigned_word(value)) by (bit_vector);
                    bytes.push(128 + 8 * reg + rm);
                    push_word(bytes, value as u16);
                },
            }
        },
    }
    assert(bytes@ =~= old(bytes)@ + (seq![
        mode_byte(address_mode(address), reg, address_code(address)),
    ] + address_bytes(address)));
    true
}

} // verus!
