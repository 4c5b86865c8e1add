//! The whole run: from a buffer of machine code to a listing.
use vstd::prelude::*;
use vstd::string::StringExecFns;
use crate::cursor::Cursor;
use crate::decoder::{decode_at, decode_instruction};
use crate::error::DecodeError;
use crate::instruction::Instruction;
use crate::render::{instruction_text, render};

verus! {

/// The instructions of `bytes` from `pos` on, in order, up to the end of
/// the buffer or to the first instruction that cannot be decoded.
pub open spec fn decoded_from(bytes: Seq<u8>, pos: nat) -> Seq<Instruction>
    decreases bytes.len() - pos,
{
    let step = decode_at(bytes, pos);
    if pos >= bytes.len() {
        Seq::empty()
    } else {
        match step.outcome {
            Ok(instruction) => seq![instruction] + decoded_from(bytes, step.next),
            Err(_) => Seq::empty(),
        }
    }
}

/// The failure of the first instruction of `bytes` from `pos` on that
/// cannot be decoded, if there is one.
pub open spec fn first_failure(bytes: Seq<u8>, pos: nat) -> Option<DecodeError>
    decreases bytes.len() - pos,
{
    let step = decode_at(bytes, pos);
    if pos >= bytes.len() {
        None
    } else {
        match step.outcome {
            Ok(_) => first_failure(bytes, step.next),
            Err(error) => Some(error),
        }
    }
}

/// The two lines that open a listing: the operating mode, and a blank
/// line.
pub open spec fn header_text() -> Seq<char> {
    "bits 16\n\n"@
}

/// The lines of `instructions`, each closed by a line end.
pub open spec fn lines_text(instructions: Seq<Instruction>) -> Seq<char>
    decreases instructions.len(),
{
    if instructions.len() == 0 {
        Seq::empty()
    } else {
        lines_text(instructions.drop_last()) + instruction_text(instructions.last()) + "\n"@
    }
}

/// The listing of `instructions`: the header, then one line for each.
pub open spec fn listing_text(instructions: Seq<Instruction>) -> Seq<char> {
    header_text() + lines_text(instructions)
}

/// A decoded instruction takes at least one byte and ends within the
/// buffer.
pub proof fn lemma_decode_advances(bytes: Seq<u8>, pos: nat)
    requires
        decode_at(bytes, pos).outcome is Ok,
    ensures
        pos < decode_at(bytes, pos).next <= bytes.len(),
{
}

/// One step of a run: after an instruction that decodes, the run goes on
/// behind it; at one that does not, it ends with that failure.
pub proof fn lemma_run_step(bytes: Seq<u8>, pos: nat)
    requires
        pos < bytes.len(),
    ensures
        match decode_at(bytes, pos).outcome {
            Ok(instruction) => {
                &&& decoded_from(bytes, pos) == seq![instruction] + decoded_from(
                    bytes,
                    decode_at(bytes, pos).next,
                )
                &&& first_failure(bytes, pos) == first_failure(bytes, decode_at(bytes, pos).next)
            },
            Err(error) => {
                &&& decoded_from(bytes, pos) == Seq::<Instruction>::empty()
                &&& first_failure(bytes, pos) == Some(error)
            },
        },
{
}

/// The lines of a list that grew by one instruction are the lines of the
/// list, then the line of that instruction.
pub proof fn lemma_lines_push(instructions: Seq<Instruction>, instruction: Instruction)
    ensures
        lines_text(instructions.push(instruction)) == lines_text(instructions) + instruction_text(
            instruction,
        ) + "\n"@,
{
    assert(instructions.push(instruction).drop_last() == instructions);
}

/// Decodes `bytes` from its first byte to its last and appends the listing
/// to `out`: the header, then one line for each instruction, in order.
///
/// The run ends at the first instruction that cannot be decoded, with its
/// failure. `out` then holds the header and the lines of the instructions
/// before it, and nothing of the one that failed.
pub fn disassemble(bytes: Vec<u8>, out: &mut String) -> (outcome: Result<(), DecodeError>)
    ensures
        final(out)@ == old(out)@ + listing_text(decoded_from(bytes@, 0)),
        outcome == match first_failure(bytes@, 0) {
            Some(error) => Err::<(), DecodeError>(error),
            None => Ok(()),
        },
{
    let ghost source = bytes@;
    let ghost before = out@;
    let ghost mut done: Seq<Instruction> = Seq::empty();
    let mut cursor = Cursor::new(bytes);
    out.append("bits 16\n\n");
    assert(out@ == before + listing_text(done));
    assert(decoded_from(source, 0) == done + decoded_from(source, 0));
    while cursor.remaining() > 0
        invariant
            source == bytes@,
            before == old(out)@,
            cursor@.bytes == source,
            cursor@.position <= source.len(),
            decoded_from(source, 0) == done + decoded_from(source, cursor@.position),
            first_failure(source, 0) == first_failure(source, cursor@.position),
            out@ == before + header_text() + lines_text(done),
        decreases source.len() - cursor@.position,
    {
        let ghost pos = cursor@.position;
        let ghost text = out@;
        let ghost rest = decoded_from(source, pos);
        proof {
            lemma_run_step(source, pos);
        }
        match decode_instruction(&mut cursor) {
            Ok(instruction) => {
                let line = render(&instruction);
                out.append(line.as_str());
                out.append("\n");
                proof {
                    lemma_decode_advances(source, pos);
                    lemma_lines_push(done, instruction);
                    let tail = decoded_from(source, cursor@.position);
                    assert(rest == seq![instruction] + tail);
                    assert(done + (seq![instruction] + tail) == done.push(instruction) + tail);
                    assert(out@ == text + instruction_text(instruction) + "\n"@);
                    assert(out@ == before + header_text() + lines_text(done.push(instruction)));
                    done = done.push(instruction);
                }
            },
            Err(error) => {
                proof {
                    assert(rest == Seq::<Instruction>::empty());
                    assert(done + rest == done);
                }
                return Err(error);
            },
        }
    }
    proof {
        assert(done + Seq::<Instruction>::empty() == done);
    }
    Ok(())
}

} // verus!
