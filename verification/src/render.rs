//! The line emitter: from an instruction to its line of assembly text.
use vstd::prelude::*;
use vstd::string::StringExecFns;
use crate::decimal::{decimal, is_digit, lemma_decimal, push_decimal};
use crate::instruction::{Base, Displacement, EffectiveAddress, Instruction, Mnemonic, Operand};

verus! {

/// The text of the base registers of an address.
pub open spec fn base_text(base: Base) -> Seq<char> {
    match base {
        Base::BxSi => "bx + si"@,
        Base::BxDi => "bx + di"@,
        Base::BpSi => "bp + si"@,
        Base::BpDi => "bp + di"@,
        Base::Si => "si"@,
        Base::Di => "di"@,
        Base::Bp => "bp"@,
        Base::Bx => "bx"@,
    }
}

/// The text of a displacement after a base: nothing for zero, and else a
/// plus or minus sign between spaces and the size of the offset.
pub open spec fn displacement_text(displacement: Displacement) -> Seq<char> {
    let offset = displacement.value();
    if offset == 0 {
        Seq::empty()
    } else if offset > 0 {
        " + "@ + decimal(offset as nat)
    } else {
        " - "@ + decimal((-offset) as nat)
    }
}

/// The text of a memory operand: in brackets, the base with its
/// displacement, or the bare number of a direct address.
pub open spec fn address_text(address: EffectiveAddress) -> Seq<char> {
    match address {
        EffectiveAddress::Based { base, displacement } => "["@ + base_text(base)
            + displacement_text(displacement) + "]"@,
        EffectiveAddress::Direct { address } => "["@ + decimal(address as nat) + "]"@,
    }
}

/// The text of an operand: the name of a register, the bracketed address
/// of a memory operand, or the decimal value of an immediate.
pub open spec fn operand_text(operand: Operand) -> Seq<char> {
    match operand {
        Operand::Register(register) => register.text(),
        Operand::Memory(address) => address_text(address),
        Operand::Immediate { value, width } => decimal(value as nat),
    }
}

/// The text of a mnemonic.
pub open spec fn mnemonic_text(mnemonic: Mnemonic) -> Seq<char> {
    match mnemonic {
        Mnemonic::Mov => "mov"@,
    }
}

/// The line of an instruction: the mnemonic, a space, the destination, a
/// comma and a space, the source.
pub open spec fn instruction_text(instruction: Instruction) -> Seq<char> {
    mnemonic_text(instruction.mnemonic) + " "@ + operand_text(instruction.destination) + ", "@
        + operand_text(instruction.source)
}

/// The text of the base registers of an address.
pub fn base_str(base: Base) -> (text: &'static str)
    ensures
        text@ == base_text(base),
{
    match base {
        Base::BxSi => "bx + si",
        Base::BxDi => "bx + di",
        Base::BpSi => "bp + si",
        Base::BpDi => "bp + di",
        Base::Si => "si",
        Base::Di => "di",
        Base::Bp => "bp",
        Base::Bx => "bx",
    }
}

/// Appends the text of a memory operand to `out`.
pub fn push_address(out: &mut String, address: EffectiveAddress)
    ensures
        final(out)@ == old(out)@ + address_text(address),
{
    out.append("[");
    match address {
        EffectiveAddress::Based { base, displacement } => {
            out.append(base_str(base));
            let offset = displacement.value();
            if offset > 0 {
                out.append(" + ");
                push_decimal(out, offset as u64);
            } else if offset < 0 {
                out.append(" - ");
                push_decimal(out, (-(offset as i32)) as u64);
            }
        },
        EffectiveAddress::Direct { address } => {
            push_decimal(out, address as u64);
        },
    }
    out.append("]");
}

/// Appends the text of an operand to `out`.
pub fn push_operand(out: &mut String, operand: Operand)
    requires
        operand.wf(),
    ensures
        final(out)@ == old(out)@ + operand_text(operand),
{
    match operand {
        Operand::Register(register) => {
            out.append(register.name());
        },
        Operand::Memory(address) => {
            push_address(out, address);
        },
        Operand::Immediate { value, width } => {
            push_decimal(out, value as u64);
        },
    }
}

/// Renders an instruction as its line of assembly text, without a line
/// end.
pub fn render(instruction: &Instruction) -> (line: String)
    requires
        instruction.wf(),
    ensures
        line@ == instruction_text(*instruction),
{
    let mut line = String::new();
    match instruction.mnemonic {
        Mnemonic::Mov => {
            line.append("mov");
        },
    }
    line.append(" ");
    push_operand(&mut line, instruction.destination);
    line.append(", ");
    push_operand(&mut line, instruction.source);
    line
}

/// A displacement of zero adds no term: at every width the operand is
/// the base alone in brackets.
pub proof fn lemma_zero_displacement_is_omitted(base: Base, displacement: Displacement)
    requires
        displacement.value() == 0,
    ensures
        address_text(EffectiveAddress::Based { base, displacement }) == "["@ + base_text(base)
            + "]"@,
{
    assert(base_text(base) + Seq::<char>::empty() == base_text(base));
}

/// A displacement other than zero adds a term with its sign: after the
/// base come a space, a plus sign for an offset above zero or a minus sign
/// for one below, a space, and the size of the offset in digits that do
/// not start with a zero.
pub proof fn lemma_displacement_has_sign(base: Base, displacement: Displacement)
    requires
        displacement.value() != 0,
    ensures
        ({
            let offset = displacement.value();
            let sign = if offset > 0 {
                '+'
            } else {
                '-'
            };
            let size = if offset > 0 {
                offset as nat
            } else {
                (-offset) as nat
            };
            &&& address_text(EffectiveAddress::Based { base, displacement }) == "["@ + base_text(
                base,
            ) + seq![' ', sign, ' '] + decimal(size) + "]"@
            &&& decimal(size).len() >= 1
            &&& forall|i: int| 0 <= i < decimal(size).len() ==> is_digit(#[trigger] decimal(size)[i])
            &&& decimal(size)[0] != '0'
        }),
{
    let offset = displacement.value();
    let size = if offset > 0 {
        offset as nat
    } else {
        (-offset) as nat
    };
    reveal_strlit(" + ");
    reveal_strlit(" - ");
    lemma_decimal(size);
    assert(" + "@ == seq![' ', '+', ' ']);
    assert(" - "@ == seq![' ', '-', ' ']);
    let sign = if offset > 0 {
        '+'
    } else {
        '-'
    };
    assert("["@ + base_text(base) + (seq![' ', sign, ' '] + decimal(size)) == "["@ + base_text(base)
        + seq![' ', sign, ' '] + decimal(size));
}

/// A direct address is rendered as its number alone in brackets: between
/// the brackets stand digits and nothing else.
pub proof fn lemma_direct_address_text(address: u16)
    ensures
        ({
            let text = address_text(EffectiveAddress::Direct { address });
            &&& text == "["@ + decimal(address as nat) + "]"@
            &&& text.len() == decimal(address as nat).len() + 2
            &&& text.first() == '['
            &&& text.last() == ']'
            &&& forall|i: int| 0 < i < text.len() - 1 ==> is_digit(#[trigger] text[i])
        }),
{
    let digits = decimal(address as nat);
    let text = address_text(EffectiveAddress::Direct { address });
    reveal_strlit("[");
    reveal_strlit("]");
    lemma_decimal(address as nat);
    assert forall|i: int| 0 < i < text.len() - 1 implies is_digit(#[trigger] text[i]) by {
        assert(text[i] == digits[i - 1]);
    }
}

} // verus!
