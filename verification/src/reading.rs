//! What a line of text tells of the instruction that it was rendered from.
use vstd::prelude::*;
use crate::decimal::{decimal, is_digit, lemma_decimal, lemma_decimal_unique};
use crate::encoding::is_move_form;
use crate::instruction::{Base, Displacement, EffectiveAddress, Instruction, Operand};
use crate::register::{lemma_register_name_unique, reveal_register_names};
use crate::render::{
    address_text, base_text, displacement_text, instruction_text, mnemonic_text, operand_text,
};

verus! {

/// Whether two operands are the same but for the width at which a
/// displacement is kept.
pub open spec fn same_operand(first: Operand, second: Operand) -> bool {
    match (first, second) {
        (
            Operand::Memory(EffectiveAddress::Based { base: one, displacement: by }),
            Operand::Memory(EffectiveAddress::Based { base: other, displacement: other_by }),
        ) => one == other && by.value() == other_by.value(),
        _ => first == second,
    }
}

/// Whether two operands are the same but for the width at which a
/// displacement or an immediate value is kept: what the text of an
/// operand alone can tell.
spec fn reads_alike(first: Operand, second: Operand) -> bool {
    match (first, second) {
        (
            Operand::Immediate { value: one, .. },
            Operand::Immediate { value: other, .. },
        ) => one == other,
        _ => same_operand(first, second),
    }
}

/// The letters of the eight bases.
proof fn reveal_base_texts()
    ensures
        "bx + si"@ == seq!['b', 'x', ' ', '+', ' ', 's', 'i'],
        "bx + di"@ == seq!['b', 'x', ' ', '+', ' ', 'd', 'i'],
        "bp + si"@ == seq!['b', 'p', ' ', '+', ' ', 's', 'i'],
        "bp + di"@ == seq!['b', 'p', ' ', '+', ' ', 'd', 'i'],
        "si"@ == seq!['s', 'i'],
        "di"@ == seq!['d', 'i'],
        "bp"@ == seq!['b', 'p'],
        "bx"@ == seq!['b', 'x'],
{
    reveal_strlit("bx + si");
    reveal_strlit("bx + di");
    reveal_strlit("bp + si");
    reveal_strlit("bp + di");
    reveal_strlit("si");
    reveal_strlit("di");
    reveal_strlit("bp");
    reveal_strlit("bx");
}

/// The text of a displacement is empty, or a space, a sign, a space and
/// digits.
proof fn lemma_displacement_shape(displacement: Displacement)
    ensures
        ({
            let text = displacement_text(displacement);
            let offset = displacement.value();
            if offset == 0 {
                text.len() == 0
            } else {
                &&& text.len() >= 4
                &&& text[0] == ' '
                &&& text[1] == if offset > 0 {
                    '+'
                } else {
                    '-'
                }
                &&& text[2] == ' '
                &&& forall|i: int| 3 <= i < text.len() ==> is_digit(#[trigger] text[i])
                &&& text.skip(3) == decimal(
                    if offset > 0 {
                        offset as nat
                    } else {
                        (-offset) as nat
                    },
                )
            }
        }),
{
    let text = displacement_text(displacement);
    let offset = displacement.value();
    if offset != 0 {
        let size = if offset > 0 {
            offset as nat
        } else {
            (-offset) as nat
        };
        reveal_strlit(" + ");
        reveal_strlit(" - ");
        lemma_decimal(size);
        assert(text.skip(3) =~= decimal(size));
        assert forall|i: int| 3 <= i < text.len() implies is_digit(#[trigger] text[i]) by {
            assert(text[i] == decimal(size)[i - 3]);
        }
    }
}

/// Two displacements with the same text are the same offset.
proof fn lemma_displacement_text_unique(first: Displacement, second: Displacement)
    requires
        displacement_text(first) == displacement_text(second),
    ensures
        first.value() == second.value(),
{
    lemma_displacement_shape(first);
    lemma_displacement_shape(second);
    let one = first.value();
    let other = second.value();
    if one != 0 && other != 0 {
        let size = if one > 0 {
            one as nat
        } else {
            (-one) as nat
        };
        let other_size = if other > 0 {
            other as nat
        } else {
            (-other) as nat
        };
        lemma_decimal_unique(size, other_size);
    }
}

/// Whether the text of a base names two registers.
pub open spec fn is_pair(base: Base) -> bool {
    base is BxSi || base is BxDi || base is BpSi || base is BpDi
}

/// The text of a base is two letters for one register, and seven
/// characters for two: the letters of each around a plus sign.
proof fn lemma_base_shape(base: Base)
    ensures
        base_text(base).len() == if is_pair(base) {
            7nat
        } else {
            2nat
        },
        !is_digit(base_text(base)[0]),
        is_pair(base) ==> !is_digit(base_text(base)[5]),
{
    reveal_base_texts();
}

/// Two bases with the same text are the same base.
proof fn lemma_base_text_unique(first: Base, second: Base)
    requires
        base_text(first) == base_text(second),
    ensures
        first == second,
{
    reveal_base_texts();
    let one = base_text(first);
    let other = base_text(second);
    assert(one.len() == other.len());
    assert(one[0] == other[0] && one[1] == other[1]);
    if is_pair(first) {
        assert(one[5] == other[5]);
    }
}

/// A base and its displacement are read back from their text: two memory
/// operands with the same text between the brackets have the same base and
/// the same offset.
proof fn lemma_based_text_unique(
    first: Base,
    by: Displacement,
    second: Base,
    other_by: Displacement,
)
    requires
        base_text(first) + displacement_text(by) == base_text(second) + displacement_text(
            other_by,
        ),
    ensures
        first == second,
        by.value() == other_by.value(),
{
    let head = base_text(first);
    let tail = displacement_text(by);
    let other_head = base_text(second);
    let other_tail = displacement_text(other_by);
    let text = head + tail;
    lemma_base_shape(first);
    lemma_base_shape(second);
    lemma_displacement_shape(by);
    lemma_displacement_shape(other_by);
    assert(text.len() == head.len() + tail.len());
    assert(text.len() == other_head.len() + other_tail.len());
    if is_pair(first) && !is_pair(second) {
        assert(text[5] == head[5]);
        assert(text[5] == other_tail[3]);
    }
    if !is_pair(first) && is_pair(second) {
        assert(text[5] == other_head[5]);
        assert(text[5] == tail[3]);
    }
    assert(head.len() == other_head.len());
    assert(head == text.subrange(0, head.len() as int));
    assert(other_head == text.subrange(0, head.len() as int));
    assert(tail == text.skip(head.len() as int));
    assert(other_tail == text.skip(head.len() as int));
    lemma_base_text_unique(first, second);
    lemma_displacement_text_unique(by, other_by);
}

/// Two memory operands with the same text are the same location: both
/// direct at one address, or both at one base with one offset.
proof fn lemma_address_text_unique(first: EffectiveAddress, second: EffectiveAddress)
    requires
        address_text(first) == address_text(second),
    ensures
        same_operand(Operand::Memory(first), Operand::Memory(second)),
{
    reveal_strlit("[");
    reveal_strlit("]");
    let inside = |address: EffectiveAddress|
        match address {
            EffectiveAddress::Based { base, displacement } => base_text(base) + displacement_text(
                displacement,
            ),
            EffectiveAddress::Direct { address } => decimal(address as nat),
        };
    let one = inside(first);
    let other = inside(second);
    let text = address_text(first);
    assert(text == "["@ + one + "]"@);
    assert(text == "["@ + other + "]"@);
    assert(one.len() == other.len());
    assert(one == text.subrange(1, 1 + one.len() as int));
    assert(other == text.subrange(1, 1 + one.len() as int));
    match first {
        EffectiveAddress::Based { base, displacement } => {
            lemma_base_shape(base);
            assert(one[0] == base_text(base)[0]);
        },
        EffectiveAddress::Direct { address } => {
            lemma_decimal(address as nat);
        },
    }
    match second {
        EffectiveAddress::Based { base, displacement } => {
            lemma_base_shape(base);
            assert(other[0] == base_text(base)[0]);
        },
        EffectiveAddress::Direct { address } => {
            lemma_decimal(address as nat);
        },
    }
    match (first, second) {
        (
            EffectiveAddress::Based { base, displacement },
            EffectiveAddress::Based { base: other_base, displacement: other_displacement },
        ) => {
            lemma_based_text_unique(base, displacement, other_base, other_displacement);
        },
        (
            EffectiveAddress::Direct { address },
            EffectiveAddress::Direct { address: other_address },
        ) => {
            lemma_decimal_unique(address as nat, other_address as nat);
        },
        _ => {},
    }
}

/// The first character of the text of an operand tells its kind: a
/// bracket for memory, a digit for an immediate, a letter for a register.
/// No operand has a comma in its text.
proof fn lemma_operand_shape(operand: Operand)
    requires
        operand.wf(),
    ensures
        operand_text(operand).len() >= 1,
        (operand is Memory) == (operand_text(operand)[0] == '['),
        (operand is Immediate) == is_digit(operand_text(operand)[0]),
        forall|i: int| 0 <= i < operand_text(operand).len() ==> operand_text(operand)[i] != ',',
{
    let text = operand_text(operand);
    match operand {
        Operand::Register(register) => {
            reveal_register_names();
        },
        Operand::Memory(EffectiveAddress::Direct { address }) => {
            reveal_strlit("[");
            reveal_strlit("]");
            lemma_decimal(address as nat);
            let digits = decimal(address as nat);
            assert forall|i: int| 0 <= i < text.len() implies text[i] != ',' by {
                if 1 <= i <= digits.len() {
                    assert(text[i] == digits[i - 1]);
                }
            }
        },
        Operand::Memory(EffectiveAddress::Based { base, displacement }) => {
            reveal_strlit("[");
            reveal_strlit("]");
            reveal_base_texts();
            lemma_displacement_shape(displacement);
            let head = base_text(base);
            let tail = displacement_text(displacement);
            assert forall|i: int| 0 <= i < text.len() implies text[i] != ',' by {
                if 1 <= i <= head.len() {
                    assert(text[i] == head[i - 1]);
                } else if head.len() < i <= head.len() + tail.len() {
                    assert(text[i] == tail[i - 1 - head.len()]);
                }
            }
        },
        Operand::Immediate { value, width } => {
            lemma_decimal(value as nat);
        },
    }
}

/// Two operands with the same text are the same but for the widths that
/// the text does not show.
proof fn lemma_operand_text_unique(first: Operand, second: Operand)
    requires
        first.wf(),
        second.wf(),
        operand_text(first) == operand_text(second),
    ensures
        reads_alike(first, second),
{
    lemma_operand_shape(first);
    lemma_operand_shape(second);
    match (first, second) {
        (Operand::Register(one), Operand::Register(other)) => {
            lemma_register_name_unique(one.code, one.width.bit(), other.code, other.width.bit());
        },
        (Operand::Memory(one), Operand::Memory(other)) => {
            lemma_address_text_unique(one, other);
        },
        (Operand::Immediate { value, .. }, Operand::Immediate { value: other, .. }) => {
            lemma_decimal_unique(value as nat, other as nat);
        },
        _ => {},
    }
}

/// Two texts with a comma and a space between their halves are equal only
/// if their halves are, where the first halves hold no comma.
proof fn lemma_split_at_comma(
    left: Seq<char>,
    right: Seq<char>,
    other_left: Seq<char>,
    other_right: Seq<char>,
)
    requires
        forall|i: int| 0 <= i < left.len() ==> left[i] != ',',
        forall|i: int| 0 <= i < other_left.len() ==> other_left[i] != ',',
        left + ", "@ + right == other_left + ", "@ + other_right,
    ensures
        left == other_left,
        right == other_right,
{
    reveal_strlit(", ");
    let text = left + ", "@ + right;
    let other_text = other_left + ", "@ + other_right;
    assert(text[left.len() as int] == ',');
    assert(other_text[other_left.len() as int] == ',');
    if left.len() < other_left.len() {
        assert(other_text[left.len() as int] == other_left[left.len() as int]);
    }
    if other_left.len() < left.len() {
        assert(text[other_left.len() as int] == left[other_left.len() as int]);
    }
    assert(left == text.subrange(0, left.len() as int));
    assert(other_left == other_text.subrange(0, left.len() as int));
    assert(right == text.skip(left.len() as int + 2));
    assert(other_right == other_text.skip(left.len() as int + 2));
}

/// The line of a move tells the move: two moves with the same line have
/// the same destination and the same source, but for the width at which a
/// displacement is kept.
pub proof fn lemma_line_determines_move(first: Instruction, second: Instruction)
    requires
        is_move_form(first),
        is_move_form(second),
        instruction_text(first) == instruction_text(second),
    ensures
        first.mnemonic == second.mnemonic,
        same_operand(first.destination, second.destination),
        same_operand(first.source, second.source),
{
    let head = mnemonic_text(first.mnemonic) + " "@;
    let to = operand_text(first.destination);
    let from = operand_text(first.source);
    let other_to = operand_text(second.destination);
    let other_from = operand_text(second.source);
    let line = instruction_text(first);
    assert(line == head + (to + ", "@ + from));
    assert(line == head + (other_to + ", "@ + other_from));
    assert(to + ", "@ + from == line.skip(head.len() as int));
    assert(other_to + ", "@ + other_from == line.skip(head.len() as int));
    lemma_operand_shape(first.destination);
    lemma_operand_shape(second.destination);
    lemma_split_at_comma(to, from, other_to, other_from);
    lemma_operand_text_unique(first.destination, second.destination);
    lemma_operand_text_unique(first.source, second.source);
}

} // verus!
