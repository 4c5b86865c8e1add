use disassemble::decimal::{digit_str, push_binary, push_decimal};
use disassemble::{
    render, Base, DecodeError, Displacement, EffectiveAddress, Instruction, Mnemonic, Operand,
    Register, Width,
};

fn register(code: u8, width: Width) -> Operand {
    Operand::Register(Register { code, width })
}

fn mov(destination: Operand, source: Operand) -> Instruction {
    Instruction { mnemonic: Mnemonic::Mov, destination, source }
}

fn memory(base: Base, displacement: Displacement) -> Operand {
    Operand::Memory(EffectiveAddress::Based { base, displacement })
}

fn decimal_of(n: u64) -> String {
    let mut text = String::new();
    push_decimal(&mut text, n);
    text
}

#[test]
fn digits() {
    let digits: Vec<&str> = (0..10).map(digit_str).collect();
    assert_eq!(digits, vec!["0", "1", "2", "3", "4", "5", "6", "7", "8", "9"]);
}

#[test]
fn decimal_text_of_numbers() {
    assert_eq!(decimal_of(0), "0");
    assert_eq!(decimal_of(7), "7");
    assert_eq!(decimal_of(10), "10");
    assert_eq!(decimal_of(12), "12");
    assert_eq!(decimal_of(4999), "4999");
    assert_eq!(decimal_of(65535), "65535");
    assert_eq!(decimal_of(1_000_000), "1000000");
    assert_eq!(decimal_of(u64::MAX), "18446744073709551615");
}

#[test]
fn decimal_text_is_appended() {
    let mut text = String::from("x = ");
    push_decimal(&mut text, 305);
    assert_eq!(text, "x = 305");
}

#[test]
fn decimal_text_agrees_with_the_standard_library() {
    for n in (0..70_000u64).step_by(7) {
        assert_eq!(decimal_of(n), n.to_string());
    }
}

#[test]
fn binary_text_of_bytes() {
    let mut text = String::new();
    push_binary(&mut text, 0b1100_0000, 8);
    assert_eq!(text, "11000000");
    let mut text = String::new();
    push_binary(&mut text, 0b0000_0101, 8);
    assert_eq!(text, "00000101");
    let mut text = String::new();
    push_binary(&mut text, 0b1010_0101, 3);
    assert_eq!(text, "101");
    let mut text = String::from("b");
    push_binary(&mut text, 0xff, 0);
    assert_eq!(text, "b");
}

#[test]
fn renders_register_operands() {
    assert_eq!(render(&mov(register(1, Width::Word), register(3, Width::Word))), "mov cx, bx");
    assert_eq!(render(&mov(register(0, Width::Byte), register(4, Width::Byte))), "mov al, ah");
}

#[test]
fn renders_immediates_in_decimal() {
    let source = Operand::Immediate { value: 12, width: Width::Word };
    assert_eq!(render(&mov(register(1, Width::Word), source)), "mov cx, 12");
    let source = Operand::Immediate { value: 65524, width: Width::Word };
    assert_eq!(render(&mov(register(1, Width::Word), source)), "mov cx, 65524");
    let source = Operand::Immediate { value: 0, width: Width::Byte };
    assert_eq!(render(&mov(register(7, Width::Byte), source)), "mov bh, 0");
}

#[test]
fn renders_every_base() {
    let texts = [
        (Base::BxSi, "mov ax, [bx + si]"),
        (Base::BxDi, "mov ax, [bx + di]"),
        (Base::BpSi, "mov ax, [bp + si]"),
        (Base::BpDi, "mov ax, [bp + di]"),
        (Base::Si, "mov ax, [si]"),
        (Base::Di, "mov ax, [di]"),
        (Base::Bp, "mov ax, [bp]"),
        (Base::Bx, "mov ax, [bx]"),
    ];
    for (base, text) in texts {
        let source = memory(base, Displacement::Byte(0));
        assert_eq!(render(&mov(register(0, Width::Word), source)), text);
    }
}

#[test]
fn zero_displacement_has_no_term() {
    let to = register(2, Width::Word);
    assert_eq!(render(&mov(to, memory(Base::BxDi, Displacement::Absent))), "mov dx, [bx + di]");
    assert_eq!(render(&mov(to, memory(Base::BxDi, Displacement::Byte(0)))), "mov dx, [bx + di]");
    assert_eq!(render(&mov(to, memory(Base::BxDi, Displacement::Word(0)))), "mov dx, [bx + di]");
}

#[test]
fn positive_displacement_has_a_plus_sign() {
    let to = register(2, Width::Word);
    assert_eq!(render(&mov(to, memory(Base::BxDi, Displacement::Byte(4)))), "mov dx, [bx + di + 4]");
    assert_eq!(render(&mov(to, memory(Base::Bx, Displacement::Byte(127)))), "mov dx, [bx + 127]");
    assert_eq!(render(&mov(to, memory(Base::Si, Displacement::Word(4999)))), "mov dx, [si + 4999]");
    assert_eq!(render(&mov(to, memory(Base::Si, Displacement::Word(32767)))), "mov dx, [si + 32767]");
}

#[test]
fn negative_displacement_has_a_minus_sign() {
    let to = register(0, Width::Word);
    assert_eq!(render(&mov(to, memory(Base::BxDi, Displacement::Byte(-37)))), "mov ax, [bx + di - 37]");
    assert_eq!(render(&mov(to, memory(Base::Bx, Displacement::Byte(-1)))), "mov ax, [bx - 1]");
    assert_eq!(render(&mov(to, memory(Base::Bx, Displacement::Byte(-128)))), "mov ax, [bx - 128]");
    assert_eq!(render(&mov(to, memory(Base::Si, Displacement::Word(-300)))), "mov ax, [si - 300]");
    assert_eq!(render(&mov(to, memory(Base::Si, Displacement::Word(-1)))), "mov ax, [si - 1]");
    assert_eq!(
        render(&mov(to, memory(Base::Bp, Displacement::Word(-32768)))),
        "mov ax, [bp - 32768]"
    );
}

#[test]
fn memory_destination_comes_first() {
    let from = register(1, Width::Word);
    assert_eq!(render(&mov(memory(Base::BxDi, Displacement::Absent), from)), "mov [bx + di], cx");
    assert_eq!(render(&mov(memory(Base::Si, Displacement::Word(-300)), from)), "mov [si - 300], cx");
}

#[test]
fn direct_address_has_no_base() {
    let address = Operand::Memory(EffectiveAddress::Direct { address: 3458 });
    assert_eq!(render(&mov(register(3, Width::Word), address)), "mov bx, [3458]");
    let address = Operand::Memory(EffectiveAddress::Direct { address: 0 });
    assert_eq!(render(&mov(address, register(0, Width::Byte))), "mov [0], al");
    let address = Operand::Memory(EffectiveAddress::Direct { address: 65535 });
    assert_eq!(render(&mov(register(0, Width::Word), address)), "mov ax, [65535]");
}

#[test]
fn failures_are_described() {
    assert_eq!(
        DecodeError::UnexpectedEnd { offset: 41 }.describe(),
        "unexpected end of input at offset 41"
    );
    assert_eq!(
        DecodeError::UnsupportedOpcode { byte: 0b1100_0000, offset: 0 }.describe(),
        "unsupported opcode 11000000 at offset 0"
    );
    assert_eq!(
        DecodeError::UnsupportedOpcode { byte: 0b0000_0110, offset: 1234 }.describe(),
        "unsupported opcode 00000110 at offset 1234"
    );
    assert_eq!(
        DecodeError::MalformedModRm { mode: 3, rm: 1 }.describe(),
        "malformed addressing mode 3 with register-or-memory code 1"
    );
}

#[test]
fn lines_differ_unless_only_the_displacement_width_does() {
    let bases = [
        Base::BxSi,
        Base::BxDi,
        Base::BpSi,
        Base::BpDi,
        Base::Si,
        Base::Di,
        Base::Bp,
        Base::Bx,
    ];
    let displacements = [
        Displacement::Absent,
        Displacement::Byte(0),
        Displacement::Byte(1),
        Displacement::Byte(-1),
        Displacement::Byte(51),
        Displacement::Word(0),
        Displacement::Word(1),
        Displacement::Word(-1),
        Displacement::Word(5),
        Displacement::Word(51),
        Displacement::Word(-300),
    ];
    let mut places = Vec::new();
    for base in bases {
        for displacement in displacements {
            places.push((memory(base, displacement), Some((base, displacement.value()))));
        }
    }
    for address in [0u16, 1, 5, 51, 300] {
        places.push((Operand::Memory(EffectiveAddress::Direct { address }), None));
    }
    let mut moves = Vec::new();
    for width in [Width::Byte, Width::Word] {
        for code in 0..8u8 {
            let this = register(code, width);
            for other in 0..8u8 {
                moves.push((mov(this, register(other, width)), None, None));
            }
            for value in [0u16, 1, 5, 51, 255] {
                moves.push((mov(this, Operand::Immediate { value, width }), None, None));
            }
            for (place, key) in &places {
                moves.push((mov(this, *place), None, *key));
                moves.push((mov(*place, this), *key, None));
            }
        }
    }
    let lines: Vec<String> = moves.iter().map(|(instruction, _, _)| render(instruction)).collect();
    for (i, (first, to, from)) in moves.iter().enumerate() {
        for (j, (second, other_to, other_from)) in moves.iter().enumerate().skip(i + 1) {
            let same = |one: Operand, key: &Option<(Base, i16)>, other: Operand, other_key: &Option<(Base, i16)>| {
                match (key, other_key) {
                    (Some(key), Some(other_key)) => key == other_key,
                    _ => one == other,
                }
            };
            let alike = same(first.destination, to, second.destination, other_to)
                && same(first.source, from, second.source, other_from);
            assert_eq!(lines[i] == lines[j], alike, "{} and {}", lines[i], lines[j]);
        }
    }
}
