use disassemble::{disassemble, DecodeError};

fn listing_of(bytes: &[u8]) -> (String, Result<(), DecodeError>) {
    let mut text = String::new();
    let outcome = disassemble(bytes.to_vec(), &mut text);
    (text, outcome)
}

const SINGLE_REGISTER_MOV: [u8; 2] = [0x89, 0xd9];

const MANY_REGISTER_MOV: [u8; 22] = [
    0x89, 0xd9, 0x88, 0xe5, 0x89, 0xda, 0x89, 0xde, 0x89, 0xfb, 0x88, 0xc8, 0x88, 0xed, 0x89,
    0xc3, 0x89, 0xf3, 0x89, 0xfc, 0x89, 0xc5,
];

const MORE_MOVS: [u8; 41] = [
    0x89, 0xde, 0x88, 0xc6, 0xb1, 0x0c, 0xb5, 0xf4, 0xb9, 0x0c, 0x00, 0xb9, 0xf4, 0xff, 0xba,
    0x6c, 0x0f, 0xba, 0x94, 0xf0, 0x8a, 0x00, 0x8b, 0x1b, 0x8b, 0x56, 0x00, 0x8a, 0x60, 0x04,
    0x8a, 0x80, 0x87, 0x13, 0x89, 0x09, 0x88, 0x0a, 0x88, 0x6e, 0x00,
];

#[test]
fn it_disassembles_single_register_mov() {
    let (text, outcome) = listing_of(&SINGLE_REGISTER_MOV);
    assert_eq!(outcome, Ok(()));
    assert_eq!(text, "bits 16\n\nmov cx, bx\n");
}

#[test]
fn it_disassembles_many_register_mov() {
    let (text, outcome) = listing_of(&MANY_REGISTER_MOV);
    assert_eq!(outcome, Ok(()));
    assert_eq!(
        text,
        "bits 16\n\n\
         mov cx, bx\n\
         mov ch, ah\n\
         mov dx, bx\n\
         mov si, bx\n\
         mov bx, di\n\
         mov al, cl\n\
         mov ch, ch\n\
         mov bx, ax\n\
         mov bx, si\n\
         mov sp, di\n\
         mov bp, ax\n"
    );
}

#[test]
fn it_disassembles_more_movs() {
    let (text, outcome) = listing_of(&MORE_MOVS);
    assert_eq!(outcome, Ok(()));
    assert_eq!(
        text,
        "bits 16\n\n\
         mov si, bx\n\
         mov dh, al\n\
         mov cl, 12\n\
         mov ch, 244\n\
         mov cx, 12\n\
         mov cx, 65524\n\
         mov dx, 3948\n\
         mov dx, 61588\n\
         mov al, [bx + si]\n\
         mov bx, [bp + di]\n\
         mov dx, [bp]\n\
         mov ah, [bx + si + 4]\n\
         mov al, [bx + si + 4999]\n\
         mov [bx + di], cx\n\
         mov [bp + si], cl\n\
         mov [bp], ch\n"
    );
}

#[test]
fn empty_input_gives_the_header_alone() {
    let (text, outcome) = listing_of(&[]);
    assert_eq!(outcome, Ok(()));
    assert_eq!(text, "bits 16\n\n");
}

#[test]
fn listing_is_appended_to_what_the_buffer_holds() {
    let mut text = String::from("; generated\n");
    let outcome = disassemble(vec![0x88, 0xe0], &mut text);
    assert_eq!(outcome, Ok(()));
    assert_eq!(text, "; generated\nbits 16\n\nmov al, ah\n");
}

#[test]
fn register_to_register_word_move() {
    let (text, outcome) = listing_of(&[0b1000_1001, 0b1101_1001]);
    assert_eq!(outcome, Ok(()));
    assert_eq!(text, "bits 16\n\nmov cx, bx\n");
}

#[test]
fn register_to_register_byte_move() {
    let (text, outcome) = listing_of(&[0b1000_1000, 0b1110_0000]);
    assert_eq!(outcome, Ok(()));
    assert_eq!(text, "bits 16\n\nmov al, ah\n");
}

#[test]
fn immediate_to_register_word_move() {
    let (text, outcome) = listing_of(&[0b1011_1001, 0b0000_1100, 0b0000_0000]);
    assert_eq!(outcome, Ok(()));
    assert_eq!(text, "bits 16\n\nmov cx, 12\n");
}

#[test]
fn memory_to_register_move_with_byte_displacement() {
    let (text, outcome) = listing_of(&[0b1000_1011, 0b0101_0001, 0b0000_0100]);
    assert_eq!(outcome, Ok(()));
    assert_eq!(text, "bits 16\n\nmov dx, [bx + di + 4]\n");
}

#[test]
fn register_to_memory_move_without_displacement() {
    let (text, outcome) = listing_of(&[0b1000_1000, 0b0000_0000]);
    assert_eq!(outcome, Ok(()));
    assert_eq!(text, "bits 16\n\nmov [bx + si], al\n");
}

#[test]
fn direction_bit_makes_the_register_the_destination() {
    let (text, outcome) = listing_of(&[0b1000_1010, 0b0000_0000]);
    assert_eq!(outcome, Ok(()));
    assert_eq!(text, "bits 16\n\nmov al, [bx + si]\n");
}

#[test]
fn unsupported_opcode_ends_the_run() {
    let (text, outcome) = listing_of(&[0b1100_0000]);
    assert_eq!(outcome, Err(DecodeError::UnsupportedOpcode { byte: 0b1100_0000, offset: 0 }));
    assert_eq!(text, "bits 16\n\n");
}

#[test]
fn unsupported_opcode_keeps_the_lines_before_it() {
    let (text, outcome) = listing_of(&[0x89, 0xd9, 0xb1, 0x0c, 0xc0, 0x89, 0xd9]);
    assert_eq!(outcome, Err(DecodeError::UnsupportedOpcode { byte: 0xc0, offset: 4 }));
    assert_eq!(text, "bits 16\n\nmov cx, bx\nmov cl, 12\n");
}

#[test]
fn truncated_instruction_ends_the_run() {
    let (text, outcome) = listing_of(&[0x89, 0xd9, 0x8a, 0x80, 0x87]);
    assert_eq!(outcome, Err(DecodeError::UnexpectedEnd { offset: 5 }));
    assert_eq!(text, "bits 16\n\nmov cx, bx\n");
}

#[test]
fn opcode_without_a_mode_byte_ends_the_run() {
    let (text, outcome) = listing_of(&[0x89]);
    assert_eq!(outcome, Err(DecodeError::UnexpectedEnd { offset: 1 }));
    assert_eq!(text, "bits 16\n\n");
}

#[test]
fn direct_address_is_a_bare_number_in_brackets() {
    let (text, outcome) = listing_of(&[0x8b, 0x1e, 0x82, 0x0d, 0x88, 0x06, 0xff, 0xff]);
    assert_eq!(outcome, Ok(()));
    assert_eq!(text, "bits 16\n\nmov bx, [3458]\nmov [65535], al\n");
}

#[test]
fn negative_displacements_carry_a_minus_sign() {
    let (text, outcome) =
        listing_of(&[0x8b, 0x41, 0xdb, 0x89, 0x8c, 0xd4, 0xfe, 0x8b, 0x57, 0xe0, 0x8a, 0x40, 0x80]);
    assert_eq!(outcome, Ok(()));
    assert_eq!(
        text,
        "bits 16\n\n\
         mov ax, [bx + di - 37]\n\
         mov [si - 300], cx\n\
         mov dx, [bx - 32]\n\
         mov al, [bx + si - 128]\n"
    );
}

#[test]
fn word_displacement_limits() {
    let (text, outcome) = listing_of(&[0x8b, 0x80, 0xff, 0x7f, 0x8b, 0x80, 0x00, 0x80]);
    assert_eq!(outcome, Ok(()));
    assert_eq!(text, "bits 16\n\nmov ax, [bx + si + 32767]\nmov ax, [bx + si - 32768]\n");
}

#[test]
fn zero_displacement_is_left_out_at_every_width() {
    let (text, outcome) = listing_of(&[0x8a, 0x07, 0x8a, 0x47, 0x00, 0x8a, 0x87, 0x00, 0x00]);
    assert_eq!(outcome, Ok(()));
    assert_eq!(text, "bits 16\n\nmov al, [bx]\nmov al, [bx]\nmov al, [bx]\n");
}
