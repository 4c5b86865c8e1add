use disassemble::{Cursor, DecodeError};

#[test]
fn new_cursor_stands_at_the_start() {
    let cursor = Cursor::new(vec![1, 2, 3]);
    assert_eq!(cursor.position(), 0);
    assert_eq!(cursor.remaining(), 3);
}

#[test]
fn next_reads_the_bytes_in_order() {
    let mut cursor = Cursor::new(vec![0x89, 0xd9]);
    assert_eq!(cursor.next(), Ok(0x89));
    assert_eq!(cursor.position(), 1);
    assert_eq!(cursor.remaining(), 1);
    assert_eq!(cursor.next(), Ok(0xd9));
    assert_eq!(cursor.position(), 2);
    assert_eq!(cursor.remaining(), 0);
}

#[test]
fn next_at_the_end_fails_and_stays() {
    let mut cursor = Cursor::new(vec![7]);
    assert_eq!(cursor.next(), Ok(7));
    assert_eq!(cursor.next(), Err(DecodeError::UnexpectedEnd { offset: 1 }));
    assert_eq!(cursor.next(), Err(DecodeError::UnexpectedEnd { offset: 1 }));
    assert_eq!(cursor.position(), 1);
}

#[test]
fn next_on_an_empty_buffer_fails() {
    let mut cursor = Cursor::new(Vec::new());
    assert_eq!(cursor.remaining(), 0);
    assert_eq!(cursor.next(), Err(DecodeError::UnexpectedEnd { offset: 0 }));
    assert_eq!(cursor.position(), 0);
}

#[test]
fn next_word_reads_the_low_byte_first() {
    let mut cursor = Cursor::new(vec![0x87, 0x13, 0xff, 0xff, 0x00, 0x01]);
    assert_eq!(cursor.next_word(), Ok(4999));
    assert_eq!(cursor.position(), 2);
    assert_eq!(cursor.next_word(), Ok(65535));
    assert_eq!(cursor.next_word(), Ok(256));
    assert_eq!(cursor.remaining(), 0);
}

#[test]
fn next_word_with_one_byte_left_reads_nothing() {
    let mut cursor = Cursor::new(vec![1, 2, 3]);
    assert_eq!(cursor.next_word(), Ok(0x0201));
    assert_eq!(cursor.next_word(), Err(DecodeError::UnexpectedEnd { offset: 3 }));
    assert_eq!(cursor.position(), 2);
    assert_eq!(cursor.next(), Ok(3));
}
