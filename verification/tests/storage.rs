use editor::{ByteIndex, BytePosition, Storage};

#[test]
fn from_empty_lines() {
    let storage = Storage::from_lines(vec![]);
    assert_eq!(storage.iter_lines(), &vec![Vec::<u8>::new()]);
}

#[test]
fn from_text_line_count() {
    assert_eq!(Storage::from_text(b"").lines(), 1);
    assert_eq!(Storage::from_text(b"a\n").lines(), 1);
    assert_eq!(Storage::from_text(b"a\nb").lines(), 2);
    assert_eq!(Storage::from_text(b"\na\n").lines(), 2);
}

#[test]
fn line_width() {
    let text = "aeioucsz\n\u{e1}\u{e9}\u{ed}\u{f3}\u{fa}\u{10d}\u{161}\u{17e}\n\u{53f0}\u{5317}1234\n\u{ff31}\u{ff32}\u{ff33}12\n\u{ff71}\u{ff72}\u{ff73}12345\n";
    let storage = Storage::from_text(text.as_bytes());

    for line in 0..storage.lines() {
        assert_eq!(storage.line_width(line), 8);
    }
}

#[test]
fn position_of_byte_zero() {
    let storage = Storage::new();
    assert_eq!(storage.position_of_byte(ByteIndex::new(0)), BytePosition::zero());
}

#[test]
fn position_of_byte_after_empty_line() {
    let storage = Storage::from_text(b"\na\n");
    assert_eq!(storage.position_of_byte(ByteIndex::new(1)), BytePosition::new(0, 1));
}

#[test]
fn position_of_byte_beginning_of_line() {
    let storage = Storage::from_text(b"a\nb\nc");
    assert_eq!(storage.position_of_byte(ByteIndex::new(2)), BytePosition::new(0, 1));
}

#[test]
fn byte_to_char_position_multibyte() {
    // One two-byte character before the target byte: byte 3 is the second
    // codepoint of its line.
    let storage = Storage::from_text("\u{e9}a\n".as_bytes());
    let pos = storage.byte_to_char_position(ByteIndex::new(2));
    assert_eq!((pos.x, pos.y), (1, 0));
}

#[test]
fn replace_range_deletion() {
    let mut storage = Storage::from_text(b"Goodbye, cruel world!");

    storage.replace_range(8, 14, b"");

    assert_eq!(storage.to_text(), b"Goodbye, world!\n".to_vec());
}

#[test]
fn replace_range_middle() {
    let mut storage = Storage::from_text(b"a b c\none three\n");

    storage.replace_range(10, 10, b"two ");

    assert_eq!(storage.to_text(), b"a b c\none two three\n".to_vec());
}

#[test]
fn replace_range_delete_newline() {
    let mut storage = Storage::from_text(b"this is not \none line");

    storage.replace_range(8, 13, b"");

    assert_eq!(storage.to_text(), b"this is one line\n".to_vec());
}

#[test]
fn replace_range_replacement_contains_newlines() {
    let mut storage = Storage::from_text(b"ae");

    storage.replace_range(1, 1, b"b\nc\nd");

    assert_eq!(storage.to_text(), b"ab\nc\nde\n".to_vec());
}

#[test]
fn replace_range_at_end_of_line() {
    let mut storage = Storage::from_text(b"a\n");

    storage.replace_range(1, 1, b"b");

    assert_eq!(storage.to_text(), b"ab\n".to_vec());
}

#[test]
fn replace_range_readback() {
    // Reading back the replaced range returns exactly the replacement, and
    // the total length changes by the difference of the two.
    let mut storage = Storage::from_text(b"hello, world");
    let old_len = storage.len();

    storage.replace_range(7, 12, b"editor");

    let text = storage.to_text();
    assert_eq!(&text[7..13], b"editor");
    assert_eq!(storage.len(), old_len - 5 + 6);
}

#[test]
fn slice_at_line_positions() {
    let storage = Storage::from_text(b"ab\ncd\n");
    assert_eq!(storage.slice_at(BytePosition::new(1, 0)), b"b".to_vec());
    assert_eq!(storage.slice_at(BytePosition::new(2, 0)), b"\n".to_vec());
    assert_eq!(storage.slice_at(BytePosition::new(0, 2)), Vec::<u8>::new());
}
