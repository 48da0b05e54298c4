use editor::{Bounds, Buffer, Buffers, ByteIndex, Cursor, Position, Screen, Size, Span};

/// The character a screen cell renders: a blank for an unwritten cell.
fn cell_char(screen: &Screen, row: u16, col: u16) -> char {
    screen.cell(row, col).c.unwrap_or(' ')
}

#[test]
fn byte_at_cursor() {
    assert_eq!(Buffer::new().byte_at_cursor(), ByteIndex::new(0));

    let mut buffer = Buffer::from_text(b"Lorem ipsum\nDolor sit amet\n");
    buffer.cursor = Cursor::at(5, 1);

    assert_eq!(buffer.byte_at_cursor(), ByteIndex::new(17));
}

#[test]
fn insert_empty_buffer() {
    let mut buf = Buffer::new();

    let old_version = buf.version;

    let edit = buf.insert('a');
    assert_eq!(buf.storage.to_text(), b"a\n".to_vec());

    assert_eq!(edit.new_text, b"a".to_vec());
    assert_eq!(edit.start, ByteIndex::new(0));
    assert_eq!(edit.end, ByteIndex::new(0));
    assert!(buf.version > old_version);
}

#[test]
fn insert_moves_cursor() {
    let mut buf = Buffer::new();

    buf.insert('a');
    assert_eq!(buf.cursor.x(), 1);
    assert_eq!(buf.cursor.y(), 0);

    buf.insert('\n');
    assert_eq!(buf.cursor.x(), 0);
    assert_eq!(buf.cursor.y(), 1);
}

#[test]
fn insert_multibyte() {
    let mut buf = Buffer::new();

    let edit = buf.insert('\u{e9}');

    assert_eq!(edit.new_text, "\u{e9}".as_bytes().to_vec());
    assert_eq!(buf.storage.to_text(), "\u{e9}\n".as_bytes().to_vec());
    assert_eq!(buf.cursor.x(), 2);
}

#[test]
fn delete_at_middle_of_line() {
    let mut buf = Buffer::from_text(b"abc");
    buf.cursor.set_x(2);

    buf.delete();

    assert_eq!(buf.storage.to_text(), b"ac\n".to_vec());
    assert_eq!(buf.cursor.x(), 1);
    assert_eq!(buf.cursor.y(), 0);
}

#[test]
fn delete_beginning_of_line() {
    let mut buf = Buffer::from_text(b"a\nb");
    buf.cursor.set_y(1);
    buf.cursor.set_x(0);

    buf.delete();

    assert_eq!(buf.storage.to_text(), b"ab\n".to_vec());
    assert_eq!(buf.cursor.x(), 1);
    assert_eq!(buf.cursor.y(), 0);
}

#[test]
fn delete_beginning_of_buffer() {
    let mut buf = Buffer::new();

    let edit = buf.delete();

    assert!(edit.is_none());
}

#[test]
fn edit_version_and_change_record() {
    let mut buf = Buffer::from_text(b"ab\ncd\n");
    buf.cursor = Cursor::at(1, 1);

    let v0 = buf.version;
    let edit = buf.delete().unwrap();
    assert_eq!(buf.version, v0 + 1);

    let record = edit.to_change_record();
    assert_eq!(record.start_line, 1);
    assert_eq!(record.start_character, 0);
    assert_eq!(record.end_line, 1);
    assert_eq!(record.end_character, 1);
    assert_eq!(record.text, Vec::<u8>::new());
}

#[test]
fn cursor_position() {
    let mut buffer = Buffer::from_text(b"foo\nbar\nbaz\n");

    buffer.cursor = Cursor::at(1, 1);
    buffer.viewport = Some(Span::new(1, 1, 1, 1));

    assert_eq!(buffer.cursor_position(), Position::zero());
}

#[test]
fn draw_empty_buffer() {
    let mut buffer = Buffer::new();

    let size = Size::new(2, 3);
    let mut screen = Screen::new(size);

    buffer.viewport = Some(Span::from_size(2, 3));

    buffer.draw(&mut screen, Bounds::from_size(size));

    assert_eq!(cell_char(&screen, 0, 0), ' ');
    assert_eq!(cell_char(&screen, 1, 0), '~');
    assert_eq!(cell_char(&screen, 1, 1), ' ');
    assert_eq!(cell_char(&screen, 2, 0), '~');
}

#[test]
fn draw_long_buffer() {
    let mut buffer = Buffer::from_text(b"foo\nbar\nbaz");

    let size = Size::new(5, 2);
    let mut screen = Screen::new(size);

    buffer.viewport = Some(Span::from_size(5, 2));
    buffer.draw(&mut screen, Bounds::from_size(size));

    assert_eq!(cell_char(&screen, 0, 0), 'f');
    assert_eq!(cell_char(&screen, 1, 0), 'b');
}

#[test]
fn draw_buffer_offset_viewport() {
    let mut buffer = Buffer::from_text(b"abcde\nfghij\nklmno\npqrst\nuvwxy\n");

    buffer.viewport = Some(Span::new(1, 1, 3, 3));

    let size = Size::new(3, 3);
    let mut screen = Screen::new(size);

    buffer.draw(&mut screen, Bounds::from_size(size));

    assert_eq!(cell_char(&screen, 0, 0), 'g');
    assert_eq!(cell_char(&screen, 2, 2), 's');
}

#[test]
fn draw_buffer_offset_viewport_short_line() {
    let mut buffer = Buffer::from_text(b"hello\n\n");

    buffer.viewport = Some(Span::new(1, 0, 2, 2));

    let size = Size::new(2, 2);
    let mut screen = Screen::new(size);

    buffer.draw(&mut screen, Bounds::from_size(size));

    assert_eq!(cell_char(&screen, 0, 0), 'e');
    assert_eq!(cell_char(&screen, 0, 1), 'l');
    assert_eq!(cell_char(&screen, 1, 0), ' ');
}

#[test]
fn buffers_from_list() {
    let buffers = Buffers::from_list(vec![]);
    assert_eq!(buffers.current().storage.lines(), 1);

    let mut buffers = Buffers::from_list(vec![Buffer::from_text(b"one\n"), Buffer::new()]);
    assert_eq!(buffers.all().len(), 2);
    assert_eq!(buffers.current().storage.to_text(), b"one\n".to_vec());

    buffers.current_mut().viewport = Some(Span::from_size(4, 4));
    assert!(buffers.current().viewport.is_some());
}

#[test]
fn document_snapshot_fields() {
    let mut buffer = Buffer::from_text(b"fn main() {}\n");
    buffer.path = Some(String::from("/tmp/main.rs"));
    buffer.syntax = Some(editor::Syntax::Rust);

    let snapshot = buffer.document_snapshot().unwrap();
    assert_eq!(snapshot.path, "/tmp/main.rs");
    assert_eq!(snapshot.language_id, "rust");
    assert_eq!(snapshot.version, 0);
    assert_eq!(snapshot.text, b"fn main() {}\n".to_vec());

    assert!(Buffer::new().document_snapshot().is_none());
}
