use editor::{Buffer, Cursor, Position, Span};

#[test]
fn move_single_character_empty_buffer() {
    let mut buffer = Buffer::new();

    buffer.move_left();
    assert_eq!(buffer.cursor.pos, Position::zero());

    buffer.move_down();
    assert_eq!(buffer.cursor.pos, Position::zero());

    buffer.move_up();
    assert_eq!(buffer.cursor.pos, Position::zero());

    buffer.move_right();
    assert_eq!(buffer.cursor.pos, Position::zero());
}

#[test]
fn move_left() {
    let mut buffer = Buffer::from_text(b"hello, world");
    buffer.cursor = Cursor::at(5, 0);

    buffer.move_left();

    assert_eq!(buffer.cursor.pos, Position::new(4, 0));
}

#[test]
fn move_up() {
    let mut buffer = Buffer::from_text(b"foo\nbar\n");
    buffer.cursor = Cursor::at(0, 1);

    buffer.move_up();

    assert_eq!(buffer.cursor.pos, Position::new(0, 0));
}

#[test]
fn move_down() {
    let mut buffer = Buffer::from_text(b"foo\nbar\n");
    buffer.cursor = Cursor::at(2, 0);

    buffer.move_down();

    assert_eq!(buffer.cursor.pos, Position::new(2, 1));
}

#[test]
fn move_right() {
    let mut buffer = Buffer::from_text(b"hello world");
    buffer.cursor = Cursor::at(5, 0);

    buffer.move_right();

    assert_eq!(buffer.cursor.pos, Position::new(6, 0));
}

#[test]
fn move_down_out_of_bounds() {
    let mut buffer = Buffer::from_text(b"abcdef\na\nabc\nabcdef\n");

    buffer.cursor = Cursor::at(5, 0);

    buffer.move_down();
    assert_eq!(buffer.cursor.pos, Position::new(1, 1));

    buffer.move_down();
    assert_eq!(buffer.cursor.pos, Position::new(3, 2));

    buffer.move_down();
    assert_eq!(buffer.cursor.pos, Position::new(5, 3));
}

#[test]
fn move_up_out_of_bounds() {
    let mut buffer = Buffer::from_text(b"abcdef\na\nabc\nabcdef\n");

    buffer.cursor = Cursor::at(5, 3);

    buffer.move_up();
    assert_eq!(buffer.cursor.pos, Position::new(3, 2));

    buffer.move_up();
    assert_eq!(buffer.cursor.pos, Position::new(1, 1));

    buffer.move_up();
    assert_eq!(buffer.cursor.pos, Position::new(5, 0));
}

#[test]
fn viewport_motion_left() {
    let mut buffer = Buffer::from_text(b"123456789");

    buffer.viewport = Some(Span::new(4, 0, 2, 1));
    buffer.cursor = Cursor::at(5, 0);

    let old_viewport = buffer.viewport.unwrap();
    buffer.move_left();
    assert_eq!(buffer.cursor.pos, Position::new(4, 0));
    assert_eq!(old_viewport, buffer.viewport.unwrap());

    buffer.move_left();
    assert_eq!(buffer.cursor.pos, Position::new(3, 0));
    assert_eq!(buffer.viewport.unwrap().width, old_viewport.width);
    assert_eq!(buffer.viewport.unwrap().min_x(), 3);
}

#[test]
fn viewport_motion_up() {
    let text = (1..100).map(|n| n.to_string()).collect::<Vec<_>>().join("\n");
    let mut buffer = Buffer::from_text(text.as_bytes());

    buffer.viewport = Some(Span::new(0, 20, 10, 60));
    buffer.cursor = Cursor::at(0, 50);

    let old_viewport = buffer.viewport.unwrap();
    buffer.move_up();
    assert_eq!(buffer.cursor.pos, Position::new(0, 49));
    assert_eq!(old_viewport, buffer.viewport.unwrap());

    for _ in 0..49 {
        buffer.move_up();
    }

    assert_eq!(buffer.cursor.pos, Position::zero());
    assert_eq!(buffer.viewport.unwrap().height, old_viewport.height);
    assert_eq!(buffer.viewport.unwrap().min_y(), 0);
}

#[test]
fn viewport_motion_down() {
    let text = (1..100).map(|n| n.to_string()).collect::<Vec<_>>().join("\n");
    let mut buffer = Buffer::from_text(text.as_bytes());

    buffer.viewport = Some(Span::new(0, 20, 10, 60));
    buffer.cursor = Cursor::at(0, 50);

    let old_viewport = buffer.viewport.unwrap();
    buffer.move_down();
    assert_eq!(buffer.cursor.pos, Position::new(0, 51));
    assert_eq!(old_viewport, buffer.viewport.unwrap());

    for _ in 0..49 {
        buffer.move_down();
    }

    assert_eq!(buffer.cursor.pos, Position::new(0, 98));
    assert_eq!(buffer.viewport.unwrap().height, old_viewport.height);
    assert_eq!(buffer.viewport.unwrap().max_y(), 99);
}

#[test]
fn viewport_motion_right() {
    let mut buffer = Buffer::from_text(b"123456789");

    buffer.viewport = Some(Span::new(0, 0, 5, 1));
    buffer.cursor = Cursor::at(3, 0);

    let old_viewport = buffer.viewport.unwrap();
    buffer.move_right();
    assert_eq!(buffer.cursor.pos, Position::new(4, 0));
    assert_eq!(old_viewport, buffer.viewport.unwrap());

    buffer.move_right();
    assert_eq!(buffer.cursor.pos, Position::new(5, 0));
    assert_eq!(buffer.viewport.unwrap().width, old_viewport.width);
    assert_eq!(buffer.viewport.unwrap().min_x(), 1);
}

#[test]
fn scrolloff_larger_than_viewport() {
    let mut buffer = Buffer::from_text(b"12\n34\n");

    buffer.viewport = Some(Span::from_size(2, 2));

    buffer.move_down();
    assert_eq!(buffer.viewport.unwrap().origin, Position::zero());
    buffer.move_up();
    assert_eq!(buffer.viewport.unwrap().origin, Position::zero());
}

#[test]
fn cursor_sticky_column() {
    // Column five of a six-column line, down to a one-column line, down again
    // to a line of at least five columns: the column snaps to one and then
    // restores to five.
    let mut buffer = Buffer::from_text(b"abcdef\nx\nabcdefgh\n");
    buffer.cursor = Cursor::at(5, 0);

    buffer.move_down();
    assert_eq!(buffer.cursor.pos, Position::new(1, 1));

    buffer.move_down();
    assert_eq!(buffer.cursor.pos, Position::new(5, 2));
}
