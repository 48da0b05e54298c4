use editor::{Bounds, Buffer, Color, Screen, Size, Span, Syntax, Theme};

/// The character a screen cell renders: a blank for an unwritten cell.
fn shown(screen: &Screen, row: u16, col: u16) -> char {
    screen.cell(row, col).c.unwrap_or(' ')
}

#[test]
fn points_from_span() {
    let span = Span::from_size(2, 1);
    let (min, max) = editor::span_to_points(span);

    assert_eq!(min, (0, 0));
    assert_eq!(max, (0, 2));
}

#[test]
fn highlight_large_buffer() {
    let mut buffer = Buffer::from_text(b"fn main() {\n    println!(\"Hello, world!\")\n}\n");

    buffer.set_syntax(Some(Syntax::Rust));

    let size = Size::new(5, 2);
    let mut screen = Screen::new(size);
    buffer.viewport = Some(Span::from_size(5, 2));

    buffer.draw(&mut screen, Bounds::from_size(size));
}

#[test]
fn highlight_left_viewport_edge() {
    let mut buffer = Buffer::from_text(b"\nextern crate foo;\n");

    buffer.set_syntax(Some(Syntax::Rust));

    let size = Size::new(4, 2);
    let mut screen = Screen::new(size);
    buffer.viewport = Some(Span::new(6, 0, 4, 2));

    buffer.draw(&mut screen, Bounds::from_size(size));
}

#[test]
fn highlight_right_viewport_edge() {
    let mut buffer = Buffer::from_text(b"parse('\\n');");

    buffer.set_syntax(Some(Syntax::JavaScript));

    let size = Size::new(6, 2);
    let mut screen = Screen::new(size);
    buffer.viewport = Some(Span::from_size(6, 2));

    buffer.draw(&mut screen, Bounds::from_size(size));
}

#[test]
fn highlight_at_edge_of_screen() {
    let mut buffer = Buffer::from_text(b"impl Debug for Foo {}");

    buffer.set_syntax(Some(Syntax::Rust));

    let size = Size::new(5, 1);
    let mut screen = Screen::new(size);
    buffer.viewport = Some(Span::from_size(5, 1));

    buffer.draw(&mut screen, Bounds::from_size(size));
}

#[test]
fn highlight_through_edge_of_screen() {
    let mut buffer = Buffer::from_text(b"'long string literal'");

    buffer.set_syntax(Some(Syntax::JavaScript));

    let size = Size::new(5, 1);
    let mut screen = Screen::new(size);
    buffer.viewport = Some(Span::from_size(5, 1));

    buffer.draw(&mut screen, Bounds::from_size(size));
}

#[test]
fn highlight_multiline_comment() {
    let mut buffer = Buffer::from_text(
        b"/*\n * I am a multi-line comment.\n * I should be fully highlighted!\n */\n",
    );

    let size = Size::new(30, 5);

    buffer.set_syntax(Some(Syntax::JavaScript));
    buffer.viewport = Some(Span::from_size(30, 5));

    let mut screen = Screen::new(size);

    buffer.draw(&mut screen, Bounds::from_size(size));

    assert_eq!(shown(&screen, 0, 0), '/');
    assert!(screen.cell(0, 0).color.is_some());
    assert!(screen.cell(0, 1).color.is_some());
    assert!(screen.cell(1, 10).color.is_some());

    // Shift the viewport to be within the highlight range.
    if let Some(viewport) = &mut buffer.viewport {
        viewport.origin.y += 1;
    }
    buffer.draw(&mut screen, Bounds::from_size(size));

    assert_eq!(shown(&screen, 0, 3), 'I');
}

#[test]
fn highlight_shifted_viewport() {
    let mut buffer = Buffer::from_text(b"/* hello, world!\ngoodbye, world! */\n");

    buffer.set_syntax(Some(Syntax::JavaScript));
    buffer.viewport = Some(Span::new(1, 0, 5, 2));

    let size = Size::new(5, 2);
    let mut screen = Screen::new(size);

    buffer.draw(&mut screen, Bounds::from_size(size));
}

#[test]
fn highlight_through_viewport_bottom() {
    let mut buffer = Buffer::from_text(b"/*\n * Long\n * multi-line\n * comment\n */\n");

    buffer.set_syntax(Some(Syntax::JavaScript));
    buffer.viewport = Some(Span::new(0, 0, 5, 1));

    let size = Size::new(5, 1);
    let mut screen = Screen::new(size);

    buffer.draw(&mut screen, Bounds::from_size(size));
}

#[test]
fn theme_capture_name_fallback() {
    let theme = Theme::new(&vec![
        String::from("function"),
        String::from("function.method"),
        String::from("function.builtin.static"),
    ]);
    assert_eq!(theme.color_for(1), Some(Color::new(0xff, 0x87, 0x00)));
    assert_eq!(theme.color_for(2), Some(Color::new(0xff, 0x87, 0x00)));
}

#[test]
fn highlight_keeps_characters() {
    // The overlay changes colors only: the text layer is what draw wrote.
    let mut buffer = Buffer::from_text(b"let x = 1;\n");
    buffer.set_syntax(Some(Syntax::Rust));
    buffer.viewport = Some(Span::from_size(10, 2));

    let size = Size::new(10, 2);
    let mut screen = Screen::new(size);
    buffer.draw(&mut screen, Bounds::from_size(size));

    let shown_line: String = (0..10).map(|c| shown(&screen, 0, c)).collect();
    assert_eq!(shown_line, "let x = 1;");
}

#[test]
fn set_syntax_creates_highlighter() {
    let mut buffer = Buffer::from_text(b"fn main() {}\n");

    buffer.set_syntax(Some(Syntax::Rust));
    assert!(buffer.highlighter.is_some());

    buffer.set_syntax(Some(Syntax::JavaScript));
    assert!(buffer.highlighter.is_some());

    buffer.set_syntax(None);
    assert!(buffer.highlighter.is_none());
}
