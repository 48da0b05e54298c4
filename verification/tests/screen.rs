use editor::{Bounds, Cell, Color, Coordinates, Screen, Size};

#[test]
fn indexing() {
    let mut buf = Screen::new(Size::new(3, 3));
    buf.cells[0] = Cell::from('a');
    buf.cells[8] = Cell::from('z');

    assert_eq!(*buf.cell(0, 0), Cell::from('a'));
    assert_eq!(*buf.cell(2, 2), Cell::from('z'));
}

#[test]
fn iter_rows() {
    let mut buf = Screen::new(Size::new(3, 3));
    buf.cells[0] = Cell::from('a');

    let rows = buf.iter_rows();

    assert_eq!(
        rows,
        vec![
            vec![Cell::from('a'), Cell::default(), Cell::default()],
            vec![Cell::default(), Cell::default(), Cell::default()],
            vec![Cell::default(), Cell::default(), Cell::default()],
        ]
    );
}

#[test]
fn write_too_long() {
    let mut buf = Screen::new(Size::new(2, 1));
    let text: Vec<char> = "hello, world".chars().collect();
    buf.write(Coordinates::zero(), &text);

    assert_eq!(buf.iter_rows()[0], vec![Cell::from('h'), Cell::from('e')]);
}

#[test]
fn write_fullwidth() {
    let mut buf = Screen::new(Size::new(6, 1));
    let text: Vec<char> = "\u{ff21}\u{ff22}\u{ff23}".chars().collect();
    buf.write(Coordinates::zero(), &text);

    assert_eq!(*buf.cell(0, 0), Cell::from('\u{ff21}'));
    assert_eq!(*buf.cell(0, 1), Cell::default());
    assert_eq!(*buf.cell(0, 2), Cell::from('\u{ff22}'));
}

#[test]
fn apply_color() {
    let mut buf = Screen::new(Size::new(3, 3));
    let bounds = Bounds::new(Coordinates::new(1, 1), Coordinates::new(2, 2));
    buf.apply_color(bounds, Color::blue());

    assert_eq!(buf.cell(0, 0).color, None);
    assert_eq!(buf.cell(1, 1).color, Some(Color::blue()));
    assert_eq!(buf.cell(1, 2).color, None);
}

#[test]
fn clear_screen() {
    let mut buf = Screen::new(Size::new(2, 2));
    buf.cells[1] = Cell::from('x');
    buf.apply_color(
        Bounds::new(Coordinates::new(0, 0), Coordinates::new(2, 2)),
        Color::new(1, 2, 3),
    );

    buf.clear();

    for row in 0..2 {
        for col in 0..2 {
            assert_eq!(*buf.cell(row, col), Cell::default());
        }
    }
}
