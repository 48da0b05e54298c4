//! An abstracted terminal screen of character cells.

use vstd::prelude::*;

use crate::color::Color;

verus! {

/// The display width, in terminal columns, of one character; zero for control
/// characters.
pub uninterp spec fn char_width_of(c: char) -> usize;

/// Relies on unicode_width's `UnicodeWidthChar::width`: the display width of a
/// character in columns, a pure function of the character (control characters,
/// for which the crate answers `None`, are answered with width 0 here). The
/// crate stores widths in two-bit table entries, so the result is at most 3.
#[verifier::external_body]
fn unicode_char_width(c: char) -> (r: usize)
    ensures
        r == char_width_of(c),
        r <= 3,
{
    unicode_width::UnicodeWidthChar::width(c).unwrap_or(0)
}

/// The XY coordinates of a cell on the screen, starting from `(0, 0)` at the
/// top left: `y` is the row and `x` the column.
#[derive(Debug, Clone, Copy, PartialEq, Eq, Structural)]
pub struct Coordinates {
    pub x: u16,
    pub y: u16,
}

impl Coordinates {
    /// Returns the coordinates of column `x` in row `y`.
    pub fn new(x: u16, y: u16) -> (r: Coordinates)
        ensures
            r.x == x && r.y == y,
    {
        Coordinates { x, y }
    }

    /// The top-left corner.
    pub fn zero() -> (r: Coordinates)
        ensures
            r.x == 0 && r.y == 0,
    {
        Coordinates { x: 0, y: 0 }
    }
}

/// A width and height on the screen, in cells.
#[derive(Debug, Clone, Copy, PartialEq, Eq, Structural)]
pub struct Size {
    pub width: u16,
    pub height: u16,
}

impl Size {
    /// Returns the size with the given width and height.
    pub fn new(width: u16, height: u16) -> (r: Size)
        ensures
            r.width == width && r.height == height,
    {
        Size { width, height }
    }
}

/// A bounding rectangle on the screen, in cells; `min` is inclusive and `max`
/// exclusive on both axes.
#[derive(Debug, Clone, Copy, PartialEq, Eq, Structural)]
pub struct Bounds {
    pub min: Coordinates,
    pub max: Coordinates,
}

impl Bounds {
    /// Returns the rectangle between the two corners.
    pub fn new(min: Coordinates, max: Coordinates) -> (r: Bounds)
        ensures
            r.min == min && r.max == max,
    {
        Bounds { min, max }
    }

    /// Returns the rectangle of the given size anchored at the top left.
    pub fn from_size(size: Size) -> (r: Bounds)
        ensures
            r.min == (Coordinates { x: 0, y: 0 }),
            r.max == (Coordinates { x: size.width, y: size.height }),
    {
        Bounds { min: Coordinates { x: 0, y: 0 }, max: Coordinates { x: size.width, y: size.height } }
    }

    /// The number of rows covered.
    pub fn height(&self) -> (r: u16)
        requires
            self.min.y <= self.max.y,
        ensures
            r == self.max.y - self.min.y,
    {
        self.max.y - self.min.y
    }

    /// The number of columns covered.
    pub fn width(&self) -> (r: u16)
        requires
            self.min.x <= self.max.x,
        ensures
            r == self.max.x - self.min.x,
    {
        self.max.x - self.min.x
    }
}

/// One character cell: its character, if any has been written, and its color,
/// if any has been applied.
#[derive(Debug, Clone, Copy, PartialEq, Eq)]
pub struct Cell {
    pub c: Option<char>,
    pub color: Option<Color>,
}

impl Default for Cell {
    /// An unwritten, uncolored cell.
    fn default() -> (r: Cell)
        ensures
            r.c is None && r.color is None,
    {
        Cell { c: None, color: None }
    }
}

impl From<char> for Cell {
    /// An uncolored cell holding the given character.
    fn from(c: char) -> (r: Cell) {
        Cell { c: Some(c), color: None }
    }
}

impl vstd::std_specs::convert::FromSpecImpl<char> for Cell {
    open spec fn obeys_from_spec() -> bool {
        true
    }

    open spec fn from_spec(c: char) -> Cell {
        Cell { c: Some(c), color: None }
    }
}

/// A rectangular grid of cells addressed by row and column.
pub struct Screen {
    pub size: Size,
    pub cells: Vec<Cell>,
}

impl View for Screen {
    type V = Seq<Cell>;

    closed spec fn view(&self) -> Seq<Cell> {
        self.cells@
    }
}

/// The total width of the first `i` characters of a text, in display columns.
pub open spec fn prefix_width(text: Seq<char>, i: int) -> int
    decreases i,
{
    if i <= 0 {
        0
    } else {
        prefix_width(text, i - 1) + char_width_of(text[i - 1])
    }
}

/// The prefix width never shrinks as the prefix grows.
pub proof fn lemma_prefix_width_mono(text: Seq<char>, a: int, b: int)
    requires
        0 <= a <= b,
    ensures
        prefix_width(text, a) <= prefix_width(text, b),
    decreases b - a,
{
    if a < b {
        lemma_prefix_width_mono(text, a, b - 1);
    }
}

/// Distinct in-range cell coordinates address distinct storage indices.
proof fn lemma_cell_index_injective(w: int, r1: int, c1: int, r2: int, c2: int)
    requires
        w > 0,
        0 <= c1 < w,
        0 <= c2 < w,
        r1 >= 0,
        r2 >= 0,
        r1 * w + c1 == r2 * w + c2,
    ensures
        r1 == r2 && c1 == c2,
{
    assert(r1 == r2 && c1 == c2) by (nonlinear_arith)
        requires
            w > 0,
            0 <= c1 < w,
            0 <= c2 < w,
            r1 >= 0,
            r2 >= 0,
            r1 * w + c1 == r2 * w + c2,
    ;
}

/// An in-range cell coordinate addresses a storage index inside the grid.
pub proof fn lemma_cell_index_bound(w: int, h: int, r: int, c: int)
    requires
        0 <= c < w,
        0 <= r < h,
    ensures
        0 <= r * w + c < h * w,
{
    assert(0 <= r * w + c < h * w) by (nonlinear_arith)
        requires
            0 <= c < w,
            0 <= r < h,
    ;
}

/// Whether `post` is `pre` with the given text written into one row starting
/// at column `x`: every character whose slot (the column after the widths of
/// the characters before it) lies within the screen stands in its slot, and
/// every cell of the row that no character addresses keeps its text.
/// Zero-width characters address no cell.
pub open spec fn row_chars_written(
    post: Screen,
    pre: Screen,
    row: int,
    x: int,
    text: Seq<char>,
) -> bool {
    &&& forall|i: int|
        0 <= i < text.len() && x + prefix_width(text, i) < post.size.width && char_width_of(
            #[trigger] text[i],
        ) != 0 ==> post.spec_cell(row, x + prefix_width(text, i)).c == Some(text[i])
    &&& forall|c: int|
        0 <= c < post.size.width && !(exists|i: int|
            0 <= i < text.len() && x + prefix_width(text, i) == c && char_width_of(
                #[trigger] text[i],
            ) != 0) ==> post.spec_cell(row, c).c == pre.spec_cell(row, c).c
}

/// A written row stays written when later drawing leaves its text alone.
pub proof fn lemma_row_chars_written_stable(
    post: Screen,
    mid: Screen,
    pre: Screen,
    row: int,
    x: int,
    text: Seq<char>,
)
    requires
        row_chars_written(mid, pre, row, x, text),
        post.size == mid.size,
        forall|c: int|
            0 <= c < mid.size.width ==> (#[trigger] post.spec_cell(row, c)).c == mid.spec_cell(
                row,
                c,
            ).c,
        x >= 0,
    ensures
        row_chars_written(post, pre, row, x, text),
{
    assert forall|i: int|
        0 <= i < text.len() && x + prefix_width(text, i) < post.size.width && char_width_of(
            #[trigger] text[i],
        ) != 0 implies post.spec_cell(row, x + prefix_width(text, i)).c == Some(text[i]) by {
        lemma_prefix_width_mono(text, 0, i);
    }
}

/// What a write did to a row does not depend on how untouched cells are
/// described: the baseline may be exchanged for one with the same row text.
pub proof fn lemma_row_chars_written_rebase(
    post: Screen,
    pre1: Screen,
    pre2: Screen,
    row: int,
    x: int,
    text: Seq<char>,
)
    requires
        row_chars_written(post, pre1, row, x, text),
        forall|c: int|
            0 <= c < post.size.width ==> (#[trigger] pre1.spec_cell(row, c)).c == pre2.spec_cell(
                row,
                c,
            ).c,
    ensures
        row_chars_written(post, pre2, row, x, text),
{
}

/// The cell grid of a screen never outgrows the machine word.
proof fn lemma_grid_bound(w: int, h: int)
    requires
        0 <= w <= u16::MAX,
        0 <= h <= u16::MAX,
    ensures
        w * h <= 0xFFFE0001,
{
    assert(w * h <= 0xFFFE0001) by (nonlinear_arith)
        requires
            0 <= w <= u16::MAX,
            0 <= h <= u16::MAX,
    ;
}

impl Screen {
    /// A well-formed screen holds exactly one cell per coordinate.
    pub open spec fn wf(&self) -> bool {
        self@.len() == self.size.width as int * self.size.height as int
    }

    /// The storage index of the cell at row `r`, column `c`.
    pub open spec fn cell_index(&self, r: int, c: int) -> int {
        r * self.size.width as int + c
    }

    /// The cell at row `r`, column `c`.
    pub open spec fn spec_cell(&self, r: int, c: int) -> Cell {
        self@[self.cell_index(r, c)]
    }

    /// Returns a screen of the given size, all cells unwritten and uncolored.
    pub fn new(size: Size) -> (r: Screen)
        ensures
            r.wf(),
            r.size == size,
            forall|i: int| 0 <= i < r@.len() ==> r@[i].c is None && r@[i].color is None,
    {
        proof {
            lemma_grid_bound(size.width as int, size.height as int);
        }
        let n = (size.width as usize) * (size.height as usize);
        let cells = vec![Cell { c: None, color: None }; n];
        Screen { size, cells }
    }

    /// The storage index of the cell at the given row and column.
    fn cell_pos(&self, row: u16, col: u16) -> (i: usize)
        requires
            self.wf(),
            row < self.size.height,
            col < self.size.width,
        ensures
            i == self.cell_index(row as int, col as int),
            i < self@.len(),
    {
        proof {
            lemma_cell_index_bound(
                self.size.width as int,
                self.size.height as int,
                row as int,
                col as int,
            );
            lemma_grid_bound(self.size.width as int, self.size.height as int);
        }
        (row as usize) * (self.size.width as usize) + (col as usize)
    }

    /// The cell at the given row and column.
    pub fn cell(&self, row: u16, col: u16) -> (r: &Cell)
        requires
            self.wf(),
            row < self.size.height,
            col < self.size.width,
        ensures
            *r == self.spec_cell(row as int, col as int),
    {
        let i = self.cell_pos(row, col);
        &self.cells[i]
    }

    /// Returns the rows of the screen, top to bottom, each a copy of its
    /// cells, left to right.
    #[verifier::loop_isolation(false)]
    pub fn iter_rows(&self) -> (r: Vec<Vec<Cell>>)
        requires
            self.wf(),
        ensures
            r@.len() == self.size.height as int,
            forall|row: int, col: int|
                0 <= row < self.size.height && 0 <= col < self.size.width ==> #[trigger] r@[row]@[col]
                    == self.spec_cell(row, col),
            forall|row: int| 0 <= row < self.size.height ==> (#[trigger] r@[row])@.len()
                == self.size.width as int,
    {
        let mut rows: Vec<Vec<Cell>> = Vec::new();
        let mut row: u16 = 0;
        while row < self.size.height
            invariant
                self.wf(),
                row <= self.size.height,
                rows@.len() == row as int,
                forall|i: int, col: int|
                    0 <= i < row && 0 <= col < self.size.width ==> #[trigger] rows@[i]@[col]
                        == self.spec_cell(i, col),
                forall|i: int| 0 <= i < row ==> (#[trigger] rows@[i])@.len()
                    == self.size.width as int,
            decreases self.size.height - row,
        {
            let mut cells: Vec<Cell> = Vec::new();
            let mut col: u16 = 0;
            while col < self.size.width
                invariant
                    self.wf(),
                    row < self.size.height,
                    col <= self.size.width,
                    cells@.len() == col as int,
                    forall|j: int| 0 <= j < col ==> #[trigger] cells@[j] == self.spec_cell(
                        row as int,
                        j,
                    ),
                decreases self.size.width - col,
            {
                cells.push(*self.cell(row, col));
                col = col + 1;
            }
            rows.push(cells);
            row = row + 1;
        }
        rows
    }

    /// Writes a string of characters into one row starting at the given
    /// coordinate. Each character occupies its display width in columns;
    /// zero-width characters are skipped; writing stops at the right edge of
    /// the screen.
    #[verifier::loop_isolation(false)]
    #[verifier::rlimit(50)]
    pub fn write(&mut self, pos: Coordinates, text: &[char])
        requires
            old(self).wf(),
            pos.y < old(self).size.height,
        ensures
            final(self).wf(),
            final(self).size == old(self).size,
            final(self)@.len() == old(self)@.len(),
            // colors are never touched
            forall|i: int| 0 <= i < final(self)@.len() ==> final(self)@[i].color == old(self)@[
                i
            ].color,
            // rows other than the target row are never touched
            forall|r: int, c: int|
                0 <= r < final(self).size.height && 0 <= c < final(self).size.width && r != pos.y
                    ==> final(self).spec_cell(r, c) == old(self).spec_cell(r, c),
            // the target row carries the text, each character at its slot
            row_chars_written(*final(self), *old(self), pos.y as int, pos.x as int, text@),
    {
        let width = self.size.width;
        let ghost orig = *self;
        let mut offset: usize = 0;
        let mut i: usize = 0;
        while i < text.len()
            invariant
                self.wf(),
                self.size == orig.size,
                self@.len() == orig@.len(),
                pos.y < self.size.height,
                width == self.size.width,
                i <= text@.len(),
                offset == prefix_width(text@, i as int),
                offset <= self.size.width as int + 3,
                forall|k: int| 0 <= k < self@.len() ==> self@[k].color == orig@[k].color,
                forall|r: int, c: int|
                    0 <= r < self.size.height && 0 <= c < self.size.width && r != pos.y
                        ==> self.spec_cell(r, c) == orig.spec_cell(r, c),
                forall|j: int|
                    0 <= j < i && pos.x + prefix_width(text@, j) < self.size.width && char_width_of(
                        #[trigger] text@[j],
                    ) != 0 ==> self.spec_cell(pos.y as int, pos.x + prefix_width(text@, j)).c
                        == Some(text@[j]),
                forall|c: int|
                    0 <= c < self.size.width && !(exists|j: int|
                        0 <= j < i && pos.x + prefix_width(text@, j) == c && char_width_of(
                            #[trigger] text@[j],
                        ) != 0) ==> self.spec_cell(pos.y as int, c).c == orig.spec_cell(
                        pos.y as int,
                        c,
                    ).c,
            decreases text@.len() - i,
        {
            if pos.x as usize + offset >= width as usize {
                // Past the right edge: nothing further fits. Characters whose
                // slots lie beyond the edge are exactly those not yet written,
                // because the prefix width never shrinks.
                proof {
                    assert forall|j: int|
                        i <= j < text@.len() implies pos.x + prefix_width(text@, j)
                        >= self.size.width by {
                        lemma_prefix_width_mono(text@, i as int, j);
                    }
                }
                return ;
            }
            let w = unicode_char_width(text[i]);
            if w != 0 {
                let col = pos.x as usize + offset;
                let idx = self.cell_pos(pos.y, col as u16);
                let ghost prev = *self;
                self.cells[idx] = Cell { c: Some(text[i]), color: self.cells[idx].color };
                proof {
                    assert forall|r: int, c: int|
                        0 <= r < self.size.height && 0 <= c < self.size.width && (r != pos.y || c
                            != col) implies self.spec_cell(r, c) == prev.spec_cell(r, c) by {
                        lemma_cell_index_bound(
                            self.size.width as int,
                            self.size.height as int,
                            r,
                            c,
                        );
                        if self.cell_index(r, c) == idx {
                            lemma_cell_index_injective(
                                self.size.width as int,
                                r,
                                c,
                                pos.y as int,
                                col as int,
                            );
                        }
                    }
                    assert(self.spec_cell(pos.y as int, col as int).c == Some(text@[i as int]));
                    assert forall|j: int|
                        0 <= j < i && pos.x + prefix_width(text@, j) < self.size.width
                            && char_width_of(#[trigger] text@[j]) != 0 implies self.spec_cell(
                        pos.y as int,
                        pos.x + prefix_width(text@, j),
                    ).c == Some(text@[j]) by {
                        if pos.x + prefix_width(text@, j) == col {
                            lemma_prefix_width_mono(text@, j + 1, i as int);
                            assert(false);
                        } else {
                            lemma_prefix_width_mono(text@, 0, j);
                            assert(prev.spec_cell(pos.y as int, pos.x + prefix_width(text@, j)).c
                                == Some(text@[j]));
                            assert(self.spec_cell(pos.y as int, pos.x + prefix_width(text@, j))
                                == prev.spec_cell(pos.y as int, pos.x + prefix_width(text@, j)));
                        }
                    }
                }
            }
            offset = offset + w;
            i = i + 1;
        }
    }

    /// Applies a color to every cell within a rectangular region, leaving all
    /// characters and all other cells as they are.
    #[verifier::loop_isolation(false)]
    pub fn apply_color(&mut self, bounds: Bounds, color: Color)
        requires
            old(self).wf(),
            bounds.min.x <= bounds.max.x,
            bounds.min.y <= bounds.max.y,
            bounds.max.x <= old(self).size.width,
            bounds.max.y <= old(self).size.height,
        ensures
            final(self).wf(),
            final(self).size == old(self).size,
            final(self)@.len() == old(self)@.len(),
            forall|i: int| 0 <= i < final(self)@.len() ==> final(self)@[i].c == old(self)@[i].c,
            forall|r: int, c: int|
                bounds.min.y <= r < bounds.max.y && bounds.min.x <= c < bounds.max.x
                    ==> (#[trigger] final(self).spec_cell(r, c)).color == Some(color),
            forall|r: int, c: int|
                0 <= r < final(self).size.height && 0 <= c < final(self).size.width && !(
                bounds.min.y <= r < bounds.max.y && bounds.min.x <= c < bounds.max.x)
                    ==> (#[trigger] final(self).spec_cell(r, c)).color == old(self).spec_cell(
                    r,
                    c,
                ).color,
    {
        let ghost orig = *self;
        let width = self.size.width;
        let mut y = bounds.min.y;
        while y < bounds.max.y
            invariant
                self.wf(),
                self.size == orig.size,
                self@.len() == orig@.len(),
                bounds.min.y <= y <= bounds.max.y,
                bounds.min.x <= bounds.max.x,
                bounds.max.x <= self.size.width,
                bounds.max.y <= self.size.height,
                width == self.size.width,
                forall|i: int| 0 <= i < self@.len() ==> self@[i].c == orig@[i].c,
                forall|r: int, c: int|
                    bounds.min.y <= r < y && bounds.min.x <= c < bounds.max.x
                        ==> (#[trigger] self.spec_cell(r, c)).color == Some(color),
                forall|r: int, c: int|
                    0 <= r < self.size.height && 0 <= c < self.size.width && !(bounds.min.y <= r
                        < y && bounds.min.x <= c < bounds.max.x)
                        ==> (#[trigger] self.spec_cell(r, c)).color == orig.spec_cell(r, c).color,
            decreases bounds.max.y - y,
        {
            let mut x = bounds.min.x;
            while x < bounds.max.x
                invariant
                    self.wf(),
                    self.size == orig.size,
                    self@.len() == orig@.len(),
                    bounds.min.y <= y < bounds.max.y,
                    bounds.min.x <= x <= bounds.max.x,
                    bounds.max.x <= self.size.width,
                    bounds.max.y <= self.size.height,
                    width == self.size.width,
                    forall|i: int| 0 <= i < self@.len() ==> self@[i].c == orig@[i].c,
                    forall|r: int, c: int|
                        bounds.min.y <= r < y && bounds.min.x <= c < bounds.max.x
                            ==> (#[trigger] self.spec_cell(r, c)).color == Some(color),
                    forall|c: int|
                        bounds.min.x <= c < x ==> (#[trigger] self.spec_cell(y as int, c)).color
                            == Some(color),
                    forall|r: int, c: int|
                        0 <= r < self.size.height && 0 <= c < self.size.width && !(bounds.min.y <= r
                            < y && bounds.min.x <= c < bounds.max.x) && !(r == y && bounds.min.x
                            <= c < x) ==> (#[trigger] self.spec_cell(r, c)).color
                            == orig.spec_cell(r, c).color,
                decreases bounds.max.x - x,
            {
                let idx = self.cell_pos(y, x);
                let ghost prev = *self;
                self.cells[idx] = Cell { c: self.cells[idx].c, color: Some(color) };
                proof {
                    assert forall|r: int, c: int|
                        0 <= r < self.size.height && 0 <= c < self.size.width && (r != y || c
                            != x) implies self.spec_cell(r, c) == prev.spec_cell(r, c) by {
                        lemma_cell_index_bound(
                            self.size.width as int,
                            self.size.height as int,
                            r,
                            c,
                        );
                        if self.cell_index(r, c) == idx {
                            lemma_cell_index_injective(
                                self.size.width as int,
                                r,
                                c,
                                y as int,
                                x as int,
                            );
                        }
                    }
                    assert(self.spec_cell(y as int, x as int).color == Some(color));
                    assert forall|c2: int|
                        bounds.min.x <= c2 < x + 1 implies (#[trigger] self.spec_cell(
                        y as int,
                        c2,
                    )).color == Some(color) by {
                        if c2 < x {
                            assert(prev.spec_cell(y as int, c2).color == Some(color));
                            assert(self.spec_cell(y as int, c2) == prev.spec_cell(y as int, c2));
                        }
                    }
                    assert forall|r: int, c2: int|
                        bounds.min.y <= r < y && bounds.min.x <= c2 < bounds.max.x implies (
                    #[trigger] self.spec_cell(r, c2)).color == Some(color) by {
                        assert(prev.spec_cell(r, c2).color == Some(color));
                        assert(self.spec_cell(r, c2) == prev.spec_cell(r, c2));
                    }
                    assert forall|r: int, c2: int|
                        0 <= r < self.size.height && 0 <= c2 < self.size.width && !(bounds.min.y
                            <= r < y && bounds.min.x <= c2 < bounds.max.x) && !(r == y
                            && bounds.min.x <= c2 < x + 1) implies (#[trigger] self.spec_cell(
                        r,
                        c2,
                    )).color == orig.spec_cell(r, c2).color by {
                        assert(prev.spec_cell(r, c2).color == orig.spec_cell(r, c2).color);
                        assert(self.spec_cell(r, c2) == prev.spec_cell(r, c2));
                    }
                }
                x = x + 1;
            }
            y = y + 1;
        }
    }

    /// Erases all screen contents.
    pub fn clear(&mut self)
        requires
            old(self).wf(),
        ensures
            final(self).wf(),
            final(self).size == old(self).size,
            final(self)@.len() == old(self)@.len(),
            forall|i: int|
                0 <= i < final(self)@.len() ==> (#[trigger] final(self)@[i]).c is None && (final(
                    self
                ))@[i].color is None,
    {
        let n = self.cells.len();
        self.cells = vec![Cell { c: None, color: None }; n];
    }
}

} // verus!
