//! Cursor motion within a buffer, and the viewport scrolling it drives.

use vstd::prelude::*;

use crate::buffer::Buffer;
use crate::storage::display_width_of;
use crate::units::{Offset, Position, Span};

verus! {

/// The number of lines of padding that scrolling keeps between the cursor and
/// the viewport's edges, except at document boundaries.
pub const SCROLLOFF: usize = 5;

/// A cursor for an individual buffer.
#[derive(Debug, Clone, Copy, PartialEq, Eq, Structural)]
pub struct Cursor {
    /// Position of the cursor.
    pub pos: Position,
    /// The column the cursor snaps back to when it reaches a long enough
    /// line; see [`Cursor::snap`].
    pub desired_col: usize,
}

impl Cursor {
    /// The cursor at the origin.
    pub open spec fn spec_default() -> Cursor {
        Cursor { pos: Position { x: 0, y: 0 }, desired_col: 0 }
    }

    /// Creates a cursor at a particular position, with that column desired.
    pub fn at(x: usize, y: usize) -> (r: Cursor)
        ensures
            r.pos.x == x && r.pos.y == y && r.desired_col == x,
    {
        Cursor { pos: Position { x, y }, desired_col: x }
    }

    /// The cursor's column.
    pub fn x(&self) -> (r: usize)
        ensures
            r == self.pos.x,
    {
        self.pos.x
    }

    /// The cursor's line.
    pub fn y(&self) -> (r: usize)
        ensures
            r == self.pos.y,
    {
        self.pos.y
    }

    /// Places the cursor in a column, which becomes the desired column.
    pub fn set_x(&mut self, x: usize)
        ensures
            final(self).pos.x == x,
            final(self).pos.y == old(self).pos.y,
            final(self).desired_col == x,
    {
        self.pos.x = x;
        self.desired_col = x;
    }

    /// Places the cursor on a line; the desired column is untouched.
    pub fn set_y(&mut self, y: usize)
        ensures
            final(self).pos.y == y,
            final(self).pos.x == old(self).pos.x,
            final(self).desired_col == old(self).desired_col,
    {
        self.pos.y = y;
    }

    /// Moves the cursor left or right a number of columns; an explicit
    /// horizontal move resets the desired column.
    pub fn move_x(&mut self, offset: isize)
        requires
            offset > isize::MIN,
            old(self).pos.x + offset >= 0,
            old(self).pos.x + offset <= usize::MAX,
        ensures
            final(self).pos.x == old(self).pos.x + offset,
            final(self).pos.y == old(self).pos.y,
            final(self).desired_col == final(self).pos.x,
    {
        if offset < 0 {
            let n = (-offset) as usize;
            self.pos.x = self.pos.x - n;
        } else {
            self.pos.x = self.pos.x + (offset as usize);
        }
        self.desired_col = self.pos.x;
    }

    /// Moves the cursor up or down a number of lines; the desired column is
    /// untouched, and the caller snaps against the new line's width.
    pub fn move_y(&mut self, offset: isize)
        requires
            offset > isize::MIN,
            old(self).pos.y + offset >= 0,
            old(self).pos.y + offset <= usize::MAX,
        ensures
            final(self).pos.y == old(self).pos.y + offset,
            final(self).pos.x == old(self).pos.x,
            final(self).desired_col == old(self).desired_col,
    {
        if offset < 0 {
            let n = (-offset) as usize;
            self.pos.y = self.pos.y - n;
        } else {
            self.pos.y = self.pos.y + (offset as usize);
        }
    }

    /// Snaps the cursor's column against a line's width: a cursor away from
    /// its desired column returns to it as far as the line allows, and a
    /// cursor past the end of the line is pulled back to it. The desired
    /// column itself is remembered across snaps, giving vim-style end-of-line
    /// behavior on vertical motion.
    pub fn snap(&mut self, line_width: usize)
        ensures
            final(self).pos.x == spec_snap(
                old(self).pos.x as int,
                old(self).desired_col as int,
                line_width as int,
            ),
            final(self).pos.y == old(self).pos.y,
            final(self).desired_col == old(self).desired_col,
    {
        if self.desired_col != self.pos.x {
            self.pos.x = if self.desired_col < line_width {
                self.desired_col
            } else {
                line_width
            };
        } else if self.pos.x > line_width {
            self.pos.x = line_width;
        }
    }
}

impl Default for Cursor {
    /// The cursor at the origin.
    fn default() -> (r: Cursor)
        ensures
            r == Cursor::spec_default(),
    {
        Cursor { pos: Position { x: 0, y: 0 }, desired_col: 0 }
    }
}

/// The column a cursor occupies after snapping against a line width.
pub open spec fn spec_snap(x: int, desired: int, width: int) -> int {
    if desired != x {
        if desired < width {
            desired
        } else {
            width
        }
    } else if x > width {
        width
    } else {
        x
    }
}

/// The vertical origin of a viewport after rebalancing around a cursor line:
/// scrolled down so the cursor keeps its padding from the bottom edge (but
/// never past the end of the document), or up so it keeps its padding from
/// the top edge (but never above the start).
pub open spec fn spec_scroll_y(vp: Span, cy: int, lines: int) -> int {
    if cy > SCROLLOFF && cy + SCROLLOFF > vp.spec_max_y() {
        let maxy = if cy + SCROLLOFF < lines {
            cy + SCROLLOFF
        } else {
            lines
        };
        if maxy >= vp.height {
            maxy - vp.height
        } else {
            0
        }
    } else if cy < vp.spec_min_y() + SCROLLOFF {
        if cy >= SCROLLOFF {
            cy - SCROLLOFF
        } else {
            0
        }
    } else {
        vp.origin.y as int
    }
}

/// The horizontal origin of a viewport after rebalancing around a cursor
/// column: scrolled right so its right edge is one past the cursor, or left
/// to the cursor itself.
pub open spec fn spec_scroll_x(vp: Span, cx: int) -> int {
    if cx >= vp.spec_max_x() {
        cx - vp.width + 1
    } else if cx < vp.spec_min_x() {
        cx
    } else {
        vp.origin.x as int
    }
}

/// Scrolling never moves the viewport above the document's start nor its
/// bottom edge past the document's end: for a viewport inside a document at
/// least as tall as it, rebalancing around any cursor line inside the
/// document keeps it inside the document.
pub proof fn lemma_scroll_y_in_document(vp: Span, cy: int, lines: int)
    requires
        vp.wf(),
        vp.spec_max_y() <= lines,
        vp.height <= lines,
        0 <= cy < lines,
    ensures
        spec_scroll_y(vp, cy, lines) >= 0,
        spec_scroll_y(vp, cy, lines) + vp.height <= lines,
{
}

/// A cursor that keeps its padding from every viewport edge leaves the
/// viewport unchanged.
pub proof fn lemma_scroll_within_padding_keeps_viewport(vp: Span, cx: int, cy: int, lines: int)
    requires
        vp.wf(),
        vp.spec_min_y() + SCROLLOFF <= cy,
        cy + SCROLLOFF <= vp.spec_max_y(),
        vp.spec_min_x() <= cx < vp.spec_max_x(),
    ensures
        spec_scroll_y(vp, cy, lines) == vp.origin.y,
        spec_scroll_x(vp, cx) == vp.origin.x,
{
}

impl Buffer {
    /// Moves the cursor by the given translation: the horizontal part resets
    /// the desired column; the vertical part snaps against the new line's
    /// width; and a visible viewport is rebalanced to keep the cursor padded
    /// from its edges.
    pub fn move_offset(&mut self, offset: Offset)
        requires
            old(self).wf(),
            offset.dx > isize::MIN,
            offset.dy > isize::MIN,
            old(self).cursor.pos.x + offset.dx >= 0,
            old(self).cursor.pos.x + offset.dx <= usize::MAX,
            offset.dy != 0 ==> 0 <= old(self).cursor.pos.y + offset.dy < old(self).storage@.len(),
            old(self).storage@.len() + SCROLLOFF <= usize::MAX,
            old(self).viewport is Some ==> old(self).viewport->Some_0.wf(),
        ensures
            final(self).wf(),
            final(self).cursor == spec_moved_cursor(
                old(self).cursor,
                offset,
                old(self).storage@,
            ),
            final(self).viewport == match old(self).viewport {
                None => None::<Span>,
                Some(vp) => Some(
                    Span {
                        origin: Position {
                            x: spec_scroll_x(
                                vp,
                                spec_moved_cursor(
                                    old(self).cursor,
                                    offset,
                                    old(self).storage@,
                                ).pos.x as int,
                            ) as usize,
                            y: spec_scroll_y(
                                vp,
                                spec_moved_cursor(
                                    old(self).cursor,
                                    offset,
                                    old(self).storage@,
                                ).pos.y as int,
                                old(self).storage@.len() as int,
                            ) as usize,
                        },
                        width: vp.width,
                        height: vp.height,
                    },
                ),
            },
            final(self).storage == old(self).storage,
            final(self).version == old(self).version,
            final(self).path == old(self).path,
            final(self).syntax == old(self).syntax,
            final(self).highlighter == old(self).highlighter,
    {
        if offset.dx != 0 {
            self.cursor.move_x(offset.dx);
        }
        if offset.dy != 0 {
            self.cursor.move_y(offset.dy);
            let width = self.storage.line_width(self.cursor.y());
            self.cursor.snap(width);
        }
        let lines = self.storage.lines();
        let cy = self.cursor.y();
        let cx = self.cursor.x();
        if let Some(viewport) = &mut self.viewport {
            if cy > SCROLLOFF && cy + SCROLLOFF > viewport.max_y() {
                let max_y = if cy + SCROLLOFF < lines {
                    cy + SCROLLOFF
                } else {
                    lines
                };
                viewport.origin.y = if max_y >= viewport.height {
                    max_y - viewport.height
                } else {
                    0
                };
            } else if cy < SCROLLOFF || cy - SCROLLOFF < viewport.min_y() {
                viewport.origin.y = if cy >= SCROLLOFF {
                    cy - SCROLLOFF
                } else {
                    0
                };
            }
            if cx >= viewport.max_x() {
                viewport.origin.x = cx - viewport.width + 1;
            } else if cx < viewport.min_x() {
                viewport.origin.x = cx;
            }
        }
    }

    /// Moves the cursor down a single line; a no-op on the last line.
    pub fn move_down(&mut self)
        requires
            old(self).wf(),
            old(self).storage@.len() + SCROLLOFF <= usize::MAX,
            old(self).viewport is Some ==> old(self).viewport->Some_0.wf(),
        ensures
            final(self).wf(),
            old(self).cursor.pos.y == old(self).storage@.len() - 1 ==> *final(self) == *old(self),
            old(self).cursor.pos.y < old(self).storage@.len() - 1 ==> spec_move_offset_holds(
                *old(self),
                *final(self),
                Offset { dx: 0, dy: 1 },
            ),
    {
        if self.at_last_line() {
            return ;
        }
        self.move_offset(Offset::new(0, 1));
    }

    /// Moves the cursor up a single line; a no-op on the first line.
    pub fn move_up(&mut self)
        requires
            old(self).wf(),
            old(self).storage@.len() + SCROLLOFF <= usize::MAX,
            old(self).viewport is Some ==> old(self).viewport->Some_0.wf(),
        ensures
            final(self).wf(),
            old(self).cursor.pos.y == 0 ==> *final(self) == *old(self),
            old(self).cursor.pos.y > 0 ==> spec_move_offset_holds(
                *old(self),
                *final(self),
                Offset { dx: 0, dy: -1isize },
            ),
    {
        if self.at_first_line() {
            return ;
        }
        self.move_offset(Offset::new(0, -1));
    }

    /// Moves the cursor right a single column; a no-op at the end of the
    /// line, measured in display columns.
    pub fn move_right(&mut self)
        requires
            old(self).wf(),
            old(self).storage@.len() + SCROLLOFF <= usize::MAX,
            old(self).viewport is Some ==> old(self).viewport->Some_0.wf(),
        ensures
            final(self).wf(),
            old(self).cursor.pos.x >= display_width_of(
                old(self).storage@[old(self).cursor.pos.y as int],
            ) ==> *final(self) == *old(self),
            old(self).cursor.pos.x < display_width_of(
                old(self).storage@[old(self).cursor.pos.y as int],
            ) ==> spec_move_offset_holds(*old(self), *final(self), Offset { dx: 1, dy: 0 }),
    {
        if self.at_end_of_line() {
            return ;
        }
        self.move_offset(Offset::new(1, 0));
    }

    /// Moves the cursor left a single column; a no-op in the leftmost column.
    pub fn move_left(&mut self)
        requires
            old(self).wf(),
            old(self).storage@.len() + SCROLLOFF <= usize::MAX,
            old(self).viewport is Some ==> old(self).viewport->Some_0.wf(),
        ensures
            final(self).wf(),
            old(self).cursor.pos.x == 0 ==> *final(self) == *old(self),
            old(self).cursor.pos.x > 0 ==> spec_move_offset_holds(
                *old(self),
                *final(self),
                Offset { dx: -1isize, dy: 0 },
            ),
    {
        if self.at_beginning_of_line() {
            return ;
        }
        self.move_offset(Offset::new(-1, 0));
    }

    /// Whether the cursor is on the first line of the buffer.
    fn at_first_line(&self) -> (r: bool)
        ensures
            r == (self.cursor.pos.y == 0),
    {
        self.cursor.y() == 0
    }

    /// Whether the cursor is on the last line of the buffer.
    fn at_last_line(&self) -> (r: bool)
        requires
            self.storage.wf(),
        ensures
            r == (self.cursor.pos.y == self.storage@.len() - 1),
    {
        self.cursor.y() == self.storage.lines() - 1
    }

    /// Whether the cursor is in the leftmost column.
    fn at_beginning_of_line(&self) -> (r: bool)
        ensures
            r == (self.cursor.pos.x == 0),
    {
        self.cursor.x() == 0
    }

    /// Whether the cursor is at or past the rightmost display column of its
    /// line.
    fn at_end_of_line(&self) -> (r: bool)
        requires
            self.wf(),
        ensures
            r == (self.cursor.pos.x >= display_width_of(self.storage@[self.cursor.pos.y as int])),
    {
        self.cursor.x() >= self.storage.line_width(self.cursor.y())
    }
}

/// The cursor after a composite move: the horizontal delta applied first,
/// then the vertical delta with a snap against the new line's display width.
pub open spec fn spec_moved_cursor(c: Cursor, offset: Offset, lines: Seq<Seq<u8>>) -> Cursor {
    let x1 = if offset.dx != 0 {
        c.pos.x + offset.dx
    } else {
        c.pos.x as int
    };
    let d1 = if offset.dx != 0 {
        x1
    } else {
        c.desired_col as int
    };
    if offset.dy != 0 {
        let y2 = c.pos.y + offset.dy;
        let x2 = spec_snap(x1, d1, display_width_of(lines[y2]) as int);
        Cursor { pos: Position { x: x2 as usize, y: y2 as usize }, desired_col: d1 as usize }
    } else {
        Cursor { pos: Position { x: x1 as usize, y: c.pos.y }, desired_col: d1 as usize }
    }
}

/// What one guarded single-step motion guarantees: exactly the composite-move
/// result for its translation, with everything but cursor and viewport
/// untouched.
pub open spec fn spec_move_offset_holds(pre: Buffer, post: Buffer, offset: Offset) -> bool {
    &&& post.cursor == spec_moved_cursor(pre.cursor, offset, pre.storage@)
    &&& post.viewport == match pre.viewport {
        None => None::<Span>,
        Some(vp) => Some(
            Span {
                origin: Position {
                    x: spec_scroll_x(
                        vp,
                        spec_moved_cursor(pre.cursor, offset, pre.storage@).pos.x as int,
                    ) as usize,
                    y: spec_scroll_y(
                        vp,
                        spec_moved_cursor(pre.cursor, offset, pre.storage@).pos.y as int,
                        pre.storage@.len() as int,
                    ) as usize,
                },
                width: vp.width,
                height: vp.height,
            },
        ),
    }
    &&& post.storage == pre.storage
    &&& post.version == pre.version
    &&& post.path == pre.path
    &&& post.syntax == pre.syntax
    &&& post.highlighter == pre.highlighter
}

} // verus!
