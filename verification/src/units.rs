//! Strongly-distinguished coordinate types.
//!
//! Text positions are ambiguous when expressed as bare integers: an offset may
//! count bytes, codepoints or display columns, and may be absolute or
//! line-relative. Each coordinate space gets its own type here, so that mixing
//! spaces is a type error. Conversions happen only through the documented
//! [`crate::Storage`] methods.

use vstd::prelude::*;

verus! {

/// A 1-dimensional absolute byte offset into the logical document (the lines
/// joined by `\n`).
#[derive(Debug, Clone, Copy, PartialEq, Eq, Structural)]
pub struct ByteIndex {
    pub i: usize,
}

impl ByteIndex {
    /// Wraps a raw byte offset.
    pub fn new(i: usize) -> (r: ByteIndex)
        ensures
            r.i == i,
    {
        ByteIndex { i }
    }
}

/// A 2-dimensional position of a byte: `y` is the line number, `x` the byte
/// offset within that line.
#[derive(Debug, Clone, Copy, PartialEq, Eq, Structural)]
pub struct BytePosition {
    pub x: usize,
    pub y: usize,
}

impl BytePosition {
    /// Returns the position with the given in-line offset `x` and row `y`.
    pub fn new(x: usize, y: usize) -> (r: BytePosition)
        ensures
            r.x == x && r.y == y,
    {
        BytePosition { x, y }
    }

    /// The origin position.
    pub fn zero() -> (r: BytePosition)
        ensures
            r.x == 0 && r.y == 0,
    {
        BytePosition { x: 0, y: 0 }
    }
}

/// A 2-dimensional position of a codepoint: `y` is the line number, `x` the
/// codepoint offset within that line. Used only at the boundary to external
/// change-notification protocols.
#[derive(Debug, Clone, Copy, PartialEq, Eq, Structural)]
pub struct CharPosition {
    pub x: usize,
    pub y: usize,
}

impl CharPosition {
    /// Returns the position with the given in-line codepoint offset `x` and
    /// row `y`.
    pub fn new(x: usize, y: usize) -> (r: CharPosition)
        ensures
            r.x == x && r.y == y,
    {
        CharPosition { x, y }
    }

    /// The origin position.
    pub fn zero() -> (r: CharPosition)
        ensures
            r.x == 0 && r.y == 0,
    {
        CharPosition { x: 0, y: 0 }
    }
}

/// A position in buffer-internal column/line coordinates, as used by the
/// cursor and the viewport.
#[derive(Debug, Clone, Copy, PartialEq, Eq, Structural)]
pub struct Position {
    pub x: usize,
    pub y: usize,
}

impl Position {
    /// Returns the position with the given column `x` and line `y`.
    pub fn new(x: usize, y: usize) -> (r: Position)
        ensures
            r.x == x && r.y == y,
    {
        Position { x, y }
    }

    /// The origin position.
    pub fn zero() -> (r: Position)
        ensures
            r.x == 0 && r.y == 0,
    {
        Position { x: 0, y: 0 }
    }
}

/// A translation within a buffer, used for cursor and viewport movement.
#[derive(Debug, Clone, Copy, PartialEq, Eq, Structural)]
pub struct Offset {
    pub dx: isize,
    pub dy: isize,
}

impl Offset {
    /// Returns the translation moving `dx` columns and `dy` lines.
    pub fn new(dx: isize, dy: isize) -> (r: Offset)
        ensures
            r.dx == dx && r.dy == dy,
    {
        Offset { dx, dy }
    }
}

/// A rectangular area of text in buffer coordinates, endpoint-exclusive on
/// both axes.
#[derive(Debug, Clone, Copy, PartialEq, Eq, Structural)]
pub struct Span {
    pub origin: Position,
    pub width: usize,
    pub height: usize,
}

impl Span {
    /// A well-formed span is non-degenerate and its exclusive endpoints do not
    /// overflow the machine word.
    pub open spec fn wf(self) -> bool {
        &&& self.width >= 1
        &&& self.height >= 1
        &&& self.origin.x + self.width <= usize::MAX
        &&& self.origin.y + self.height <= usize::MAX
    }

    /// Returns the span with origin `(x, y)` and the given width and height.
    pub fn new(x: usize, y: usize, width: usize, height: usize) -> (r: Span)
        ensures
            r == (Span { origin: Position { x, y }, width, height }),
    {
        Span { origin: Position { x, y }, width, height }
    }

    /// Returns the span of the given size whose origin is `(0, 0)`.
    pub fn from_size(width: usize, height: usize) -> (r: Span)
        ensures
            r == (Span { origin: Position { x: 0, y: 0 }, width, height }),
    {
        Span { origin: Position { x: 0, y: 0 }, width, height }
    }

    /// The inclusive left edge.
    pub open spec fn spec_min_x(self) -> int {
        self.origin.x as int
    }

    /// The exclusive right edge.
    pub open spec fn spec_max_x(self) -> int {
        self.origin.x + self.width
    }

    /// The inclusive top edge.
    pub open spec fn spec_min_y(self) -> int {
        self.origin.y as int
    }

    /// The exclusive bottom edge.
    pub open spec fn spec_max_y(self) -> int {
        self.origin.y + self.height
    }

    /// The inclusive left edge.
    pub fn min_x(&self) -> (r: usize)
        ensures
            r == self.spec_min_x(),
    {
        self.origin.x
    }

    /// The exclusive right edge.
    pub fn max_x(&self) -> (r: usize)
        requires
            self.origin.x + self.width <= usize::MAX,
        ensures
            r == self.spec_max_x(),
    {
        self.origin.x + self.width
    }

    /// The inclusive top edge.
    pub fn min_y(&self) -> (r: usize)
        ensures
            r == self.spec_min_y(),
    {
        self.origin.y
    }

    /// The exclusive bottom edge.
    pub fn max_y(&self) -> (r: usize)
        requires
            self.origin.y + self.height <= usize::MAX,
        ensures
            r == self.spec_max_y(),
    {
        self.origin.y + self.height
    }
}

} // verus!
