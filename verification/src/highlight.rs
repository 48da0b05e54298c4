//! Incremental-parse-driven syntax highlighting.
//!
//! The parser, parse trees and compiled highlight queries come from the
//! tree-sitter library and are opaque values here. Everything this module
//! decides about them — how capture names resolve to colors, and how a
//! capture's region is clipped to the viewport and painted — is verified, and
//! takes the parser's answers as plain values.

use vstd::prelude::*;

use crate::color::Color;
use crate::screen::{Bounds, Coordinates, Screen};
use crate::storage::Storage;
use crate::syntax::Syntax;
use crate::units::Span;
use tree_sitter::StreamingIterator;
use vstd::string::StrSliceExecFns;
use vstd::string::StringExecFns;

verus! {

#[verifier::external_type_specification]
#[verifier::external_body]
pub struct ExLanguage(tree_sitter::Language);

#[verifier::external_type_specification]
#[verifier::external_body]
pub struct ExParser(tree_sitter::Parser);

#[verifier::external_type_specification]
#[verifier::external_body]
pub struct ExQuery(tree_sitter::Query);

#[verifier::external_type_specification]
#[verifier::external_body]
pub struct ExTree(tree_sitter::Tree);

/// Whether tree-sitter accepts the bundled grammar and highlight query of a
/// syntax. The outcome is decided by fixed, compiled-in constants, so it is
/// the same in every process; this name stands for it.
pub uninterp spec fn highlight_support_of(s: Syntax) -> bool;

/// Relies on tree_sitter's `Query::new` and `Parser::set_language` over
/// tree_sitter_rust's bundled grammar and highlight query: both act on fixed
/// constants, failing only by returning `Err`, and the combined outcome is
/// the fixed fact named `highlight_support_of(Syntax::Rust)`.
#[verifier::external_body]
fn ts_rust_highlighter() -> (r: Option<(tree_sitter::Parser, tree_sitter::Query)>)
    ensures
        (r is Some) == highlight_support_of(Syntax::Rust),
{
    let language = tree_sitter::Language::new(tree_sitter_rust::LANGUAGE);
    let query = match tree_sitter::Query::new(&language, tree_sitter_rust::HIGHLIGHTS_QUERY) {
        Ok(query) => query,
        Err(_) => return None,
    };
    let mut parser = tree_sitter::Parser::new();
    if parser.set_language(&language).is_err() {
        return None;
    }
    Some((parser, query))
}

/// Relies on tree_sitter's `Query::new` and `Parser::set_language` over
/// tree_sitter_javascript's bundled grammar and highlight query: both act on
/// fixed constants, failing only by returning `Err`, and the combined outcome
/// is the fixed fact named `highlight_support_of(Syntax::JavaScript)`.
#[verifier::external_body]
fn ts_javascript_highlighter() -> (r: Option<(tree_sitter::Parser, tree_sitter::Query)>)
    ensures
        (r is Some) == highlight_support_of(Syntax::JavaScript),
{
    let language = tree_sitter::Language::new(tree_sitter_javascript::LANGUAGE);
    let query = match tree_sitter::Query::new(&language, tree_sitter_javascript::HIGHLIGHT_QUERY) {
        Ok(query) => query,
        Err(_) => return None,
    };
    let mut parser = tree_sitter::Parser::new();
    if parser.set_language(&language).is_err() {
        return None;
    }
    Some((parser, query))
}

/// Relies on tree_sitter's `Query::capture_names`: the name of each capture of
/// the query, in capture-index order.
#[verifier::external_body]
fn ts_capture_names(query: &tree_sitter::Query) -> Vec<String> {
    query.capture_names().iter().map(|n| n.to_string()).collect()
}

/// Relies on tree_sitter's `Parser::parse_with_options`: re-parses the
/// document pulled chunk by chunk from the storage, reusing an earlier tree
/// where one is given, and returns the new tree, or `None` if parsing was
/// impossible.
#[verifier::external_body]
fn ts_parse(
    parser: &mut tree_sitter::Parser,
    storage: &Storage,
    old_tree: Option<&tree_sitter::Tree>,
) -> Option<tree_sitter::Tree>
    requires
        storage.wf(),
{
    parser.parse_with_options(
        &mut |_byte: usize, point: tree_sitter::Point| storage.parse_chunk(point.row, point.column),
        old_tree,
        None,
    )
}

/// Relies on tree_sitter's `Tree::edit`: informs the tree of an edit, giving
/// the replaced byte range and the equivalent positions, so that the next
/// parse can reuse unaffected subtrees.
#[verifier::external_body]
fn ts_tree_edit(
    tree: &mut tree_sitter::Tree,
    start_byte: usize,
    old_end_byte: usize,
    new_end_byte: usize,
    start: crate::units::BytePosition,
    old_end: crate::units::BytePosition,
    new_end: crate::units::BytePosition,
) {
    tree.edit(
        &tree_sitter::InputEdit {
            start_byte,
            old_end_byte,
            new_end_byte,
            start_position: tree_sitter::Point { row: start.y, column: start.x },
            old_end_position: tree_sitter::Point { row: old_end.y, column: old_end.x },
            new_end_position: tree_sitter::Point { row: new_end.y, column: new_end.x },
        },
    );
}

/// The region of one query capture, as rows and columns of the document, with
/// the index of the capture name it matched.
#[derive(Debug, Clone, Copy, PartialEq, Eq, Structural)]
pub struct CaptureSpan {
    pub index: usize,
    pub start_row: usize,
    pub start_col: usize,
    pub end_row: usize,
    pub end_col: usize,
}

#[verifier::external_type_specification]
#[verifier::external_body]
pub struct ExPoint(tree_sitter::Point);

#[verifier::external_type_specification]
#[verifier::external_body]
pub struct ExNode<'tree>(tree_sitter::Node<'tree>);

#[verifier::external_type_specification]
#[verifier::external_body]
pub struct ExQueryCapture<'tree>(tree_sitter::QueryCapture<'tree>);

/// Relies on tree_sitter's `Point`: builds the point for a `(row, column)`
/// pair.
#[verifier::external_body]
fn ts_point(p: (usize, usize)) -> tree_sitter::Point {
    tree_sitter::Point { row: p.0, column: p.1 }
}

/// Relies on tree_sitter's `Node::range`: answers a node's text from the
/// storage, for the query's predicates.
#[verifier::external_body]
fn ts_node_text(storage: &Storage, node: tree_sitter::Node) -> Vec<u8>
    requires
        storage.wf(),
{
    let r = node.range();
    storage.slice_range(
        crate::units::BytePosition { x: r.start_point.column, y: r.start_point.row },
        crate::units::BytePosition { x: r.end_point.column, y: r.end_point.row },
    )
}

/// Relies on tree_sitter's `Node::range`: the region one capture covers, with
/// the index of the capture name it matched.
#[verifier::external_body]
fn ts_capture_span(capture: &tree_sitter::QueryCapture) -> CaptureSpan {
    let r = capture.node.range();
    CaptureSpan {
        index: capture.index as usize,
        start_row: r.start_point.row,
        start_col: r.start_point.column,
        end_row: r.end_point.row,
        end_col: r.end_point.column,
    }
}

/// Relies on tree_sitter's `QueryCursor`: runs the query over the tree,
/// restricted to the given point range, and hands every capture back as a
/// plain region.
#[verifier::external_body]
fn ts_collect_captures(
    query: &tree_sitter::Query,
    tree: &tree_sitter::Tree,
    storage: &Storage,
    start: (usize, usize),
    end: (usize, usize),
) -> Vec<CaptureSpan>
    requires
        storage.wf(),
{
    let mut cursor = tree_sitter::QueryCursor::new();
    cursor.set_point_range(ts_point(start)..ts_point(end));
    let text = |node: tree_sitter::Node| std::iter::once(ts_node_text(storage, node));
    let mut captures = cursor.captures(query, tree.root_node(), text);
    let mut out = Vec::new();
    while let Some((m, _)) = captures.next() {
        for capture in m.captures() {
            out.push(ts_capture_span(capture));
        }
    }
    out
}

/// The built-in theme: each capture name with its display color.
pub open spec fn theme_table() -> Seq<(Seq<char>, Color)> {
    seq![
        ("attribute"@, Color { r: 0xff, g: 0x00, b: 0x00 }),
        ("comment"@, Color { r: 0x4e, g: 0x4e, b: 0x4e }),
        ("constant"@, Color { r: 0x00, g: 0x87, b: 0x87 }),
        ("escape"@, Color { r: 0xff, g: 0xd7, b: 0x00 }),
        ("function"@, Color { r: 0xff, g: 0x87, b: 0x00 }),
        ("function.macro"@, Color { r: 0xff, g: 0x00, b: 0x00 }),
        ("keyword"@, Color { r: 0xff, g: 0xff, b: 0x00 }),
        ("label"@, Color { r: 0xff, g: 0xff, b: 0x00 }),
        ("number"@, Color { r: 0x00, g: 0x87, b: 0x87 }),
        ("operator"@, Color { r: 0xff, g: 0xff, b: 0x00 }),
        ("string"@, Color { r: 0x5f, g: 0x87, b: 0xd7 }),
        ("type"@, Color { r: 0x00, g: 0xff, b: 0x00 }),
    ]
}

/// The color of an exact capture name in a theme table, if the table has it.
pub open spec fn lookup(table: Seq<(Seq<char>, Color)>, name: Seq<char>) -> Option<Color>
    decreases table.len(),
{
    if table.len() == 0 {
        None
    } else if table[0].0 == name {
        Some(table[0].1)
    } else {
        lookup(table.drop_first(), name)
    }
}

/// The index of the last `.` of a capture name, or `-1` if it has none.
pub open spec fn last_dot(name: Seq<char>) -> int
    decreases name.len(),
{
    if name.len() == 0 {
        -1
    } else if name.last() == '.' {
        name.len() - 1
    } else {
        last_dot(name.drop_last())
    }
}

/// The color a capture name resolves to: its exact entry if the table has
/// one, and otherwise the resolution of the name with its last dotted suffix
/// stripped, until no suffix remains.
pub open spec fn resolve(table: Seq<(Seq<char>, Color)>, name: Seq<char>) -> Option<Color>
    decreases name.len(),
{
    if lookup(table, name) is Some {
        lookup(table, name)
    } else if 0 <= last_dot(name) < name.len() {
        resolve(table, name.take(last_dot(name)))
    } else {
        None
    }
}

/// A capture name with no exact theme entry resolves exactly as the name
/// shortened to its last dot resolves.
pub proof fn lemma_resolve_fallback(table: Seq<(Seq<char>, Color)>, name: Seq<char>)
    requires
        lookup(table, name) is None,
        0 <= last_dot(name) < name.len(),
    ensures
        resolve(table, name) == resolve(table, name.take(last_dot(name))),
{
}

/// Returns the built-in theme as an explicit table.
fn default_theme() -> (r: Vec<(String, Color)>)
    ensures
        r@.map_values(|p: (String, Color)| (p.0@, p.1)) == theme_table(),
{
    let mut v: Vec<(String, Color)> = Vec::new();
    v.push((String::from_str("attribute"), Color::new(0xff, 0x00, 0x00)));
    v.push((String::from_str("comment"), Color::new(0x4e, 0x4e, 0x4e)));
    v.push((String::from_str("constant"), Color::new(0x00, 0x87, 0x87)));
    v.push((String::from_str("escape"), Color::new(0xff, 0xd7, 0x00)));
    v.push((String::from_str("function"), Color::new(0xff, 0x87, 0x00)));
    v.push((String::from_str("function.macro"), Color::new(0xff, 0x00, 0x00)));
    v.push((String::from_str("keyword"), Color::new(0xff, 0xff, 0x00)));
    v.push((String::from_str("label"), Color::new(0xff, 0xff, 0x00)));
    v.push((String::from_str("number"), Color::new(0x00, 0x87, 0x87)));
    v.push((String::from_str("operator"), Color::new(0xff, 0xff, 0x00)));
    v.push((String::from_str("string"), Color::new(0x5f, 0x87, 0xd7)));
    v.push((String::from_str("type"), Color::new(0x00, 0xff, 0x00)));
    proof {
        assert(v@.map_values(|p: (String, Color)| (p.0@, p.1)) =~= theme_table());
    }
    v
}

/// Returns the color of an exact capture name in the table, if any.
#[verifier::loop_isolation(false)]
fn lookup_color(table: &Vec<(String, Color)>, name: &String) -> (r: Option<Color>)
    ensures
        r == lookup(table@.map_values(|p: (String, Color)| (p.0@, p.1)), name@),
{
    let ghost tbl = table@.map_values(|p: (String, Color)| (p.0@, p.1));
    let mut i: usize = 0;
    proof {
        assert(tbl.skip(0) =~= tbl);
    }
    while i < table.len()
        invariant
            i <= table@.len(),
            lookup(tbl, name@) == lookup(tbl.skip(i as int), name@),
        decreases table@.len() - i,
    {
        proof {
            assert(tbl.skip(i as int).len() > 0);
            assert(tbl.skip(i as int)[0] == tbl[i as int]);
            assert(tbl.skip(i as int).drop_first() =~= tbl.skip(i as int + 1));
        }
        let entry = &table[i];
        if entry.0.eq(name) {
            return Some(entry.1);
        }
        i = i + 1;
    }
    proof {
        assert(tbl.skip(tbl.len() as int) =~= Seq::<(Seq<char>, Color)>::empty());
    }
    None
}

/// Returns the color a capture name resolves to in the table, following the
/// dotted-suffix fallback.
#[verifier::loop_isolation(false)]
fn resolve_color(table: &Vec<(String, Color)>, name: &str) -> (r: Option<Color>)
    ensures
        r == resolve(table@.map_values(|p: (String, Color)| (p.0@, p.1)), name@),
{
    let ghost tbl = table@.map_values(|p: (String, Color)| (p.0@, p.1));
    let mut cur: String = name.to_owned();
    let mut len: usize = cur.as_str().unicode_len();
    proof {
        assert(resolve(tbl, name@) == resolve(tbl, cur@));
    }
    loop
        invariant
            len == cur@.len(),
            resolve(tbl, name@) == resolve(tbl, cur@),
        decreases cur@.len(),
    {
        if let Some(c) = lookup_color(table, &cur) {
            return Some(c);
        }
        // Scan backwards for the last dot of the current name.
        let mut j: usize = len;
        proof {
            assert(cur@.take(len as int) =~= cur@);
        }
        while j > 0
            invariant
                j <= cur@.len(),
                last_dot(cur@) == last_dot(cur@.take(j as int)),
            decreases j,
        {
            if cur.as_str().get_char(j - 1) == '.' {
                break ;
            }
            proof {
                assert(cur@.take(j as int).drop_last() =~= cur@.take(j - 1));
                assert(cur@.take(j as int).last() != '.');
            }
            j = j - 1;
        }
        if j == 0 {
            proof {
                assert(cur@.take(0) =~= Seq::<char>::empty());
                assert(last_dot(cur@) == -1);
            }
            return None;
        }
        proof {
            assert(cur@.take(j as int).last() == '.');
            assert(last_dot(cur@) == j - 1);
        }
        let next = cur.as_str().substring_char(0, j - 1).to_owned();
        proof {
            assert(next@ =~= cur@.take(j - 1));
        }
        cur = next;
        len = j - 1;
    }
}

/// A theme: the display color, if any, for each capture index of one compiled
/// highlight query.
pub struct Theme {
    colors: Vec<Option<Color>>,
}

impl View for Theme {
    type V = Seq<Option<Color>>;

    closed spec fn view(&self) -> Seq<Option<Color>> {
        self.colors@
    }
}

impl Theme {
    /// Builds the theme for the given capture names: each name is resolved
    /// against the built-in table, with dotted-suffix fallback.
    #[verifier::loop_isolation(false)]
    pub fn new(capture_names: &Vec<String>) -> (t: Theme)
        ensures
            t@.len() == capture_names@.len(),
            forall|i: int|
                0 <= i < capture_names@.len() ==> t@[i] == resolve(
                    theme_table(),
                    capture_names@[i]@,
                ),
    {
        let table = default_theme();
        let mut colors: Vec<Option<Color>> = Vec::new();
        let mut i: usize = 0;
        while i < capture_names.len()
            invariant
                i <= capture_names@.len(),
                colors@.len() == i as int,
                table@.map_values(|p: (String, Color)| (p.0@, p.1)) == theme_table(),
                forall|k: int|
                    0 <= k < i ==> colors@[k] == resolve(theme_table(), capture_names@[k]@),
            decreases capture_names@.len() - i,
        {
            colors.push(resolve_color(&table, capture_names[i].as_str()));
            i = i + 1;
        }
        Theme { colors }
    }

    /// The number of capture indices the theme covers.
    pub fn len(&self) -> (r: usize)
        ensures
            r == self@.len(),
    {
        self.colors.len()
    }

    /// The color for a capture index, or `None` if the capture is uncolored.
    pub fn color_for(&self, capture_index: usize) -> (r: Option<Color>)
        requires
            capture_index < self@.len(),
        ensures
            r == self@[capture_index as int],
    {
        self.colors[capture_index]
    }
}

/// Converts a viewport span to the pair of parser points that bound it: the
/// first point covered, and the point at the exclusive column end of the last
/// covered row.
pub fn span_to_points(span: Span) -> (r: ((usize, usize), (usize, usize)))
    requires
        span.wf(),
    ensures
        r.0.0 == span.spec_min_y() && r.0.1 == span.spec_min_x(),
        r.1.0 == span.spec_max_y() - 1 && r.1.1 == span.spec_max_x(),
{
    ((span.min_y(), span.min_x()), (span.max_y() - 1, span.max_x()))
}

/// Whether a screen keeps the characters of another: only colors may differ.
pub open spec fn same_chars(a: Screen, b: Screen) -> bool {
    &&& a.size == b.size
    &&& a@.len() == b@.len()
    &&& forall|i: int| 0 <= i < a@.len() ==> a@[i].c == b@[i].c
}

/// Whether a screen keeps the colors of another outside the viewport-sized
/// rectangle at its top left.
pub open spec fn colors_outside_kept(a: Screen, b: Screen, viewport: Span) -> bool {
    forall|r: int, c: int|
        0 <= r < a.size.height && 0 <= c < a.size.width && !(r < viewport.height && c
            < viewport.width) ==> (#[trigger] a.spec_cell(r, c)).color == b.spec_cell(r, c).color
}

/// The viewport-relative start column of a capture's rectangle on one
/// document row: its start column on the row the capture begins on, the
/// viewport's left edge below it, shifted to viewport coordinates.
pub open spec fn clip_start(cap: CaptureSpan, vp: Span, y: int) -> int {
    if y == cap.start_row && cap.start_col > vp.spec_min_x() {
        cap.start_col - vp.spec_min_x()
    } else {
        0
    }
}

/// The viewport-relative exclusive end column of a capture's rectangle on one
/// document row: its end column on the row the capture ends on, the
/// viewport's right edge above it, clipped and shifted to viewport
/// coordinates.
pub open spec fn clip_end(cap: CaptureSpan, vp: Span, y: int) -> int {
    let raw = if y == cap.end_row && (cap.end_col as int) < vp.spec_max_x() {
        cap.end_col as int
    } else {
        vp.spec_max_x()
    };
    if raw >= vp.spec_min_x() {
        raw - vp.spec_min_x()
    } else {
        0
    }
}

/// The last document row a capture may paint within a viewport.
pub open spec fn clip_last_row(cap: CaptureSpan, vp: Span) -> int {
    if (cap.end_row as int) < vp.spec_max_y() - 1 {
        cap.end_row as int
    } else {
        vp.spec_max_y() - 1
    }
}

/// The screen row a document row paints to: shifted by the viewport's top
/// edge, rows above it clamped to the top row.
pub open spec fn paint_row(vp: Span, y: int) -> int {
    if y >= vp.spec_min_y() {
        y - vp.spec_min_y()
    } else {
        0
    }
}

/// Whether painting a capture gets as far as a document row: painting stops
/// at the first covered row whose clipped rectangle vanishes.
pub open spec fn paint_reaches(cap: CaptureSpan, vp: Span, y: int) -> bool {
    forall|y2: int|
        cap.start_row <= y2 < y ==> #[trigger] clip_start(cap, vp, y2) < clip_end(cap, vp, y2)
}

/// Whether painting a capture colors the screen cell at `(r, c)`: some
/// covered document row that painting gets past has a clipped rectangle over
/// the cell.
pub open spec fn paints(cap: CaptureSpan, vp: Span, r: int, c: int) -> bool {
    exists|y: int|
        #![trigger clip_start(cap, vp, y)]
        cap.start_row <= y <= clip_last_row(cap, vp) && paint_reaches(cap, vp, y + 1) && r
            == paint_row(vp, y) && clip_start(cap, vp, y) <= c < clip_end(cap, vp, y)
}

/// Whether a cell was colored by the capture's rows before row `y`.
pub open spec fn paints_below(cap: CaptureSpan, vp: Span, r: int, c: int, y: int) -> bool {
    exists|y2: int|
        #![trigger clip_start(cap, vp, y2)]
        cap.start_row <= y2 < y && y2 <= clip_last_row(cap, vp) && r == paint_row(vp, y2)
            && clip_start(cap, vp, y2) <= c < clip_end(cap, vp, y2)
}

/// A painted cell lies inside the viewport-sized rectangle at the screen's
/// top left.
pub proof fn lemma_paints_within(cap: CaptureSpan, vp: Span, r: int, c: int)
    requires
        vp.wf(),
        paints(cap, vp, r, c),
    ensures
        0 <= r < vp.height,
        0 <= c < vp.width,
{
}

/// Paints one capture's region onto the screen: the region is split into one
/// rectangle per covered line, each clipped to the viewport's edges and
/// shifted to viewport-relative coordinates, and painting stops at a line
/// whose clipped rectangle vanishes. Exactly the cells of those rectangles
/// take the color; every other cell, and every character, is untouched.
#[verifier::loop_isolation(false)]
pub fn highlight_range(screen: &mut Screen, viewport: Span, cap: &CaptureSpan, color: Color)
    requires
        old(screen).wf(),
        viewport.wf(),
        viewport.width <= old(screen).size.width,
        viewport.height <= old(screen).size.height,
    ensures
        final(screen).wf(),
        same_chars(*final(screen), *old(screen)),
        forall|r: int, c: int|
            0 <= r < (final(screen)).size.height && 0 <= c < (final(screen)).size.width ==> (
            #[trigger] (final(screen)).spec_cell(r, c)).color == (if paints(*cap, viewport, r, c) {
                Some(color)
            } else {
                old(screen).spec_cell(r, c).color
            }),
    {
        let ghost cp = *cap;
        let min_x = viewport.min_x();
        let min_y = viewport.min_y();
        let max_x = viewport.max_x();
        let max_y = viewport.max_y();
        let last_row = if cap.end_row < max_y - 1 {
            cap.end_row
        } else {
            max_y - 1
        };
        let mut y = cap.start_row;
        while y <= last_row
            invariant
                screen.wf(),
                screen.size == old(screen).size,
                same_chars(*screen, *old(screen)),
                cap.start_row <= y,
                paint_reaches(cp, viewport, y as int),
                forall|r: int, c: int|
                    0 <= r < screen.size.height && 0 <= c < screen.size.width ==> (
                    #[trigger] screen.spec_cell(r, c)).color == (if paints_below(
                        cp,
                        viewport,
                        r,
                        c,
                        y as int,
                    ) {
                        Some(color)
                    } else {
                        old(screen).spec_cell(r, c).color
                    }),
            decreases last_row + 1 - y,
        {
            let raw_start = if y == cap.start_row && cap.start_col > min_x {
                cap.start_col
            } else {
                min_x
            };
            let start_x = raw_start - min_x;
            let raw_end = if y == cap.end_row && cap.end_col < max_x {
                cap.end_col
            } else {
                max_x
            };
            let end_x = if raw_end >= min_x {
                raw_end - min_x
            } else {
                0
            };
            proof {
                assert(start_x as int == clip_start(cp, viewport, y as int));
                assert(end_x as int == clip_end(cp, viewport, y as int));
            }
            if start_x >= end_x {
                // A line whose clipped rectangle vanishes ends the whole
                // highlight, covering a capture that starts at the viewport's
                // very edge.
                proof {
                    assert forall|r: int, c: int|
                        0 <= r < screen.size.height && 0 <= c < screen.size.width implies (
                    #[trigger] screen.spec_cell(r, c)).color == (if paints(cp, viewport, r, c) {
                        Some(color)
                    } else {
                        old(screen).spec_cell(r, c).color
                    }) by {
                        if paints(cp, viewport, r, c) {
                            let w = choose|w: int|
                                #![trigger clip_start(cp, viewport, w)]
                                cp.start_row <= w <= clip_last_row(cp, viewport) && paint_reaches(
                                    cp,
                                    viewport,
                                    w + 1,
                                ) && r == paint_row(viewport, w) && clip_start(cp, viewport, w)
                                    <= c < clip_end(cp, viewport, w);
                            if w >= y {
                                assert(clip_start(cp, viewport, y as int) < clip_end(
                                    cp,
                                    viewport,
                                    y as int,
                                ));
                            }
                            assert(paints_below(cp, viewport, r, c, y as int));
                        } else {
                            if paints_below(cp, viewport, r, c, y as int) {
                                let w = choose|w: int|
                                    #![trigger clip_start(cp, viewport, w)]
                                    cp.start_row <= w < y && w <= clip_last_row(cp, viewport) && r
                                        == paint_row(viewport, w) && clip_start(cp, viewport, w)
                                        <= c < clip_end(cp, viewport, w);
                                assert(paint_reaches(cp, viewport, w + 1));
                                assert(paints(cp, viewport, r, c));
                            }
                        }
                    }
                }
                return ;
            }
            let row = if y >= min_y {
                y - min_y
            } else {
                0
            };
            let ghost before = *screen;
            screen.apply_color(
                Bounds::new(
                    Coordinates::new(start_x as u16, row as u16),
                    Coordinates::new(end_x as u16, (row + 1) as u16),
                ),
                color,
            );
            proof {
                assert(row as int == paint_row(viewport, y as int));
                assert forall|r: int, c: int|
                    0 <= r < screen.size.height && 0 <= c < screen.size.width implies (
                #[trigger] screen.spec_cell(r, c)).color == (if paints_below(
                    cp,
                    viewport,
                    r,
                    c,
                    y + 1,
                ) {
                    Some(color)
                } else {
                    old(screen).spec_cell(r, c).color
                }) by {
                    if r == row && start_x <= c < end_x {
                        assert(clip_start(cp, viewport, y as int) <= c < clip_end(
                            cp,
                            viewport,
                            y as int,
                        ));
                        assert(paints_below(cp, viewport, r, c, y + 1));
                    } else {
                        assert(screen.spec_cell(r, c).color == before.spec_cell(r, c).color);
                        if paints_below(cp, viewport, r, c, y + 1) {
                            let w = choose|w: int|
                                #![trigger clip_start(cp, viewport, w)]
                                cp.start_row <= w < y + 1 && w <= clip_last_row(cp, viewport) && r
                                    == paint_row(viewport, w) && clip_start(cp, viewport, w) <= c
                                    < clip_end(cp, viewport, w);
                            if w == y {
                                assert(false);
                            }
                            assert(paints_below(cp, viewport, r, c, y as int));
                        } else {
                            if paints_below(cp, viewport, r, c, y as int) {
                                let w = choose|w: int|
                                    #![trigger clip_start(cp, viewport, w)]
                                    cp.start_row <= w < y && w <= clip_last_row(cp, viewport) && r
                                        == paint_row(viewport, w) && clip_start(cp, viewport, w)
                                        <= c < clip_end(cp, viewport, w);
                                assert(paints_below(cp, viewport, r, c, y + 1));
                            }
                        }
                    }
                }
            }
            y = y + 1;
        }
        proof {
            assert forall|r: int, c: int|
                0 <= r < screen.size.height && 0 <= c < screen.size.width implies (
            #[trigger] screen.spec_cell(r, c)).color == (if paints(cp, viewport, r, c) {
                Some(color)
            } else {
                old(screen).spec_cell(r, c).color
            }) by {
                if paints(cp, viewport, r, c) {
                    let w = choose|w: int|
                        #![trigger clip_start(cp, viewport, w)]
                        cp.start_row <= w <= clip_last_row(cp, viewport) && paint_reaches(
                            cp,
                            viewport,
                            w + 1,
                        ) && r == paint_row(viewport, w) && clip_start(cp, viewport, w) <= c
                            < clip_end(cp, viewport, w);
                    assert(w < y);
                    assert(paints_below(cp, viewport, r, c, y as int));
                } else {
                    if paints_below(cp, viewport, r, c, y as int) {
                        let w = choose|w: int|
                            #![trigger clip_start(cp, viewport, w)]
                            cp.start_row <= w < y && w <= clip_last_row(cp, viewport) && r
                                == paint_row(viewport, w) && clip_start(cp, viewport, w) <= c
                                < clip_end(cp, viewport, w);
                        assert(paint_reaches(cp, viewport, w + 1));
                        assert(paints(cp, viewport, r, c));
                    }
                }
            }
        }
    }

/// Incremental syntax highlighting for one buffer: parser state, the previous
/// parse tree once one exists, the compiled highlight query, and the theme its
/// capture names resolve through.
pub struct Highlighter {
    parser: tree_sitter::Parser,
    query: tree_sitter::Query,
    old_tree: Option<tree_sitter::Tree>,
    theme: Theme,
}

impl Highlighter {
    /// Whether the highlighter is fresh: no previous parse tree yet, so the
    /// next parse cannot reuse one. A first successful parse makes it warm.
    pub closed spec fn fresh(&self) -> bool {
        self.old_tree is None
    }

    /// Creates a fresh highlighter for the given language; one exists exactly
    /// when tree-sitter accepts the language's bundled grammar and highlight
    /// query.
    pub fn new(language: Syntax) -> (r: Option<Highlighter>)
        ensures
            (r is Some) == highlight_support_of(language),
            r is Some ==> r->Some_0.fresh(),
    {
        let (parser, query) = match (match language {
            Syntax::Rust => ts_rust_highlighter(),
            Syntax::JavaScript => ts_javascript_highlighter(),
        }) {
            Some(configured) => configured,
            None => {
                return None;
            },
        };
        let names = ts_capture_names(&query);
        let theme = Theme::new(&names);
        Some(Highlighter { parser, query, old_tree: None, theme })
    }

    /// Informs the incremental parser of an edit: the byte range replaced, the
    /// new end of the replacement, and the equivalent positions. Must be
    /// called for every edit before the next highlight.
    pub fn on_edit(
        &mut self,
        start_byte: usize,
        old_end_byte: usize,
        new_end_byte: usize,
        start: crate::units::BytePosition,
        old_end: crate::units::BytePosition,
        new_end: crate::units::BytePosition,
    ) {
        if let Some(tree) = &mut self.old_tree {
            ts_tree_edit(tree, start_byte, old_end_byte, new_end_byte, start, old_end, new_end);
        }
    }

    /// Applies syntax highlighting for the visible portion of the document to
    /// the screen. The document is re-parsed through the storage's pull
    /// source; if no tree comes back, the frame is skipped. Each capture whose
    /// name resolves to a color is painted, clipped to the viewport. Only
    /// colors change, and only within the viewport-sized rectangle at the
    /// screen's top left.
    #[verifier::loop_isolation(false)]
    pub fn highlight(&mut self, screen: &mut Screen, storage: &Storage, viewport: Span)
        requires
            old(screen).wf(),
            storage.wf(),
            viewport.wf(),
            viewport.width <= old(screen).size.width,
            viewport.height <= old(screen).size.height,
        ensures
            final(screen).wf(),
            same_chars(*final(screen), *old(screen)),
            colors_outside_kept(*final(screen), *old(screen), viewport),
    {
        let tree = match ts_parse(&mut self.parser, storage, self.old_tree.as_ref()) {
            Some(tree) => tree,
            None => {
                return ;
            },
        };
        let (start, end) = span_to_points(viewport);
        let captures = ts_collect_captures(&self.query, &tree, storage, start, end);
        self.old_tree = Some(tree);
        let mut k: usize = 0;
        while k < captures.len()
            invariant
                screen.wf(),
                screen.size == old(screen).size,
                same_chars(*screen, *old(screen)),
                colors_outside_kept(*screen, *old(screen), viewport),
            decreases captures@.len() - k,
        {
            let cap = &captures[k];
            if cap.index < self.theme.len() {
                if let Some(color) = self.theme.color_for(cap.index) {
                    let ghost prev = *screen;
                    highlight_range(screen, viewport, cap, color);
                    proof {
                        assert forall|r: int, c: int|
                            0 <= r < screen.size.height && 0 <= c < screen.size.width && !(r
                                < viewport.height && c < viewport.width) implies (
                        #[trigger] screen.spec_cell(r, c)).color == old(screen).spec_cell(
                            r,
                            c,
                        ).color by {
                            if paints(*cap, viewport, r, c) {
                                lemma_paints_within(*cap, viewport, r, c);
                            }
                            assert(prev.spec_cell(r, c).color == old(screen).spec_cell(r, c).color);
                        }
                    }
                }
            }
            k = k + 1;
        }
    }
}

} // verus!
