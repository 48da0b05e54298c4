//! Text editing buffers and buffer management.

use vstd::prelude::*;

use crate::color::Color;
use crate::highlight::Highlighter;
use crate::motion::Cursor;
use crate::screen::{prefix_width, row_chars_written, Bounds, Coordinates, Screen};
use crate::storage::Storage;
use crate::syntax::Syntax;
use crate::units::Position;
use crate::units::Span;

verus! {

/// An in-memory view of a document.
pub struct Buffer {
    /// The file path this buffer represents, if it has one.
    pub path: Option<String>,
    /// The document contents.
    pub storage: Storage,
    /// The version of the document: increases by one with every applied edit.
    pub version: u32,
    /// The cursor position within the buffer.
    pub cursor: Cursor,
    /// The syntax associated with the buffer; `None` if unknown or plain
    /// text.
    pub syntax: Option<Syntax>,
    /// The highlighter, present while a supported syntax is active.
    pub highlighter: Option<Highlighter>,
    /// The visible portion of the buffer; `None` while the buffer is hidden.
    pub viewport: Option<Span>,
}

impl Buffer {
    /// A well-formed buffer has well-formed storage and its cursor on an
    /// existing line.
    pub open spec fn wf(&self) -> bool {
        &&& self.storage.wf()
        &&& self.cursor.pos.y < self.storage@.len()
    }

    /// Returns an empty, hidden, plain-text buffer.
    pub fn new() -> (r: Buffer)
        ensures
            r.wf(),
            r.path is None,
            r.storage@ =~= seq![Seq::<u8>::empty()],
            r.version == 0,
            r.cursor == Cursor::spec_default(),
            r.syntax is None,
            r.highlighter is None,
            r.viewport is None,
    {
        Buffer {
            path: None,
            storage: Storage::new(),
            version: 0,
            cursor: Cursor::default(),
            syntax: None,
            highlighter: None,
            viewport: None,
        }
    }

    /// Returns a hidden, plain-text buffer holding the given text.
    pub fn from_text(text: &[u8]) -> (r: Buffer)
        requires
            text@.len() < usize::MAX,
        ensures
            r.wf(),
            r.path is None,
            r.storage@ == crate::storage::normalize_lines(crate::storage::split_lines(text@)),
            r.version == 0,
            r.cursor == Cursor::spec_default(),
            r.syntax is None,
            r.highlighter is None,
            r.viewport is None,
    {
        Buffer {
            path: None,
            storage: Storage::from_text(text),
            version: 0,
            cursor: Cursor::default(),
            syntax: None,
            highlighter: None,
            viewport: None,
        }
    }

    /// Returns a hidden, plain-text buffer holding the given lines, as read
    /// from a file.
    pub fn from_lines(lines: Vec<Vec<u8>>) -> (r: Buffer)
        requires
            forall|i: int|
                0 <= i < lines@.len() ==> !lines@[i]@.contains(crate::storage::NEWLINE),
            crate::storage::flatten_lines(
                crate::storage::normalize_lines(lines@.map_values(|l: Vec<u8>| l@)),
            ).len() <= usize::MAX,
        ensures
            r.wf(),
            r.path is None,
            r.storage@ == crate::storage::normalize_lines(lines@.map_values(|l: Vec<u8>| l@)),
            r.version == 0,
            r.cursor == Cursor::spec_default(),
            r.syntax is None,
            r.highlighter is None,
            r.viewport is None,
    {
        Buffer {
            path: None,
            storage: Storage::from_lines(lines),
            version: 0,
            cursor: Cursor::default(),
            syntax: None,
            highlighter: None,
            viewport: None,
        }
    }

    /// Associates a syntax with the buffer, creating a fresh highlighter for
    /// it exactly when tree-sitter supports the syntax; no syntax removes the
    /// highlighter.
    pub fn set_syntax(&mut self, syntax: Option<Syntax>)
        ensures
            final(self).syntax == syntax,
            syntax is None ==> final(self).highlighter is None,
            syntax is Some ==> (final(self).highlighter is Some)
                == crate::highlight::highlight_support_of(syntax->Some_0),
            final(self).highlighter is Some ==> final(self).highlighter->Some_0.fresh(),
            final(self).path == old(self).path,
            final(self).storage == old(self).storage,
            final(self).version == old(self).version,
            final(self).cursor == old(self).cursor,
            final(self).viewport == old(self).viewport,
    {
        self.syntax = syntax;
        self.highlighter = match syntax {
            Some(s) => Highlighter::new(s),
            None => None,
        };
    }

    /// Returns the cursor position relative to the viewport. The buffer must
    /// be visible, with the cursor inside the viewport.
    pub fn cursor_position(&self) -> (r: Position)
        requires
            self.viewport is Some,
            self.viewport->Some_0.origin.x <= self.cursor.pos.x,
            self.viewport->Some_0.origin.y <= self.cursor.pos.y,
        ensures
            r.x == self.cursor.pos.x - self.viewport->Some_0.origin.x,
            r.y == self.cursor.pos.y - self.viewport->Some_0.origin.y,
    {
        let viewport = self.viewport.as_ref().unwrap();
        Position::new(self.cursor.x() - viewport.min_x(), self.cursor.y() - viewport.min_y())
    }
}

/// Bytes reinterpreted as characters, one per byte. This matches the plain
/// draw path's fixed-width treatment of text; only the highlighter's path is
/// width-aware.
pub open spec fn bytes_as_chars(bytes: Seq<u8>) -> Seq<char> {
    bytes.map_values(|b: u8| b as char)
}

/// The text drawn into screen row `r` for a document seen through a viewport:
/// the visible part of the corresponding line, or a filler `~` past the end
/// of the document, or nothing when the viewport's left edge is beyond the
/// line.
pub open spec fn draw_row_text(lines: Seq<Seq<u8>>, vp: Span, r: int) -> Seq<char> {
    let li = vp.origin.y + r;
    if li < lines.len() {
        let line = lines[li];
        if vp.origin.x < line.len() {
            let hi = if vp.spec_max_x() < line.len() {
                vp.spec_max_x()
            } else {
                line.len() as int
            };
            bytes_as_chars(line.subrange(vp.origin.x as int, hi))
        } else {
            Seq::empty()
        }
    } else {
        if vp.origin.x < 1 {
            seq!['~']
        } else {
            Seq::empty()
        }
    }
}

/// Returns the bytes of a slice reinterpreted as characters, one per byte.
fn bytes_to_chars(bytes: &[u8]) -> (r: Vec<char>)
    ensures
        r@ == bytes_as_chars(bytes@),
{
    let mut out: Vec<char> = Vec::new();
    let mut i: usize = 0;
    while i < bytes.len()
        invariant
            i <= bytes@.len(),
            out@ =~= bytes_as_chars(bytes@.take(i as int)),
        decreases bytes@.len() - i,
    {
        out.push(bytes[i] as char);
        proof {
            assert(bytes@.take(i + 1) =~= bytes@.take(i as int).push(bytes@[i as int]));
            assert(out@ =~= bytes_as_chars(bytes@.take(i + 1)));
        }
        i = i + 1;
    }
    proof {
        assert(bytes@.take(bytes@.len() as int) =~= bytes@);
    }
    out
}

impl Buffer {
    /// Draws the visible portion of the buffer: each visible row carries the
    /// clipped text of its line, rows past the end of the document carry a
    /// filler `~`, the unused left column below the end of the document is
    /// colored with the fixed marker color, and the highlighter's colors are
    /// overlaid last, confined to the viewport rectangle. A hidden buffer
    /// draws nothing.
    #[verifier::loop_isolation(false)]
    #[verifier::rlimit(100)]
    pub fn draw(&mut self, screen: &mut Screen, bounds: Bounds)
        requires
            old(self).wf(),
            old(screen).wf(),
            old(screen).size.width >= 1,
            bounds.min.x == 0 && bounds.min.y == 0,
            bounds.max.y <= old(screen).size.height,
            old(self).viewport is Some ==> ({
                let vp = old(self).viewport->Some_0;
                &&& vp.wf()
                &&& vp.origin.y <= old(self).storage@.len()
                &&& vp.height <= old(screen).size.height as int
                &&& vp.width <= old(screen).size.width as int
            }),
        ensures
            final(screen).wf(),
            final(screen).size == old(screen).size,
            final(self).storage == old(self).storage,
            final(self).cursor == old(self).cursor,
            final(self).version == old(self).version,
            final(self).syntax == old(self).syntax,
            final(self).path == old(self).path,
            final(self).viewport == old(self).viewport,
            old(self).viewport is None ==> *final(screen) == *old(screen),
            old(self).viewport is Some ==> ({
                let vp = old(self).viewport->Some_0;
                let lines = old(self).storage@;
                let fill_lo = lines.len() - vp.origin.y;
                // the text layer: each visible row carries its clipped text
                &&& forall|r: int|
                    0 <= r < vp.height ==> row_chars_written(
                        *final(screen),
                        *old(screen),
                        r,
                        0,
                        draw_row_text(lines, vp, r),
                    )
                // rows below the viewport keep their text
                &&& forall|r: int, c: int|
                    vp.height <= r < final(screen).size.height && 0 <= c < final(screen).size.width ==> (#[trigger] (final(screen)).spec_cell(r, c)).c == old(screen).spec_cell(r, c).c
                // colors change only inside the viewport rectangle and in the
                // filler marker column
                &&& forall|r: int, c: int|
                    0 <= r < final(screen).size.height && 0 <= c < final(screen).size.width && !(r
                        < vp.height && c < vp.width) && !(c == 0 && fill_lo <= r < bounds.max.y)
                        ==> (#[trigger] (final(screen)).spec_cell(r, c)).color == old(screen).spec_cell(r, c).color
                // the filler marker column below the viewport keeps its color
                &&& forall|r: int|
                    fill_lo <= r < bounds.max.y && vp.height <= r ==> (#[trigger] (final(screen)).spec_cell(r, 0)).color == Some(Color { r: 0, g: 0, b: 0xFF })
                // without a highlighter the color layer is exact
                &&& old(self).highlighter is None ==> (forall|r: int, c: int|
                    0 <= r < final(screen).size.height && 0 <= c < final(screen).size.width && !(c
                        == 0 && fill_lo <= r < bounds.max.y) ==> (#[trigger] (final(screen)).spec_cell(r, c)).color == old(screen).spec_cell(r, c).color) && (forall|
                    r: int,
                |
                    fill_lo <= r < bounds.max.y ==> (#[trigger] (final(screen)).spec_cell(
                        r,
                        0,
                    )).color == Some(Color { r: 0, g: 0, b: 0xFF }))
            }),
    {
        let viewport = match self.viewport {
            Some(viewport) => viewport,
            None => {
                return ;
            },
        };
        let ghost lines = self.storage@;
        let ghost pre = *screen;
        let mut r: usize = 0;
        while r < viewport.height
            invariant
                screen.wf(),
                screen.size == pre.size,
                r <= viewport.height,
                forall|k: int|
                    0 <= k < r ==> row_chars_written(
                        *screen,
                        pre,
                        k,
                        0,
                        draw_row_text(lines, viewport, k),
                    ),
                forall|k: int, c: int|
                    r <= k < screen.size.height && 0 <= c < screen.size.width ==> (
                    #[trigger] screen.spec_cell(k, c)).c == pre.spec_cell(k, c).c,
                forall|i: int| 0 <= i < screen@.len() ==> screen@[i].color == pre@[i].color,
            decreases viewport.height - r,
        {
            let ghost before = *screen;
            let li = viewport.min_y() + r;
            let mut wrote = false;
            let ghost text = draw_row_text(lines, viewport, r as int);
            if li < self.storage.lines() {
                let line = self.storage.line(li);
                if viewport.min_x() < line.len() {
                    let hi = if viewport.max_x() < line.len() {
                        viewport.max_x()
                    } else {
                        line.len()
                    };
                    let chars = bytes_to_chars(
                        vstd::slice::slice_subrange(line.as_slice(), viewport.min_x(), hi),
                    );
                    proof {
                        assert(chars@ == text);
                    }
                    screen.write(Coordinates::new(0, r as u16), chars.as_slice());
                    wrote = true;
                }
            } else {
                if viewport.min_x() < 1 {
                    let tilde: Vec<char> = vec!['~'];
                    proof {
                        assert(tilde@ =~= text);
                    }
                    screen.write(Coordinates::new(0, r as u16), tilde.as_slice());
                    wrote = true;
                }
            }
            proof {
                if !wrote {
                    assert(text =~= Seq::<char>::empty());
                }
                assert(row_chars_written(*screen, before, r as int, 0, text));
                crate::screen::lemma_row_chars_written_rebase(
                    *screen,
                    before,
                    pre,
                    r as int,
                    0,
                    text,
                );
                assert forall|k: int|
                    0 <= k < r implies row_chars_written(
                    *screen,
                    pre,
                    k,
                    0,
                    draw_row_text(lines, viewport, k),
                ) by {
                    crate::screen::lemma_row_chars_written_stable(
                        *screen,
                        before,
                        pre,
                        k,
                        0,
                        draw_row_text(lines, viewport, k),
                    );
                }
            }
            r = r + 1;
        }
        // Color the unused left column below the end of the document with the
        // fixed marker color.
        let ghost mid = *screen;
        let fill_lo = self.storage.lines() - viewport.min_y();
        let mut row: usize = fill_lo;
        while row < bounds.max.y as usize
            invariant
                screen.wf(),
                screen.size == pre.size,
                fill_lo <= row,
                row <= bounds.max.y || row == fill_lo,
                forall|i: int| 0 <= i < screen@.len() ==> screen@[i].c == mid@[i].c,
                forall|k: int|
                    fill_lo <= k < row && k < screen.size.height ==> (#[trigger] screen.spec_cell(
                        k,
                        0,
                    )).color == Some(Color { r: 0, g: 0, b: 0xFF }),
                forall|k: int, c: int|
                    0 <= k < screen.size.height && 0 <= c < screen.size.width && !(c == 0 && fill_lo
                        <= k < row) ==> (#[trigger] screen.spec_cell(k, c)).color == mid.spec_cell(
                        k,
                        c,
                    ).color,
            decreases bounds.max.y - row,
        {
            screen.apply_color(
                Bounds::new(
                    Coordinates::new(0, row as u16),
                    Coordinates::new(1, (row + 1) as u16),
                ),
                Color::blue(),
            );
            row = row + 1;
        }
        // Overlay the highlighter's colors last.
        let ghost colored = *screen;
        match &mut self.highlighter {
            Some(highlighter) => {
                highlighter.highlight(screen, &self.storage, viewport);
                proof {
            assert forall|k: int|
                0 <= k < viewport.height implies row_chars_written(
                *screen,
                pre,
                k,
                0,
                draw_row_text(lines, viewport, k),
            ) by {
                let tk = draw_row_text(lines, viewport, k);
                assert(row_chars_written(mid, pre, k, 0, tk));
                assert forall|c: int|
                    0 <= c < mid.size.width implies (#[trigger] colored.spec_cell(k, c)).c
                    == mid.spec_cell(k, c).c by {
                    crate::screen::lemma_cell_index_bound(
                        mid.size.width as int,
                        mid.size.height as int,
                        k,
                        c,
                    );
                }
                crate::screen::lemma_row_chars_written_stable(colored, mid, pre, k, 0, tk);
                assert forall|c: int|
                    0 <= c < colored.size.width implies (#[trigger] screen.spec_cell(k, c)).c
                    == colored.spec_cell(k, c).c by {
                    crate::screen::lemma_cell_index_bound(
                        colored.size.width as int,
                        colored.size.height as int,
                        k,
                        c,
                    );
                }
                crate::screen::lemma_row_chars_written_stable(*screen, colored, pre, k, 0, tk);
            }
            assert forall|k: int, c: int|
                viewport.height <= k < screen.size.height && 0 <= c < screen.size.width implies (
            #[trigger] screen.spec_cell(k, c)).c == pre.spec_cell(k, c).c by {
                crate::screen::lemma_cell_index_bound(
                    mid.size.width as int,
                    mid.size.height as int,
                    k,
                    c,
                );
                assert(mid.spec_cell(k, c).c == pre.spec_cell(k, c).c);
                assert(colored.spec_cell(k, c).c == mid.spec_cell(k, c).c);
                assert(screen.spec_cell(k, c).c == colored.spec_cell(k, c).c);
            }
            assert forall|k: int, c: int|
                0 <= k < screen.size.height && 0 <= c < screen.size.width && !(k < viewport.height
                    && c < viewport.width) && !(c == 0 && lines.len() - viewport.origin.y <= k
                    < bounds.max.y) implies (#[trigger] screen.spec_cell(k, c)).color
                == pre.spec_cell(k, c).color by {
                crate::screen::lemma_cell_index_bound(
                    mid.size.width as int,
                    mid.size.height as int,
                    k,
                    c,
                );
                assert(mid.spec_cell(k, c).color == pre.spec_cell(k, c).color);
                assert(colored.spec_cell(k, c).color == mid.spec_cell(k, c).color);
                assert(screen.spec_cell(k, c).color == colored.spec_cell(k, c).color);
            }
            assert forall|k: int|
                lines.len() - viewport.origin.y <= k < bounds.max.y && viewport.height
                    <= k implies (#[trigger] screen.spec_cell(k, 0)).color == Some(
                Color { r: 0, g: 0, b: 0xFF },
            ) by {
                assert(k < screen.size.height);
                assert(colored.spec_cell(k, 0).color == Some(Color { r: 0, g: 0, b: 0xFF }));
                assert(screen.spec_cell(k, 0).color == colored.spec_cell(k, 0).color);
            }
                }
            },
            None => {
                proof {
            assert forall|k: int|
                0 <= k < viewport.height implies row_chars_written(
                *screen,
                pre,
                k,
                0,
                draw_row_text(lines, viewport, k),
            ) by {
                let tk = draw_row_text(lines, viewport, k);
                assert(row_chars_written(mid, pre, k, 0, tk));
                assert forall|c: int|
                    0 <= c < mid.size.width implies (#[trigger] colored.spec_cell(k, c)).c
                    == mid.spec_cell(k, c).c by {
                    crate::screen::lemma_cell_index_bound(
                        mid.size.width as int,
                        mid.size.height as int,
                        k,
                        c,
                    );
                }
                crate::screen::lemma_row_chars_written_stable(colored, mid, pre, k, 0, tk);
                assert forall|c: int|
                    0 <= c < colored.size.width implies (#[trigger] screen.spec_cell(k, c)).c
                    == colored.spec_cell(k, c).c by {
                    crate::screen::lemma_cell_index_bound(
                        colored.size.width as int,
                        colored.size.height as int,
                        k,
                        c,
                    );
                }
                crate::screen::lemma_row_chars_written_stable(*screen, colored, pre, k, 0, tk);
            }
            assert forall|k: int, c: int|
                viewport.height <= k < screen.size.height && 0 <= c < screen.size.width implies (
            #[trigger] screen.spec_cell(k, c)).c == pre.spec_cell(k, c).c by {
                crate::screen::lemma_cell_index_bound(
                    mid.size.width as int,
                    mid.size.height as int,
                    k,
                    c,
                );
                assert(mid.spec_cell(k, c).c == pre.spec_cell(k, c).c);
                assert(colored.spec_cell(k, c).c == mid.spec_cell(k, c).c);
                assert(screen.spec_cell(k, c).c == colored.spec_cell(k, c).c);
            }
            assert forall|k: int, c: int|
                0 <= k < screen.size.height && 0 <= c < screen.size.width && !(k < viewport.height
                    && c < viewport.width) && !(c == 0 && lines.len() - viewport.origin.y <= k
                    < bounds.max.y) implies (#[trigger] screen.spec_cell(k, c)).color
                == pre.spec_cell(k, c).color by {
                crate::screen::lemma_cell_index_bound(
                    mid.size.width as int,
                    mid.size.height as int,
                    k,
                    c,
                );
                assert(mid.spec_cell(k, c).color == pre.spec_cell(k, c).color);
                assert(colored.spec_cell(k, c).color == mid.spec_cell(k, c).color);
                assert(screen.spec_cell(k, c).color == colored.spec_cell(k, c).color);
            }
            assert forall|k: int|
                lines.len() - viewport.origin.y <= k < bounds.max.y && viewport.height
                    <= k implies (#[trigger] screen.spec_cell(k, 0)).color == Some(
                Color { r: 0, g: 0, b: 0xFF },
            ) by {
                assert(k < screen.size.height);
                assert(colored.spec_cell(k, 0).color == Some(Color { r: 0, g: 0, b: 0xFF }));
                assert(screen.spec_cell(k, 0).color == colored.spec_cell(k, 0).color);
            }
                    assert forall|k: int, c: int|
                        0 <= k < screen.size.height && 0 <= c < screen.size.width && !(c == 0
                            && lines.len() - viewport.origin.y <= k < bounds.max.y) implies (
                    #[trigger] screen.spec_cell(k, c)).color == pre.spec_cell(k, c).color by {
                        crate::screen::lemma_cell_index_bound(
                            mid.size.width as int,
                            mid.size.height as int,
                            k,
                            c,
                        );
                        assert(mid.spec_cell(k, c).color == pre.spec_cell(k, c).color);
                        assert(colored.spec_cell(k, c).color == mid.spec_cell(k, c).color);
                    }
                    assert forall|k: int|
                        lines.len() - viewport.origin.y <= k < bounds.max.y implies (
                    #[trigger] screen.spec_cell(k, 0)).color == Some(
                        Color { r: 0, g: 0, b: 0xFF },
                    ) by {
                        assert(k < screen.size.height);
                        assert(colored.spec_cell(k, 0).color == Some(
                            Color { r: 0, g: 0, b: 0xFF },
                        ));
                    }
                }
            },
        }
    }

    /// A snapshot of the document for protocol synchronization: its path, its
    /// language identifier, its version and its full text. `None` for a
    /// buffer with no path; a buffer with a path must have a known syntax.
    pub fn document_snapshot(&self) -> (r: Option<DocumentSnapshot>)
        requires
            self.storage.wf(),
            self.path is Some ==> self.syntax is Some,
        ensures
            (r is Some) == (self.path is Some),
            r is Some ==> ({
                let snap = r->Some_0;
                &&& snap.path@ == self.path->Some_0@
                &&& (self.syntax == Some(Syntax::Rust) ==> snap.language_id@ == "rust"@)
                &&& (self.syntax == Some(Syntax::JavaScript) ==> snap.language_id@
                    == "javascript"@)
                &&& snap.version == self.version
                &&& snap.text@ == self.storage.content()
            }),
    {
        let path = match &self.path {
            Some(p) => p.clone(),
            None => {
                return None;
            },
        };
        let syntax = self.syntax.unwrap();
        let mut language_id = String::new();
        language_id.append(syntax.into_language_id());
        Some(
            DocumentSnapshot {
                path,
                language_id,
                version: self.version,
                text: self.storage.to_text(),
            },
        )
    }
}

/// A document-identity snapshot: enough to open or synchronize a document
/// session with an external language server.
pub struct DocumentSnapshot {
    pub path: String,
    pub language_id: String,
    pub version: u32,
    pub text: Vec<u8>,
}

impl Default for Buffer {
    /// An empty, hidden, plain-text buffer.
    fn default() -> (r: Buffer)
        ensures
            r.wf(),
            r.path is None,
            r.version == 0,
            r.syntax is None,
            r.highlighter is None,
            r.viewport is None,
    {
        Buffer::new()
    }
}

/// Container for all open buffers, with one of them active.
pub struct Buffers {
    buffers: Vec<Buffer>,
    current: usize,
}

impl Buffers {
    /// The open buffers, in order.
    pub closed spec fn list(&self) -> Seq<Buffer> {
        self.buffers@
    }

    /// The index of the active buffer.
    pub closed spec fn active(&self) -> int {
        self.current as int
    }

    /// A well-formed container is non-empty and its active index valid.
    pub open spec fn wf(&self) -> bool {
        &&& self.list().len() >= 1
        &&& 0 <= self.active() < self.list().len()
    }

    /// Returns a container of the given buffers with the first one active; an
    /// empty list is padded with one empty buffer.
    pub fn from_list(buffers: Vec<Buffer>) -> (r: Buffers)
        ensures
            r.wf(),
            r.active() == 0,
            buffers@.len() > 0 ==> r.list() == buffers@,
            buffers@.len() == 0 ==> r.list().len() == 1 && r.list()[0].wf(),
    {
        let mut buffers = buffers;
        if buffers.is_empty() {
            buffers.push(Buffer::new());
        }
        Buffers { buffers, current: 0 }
    }

    /// The active buffer.
    pub fn current(&self) -> (r: &Buffer)
        requires
            self.wf(),
        ensures
            *r == self.list()[self.active()],
    {
        &self.buffers[self.current]
    }

    /// The active buffer, borrowed mutably.
    pub fn current_mut(&mut self) -> (r: &mut Buffer)
        requires
            old(self).wf(),
        ensures
            *r == old(self).list()[old(self).active()],
            final(self).list() == old(self).list().update(old(self).active(), *final(r)),
            final(self).active() == old(self).active(),
    {
        &mut self.buffers[self.current]
    }

    /// The open buffers, in order.
    pub fn all(&self) -> (r: &Vec<Buffer>)
        ensures
            r@ == self.list(),
    {
        &self.buffers
    }
}

} // verus!
