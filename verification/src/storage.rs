//! Line-based storage for buffer contents.
//!
//! The storage holds an ordered sequence of lines. A `\n` byte is implicitly
//! inserted after every line, including the last, so the logical document is
//! always newline-terminated. Lines themselves never contain `\n`.

use vstd::prelude::*;

use crate::units::{ByteIndex, BytePosition, CharPosition};

verus! {

/// The line separator byte.
pub const NEWLINE: u8 = 10;

/// The logical document denoted by a sequence of lines: the lines joined with
/// a `\n` terminator after each one, the last included.
pub open spec fn flatten_lines(lines: Seq<Seq<u8>>) -> Seq<u8>
    decreases lines.len(),
{
    if lines.len() == 0 {
        Seq::empty()
    } else {
        lines[0] + seq![NEWLINE] + flatten_lines(lines.drop_first())
    }
}

/// Splits a byte sequence on `\n`, keeping a (possibly empty) trailing
/// segment after the last separator. The result always has at least one
/// segment.
pub open spec fn split_keep(t: Seq<u8>) -> Seq<Seq<u8>>
    decreases t.len(),
{
    if t.len() == 0 {
        seq![Seq::<u8>::empty()]
    } else if t[0] == NEWLINE {
        seq![Seq::<u8>::empty()] + split_keep(t.drop_first())
    } else {
        let rest = split_keep(t.drop_first());
        seq![seq![t[0]] + rest[0]] + rest.drop_first()
    }
}

/// Splits a byte sequence into logical lines, with the same meaning as
/// `str::lines` restricted to `\n` separators: a trailing `\n` does not open
/// a final empty line, and the empty input has no lines.
pub open spec fn split_lines(t: Seq<u8>) -> Seq<Seq<u8>> {
    if t.len() == 0 {
        Seq::empty()
    } else if t.last() == NEWLINE {
        split_keep(t).drop_last()
    } else {
        split_keep(t)
    }
}

/// Pads an empty line sequence to a single empty line.
pub open spec fn normalize_lines(lines: Seq<Seq<u8>>) -> Seq<Seq<u8>> {
    if lines.len() == 0 {
        seq![Seq::<u8>::empty()]
    } else {
        lines
    }
}

/// The row and column at which a byte offset falls, found by walking the
/// cumulative line lengths. A byte offset equal to a line's length addresses
/// that line's implicit `\n` terminator.
pub open spec fn spec_position(lines: Seq<Seq<u8>>, byte: int) -> (int, int)
    decreases lines.len(),
{
    if lines.len() == 0 {
        (0, 0)
    } else if byte <= lines[0].len() {
        (0, byte)
    } else {
        let p = spec_position(lines.drop_first(), byte - lines[0].len() - 1);
        (p.0 + 1, p.1)
    }
}

/// The number of codepoints that start within the first `n` bytes of a line,
/// counting every byte that is not a UTF-8 continuation byte.
pub open spec fn char_count(line: Seq<u8>, n: int) -> int
    decreases n,
{
    if n <= 0 {
        0
    } else {
        char_count(line, n - 1) + if vstd::utf8::is_continuation_byte(line[n - 1]) {
            0int
        } else {
            1int
        }
    }
}

/// Underlying storage for buffer contents.
///
/// The storage always contains at least one (possibly empty) line.
#[derive(Debug)]
pub struct Storage {
    /// The lines of the document. `\n` is implicit after each one.
    lines: Vec<Vec<u8>>,
}

impl View for Storage {
    type V = Seq<Seq<u8>>;

    closed spec fn view(&self) -> Seq<Seq<u8>> {
        self.lines@.map_values(|l: Vec<u8>| l@)
    }
}

impl Storage {
    /// A well-formed storage has at least one line, no line contains `\n`,
    /// and the logical document fits in a machine word.
    pub open spec fn wf(&self) -> bool {
        &&& self@.len() >= 1
        &&& forall|i: int| 0 <= i < self@.len() ==> !self@[i].contains(NEWLINE)
        &&& flatten_lines(self@).len() <= usize::MAX
    }

    /// The logical document: the lines joined with a `\n` after each.
    pub open spec fn content(&self) -> Seq<u8> {
        flatten_lines(self@)
    }

    /// Returns a new storage holding a single empty line.
    pub fn new() -> (r: Storage)
        ensures
            r.wf(),
            r@ =~= seq![Seq::<u8>::empty()],
            r.content() =~= seq![NEWLINE],
    {
        let lines = vec![Vec::new()];
        let r = Storage { lines };
        proof {
            assert(r@ =~= seq![Seq::<u8>::empty()]);
            reveal_with_fuel(flatten_lines, 2);
            assert(r.content() =~= seq![NEWLINE]);
        }
        r
    }

    /// Returns the number of lines.
    pub fn lines(&self) -> (r: usize)
        ensures
            r == self@.len(),
    {
        self.lines.len()
    }

    /// The bytes of one line, without its terminator.
    pub fn line(&self, i: usize) -> (r: &Vec<u8>)
        requires
            i < self@.len(),
        ensures
            r@ == self@[i as int],
    {
        &self.lines[i]
    }

    /// Returns the lines themselves, in order.
    pub fn iter_lines(&self) -> (r: &Vec<Vec<u8>>)
        ensures
            r@.map_values(|l: Vec<u8>| l@) == self@,
    {
        &self.lines
    }

    /// Returns a storage holding the given lines; an empty sequence of lines
    /// normalizes to a single empty line.
    pub fn from_lines(lines: Vec<Vec<u8>>) -> (r: Storage)
        requires
            forall|i: int| 0 <= i < lines@.len() ==> !lines@[i]@.contains(NEWLINE),
            flatten_lines(normalize_lines(lines@.map_values(|l: Vec<u8>| l@))).len() <= usize::MAX,
        ensures
            r.wf(),
            r@ == normalize_lines(lines@.map_values(|l: Vec<u8>| l@)),
            r@.len() == if lines@.len() == 0 { 1int } else { lines@.len() as int },
    {
        if lines.is_empty() {
            let r = Storage::new();
            proof {
                assert(r@ =~= normalize_lines(lines@.map_values(|l: Vec<u8>| l@)));
            }
            r
        } else {
            let r = Storage { lines };
            proof {
                assert(r@ =~= normalize_lines(r@));
            }
            r
        }
    }

    /// Returns a storage holding the given text split on `\n`; empty input
    /// normalizes to a single empty line. The resulting line count is the
    /// number of logical lines in the input, or one if there are none.
    pub fn from_text(text: &[u8]) -> (r: Storage)
        requires
            text@.len() < usize::MAX,
        ensures
            r.wf(),
            r@ == normalize_lines(split_lines(text@)),
            r@.len() == if split_lines(text@).len() == 0 { 1int } else { split_lines(text@).len() as int },
            text@.len() == 0 ==> r.content() =~= seq![NEWLINE],
            text@.len() > 0 && text@.last() == NEWLINE ==> r.content() == text@,
            text@.len() > 0 && text@.last() != NEWLINE ==> r.content() == text@ + seq![NEWLINE],
    {
        let ghost t = text@;
        let mut lines: Vec<Vec<u8>> = Vec::new();
        let mut cur: Vec<u8> = Vec::new();
        let mut i: usize = 0;
        proof {
            assert(t.take(0) =~= Seq::<u8>::empty());
            assert(lines@.map_values(|l: Vec<u8>| l@).push(cur@) =~~= split_keep(t.take(0)));
        }
        while i < text.len()
            invariant
                i <= t.len(),
                t == text@,
                t.len() < usize::MAX,
                lines@.map_values(|l: Vec<u8>| l@).push(cur@) =~~= split_keep(t.take(i as int)),
            decreases t.len() - i,
        {
            let b = text[i];
            proof {
                assert(t.take(i + 1) =~= t.take(i as int).push(t[i as int]));
                lemma_split_keep_push(t.take(i as int), b);
            }
            if b == NEWLINE {
                lines.push(cur);
                cur = Vec::new();
                proof {
                    assert(lines@.map_values(|l: Vec<u8>| l@).push(cur@) =~~= split_keep(
                        t.take(i + 1),
                    ));
                }
            } else {
                cur.push(b);
                proof {
                    let prev = split_keep(t.take(i as int));
                    assert(lines@.map_values(|l: Vec<u8>| l@).push(cur@) =~~= prev.update(
                        prev.len() - 1,
                        prev.last().push(b),
                    ));
                }
            }
            i = i + 1;
        }
        proof {
            assert(t.take(t.len() as int) =~= t);
            lemma_split_keep_last(t);
            lemma_split_keep_no_newline(t);
            lemma_flatten_split_keep(t);
        }
        if !cur.is_empty() {
            // The input does not end with a separator: the partial segment is
            // the final line, and `split_lines` keeps it.
            lines.push(cur);
            let r = Storage { lines };
            proof {
                assert(r@ =~~= split_keep(t));
                assert(t.len() > 0 && t.last() != NEWLINE);
                assert(r@ =~~= normalize_lines(split_lines(t)));
                assert(r.content() =~= t + seq![NEWLINE]);
            }
            r
        } else if lines.is_empty() {
            // Empty input: normalize to one empty line.
            lines.push(cur);
            let r = Storage { lines };
            proof {
                assert(split_keep(t).len() == 1);
                assert(t.len() == 0) by {
                    if t.len() > 0 {
                        if t.last() == NEWLINE {
                            assert(split_keep(t).len() >= 2);
                        } else {
                            assert(split_keep(t).last().len() > 0);
                        }
                    }
                }
                assert(r@ =~~= normalize_lines(split_lines(t)));
                reveal_with_fuel(flatten_lines, 2);
                assert(r.content() =~= seq![NEWLINE]);
            }
            r
        } else {
            // The input ends with a separator: the empty partial segment is
            // not a line of its own.
            let r = Storage { lines };
            proof {
                let sk = split_keep(t);
                assert(t.len() > 0 && t.last() == NEWLINE) by {
                    if t.len() == 0 {
                        assert(sk.len() == 1);
                        assert(r@.len() >= 1);
                        assert(sk.len() == r@.len() + 1);
                    } else if t.last() != NEWLINE {
                        assert(sk.last().len() > 0);
                    }
                }
                assert(r@ =~~= sk.drop_last());
                assert(r@ =~~= normalize_lines(split_lines(t)));
                // content(r) + [NEWLINE] == flatten(sk) == t + [NEWLINE]
                assert(sk =~= sk.drop_last().push(sk.last()));
                lemma_flatten_append(sk.drop_last(), seq![sk.last()]);
                assert(flatten_lines(seq![sk.last()]) =~= seq![NEWLINE]) by {
                    reveal_with_fuel(flatten_lines, 2);
                }
                assert(flatten_lines(sk.drop_last().push(sk.last())) =~= flatten_lines(
                    sk.drop_last(),
                ) + seq![NEWLINE]) by {
                    assert(sk.drop_last().push(sk.last()) =~= sk.drop_last() + seq![sk.last()]);
                }
                assert(r.content() =~= t) by {
                    let a = r.content();
                    assert(a + seq![NEWLINE] =~= t + seq![NEWLINE]);
                    assert(a.len() == t.len());
                    assert forall|j: int| 0 <= j < a.len() implies a[j] == t[j] by {
                        assert((a + seq![NEWLINE])[j] == (t + seq![NEWLINE])[j]);
                    }
                }
            }
            r
        }
    }

    /// Returns the total byte length of the document, counting the implicit
    /// `\n` after every line.
    pub fn len(&self) -> (r: usize)
        requires
            self.wf(),
        ensures
            r == self.content().len(),
    {
        let mut total: usize = 0;
        let mut i: usize = 0;
        while i < self.lines.len()
            invariant
                self.wf(),
                i <= self@.len(),
                total == flatten_lines(self@.take(i as int)).len(),
            decreases self@.len() - i,
        {
            proof {
                lemma_flatten_take_succ(self@, i as int);
                lemma_flatten_take_len_le(self@, i + 1);
            }
            total = total + self.lines[i].len() + 1;
            i = i + 1;
        }
        proof {
            assert(self@.take(self@.len() as int) =~= self@);
        }
        total
    }

    /// Returns the whole document as one byte string, the lines joined with a
    /// `\n` after each.
    pub fn to_text(&self) -> (r: Vec<u8>)
        requires
            self.wf(),
        ensures
            r@ == self.content(),
    {
        let mut out: Vec<u8> = Vec::new();
        let mut i: usize = 0;
        while i < self.lines.len()
            invariant
                self.wf(),
                i <= self@.len(),
                out@ == flatten_lines(self@.take(i as int)),
            decreases self@.len() - i,
        {
            out.extend_from_slice(self.lines[i].as_slice());
            out.push(NEWLINE);
            proof {
                lemma_flatten_take_succ(self@, i as int);
                assert(out@ =~= flatten_lines(self@.take(i + 1)));
            }
            i = i + 1;
        }
        proof {
            assert(self@.take(self@.len() as int) =~= self@);
        }
        out
    }
}

/// The display width, in terminal columns, of the UTF-8 string held by a byte
/// sequence.
pub uninterp spec fn display_width_of(bytes: Seq<u8>) -> usize;

/// Relies on unicode_width's `UnicodeWidthStr::width`: the display width of a
/// string in columns, a pure function of its bytes (bytes that are not valid
/// UTF-8 are answered with width 0 here).
#[verifier::external_body]
fn unicode_display_width(bytes: &[u8]) -> (r: usize)
    ensures
        r == display_width_of(bytes@),
{
    std::str::from_utf8(bytes).map(unicode_width::UnicodeWidthStr::width).unwrap_or(0)
}

impl Storage {
    /// Whether a byte offset falls on a UTF-8 character boundary: either on a
    /// line's implicit `\n`, or on a byte that does not continue a previous
    /// codepoint.
    pub open spec fn is_boundary(&self, byte: int) -> bool {
        let (row, col) = spec_position(self@, byte);
        col == self@[row].len() || !vstd::utf8::is_continuation_byte(self@[row][col])
    }

    /// Returns the width of the given line in display columns, accounting for
    /// multi-byte and double-width codepoints.
    pub fn line_width(&self, line: usize) -> (r: usize)
        requires
            self.wf(),
            line < self@.len(),
        ensures
            r == display_width_of(self@[line as int]),
    {
        unicode_display_width(self.lines[line].as_slice())
    }

    /// Returns the row and column of a byte offset. The offset must lie inside
    /// the document; an offset addressing a line's implicit `\n` maps to the
    /// column just past that line's last byte.
    pub fn position_of_byte(&self, byte: ByteIndex) -> (r: BytePosition)
        requires
            self.wf(),
            byte.i < self.content().len(),
        ensures
            r.y as int == spec_position(self@, byte.i as int).0,
            r.x as int == spec_position(self@, byte.i as int).1,
            r.y < self@.len(),
            r.x <= self@[r.y as int].len(),
            flatten_lines(self@.take(r.y as int)).len() + r.x == byte.i,
    {
        let ghost lines = self@;
        let n = self.lines.len();
        let mut row: usize = 0;
        let mut remaining: usize = byte.i;
        proof {
            assert(lines.skip(0) =~= lines);
        }
        while remaining > self.lines[row].len()
            invariant
                self.wf(),
                lines == self@,
                n as int == lines.len(),
                row < n,
                remaining < flatten_lines(lines.skip(row as int)).len(),
                spec_position(lines, byte.i as int).0 == row + spec_position(
                    lines.skip(row as int),
                    remaining as int,
                ).0,
                spec_position(lines, byte.i as int).1 == spec_position(
                    lines.skip(row as int),
                    remaining as int,
                ).1,
            decreases lines.len() - row,
        {
            proof {
                lemma_flatten_skip_unfold(lines, row as int);
                assert(lines.skip(row as int)[0] == lines[row as int]);
                assert(lines.skip(row as int).drop_first() =~= lines.skip(row as int + 1));
                assert(flatten_lines(lines.skip(row as int + 1)).len() > remaining - lines[
                    row as int
                ].len() - 1);
                assert(lines.skip(row as int + 1).len() > 0);
            }
            remaining = remaining - (self.lines[row].len() + 1);
            row = row + 1;
        }
        proof {
            assert(spec_position(lines.skip(row as int), remaining as int) == (
                0int,
                remaining as int,
            ));
            lemma_spec_position_bounds(lines, byte.i as int);
        }
        BytePosition::new(remaining, row)
    }

    /// Returns the codepoint position of a byte offset. The offset must fall
    /// on a character boundary; codepoints are counted as the bytes of the
    /// line that do not continue a previous codepoint.
    pub fn byte_to_char_position(&self, byte: ByteIndex) -> (r: CharPosition)
        requires
            self.wf(),
            byte.i < self.content().len(),
            self.is_boundary(byte.i as int),
        ensures
            r.y as int == spec_position(self@, byte.i as int).0,
            r.x as int == char_count(
                self@[spec_position(self@, byte.i as int).0],
                spec_position(self@, byte.i as int).1,
            ),
    {
        let pos = self.position_of_byte(byte);
        let line = &self.lines[pos.y];
        let ghost lseq = self@[pos.y as int];
        proof {
            assert(line@ == lseq);
        }
        let mut count: usize = 0;
        let mut j: usize = 0;
        while j < pos.x
            invariant
                j <= pos.x,
                pos.x <= lseq.len(),
                line@ == lseq,
                count <= j,
                count as int == char_count(lseq, j as int),
            decreases pos.x - j,
        {
            let b = line[j];
            if !(0x80 <= b && b <= 0xbf) {
                count = count + 1;
            }
            j = j + 1;
        }
        CharPosition::new(count, pos.y)
    }

    /// Returns a copy of the text starting at the given position: the rest of
    /// the line, the single byte `\n` exactly at a line's end, or nothing on
    /// the row one past the last line.
    pub fn slice_at(&self, pos: BytePosition) -> (r: Vec<u8>)
        requires
            self.wf(),
            pos.y <= self@.len(),
            pos.y < self@.len() ==> pos.x <= self@[pos.y as int].len(),
        ensures
            pos.y == self@.len() ==> r@ =~= Seq::<u8>::empty(),
            pos.y < self@.len() && pos.x == self@[pos.y as int].len() ==> r@ =~= seq![NEWLINE],
            pos.y < self@.len() && pos.x < self@[pos.y as int].len() ==> r@ =~= self@[
                pos.y as int
            ].skip(pos.x as int),
    {
        if pos.y == self.lines.len() {
            Vec::new()
        } else {
            let line = &self.lines[pos.y];
            if pos.x == line.len() {
                let mut v = Vec::new();
                v.push(NEWLINE);
                v
            } else {
                vstd::slice::slice_to_vec(
                    vstd::slice::slice_subrange(line.as_slice(), pos.x, line.len()),
                )
            }
        }
    }

    /// The pull source consumed by the incremental parser: like
    /// [`Storage::slice_at`], but answers any out-of-range request with an
    /// empty chunk instead of treating it as a caller error.
    pub fn parse_chunk(&self, row: usize, col: usize) -> (r: Vec<u8>)
        requires
            self.wf(),
        ensures
            row < self@.len() && col < self@[row as int].len() ==> r@ =~= self@[row as int].skip(
                col as int,
            ),
            row < self@.len() && col == self@[row as int].len() ==> r@ =~= seq![NEWLINE],
            row >= self@.len() || col > self@[row as int].len() ==> r@ =~= Seq::<u8>::empty(),
    {
        if row >= self.lines.len() {
            Vec::new()
        } else if col > self.lines[row].len() {
            Vec::new()
        } else {
            self.slice_at(BytePosition::new(col, row))
        }
    }

    /// Returns a copy of the bytes of one line between two columns: the range
    /// must lie within a single existing line, and any other request is
    /// answered with an empty slice (the highlighter's text callback may ask
    /// for arbitrary node ranges).
    pub fn slice_range(&self, start: BytePosition, end: BytePosition) -> (r: Vec<u8>)
        requires
            self.wf(),
        ensures
            start.y == end.y && start.y < self@.len() && start.x <= end.x && end.x <= self@[
                start.y as int
            ].len() ==> r@ =~= self@[start.y as int].subrange(start.x as int, end.x as int),
            !(start.y == end.y && start.y < self@.len() && start.x <= end.x && end.x <= self@[
                start.y as int
            ].len()) ==> r@ =~= Seq::<u8>::empty(),
    {
        if start.y == end.y && start.y < self.lines.len() && start.x <= end.x && end.x
            <= self.lines[start.y].len() {
            let line = &self.lines[start.y];
            vstd::slice::slice_to_vec(vstd::slice::slice_subrange(line.as_slice(), start.x, end.x))
        } else {
            Vec::new()
        }
    }

    /// Replaces a byte range of the document with a replacement string.
    ///
    /// The effect on the logical document is exactly that of splicing the
    /// replacement into the flat `\n`-joined byte string; the stored lines are
    /// re-derived from the spliced document. The range must not reach the
    /// document's final implicit `\n`.
    pub fn replace_range(&mut self, start: usize, end: usize, replacement: &[u8])
        requires
            old(self).wf(),
            start <= end < old(self).content().len(),
            old(self).content().len() - (end - start) + replacement@.len() < usize::MAX,
        ensures
            final(self).wf(),
            final(self).content() == old(self).content().subrange(0, start as int) + replacement@
                + old(self).content().subrange(end as int, old(self).content().len() as int),
            final(self)@ == split_lines(final(self).content()),
    {
        let ghost old_content = old(self).content();
        let text = self.to_text();
        let mut spliced: Vec<u8> = Vec::new();
        spliced.extend_from_slice(vstd::slice::slice_subrange(text.as_slice(), 0, start));
        spliced.extend_from_slice(replacement);
        spliced.extend_from_slice(vstd::slice::slice_subrange(text.as_slice(), end, text.len()));
        proof {
            lemma_flatten_last(old(self)@);
            assert(spliced@ == old_content.subrange(0, start as int) + replacement@
                + old_content.subrange(end as int, old_content.len() as int));
            let tail = old_content.subrange(end as int, old_content.len() as int);
            assert(tail.len() > 0);
            assert(spliced@.last() == tail.last());
            assert(tail.last() == old_content.last());
            assert(spliced@.last() == NEWLINE);
        }
        *self = Storage::from_text(spliced.as_slice());
        proof {
            assert(normalize_lines(split_lines(spliced@)) == split_lines(spliced@)) by {
                assert(split_lines(spliced@).len() > 0) by {
                    lemma_split_keep_last(spliced@);
                }
            }
        }
    }
}

/// A non-empty sequence of lines joins to a document that ends with `\n`.
pub open spec fn flatten_lines_last_is_newline(lines: Seq<Seq<u8>>) -> bool {
    lines.len() > 0 ==> flatten_lines(lines).len() > 0 && flatten_lines(lines).last() == NEWLINE
}

/// The joined document of any line sequence is empty or ends with the
/// separator.
pub proof fn lemma_flatten_last(lines: Seq<Seq<u8>>)
    ensures
        flatten_lines_last_is_newline(lines),
    decreases lines.len(),
{
    if lines.len() > 0 {
        lemma_flatten_last(lines.drop_first());
        if lines.drop_first().len() == 0 {
            assert(flatten_lines(lines.drop_first()) =~= Seq::<u8>::empty());
        }
    }
}

/// Where a byte offset inside the document falls: on an existing row, at a
/// column no further than just past the row's last byte, and exactly at the
/// offset obtained by walking the cumulative line lengths.
pub proof fn lemma_spec_position_bounds(lines: Seq<Seq<u8>>, byte: int)
    requires
        0 <= byte < flatten_lines(lines).len(),
    ensures
        ({
            let (row, col) = spec_position(lines, byte);
            &&& 0 <= row < lines.len()
            &&& 0 <= col <= lines[row].len()
            &&& flatten_lines(lines.take(row)).len() + col == byte
        }),
    decreases lines.len(),
{
    if lines.len() == 0 {
    } else if byte <= lines[0].len() {
        assert(lines.take(0) =~= Seq::<Seq<u8>>::empty());
    } else {
        lemma_spec_position_bounds(lines.drop_first(), byte - lines[0].len() - 1);
        let (r, c) = spec_position(lines.drop_first(), byte - lines[0].len() - 1);
        assert(lines.take(r + 1) =~= seq![lines[0]] + lines.drop_first().take(r));
        lemma_flatten_append(seq![lines[0]], lines.drop_first().take(r));
        assert(flatten_lines(seq![lines[0]]) =~= lines[0] + seq![NEWLINE]) by {
            reveal_with_fuel(flatten_lines, 2);
            assert(seq![lines[0]].drop_first() =~= Seq::<Seq<u8>>::empty());
        }
    }
}

/// Walking the cumulative line lengths inverts `spec_position`: the offset of
/// `(row, col)` maps back to `(row, col)`.
pub proof fn lemma_spec_position_of_offset(lines: Seq<Seq<u8>>, row: int, col: int)
    requires
        0 <= row < lines.len(),
        0 <= col <= lines[row].len(),
    ensures
        spec_position(lines, flatten_lines(lines.take(row)).len() + col) == (row, col),
    decreases row,
{
    if row == 0 {
        assert(lines.take(0) =~= Seq::<Seq<u8>>::empty());
    } else {
        lemma_spec_position_of_offset(lines.drop_first(), row - 1, col);
        assert(lines.take(row) =~= seq![lines[0]] + lines.drop_first().take(row - 1));
        lemma_flatten_append(seq![lines[0]], lines.drop_first().take(row - 1));
        assert(flatten_lines(seq![lines[0]]) =~= lines[0] + seq![NEWLINE]) by {
            reveal_with_fuel(flatten_lines, 2);
            assert(seq![lines[0]].drop_first() =~= Seq::<Seq<u8>>::empty());
        }
        assert(lines.drop_first()[row - 1] == lines[row]);
    }
}

/// Skipping one more line drops that line and its terminator from the joined
/// document.
pub proof fn lemma_flatten_skip_unfold(lines: Seq<Seq<u8>>, r: int)
    requires
        0 <= r < lines.len(),
    ensures
        flatten_lines(lines.skip(r)) == lines[r] + seq![NEWLINE] + flatten_lines(
            lines.skip(r + 1),
        ),
{
    assert(lines.skip(r).len() > 0);
    assert(lines.skip(r)[0] == lines[r]);
    assert(lines.skip(r).drop_first() =~= lines.skip(r + 1));
}

/// Byte offset zero of any document addresses the very first row and column.
pub proof fn lemma_position_of_byte_zero(lines: Seq<Seq<u8>>)
    ensures
        spec_position(lines, 0) == (0int, 0int),
{
}

/// Splicing a replacement into a byte range: reading the spliced document back
/// at `[start, start + replacement.len())` returns exactly the replacement,
/// and the total length changes by the replacement's length minus the range's.
pub proof fn lemma_splice_readback(content: Seq<u8>, start: int, end: int, replacement: Seq<u8>)
    requires
        0 <= start <= end <= content.len(),
    ensures
        ({
            let spliced = content.subrange(0, start) + replacement + content.subrange(
                end,
                content.len() as int,
            );
            &&& spliced.subrange(start, start + replacement.len()) =~= replacement
            &&& spliced.len() == content.len() - (end - start) + replacement.len()
        }),
{
}

/// Joining distributes over concatenation of line sequences.
pub proof fn lemma_flatten_append(a: Seq<Seq<u8>>, b: Seq<Seq<u8>>)
    ensures
        flatten_lines(a + b) == flatten_lines(a) + flatten_lines(b),
    decreases a.len(),
{
    if a.len() == 0 {
        assert(a + b =~= b);
        assert(flatten_lines(a) + flatten_lines(b) =~= flatten_lines(b));
    } else {
        assert((a + b).drop_first() =~= a.drop_first() + b);
        assert((a + b).len() > 0);
        assert((a + b)[0] == a[0]);
        lemma_flatten_append(a.drop_first(), b);
        assert(flatten_lines(a + b) =~= flatten_lines(a) + flatten_lines(b));
    }
}

/// Extending a prefix of lines by one line appends that line and its
/// terminator to the joined document.
pub proof fn lemma_flatten_take_succ(lines: Seq<Seq<u8>>, k: int)
    requires
        0 <= k < lines.len(),
    ensures
        flatten_lines(lines.take(k + 1)) == flatten_lines(lines.take(k)) + lines[k] + seq![NEWLINE],
{
    assert(lines.take(k + 1) =~= lines.take(k) + seq![lines[k]]);
    lemma_flatten_append(lines.take(k), seq![lines[k]]);
    assert(flatten_lines(seq![lines[k]]) =~= lines[k] + seq![NEWLINE]) by {
        reveal_with_fuel(flatten_lines, 2);
        assert(seq![lines[k]].drop_first() =~= Seq::<Seq<u8>>::empty());
    }
    assert(flatten_lines(lines.take(k)) + (lines[k] + seq![NEWLINE]) =~= flatten_lines(
        lines.take(k),
    ) + lines[k] + seq![NEWLINE]);
}

/// A prefix of the lines joins to at most the whole document.
pub proof fn lemma_flatten_take_len_le(lines: Seq<Seq<u8>>, k: int)
    requires
        0 <= k <= lines.len(),
    ensures
        flatten_lines(lines.take(k)).len() <= flatten_lines(lines).len(),
{
    assert(lines =~= lines.take(k) + lines.skip(k));
    lemma_flatten_append(lines.take(k), lines.skip(k));
}

/// `split_keep` yields at least one segment.
pub proof fn lemma_split_keep_len(t: Seq<u8>)
    ensures
        split_keep(t).len() >= 1,
    decreases t.len(),
{
    if t.len() != 0 {
        lemma_split_keep_len(t.drop_first());
    }
}

/// No segment of `split_keep` contains the separator.
pub proof fn lemma_split_keep_no_newline(t: Seq<u8>)
    ensures
        forall|i: int|
            0 <= i < split_keep(t).len() ==> !(#[trigger] split_keep(t)[i]).contains(NEWLINE),
    decreases t.len(),
{
    if t.len() == 0 {
    } else if t[0] == NEWLINE {
        lemma_split_keep_no_newline(t.drop_first());
        assert forall|i: int|
            0 <= i < split_keep(t).len() implies !(#[trigger] split_keep(t)[i]).contains(
            NEWLINE,
        ) by {
            if i > 0 {
                assert(split_keep(t)[i] == split_keep(t.drop_first())[i - 1]);
            }
        }
    } else {
        lemma_split_keep_no_newline(t.drop_first());
        lemma_split_keep_len(t.drop_first());
        let rest = split_keep(t.drop_first());
        assert forall|i: int|
            0 <= i < split_keep(t).len() implies !(#[trigger] split_keep(t)[i]).contains(
            NEWLINE,
        ) by {
            if i == 0 {
                let s = seq![t[0]] + rest[0];
                assert(!rest[0].contains(NEWLINE));
                assert forall|j: int| 0 <= j < s.len() implies s[j] != NEWLINE by {
                    if j > 0 {
                        assert(s[j] == rest[0][j - 1]);
                        assert(rest[0].contains(rest[0][j - 1]));
                    }
                }
                if s.contains(NEWLINE) {
                    let j = choose|j: int| 0 <= j < s.len() && s[j] == NEWLINE;
                    assert(false);
                }
            } else {
                assert(split_keep(t)[i] == rest[i]);
            }
        }
    }
}

/// Joining the segments of `split_keep` restores the input plus one final
/// separator.
pub proof fn lemma_flatten_split_keep(t: Seq<u8>)
    ensures
        flatten_lines(split_keep(t)) == t + seq![NEWLINE],
    decreases t.len(),
{
    lemma_split_keep_len(t);
    if t.len() == 0 {
        reveal_with_fuel(flatten_lines, 2);
        assert(flatten_lines(split_keep(t)) =~= t + seq![NEWLINE]);
    } else if t[0] == NEWLINE {
        lemma_flatten_split_keep(t.drop_first());
        let sk = split_keep(t);
        assert(sk.drop_first() =~= split_keep(t.drop_first()));
        assert(flatten_lines(sk) =~= Seq::<u8>::empty() + seq![NEWLINE] + flatten_lines(
            split_keep(t.drop_first()),
        ));
        assert(flatten_lines(sk) =~= t + seq![NEWLINE]);
    } else {
        lemma_flatten_split_keep(t.drop_first());
        lemma_split_keep_len(t.drop_first());
        let rest = split_keep(t.drop_first());
        let sk = split_keep(t);
        assert(sk[0] == seq![t[0]] + rest[0]);
        assert(sk.drop_first() =~= rest.drop_first());
        assert(rest =~= seq![rest[0]] + rest.drop_first());
        lemma_flatten_append(seq![rest[0]], rest.drop_first());
        assert(flatten_lines(seq![rest[0]]) =~= rest[0] + seq![NEWLINE]) by {
            reveal_with_fuel(flatten_lines, 2);
            assert(seq![rest[0]].drop_first() =~= Seq::<Seq<u8>>::empty());
        }
        assert(flatten_lines(rest) =~= rest[0] + seq![NEWLINE] + flatten_lines(rest.drop_first()));
        assert(flatten_lines(sk) =~= sk[0] + seq![NEWLINE] + flatten_lines(rest.drop_first()));
        assert(flatten_lines(sk) =~= seq![t[0]] + flatten_lines(rest));
        assert(seq![t[0]] + (t.drop_first() + seq![NEWLINE]) =~= t + seq![NEWLINE]);
    }
}

/// The final segment of `split_keep` is empty exactly for separator-terminated
/// input; separator-terminated input also yields at least two segments.
pub proof fn lemma_split_keep_last(t: Seq<u8>)
    ensures
        t.len() == 0 ==> split_keep(t).last().len() == 0,
        t.len() > 0 && t.last() == NEWLINE ==> split_keep(t).last().len() == 0 && split_keep(
            t,
        ).len() >= 2,
        t.len() > 0 && t.last() != NEWLINE ==> split_keep(t).last().len() > 0,
    decreases t.len(),
{
    lemma_split_keep_len(t);
    if t.len() == 0 {
    } else {
        lemma_split_keep_last(t.drop_first());
        lemma_split_keep_len(t.drop_first());
        let rest = split_keep(t.drop_first());
        if t.len() == 1 {
            if t[0] == NEWLINE {
                assert(split_keep(t).last() == rest.last());
            } else {
                assert(rest =~= seq![Seq::<u8>::empty()]);
                assert(rest.drop_first() =~= Seq::<Seq<u8>>::empty());
                assert(split_keep(t) =~= seq![seq![t[0]] + rest[0]]);
                assert(split_keep(t).last().len() > 0);
            }
        } else {
            assert(t.drop_first().len() > 0);
            assert(t.drop_first().last() == t.last());
            if t[0] == NEWLINE {
                assert(split_keep(t).last() == rest.last());
            } else {
                if rest.len() >= 2 {
                    assert(split_keep(t).last() == rest.last());
                } else {
                    assert(rest.len() == 1);
                    assert(split_keep(t) =~= seq![seq![t[0]] + rest[0]]);
                    assert(split_keep(t).last().len() > 0);
                    if t.last() == NEWLINE {
                        assert(rest.len() >= 2);
                        assert(false);
                    }
                }
            }
        }
    }
}

/// Appending one byte to the input either opens a new empty segment (for the
/// separator) or extends the final segment (for any other byte).
pub proof fn lemma_split_keep_push(s: Seq<u8>, b: u8)
    ensures
        b == NEWLINE ==> split_keep(s.push(b)) == split_keep(s).push(Seq::<u8>::empty()),
        b != NEWLINE ==> split_keep(s.push(b)) == split_keep(s).update(
            split_keep(s).len() - 1,
            split_keep(s).last().push(b),
        ),
    decreases s.len(),
{
    lemma_split_keep_len(s);
    let t = s.push(b);
    if s.len() == 0 {
        if b == NEWLINE {
            assert(t[0] == NEWLINE);
            assert(t.drop_first() =~= Seq::<u8>::empty());
            assert(split_keep(t.drop_first()) =~= seq![Seq::<u8>::empty()]);
            assert(split_keep(t) == seq![Seq::<u8>::empty()] + split_keep(t.drop_first()));
            assert(split_keep(s) =~= seq![Seq::<u8>::empty()]);
            assert(split_keep(t) =~~= split_keep(s).push(Seq::<u8>::empty()));
        } else {
            assert(t[0] != NEWLINE);
            assert(t.drop_first() =~= Seq::<u8>::empty());
            let rest = split_keep(t.drop_first());
            assert(split_keep(t) =~= seq![seq![t[0]] + rest[0]] + rest.drop_first());
            assert(split_keep(t) =~~= split_keep(s).update(0, split_keep(s).last().push(b)));
        }
    } else {
        lemma_split_keep_push(s.drop_first(), b);
        lemma_split_keep_len(s.drop_first());
        let srest = split_keep(s.drop_first());
        assert(t[0] == s[0]);
        assert(t.drop_first() =~= s.drop_first().push(b));
        let trest = split_keep(t.drop_first());
        if s[0] == NEWLINE {
            assert(split_keep(t) =~= seq![Seq::<u8>::empty()] + trest);
            assert(split_keep(s) =~= seq![Seq::<u8>::empty()] + srest);
            if b == NEWLINE {
                assert(trest == srest.push(Seq::<u8>::empty()));
                assert(split_keep(t) =~~= split_keep(s).push(Seq::<u8>::empty()));
            } else {
                assert(trest == srest.update(srest.len() - 1, srest.last().push(b)));
                assert(split_keep(s).last() == srest.last());
                assert(split_keep(t) =~~= split_keep(s).update(
                    split_keep(s).len() - 1,
                    split_keep(s).last().push(b),
                ));
            }
        } else {
            assert(split_keep(t) =~= seq![seq![t[0]] + trest[0]] + trest.drop_first());
            assert(split_keep(s) =~= seq![seq![s[0]] + srest[0]] + srest.drop_first());
            if b == NEWLINE {
                assert(trest == srest.push(Seq::<u8>::empty()));
                assert(trest[0] == srest[0]);
                assert(trest.drop_first() =~= srest.drop_first().push(Seq::<u8>::empty()));
                assert(split_keep(t) =~~= split_keep(s).push(Seq::<u8>::empty()));
            } else {
                assert(trest == srest.update(srest.len() - 1, srest.last().push(b)));
                if srest.len() == 1 {
                    assert(trest[0] == srest[0].push(b));
                    assert(trest.drop_first() =~= srest.drop_first());
                    assert(seq![t[0]] + srest[0].push(b) =~= (seq![s[0]] + srest[0]).push(b));
                    assert(split_keep(t) =~~= split_keep(s).update(
                        split_keep(s).len() - 1,
                        split_keep(s).last().push(b),
                    ));
                } else {
                    assert(trest[0] == srest[0]);
                    assert(trest.drop_first() =~= srest.drop_first().update(
                        srest.drop_first().len() - 1,
                        srest.drop_first().last().push(b),
                    ));
                    assert(split_keep(s).last() == srest.last());
                    assert(split_keep(t) =~~= split_keep(s).update(
                        split_keep(s).len() - 1,
                        split_keep(s).last().push(b),
                    ));
                }
            }
        }
    }
}

} // verus!
