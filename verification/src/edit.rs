//! Applying edits to a buffer.

use vstd::prelude::*;

use crate::buffer::Buffer;
use crate::storage::{char_count, flatten_lines, spec_position};
use crate::units::{ByteIndex, BytePosition, CharPosition};

verus! {

/// An edit that has been applied to a buffer: the byte range replaced, the
/// equivalent codepoint-position range, and the inserted text.
///
/// Codepoint columns are counted in codepoints, not UTF-16 code units; a
/// change record built from them is off for protocols that demand UTF-16
/// offsets over text outside the basic plane.
pub struct Edit {
    pub start: ByteIndex,
    pub end: ByteIndex,
    pub char_start: CharPosition,
    pub char_end: CharPosition,
    pub new_text: Vec<u8>,
}

/// An edit rendered as a line/character change notification: the replaced
/// character range and the inserted text.
pub struct ChangeRecord {
    pub start_line: u64,
    pub start_character: u64,
    pub end_line: u64,
    pub end_character: u64,
    pub text: Vec<u8>,
}

impl Edit {
    /// The byte index of the end of the replacement text.
    pub fn new_end(&self) -> (r: ByteIndex)
        requires
            self.start.i + self.new_text@.len() <= usize::MAX,
        ensures
            r.i == self.start.i + self.new_text@.len(),
    {
        ByteIndex::new(self.start.i + self.new_text.len())
    }

    /// Renders the edit as a change notification over its codepoint range.
    pub fn to_change_record(&self) -> (r: ChangeRecord)
        requires
            self.char_start.x <= u64::MAX,
            self.char_start.y <= u64::MAX,
            self.char_end.x <= u64::MAX,
            self.char_end.y <= u64::MAX,
        ensures
            r.start_line == self.char_start.y,
            r.start_character == self.char_start.x,
            r.end_line == self.char_end.y,
            r.end_character == self.char_end.x,
            r.text@ == self.new_text@,
    {
        let mut text: Vec<u8> = Vec::new();
        text.extend_from_slice(self.new_text.as_slice());
        ChangeRecord {
            start_line: self.char_start.y as u64,
            start_character: self.char_start.x as u64,
            end_line: self.char_end.y as u64,
            end_character: self.char_end.x as u64,
            text,
        }
    }
}

/// Relies on std's `char::encode_utf8`: the UTF-8 encoding of one character,
/// between one and four bytes.
#[verifier::external_body]
fn encode_char(c: char) -> (r: Vec<u8>)
    ensures
        r@ == vstd::utf8::encode_utf8(seq![c]),
        1 <= r@.len() <= 4,
{
    let mut buf = [0u8; 4];
    c.encode_utf8(&mut buf).as_bytes().to_vec()
}

impl Buffer {
    /// The flat byte offset the cursor addresses: the lengths (with their
    /// terminators) of all lines above it, plus its column taken as a byte
    /// offset.
    pub open spec fn spec_byte_at_cursor(&self) -> int {
        flatten_lines(self.storage@.take(self.cursor.pos.y as int)).len() + self.cursor.pos.x
    }

    /// Returns the byte index of the current cursor position. The cursor
    /// column is taken as a byte offset into its line, which matches display
    /// columns only for plain text.
    #[verifier::loop_isolation(false)]
    pub fn byte_at_cursor(&self) -> (r: ByteIndex)
        requires
            self.wf(),
            self.cursor.pos.x <= self.storage@[self.cursor.pos.y as int].len(),
        ensures
            r.i == self.spec_byte_at_cursor(),
            r.i < self.storage.content().len(),
    {
        let ghost lines = self.storage@;
        let all_lines = self.storage.iter_lines();
        let mut byte: usize = 0;
        let mut i: usize = 0;
        proof {
            crate::storage::lemma_flatten_take_len_le(lines, self.cursor.pos.y as int);
            assert(lines.take(0) =~= Seq::<Seq<u8>>::empty());
        }
        while i < self.cursor.y()
            invariant
                self.wf(),
                lines == self.storage@,
                all_lines@.map_values(|l: Vec<u8>| l@) == lines,
                i <= self.cursor.pos.y,
                byte == flatten_lines(lines.take(i as int)).len(),
            decreases self.cursor.pos.y - i,
        {
            proof {
                crate::storage::lemma_flatten_take_succ(lines, i as int);
                crate::storage::lemma_flatten_take_len_le(lines, i + 1);
                crate::storage::lemma_flatten_take_len_le(lines, self.cursor.pos.y as int);
            }
            byte = byte + all_lines[i].len() + 1;
            i = i + 1;
        }
        proof {
            // The cursor's offset lies strictly inside the document: it is at
            // most the offset of its line's terminator.
            crate::storage::lemma_flatten_take_succ(lines, self.cursor.pos.y as int);
            crate::storage::lemma_flatten_take_len_le(lines, self.cursor.pos.y + 1);
        }
        ByteIndex::new(byte + self.cursor.x())
    }

    /// Replaces a byte range of the document with new text, bumps the
    /// version, notifies the highlighter, and returns the edit that was
    /// applied. The cursor is left where it was.
    fn edit(&mut self, start: ByteIndex, end: ByteIndex, new_text: Vec<u8>) -> (r: Edit)
        requires
            old(self).wf(),
            start.i <= end.i < old(self).storage.content().len(),
            old(self).storage.is_boundary(start.i as int),
            old(self).storage.is_boundary(end.i as int),
            old(self).storage.content().len() - (end.i - start.i) + new_text@.len() < usize::MAX,
            old(self).version < u32::MAX,
        ensures
            final(self).storage.wf(),
            final(self).storage.content() == old(self).storage.content().subrange(
                0,
                start.i as int,
            ) + new_text@ + old(self).storage.content().subrange(
                end.i as int,
                old(self).storage.content().len() as int,
            ),
            final(self).storage@ == crate::storage::split_lines(final(self).storage.content()),
            final(self).version == old(self).version + 1,
            final(self).cursor == old(self).cursor,
            final(self).viewport == old(self).viewport,
            final(self).syntax == old(self).syntax,
            final(self).path == old(self).path,
            (final(self).highlighter is Some) == (old(self).highlighter is Some),
            r.start == start,
            r.end == end,
            r.new_text@ == new_text@,
            r.char_start.y as int == spec_position(old(self).storage@, start.i as int).0,
            r.char_start.x as int == char_count(
                old(self).storage@[spec_position(old(self).storage@, start.i as int).0],
                spec_position(old(self).storage@, start.i as int).1,
            ),
            r.char_end.y as int == spec_position(old(self).storage@, end.i as int).0,
            r.char_end.x as int == char_count(
                old(self).storage@[spec_position(old(self).storage@, end.i as int).0],
                spec_position(old(self).storage@, end.i as int).1,
            ),
    {
        let new_len = new_text.len();
        let start_position = self.storage.position_of_byte(start);
        let old_end_position = self.storage.position_of_byte(end);
        let char_start = self.storage.byte_to_char_position(start);
        let char_end = self.storage.byte_to_char_position(end);
        self.storage.replace_range(start.i, end.i, new_text.as_slice());
        self.version = self.version + 1;
        let new_end_position = self.storage.position_of_byte(ByteIndex::new(start.i + new_len));
        let edit = Edit { start, end, char_start, char_end, new_text };
        if let Some(highlighter) = &mut self.highlighter {
            highlighter.on_edit(
                start.i,
                end.i,
                start.i + new_len,
                start_position,
                old_end_position,
                new_end_position,
            );
        }
        edit
    }

    /// Inserts a character at the cursor: its UTF-8 encoding is spliced in at
    /// the cursor's byte offset, the version is bumped, the highlighter is
    /// notified, and the cursor moves to just after the inserted text.
    pub fn insert(&mut self, c: char) -> (r: Edit)
        requires
            old(self).wf(),
            old(self).cursor.pos.x <= old(self).storage@[old(self).cursor.pos.y as int].len(),
            old(self).cursor.pos.x == old(self).storage@[old(self).cursor.pos.y as int].len() || !vstd::utf8::is_continuation_byte(
                old(self).storage@[old(self).cursor.pos.y as int][old(self).cursor.pos.x as int],
            ),
            old(self).storage.content().len() + 4 < usize::MAX,
            old(self).version < u32::MAX,
        ensures
            final(self).wf(),
            ({
                let b = old(self).spec_byte_at_cursor();
                let enc = vstd::utf8::encode_utf8(seq![c]);
                let content = old(self).storage.content();
                &&& final(self).storage.content() == content.subrange(0, b) + enc
                    + content.subrange(b, content.len() as int)
                &&& r.start.i == b
                &&& r.end.i == b
                &&& r.new_text@ == enc
                &&& r.char_start.y as int == spec_position(old(self).storage@, b).0
                &&& r.char_start.x as int == char_count(
                    old(self).storage@[spec_position(old(self).storage@, b).0],
                    spec_position(old(self).storage@, b).1,
                )
                &&& r.char_end == r.char_start
                &&& final(self).cursor.pos.y as int == spec_position(
                    final(self).storage@,
                    b + enc.len(),
                ).0
                &&& final(self).cursor.pos.x as int == spec_position(
                    final(self).storage@,
                    b + enc.len(),
                ).1
                &&& final(self).cursor.desired_col == final(self).cursor.pos.x
            }),
            final(self).version == old(self).version + 1,
            final(self).viewport == old(self).viewport,
            final(self).syntax == old(self).syntax,
            final(self).path == old(self).path,
            (final(self).highlighter is Some) == (old(self).highlighter is Some),
    {
        let byte = self.byte_at_cursor();
        proof {
            crate::storage::lemma_spec_position_of_offset(
                self.storage@,
                self.cursor.pos.y as int,
                self.cursor.pos.x as int,
            );
        }
        let encoded = encode_char(c);
        let ghost enc = encoded@;
        let edit = self.edit(byte, byte, encoded);
        let pos = self.storage.position_of_byte(ByteIndex::new(byte.i + edit.new_text.len()));
        self.cursor.set_x(pos.x);
        self.cursor.set_y(pos.y);
        proof {
            crate::storage::lemma_spec_position_bounds(self.storage@, byte.i + enc.len());
        }
        edit
    }

    /// Deletes the single byte immediately preceding the cursor, bumping the
    /// version, notifying the highlighter, and moving the cursor to the
    /// deleted byte's position. At the very start of the document there is
    /// nothing to delete and the buffer is left untouched. Exactly one byte
    /// is removed, which is correct only for single-byte characters.
    pub fn delete(&mut self) -> (r: Option<Edit>)
        requires
            old(self).wf(),
            old(self).cursor.pos.x <= old(self).storage@[old(self).cursor.pos.y as int].len(),
            old(self).cursor.pos.x == old(self).storage@[old(self).cursor.pos.y as int].len() || !vstd::utf8::is_continuation_byte(
                old(self).storage@[old(self).cursor.pos.y as int][old(self).cursor.pos.x as int],
            ),
            old(self).spec_byte_at_cursor() > 0 ==> old(self).storage.is_boundary(
                old(self).spec_byte_at_cursor() - 1,
            ),
            old(self).version < u32::MAX,
        ensures
            old(self).spec_byte_at_cursor() == 0 ==> r is None && *final(self) == *old(self),
            old(self).spec_byte_at_cursor() > 0 ==> ({
                let b = old(self).spec_byte_at_cursor();
                let content = old(self).storage.content();
                &&& r is Some
                &&& final(self).wf()
                &&& final(self).storage.content() == content.subrange(0, b - 1)
                    + content.subrange(b, content.len() as int)
                &&& r->Some_0.start.i == b - 1
                &&& r->Some_0.end.i == b
                &&& r->Some_0.new_text@ == Seq::<u8>::empty()
                &&& r->Some_0.char_start.y as int == spec_position(old(self).storage@, b - 1).0
                &&& r->Some_0.char_start.x as int == char_count(
                    old(self).storage@[spec_position(old(self).storage@, b - 1).0],
                    spec_position(old(self).storage@, b - 1).1,
                )
                &&& r->Some_0.char_end.y as int == spec_position(old(self).storage@, b).0
                &&& r->Some_0.char_end.x as int == char_count(
                    old(self).storage@[spec_position(old(self).storage@, b).0],
                    spec_position(old(self).storage@, b).1,
                )
                &&& final(self).version == old(self).version + 1
                &&& final(self).cursor.pos.y as int == spec_position(final(self).storage@, b - 1).0
                &&& final(self).cursor.pos.x as int == spec_position(final(self).storage@, b - 1).1
                &&& final(self).cursor.desired_col == final(self).cursor.pos.x
                &&& final(self).viewport == old(self).viewport
                &&& final(self).syntax == old(self).syntax
                &&& final(self).path == old(self).path
                &&& (final(self).highlighter is Some) == (old(self).highlighter is Some)
            }),
    {
        let end = self.byte_at_cursor();
        if end.i == 0 {
            return None;
        }
        proof {
            crate::storage::lemma_spec_position_of_offset(
                self.storage@,
                self.cursor.pos.y as int,
                self.cursor.pos.x as int,
            );
        }
        let start = ByteIndex::new(end.i - 1);
        let edit = self.edit(start, end, Vec::new());
        let pos = self.storage.position_of_byte(start);
        self.cursor.set_x(pos.x);
        self.cursor.set_y(pos.y);
        proof {
            crate::storage::lemma_spec_position_bounds(self.storage@, start.i as int);
            assert(self.storage.content() =~= old(self).storage.content().subrange(
                0,
                end.i - 1,
            ) + old(self).storage.content().subrange(
                end.i as int,
                old(self).storage.content().len() as int,
            ));
        }
        Some(edit)
    }
}

} // verus!
