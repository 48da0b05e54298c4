//! Decoding of key presses from raw terminal input bytes.
//!
//! Reading the terminal is a process-level concern; the decoding of the bytes
//! it produces — plain characters, control characters, and the small table of
//! arrow-key escape sequences — is decided here, on plain byte slices.

use vstd::prelude::*;

verus! {

/// The escape byte that introduces escape sequences.
pub const ESCAPE: u8 = 0x1b;

/// A decoded key press.
#[derive(Debug, Clone, Copy, PartialEq, Eq, Structural)]
pub enum Key {
    ArrowUp,
    ArrowDown,
    ArrowLeft,
    ArrowRight,
    Char(char),
    Ctrl(char),
    Backspace,
    Return,
    Esc,
}

/// The key denoted by a single input byte.
pub open spec fn spec_parse_byte(byte: u8) -> Key {
    if byte == 0x0d {
        Key::Return
    } else if 0x01 <= byte <= 0x1a {
        Key::Ctrl(((byte | 0x60) as u8) as char)
    } else if byte == ESCAPE {
        Key::Esc
    } else if byte == 0x7f {
        Key::Backspace
    } else {
        Key::Char(byte as char)
    }
}

/// The key and consumed length denoted by the bytes following `ESC [`, if
/// they begin a known escape sequence.
pub open spec fn spec_parse_escape_sequence(s: Seq<u8>) -> Option<(Key, usize)> {
    if s.len() >= 1 && s[0] == 65 {
        Some((Key::ArrowUp, 1usize))
    } else if s.len() >= 1 && s[0] == 66 {
        Some((Key::ArrowDown, 1usize))
    } else if s.len() >= 1 && s[0] == 67 {
        Some((Key::ArrowRight, 1usize))
    } else if s.len() >= 1 && s[0] == 68 {
        Some((Key::ArrowLeft, 1usize))
    } else {
        None
    }
}

/// The number of bytes before the first escape byte, or the whole length if
/// there is none.
pub open spec fn spec_find_escape(s: Seq<u8>) -> int
    decreases s.len(),
{
    if s.len() == 0 {
        0
    } else if s[0] == ESCAPE {
        0
    } else {
        1 + spec_find_escape(s.drop_first())
    }
}

/// What decoding one buffer yields: how many bytes are consumed, and the key
/// decoded from them, if any. An unknown escape sequence consumes its bytes
/// and yields nothing.
pub open spec fn spec_decode(s: Seq<u8>) -> (int, Option<Key>) {
    if s.len() == 0 {
        (0, None)
    } else if s.len() >= 2 && s[0] == ESCAPE && s[1] == 91 {
        let seq = s.skip(2);
        let pos = spec_find_escape(seq);
        match spec_parse_escape_sequence(seq.take(pos)) {
            Some((key, len)) => (2 + len, Some(key)),
            None => (2 + pos, None),
        }
    } else {
        (1, Some(spec_parse_byte(s[0])))
    }
}

/// Codec decoding keys from buffers of terminal input bytes. Escape
/// sequences are notoriously ambiguous; the codec relies on all of them
/// starting with `ESC [`, on user input being slow enough that each key
/// mostly arrives in a buffer of its own, and on the table of known
/// sequences being small.
pub struct KeyCodec;

impl KeyCodec {
    /// Decodes a single input byte.
    pub fn parse_byte(byte: u8) -> (k: Key)
        ensures
            k == spec_parse_byte(byte),
    {
        if byte == 0x0d {
            Key::Return
        } else if 0x01 <= byte && byte <= 0x1a {
            Key::Ctrl((byte | 0x60) as char)
        } else if byte == ESCAPE {
            Key::Esc
        } else if byte == 0x7f {
            Key::Backspace
        } else {
            Key::Char(byte as char)
        }
    }

    /// Attempts to parse a key from a byte slice that starts with an escape
    /// sequence, its `ESC [` prefix already removed; trailing bytes are
    /// allowed. Returns the key and the number of bytes it occupies, or
    /// `None` for an unknown sequence.
    pub fn parse_escape_sequence(seq: &[u8]) -> (r: Option<(Key, usize)>)
        ensures
            r == spec_parse_escape_sequence(seq@),
    {
        if seq.len() == 0 {
            return None;
        }
        match seq[0] {
            65 => Some((Key::ArrowUp, 1)),
            66 => Some((Key::ArrowDown, 1)),
            67 => Some((Key::ArrowRight, 1)),
            68 => Some((Key::ArrowLeft, 1)),
            _ => None,
        }
    }

    /// Decodes the first key of a buffer. Returns how many bytes were
    /// consumed and the key they decode to, if any; an empty buffer consumes
    /// nothing, and an unknown escape sequence is consumed without a key.
    #[verifier::loop_isolation(false)]
    pub fn decode(buf: &[u8]) -> (r: (usize, Option<Key>))
        ensures
            r.0 as int == spec_decode(buf@).0,
            r.1 == spec_decode(buf@).1,
            r.0 <= buf@.len(),
    {
        if buf.len() == 0 {
            return (0, None);
        }
        if buf.len() >= 2 && buf[0] == ESCAPE && buf[1] == 91 {
            let seq = vstd::slice::slice_subrange(buf, 2, buf.len());
            let ghost sq = seq@;
            let mut pos: usize = 0;
            proof {
                assert(sq.skip(0) =~= sq);
            }
            while pos < seq.len() && seq[pos] != ESCAPE
                invariant
                    pos <= sq.len(),
                    spec_find_escape(sq) == pos + spec_find_escape(sq.skip(pos as int)),
                decreases sq.len() - pos,
            {
                proof {
                    assert(sq.skip(pos as int)[0] == sq[pos as int]);
                    assert(sq.skip(pos as int).drop_first() =~= sq.skip(pos as int + 1));
                }
                pos = pos + 1;
            }
            proof {
                if pos < sq.len() {
                    assert(sq.skip(pos as int)[0] == sq[pos as int]);
                } else {
                    assert(sq.skip(pos as int) =~= Seq::<u8>::empty());
                }
                assert(spec_find_escape(sq) == pos);
            }
            let head = vstd::slice::slice_subrange(seq, 0, pos);
            proof {
                assert(head@ =~= sq.take(pos as int));
            }
            match KeyCodec::parse_escape_sequence(head) {
                Some((key, len)) => (2 + len, Some(key)),
                None => (2 + pos, None),
            }
        } else {
            (1, Some(KeyCodec::parse_byte(buf[0])))
        }
    }
}

} // verus!
