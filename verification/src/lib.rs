//! The in-memory core of a terminal text editor.
//!
//! The crate stores document text as an ordered sequence of lines, applies
//! byte-range edits, tracks the cursor and the visible viewport, and keeps
//! incremental syntax highlighting consistent with the live document.
//! Process-level concerns (raw terminal modes, key input, the language-server
//! transport, configuration files on disk) live outside this crate and talk to
//! it through plain values.

use vstd::prelude::*;

mod buffer;
mod color;
mod config;
mod edit;
mod highlight;
mod input;
mod motion;
mod screen;
mod storage;
mod syntax;
mod units;

pub use buffer::{Buffer, Buffers, DocumentSnapshot};
pub use color::Color;
pub use config::{Config, LanguageServerConfig};
pub use edit::{ChangeRecord, Edit};
pub use input::{Key, KeyCodec};
pub use highlight::{highlight_support_of, span_to_points, CaptureSpan, Highlighter, Theme};
pub use motion::Cursor;
pub use screen::{Bounds, Cell, Coordinates, Screen, Size};
pub use storage::Storage;
pub use syntax::Syntax;
pub use units::{ByteIndex, BytePosition, CharPosition, Offset, Position, Span};

verus! {

/// Command-line options: the list of file names to edit.
#[derive(Debug)]
pub struct Options {
    pub files: Vec<String>,
}

/// The editing mode the editor is in.
#[derive(Debug, Clone, Copy, PartialEq, Eq, Structural)]
pub enum Mode {
    Normal,
    Insert,
}

impl Default for Mode {
    /// Editing starts in normal mode.
    fn default() -> (r: Mode)
        ensures
            r == Mode::Normal,
    {
        Mode::Normal
    }
}

/// What the editor should do in response to one key press.
#[derive(Debug, Clone, Copy, PartialEq, Eq, Structural)]
pub enum Command {
    /// Leave the editor.
    Quit,
    /// Move the cursor left one column.
    MoveLeft,
    /// Move the cursor down one line.
    MoveDown,
    /// Move the cursor up one line.
    MoveUp,
    /// Move the cursor right one column.
    MoveRight,
    /// Insert a character at the cursor.
    InsertChar(char),
    /// Delete the byte before the cursor.
    DeleteBack,
    /// Do nothing.
    Idle,
}

/// The mode transition and command for one key press: normal mode binds
/// `q` to quit, `hjkl` to motion and `i` to insert mode; insert mode types
/// characters, deletes backwards, and leaves with escape.
pub open spec fn spec_handle_key(mode: Mode, key: Key) -> (Mode, Command) {
    match (mode, key) {
        (Mode::Normal, Key::Char(c)) => {
            if c == 'q' {
                (Mode::Normal, Command::Quit)
            } else if c == 'h' {
                (Mode::Normal, Command::MoveLeft)
            } else if c == 'i' {
                (Mode::Insert, Command::Idle)
            } else if c == 'j' {
                (Mode::Normal, Command::MoveDown)
            } else if c == 'k' {
                (Mode::Normal, Command::MoveUp)
            } else if c == 'l' {
                (Mode::Normal, Command::MoveRight)
            } else {
                (Mode::Normal, Command::Idle)
            }
        },
        (Mode::Insert, Key::Esc) => (Mode::Normal, Command::Idle),
        (Mode::Insert, Key::Backspace) => (Mode::Insert, Command::DeleteBack),
        (Mode::Insert, Key::Char(c)) => (Mode::Insert, Command::InsertChar(c)),
        (Mode::Insert, Key::Return) => (Mode::Insert, Command::InsertChar('\n')),
        _ => (mode, Command::Idle),
    }
}

impl Mode {
    /// Handles one key press: returns the next mode and the command the key
    /// binds to in this mode.
    pub fn handle_key(self, key: Key) -> (r: (Mode, Command))
        ensures
            r == spec_handle_key(self, key),
    {
        match (self, key) {
            (Mode::Normal, Key::Char(c)) => {
                if c == 'q' {
                    (Mode::Normal, Command::Quit)
                } else if c == 'h' {
                    (Mode::Normal, Command::MoveLeft)
                } else if c == 'i' {
                    (Mode::Insert, Command::Idle)
                } else if c == 'j' {
                    (Mode::Normal, Command::MoveDown)
                } else if c == 'k' {
                    (Mode::Normal, Command::MoveUp)
                } else if c == 'l' {
                    (Mode::Normal, Command::MoveRight)
                } else {
                    (Mode::Normal, Command::Idle)
                }
            },
            (Mode::Insert, Key::Esc) => (Mode::Normal, Command::Idle),
            (Mode::Insert, Key::Backspace) => (Mode::Insert, Command::DeleteBack),
            (Mode::Insert, Key::Char(c)) => (Mode::Insert, Command::InsertChar(c)),
            (Mode::Insert, Key::Return) => (Mode::Insert, Command::InsertChar('\n')),
            (m, _) => (m, Command::Idle),
        }
    }
}

} // verus!
