//! Keys, modes and requests: the plain values that an editor exchanges
//! with the program that runs it.

use vstd::prelude::*;

verus! {

/// A key press as the editor reads it.
#[derive(Clone, Copy, Debug, PartialEq, Eq)]
pub enum Key {
    Backspace,
    Left,
    Right,
    Up,
    Down,
    Home,
    End,
    Delete,
    /// A character typed as it is; the line feed is the Enter key.
    Char(char),
    /// A character typed with Ctrl held down.
    Ctrl(char),
    Null,
    Esc,
    /// Any key that the editor does not react to.
    Other,
}

/// What the keys act on: the document, or the status line.
#[derive(Clone, Copy, Debug, PartialEq, Eq)]
pub enum Mode {
    Edit,
    Command,
}

/// What a key press asks of whoever runs the editor.
#[derive(Clone, Copy, Debug, PartialEq, Eq)]
pub enum Request {
    Nothing,
    /// Write the document to its file.
    Save,
}

} // verus!
