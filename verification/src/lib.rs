//! A line-oriented text store for an editor, verified with Verus.
//!
//! A [`gap_buffer::GapBuffer`] holds the bytes of one line around a movable
//! gap, so that edits near the last edit are cheap. A
//! [`document::Document`] holds the lines of a text, each in a gap buffer of
//! its own, and splits and joins them. An [`editor::Editor`] is the state of
//! an editing session on a document: it takes key presses and says what the
//! screen shows. Reading keys, drawing, and reading and writing files are
//! left to the program that uses the library.
//!
//! Contracts speak of a buffer as the sequence of its bytes, of a document
//! as the sequence of its lines, and of an editor as an
//! [`model::EditorView`]; the functions of [`lines`] and [`model`] say what
//! each operation does to these.

pub mod text;
pub mod gap_buffer;
pub mod lines;
pub mod document;
pub mod keys;
pub mod model;
pub mod editor;
pub mod screen;
