//! Parsing and serialization for the events section of an osu! beatmap file:
//! timeline entries (background, video, break and colour shorthand records)
//! and storyboard objects carrying nested animation commands.
//!
//! Every field's presence, offset and textual shape may depend on the file
//! format version supplied at parse and serialize time; the version rules are
//! collected in [`events`].

use vstd::prelude::*;

pub mod decimal;
pub mod events;
pub mod helper;
pub mod hitobjects;
pub mod numbers;
pub mod text;

verus! {

/// A signed integer field of the file format.
pub type Integer = i32;

/// The file format version, as read from the file header.
pub type Version = usize;

/// A screen position attached to an event.
#[derive(Clone, Copy, Debug, Hash, PartialEq, Eq, Structural)]
pub struct Position {
    pub x: Integer,
    pub y: Integer,
}

/// A field-level error wrapped with the physical, zero-based line number it
/// occurred on.
#[derive(Clone, Copy, Debug, Hash, PartialEq, Eq, Structural)]
pub struct Error<E> {
    pub line_index: usize,
    pub error: E,
}

impl<E> Error<E> {
    /// Wraps `error` with the line it occurred on.
    pub fn new(error: E, line_index: usize) -> (r: Error<E>)
        ensures
            r == (Error { line_index, error }),
    {
        Error { line_index, error }
    }
}

} // verus!
