//! Cursor positions and search directions.

use vstd::prelude::*;

verus! {

/// A place in a document: column `x` counted in grapheme clusters, row `y`.
#[derive(Debug, Clone, Copy, Default, PartialEq, Eq, Structural)]
pub struct Position {
    pub x: usize,
    pub y: usize,
}

/// Which way a search runs.
#[derive(Debug, Clone, Copy, PartialEq, Eq, Structural)]
pub enum SearchDirection {
    Forward,
    Backward,
}

/// The size of the text area of a screen, in cells.
#[derive(Debug, Clone, Copy, Default, PartialEq, Eq, Structural)]
pub struct Size {
    pub height: u16,
    pub width: u16,
}

} // verus!
