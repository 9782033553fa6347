//! Positions and ranges as an editor shows them.

use vstd::prelude::*;

verus! {

/// A place in a document: line and column, both counted from zero.
#[derive(Clone, Copy, Debug, PartialEq, Eq, Structural)]
pub struct Position {
    pub line: usize,
    pub character: usize,
}

/// A stretch of a document, from `start` to `end`.
#[derive(Clone, Copy, Debug, PartialEq, Eq, Structural)]
pub struct Range {
    pub start: Position,
    pub end: Position,
}

impl Position {
    /// Whether `self` comes no later than `other`: an earlier line, or the same line and
    /// no later column.
    pub open spec fn at_or_before(self, other: Position) -> bool {
        ||| self.line < other.line
        ||| self.line == other.line && self.character <= other.character
    }
}

} // verus!
