use vstd::prelude::*;

verus! {

/// A location in a buffer: a line index and a character offset within
/// that line. Positions are copied by value whenever the cursor is
/// relocated; they are never aliased.
#[derive(Clone, Copy, PartialEq, Eq, Structural, Debug)]
pub struct Position {
    pub line: usize,
    pub offset: usize,
}

} // verus!
