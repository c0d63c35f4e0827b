use vstd::prelude::*;
use crate::position::Position;

verus! {

/// A primitive operation the controller asks its host to perform on the
/// current buffer, its cursor, or the workspace. The controller only
/// decides which operations to run; carrying them out is the host's job.
#[derive(Clone, Copy, PartialEq, Eq, Structural, Debug)]
pub enum Op {
    /// Move the cursor up one line.
    MoveUp,
    /// Move the cursor down one line.
    MoveDown,
    /// Move the cursor left one column.
    MoveLeft,
    /// Move the cursor right one column.
    MoveRight,
    /// Move the cursor to the start of its line.
    MoveToStartOfLine,
    /// Move the cursor to the end of its line.
    MoveToEndOfLine,
    /// Relocate the cursor to the given position, if it is valid.
    MoveTo(Position),
    /// Delete the character under the cursor (merging lines at a line end).
    Delete,
    /// Insert the character at the cursor, without moving the cursor.
    InsertChar(char),
    /// Persist the buffer.
    Save,
    /// Switch to the next open buffer.
    NextBuffer,
}

/// What one keystroke amounts to: the operations to perform, in order,
/// and whether the session should end.
pub struct Outcome {
    pub ops: Vec<Op>,
    pub quit: bool,
}

} // verus!
