use vstd::prelude::*;

verus! {

/// The editing mode the controller is in. Exactly one is active at a
/// time; only the controller itself changes it.
#[derive(Clone, Copy, PartialEq, Eq, Structural, Debug)]
pub enum Mode {
    /// Single-key commands: cursor motion, deletion, saving, mode switches.
    Normal,
    /// Keys are inserted into the buffer literally.
    Insert,
    /// Keys accumulate into a jump tag until it can be resolved.
    Jump,
}

/// The controller's state: the active mode and the characters collected
/// so far while in jump mode.
pub struct EditorState {
    pub mode: Mode,
    pub jump_input: Vec<char>,
}

impl EditorState {
    /// The jump accumulator is only meaningful while the jump mode is
    /// active; in every other mode it is empty.
    pub open spec fn wf(self) -> bool {
        self.mode != Mode::Jump ==> self.jump_input@.len() == 0
    }

    /// A fresh session starts in normal mode with nothing accumulated.
    pub fn new() -> (s: EditorState)
        ensures
            s.mode == Mode::Normal,
            s.jump_input@ == Seq::<char>::empty(),
            s.wf(),
    {
        EditorState { mode: Mode::Normal, jump_input: Vec::new() }
    }
}

} // verus!
