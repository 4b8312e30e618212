//! Cursor capture: clicking into the window grabs and hides the cursor and
//! hands the mouse to the player controller; Escape gives it back.
use vstd::prelude::*;

verus! {

#[derive(Clone, Copy, Debug, PartialEq, Eq)]
pub struct CursorState {
    /// The cursor is grabbed and kept at the window centre.
    pub locked: bool,
    pub visible: bool,
    /// The player controller takes mouse and keyboard input.
    pub input_enabled: bool,
}

impl CursorState {
    /// A free, visible cursor; the controller ignores input.
    pub fn released() -> (r: CursorState)
        ensures
            !r.locked && r.visible && !r.input_enabled,
    {
        CursorState { locked: false, visible: true, input_enabled: false }
    }

    /// A grabbed, hidden cursor; the controller takes input.
    pub fn captured() -> (r: CursorState)
        ensures
            r.locked && !r.visible && r.input_enabled,
    {
        CursorState { locked: true, visible: false, input_enabled: true }
    }

    /// Whether the cursor is put back at the window centre this tick.
    pub fn recenters(&self) -> (r: bool)
        ensures
            r == self.locked,
    {
        self.locked
    }

    /// The state after this tick's input: a left click captures, Escape
    /// releases, and Escape wins when both come in one tick.
    pub fn on_input(&self, left_clicked: bool, escape_pressed: bool) -> (r: CursorState)
        ensures
            escape_pressed ==> !r.locked && r.visible && !r.input_enabled,
            !escape_pressed && left_clicked ==> r.locked && !r.visible && r.input_enabled,
            !escape_pressed && !left_clicked ==> r == *self,
    {
        if escape_pressed {
            CursorState::released()
        } else if left_clicked {
            CursorState::captured()
        } else {
            *self
        }
    }
}

} // verus!
