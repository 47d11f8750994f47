//! Keys as they come from the terminal.

use vstd::prelude::*;

verus! {

#[derive(Debug, Clone, Copy, PartialEq, Eq, Structural)]
pub enum MediaKey {
    PlayPause,
    Stop,
    TrackNext,
    TrackPrevious,
    RaiseVolume,
    LowerVolume,
    Other,
}

#[derive(Debug, Clone, Copy, PartialEq, Eq, Structural)]
pub enum KeyCode {
    Esc,
    Enter,
    Tab,
    BackTab,
    Backspace,
    Up,
    Down,
    Left,
    Right,
    Char(char),
    Media(MediaKey),
    Other,
}

/// A key that was pressed, with the modifiers that matter.
#[derive(Debug, Clone, Copy, PartialEq, Eq, Structural)]
pub struct KeyEvent {
    pub code: KeyCode,
    pub control: bool,
    pub shift: bool,
}

impl KeyEvent {
    /// A key without modifiers.
    pub fn plain(code: KeyCode) -> (r: KeyEvent)
        ensures
            r == (KeyEvent { code, control: false, shift: false }),
    {
        KeyEvent { code, control: false, shift: false }
    }
}

} // verus!
