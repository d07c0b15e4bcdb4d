//! Keyboard input as the library sees it: a key code and the state of the
//! modifier keys.  The terminal front end turns its own events into these
//! values.
use vstd::prelude::*;

verus! {

/// Which key was pressed.
#[derive(Clone, Copy, Debug, PartialEq, Eq, Structural)]
pub enum KeyCode {
    Char(char),
    Esc,
    Enter,
    Backspace,
    Delete,
    Tab,
    Up,
    Down,
    Left,
    Right,
    Home,
    End,
    PageUp,
    PageDown,
    F(u8),
    Null,
    /// Any key that the application does not react to.
    Other,
}

/// A key press together with the modifier keys held down.
#[derive(Clone, Copy, Debug, PartialEq, Eq, Structural)]
pub struct Key {
    pub code: KeyCode,
    pub ctrl: bool,
    pub shift: bool,
    pub alt: bool,
}

impl Key {
    /// A key pressed without modifiers.
    pub fn plain(code: KeyCode) -> (k: Key)
        ensures
            k.code == code,
            !k.ctrl,
            !k.shift,
            !k.alt,
    {
        Key { code, ctrl: false, shift: false, alt: false }
    }

    /// A key pressed together with Ctrl.
    pub fn with_ctrl(code: KeyCode) -> (k: Key)
        ensures
            k.code == code,
            k.ctrl,
            !k.shift,
            !k.alt,
    {
        Key { code, ctrl: true, shift: false, alt: false }
    }

    /// A key pressed together with Shift.
    pub fn with_shift(code: KeyCode) -> (k: Key)
        ensures
            k.code == code,
            !k.ctrl,
            k.shift,
            !k.alt,
    {
        Key { code, ctrl: false, shift: true, alt: false }
    }
}

} // verus!
