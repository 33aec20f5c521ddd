//! Key presses as the overlays read them.
use vstd::prelude::*;

verus! {

/// The key of a key event.
#[derive(Debug, Clone, Copy, PartialEq, Eq, Structural)]
pub enum KeyCode {
    Up,
    Down,
    Left,
    Right,
    Home,
    End,
    PageUp,
    PageDown,
    Enter,
    Esc,
    Backspace,
    Delete,
    Tab,
    Char(char),
    /// Any other key.
    Other,
}

/// A key event: the key, whether Ctrl was held, and whether it is a press
/// (as opposed to a repeat or a release).
#[derive(Debug, Clone, Copy, PartialEq, Eq, Structural)]
pub struct Key {
    pub code: KeyCode,
    pub ctrl: bool,
    pub press: bool,
}

impl Key {
    /// A press of `code` without modifiers.
    pub fn press(code: KeyCode) -> (r: Key)
        ensures
            r == (Key { code, ctrl: false, press: true }),
    {
        Key { code, ctrl: false, press: true }
    }

    /// A press of `code` with Ctrl held.
    pub fn ctrl(code: KeyCode) -> (r: Key)
        ensures
            r == (Key { code, ctrl: true, press: true }),
    {
        Key { code, ctrl: true, press: true }
    }
}

} // verus!
