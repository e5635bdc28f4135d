//! Key events of the terminal.
use vstd::prelude::*;

verus! {

/// The keys that the screens tell apart.
#[derive(Clone, Copy, Debug, PartialEq, Eq, Structural)]
pub enum KeyCode {
    Tab,
    Up,
    Down,
    Enter,
    Backspace,
    Char(char),
    Other,
}

/// What happened to the key.
#[derive(Clone, Copy, Debug, PartialEq, Eq, Structural)]
pub enum KeyKind {
    Press,
    Repeat,
    Release,
}

/// A key event, and whether the control key was held.
#[derive(Clone, Copy, Debug, PartialEq, Eq, Structural)]
pub struct KeyEvent {
    pub code: KeyCode,
    pub kind: KeyKind,
    pub control: bool,
}

impl KeyEvent {
    /// The key that interrupts the program.
    pub open spec fn is_interrupt(self) -> bool {
        self.code == KeyCode::Char('c') && self.control
    }

    /// The key that types `c`.
    pub open spec fn typed(c: char) -> KeyEvent {
        KeyEvent { code: KeyCode::Char(c), kind: KeyKind::Press, control: false }
    }
}

} // verus!
