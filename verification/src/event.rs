//! Terminal input events, as plain values.
use vstd::prelude::*;

verus! {

/// The bits of the Shift modifier.
pub const SHIFT: u8 = 0b0000_0001;

/// The bits of the Control modifier.
pub const CONTROL: u8 = 0b0000_0010;

/// No modifier.
pub const NONE: u8 = 0b0000_0000;

/// A key. Keys the editor has no use for are `Other`, with the name they
/// are known by.
#[derive(Clone, Debug)]
pub enum KeyCode {
    Backspace,
    Enter,
    Left,
    Right,
    Up,
    Down,
    Home,
    End,
    PageUp,
    PageDown,
    Delete,
    Char(char),
    Other(String),
}

/// Whether a key went down, was held, or went up.
#[derive(Copy, Clone, Debug, PartialEq, Eq, Structural)]
pub enum KeyEventKind {
    Press,
    Repeat,
    Release,
}

/// A key event: the key, the modifier bits held, and its kind.
#[derive(Clone, Debug)]
pub struct KeyEvent {
    pub code: KeyCode,
    pub modifiers: u8,
    pub kind: KeyEventKind,
}

/// An input event.
#[derive(Clone, Debug)]
pub enum Event {
    FocusGained,
    FocusLost,
    Key(KeyEvent),
    Mouse,
    Paste(String),
    Resize(u16, u16),
}

} // verus!
