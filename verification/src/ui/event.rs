//! Input events as plain values: what a pointer or key event has to say to
//! the dispatcher, and nothing else.

use vstd::prelude::*;

verus! {

/// A button of the pointing device.
#[derive(Clone, Copy, Debug, PartialEq, Eq)]
pub enum MouseButton {
    Left,
    Right,
    Middle,
}

/// What the pointing device did.
#[derive(Clone, Copy, Debug, PartialEq, Eq)]
pub enum MouseEventKind {
    /// A button went down.
    Down(MouseButton),
    /// A button came up.
    Up(MouseButton),
    /// The pointer moved with a button held.
    Drag(MouseButton),
    /// The pointer moved with no button held.
    Moved,
    ScrollDown,
    ScrollUp,
    ScrollLeft,
    ScrollRight,
}

/// A pointer event and the cell it happened on.
#[derive(Clone, Copy, Debug, PartialEq, Eq)]
pub struct MouseEvent {
    pub kind: MouseEventKind,
    pub column: u16,
    pub row: u16,
}

/// The key of a key event.
#[derive(Clone, Copy, Debug, PartialEq, Eq)]
pub enum KeyCode {
    Backspace,
    Delete,
    Left,
    Right,
    Esc,
    /// A character key.
    Char(char),
    /// Any key the text field has no use for.
    Other,
}

/// The modifier keys held during a key event.
#[derive(Clone, Copy, Debug, PartialEq, Eq)]
pub enum KeyModifiers {
    /// No modifier is held.
    Unmodified,
    /// Shift is held and no other modifier.
    Shift,
    /// Any other combination.
    Other,
}

/// Whether a key went down, is repeating or came up.
#[derive(Clone, Copy, Debug, PartialEq, Eq)]
pub enum KeyEventKind {
    Press,
    Repeat,
    Release,
}

/// A key event.
#[derive(Clone, Copy, Debug, PartialEq, Eq)]
pub struct KeyEvent {
    pub code: KeyCode,
    pub modifiers: KeyModifiers,
    pub kind: KeyEventKind,
}

} // verus!
