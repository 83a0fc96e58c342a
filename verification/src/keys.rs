//! Input events the editor reacts to: key presses and mouse actions.
use vstd::prelude::*;

verus! {

/// A key on the keyboard.
#[derive(Clone, Copy, PartialEq, Eq, Debug, Structural)]
pub enum KeyCode {
    Char(char),
    Tab,
    Enter,
    Backspace,
    Delete,
    Left,
    Right,
    Up,
    Down,
    Home,
    End,
    PageUp,
    PageDown,
    Esc,
    /// Any other key (function keys, media keys, ...).
    Other,
}

/// The modifier keys held with a key.
#[allow(non_camel_case_types)]
#[derive(Clone, Copy, PartialEq, Eq, Debug, Structural)]
pub enum KeyModifiers {
    NONE,
    CONTROL,
    ALT,
    CONTROL_ALT,
}

impl KeyModifiers {
    pub open spec fn has_control(self) -> bool {
        self == KeyModifiers::CONTROL || self == KeyModifiers::CONTROL_ALT
    }

    pub open spec fn has_alt(self) -> bool {
        self == KeyModifiers::ALT || self == KeyModifiers::CONTROL_ALT
    }

    /// Whether Control is held.
    pub fn control(self) -> (r: bool)
        ensures
            r == self.has_control(),
    {
        match self {
            KeyModifiers::CONTROL => true,
            KeyModifiers::CONTROL_ALT => true,
            _ => false,
        }
    }

    /// Whether Alt is held.
    pub fn alt(self) -> (r: bool)
        ensures
            r == self.has_alt(),
    {
        match self {
            KeyModifiers::ALT => true,
            KeyModifiers::CONTROL_ALT => true,
            _ => false,
        }
    }
}

/// A key press.
#[derive(Clone, Copy, PartialEq, Eq, Debug, Structural)]
pub struct KeyEvent {
    pub code: KeyCode,
    pub modifiers: KeyModifiers,
}

impl KeyEvent {
    pub fn new(code: KeyCode, modifiers: KeyModifiers) -> (k: KeyEvent)
        ensures
            k.code == code,
            k.modifiers == modifiers,
    {
        KeyEvent { code, modifiers }
    }
}

/// A key the editor can take: a line break arrives as `Enter`, never as a
/// plain char.
pub open spec fn key_ok(k: KeyEvent) -> bool {
    !(k.code == KeyCode::Char('\n') && !k.modifiers.has_control() && !k.modifiers.has_alt())
}

/// What the mouse did.
#[derive(Clone, Copy, PartialEq, Eq, Debug, Structural)]
pub enum MouseEventKind {
    /// The left button went down.
    LeftDown,
    ScrollDown,
    ScrollUp,
    /// Anything else (other buttons, drags, moves).
    Other,
}

/// A mouse action at a screen cell.
#[derive(Clone, Copy, PartialEq, Eq, Debug, Structural)]
pub struct MouseEvent {
    pub kind: MouseEventKind,
    pub column: u16,
    pub row: u16,
}

} // verus!
