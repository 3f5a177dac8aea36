//! Terminal input as the interface reads it: keys, key event kinds and mouse wheel moves.

use vstd::prelude::*;

verus! {

/// A key the interface reacts to.
#[derive(Clone, Copy, Debug, PartialEq, Eq, Structural)]
pub enum Key {
    /// A printable character.
    Char(char),
    Esc,
    Enter,
    Backspace,
    Delete,
    Tab,
    BackTab,
    Up,
    Down,
    Left,
    Right,
    Home,
    End,
    PageUp,
    PageDown,
    /// A function key by number.
    F(u8),
    /// Any other key.
    Other,
}

/// A key press together with whether Control was held.
#[derive(Clone, Copy, Debug, PartialEq, Eq, Structural)]
pub struct KeyPress {
    /// The key.
    pub code: Key,
    /// Whether the Control modifier was held.
    pub control: bool,
}

/// Whether a key event is a press, a repeat or a release.
#[derive(Clone, Copy, Debug, PartialEq, Eq, Structural)]
pub enum KeyEventKind {
    Press,
    Repeat,
    Release,
}

/// Mouse events the interface reacts to.
#[derive(Clone, Copy, Debug, PartialEq, Eq, Structural)]
pub enum MouseKind {
    ScrollUp,
    ScrollDown,
    ScrollLeft,
    ScrollRight,
    /// Any other mouse event.
    Other,
}

/// Whether a key event should act: presses and held-down repeats do, releases do not.
pub fn key_activates(kind: KeyEventKind) -> (result: bool)
    ensures
        result == (kind == KeyEventKind::Press || kind == KeyEventKind::Repeat),
{
    match kind {
        KeyEventKind::Press | KeyEventKind::Repeat => true,
        KeyEventKind::Release => false,
    }
}

/// Whether a key press is Control-C.
pub fn is_interrupt(key: KeyPress) -> (result: bool)
    ensures
        result == (key.code == Key::Char('c') && key.control),
{
    key.control && key.code == Key::Char('c')
}

} // verus!
