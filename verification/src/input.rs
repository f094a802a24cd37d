//! Key events as plain values. The host decodes whatever its terminal
//! delivers into an [`Input`] before the library sees it; a key the editor
//! does not know is handed in as [`Key::Null`], the idle tick.

use vstd::prelude::*;

verus! {

/// One decoded key.
#[derive(Clone, Copy, Debug, PartialEq, Eq, Structural)]
pub enum Key {
    /// A printable character.
    Char(char),
    /// The enter / return key.
    Enter,
    /// The escape key.
    Esc,
    /// The backspace key.
    Backspace,
    /// The forward-delete key.
    Delete,
    /// The tabulator key.
    Tab,
    /// Arrow up.
    Up,
    /// Arrow down.
    Down,
    /// Arrow left.
    Left,
    /// Arrow right.
    Right,
    /// The home key.
    Home,
    /// The end key.
    End,
    /// Page up.
    PageUp,
    /// Page down.
    PageDown,
    /// No key: the idle tick.
    Null,
}

/// One key event: the key together with its modifiers.
#[derive(Clone, Copy, Debug, PartialEq, Eq, Structural)]
pub struct Input {
    /// The key itself.
    pub key: Key,
    /// Whether control was held.
    pub ctrl: bool,
    /// Whether alt was held.
    pub alt: bool,
    /// Whether shift was held.
    pub shift: bool,
}

impl Input {
    /// The event carrying `key` with no modifiers.
    pub fn plain(key: Key) -> (r: Input)
        ensures
            r == (Input { key, ctrl: false, alt: false, shift: false }),
    {
        Input { key, ctrl: false, alt: false, shift: false }
    }
}

impl Default for Input {
    /// The idle tick: no key, no modifiers.
    fn default() -> (r: Input)
        ensures
            r == (Input { key: Key::Null, ctrl: false, alt: false, shift: false }),
    {
        Input { key: Key::Null, ctrl: false, alt: false, shift: false }
    }
}

} // verus!
