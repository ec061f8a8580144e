//! Key presses as the interface reads them from the terminal.

use vstd::prelude::*;

verus! {

#[derive(Debug, Clone, Copy, PartialEq, Eq, Structural)]
pub enum KeyCode {
    Char(char),
    Enter,
    Esc,
    Tab,
    BackTab,
    Backspace,
    Delete,
    Left,
    Right,
    Up,
    Down,
    Home,
    End,
    /// Any key the interface gives no meaning to.
    Other,
}

#[derive(Debug, Clone, Copy, PartialEq, Eq, Structural)]
pub struct KeyModifiers {
    pub control: bool,
    pub alt: bool,
    pub shift: bool,
}

#[derive(Debug, Clone, Copy, PartialEq, Eq, Structural)]
pub struct KeyEvent {
    pub code: KeyCode,
    pub modifiers: KeyModifiers,
}

impl KeyEvent {
    pub fn new(code: KeyCode, modifiers: KeyModifiers) -> (key: Self)
        ensures
            key == (KeyEvent { code, modifiers }),
    {
        KeyEvent { code, modifiers }
    }

    /// A key pressed without modifiers.
    pub fn plain(code: KeyCode) -> (key: Self)
        ensures
            key.code == code,
            !key.modifiers.control && !key.modifiers.alt && !key.modifiers.shift,
    {
        KeyEvent { code, modifiers: KeyModifiers { control: false, alt: false, shift: false } }
    }

    /// A character pressed with Control.
    pub fn ctrl(c: char) -> (key: Self)
        ensures
            key.code == KeyCode::Char(c),
            key.modifiers.control && !key.modifiers.alt && !key.modifiers.shift,
    {
        KeyEvent {
            code: KeyCode::Char(c),
            modifiers: KeyModifiers { control: true, alt: false, shift: false },
        }
    }
}

/// `c` with an ASCII capital replaced by its small letter.
pub open spec fn ascii_lower(c: char) -> char {
    if 'A' <= c <= 'Z' {
        ((c as u32) + 32) as u8 as char
    } else {
        c
    }
}

/// Compare two characters without regard to ASCII case.
pub fn eq_ignore_ascii_case(a: char, b: char) -> (eq: bool)
    ensures
        eq == (ascii_lower(a) == ascii_lower(b)),
{
    to_ascii_lower(a) == to_ascii_lower(b)
}

fn to_ascii_lower(c: char) -> (r: char)
    ensures
        r == ascii_lower(c),
{
    if 'A' <= c && c <= 'Z' {
        (c as u8 + 32) as char
    } else {
        c
    }
}

} // verus!
