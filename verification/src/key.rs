//! Abstract key symbols and the classification of raw terminal input.

use vstd::prelude::*;

verus! {

/// The code of a raw terminal key event, before modifiers are looked at.
#[derive(Clone, Copy, Debug, PartialEq, Eq, Structural)]
pub enum RawCode {
    Character(char),
    Enter,
    Backspace,
    Delete,
    Left,
    Right,
    Up,
    Down,
    Home,
    End,
    Escape,
    Function(u8),
    Other,
}

/// A raw terminal key event: a code and the modifiers held with it.
#[derive(Clone, Copy, Debug, PartialEq, Eq, Structural)]
pub struct RawKey {
    pub code: RawCode,
    pub ctrl: bool,
    pub alt: bool,
}

/// An abstract key symbol.
#[derive(Clone, Copy, Debug, PartialEq, Eq, Structural)]
pub enum Key {
    Char(char),
    Ctrl(char),
    Enter,
    Backspace,
    Delete,
    Left,
    Right,
    Up,
    Down,
    Home,
    End,
    Esc,
    F(u8),
    Unknown,
}

/// The key symbol that a raw event stands for. A character held with
/// control is a control key; one held with alt alone is not recognised.
/// Modifiers on any other code are ignored.
pub open spec fn classified(raw: RawKey) -> Key {
    match raw.code {
        RawCode::Character(c) => if raw.ctrl {
            Key::Ctrl(c)
        } else if raw.alt {
            Key::Unknown
        } else {
            Key::Char(c)
        },
        RawCode::Enter => Key::Enter,
        RawCode::Backspace => Key::Backspace,
        RawCode::Delete => Key::Delete,
        RawCode::Left => Key::Left,
        RawCode::Right => Key::Right,
        RawCode::Up => Key::Up,
        RawCode::Down => Key::Down,
        RawCode::Home => Key::Home,
        RawCode::End => Key::End,
        RawCode::Escape => Key::Esc,
        RawCode::Function(n) => Key::F(n),
        RawCode::Other => Key::Unknown,
    }
}

/// Maps a raw event to exactly one key symbol. Total: an event that is not
/// recognised gives `Key::Unknown`.
pub fn classify(raw: RawKey) -> (key: Key)
    ensures
        key == classified(raw),
{
    match raw.code {
        RawCode::Character(c) => {
            if raw.ctrl {
                Key::Ctrl(c)
            } else if raw.alt {
                Key::Unknown
            } else {
                Key::Char(c)
            }
        },
        RawCode::Enter => Key::Enter,
        RawCode::Backspace => Key::Backspace,
        RawCode::Delete => Key::Delete,
        RawCode::Left => Key::Left,
        RawCode::Right => Key::Right,
        RawCode::Up => Key::Up,
        RawCode::Down => Key::Down,
        RawCode::Home => Key::Home,
        RawCode::End => Key::End,
        RawCode::Escape => Key::Esc,
        RawCode::Function(n) => Key::F(n),
        RawCode::Other => Key::Unknown,
    }
}

impl Key {
    /// Whether the key asks to leave the dashboard: `q` or control-c.
    pub open spec fn exits(self) -> bool {
        self == Key::Char('q') || self == Key::Ctrl('c')
    }

    /// Whether the key asks to leave the dashboard.
    pub fn is_exit(&self) -> (r: bool)
        ensures
            r == self.exits(),
    {
        match *self {
            Key::Char(c) => c == 'q',
            Key::Ctrl(c) => c == 'c',
            _ => false,
        }
    }
}

} // verus!
