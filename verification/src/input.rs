//! Typed keys, and the translation of raw key events into them.

use vstd::prelude::*;

verus! {

/// A key the application responds to.
#[derive(Debug, Clone, Copy, PartialEq, Eq, Hash, Structural)]
pub enum Key {
    Char(char),
    Escape,
    Enter,
    Space,
    Backspace,
    Tab,
    ShiftTab,
    Up,
    Down,
    Left,
    Right,
    Home,
    End,
    PageUp,
    PageDown,
    Insert,
    Delete,
    F(u8),
    CtrlR,
    CtrlD,
    CtrlF,
    CtrlB,
    CtrlU,
}

/// The key code of a raw terminal key event.
#[derive(Debug, Clone, Copy, PartialEq, Eq, Structural)]
pub enum RawCode {
    Char(char),
    Esc,
    Enter,
    Backspace,
    Up,
    Down,
    Left,
    Right,
    Insert,
    Delete,
    Home,
    End,
    PageUp,
    PageDown,
    Tab,
    BackTab,
    F(u8),
    /// Any other code.
    Other,
}

/// A raw terminal key event: its code, whether Control was held, and
/// whether it is a press (rather than a repeat or release).
#[derive(Debug, Clone, Copy, PartialEq, Eq, Structural)]
pub struct RawKey {
    pub code: RawCode,
    pub ctrl: bool,
    pub press: bool,
}

/// The key a raw event stands for. Only presses count. Control with `r`,
/// `d`, `f`, `b`, `u` gives the control keys and Control-C quits (as
/// `q`); otherwise the code decides and a space is [`Key::Space`].
pub open spec fn translated(k: RawKey) -> Option<Key> {
    if !k.press {
        None
    } else if k.ctrl && k.code == RawCode::Char('r') {
        Some(Key::CtrlR)
    } else if k.ctrl && k.code == RawCode::Char('d') {
        Some(Key::CtrlD)
    } else if k.ctrl && k.code == RawCode::Char('f') {
        Some(Key::CtrlF)
    } else if k.ctrl && k.code == RawCode::Char('b') {
        Some(Key::CtrlB)
    } else if k.ctrl && k.code == RawCode::Char('u') {
        Some(Key::CtrlU)
    } else if k.ctrl && k.code == RawCode::Char('c') {
        Some(Key::Char('q'))
    } else {
        match k.code {
            RawCode::Esc => Some(Key::Escape),
            RawCode::Enter => Some(Key::Enter),
            RawCode::Char(c) => if c == ' ' { Some(Key::Space) } else { Some(Key::Char(c)) },
            RawCode::Backspace => Some(Key::Backspace),
            RawCode::Up => Some(Key::Up),
            RawCode::Down => Some(Key::Down),
            RawCode::Left => Some(Key::Left),
            RawCode::Right => Some(Key::Right),
            RawCode::Insert => Some(Key::Insert),
            RawCode::Delete => Some(Key::Delete),
            RawCode::Home => Some(Key::Home),
            RawCode::End => Some(Key::End),
            RawCode::PageUp => Some(Key::PageUp),
            RawCode::PageDown => Some(Key::PageDown),
            RawCode::Tab => Some(Key::Tab),
            RawCode::BackTab => Some(Key::ShiftTab),
            RawCode::F(n) => Some(Key::F(n)),
            RawCode::Other => None,
        }
    }
}

/// Translates a raw key event into a typed key.
pub fn translate_key(key: RawKey) -> (r: Option<Key>)
    ensures
        r == translated(key),
{
    if !key.press {
        return None;
    }
    if key.ctrl {
        match key.code {
            RawCode::Char('r') => return Some(Key::CtrlR),
            RawCode::Char('d') => return Some(Key::CtrlD),
            RawCode::Char('f') => return Some(Key::CtrlF),
            RawCode::Char('b') => return Some(Key::CtrlB),
            RawCode::Char('u') => return Some(Key::CtrlU),
            RawCode::Char('c') => return Some(Key::Char('q')),
            _ => {},
        }
    }
    match key.code {
        RawCode::Esc => Some(Key::Escape),
        RawCode::Enter => Some(Key::Enter),
        RawCode::Char(' ') => Some(Key::Space),
        RawCode::Backspace => Some(Key::Backspace),
        RawCode::Up => Some(Key::Up),
        RawCode::Down => Some(Key::Down),
        RawCode::Left => Some(Key::Left),
        RawCode::Right => Some(Key::Right),
        RawCode::Insert => Some(Key::Insert),
        RawCode::Delete => Some(Key::Delete),
        RawCode::Home => Some(Key::Home),
        RawCode::End => Some(Key::End),
        RawCode::PageUp => Some(Key::PageUp),
        RawCode::PageDown => Some(Key::PageDown),
        RawCode::Tab => Some(Key::Tab),
        RawCode::BackTab => Some(Key::ShiftTab),
        RawCode::F(n) => Some(Key::F(n)),
        RawCode::Char(c) => Some(Key::Char(c)),
        RawCode::Other => None,
    }
}

} // verus!
