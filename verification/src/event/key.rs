use crate::text::char_to_string;
use vstd::prelude::*;

verus! {

/// A decoded key event.
#[derive(Debug, Clone, Copy, PartialEq, Eq, Structural)]
pub enum Key {
    Escape,
    Insert,
    Delete,
    Home,
    End,
    Backspace,
    ArrowUp,
    ArrowDown,
    ArrowLeft,
    ArrowRight,
    PageUp,
    PageDown,
    Tab,
    Enter,
    F1,
    F2,
    F3,
    F4,
    F5,
    F6,
    F7,
    F8,
    F9,
    F10,
    F11,
    F12,
    Null,
    Alt(char),
    Ctrl(char),
    Char(char),
}

/// The display name of a key: the variant's name for named keys, and the
/// bare character for the character-bearing keys.
pub open spec fn spec_key_name(k: Key) -> Seq<char> {
    match k {
        Key::Escape => "Escape"@,
        Key::Insert => "Insert"@,
        Key::Delete => "Delete"@,
        Key::Home => "Home"@,
        Key::End => "End"@,
        Key::Backspace => "Backspace"@,
        Key::ArrowUp => "ArrowUp"@,
        Key::ArrowDown => "ArrowDown"@,
        Key::ArrowLeft => "ArrowLeft"@,
        Key::ArrowRight => "ArrowRight"@,
        Key::PageUp => "PageUp"@,
        Key::PageDown => "PageDown"@,
        Key::Tab => "Tab"@,
        Key::Enter => "Enter"@,
        Key::F1 => "F1"@,
        Key::F2 => "F2"@,
        Key::F3 => "F3"@,
        Key::F4 => "F4"@,
        Key::F5 => "F5"@,
        Key::F6 => "F6"@,
        Key::F7 => "F7"@,
        Key::F8 => "F8"@,
        Key::F9 => "F9"@,
        Key::F10 => "F10"@,
        Key::F11 => "F11"@,
        Key::F12 => "F12"@,
        Key::Null => "Null"@,
        Key::Alt(c) => seq![c],
        Key::Ctrl(c) => seq![c],
        Key::Char(c) => seq![c],
    }
}

impl Key {
    /// Renders the key for the status line and command echo.
    pub fn name(&self) -> (r: String)
        ensures
            r@ == spec_key_name(*self),
    {
        match *self {
            Key::Escape => "Escape".to_owned(),
            Key::Insert => "Insert".to_owned(),
            Key::Delete => "Delete".to_owned(),
            Key::Home => "Home".to_owned(),
            Key::End => "End".to_owned(),
            Key::Backspace => "Backspace".to_owned(),
            Key::ArrowUp => "ArrowUp".to_owned(),
            Key::ArrowDown => "ArrowDown".to_owned(),
            Key::ArrowLeft => "ArrowLeft".to_owned(),
            Key::ArrowRight => "ArrowRight".to_owned(),
            Key::PageUp => "PageUp".to_owned(),
            Key::PageDown => "PageDown".to_owned(),
            Key::Tab => "Tab".to_owned(),
            Key::Enter => "Enter".to_owned(),
            Key::F1 => "F1".to_owned(),
            Key::F2 => "F2".to_owned(),
            Key::F3 => "F3".to_owned(),
            Key::F4 => "F4".to_owned(),
            Key::F5 => "F5".to_owned(),
            Key::F6 => "F6".to_owned(),
            Key::F7 => "F7".to_owned(),
            Key::F8 => "F8".to_owned(),
            Key::F9 => "F9".to_owned(),
            Key::F10 => "F10".to_owned(),
            Key::F11 => "F11".to_owned(),
            Key::F12 => "F12".to_owned(),
            Key::Null => "Null".to_owned(),
            Key::Alt(c) => char_to_string(c),
            Key::Ctrl(c) => char_to_string(c),
            Key::Char(c) => char_to_string(c),
        }
    }
}

} // verus!
