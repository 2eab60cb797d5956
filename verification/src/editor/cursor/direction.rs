use crate::event::Key;
use vstd::prelude::*;

verus! {

/// A cursor movement request.
#[derive(Debug, Clone, Copy, PartialEq, Eq, Structural)]
pub enum Direction {
    /// No movement.
    Stay,
    Up,
    Down,
    Left,
    Right,
}

/// The movement a key requests: the arrow keys and the home-row letters,
/// anything else moves nothing.
pub open spec fn spec_direction_of(key: Key) -> Direction {
    match key {
        Key::Char('h') => Direction::Left,
        Key::Char('j') => Direction::Down,
        Key::Char('k') => Direction::Up,
        Key::Char('l') => Direction::Right,
        Key::ArrowLeft => Direction::Left,
        Key::ArrowDown => Direction::Down,
        Key::ArrowUp => Direction::Up,
        Key::ArrowRight => Direction::Right,
        _ => Direction::Stay,
    }
}

impl From<Key> for Direction {
    fn from(key: Key) -> (r: Self) {
        match key {
            Key::Char('h') => Self::Left,
            Key::Char('j') => Self::Down,
            Key::Char('k') => Self::Up,
            Key::Char('l') => Self::Right,
            Key::ArrowLeft => Self::Left,
            Key::ArrowDown => Self::Down,
            Key::ArrowUp => Self::Up,
            Key::ArrowRight => Self::Right,
            _ => Self::Stay,
        }
    }
}

impl vstd::std_specs::convert::FromSpecImpl<Key> for Direction {
    open spec fn obeys_from_spec() -> bool {
        true
    }

    open spec fn from_spec(key: Key) -> Direction {
        spec_direction_of(key)
    }
}

} // verus!
