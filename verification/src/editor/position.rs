use vstd::prelude::*;

verus! {

/// A zero-based spot in the document: `x` is the column in character
/// clusters, `y` the line index.
#[derive(Debug, Clone, Copy, PartialEq, Eq, Structural)]
pub struct Position {
    pub x: usize,
    pub y: usize,
}

impl Position {
    /// The origin, top-left of the document.
    pub fn origin() -> (p: Position)
        ensures
            p.x == 0 && p.y == 0,
    {
        Position { x: 0, y: 0 }
    }
}

} // verus!
