use vstd::prelude::*;

verus! {

/// Terminal dimensions, in character cells.
#[derive(Debug, Clone, Copy, PartialEq, Eq, Structural)]
pub struct TermSize {
    pub height: u16,
    pub width: u16,
}

} // verus!
