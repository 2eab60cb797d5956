use super::buffer::line::Line;
use crate::spec_digits;
use vstd::prelude::*;

pub use crate::digits;

verus! {

/// Blank columns between the line number and the text.
pub const LINE_NUMBER_COLUMN_GAP: usize = 1;

/// Width of the line-number margin for `lines`: digits of the line count
/// plus the gap.
pub open spec fn spec_ln_offset(line_count: nat) -> nat {
    spec_digits(line_count) + LINE_NUMBER_COLUMN_GAP as nat
}

/// Width of the line-number margin for the given lines.
pub fn ln_offset(lines: &Vec<Line>) -> (r: usize)
    ensures
        r == spec_ln_offset(lines@.len()),
{
    let d = crate::digits(lines.len());
    proof {
        crate::lemma_digits_bound(lines@.len());
    }
    d + LINE_NUMBER_COLUMN_GAP
}

} // verus!
