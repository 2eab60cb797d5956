use super::{csi_chars, CSI};
use crate::text::{spec_decimal, to_decimal};
use vstd::prelude::*;
use vstd::string::StringExecFns;

verus! {

/// Moves the cursor to the top-left corner.
pub fn reset() -> (c: CSI)
    ensures
        c.0@ == "H"@,
{
    CSI("H")
}

/// Selects the blinking block cursor shape.
pub fn blinking_block() -> (c: CSI)
    ensures
        c.0@ == "1 q"@,
{
    CSI("1 q")
}

/// Selects the blinking bar cursor shape.
pub fn blinking_bar() -> (c: CSI)
    ensures
        c.0@ == "5 q"@,
{
    CSI("5 q")
}

/// The escape text addressing row `row` and column `col`.
pub open spec fn goto_chars(row: nat, col: nat) -> Seq<char> {
    csi_chars(spec_decimal(row) + seq![';'] + spec_decimal(col) + seq!['H'])
}

/// A cursor-addressing sequence: row first, then column, both as the
/// terminal counts them.
#[derive(Debug, Clone, Copy)]
pub struct Goto(pub usize, pub usize);

impl Goto {
    /// The full escape text of the sequence.
    pub fn text(&self) -> (r: String)
        ensures
            r@ == goto_chars(self.0 as nat, self.1 as nat),
    {
        let mut s: String = "\u{1b}[".to_owned();
        proof {
            reveal_strlit("\u{1b}[");
            assert("\u{1b}["@ =~= seq!['\u{1b}', '[']);
        }
        let row = to_decimal(self.0);
        s.append(row.as_str());
        s.append(";");
        let col = to_decimal(self.1);
        s.append(col.as_str());
        s.append("H");
        proof {
            reveal_strlit(";");
            reveal_strlit("H");
            assert(";"@ =~= seq![';']);
            assert("H"@ =~= seq!['H']);
            assert(s@ =~= goto_chars(self.0 as nat, self.1 as nat));
        }
        s
    }
}

} // verus!
