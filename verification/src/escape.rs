pub mod color;
pub mod cursor;

use vstd::prelude::*;
use vstd::string::StringExecFns;

verus! {

/// The characters introducing a control sequence, followed by `code`.
pub open spec fn csi_chars(code: Seq<char>) -> Seq<char> {
    seq!['\u{1b}', '['] + code
}

/// A control sequence: the escape-bracket introducer followed by a fixed
/// code.
#[derive(Debug, Clone, Copy)]
pub struct CSI(pub &'static str);

impl CSI {
    /// The full escape text of the sequence.
    pub fn text(&self) -> (r: String)
        ensures
            r@ == csi_chars(self.0@),
    {
        let mut s: String = "\u{1b}[".to_owned();
        proof {
            reveal_strlit("\u{1b}[");
            assert("\u{1b}["@ =~= seq!['\u{1b}', '[']);
        }
        s.append(self.0);
        s
    }
}

} // verus!
