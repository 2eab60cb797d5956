use vstd::prelude::*;

verus! {

/// The editor's input mode.
#[derive(Debug, Clone, Copy, PartialEq, Eq, Structural)]
pub enum Mode {
    /// The main loop should stop.
    Exit,
    /// Keys move the cursor and switch modes.
    Normal,
    /// Keys edit the text.
    Insert,
    /// Keys build a command on the status line.
    Command,
}

/// The display name of a mode.
pub open spec fn spec_mode_name(m: Mode) -> Seq<char> {
    match m {
        Mode::Exit => "Exit"@,
        Mode::Normal => "Normal"@,
        Mode::Insert => "Insert"@,
        Mode::Command => "Command"@,
    }
}

impl Mode {
    /// Renders the mode for the status line.
    pub fn name(&self) -> (r: String)
        ensures
            r@ == spec_mode_name(*self),
    {
        match *self {
            Mode::Exit => "Exit".to_owned(),
            Mode::Normal => "Normal".to_owned(),
            Mode::Insert => "Insert".to_owned(),
            Mode::Command => "Command".to_owned(),
        }
    }
}

} // verus!
