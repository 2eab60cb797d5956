pub mod message;

use message::Message;
use vstd::prelude::*;

verus! {

/// Rows at the bottom of the screen reserved for the status display.
pub const RESERVED_HEIGHT: u16 = 2;

/// The status-line state: the message currently shown, if any.
#[derive(Debug)]
pub struct Status {
    pub message: Option<Message>,
}

impl Status {
    /// A status line with no message.
    pub fn new() -> (s: Status)
        ensures
            s.message is None,
    {
        Status { message: None }
    }
}

} // verus!
