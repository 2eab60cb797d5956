use vstd::prelude::*;
use vstd::string::StringExecFns;

verus! {

/// A message older than this many milliseconds is stale and no longer
/// drawn.
pub const OLD_DURATION_MS: u64 = 5000;

/// How a status message is rendered.
#[derive(Debug, Clone, Copy, PartialEq, Eq, Structural)]
pub enum MessageVariant {
    Normal,
    Error,
}

/// A status-line message, stamped with the time it was posted. Times are
/// milliseconds on a monotonic clock that the caller supplies.
#[derive(Debug, Clone)]
pub struct Message {
    pub data: String,
    pub variant: MessageVariant,
    pub time: u64,
}

impl Message {
    /// A plain message posted at `now`.
    pub fn new(data: &str, now: u64) -> (m: Message)
        ensures
            m.data@ == data@,
            m.variant == MessageVariant::Normal,
            m.time == now,
    {
        Message { data: data.to_owned(), variant: MessageVariant::Normal, time: now }
    }

    /// An error message posted at `now`.
    pub fn new_err(data: &str, now: u64) -> (m: Message)
        ensures
            m.data@ == data@,
            m.variant == MessageVariant::Error,
            m.time == now,
    {
        Message { data: data.to_owned(), variant: MessageVariant::Error, time: now }
    }

    /// Whether the message is stale at time `now`.
    pub fn is_old(&self, now: u64) -> (r: bool)
        ensures
            r == (now - self.time > OLD_DURATION_MS),
    {
        now.saturating_sub(self.time) > OLD_DURATION_MS
    }
}

} // verus!
