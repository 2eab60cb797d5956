use crate::event::Key;
use vstd::prelude::*;

verus! {

/// The keys typed so far on the command line.
#[derive(Debug)]
pub struct Command(pub Vec<Key>);

impl Command {
    /// An empty command line.
    pub fn new() -> (c: Command)
        ensures
            c.0@ == Seq::<Key>::empty(),
    {
        Command(Vec::new())
    }

    /// Discards the typed keys.
    pub fn clear(&mut self)
        ensures
            final(self).0@ == Seq::<Key>::empty(),
    {
        self.0.clear();
    }

    /// Appends one typed key.
    pub fn insert(&mut self, key: Key)
        ensures
            final(self).0@ == old(self).0@.push(key),
    {
        self.0.push(key);
    }

    /// Removes the last typed key, if any.
    pub fn delete(&mut self)
        ensures
            old(self).0@.len() == 0 ==> final(self).0@ == old(self).0@,
            old(self).0@.len() > 0 ==> final(self).0@ == old(self).0@.drop_last(),
    {
        let _ = self.0.pop();
    }

    /// The typed keys, in order.
    pub fn keys(&mut self) -> (r: &[Key])
        ensures
            r@ == old(self).0@,
            *final(self) == *old(self),
    {
        self.0.as_slice()
    }
}

} // verus!
