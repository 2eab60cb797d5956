use crate::event::{spec_event, DecodeError, Event, Key};
use vstd::prelude::*;

verus! {

/// A queue of input bytes, consumed from the front.
///
/// The live editor fills it from the terminal reader; tests fill it from
/// fixtures. Its view is the sequence of bytes still pending. Pulling from
/// an empty queue reports "no data": the decoder treats that as the end of
/// the available input.
pub struct ByteSource {
    data: Vec<u8>,
}

impl View for ByteSource {
    type V = Seq<u8>;

    closed spec fn view(&self) -> Seq<u8> {
        self.data@
    }
}

impl ByteSource {
    /// An empty queue.
    pub fn empty() -> (s: Self)
        ensures
            s@ == Seq::<u8>::empty(),
    {
        ByteSource { data: Vec::new() }
    }

    /// A queue holding exactly `data`.
    pub fn new(data: Vec<u8>) -> (s: Self)
        ensures
            s@ == data@,
    {
        ByteSource { data }
    }

    /// Appends one byte at the back of the queue.
    pub fn feed(&mut self, byte: u8)
        ensures
            final(self)@ == old(self)@.push(byte),
    {
        self.data.push(byte);
    }

    /// How many bytes are pending.
    pub fn len(&self) -> (n: usize)
        ensures
            n == self@.len(),
    {
        self.data.len()
    }

    /// Pulls the next pending byte, if any.
    pub fn next(&mut self) -> (r: Option<u8>)
        ensures
            old(self)@.len() == 0 ==> r is None && final(self)@ == old(self)@,
            old(self)@.len() > 0 ==> r == Some(old(self)@[0]) && final(self)@ == old(
                self,
            )@.drop_first(),
    {
        if self.data.len() == 0 {
            None
        } else {
            let b = self.data.remove(0);
            proof {
                assert(self.data@ =~= old(self).data@.drop_first());
            }
            Some(b)
        }
    }
}

/// One poll of the two-byte-lookahead event reader, over a pending
/// remainder byte and the queued bytes: the emitted item, the new
/// remainder, and the bytes still queued.
///
/// A poll that finds a saved remainder decodes starting from it. A poll
/// that finds exactly one queued byte emits Escape for 0x1B without
/// decoding further (nothing else was available, so it cannot be the start
/// of a sequence). A poll that finds two or more bytes decodes from the
/// first, and the first queued byte the decoder did not consume is saved
/// as the next remainder.
pub open spec fn spec_events_next(rem: Option<u8>, s: Seq<u8>) -> (
    Option<Result<Event, DecodeError>>,
    Option<u8>,
    Seq<u8>,
) {
    match rem {
        Some(r) => {
            let e = spec_event(r, s);
            (Some(e.0), None, s.skip(e.1))
        },
        None => {
            if s.len() == 0 {
                (None, None, s)
            } else if s.len() == 1 {
                if s[0] == 0x1b {
                    (Some(Ok(Event::Key(Key::Escape))), None, s.skip(1))
                } else {
                    let e = spec_event(s[0], s.skip(1));
                    (Some(e.0), None, s.skip(1).skip(e.1))
                }
            } else {
                let chain = s.skip(1);
                let e = spec_event(s[0], chain);
                if e.1 < chain.len() {
                    (Some(e.0), Some(chain[e.1]), chain.skip(e.1 + 1))
                } else {
                    (Some(e.0), None, chain.skip(e.1))
                }
            }
        },
    }
}

/// Iterator-style event reader over a byte queue.
///
/// It reads up to two bytes per poll so that a lone escape byte can be
/// told apart from the start of an escape sequence, and saves the byte of
/// the pair that the decoder did not consume as a remainder for the next
/// poll; without the remainder, pasting would lose every second character.
pub struct RawEvents {
    source: ByteSource,
    remainder: Option<u8>,
}

impl RawEvents {
    /// The saved lookahead byte, if any.
    pub closed spec fn spec_rem(&self) -> Option<u8> {
        self.remainder
    }

    /// The bytes still queued behind the remainder.
    pub closed spec fn stream(&self) -> Seq<u8> {
        self.source@
    }

    /// Appends one byte at the back of the queue.
    pub fn feed(&mut self, byte: u8)
        ensures
            final(self).stream() == old(self).stream().push(byte),
            final(self).spec_rem() == old(self).spec_rem(),
    {
        self.source.feed(byte);
    }

    /// Emits the next decoded event, per `spec_events_next`.
    pub fn next(&mut self) -> (r: Option<Result<Event, DecodeError>>)
        ensures
            ({
                let step = spec_events_next(old(self).spec_rem(), old(self).stream());
                r == step.0 && final(self).spec_rem() == step.1 && final(self).stream() == step.2
            }),
    {
        let ghost s = self.source@;
        match self.remainder {
            Some(r) => {
                self.remainder = None;
                Some(parse_event_queue(r, &mut self.source))
            },
            None => {
                let n = self.source.len();
                if n == 0 {
                    None
                } else if n == 1 {
                    match self.source.next() {
                        Some(b0) => {
                            proof {
                                assert(self.source@ =~= s.skip(1));
                            }
                            if b0 == 0x1b {
                                Some(Ok(Event::Key(Key::Escape)))
                            } else {
                                Some(parse_event_queue(b0, &mut self.source))
                            }
                        },
                        None => {
                            proof {
                                assert(false);
                            }
                            None
                        },
                    }
                } else {
                    match self.source.next() {
                        Some(b0) => {
                            proof {
                                assert(self.source@ =~= s.skip(1));
                            }
                            let ghost chain = s.skip(1);
                            let ev = parse_event_queue(b0, &mut self.source);
                            let ghost u = spec_event(b0, chain).1;
                            let r2 = self.source.next();
                            proof {
                                crate::event::lemma_event_used_bounds(b0, chain);
                                if u < chain.len() {
                                    assert(chain.skip(u)[0] == chain[u]);
                                    assert(chain.skip(u).drop_first() =~= chain.skip(u + 1));
                                } else {
                                    assert(chain.skip(u).len() == 0);
                                }
                            }
                            self.remainder = r2;
                            Some(ev)
                        },
                        None => {
                            proof {
                                assert(false);
                            }
                            None
                        },
                    }
                }
            },
        }
    }
}

/// Decodes one event from `byte` and the queue; thin layer over the event
/// decoder so callers here reason over the queue's view.
fn parse_event_queue(byte: u8, source: &mut ByteSource) -> (r: Result<Event, DecodeError>)
    ensures
        r == spec_event(byte, old(source)@).0,
        final(source)@ == old(source)@.skip(spec_event(byte, old(source)@).1),
{
    crate::event::parse_event(byte, source)
}

/// Key-event reader: passes key events through and ends on anything else.
pub struct Keys {
    pub inner: RawEvents,
}

impl Keys {
    /// Emits the next key: the next decoded event if it is a key event,
    /// and None on queue end, on a decode error, or on a non-key event.
    pub fn next(&mut self) -> (r: Option<Result<Key, DecodeError>>)
        ensures
            ({
                let step = spec_events_next(old(self).inner.spec_rem(), old(self).inner.stream());
                final(self).inner.spec_rem() == step.1 && final(self).inner.stream() == step.2 && r
                    == (match step.0 {
                    Some(Ok(Event::Key(k))) => Some(Ok::<Key, DecodeError>(k)),
                    _ => None,
                })
            }),
    {
        match self.inner.next() {
            None => None,
            Some(ev) => match ev {
                Ok(Event::Key(k)) => Some(Ok(k)),
                _ => None,
            },
        }
    }
}

/// Sources of bytes that can be read as decoded events or keys.
pub trait EventIterator: Sized {
    /// The bytes the source will deliver.
    spec fn byte_view(&self) -> Seq<u8>;

    /// Wraps the source as a key reader.
    fn keys(self) -> (k: Keys)
        ensures
            k.inner.spec_rem() is None,
            k.inner.stream() == self.byte_view(),
    ;

    /// Wraps the source as an event reader.
    fn events(self) -> (e: RawEvents)
        ensures
            e.spec_rem() is None,
            e.stream() == self.byte_view(),
    ;
}

impl EventIterator for ByteSource {
    open spec fn byte_view(&self) -> Seq<u8> {
        self@
    }

    fn keys(self) -> (k: Keys)
    {
        let inner = RawEvents { source: self, remainder: None };
        Keys { inner }
    }

    fn events(self) -> (e: RawEvents)
    {
        RawEvents { source: self, remainder: None }
    }
}

/// A byte outside every control range: it decodes as that character alone,
/// consuming nothing further.
pub open spec fn plain_byte(b: u8) -> bool {
    0x20 <= b <= 0x7e
}

/// The bytes a reader still has to decode: the saved remainder, then the
/// queue.
pub open spec fn pending_bytes(rem: Option<u8>, s: Seq<u8>) -> Seq<u8> {
    match rem {
        Some(r) => seq![r] + s,
        None => s,
    }
}

/// While every pending byte is plain, each poll of the lookahead reader
/// emits exactly the first pending byte as a character key and leaves the
/// rest pending, in order: a burst of plain pasted characters comes out
/// one key per byte, with none dropped and none reordered.
pub proof fn lemma_plain_bytes_decode_in_order(rem: Option<u8>, s: Seq<u8>)
    requires
        forall|i: int|
            0 <= i < pending_bytes(rem, s).len() ==> plain_byte(#[trigger] pending_bytes(rem, s)[i]),
        pending_bytes(rem, s).len() > 0,
    ensures
        ({
            let step = spec_events_next(rem, s);
            step.0 == Some(Ok::<Event, DecodeError>(Event::Key(Key::Char(pending_bytes(rem, s)[0] as char))))
                && pending_bytes(step.1, step.2) == pending_bytes(rem, s).drop_first() && forall|
                i: int,
            |
                0 <= i < pending_bytes(step.1, step.2).len() ==> plain_byte(
                    #[trigger] pending_bytes(step.1, step.2)[i],
                )
        }),
{
    let p = pending_bytes(rem, s);
    let step = spec_events_next(rem, s);
    match rem {
        Some(r) => {
            assert(p[0] == r);
            assert(plain_byte(r));
            assert(spec_event(r, s).1 == 0);
            assert(s.skip(0) =~= s);
            assert(pending_bytes(step.1, step.2) =~= p.drop_first());
        },
        None => {
            assert(p == s);
            assert(plain_byte(s[0]));
            if s.len() == 1 {
                assert(step.2 =~= s.drop_first());
            } else {
                let chain = s.skip(1);
                assert(spec_event(s[0], chain).1 == 0);
                assert(0 < chain.len());
                assert(chain[0] == s[1]);
                assert(pending_bytes(Some(chain[0]), chain.skip(1)) =~= s.drop_first());
            }
        },
    }
    assert(pending_bytes(step.1, step.2) =~= p.drop_first());
    assert forall|i: int| 0 <= i < pending_bytes(step.1, step.2).len() implies plain_byte(
        pending_bytes(step.1, step.2)[i],
    ) by {
        assert(pending_bytes(step.1, step.2)[i] == p[i + 1]);
    }
}

} // verus!
