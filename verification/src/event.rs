pub mod key;

use crate::input::ByteSource;
use crate::size::TermSize;
use vstd::prelude::*;
use vstd::utf8::*;

pub use key::Key;

verus! {

/// Offset turning the control bytes 0x01..=0x1A back into the letters
/// `a`..=`z`.
pub const CTRL_1_OFFSET: u8 = 0x60;

/// Offset applied to the control bytes 0x1C..=0x1F.
pub const CTRL_2_OFFSET: u8 = 0x34;

/// One decoded terminal input event.
#[derive(Debug, PartialEq, Eq)]
pub enum Event {
    Key(Key),
    Mouse(TermSize),
    Unknown(Vec<u8>),
}

/// Why a single event failed to decode. The failure is scoped to that one
/// event; decoding continues with the next poll.
#[derive(Debug, Clone, Copy, PartialEq, Eq, Structural)]
pub enum DecodeError {
    /// A malformed or unsupported escape sequence.
    Parse,
    /// Bytes that never assemble into a valid multi-byte character.
    InvalidUtf8,
}

/// True when `b` begins with the well-formed encoding of exactly one
/// character and nothing more.
pub open spec fn exact_scalar(b: Seq<u8>) -> bool {
    valid_first_scalar(b) && length_of_first_scalar(b) == b.len()
}

/// Result of character reassembly started by `lead`, with further bytes
/// pulled from `rest`: the decoded character or an error, and how many
/// bytes of `rest` were consumed. An ASCII lead byte is the character
/// itself; otherwise bytes are accumulated until they form a valid
/// encoding, and a lead that can never complete drains `rest` entirely.
pub open spec fn spec_utf8_char(lead: u8, rest: Seq<u8>) -> (Result<char, DecodeError>, int) {
    if lead < 0x80 {
        (Ok(lead as char), 0)
    } else {
        let full = seq![lead] + rest;
        if valid_first_scalar(full) {
            (Ok(decode_first_scalar(full) as char), length_of_first_scalar(full) - 1)
        } else {
            (Err(DecodeError::InvalidUtf8), rest.len() as int)
        }
    }
}

/// The key selected by the numeric text of a CSI sequence finished by `~`.
pub open spec fn csi_key_of_digits(ds: Seq<u8>) -> Option<Key> {
    if ds == seq![49u8] || ds == seq![55u8] {  // "1" | "7"
        Some(Key::Home)
    } else if ds == seq![50u8] {  // "2"
        Some(Key::Insert)
    } else if ds == seq![51u8] {  // "3"
        Some(Key::Delete)
    } else if ds == seq![52u8] || ds == seq![56u8] {  // "4" | "8"
        Some(Key::End)
    } else if ds == seq![53u8] {  // "5"
        Some(Key::PageUp)
    } else if ds == seq![54u8] {  // "6"
        Some(Key::PageDown)
    } else if ds == seq![49u8, 53u8] {  // "15"
        Some(Key::F5)
    } else if ds == seq![49u8, 55u8] {  // "17"
        Some(Key::F6)
    } else if ds == seq![49u8, 56u8] {  // "18"
        Some(Key::F7)
    } else if ds == seq![49u8, 57u8] {  // "19"
        Some(Key::F8)
    } else if ds == seq![50u8, 48u8] {  // "20"
        Some(Key::F9)
    } else if ds == seq![50u8, 49u8] {  // "21"
        Some(Key::F10)
    } else if ds == seq![50u8, 51u8] {  // "23"
        Some(Key::F11)
    } else if ds == seq![50u8, 52u8] {  // "24"
        Some(Key::F12)
    } else {
        None
    }
}

/// Index of the first byte at or after `j` whose value lies in 64..=126,
/// the range that finishes a CSI sequence.
pub open spec fn csi_scan(rest: Seq<u8>, j: int) -> Option<int>
    decreases rest.len() - j,
    when j >= 0
{
    if j >= rest.len() {
        None
    } else if 64 <= rest[j] <= 126 {
        Some(j)
    } else {
        csi_scan(rest, j + 1)
    }
}

/// Result of CSI parsing on the bytes that follow `ESC [`: the decoded
/// event if any, and how many bytes were consumed. A digit opens a numeric
/// parameter that runs until the first byte in 64..=126; that byte closes
/// the sequence and `~` selects a key from the accumulated digits.
pub open spec fn spec_csi(rest: Seq<u8>) -> (Option<Event>, int) {
    if rest.len() == 0 {
        (None, 0)
    } else {
        let b = rest[0];
        if b == 65 {  // 'A'
            (Some(Event::Key(Key::ArrowUp)), 1)
        } else if b == 66 {  // 'B'
            (Some(Event::Key(Key::ArrowDown)), 1)
        } else if b == 67 {  // 'C'
            (Some(Event::Key(Key::ArrowRight)), 1)
        } else if b == 68 {  // 'D'
            (Some(Event::Key(Key::ArrowLeft)), 1)
        } else if b == 70 {  // 'F'
            (Some(Event::Key(Key::End)), 1)
        } else if b == 72 {  // 'H'
            (Some(Event::Key(Key::Home)), 1)
        } else if 48 <= b <= 57 {  // '0'..='9'
            match csi_scan(rest, 1) {
                None => (None, rest.len() as int),
                Some(f) => {
                    if rest[f] == 126 {  // '~'
                        match csi_key_of_digits(rest.subrange(0, f)) {
                            Some(k) => (Some(Event::Key(k)), f + 1),
                            None => (None, f + 1),
                        }
                    } else {
                        (None, f + 1)
                    }
                },
            }
        } else {
            (None, 1)
        }
    }
}

/// Result of decoding one event from the byte `byte` with further bytes
/// pulled from `rest`: the event or an error, and how many bytes of `rest`
/// were consumed. A lone escape byte with nothing pending is the Escape
/// key; `ESC [` opens a CSI sequence; `ESC O` selects F1..F4; any other
/// escaped byte decodes a character behind Alt. The remaining single bytes
/// map to named keys, control keys, or start character reassembly.
pub open spec fn spec_event(byte: u8, rest: Seq<u8>) -> (Result<Event, DecodeError>, int) {
    if byte == 0x1b {
        if rest.len() == 0 {
            (Ok(Event::Key(Key::Escape)), 0)
        } else if rest[0] == 91 {  // '['
            let r = spec_csi(rest.drop_first());
            (
                match r.0 {
                    Some(e) => Ok(e),
                    None => Err(DecodeError::Parse),
                },
                1 + r.1,
            )
        } else if rest[0] == 79 {  // 'O'
            if rest.len() < 2 {
                (Err(DecodeError::Parse), 1)
            } else if rest[1] == 80 {  // 'P'
                (Ok(Event::Key(Key::F1)), 2)
            } else if rest[1] == 81 {  // 'Q'
                (Ok(Event::Key(Key::F2)), 2)
            } else if rest[1] == 82 {  // 'R'
                (Ok(Event::Key(Key::F3)), 2)
            } else if rest[1] == 83 {  // 'S'
                (Ok(Event::Key(Key::F4)), 2)
            } else {
                (Err(DecodeError::Parse), 2)
            }
        } else {
            let r = spec_utf8_char(rest[0], rest.drop_first());
            (
                match r.0 {
                    Ok(c) => Ok(Event::Key(Key::Alt(c))),
                    Err(e) => Err(e),
                },
                1 + r.1,
            )
        }
    } else if byte == 9 {
        (Ok(Event::Key(Key::Tab)), 0)
    } else if byte == 0x7f {
        (Ok(Event::Key(Key::Backspace)), 0)
    } else if byte == 10 || byte == 13 {
        (Ok(Event::Key(Key::Enter)), 0)
    } else if 1 <= byte <= 0x1a {
        (Ok(Event::Key(Key::Ctrl(((byte + CTRL_1_OFFSET) as u8) as char))), 0)
    } else if 0x1c <= byte <= 0x1f {
        (Ok(Event::Key(Key::Ctrl(((byte + CTRL_2_OFFSET) as u8) as char))), 0)
    } else if byte == 0 {
        (Ok(Event::Key(Key::Null)), 0)
    } else {
        let r = spec_utf8_char(byte, rest);
        (
            match r.0 {
                Ok(c) => Ok(Event::Key(Key::Char(c))),
                Err(e) => Err(e),
            },
            r.1,
        )
    }
}

/// Relies on char::from_u32: Some of the character for every Unicode
/// scalar value, None for surrogates and values above 0x10FFFF.
pub assume_specification[ char::from_u32 ](v: u32) -> (r: Option<char>)
    ensures
        is_scalar(v) ==> r == Some(v as char),
        !is_scalar(v) ==> r is None,
;

/// Checks whether `buf` is exactly the encoding of one character, and
/// decodes it if so.
fn utf8_exact(buf: &Vec<u8>) -> (r: Option<char>)
    ensures
        exact_scalar(buf@) ==> r == Some(decode_first_scalar(buf@) as char),
        !exact_scalar(buf@) ==> r is None,
{
    let n = buf.len();
    if n == 0 || n > 4 {
        return None;
    }
    let b0 = buf[0];
    if b0 < 0x80 {
        if n == 1 {
            proof {
                assert(b0 & 0x7f == b0) by (bit_vector)
                    requires
                        b0 < 0x80,
                ;
            }
            Some(b0 as char)
        } else {
            None
        }
    } else if 0xc0 <= b0 && b0 <= 0xdf {
        if n == 2 && is_cont(buf[1]) {
            let b1 = buf[1];
            let v: u32 = (((b0 & 0x1f) as u32) << 6u32) | ((b1 & 0x3f) as u32);
            proof {
                assert((((b0 & 0x1f) as u32) << 6u32) | ((b1 & 0x3f) as u32) <= 0x7ff)
                    by (bit_vector);
            }
            if v >= 0x80 {
                char::from_u32(v)
            } else {
                None
            }
        } else {
            None
        }
    } else if 0xe0 <= b0 && b0 <= 0xef {
        if n == 3 && is_cont(buf[1]) && is_cont(buf[2]) {
            let b1 = buf[1];
            let b2 = buf[2];
            let v: u32 = (((b0 & 0x0f) as u32) << 12u32) | (((b1 & 0x3f) as u32) << 6u32) | ((b2
                & 0x3f) as u32);
            proof {
                assert((((b0 & 0x0f) as u32) << 12u32) | (((b1 & 0x3f) as u32) << 6u32) | ((b2
                    & 0x3f) as u32) <= 0xffff) by (bit_vector);
            }
            if v >= 0x800 && !(0xd800 <= v && v <= 0xdfff) {
                char::from_u32(v)
            } else {
                None
            }
        } else {
            None
        }
    } else if 0xf0 <= b0 && b0 <= 0xf7 {
        if n == 4 && is_cont(buf[1]) && is_cont(buf[2]) && is_cont(buf[3]) {
            let b1 = buf[1];
            let b2 = buf[2];
            let b3 = buf[3];
            let v: u32 = (((b0 & 0x07) as u32) << 18u32) | (((b1 & 0x3f) as u32) << 12u32) | (((b2
                & 0x3f) as u32) << 6u32) | ((b3 & 0x3f) as u32);
            if v >= 0x10000 && v <= 0x10ffff {
                char::from_u32(v)
            } else {
                None
            }
        } else {
            None
        }
    } else {
        None
    }
}

/// True when `b` has the continuation-byte form 10xxxxxx.
fn is_cont(b: u8) -> (r: bool)
    ensures
        r == is_continuation_byte(b),
{
    0x80 <= b && b <= 0xbf
}

/// Being exactly one character's encoding depends only on those bytes:
/// a prefix of `full` that is one whole character makes `full` begin with
/// that character, and conversely.
proof fn lemma_exact_prefix(full: Seq<u8>, k: int)
    requires
        1 <= k <= full.len(),
    ensures
        exact_scalar(full.subrange(0, k)) <==> (valid_first_scalar(full) && length_of_first_scalar(
            full,
        ) == k),
        exact_scalar(full.subrange(0, k)) ==> decode_first_scalar(full.subrange(0, k))
            == decode_first_scalar(full),
{
    let p = full.subrange(0, k);
    assert(p.len() == k);
    assert(forall|i: int| 0 <= i < k ==> p[i] == full[i]);
}

/// Reassembles one character: an ASCII byte is itself; otherwise further
/// bytes are pulled from `source` until they validate, and exhausting the
/// source reports an invalid multi-byte character.
pub fn parse_utf8(byte: u8, source: &mut ByteSource) -> (r: Result<char, DecodeError>)
    ensures
        r == spec_utf8_char(byte, old(source)@).0,
        final(source)@ == old(source)@.skip(spec_utf8_char(byte, old(source)@).1),
{
    let ghost rest = old(source)@;
    if byte < 0x80 {
        proof {
            assert(rest.skip(0) =~= rest);
        }
        return Ok(byte as char);
    }
    let ghost full = seq![byte] + rest;
    let mut buf: Vec<u8> = Vec::new();
    buf.push(byte);
    proof {
        assert(buf@ =~= seq![byte] + rest.take(0));
        assert(source@ =~= rest.skip(0));
    }
    loop
        invariant
            source@ == rest.skip(buf@.len() - 1),
            1 <= buf@.len(),
            buf@.len() - 1 <= rest.len(),
            buf@ == seq![byte] + rest.take(buf@.len() - 1),
            full == seq![byte] + rest,
            byte >= 0x80,
            rest == old(source)@,
            forall|k: int| 2 <= k <= buf@.len() ==> !exact_scalar(#[trigger] full.subrange(0, k)),
        decreases rest.len() - (buf@.len() - 1),
    {
        let ghost i = buf@.len() - 1;
        match source.next() {
            None => {
                proof {
                    assert(i == rest.len());
                    assert(buf@ =~= full);
                    if valid_first_scalar(full) {
                        let fl = length_of_first_scalar(full);
                        assert(2 <= fl <= full.len());
                        lemma_exact_prefix(full, fl);
                        assert(exact_scalar(full.subrange(0, fl)));
                        assert(false);
                    }
                    assert(rest.skip(rest.len() as int) =~= source@);
                }
                return Err(DecodeError::InvalidUtf8);
            },
            Some(b) => {
                buf.push(b);
                proof {
                    assert(buf@ =~= seq![byte] + rest.take(i + 1));
                    assert(source@ =~= rest.skip(i + 1));
                }
                match utf8_exact(&buf) {
                    Some(c) => {
                        proof {
                            assert(buf@ =~= full.subrange(0, i + 2));
                            lemma_exact_prefix(full, i + 2);
                            assert(valid_first_scalar(full));
                            assert(length_of_first_scalar(full) == i + 2);
                            assert(spec_utf8_char(byte, rest).1 == i + 1);
                        }
                        return Ok(c);
                    },
                    None => {
                        proof {
                            assert(buf@ =~= full.subrange(0, i + 2));
                            assert(forall|k: int|
                                2 <= k <= buf@.len() ==> !exact_scalar(
                                    #[trigger] full.subrange(0, k),
                                ));
                        }
                    },
                }
            },
        }
    }
}

/// Maps the accumulated numeric bytes of a `~`-finished CSI sequence to
/// its key.
fn csi_digit_key(buf: &Vec<u8>) -> (r: Option<Key>)
    ensures
        r == csi_key_of_digits(buf@),
{
    let r = if buf.len() == 1 {
        match buf[0] {
            49u8 | 55u8 => Some(Key::Home),
            50u8 => Some(Key::Insert),
            51u8 => Some(Key::Delete),
            52u8 | 56u8 => Some(Key::End),
            53u8 => Some(Key::PageUp),
            54u8 => Some(Key::PageDown),
            _ => None,
        }
    } else if buf.len() == 2 && buf[0] == 49u8 {
        match buf[1] {
            53u8 => Some(Key::F5),
            55u8 => Some(Key::F6),
            56u8 => Some(Key::F7),
            57u8 => Some(Key::F8),
            _ => None,
        }
    } else if buf.len() == 2 && buf[0] == 50u8 {
        match buf[1] {
            48u8 => Some(Key::F9),
            49u8 => Some(Key::F10),
            51u8 => Some(Key::F11),
            52u8 => Some(Key::F12),
            _ => None,
        }
    } else {
        None
    };
    proof {
        if buf@.len() == 1 {
            assert(buf@ =~= seq![buf@[0]]);
        }
        if buf@.len() == 2 {
            assert(buf@ =~= seq![buf@[0], buf@[1]]);
        }
    }
    r
}

/// Advancing the scan past a byte outside 64..=126 finds the same final
/// byte.
proof fn lemma_csi_scan_step(rest: Seq<u8>, j: int)
    requires
        0 <= j < rest.len(),
        !(64 <= rest[j] <= 126),
    ensures
        csi_scan(rest, j) == csi_scan(rest, j + 1),
{
}

/// Parses the bytes after `ESC [` into an event, per `spec_csi`.
pub fn parse_csi(source: &mut ByteSource) -> (r: Option<Event>)
    ensures
        r == spec_csi(old(source)@).0,
        final(source)@ == old(source)@.skip(spec_csi(old(source)@).1),
{
    let ghost rest = old(source)@;
    match source.next() {
        None => {
            proof {
                assert(rest.skip(0) =~= rest);
            }
            None
        },
        Some(b) => {
            proof {
                assert(source@ =~= rest.skip(1));
            }
            if b == 65 {
                Some(Event::Key(Key::ArrowUp))
            } else if b == 66 {
                Some(Event::Key(Key::ArrowDown))
            } else if b == 67 {
                Some(Event::Key(Key::ArrowRight))
            } else if b == 68 {
                Some(Event::Key(Key::ArrowLeft))
            } else if b == 70 {
                Some(Event::Key(Key::End))
            } else if b == 72 {
                Some(Event::Key(Key::Home))
            } else if 48 <= b && b <= 57 {
                let mut buf: Vec<u8> = Vec::new();
                buf.push(b);
                proof {
                    assert(buf@ =~= rest.take(1));
                }
                loop
                    invariant
                        1 <= buf@.len() <= rest.len(),
                        source@ == rest.skip(buf@.len() as int),
                        buf@ == rest.take(buf@.len() as int),
                        csi_scan(rest, 1) == csi_scan(rest, buf@.len() as int),
                        rest.len() >= 1,
                        rest[0] == b,
                        48 <= b <= 57,
                        rest == old(source)@,
                    decreases rest.len() - buf@.len(),
                {
                    let ghost i = buf@.len() as int;
                    match source.next() {
                        None => {
                            proof {
                                assert(i == rest.len());
                                assert(csi_scan(rest, rest.len() as int) is None);
                                assert(rest.skip(rest.len() as int) =~= source@);
                            }
                            return None;
                        },
                        Some(nb) => {
                            buf.push(nb);
                            proof {
                                assert(buf@ =~= rest.take(i + 1));
                                assert(source@ =~= rest.skip(i + 1));
                            }
                            if 64 <= nb && nb <= 126 {
                                proof {
                                    assert(rest[i] == nb);
                                    assert(csi_scan(rest, i) == Some(i));
                                }
                                let _ = buf.pop();
                                proof {
                                    assert(buf@ =~= rest.take(i));
                                    assert(rest.take(i) =~= rest.subrange(0, i));
                                }
                                if nb == 126 {
                                    let k = csi_digit_key(&buf);
                                    match k {
                                        Some(key) => {
                                            return Some(Event::Key(key));
                                        },
                                        None => {
                                            return None;
                                        },
                                    }
                                } else {
                                    return None;
                                }
                            } else {
                                proof {
                                    lemma_csi_scan_step(rest, i);
                                }
                            }
                        },
                    }
                }
            } else {
                None
            }
        },
    }
}

/// A scan that finds a final byte finds it at or after where it started,
/// and within the sequence.
proof fn lemma_csi_scan_bounds(rest: Seq<u8>, j: int)
    requires
        0 <= j,
    ensures
        csi_scan(rest, j) matches Some(f) ==> j <= f < rest.len() && 64 <= rest[f] <= 126,
    decreases rest.len() - j,
{
    if j < rest.len() && !(64 <= rest[j] <= 126) {
        lemma_csi_scan_bounds(rest, j + 1);
    }
}

/// How many bytes CSI parsing consumes never exceeds what is pending.
proof fn lemma_csi_used_bounds(rest: Seq<u8>)
    ensures
        0 <= spec_csi(rest).1 <= rest.len(),
{
    if rest.len() > 0 && 48 <= rest[0] <= 57 {
        lemma_csi_scan_bounds(rest, 1);
    }
}

/// How many bytes character reassembly consumes never exceeds what is
/// pending.
proof fn lemma_utf8_used_bounds(lead: u8, rest: Seq<u8>)
    ensures
        0 <= spec_utf8_char(lead, rest).1 <= rest.len(),
{
}

/// How many bytes decoding one event consumes never exceeds what is
/// pending.
pub proof fn lemma_event_used_bounds(byte: u8, rest: Seq<u8>)
    ensures
        0 <= spec_event(byte, rest).1 <= rest.len(),
{
    if byte == 0x1b && rest.len() > 0 {
        if rest[0] == 91 {
            lemma_csi_used_bounds(rest.drop_first());
        } else if rest[0] != 79 {
            lemma_utf8_used_bounds(rest[0], rest.drop_first());
        }
    } else if byte != 0x1b {
        lemma_utf8_used_bounds(byte, rest);
    }
}

/// Decodes exactly one event from `byte`, pulling from `source` only the
/// further bytes the event needs, per `spec_event`.
pub fn parse_event(byte: u8, source: &mut ByteSource) -> (r: Result<Event, DecodeError>)
    ensures
        r == spec_event(byte, old(source)@).0,
        final(source)@ == old(source)@.skip(spec_event(byte, old(source)@).1),
{
    let ghost rest = old(source)@;
    if byte == 0x1b {
        match source.next() {
            None => {
                proof {
                    assert(rest.skip(0) =~= rest);
                }
                Ok(Event::Key(Key::Escape))
            },
            Some(b) => {
                proof {
                    assert(source@ =~= rest.skip(1));
                    assert(rest.drop_first() =~= rest.skip(1));
                }
                if b == 91 {
                    let r = parse_csi(source);
                    proof {
                        let u = spec_csi(rest.drop_first()).1;
                        lemma_csi_used_bounds(rest.drop_first());
                        assert(source@ =~= rest.skip(1 + u));
                    }
                    match r {
                        Some(e) => Ok(e),
                        None => Err(DecodeError::Parse),
                    }
                } else if b == 79 {
                    match source.next() {
                        None => {
                            proof {
                                assert(source@ =~= rest.skip(1));
                            }
                            Err(DecodeError::Parse)
                        },
                        Some(b2) => {
                            proof {
                                assert(source@ =~= rest.skip(2));
                            }
                            if b2 == 80 {
                                Ok(Event::Key(Key::F1))
                            } else if b2 == 81 {
                                Ok(Event::Key(Key::F2))
                            } else if b2 == 82 {
                                Ok(Event::Key(Key::F3))
                            } else if b2 == 83 {
                                Ok(Event::Key(Key::F4))
                            } else {
                                Err(DecodeError::Parse)
                            }
                        },
                    }
                } else {
                    let r = parse_utf8(b, source);
                    proof {
                        let u = spec_utf8_char(b, rest.drop_first()).1;
                        lemma_utf8_used_bounds(b, rest.drop_first());
                        assert(source@ =~= rest.skip(1 + u));
                    }
                    match r {
                        Ok(c) => Ok(Event::Key(Key::Alt(c))),
                        Err(e) => Err(e),
                    }
                }
            },
        }
    } else if byte == 9 {
        proof {
            assert(rest.skip(0) =~= rest);
        }
        Ok(Event::Key(Key::Tab))
    } else if byte == 0x7f {
        proof {
            assert(rest.skip(0) =~= rest);
        }
        Ok(Event::Key(Key::Backspace))
    } else if byte == 10 || byte == 13 {
        proof {
            assert(rest.skip(0) =~= rest);
        }
        Ok(Event::Key(Key::Enter))
    } else if 1 <= byte && byte <= 0x1a {
        proof {
            assert(rest.skip(0) =~= rest);
        }
        Ok(Event::Key(Key::Ctrl((byte + CTRL_1_OFFSET) as char)))
    } else if 0x1c <= byte && byte <= 0x1f {
        proof {
            assert(rest.skip(0) =~= rest);
        }
        Ok(Event::Key(Key::Ctrl((byte + CTRL_2_OFFSET) as char)))
    } else if byte == 0 {
        proof {
            assert(rest.skip(0) =~= rest);
        }
        Ok(Event::Key(Key::Null))
    } else {
        let r = parse_utf8(byte, source);
        match r {
            Ok(c) => Ok(Event::Key(Key::Char(c))),
            Err(e) => Err(e),
        }
    }
}

} // verus!
