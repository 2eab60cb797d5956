use alice::event::{parse_event, DecodeError, Event, Key};
use alice::input::{ByteSource, EventIterator};

fn decode(first: u8, rest: &[u8]) -> Result<Event, DecodeError> {
    let mut source = ByteSource::new(rest.to_vec());
    parse_event(first, &mut source)
}

fn decode_key(first: u8, rest: &[u8]) -> Key {
    match decode(first, rest) {
        Ok(Event::Key(k)) => k,
        other => panic!("expected a key event, got {:?}", other),
    }
}

#[test]
fn escape_alone_is_escape_key() {
    assert_eq!(decode_key(0x1b, &[]), Key::Escape);
}

#[test]
fn csi_arrows() {
    assert_eq!(decode_key(0x1b, b"[A"), Key::ArrowUp);
    assert_eq!(decode_key(0x1b, b"[B"), Key::ArrowDown);
    assert_eq!(decode_key(0x1b, b"[C"), Key::ArrowRight);
    assert_eq!(decode_key(0x1b, b"[D"), Key::ArrowLeft);
}

#[test]
fn csi_home_end() {
    assert_eq!(decode_key(0x1b, b"[H"), Key::Home);
    assert_eq!(decode_key(0x1b, b"[F"), Key::End);
}

#[test]
fn csi_tilde_sequences() {
    assert_eq!(decode_key(0x1b, b"[1~"), Key::Home);
    assert_eq!(decode_key(0x1b, b"[7~"), Key::Home);
    assert_eq!(decode_key(0x1b, b"[2~"), Key::Insert);
    assert_eq!(decode_key(0x1b, b"[3~"), Key::Delete);
    assert_eq!(decode_key(0x1b, b"[4~"), Key::End);
    assert_eq!(decode_key(0x1b, b"[8~"), Key::End);
    assert_eq!(decode_key(0x1b, b"[5~"), Key::PageUp);
    assert_eq!(decode_key(0x1b, b"[6~"), Key::PageDown);
    assert_eq!(decode_key(0x1b, b"[15~"), Key::F5);
    assert_eq!(decode_key(0x1b, b"[17~"), Key::F6);
    assert_eq!(decode_key(0x1b, b"[18~"), Key::F7);
    assert_eq!(decode_key(0x1b, b"[19~"), Key::F8);
    assert_eq!(decode_key(0x1b, b"[20~"), Key::F9);
    assert_eq!(decode_key(0x1b, b"[21~"), Key::F10);
    assert_eq!(decode_key(0x1b, b"[23~"), Key::F11);
    assert_eq!(decode_key(0x1b, b"[24~"), Key::F12);
}

#[test]
fn csi_unknown_numeric_text_is_parse_error() {
    assert_eq!(decode(0x1b, b"[9~"), Err(DecodeError::Parse));
    assert_eq!(decode(0x1b, b"[99~"), Err(DecodeError::Parse));
}

#[test]
fn csi_non_tilde_final_byte_is_parse_error() {
    assert_eq!(decode(0x1b, b"[5A"), Err(DecodeError::Parse));
}

#[test]
fn csi_unknown_first_byte_is_parse_error() {
    assert_eq!(decode(0x1b, b"[Z"), Err(DecodeError::Parse));
}

#[test]
fn esc_o_function_keys() {
    assert_eq!(decode_key(0x1b, b"OP"), Key::F1);
    assert_eq!(decode_key(0x1b, b"OQ"), Key::F2);
    assert_eq!(decode_key(0x1b, b"OR"), Key::F3);
    assert_eq!(decode_key(0x1b, b"OS"), Key::F4);
    assert_eq!(decode(0x1b, b"OT"), Err(DecodeError::Parse));
    assert_eq!(decode(0x1b, b"O"), Err(DecodeError::Parse));
}

#[test]
fn escaped_character_is_alt() {
    assert_eq!(decode_key(0x1b, b"ax"), Key::Alt('a'));
}

#[test]
fn named_single_bytes() {
    assert_eq!(decode_key(0x09, &[]), Key::Tab);
    assert_eq!(decode_key(0x7f, &[]), Key::Backspace);
    assert_eq!(decode_key(0x0a, &[]), Key::Enter);
    assert_eq!(decode_key(0x0d, &[]), Key::Enter);
    assert_eq!(decode_key(0x00, &[]), Key::Null);
}

#[test]
fn control_codes_map_to_letters() {
    assert_eq!(decode_key(0x01, &[]), Key::Ctrl('a'));
    assert_eq!(decode_key(0x03, &[]), Key::Ctrl('c'));
    assert_eq!(decode_key(0x1a, &[]), Key::Ctrl('z'));
    assert_eq!(decode_key(0x1c, &[]), Key::Ctrl('P'));
    assert_eq!(decode_key(0x1f, &[]), Key::Ctrl('S'));
}

#[test]
fn ascii_byte_is_char() {
    assert_eq!(decode_key(b'r', &[]), Key::Char('r'));
    assert_eq!(decode_key(b' ', &[]), Key::Char(' '));
}

#[test]
fn multi_byte_characters_reassemble() {
    assert_eq!(decode_key(0xc3, &[0xa9]), Key::Char('\u{e9}'));
    assert_eq!(decode_key(0xe2, &[0x98, 0x83]), Key::Char('\u{2603}'));
    assert_eq!(decode_key(0xf0, &[0x9f, 0x98, 0x80]), Key::Char('\u{1f600}'));
}

#[test]
fn invalid_multi_byte_sequences_fail() {
    assert_eq!(decode(0x80, &[]), Err(DecodeError::InvalidUtf8));
    assert_eq!(decode(0xc3, &[]), Err(DecodeError::InvalidUtf8));
    assert_eq!(decode(0xc3, &[0x41]), Err(DecodeError::InvalidUtf8));
    assert_eq!(decode(0xff, &[0x41, 0x42]), Err(DecodeError::InvalidUtf8));
}

#[test]
fn decoder_consumes_only_what_it_needs() {
    let mut source = ByteSource::new(vec![b'[', b'A', b'x']);
    let ev = parse_event(0x1b, &mut source);
    assert!(matches!(ev, Ok(Event::Key(Key::ArrowUp))));
    assert_eq!(source.next(), Some(b'x'));
    assert_eq!(source.next(), None);
}

#[test]
fn lookahead_wrapper_escape_when_single_byte_pending() {
    let source = ByteSource::new(vec![0x1b]);
    let mut events = source.events();
    match events.next() {
        Some(Ok(Event::Key(Key::Escape))) => {}
        other => panic!("expected Escape, got {:?}", other),
    }
    assert!(events.next().is_none());
}

#[test]
fn lookahead_wrapper_decodes_arrow() {
    let source = ByteSource::new(vec![0x1b, b'[', b'A']);
    let mut keys = source.keys();
    assert_eq!(keys.next(), Some(Ok(Key::ArrowUp)));
    assert!(keys.next().is_none());
}

#[test]
fn lookahead_wrapper_decodes_f5() {
    let source = ByteSource::new(vec![0x1b, b'[', b'1', b'5', b'~']);
    let mut keys = source.keys();
    assert_eq!(keys.next(), Some(Ok(Key::F5)));
    assert!(keys.next().is_none());
}

#[test]
fn pasted_characters_all_arrive_in_order() {
    let source = ByteSource::new(b"rust".to_vec());
    let mut keys = source.keys();
    assert_eq!(keys.next(), Some(Ok(Key::Char('r'))));
    assert_eq!(keys.next(), Some(Ok(Key::Char('u'))));
    assert_eq!(keys.next(), Some(Ok(Key::Char('s'))));
    assert_eq!(keys.next(), Some(Ok(Key::Char('t'))));
    assert!(keys.next().is_none());
}

#[test]
fn pasted_text_with_multi_byte_characters() {
    let source = ByteSource::new("caf\u{e9}!".as_bytes().to_vec());
    let mut keys = source.keys();
    assert_eq!(keys.next(), Some(Ok(Key::Char('c'))));
    assert_eq!(keys.next(), Some(Ok(Key::Char('a'))));
    assert_eq!(keys.next(), Some(Ok(Key::Char('f'))));
    assert_eq!(keys.next(), Some(Ok(Key::Char('\u{e9}'))));
    assert_eq!(keys.next(), Some(Ok(Key::Char('!'))));
    assert!(keys.next().is_none());
}

#[test]
fn key_names_render() {
    assert_eq!(Key::Escape.name(), "Escape");
    assert_eq!(Key::F11.name(), "F11");
    assert_eq!(Key::Char('q').name(), "q");
    assert_eq!(Key::Ctrl('c').name(), "c");
}

#[test]
fn lookahead_wrapper_filters_decode_errors() {
    let source = ByteSource::new(vec![0x1b, b'[', b'Z']);
    let mut keys = source.keys();
    assert!(keys.next().is_none());
}

#[test]
fn paste_followed_by_arrow_key() {
    let source = ByteSource::new(vec![b'a', b'b', 0x1b, b'[', b'A']);
    let mut keys = source.keys();
    assert_eq!(keys.next(), Some(Ok(Key::Char('a'))));
    assert_eq!(keys.next(), Some(Ok(Key::Char('b'))));
    assert_eq!(keys.next(), Some(Ok(Key::ArrowUp)));
    assert!(keys.next().is_none());
}

#[test]
fn lookahead_wrapper_emits_alt() {
    let source = ByteSource::new(vec![0x1b, b'a']);
    let mut keys = source.keys();
    assert_eq!(keys.next(), Some(Ok(Key::Alt('a'))));
    assert!(keys.next().is_none());
}
