use alice::editor::buffer::Buffer;
use alice::editor::mode::Mode;
use alice::editor::position::Position;
use alice::editor::status::message::{Message, MessageVariant};
use alice::editor::{CursorStyle, Editor};
use alice::escape::cursor::Goto;
use alice::escape::CSI;
use alice::event::Key;
use alice::highlight::{colors_from_events, HlEvent};
use alice::size::TermSize;

fn editor_over(text: &str) -> Editor {
    Editor::new(Buffer::from_text(text))
}

const SIZE: TermSize = TermSize { height: 24, width: 80 };

#[test]
fn normal_mode_enters_insert_and_back() {
    let mut ed = editor_over("abc");
    let eff = ed.handle_key(Key::Char('i'), &SIZE, 0);
    assert_eq!(ed.mode, Mode::Insert);
    assert_eq!(eff.style, Some(CursorStyle::BlinkingBar));
    let eff = ed.handle_key(Key::Escape, &SIZE, 0);
    assert_eq!(ed.mode, Mode::Normal);
    assert_eq!(eff.style, Some(CursorStyle::BlinkingBlock));
}

#[test]
fn insert_mode_types_characters() {
    let mut ed = editor_over("");
    ed.handle_key(Key::Char('i'), &SIZE, 0);
    ed.handle_key(Key::Char('h'), &SIZE, 0);
    ed.handle_key(Key::Char('i'), &SIZE, 0);
    assert_eq!(ed.buffer.data()[0].text(), "hi");
    assert_eq!(ed.buffer.cursor.position, Position { x: 2, y: 0 });
}

#[test]
fn insert_mode_enter_splits_line() {
    let mut ed = editor_over("abcd");
    ed.handle_key(Key::Char('i'), &SIZE, 0);
    ed.buffer.cursor.position = Position { x: 2, y: 0 };
    ed.handle_key(Key::Enter, &SIZE, 0);
    assert_eq!(ed.buffer.data().len(), 2);
    assert_eq!(ed.buffer.data()[0].text(), "ab");
    assert_eq!(ed.buffer.data()[1].text(), "cd");
    assert_eq!(ed.buffer.cursor.position, Position { x: 0, y: 1 });
}

#[test]
fn insert_mode_backspace_merges_lines() {
    let mut ed = editor_over("ab\ncd");
    ed.handle_key(Key::Char('i'), &SIZE, 0);
    ed.buffer.cursor.position = Position { x: 0, y: 1 };
    ed.handle_key(Key::Backspace, &SIZE, 0);
    assert_eq!(ed.buffer.data().len(), 1);
    assert_eq!(ed.buffer.data()[0].text(), "abcd");
    assert_eq!(ed.buffer.cursor.position, Position { x: 2, y: 0 });
}

#[test]
fn insert_mode_backspace_at_origin_does_nothing() {
    let mut ed = editor_over("ab");
    ed.handle_key(Key::Char('i'), &SIZE, 0);
    ed.buffer.cursor.position = Position { x: 0, y: 0 };
    ed.handle_key(Key::Backspace, &SIZE, 0);
    assert_eq!(ed.buffer.data()[0].text(), "ab");
}

#[test]
fn normal_mode_movement_keys() {
    let mut ed = editor_over("abc\ndef\nghi");
    ed.handle_key(Key::Char('j'), &SIZE, 0);
    assert_eq!(ed.buffer.cursor.position.y, 1);
    ed.handle_key(Key::Char('l'), &SIZE, 0);
    assert_eq!(ed.buffer.cursor.position.x, 1);
    ed.handle_key(Key::Char('G'), &SIZE, 0);
    assert_eq!(ed.buffer.cursor.position.y, 2);
    ed.handle_key(Key::Char('g'), &SIZE, 0);
    assert_eq!(ed.buffer.cursor.position.y, 0);
    ed.handle_key(Key::Char('F'), &SIZE, 0);
    assert_eq!(ed.buffer.cursor.position.x, 2);
    ed.handle_key(Key::Char('f'), &SIZE, 0);
    assert_eq!(ed.buffer.cursor.position.x, 0);
}

#[test]
fn command_quit_exits() {
    let mut ed = editor_over("x");
    ed.handle_key(Key::Char(' '), &SIZE, 0);
    assert_eq!(ed.mode, Mode::Command);
    ed.handle_key(Key::Char('q'), &SIZE, 0);
    let eff = ed.handle_key(Key::Enter, &SIZE, 0);
    assert_eq!(ed.mode, Mode::Exit);
    assert!(!eff.save);
}

#[test]
fn command_write_requests_save() {
    let mut ed = editor_over("x");
    ed.handle_key(Key::Char(' '), &SIZE, 0);
    ed.handle_key(Key::Char('w'), &SIZE, 0);
    let eff = ed.handle_key(Key::Enter, &SIZE, 0);
    assert!(eff.save);
    assert_eq!(ed.mode, Mode::Normal);
    assert!(ed.command.0.is_empty());
}

#[test]
fn command_unknown_posts_error() {
    let mut ed = editor_over("x");
    ed.handle_key(Key::Char(' '), &SIZE, 0);
    ed.handle_key(Key::Char('z'), &SIZE, 0);
    ed.handle_key(Key::Char('z'), &SIZE, 0);
    let eff = ed.handle_key(Key::Enter, &SIZE, 77);
    assert!(!eff.save);
    assert_eq!(ed.mode, Mode::Normal);
    let msg = ed.status.message.clone().expect("an error message");
    assert_eq!(msg.data, "Not a command: zz");
    assert!(matches!(msg.variant, MessageVariant::Error));
    assert_eq!(msg.time, 77);
}

#[test]
fn command_backspace_and_escape() {
    let mut ed = editor_over("x");
    ed.handle_key(Key::Char(' '), &SIZE, 0);
    ed.handle_key(Key::Char('a'), &SIZE, 0);
    ed.handle_key(Key::Backspace, &SIZE, 0);
    assert!(ed.command.0.is_empty());
    ed.handle_key(Key::Escape, &SIZE, 0);
    assert_eq!(ed.mode, Mode::Normal);
}

#[test]
fn save_message_reports_byte_count() {
    let m = Editor::save_message(42, 5);
    assert_eq!(m.data, "Wrote 42 bytes to file");
    assert_eq!(m.time, 5);
}

#[test]
fn message_goes_stale_after_five_seconds() {
    let m = Message::new("hi", 1000);
    assert!(!m.is_old(1000));
    assert!(!m.is_old(6000));
    assert!(m.is_old(6001));
    let e = Message::new_err("bad", 0);
    assert!(matches!(e.variant, MessageVariant::Error));
}

#[test]
fn line_number_pads_and_colors() {
    let ed = editor_over("a\nb\nc\nd\ne\nf\ng\nh\ni\nj\nk\nl");
    assert_eq!(ed.line_number(7), " \u{1b}[90m7\u{1b}[0m ");
    assert_eq!(ed.line_number(12), "\u{1b}[90m12\u{1b}[0m ");
}

#[test]
fn highlight_line_prefixes_escape() {
    let ed = editor_over("ab");
    let highlights = Some(vec![CSI("31m"), CSI("32m")]);
    let out = ed.highlight_line(String::new(), (1, 'b'), &highlights);
    assert_eq!(out, "\u{1b}[32mb");
    let plain = ed.highlight_line(String::from("x"), (0, 'a'), &None);
    assert_eq!(plain, "xa");
}

#[test]
fn goto_formats_cursor_address() {
    assert_eq!(Goto(3, 14).text(), "\u{1b}[3;14H");
    assert_eq!(CSI("0m").text(), "\u{1b}[0m");
}

#[test]
fn digits_counts_decimal_places() {
    assert_eq!(alice::digits(0), 1);
    assert_eq!(alice::digits(9), 1);
    assert_eq!(alice::digits(10), 2);
    assert_eq!(alice::digits(12345), 5);
}

#[test]
fn ln_offset_adds_gap() {
    let buffer = Buffer::from_text("a\nb\nc");
    assert_eq!(alice::editor::utils::ln_offset(buffer.data()), 2);
}

#[test]
fn mode_names() {
    assert_eq!(Mode::Normal.name(), "Normal");
    assert_eq!(Mode::Insert.name(), "Insert");
    assert_eq!(Mode::Command.name(), "Command");
    assert_eq!(Mode::Exit.name(), "Exit");
}

#[test]
fn colors_from_events_paint_spans() {
    let events = vec![
        HlEvent::Start(11),
        HlEvent::Source { start: 0, end: 2 },
        HlEvent::End,
        HlEvent::Source { start: 2, end: 3 },
    ];
    let colors = colors_from_events(3, &events).expect("mapped classes");
    assert_eq!(colors.len(), 3);
    assert_eq!(colors[0].0, "32m");
    assert_eq!(colors[1].0, "32m");
    assert_eq!(colors[2].0, "39m");
}

#[test]
fn colors_from_events_rejects_unmapped_class() {
    let events = vec![HlEvent::Start(3)];
    assert!(colors_from_events(1, &events).is_none());
}

#[test]
fn text_helpers() {
    assert_eq!(alice::text::to_decimal(0), "0");
    assert_eq!(alice::text::to_decimal(907), "907");
    assert_eq!(alice::text::tabs_to_spaces("a\tb\tc"), "a b c");
    let lines = alice::text::split_lines("one\r\ntwo\nthree");
    assert_eq!(lines, vec!["one", "two", "three"]);
}
