use alice::editor::buffer::Buffer;
use alice::editor::cursor::Direction;
use alice::editor::document::Document;
use alice::editor::mode::Mode;
use alice::editor::position::Position;
use alice::size::TermSize;

#[test]
fn document_from_text_splits_lines() {
    let doc = Document::from_text("ab\ncd\n");
    assert_eq!(doc.len(), 2);
    assert_eq!(doc.rows[0].text(), "ab");
    assert_eq!(doc.rows[1].text(), "cd");
}

#[test]
fn document_from_text_handles_crlf_and_empty() {
    let doc = Document::from_text("ab\r\ncd");
    assert_eq!(doc.len(), 2);
    assert_eq!(doc.rows[0].text(), "ab");
    assert_eq!(doc.rows[1].text(), "cd");
    let empty = Document::from_text("");
    assert_eq!(empty.len(), 1);
    assert_eq!(empty.rows[0].text(), "");
}

#[test]
fn document_newline_splits_row() {
    let mut doc = Document::from_text("abcd");
    doc.newline(&Position { x: 2, y: 0 });
    assert_eq!(doc.len(), 2);
    assert_eq!(doc.rows[0].text(), "ab");
    assert_eq!(doc.rows[1].text(), "cd");
}

#[test]
fn document_insert_character() {
    let mut doc = Document::from_text("ac");
    doc.insert(&Position { x: 1, y: 0 }, 'b');
    assert_eq!(doc.rows[0].text(), "abc");
    doc.insert(&Position { x: 1, y: 0 }, '\n');
    assert_eq!(doc.len(), 2);
    assert_eq!(doc.rows[0].text(), "a");
    assert_eq!(doc.rows[1].text(), "bc");
}

#[test]
fn document_delete_at_line_end_merges() {
    let mut doc = Document::from_text("ab\ncd");
    doc.delete(&Position { x: 2, y: 0 });
    assert_eq!(doc.len(), 1);
    assert_eq!(doc.rows[0].text(), "abcd");
}

#[test]
fn document_delete_inside_line_removes_cluster() {
    let mut doc = Document::from_text("abc\nd");
    doc.delete(&Position { x: 1, y: 0 });
    assert_eq!(doc.len(), 2);
    assert_eq!(doc.rows[0].text(), "ac");
}

#[test]
fn buffer_from_text_never_empty() {
    let buffer = Buffer::from_text("");
    assert_eq!(buffer.data().len(), 1);
    assert_eq!(buffer.data()[0].text(), "");
}

#[test]
fn buffer_edit_cycle() {
    let mut buffer = Buffer::from_text("hello\nworld");
    buffer.cursor.position = Position { x: 5, y: 0 };
    buffer.delete();
    assert_eq!(buffer.data().len(), 1);
    assert_eq!(buffer.data()[0].text(), "helloworld");
    buffer.cursor.position = Position { x: 5, y: 0 };
    buffer.newline();
    assert_eq!(buffer.data().len(), 2);
    assert_eq!(buffer.data()[0].text(), "hello");
    assert_eq!(buffer.data()[1].text(), "world");
    buffer.cursor.position = Position { x: 0, y: 1 };
    buffer.insert('w');
    assert_eq!(buffer.data()[1].text(), "wworld");
}

#[test]
fn buffer_data_bytes_appends_newlines() {
    let buffer = Buffer::from_text("a\nb");
    assert_eq!(buffer.data_bytes(), vec![b'a', b'\n', b'b', b'\n']);
}

#[test]
fn cursor_steps_clamp_to_document() {
    let buffer = Buffer::from_text("ab\ncdef");
    let mut cursor = alice::editor::buffer::cursor::Cursor::new();
    cursor.step(Direction::Up, &buffer.lines);
    assert_eq!(cursor.position, Position { x: 0, y: 0 });
    cursor.step(Direction::Down, &buffer.lines);
    assert_eq!(cursor.position, Position { x: 0, y: 1 });
    cursor.step(Direction::Down, &buffer.lines);
    assert_eq!(cursor.position, Position { x: 0, y: 1 });
    cursor.step(Direction::Right, &buffer.lines);
    assert_eq!(cursor.position, Position { x: 1, y: 1 });
    cursor.step(Direction::Left, &buffer.lines);
    cursor.step(Direction::Left, &buffer.lines);
    assert_eq!(cursor.position, Position { x: 0, y: 1 });
}

#[test]
fn cursor_overstep_clamps_by_mode() {
    let buffer = Buffer::from_text("abc");
    let mut cursor = alice::editor::buffer::cursor::Cursor::new();
    cursor.position = Position { x: 10, y: 0 };
    cursor.overstep(&Mode::Insert, &buffer.lines);
    assert_eq!(cursor.position.x, 3);
    cursor.position = Position { x: 10, y: 0 };
    cursor.overstep(&Mode::Normal, &buffer.lines);
    assert_eq!(cursor.position.x, 2);
}

#[test]
fn cursor_scroll_keeps_position_visible() {
    let text = vec!["x"; 100].join("\n");
    let buffer = Buffer::from_text(&text);
    let mut cursor = alice::editor::buffer::cursor::Cursor::new();
    let size = TermSize { height: 10, width: 80 };
    cursor.position = Position { x: 0, y: 50 };
    cursor.scroll(&size, &buffer.lines);
    assert!(cursor.offset.y <= 50);
    assert!(50 <= cursor.offset.y + 9);
    cursor.position = Position { x: 0, y: 3 };
    cursor.scroll(&size, &buffer.lines);
    assert!(cursor.offset.y <= 3);
    assert!(3 <= cursor.offset.y + 9);
}

#[test]
fn cursor_backspace_wraps_to_previous_line_end() {
    let buffer = Buffer::from_text("abc\nd");
    let mut cursor = alice::editor::buffer::cursor::Cursor::new();
    cursor.position = Position { x: 0, y: 1 };
    cursor.backspace(&buffer.lines);
    assert_eq!(cursor.position, Position { x: 3, y: 0 });
    cursor.position = Position { x: 2, y: 0 };
    cursor.backspace(&buffer.lines);
    assert_eq!(cursor.position, Position { x: 1, y: 0 });
}

#[test]
fn cursor_jumps() {
    let buffer = Buffer::from_text("abc\ndef\nghi");
    let mut cursor = alice::editor::buffer::cursor::Cursor::new();
    cursor.bottom(&buffer.lines);
    assert_eq!(cursor.position.y, 2);
    cursor.end(&buffer.lines);
    assert_eq!(cursor.position.x, 2);
    cursor.start();
    assert_eq!(cursor.position.x, 0);
    cursor.top();
    assert_eq!(cursor.position.y, 0);
    cursor.center(&TermSize { height: 4, width: 80 });
    assert_eq!(cursor.offset.y, 0);
}

#[test]
fn simple_cursor_reclamps_after_step() {
    let buffer = Buffer::from_text("abcdef\nxy");
    let mut cursor = alice::editor::cursor::Cursor::new();
    cursor.position = Position { x: 5, y: 0 };
    cursor.step(Direction::Down, &buffer.lines);
    assert_eq!(cursor.position, Position { x: 2, y: 1 });
}

#[test]
fn simple_cursor_scroll_bounds() {
    let mut cursor = alice::editor::cursor::Cursor::new();
    let size = TermSize { height: 8, width: 20 };
    cursor.position = Position { x: 33, y: 21 };
    cursor.scroll(&size);
    assert!(cursor.offset.y <= 21 && 21 <= cursor.offset.y + 7);
    assert!(cursor.offset.x <= 33 && 33 <= cursor.offset.x + 19);
}

#[test]
fn cursor_goto_text_addresses_screen_cell() {
    let buffer = Buffer::from_text("abc\ndef");
    let mut cursor = alice::editor::buffer::cursor::Cursor::new();
    cursor.position = Position { x: 2, y: 1 };
    assert_eq!(cursor.goto_text(&buffer.lines), "\u{1b}[2;5H");
}
