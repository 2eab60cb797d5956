use alice::editor::buffer::line::Line;
use alice::editor::document::row::Row;

#[test]
fn line_counts_clusters_not_bytes() {
    let line = Line::new(String::from("hello"));
    assert_eq!(line.len(), 5);
    let accented = Line::new(String::from("e\u{301}"));
    assert_eq!(accented.len(), 1);
    let mixed = Line::new(String::from("a\u{2603}b"));
    assert_eq!(mixed.len(), 3);
}

#[test]
fn line_split_and_append_reconstruct() {
    let mut line = Line::new(String::from("h\u{e9}llo w\u{f6}rld"));
    let before_text = line.text().to_string();
    let before_len = line.len();
    let rest = line.split(3);
    assert_eq!(line.text(), "h\u{e9}l");
    assert_eq!(rest.text(), "lo w\u{f6}rld");
    line.append(rest.text());
    assert_eq!(line.text(), before_text);
    assert_eq!(line.len(), before_len);
}

#[test]
fn line_split_past_end_returns_empty_rest() {
    let mut line = Line::new(String::from("ab"));
    let rest = line.split(10);
    assert_eq!(line.text(), "ab");
    assert_eq!(rest.text(), "");
    assert_eq!(rest.len(), 0);
}

#[test]
fn line_insert_multi_byte_cluster_adds_one() {
    let mut line = Line::new(String::from("ab"));
    line.insert(1, '\u{2603}');
    assert_eq!(line.text(), "a\u{2603}b");
    assert_eq!(line.len(), 3);
    let mut wide = Line::new(String::from("xy"));
    wide.insert(2, '\u{1f600}');
    assert_eq!(wide.text(), "xy\u{1f600}");
    assert_eq!(wide.len(), 3);
}

#[test]
fn line_delete_removes_one_cluster() {
    let mut line = Line::new(String::from("a\u{2603}b"));
    line.delete(1);
    assert_eq!(line.text(), "ab");
    assert_eq!(line.len(), 2);
    line.delete(9);
    assert_eq!(line.text(), "ab");
}

#[test]
fn line_render_clamps_and_replaces_tabs() {
    let line = Line::new(String::from("hello"));
    assert_eq!(line.render(1, 3), "el");
    assert_eq!(line.render(2, 100), "llo");
    assert_eq!(line.render(4, 2), "");
    let tabbed = Line::new(String::from("a\tb"));
    assert_eq!(tabbed.render(0, 3), "a b");
}

#[test]
fn line_as_bytes_is_utf8() {
    let line = Line::new(String::from("a\u{e9}"));
    assert_eq!(line.as_bytes(), &[0x61, 0xc3, 0xa9]);
}

#[test]
fn row_behaves_like_line() {
    let mut row = Row::new(String::from("gr\u{fc}n"));
    assert_eq!(row.len(), 4);
    assert_eq!(row.render(0, 4), "gr\u{fc}");
    let rest = row.split(2);
    assert_eq!(row.text(), "gr");
    assert_eq!(rest.text(), "\u{fc}n");
    row.append(rest.text());
    assert_eq!(row.text(), "gr\u{fc}n");
    row.insert(4, '!');
    assert_eq!(row.text(), "gr\u{fc}n!");
    row.delete(0);
    assert_eq!(row.text(), "r\u{fc}n!");
    row.update();
    assert_eq!(row.len(), 4);
}
