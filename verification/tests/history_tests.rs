use oxidized::buffer::Buffer as SnapshotBuffer;
use oxidized::engine::buffer::Buffer;
use oxidized::mode::Position;
use std::path::PathBuf;

#[test]
fn snapshot_undo_restores_text_and_cursor() {
    let mut b = SnapshotBuffer::new(3);
    b.insert_char('a');
    b.insert_char('b');
    b.insert_line_break();
    b.insert_char('c');
    assert_eq!(b.lines, vec!["ab", "c"]);
    assert!(b.undo());
    assert_eq!(b.lines, vec!["ab", ""]);
    assert_eq!(b.cursor, Position { row: 1, col: 0 });
    assert!(b.redo());
    assert_eq!(b.lines, vec!["ab", "c"]);
    assert!(b.undo());
    assert!(b.undo());
    assert_eq!(b.lines, vec!["ab"]);
    assert!(b.undo() && b.undo());
    assert_eq!(b.lines, vec![""]);
    assert!(!b.undo());
}

#[test]
fn snapshot_buffer_reads_and_joins_text() {
    let b = SnapshotBuffer::from_text(1, PathBuf::from("x.txt"), "one\r\ntwo\n");
    assert_eq!(b.lines, vec!["one", "two"]);
    assert_eq!(b.contents(), "one\ntwo");
    assert_eq!(b.line_count(), 2);
    assert_eq!(b.get_line(1).map(|s| s.as_str()), Some("two"));
    assert!(b.get_line(2).is_none());
}

#[test]
fn snapshot_word_motions() {
    let mut b = SnapshotBuffer::from_text(1, PathBuf::from("x"), "alpha beta\ngamma");
    b.move_to_next_word();
    assert_eq!(b.cursor, Position { row: 0, col: 6 });
    b.move_to_next_word();
    assert_eq!(b.cursor, Position { row: 1, col: 0 });
    // at the start of a line the cursor goes to the end of the line above
    b.move_to_previous_word();
    assert_eq!(b.cursor, Position { row: 0, col: 10 });
    b.move_to_previous_word();
    assert_eq!(b.cursor, Position { row: 0, col: 6 });
    b.move_to_word_end();
    assert_eq!(b.cursor, Position { row: 0, col: 9 });
}

#[test]
fn delta_undo_of_each_edit_restores_the_text() {
    let mut b = Buffer::from_text(1, PathBuf::from("t"), "hello world", 50);
    let original = b.lines.clone();
    b.cursor.col = 5;
    b.insert_char('!');
    assert_eq!(b.lines[0], "hello! world");
    assert!(b.undo());
    assert_eq!(b.lines, original);
    b.insert_line_break();
    assert_eq!(b.lines, vec!["hello", " world"]);
    assert!(b.undo());
    assert_eq!(b.lines, original);
    assert_eq!(b.cursor, Position { row: 0, col: 5 });
    assert!(b.delete_char());
    assert_eq!(b.lines[0], "hell world");
    assert!(b.undo());
    assert_eq!(b.lines, original);
    assert!(b.redo());
    assert_eq!(b.lines[0], "hell world");
}

#[test]
fn delta_indent_and_unindent() {
    let mut b = Buffer::from_text(1, PathBuf::from("t"), "fn x\n  y", 50);
    assert!(b.indent_line(0).is_ok());
    assert_eq!(b.lines[0], "    fn x");
    assert!(b.unindent_line(0).is_ok());
    assert_eq!(b.lines[0], "fn x");
    assert!(b.unindent_line(1).is_ok());
    assert_eq!(b.lines[1], "y");
    assert!(b.undo());
    assert_eq!(b.lines[1], "  y");
    // a line that does not exist is left alone
    assert!(b.indent_line(5).is_ok());
    assert_eq!(b.lines.len(), 2);
}

#[test]
fn undo_history_is_bounded() {
    let mut b = Buffer::new(1, 2);
    b.insert_char('a');
    b.insert_char('b');
    b.insert_char('c');
    assert_eq!(b.undo_stack.len(), 2);
    assert!(b.undo());
    assert!(b.undo());
    assert!(!b.undo());
    assert_eq!(b.lines[0], "a");
}
