use oxidized::config::EditorConfig;
use oxidized::editor::Editor;
use oxidized::mode::Mode;
use oxidized::theme::{ThemeConfig, UITheme};
use oxidized::ui::{DrawOp, UI};

fn ui() -> UI {
    UI::new(&ThemeConfig::load(None))
}

fn editor_with(lines: &[&str]) -> Editor {
    let mut e = Editor::new(EditorConfig::default());
    e.create_buffer(None).unwrap();
    e.buffers[0].lines = lines.iter().map(|l| l.to_string()).collect();
    e
}

fn printed(ops: &[DrawOp]) -> Vec<String> {
    ops.iter()
        .filter_map(|op| match op {
            DrawOp::Print(t) => Some(t.clone()),
            _ => None,
        })
        .collect()
}

#[test]
fn new_ui_shows_numbers_and_cursor_line() {
    let u = ui();
    assert!(u.show_line_numbers && !u.show_relative_numbers && u.show_cursor_line);
    assert_eq!(u.viewport_top(), 0);
    assert_eq!(u.theme, ThemeConfig::load(None).get_current_theme().ui);
    assert_ne!(u.theme, UITheme::emergency());
    assert_eq!(u.viewport_range(24), (0, 22));
    assert_eq!(u.viewport_range(1), (0, 0));
}

#[test]
fn number_column_is_at_least_four_wide() {
    let mut u = ui();
    assert_eq!(u.number_column_width(7), 4);
    assert_eq!(u.number_column_width(12345), 6);
    u.show_line_numbers = false;
    assert_eq!(u.number_column_width(12345), 0);
}

#[test]
fn status_text_names_mode_file_and_position() {
    let mut e = editor_with(&["abc"]);
    e.buffers[0].cursor.col = 2;
    e.buffers[0].modified = true;
    e.set_status_message("hello".to_string());
    let st = e.render_state(Vec::new());
    assert_eq!(UI::status_text(&st), " NORMAL  [No Name] [+] 1:3  | hello");
    e.create_buffer(None).unwrap();
    e.set_mode(Mode::Insert);
    let st = e.render_state(Vec::new());
    assert_eq!(UI::status_text(&st), " INSERT  [2]  [No Name] 1:1  | hello");
}

#[test]
fn a_frame_draws_rows_status_and_cursor() {
    let e = editor_with(&["one", "two"]);
    let st = e.render_state(Vec::new());
    let mut u = ui();
    let ops = u.render(&st, 20, 5);
    assert!(matches!(ops.first(), Some(DrawOp::HideCursor)));
    assert!(matches!(ops.last(), Some(DrawOp::ShowCursor)));
    let texts = printed(&ops);
    // three text rows: two lines with numbers, then a tilde; then the padded status line
    assert_eq!(texts, vec!["  1 ", "one", "  2 ", "two", "    ", "~", " NORMAL  [No Name] 1"]);
    // the cursor goes past the number column
    assert!(matches!(ops[ops.len() - 2], DrawOp::MoveTo { row: 0, col: 4 }));
}

#[test]
fn long_lines_are_cut_to_the_width_and_the_command_line_shows() {
    let mut e = editor_with(&["abcdefghij"]);
    e.set_mode(Mode::Command);
    e.set_command_line(":write".to_string());
    let st = e.render_state(Vec::new());
    let mut u = ui();
    u.show_line_numbers = false;
    let ops = u.render(&st, 4, 3);
    let texts = printed(&ops);
    assert_eq!(texts, vec!["abcd", " COM", ":wri"]);
}

#[test]
fn the_viewport_follows_the_cursor() {
    let lines: Vec<String> = (0..30).map(|i| i.to_string()).collect();
    let refs: Vec<&str> = lines.iter().map(|s| s.as_str()).collect();
    let mut e = editor_with(&refs);
    e.buffers[0].cursor.row = 25;
    let st = e.render_state(Vec::new());
    let mut u = ui();
    u.render(&st, 40, 12);
    // ten text rows: the cursor row is the last one in view
    assert_eq!(u.viewport_top, 16);
    let (top, end) = e.highlight_rows(10);
    assert_eq!((top, end), (0, 20));
}

#[test]
fn relative_numbers_count_from_the_cursor() {
    let mut e = editor_with(&["a", "b", "c"]);
    e.buffers[0].cursor.row = 1;
    let st = e.render_state(Vec::new());
    let mut u = ui();
    u.show_relative_numbers = true;
    let ops = u.render(&st, 20, 5);
    let texts = printed(&ops);
    assert_eq!(&texts[0..6], &["  1 ", "a", "  2 ", "b", "  1 ", "c"]);
}
