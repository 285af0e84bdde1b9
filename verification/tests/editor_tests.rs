use oxidized::config::EditorConfig;
use oxidized::editor::{law_previous_undoes_next, Editor, SettingFollowUp};
use oxidized::mode::Mode;
use std::path::PathBuf;

fn editor() -> Editor {
    Editor::new(EditorConfig::default())
}

fn open(e: &mut Editor, name: &str, text: &str) -> usize {
    e.create_buffer(Some(Ok((PathBuf::from(name), text.to_string())))).unwrap()
}

#[test]
fn buffers_get_fresh_ids_and_become_current() {
    let mut e = editor();
    assert_eq!(e.create_buffer(None).unwrap(), 1);
    assert_eq!(open(&mut e, "src/main.rs", "fn main() {}\n"), 2);
    assert_eq!(e.current_buffer_id, Some(2));
    assert_eq!(e.current_buffer().unwrap().lines, vec!["fn main() {}".to_string()]);
    let failed = e.create_buffer(Some(Err(anyhow::Error::msg("missing"))));
    assert!(failed.is_err());
    assert_eq!(e.next_buffer_id, 4);
    assert_eq!(e.buffers.len(), 2);
    assert!(e.switch_to_buffer(1));
    assert!(!e.switch_to_buffer(9));
    assert_eq!(e.current_buffer_id, Some(1));
}

#[test]
fn next_and_previous_buffers_wrap_around() {
    let _ = law_previous_undoes_next;
    let mut e = editor();
    assert!(!e.switch_to_next_buffer());
    e.create_buffer(None).unwrap();
    e.create_buffer(None).unwrap();
    e.create_buffer(None).unwrap();
    assert_eq!(e.current_buffer_id, Some(3));
    assert!(e.switch_to_next_buffer());
    assert_eq!(e.current_buffer_id, Some(1));
    assert!(e.switch_to_previous_buffer());
    assert_eq!(e.current_buffer_id, Some(3));
    assert!(e.switch_to_previous_buffer());
    assert_eq!(e.current_buffer_id, Some(2));
}

#[test]
fn closing_buffers() {
    let mut e = editor();
    e.create_buffer(None).unwrap();
    e.create_buffer(None).unwrap();
    e.buffers[1].modified = true;
    assert_eq!(e.close_current_buffer().unwrap(), "Buffer has unsaved changes! Use :bd! to force close");
    assert_eq!(e.force_close_current_buffer().unwrap(), "Buffer closed (discarded changes)");
    assert_eq!(e.current_buffer_id, Some(1));
    assert_eq!(e.close_current_buffer().unwrap(), "Closed buffer, created new empty buffer");
    assert_eq!(e.current_buffer_id, Some(3));
    e.buffers[0].modified = true;
    e.close_buffer(3).unwrap();
    assert_eq!(e.status_message, "Buffer has unsaved changes!");
    e.buffers[0].modified = false;
    e.close_buffer(3).unwrap();
    assert!(e.buffers.is_empty());
    assert_eq!(e.current_buffer_id, None);
    assert_eq!(e.close_current_buffer().unwrap(), "No buffer to close");
}

#[test]
fn buffers_by_name_and_the_buffer_list() {
    let mut e = editor();
    assert_eq!(e.list_buffers(), "No buffers open");
    open(&mut e, "/tmp/notes.txt", "a");
    e.create_buffer(None).unwrap();
    open(&mut e, "lib.rs", "b");
    e.buffers[2].modified = true;
    assert_eq!(e.list_buffers(), "Buffers: 1:notes.txt 2:[No Name] [3:lib.rs+]");
    assert!(e.switch_to_buffer_by_name("note"));
    assert_eq!(e.current_buffer_id, Some(1));
    assert!(!e.switch_to_buffer_by_name("zzz"));
    let m = e.open_file("x.md", Ok("# title".to_string())).unwrap();
    assert_eq!(m, "Opened 'x.md' in buffer 4");
}

#[test]
fn modes_lines_and_quitting() {
    let mut e = editor();
    e.set_command_line(":w".to_string());
    e.set_mode(Mode::Command);
    assert_eq!(e.command_line(), ":w");
    e.set_mode(Mode::Normal);
    assert_eq!(e.command_line(), "");
    assert_eq!(e.mode(), Mode::Normal);
    e.create_buffer(None).unwrap();
    e.buffers[0].modified = true;
    e.quit();
    assert!(!e.should_quit);
    assert_eq!(e.status_message(), "Unsaved changes! Use :q! to force quit");
    e.force_quit();
    assert!(e.should_quit);
}

#[test]
fn searching_moves_through_matches() {
    let mut e = editor();
    open(&mut e, "a.txt", "one two\ntwo three\nfour two");
    assert!(e.search("two"));
    assert_eq!(e.status_message, "Found 3 matches");
    assert_eq!((e.current_buffer().unwrap().cursor.row, e.current_buffer().unwrap().cursor.col), (0, 4));
    assert!(e.search_next());
    assert_eq!(e.status_message, "Match 2 of 3");
    assert_eq!(e.current_buffer().unwrap().cursor.row, 1);
    assert!(e.search_previous());
    assert!(e.search_previous());
    assert_eq!(e.status_message, "Match 3 of 3");
    assert_eq!((e.current_buffer().unwrap().cursor.row, e.current_buffer().unwrap().cursor.col), (2, 5));
    assert!(!e.search("nine"));
    assert_eq!(e.status_message, "Pattern not found: nine");
    assert!(!e.search_next());
    assert_eq!(e.status_message, "No search results");
    e.clear_search();
    assert!(e.search_results.is_empty());
}

#[test]
fn display_settings() {
    let mut e = editor();
    let before = e.show_line_numbers;
    e.toggle_line_numbers();
    assert_eq!(e.show_line_numbers, !before);
    e.set_line_numbers(true, true);
    assert_eq!(e.status_message, "Hybrid line numbers enabled");
    assert_eq!(e.get_line_number_state(), (true, true));
    e.set_line_numbers(false, false);
    assert_eq!(e.status_message, "Line numbers disabled");
    e.set_cursor_line(false);
    e.toggle_cursor_line();
    assert!(e.show_cursor_line);
    assert_eq!(e.status_message, "Cursor line highlighting enabled");
}

#[test]
fn settings_and_what_follows_them() {
    let mut e = editor();
    assert_eq!(e.set_config_setting("number", "false"), SettingFollowUp::Nothing);
    assert!(!e.show_line_numbers);
    assert_eq!(e.get_config_value("number"), Some("false".to_string()));
    assert_eq!(e.set_config_setting("colo", "light"), SettingFollowUp::ColorScheme("light".to_string()));
    assert_eq!(e.get_config_value("colorscheme"), Some("light".to_string()));
    assert_eq!(e.set_config_setting("ic", "true"), SettingFollowUp::Nothing);
    assert!(!e.search_engine.case_sensitive);
    assert_eq!(e.set_config_setting("ic", "false"), SettingFollowUp::Nothing);
    assert!(e.search_engine.case_sensitive);
    assert_eq!(e.set_config_setting("syntax", "false"), SettingFollowUp::SyntaxHighlighting(false));
    open(&mut e, "a.txt", "x");
    e.buffers[0].modified = true;
    assert_eq!(e.set_config_setting("aw", "true"), SettingFollowUp::SaveCurrentBuffer);
    assert!(e.check_auto_save());
    e.reload_ui_theme("dark");
    assert_eq!(e.status_message, "Theme 'dark' reloaded");
}

#[test]
fn scrolling_moves_the_cursor_with_the_view() {
    let mut e = editor();
    let text: Vec<String> = (0..50).map(|i| format!("line {}", i)).collect();
    open(&mut e, "a.txt", &text.join("\n"));
    e.buffers[0].cursor.col = 6;
    e.scroll_down_line();
    assert_eq!(e.viewport_top, 1);
    assert_eq!(e.buffers[0].cursor.row, 1);
    e.scroll_down_page();
    assert_eq!(e.viewport_top, 21);
    assert_eq!(e.buffers[0].cursor.row, 21);
    assert_eq!(e.buffers[0].cursor.col, 6);
    e.scroll_down_page();
    e.scroll_down_page();
    assert_eq!(e.buffers[0].cursor.row, 49);
    e.scroll_up_half_page();
    assert_eq!(e.viewport_top, 51);
    assert_eq!(e.buffers[0].cursor.row, 39);
    e.scroll_up_line();
    e.buffers[0].cursor.row = 0;
    e.scroll_up_page();
    assert_eq!(e.buffers[0].cursor.row, 0);
    e.viewport_top = 0;
    e.scroll_up_line();
    assert_eq!(e.viewport_top, 0);
}
