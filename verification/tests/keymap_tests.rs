use oxidized::config::EditorConfig;
use oxidized::engine::buffer::Buffer;
use oxidized::keymap::{
    bindings, EditorAction, ExCommand, KeyCode, KeyHandler, KeyInput, KeyOutcome, KeymapConfig,
};
use oxidized::mode::Mode;

fn key(code: KeyCode) -> KeyInput {
    KeyInput { code, ctrl: false, alt: false, shift: false }
}

fn create_key_event_with_ctrl(code: KeyCode) -> KeyInput {
    KeyInput { code, ctrl: true, alt: false, shift: false }
}

#[test]
fn test_key_event_to_string() {
    // Test basic character key
    let k = key(KeyCode::Char('a'));
    let key_str = KeyHandler::key_event_to_string(k);
    assert_eq!(key_str, "a");

    // Test key with ctrl modifier
    let k = create_key_event_with_ctrl(KeyCode::Char('a'));
    let key_str = KeyHandler::key_event_to_string(k);
    assert_eq!(key_str, "Ctrl+a");

    // Test special keys
    let k = key(KeyCode::Enter);
    let key_str = KeyHandler::key_event_to_string(k);
    assert_eq!(key_str, "Enter");

    let k = key(KeyCode::Esc);
    let key_str = KeyHandler::key_event_to_string(k);
    assert_eq!(key_str, "Escape");

    let k = key(KeyCode::Backspace);
    let key_str = KeyHandler::key_event_to_string(k);
    assert_eq!(key_str, "Backspace");
}

#[test]
fn shifted_keys_are_written_as_their_character() {
    let shift = |code| KeyInput { code, ctrl: false, alt: false, shift: true };
    assert_eq!(KeyHandler::key_event_to_string(shift(KeyCode::Char('g'))), "G");
    assert_eq!(KeyHandler::key_event_to_string(shift(KeyCode::Char('G'))), "G");
    assert_eq!(KeyHandler::key_event_to_string(shift(KeyCode::Char('$'))), "$");
    assert_eq!(KeyHandler::key_event_to_string(shift(KeyCode::Char('1'))), "Shift+1");
    assert_eq!(KeyHandler::key_event_to_string(shift(KeyCode::Tab)), "Shift+Tab");
    let all = KeyInput { code: KeyCode::F(12), ctrl: true, alt: true, shift: false };
    assert_eq!(KeyHandler::key_event_to_string(all), "Ctrl+Alt+F12");
    assert_eq!(KeyHandler::key_event_to_string(key(KeyCode::Other)), "Unknown");
}

fn pair(k: &str, a: &str) -> (String, String) {
    (k.to_string(), a.to_string())
}

fn keymaps() -> KeymapConfig {
    let mut c = KeymapConfig::create_minimal_fallback();
    c.normal_mode = vec![pair("j", "cursor_down"), pair("gg", "buffer_start"), pair("Ctrl+w h", "window_left"), pair(":", "command_mode")];
    c.insert_mode = vec![pair("Char", "insert_char"), pair("Escape", "normal_mode"), pair("Ctrl+w", "delete_word_backward")];
    c.replace_mode = vec![pair("Char", "replace_char")];
    c
}

fn run(r: KeyOutcome) -> Option<String> {
    match r {
        KeyOutcome::Run(a) => Some(a),
        _ => None,
    }
}

#[test]
fn fallback_keymap_reaches_the_command_line() {
    let h = KeyHandler::new(None);
    assert_eq!(h.keymap_config.normal_mode, vec![pair(":", "command_mode")]);
    assert_eq!(h.keymap_config.command_mode.len(), 3);
    assert!(h.keymap_config.insert_mode.is_empty());
    let _ = bindings;
}

#[test]
fn single_key_runs_its_binding() {
    let mut h = KeyHandler::new(Some(keymaps()));
    assert_eq!(run(h.handle_key(Mode::Normal, key(KeyCode::Char('j')), 0)), Some("cursor_down".to_string()));
    assert_eq!(h.pending_sequence, "");
}

#[test]
fn letters_join_into_a_sequence() {
    let mut h = KeyHandler::new(Some(keymaps()));
    // "g" begins the longer binding "gg", so it waits
    assert!(matches!(h.handle_key(Mode::Normal, key(KeyCode::Char('g')), 10), KeyOutcome::Nothing));
    assert_eq!(h.pending_sequence, "g");
    assert_eq!(run(h.handle_key(Mode::Normal, key(KeyCode::Char('g')), 20)), Some("buffer_start".to_string()));
    assert_eq!(h.pending_sequence, "");
}

#[test]
fn modified_keys_join_with_a_space() {
    let mut h = KeyHandler::new(Some(keymaps()));
    let ctrl_w = create_key_event_with_ctrl(KeyCode::Char('w'));
    assert!(matches!(h.handle_key(Mode::Normal, ctrl_w, 0), KeyOutcome::Nothing));
    assert_eq!(h.pending_sequence, "Ctrl+w");
    assert_eq!(run(h.handle_key(Mode::Normal, key(KeyCode::Char('h')), 5)), Some("window_left".to_string()));
}

#[test]
fn old_sequences_time_out() {
    let mut h = KeyHandler::new(Some(keymaps()));
    let _ = h.handle_key(Mode::Normal, create_key_event_with_ctrl(KeyCode::Char('w')), 0);
    // more than a second later the pending Ctrl+w is dropped and j runs alone
    assert_eq!(run(h.handle_key(Mode::Normal, key(KeyCode::Char('j')), 1500)), Some("cursor_down".to_string()));
}

#[test]
fn unknown_sequence_falls_back_to_the_key() {
    let mut h = KeyHandler::new(Some(keymaps()));
    let _ = h.handle_key(Mode::Normal, create_key_event_with_ctrl(KeyCode::Char('w')), 0);
    // "Ctrl+w j" is bound to nothing and begins no binding: j runs alone
    assert_eq!(run(h.handle_key(Mode::Normal, key(KeyCode::Char('j')), 10)), Some("cursor_down".to_string()));
    assert_eq!(h.pending_sequence, "");
}

#[test]
fn insert_mode_characters_use_the_char_binding() {
    let mut h = KeyHandler::new(Some(keymaps()));
    assert_eq!(run(h.handle_key(Mode::Insert, key(KeyCode::Char('x')), 0)), Some("insert_char".to_string()));
    assert_eq!(run(h.handle_key(Mode::Insert, create_key_event_with_ctrl(KeyCode::Char('w')), 0)), Some("delete_word_backward".to_string()));
    assert_eq!(run(h.handle_key(Mode::Insert, key(KeyCode::Esc), 0)), Some("normal_mode".to_string()));
    assert_eq!(run(h.handle_key(Mode::Replace, create_key_event_with_ctrl(KeyCode::Char('q')), 0)), Some("replace_char".to_string()));
    assert!(matches!(h.handle_key(Mode::Visual, key(KeyCode::Char('q')), 0), KeyOutcome::Nothing));
}

#[test]
fn escape_leaves_the_command_line() {
    let mut h = KeyHandler::new(Some(keymaps()));
    assert!(matches!(h.handle_key(Mode::Command, key(KeyCode::Esc), 0), KeyOutcome::LeaveCommandMode));
}

#[test]
fn action_names_map_to_actions() {
    assert_eq!(KeyHandler::parse_action("cursor_left"), Some(EditorAction::CursorLeft));
    assert_eq!(KeyHandler::parse_action("line_first_char"), Some(EditorAction::LineStart));
    assert_eq!(KeyHandler::parse_action("resize_window_shorter"), Some(EditorAction::ResizeWindowShorter));
    assert_eq!(KeyHandler::parse_action("no_such_action"), None);
}

#[test]
fn ex_commands_parse() {
    assert!(matches!(KeyHandler::parse_ex_command(":q"), ExCommand::Quit));
    assert!(matches!(KeyHandler::parse_ex_command("::wq"), ExCommand::WriteQuit));
    assert!(matches!(KeyHandler::parse_ex_command(":set nu rnu"), ExCommand::LineNumbers(true, true)));
    assert!(matches!(KeyHandler::parse_ex_command(":set nornu"), ExCommand::LineNumbers(true, false)));
    assert!(matches!(KeyHandler::parse_ex_command(":set nocul"), ExCommand::CursorLine(false)));
    assert!(matches!(KeyHandler::parse_ex_command(":bprevious"), ExCommand::BufferPrevious));
    match KeyHandler::parse_ex_command(":e  notes.txt ") {
        ExCommand::Edit(f) => assert_eq!(f, "notes.txt"),
        _ => panic!("expected an edit"),
    }
    match KeyHandler::parse_ex_command(":b 3") {
        ExCommand::SwitchBuffer(id) => assert_eq!(id, 3),
        _ => panic!("expected a buffer number"),
    }
    match KeyHandler::parse_ex_command(":b main.rs") {
        ExCommand::SwitchBufferByName(n) => assert_eq!(n, "main.rs"),
        _ => panic!("expected a buffer name"),
    }
    match KeyHandler::parse_ex_command(":set ts=2") {
        ExCommand::SetOptions(a) => assert_eq!(a, "ts=2"),
        _ => panic!("expected set"),
    }
    match KeyHandler::parse_ex_command(":frobnicate") {
        ExCommand::Unknown(c) => assert_eq!(c, "frobnicate"),
        _ => panic!("expected unknown"),
    }
}

fn message(o: &oxidized::keymap::SetOutcome) -> String {
    o.message.clone().unwrap_or_default()
}

#[test]
fn set_shows_the_main_settings() {
    let h = KeyHandler::new(None);
    let mut c = EditorConfig::default();
    let o = h.handle_set_command(&mut c, "  ");
    assert_eq!(message(&o), "Current settings: number: true, relativenumber: false, cursorline: false, tabstop: 4, expandtab: false");
    assert!(o.applied.is_none());
}

#[test]
fn set_all_lists_every_setting() {
    let h = KeyHandler::new(None);
    let mut c = EditorConfig::default();
    let o = h.handle_set_command(&mut c, "all");
    let m = message(&o);
    assert!(m.starts_with("All settings: number=true | relativenumber=false | cursorline=false | tabstop=4"));
    assert!(m.ends_with("colorscheme=default | syntax=true"));
    assert_eq!(m.matches(" | ").count(), 23);
}

#[test]
fn set_query_reports_a_value() {
    let h = KeyHandler::new(None);
    let mut c = EditorConfig::default();
    assert_eq!(message(&h.handle_set_command(&mut c, "ts?")), "ts: 4");
    assert_eq!(message(&h.handle_set_command(&mut c, "bogus?")), "Unknown setting: bogus");
}

#[test]
fn set_flags_on_and_off() {
    let h = KeyHandler::new(None);
    let mut c = EditorConfig::default();
    let o = h.handle_set_command(&mut c, "rnu");
    assert!(c.display.show_relative_numbers);
    assert_eq!(message(&o), "Hybrid line numbers enabled");
    assert_eq!(o.applied, Some(("relativenumber".to_string(), "true".to_string())));
    let o = h.handle_set_command(&mut c, "nonu");
    assert!(!c.display.show_line_numbers);
    assert_eq!(message(&o), "Relative line numbers enabled");
    let o = h.handle_set_command(&mut c, "ic");
    assert_eq!(message(&o), "Ignore case enabled");
    let o = h.handle_set_command(&mut c, "noic");
    assert!(o.message.is_none());
    assert!(!c.behavior.ignore_case);
    let o = h.handle_set_command(&mut c, "cul");
    assert_eq!(message(&o), "Cursor line highlighting enabled");
    assert_eq!(message(&h.handle_set_command(&mut c, "nofoo")), "Unknown option: nofoo");
    assert_eq!(message(&h.handle_set_command(&mut c, "foo")), "Unknown option: foo");
}

#[test]
fn set_values() {
    let h = KeyHandler::new(None);
    let mut c = EditorConfig::default();
    let o = h.handle_set_command(&mut c, "tabstop=8");
    assert_eq!(c.behavior.tab_width, 8);
    assert_eq!(message(&o), "Tab width set to 8");
    assert_eq!(o.applied, Some(("tabstop".to_string(), "8".to_string())));
    let o = h.handle_set_command(&mut c, "ts=x");
    assert_eq!(message(&o), "Invalid tab width value");
    assert_eq!(c.behavior.tab_width, 8);
    let o = h.handle_set_command(&mut c, "tm=50");
    assert_eq!(message(&o), "Command timeout set to 50 ms");
    let o = h.handle_set_command(&mut c, "colo=nord");
    assert_eq!(c.display.color_scheme, "nord");
    assert_eq!(message(&o), "Color scheme set to nord");
    assert_eq!(message(&h.handle_set_command(&mut c, "number=1")), "Unknown setting: number");
}

fn buffer(lines: &[&str]) -> Buffer {
    let mut b = Buffer::new(1, 10);
    b.lines = lines.iter().map(|l| l.to_string()).collect();
    b
}

#[test]
fn cursor_moves_stay_in_the_text() {
    let h = KeyHandler::new(None);
    let mut b = buffer(&["hello", "hi"]);
    b.cursor.col = 4;
    h.action_cursor_down(&mut b);
    assert_eq!((b.cursor.row, b.cursor.col), (1, 2));
    h.action_cursor_down(&mut b);
    assert_eq!((b.cursor.row, b.cursor.col), (1, 2));
    h.action_cursor_right(&mut b);
    assert_eq!(b.cursor.col, 2);
    h.action_cursor_up(&mut b);
    assert_eq!((b.cursor.row, b.cursor.col), (0, 2));
    h.action_line_end(&mut b);
    assert_eq!(b.cursor.col, 5);
    h.action_cursor_left(&mut b);
    assert_eq!(b.cursor.col, 4);
    h.action_buffer_end(&mut b);
    assert_eq!((b.cursor.row, b.cursor.col), (1, 2));
    h.action_buffer_start(&mut b);
    assert_eq!((b.cursor.row, b.cursor.col), (0, 0));
    assert!(!b.modified);
}

#[test]
fn insert_mode_edits() {
    let h = KeyHandler::new(None);
    let mut b = buffer(&["one two  ", "x"]);
    b.cursor.col = 9;
    h.action_delete_word_backward(&mut b);
    assert_eq!(b.lines[0], "one ");
    assert_eq!(b.cursor.col, 4);
    b.cursor.col = 0;
    h.action_delete_char_forward(&mut b);
    assert_eq!(b.lines[0], "ne ");
    h.action_replace_char(&mut b, 'N');
    assert_eq!(b.lines[0], "Ne ");
    assert_eq!(b.cursor.col, 1);
    h.action_insert_line_below(&mut b);
    assert_eq!(b.lines, vec!["Ne ", "", "x"]);
    assert_eq!((b.cursor.row, b.cursor.col), (1, 0));
    h.action_insert_line_above(&mut b);
    assert_eq!(b.lines, vec!["Ne ", "", "", "x"]);
    assert!(b.modified);
}

#[test]
fn insert_entry_actions_place_the_cursor() {
    let h = KeyHandler::new(None);
    let mut b = buffer(&["hello", "x"]);
    b.cursor.col = 2;
    assert_eq!(h.action_insert_after(&mut b), Mode::Insert);
    assert_eq!(b.cursor.col, 3);
    assert_eq!(h.action_insert_line_end(&mut b), Mode::Insert);
    assert_eq!(b.cursor.col, 5);
    assert_eq!(h.action_insert_after(&mut b), Mode::Insert);
    assert_eq!(b.cursor.col, 5);
    assert_eq!(h.action_insert_line_start(&mut b), Mode::Insert);
    assert_eq!(b.cursor.col, 0);
    assert!(!b.modified);
}

#[test]
fn typed_characters_go_into_the_buffer() {
    let h = KeyHandler::new(None);
    let mut b = buffer(&["ac"]);
    b.cursor.col = 1;
    h.action_insert_char(&mut b, key(KeyCode::Char('b')));
    assert_eq!(b.lines[0], "abc");
    assert_eq!(b.cursor.col, 2);
    h.action_insert_char(&mut b, key(KeyCode::Enter));
    assert_eq!(b.lines, vec!["abc".to_string()]);
}

#[test]
fn command_line_editing() {
    let h = KeyHandler::new(None);
    let mut line = ":".to_string();
    h.action_append_command(&mut line, key(KeyCode::Char('w')));
    h.action_append_command(&mut line, key(KeyCode::Char('q')));
    h.action_append_command(&mut line, key(KeyCode::Left));
    assert_eq!(line, ":wq");
    h.action_delete_command_char(&mut line);
    assert_eq!(line, ":w");
    h.action_delete_command_char(&mut line);
    h.action_delete_command_char(&mut line);
    assert_eq!(line, ":");
    let mut wide = "é".to_string();
    h.action_delete_command_char(&mut wide);
    assert_eq!(wide, "");
}

#[test]
fn search_line_editing_and_execution() {
    let h = KeyHandler::new(None);
    let mut line = "/".to_string();
    h.action_append_search(&mut line, key(KeyCode::Char('f')));
    h.action_append_search(&mut line, key(KeyCode::Char('o')));
    h.action_delete_search_char(&mut line);
    h.action_append_search(&mut line, key(KeyCode::Char('n')));
    assert_eq!(line, "/fn");
    let (term, mode) = h.action_execute_search(&mut line);
    assert_eq!(term.as_deref(), Some("fn"));
    assert_eq!(mode, Mode::Normal);
    assert_eq!(line, "");
    let mut empty = "/".to_string();
    let (term, _) = h.action_execute_search(&mut empty);
    assert_eq!(term, None);
}
