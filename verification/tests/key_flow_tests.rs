use oxidized::commands::CommandStep;
use oxidized::config::EditorConfig;
use oxidized::editor::Editor;
use oxidized::keymap::{EditorAction, KeyCode, KeyHandler, KeyInput, KeymapConfig};
use oxidized::mode::Mode;

fn pair(k: &str, a: &str) -> (String, String) {
    (k.to_string(), a.to_string())
}

/// The keymaps the README documents for normal mode, with the insert, command and
/// search mode bindings that typing needs.
fn documented_keymaps() -> KeymapConfig {
    let mut c = KeymapConfig::create_minimal_fallback();
    c.normal_mode = vec![
        pair("h", "cursor_left"),
        pair("j", "cursor_down"),
        pair("k", "cursor_up"),
        pair("l", "cursor_right"),
        pair("w", "word_forward"),
        pair("b", "word_backward"),
        pair("e", "word_end"),
        pair("0", "line_start"),
        pair("^", "line_first_char"),
        pair("$", "line_end"),
        pair("gg", "buffer_start"),
        pair("G", "buffer_end"),
        pair("i", "insert_mode"),
        pair("a", "insert_after"),
        pair("o", "insert_line_below"),
        pair("v", "visual_mode"),
        pair("x", "delete_char_at_cursor"),
        pair("dd", "delete_line"),
        pair("yy", "yank_line"),
        pair("p", "put_after"),
        pair("P", "put_before"),
        pair("/", "search_forward"),
        pair("n", "search_next"),
        pair("N", "search_previous"),
        pair(":", "command_mode"),
        pair("u", "undo"),
        pair("Ctrl+r", "redo"),
    ];
    c.insert_mode = vec![
        pair("Char", "insert_char"),
        pair("Escape", "normal_mode"),
        pair("Enter", "new_line"),
        pair("Backspace", "delete_char"),
    ];
    c.command_mode = vec![
        pair("Escape", "normal_mode"),
        pair("Enter", "execute_command"),
        pair("Char", "append_command"),
        pair("Backspace", "delete_command_char"),
    ];
    c.search_mode = vec![
        pair("Escape", "normal_mode"),
        pair("Enter", "execute_search"),
        pair("Char", "append_search"),
        pair("Backspace", "delete_search_char"),
    ];
    c.visual_mode = vec![pair("Escape", "normal_mode")];
    c
}

fn create_test_editor() -> Editor {
    Editor::new(EditorConfig::default())
}

fn create_key_event(code: KeyCode) -> KeyInput {
    KeyInput { code, ctrl: false, alt: false, shift: false }
}

/// A key press as the editor's loop handles it: the key handler picks the action and
/// the action runs on the editor. Keys come 10 ms apart.
struct Keys {
    handler: KeyHandler,
    now: u64,
}

impl Keys {
    fn new() -> Self {
        Keys { handler: KeyHandler::new(Some(documented_keymaps())), now: 0 }
    }

    fn handle_key(&mut self, editor: &mut Editor, key: KeyInput) -> CommandStep {
        self.now += 10;
        self.handler.handle_key_on(editor, key, self.now)
    }

    fn typed(&mut self, editor: &mut Editor, text: &str) {
        for c in text.chars() {
            self.handle_key(editor, create_key_event(KeyCode::Char(c)));
        }
    }
}

#[test]
fn test_normal_mode_navigation() {
    let mut editor = create_test_editor();
    let mut handler = Keys::new();

    // Add some content to test navigation
    if let Some(i) = editor.current_index() {
        let buffer = &mut editor.buffers[i];
        buffer.lines = vec!["first line".to_string(), "second line".to_string(), "third line".to_string()];
        buffer.cursor.row = 1;
        buffer.cursor.col = 5;
    }

    handler.handle_key(&mut editor, create_key_event(KeyCode::Char('j')));
    if let Some(buffer) = editor.current_buffer() {
        assert_eq!(buffer.cursor.row, 2);
    }
    handler.handle_key(&mut editor, create_key_event(KeyCode::Char('k')));
    if let Some(buffer) = editor.current_buffer() {
        assert_eq!(buffer.cursor.row, 1);
    }
    handler.handle_key(&mut editor, create_key_event(KeyCode::Char('l')));
    if let Some(buffer) = editor.current_buffer() {
        assert_eq!(buffer.cursor.col, 6);
    }
    handler.handle_key(&mut editor, create_key_event(KeyCode::Char('h')));
    if let Some(buffer) = editor.current_buffer() {
        assert_eq!(buffer.cursor.col, 5);
    }
}

#[test]
fn test_mode_transitions() {
    let mut editor = create_test_editor();
    let mut handler = Keys::new();

    assert_eq!(editor.mode(), Mode::Normal);
    handler.handle_key(&mut editor, create_key_event(KeyCode::Char('i')));
    assert_eq!(editor.mode(), Mode::Insert);
    handler.handle_key(&mut editor, create_key_event(KeyCode::Esc));
    assert_eq!(editor.mode(), Mode::Normal);
    handler.handle_key(&mut editor, create_key_event(KeyCode::Char(':')));
    assert_eq!(editor.mode(), Mode::Command);
    assert_eq!(editor.command_line(), ":");
    handler.handle_key(&mut editor, create_key_event(KeyCode::Esc));
    assert_eq!(editor.mode(), Mode::Normal);
    assert_eq!(editor.command_line(), "");
}

#[test]
fn test_insert_mode_typing() {
    let mut editor = create_test_editor();
    let mut handler = Keys::new();

    handler.handle_key(&mut editor, create_key_event(KeyCode::Char('i')));
    assert_eq!(editor.mode(), Mode::Insert);
    handler.typed(&mut editor, "hello");
    if let Some(buffer) = editor.current_buffer() {
        assert_eq!(buffer.lines[0], "hello");
        assert_eq!(buffer.cursor.col, 5);
        assert!(buffer.modified);
    }
}

#[test]
fn test_command_mode_input() {
    let mut editor = create_test_editor();
    let mut handler = Keys::new();

    handler.handle_key(&mut editor, create_key_event(KeyCode::Char(':')));
    assert_eq!(editor.mode(), Mode::Command);
    handler.handle_key(&mut editor, create_key_event(KeyCode::Char('q')));
    assert_eq!(editor.command_line(), ":q");
    handler.typed(&mut editor, "uit");
    assert_eq!(editor.command_line(), ":quit");
    handler.handle_key(&mut editor, create_key_event(KeyCode::Backspace));
    assert_eq!(editor.command_line(), ":qui");
}

#[test]
fn test_search_mode() {
    let mut editor = create_test_editor();
    let mut handler = Keys::new();

    if let Some(i) = editor.current_index() {
        editor.buffers[i].lines =
            vec!["hello world".to_string(), "test line".to_string(), "world peace".to_string()];
    }

    handler.handle_key(&mut editor, create_key_event(KeyCode::Char('/')));
    assert_eq!(editor.mode(), Mode::Search);
    assert_eq!(editor.command_line(), "/");
    handler.typed(&mut editor, "world");
    assert_eq!(editor.command_line(), "/world");
    handler.handle_key(&mut editor, create_key_event(KeyCode::Enter));
    assert_eq!(editor.mode(), Mode::Normal);
    if let Some(buffer) = editor.current_buffer() {
        assert_eq!(buffer.cursor.row, 0);
        assert_eq!(buffer.cursor.col, 6);
    }
}

#[test]
fn test_visual_mode() {
    let mut editor = create_test_editor();
    let mut handler = Keys::new();

    handler.handle_key(&mut editor, create_key_event(KeyCode::Char('v')));
    assert_eq!(editor.mode(), Mode::Visual);
    handler.handle_key(&mut editor, create_key_event(KeyCode::Esc));
    assert_eq!(editor.mode(), Mode::Normal);
}

#[test]
fn test_undo_redo() {
    let mut editor = create_test_editor();
    let mut handler = Keys::new();

    if let Some(i) = editor.current_index() {
        editor.buffers[i].lines[0] = "original text".to_string();
        editor.buffers[i].modified = true;
    }
    handler.handle_key(&mut editor, create_key_event(KeyCode::Char('i')));
    handler.handle_key(&mut editor, create_key_event(KeyCode::Char('X')));
    handler.handle_key(&mut editor, create_key_event(KeyCode::Esc));
    assert_eq!(editor.mode(), Mode::Normal);
    handler.handle_key(&mut editor, create_key_event(KeyCode::Char('u')));
}

#[test]
fn keymap_test_word_movement() {
    let mut editor = create_test_editor();
    let mut handler = Keys::new();

    if let Some(i) = editor.current_index() {
        editor.buffers[i].lines = vec!["hello world test line".to_string()];
        editor.buffers[i].cursor.row = 0;
        editor.buffers[i].cursor.col = 0;
    }
    handler.handle_key(&mut editor, create_key_event(KeyCode::Char('w')));
    if let Some(buffer) = editor.current_buffer() {
        assert_eq!(buffer.cursor.col, 6);
    }
    handler.handle_key(&mut editor, create_key_event(KeyCode::Char('w')));
    if let Some(buffer) = editor.current_buffer() {
        assert_eq!(buffer.cursor.col, 12);
    }
    handler.handle_key(&mut editor, create_key_event(KeyCode::Char('b')));
    if let Some(buffer) = editor.current_buffer() {
        assert_eq!(buffer.cursor.col, 6);
    }
}

#[test]
fn test_invalid_key_handling() {
    let mut editor = create_test_editor();
    let mut handler = Keys::new();

    let step = handler.handle_key(&mut editor, create_key_event(KeyCode::F(12)));
    assert_eq!(step, CommandStep::Done);
    assert_eq!(editor.mode(), Mode::Normal);
}

#[test]
fn test_keymap_fallback() {
    let fallback_config = KeymapConfig::create_minimal_fallback();
    let has = |m: &Vec<(String, String)>, k: &str| m.iter().any(|(key, _)| key == k);

    assert!(has(&fallback_config.normal_mode, ":"));
    assert!(has(&fallback_config.command_mode, "Escape"));
    assert!(has(&fallback_config.command_mode, "Enter"));
    assert!(fallback_config.insert_mode.is_empty());
}

/// The same flows on an editor with an open buffer, where every key takes effect.
fn editor_with(lines: &[&str]) -> Editor {
    let mut editor = create_test_editor();
    editor.create_buffer(None).unwrap();
    let i = editor.current_index().unwrap();
    editor.buffers[i].lines = lines.iter().map(|l| l.to_string()).collect();
    editor
}

#[test]
fn navigation_and_typing_change_the_buffer() {
    let mut editor = editor_with(&["first line", "second line", "third line"]);
    let mut keys = Keys::new();
    editor.buffers[0].cursor.row = 1;
    editor.buffers[0].cursor.col = 5;
    keys.typed(&mut editor, "jk");
    assert_eq!(editor.buffers[0].cursor.row, 1);
    keys.typed(&mut editor, "l");
    assert_eq!(editor.buffers[0].cursor.col, 6);
    keys.typed(&mut editor, "gg");
    assert_eq!((editor.buffers[0].cursor.row, editor.buffers[0].cursor.col), (0, 0));
    keys.typed(&mut editor, "iab");
    assert_eq!(editor.mode(), Mode::Insert);
    assert_eq!(editor.buffers[0].lines[0], "abfirst line");
    assert!(editor.buffers[0].modified);
    keys.handle_key(&mut editor, create_key_event(KeyCode::Esc));
    keys.typed(&mut editor, "u");
    assert_eq!(editor.buffers[0].lines[0], "afirst line");
    keys.typed(&mut editor, "dd");
    assert_eq!(editor.buffers[0].lines, vec!["second line", "third line"]);
}

#[test]
fn yank_and_put_report_in_the_status() {
    let mut editor = editor_with(&["one", "two"]);
    let mut keys = Keys::new();
    keys.typed(&mut editor, "yy");
    assert_eq!(editor.status_message(), "Line yanked");
    keys.typed(&mut editor, "p");
    assert_eq!(editor.status_message(), "Text pasted after cursor");
    // a yanked line keeps its line break, and the put line holds it as well
    assert_eq!(editor.buffers[0].lines, vec!["one", "one\n", "two"]);
    keys.typed(&mut editor, "o");
    assert_eq!(editor.mode(), Mode::Insert);
    assert_eq!(editor.buffers[0].lines, vec!["one", "one\n", "", "two"]);
}

#[test]
fn search_from_the_keyboard_finds_the_word() {
    let mut editor = editor_with(&["hello world", "test line", "world peace"]);
    let mut keys = Keys::new();
    keys.typed(&mut editor, "/world");
    keys.handle_key(&mut editor, create_key_event(KeyCode::Enter));
    assert_eq!(editor.mode(), Mode::Normal);
    assert_eq!(editor.command_line(), "");
    assert_eq!((editor.buffers[0].cursor.row, editor.buffers[0].cursor.col), (0, 6));
    assert_eq!(editor.status_message(), "Found 2 matches");
    keys.typed(&mut editor, "n");
    assert_eq!((editor.buffers[0].cursor.row, editor.buffers[0].cursor.col), (2, 0));
}

#[test]
fn commands_from_the_keyboard_hand_back_their_step() {
    let mut editor = editor_with(&["text"]);
    let mut keys = Keys::new();
    keys.typed(&mut editor, ":w");
    let step = keys.handle_key(&mut editor, create_key_event(KeyCode::Enter));
    assert_eq!(step, CommandStep::Save { then_quit: false });
    assert_eq!(editor.mode(), Mode::Normal);
    keys.typed(&mut editor, ":q");
    keys.handle_key(&mut editor, create_key_event(KeyCode::Enter));
    assert!(editor.should_quit);
}

#[test]
fn actions_without_a_buffer_or_window() {
    let handler = KeyHandler::new(None);
    let mut editor = create_test_editor();
    let any = create_key_event(KeyCode::Char('z'));
    assert_eq!(handler.execute_action(&mut editor, EditorAction::SaveFile, any), CommandStep::Done);
    assert_eq!(handler.execute_action(&mut editor, EditorAction::SplitVertical, any), CommandStep::Window);
    assert_eq!(handler.execute_action(&mut editor, EditorAction::YankLine, any), CommandStep::Done);
    assert_eq!(editor.status_message(), "");
    handler.execute_action(&mut editor, EditorAction::DeleteSelection, any);
    assert_eq!(editor.status_message(), "Delete selection not implemented");
    handler.execute_action(&mut editor, EditorAction::InsertLineBelow, any);
    assert_eq!(editor.mode(), Mode::Insert);
}

#[test]
fn the_command_line_keeps_its_colon() {
    let handler = KeyHandler::new(None);
    let mut editor = create_test_editor();
    let any = create_key_event(KeyCode::Backspace);
    handler.execute_action(&mut editor, EditorAction::CommandMode, any);
    handler.execute_action(&mut editor, EditorAction::DeleteCommandChar, any);
    assert_eq!(editor.command_line(), ":");
    handler.execute_action(&mut editor, EditorAction::AppendCommand, any);
    assert_eq!(editor.command_line(), ":");
}

#[test]
fn scrolling_moves_the_view_and_the_cursor() {
    let handler = KeyHandler::new(None);
    let lines: Vec<String> = (0..50).map(|i| format!("line {}", i)).collect();
    let refs: Vec<&str> = lines.iter().map(|s| s.as_str()).collect();
    let mut editor = editor_with(&refs);
    let any = create_key_event(KeyCode::Char('f'));
    handler.execute_action(&mut editor, EditorAction::ScrollDownPage, any);
    assert_eq!(editor.viewport_top, 20);
    assert_eq!(editor.buffers[0].cursor.row, 20);
    handler.execute_action(&mut editor, EditorAction::ScrollUpHalfPage, any);
    assert_eq!(editor.viewport_top, 10);
    assert_eq!(editor.buffers[0].cursor.row, 10);
}
