use oxidized::event::{BufferEvent, ConfigEvent, EditorEvent, EventResult, InputEvent, SearchEvent, SystemEvent, UIEvent, WindowEvent};
use oxidized::event_handlers::{
    absorb_result, buffer_event_result, command_reply, config_event_result, handler_kind, input_event_decision,
    parse_editor_command, reply_events, CommandOutcome, EditorCommand, EditorUpdate, EventHistory, HandlerKind,
    InputDecision, SystemEventHandler, UIEventHandler,
};
use oxidized::input_events::{
    handle_command_mode_key, handle_insert_mode_key, handle_normal_mode_key, handle_search_mode_key,
    handle_visual_mode_key, process_key_event,
};
use oxidized::keymap::{KeyCode, KeyInput};
use oxidized::mode::Mode;
use std::path::PathBuf;

fn key(c: char) -> KeyInput {
    KeyInput { code: KeyCode::Char(c), ctrl: false, alt: false, shift: false }
}

fn code(code: KeyCode) -> KeyInput {
    KeyInput { code, ctrl: false, alt: false, shift: false }
}

fn mode_change(e: &EditorEvent) -> Option<(Mode, Mode)> {
    match e {
        EditorEvent::Input(InputEvent::ModeChange { from, to }) => Some((*from, *to)),
        _ => None,
    }
}

#[test]
fn normal_mode_keys_become_events() {
    assert_eq!(mode_change(&handle_normal_mode_key(None, key('i'))[0]), Some((Mode::Normal, Mode::Insert)));
    assert_eq!(mode_change(&handle_normal_mode_key(None, key(':'))[0]), Some((Mode::Normal, Mode::Command)));
    assert_eq!(mode_change(&handle_normal_mode_key(None, key('/'))[0]), Some((Mode::Normal, Mode::Search)));
    assert_eq!(mode_change(&handle_normal_mode_key(None, key('v'))[0]), Some((Mode::Normal, Mode::Visual)));
    match &handle_normal_mode_key(Some((3, 4)), key('j'))[0] {
        EditorEvent::Buffer(BufferEvent::CursorMoved { old_pos, new_pos, .. }) => {
            assert_eq!((*old_pos, *new_pos), ((3, 4), (4, 4)))
        }
        _ => panic!("j moves the cursor"),
    }
    match &handle_normal_mode_key(Some((0, 2)), key('k'))[0] {
        EditorEvent::Buffer(BufferEvent::CursorMoved { new_pos, .. }) => assert_eq!(*new_pos, (0, 2)),
        _ => panic!("k moves the cursor"),
    }
    assert!(handle_normal_mode_key(None, key('j')).is_empty());
    let ctrl_s = KeyInput { code: KeyCode::Char('s'), ctrl: true, alt: false, shift: false };
    assert!(matches!(handle_normal_mode_key(None, ctrl_s)[0], EditorEvent::Window(WindowEvent::Split { .. })));
    assert!(matches!(handle_normal_mode_key(None, key('s'))[0], EditorEvent::Buffer(BufferEvent::Modified { buffer_id: 0 })));
    assert!(handle_normal_mode_key(Some((0, 0)), key('x')).is_empty());
    let ctrl_i = KeyInput { code: KeyCode::Char('i'), ctrl: true, alt: false, shift: false };
    assert!(handle_normal_mode_key(None, ctrl_i).is_empty());
}

#[test]
fn insert_command_visual_and_search_keys() {
    match &handle_insert_mode_key(Some((1, 2)), key('z'))[0] {
        EditorEvent::Input(InputEvent::TextInsert { text, position }) => {
            assert_eq!(text, "z");
            assert_eq!(*position, (1, 2));
        }
        _ => panic!("a character is inserted"),
    }
    match &handle_insert_mode_key(Some((0, 0)), code(KeyCode::Enter))[0] {
        EditorEvent::Input(InputEvent::TextInsert { text, .. }) => assert_eq!(text, "\n"),
        _ => panic!("Enter inserts a line break"),
    }
    assert_eq!(mode_change(&handle_insert_mode_key(None, code(KeyCode::Esc))[0]), Some((Mode::Insert, Mode::Normal)));
    let run = handle_command_mode_key(":wq", code(KeyCode::Enter));
    assert_eq!(run.len(), 2);
    assert!(matches!(&run[0], EditorEvent::Input(InputEvent::Command(c)) if c == ":wq"));
    assert_eq!(mode_change(&run[1]), Some((Mode::Command, Mode::Normal)));
    assert!(matches!(&handle_command_mode_key(":w", key('q'))[0], EditorEvent::UI(UIEvent::CommandLineUpdated(t)) if t == ":wq"));
    assert_eq!(mode_change(&handle_visual_mode_key(code(KeyCode::Esc))[0]), Some((Mode::Visual, Mode::Normal)));
    assert!(handle_visual_mode_key(key('y')).is_empty());
    let esc = handle_search_mode_key(code(KeyCode::Esc));
    assert!(matches!(esc[0], EditorEvent::Search(SearchEvent::Cancelled)));
    assert!(matches!(&handle_search_mode_key(code(KeyCode::Enter))[0], EditorEvent::Search(SearchEvent::Started { pattern, is_regex: false }) if pattern.is_empty()));
    assert!(process_key_event(Mode::Replace, None, "", key('a')).is_empty());
    assert_eq!(process_key_event(Mode::Normal, None, "", key('i')).len(), 1);
}

#[test]
fn events_go_to_their_handlers() {
    assert_eq!(handler_kind(&EditorEvent::UI(UIEvent::RedrawRequest)), Some(HandlerKind::UI));
    assert_eq!(handler_kind(&EditorEvent::System(SystemEvent::Quit)), Some(HandlerKind::System));
    let mut generated = Vec::new();
    assert_eq!(absorb_result(&mut generated, EventResult::NotHandled), (true, None));
    assert_eq!(absorb_result(&mut generated, EventResult::Error("bad".to_string())), (true, Some("bad".to_string())));
    assert_eq!(absorb_result(&mut generated, EventResult::Events(vec![EditorEvent::UI(UIEvent::RedrawRequest)])), (true, None));
    assert_eq!(generated.len(), 1);
    assert_eq!(absorb_result(&mut generated, EventResult::Handled), (false, None));
}

#[test]
fn handler_results() {
    let changed = EditorEvent::Buffer(BufferEvent::ContentChanged {
        buffer_id: 7,
        line: 0,
        col: 0,
        old_text: String::new(),
        new_text: "x".to_string(),
    });
    match buffer_event_result(&changed) {
        EventResult::Events(v) => {
            assert!(matches!(v[0], EditorEvent::Buffer(BufferEvent::Modified { buffer_id: 7 })));
            assert!(matches!(v[1], EditorEvent::UI(UIEvent::RedrawRequest)));
        }
        _ => panic!("a change marks the buffer modified"),
    }
    assert!(matches!(buffer_event_result(&EditorEvent::Buffer(BufferEvent::Modified { buffer_id: 1 })), EventResult::Handled));
    assert!(matches!(buffer_event_result(&EditorEvent::UI(UIEvent::RedrawRequest)), EventResult::NotHandled));
    match config_event_result(&EditorEvent::Config(ConfigEvent::ThemeConfigChanged)) {
        EventResult::Events(v) => assert!(matches!(&v[1], EditorEvent::UI(UIEvent::StatusMessage(m)) if m == "Theme reloaded")),
        _ => panic!("a theme reload is reported"),
    }
    let mut ui = UIEventHandler::new();
    let (r, u) = ui.handle_event(&EditorEvent::UI(UIEvent::StatusMessage("hi".to_string())));
    assert!(matches!(r, EventResult::Handled));
    assert!(matches!(u, Some(EditorUpdate::SetStatusMessage(t)) if t == "hi"));
    assert!(ui.needs_redraw);
    let mut sys = SystemEventHandler::new();
    match sys.handle_event(&EditorEvent::System(SystemEvent::FileChanged(PathBuf::from("a.rs")))) {
        EventResult::Events(v) => assert!(matches!(&v[0], EditorEvent::UI(UIEvent::StatusMessage(m)) if m == "File a.rs changed externally")),
        _ => panic!("an outside change is reported"),
    }
    assert!(!sys.should_quit);
    assert!(matches!(sys.handle_event(&EditorEvent::System(SystemEvent::Quit)), EventResult::Handled));
    assert!(sys.should_quit);
}

#[test]
fn editor_commands_and_their_reports() {
    assert_eq!(parse_editor_command("::q"), EditorCommand::Quit);
    assert_eq!(parse_editor_command(":quit!"), EditorCommand::ForceQuit);
    assert_eq!(parse_editor_command("write"), EditorCommand::Write);
    assert_eq!(parse_editor_command(":x"), EditorCommand::WriteQuit);
    assert_eq!(parse_editor_command(":e  notes.txt "), EditorCommand::Edit("notes.txt".to_string()));
    assert_eq!(parse_editor_command(":set nu"), EditorCommand::Unknown("set nu".to_string()));
    assert_eq!(command_reply(&CommandOutcome::Saved), Ok("File saved".to_string()));
    assert_eq!(command_reply(&CommandOutcome::SaveFailed("denied".to_string())), Err("Error saving: denied".to_string()));
    assert_eq!(command_reply(&CommandOutcome::Unknown("zz".to_string())), Err("Unknown command: zz".to_string()));
    let v = reply_events(&Err("Unknown command: zz".to_string()));
    assert!(matches!(&v[0], EditorEvent::UI(UIEvent::StatusMessage(m)) if m == "Error: Unknown command: zz"));
    match input_event_decision(&EditorEvent::Input(InputEvent::Command(":w".to_string()))) {
        InputDecision::Run(c) => assert_eq!(c, EditorCommand::Write),
        _ => panic!("a command is run"),
    }
    match input_event_decision(&EditorEvent::Input(InputEvent::ModeChange { from: Mode::Normal, to: Mode::Insert })) {
        InputDecision::Result(EventResult::Events(_), Some(EditorUpdate::SetMode(m))) => assert_eq!(m, Mode::Insert),
        _ => panic!("a mode change sets the mode"),
    }
}

#[test]
fn history_keeps_the_latest_events() {
    let mut h = EventHistory::new();
    h.max_history = 2;
    h.record(1, EditorEvent::UI(UIEvent::RedrawRequest));
    h.record(2, EditorEvent::System(SystemEvent::Quit));
    h.record(3, EditorEvent::UI(UIEvent::RedrawRequest));
    assert_eq!(h.entries.len(), 2);
    assert_eq!(h.entries[0].0, 2);
    assert_eq!(h.get_history(1).len(), 1);
    assert_eq!(h.get_history(1)[0].0, 3);
    assert_eq!(h.get_history(10).len(), 2);
}
