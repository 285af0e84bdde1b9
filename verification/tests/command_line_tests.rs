use oxidized::commands::CommandStep;
use oxidized::config::EditorConfig;
use oxidized::editor::{Editor, SettingFollowUp};
use oxidized::keymap::{ExCommand, KeyHandler};
use oxidized::mode::Mode;
use std::path::PathBuf;

fn run(h: &KeyHandler, e: &mut Editor, line: &str) -> (ExCommand, CommandStep) {
    e.set_mode(Mode::Command);
    e.set_command_line(line.to_string());
    h.action_execute_command(e)
}

fn setup() -> (KeyHandler, Editor) {
    let mut e = Editor::new(EditorConfig::default());
    e.create_buffer(Some(Ok((PathBuf::from("a.rs"), "fn a() {}".to_string())))).unwrap();
    e.create_buffer(None).unwrap();
    (KeyHandler::new(None), e)
}

#[test]
fn commands_leave_command_mode() {
    let (h, mut e) = setup();
    let (cmd, step) = run(&h, &mut e, ":bn");
    assert_eq!(cmd, ExCommand::BufferNext);
    assert_eq!(step, CommandStep::Done);
    assert_eq!(e.mode, Mode::Normal);
    assert_eq!(e.command_line, "");
    assert_eq!(e.status_message, "Switched to next buffer");
    assert_eq!(e.current_buffer_id, Some(1));
    run(&h, &mut e, ":bp");
    assert_eq!(e.status_message, "Switched to previous buffer");
    assert_eq!(e.current_buffer_id, Some(2));
}

#[test]
fn writing_and_opening_are_handed_back() {
    let (h, mut e) = setup();
    assert_eq!(run(&h, &mut e, ":w").1, CommandStep::Save { then_quit: false });
    e.finish_save(Err("denied".to_string()), false);
    assert_eq!(e.status_message, "Error saving: denied");
    assert_eq!(run(&h, &mut e, ":wq").1, CommandStep::Save { then_quit: true });
    e.finish_save(Ok(()), true);
    assert_eq!(e.status_message, "File saved");
    assert!(e.should_quit);
    let (h, mut e) = setup();
    assert_eq!(run(&h, &mut e, ":e notes.md").1, CommandStep::Open("notes.md".to_string()));
    e.finish_open("notes.md", Ok("hello".to_string()));
    assert_eq!(e.status_message, "Opened 'notes.md' in buffer 3");
    e.finish_open("gone.md", Err(anyhow::Error::msg("No such file")));
    assert_eq!(e.status_message, "Error opening file: No such file");
}

#[test]
fn buffer_commands() {
    let (h, mut e) = setup();
    run(&h, &mut e, ":ls");
    assert_eq!(e.status_message, "Buffers: 1:a.rs [2:[No Name]]");
    run(&h, &mut e, ":b 1");
    assert_eq!(e.status_message, "Switched to buffer 1");
    run(&h, &mut e, ":b 7");
    assert_eq!(e.status_message, "No buffer with ID 7");
    run(&h, &mut e, ":b a.r");
    assert_eq!(e.status_message, "Switched to buffer 'a.r'");
    run(&h, &mut e, ":b zz");
    assert_eq!(e.status_message, "No buffer matching 'zz'");
    e.buffers[0].modified = true;
    run(&h, &mut e, ":bd");
    assert_eq!(e.status_message, "Buffer has unsaved changes! Use :bd! to force close");
    run(&h, &mut e, ":bd!");
    assert_eq!(e.status_message, "Buffer closed (discarded changes)");
    assert_eq!(e.current_buffer_id, Some(2));
    run(&h, &mut e, ":bd");
    assert_eq!(e.status_message, "Closed buffer, created new empty buffer");
    assert_eq!(e.current_buffer_id, Some(3));
}

#[test]
fn quitting_commands() {
    let (h, mut e) = setup();
    e.buffers[1].modified = true;
    run(&h, &mut e, ":q");
    assert!(!e.should_quit);
    assert_eq!(e.status_message, "Unsaved changes! Use :q! to force quit");
    run(&h, &mut e, "::q!");
    assert!(e.should_quit);
}

#[test]
fn display_and_set_commands() {
    let (h, mut e) = setup();
    assert_eq!(run(&h, &mut e, ":set nu rnu").1, CommandStep::SaveConfig);
    assert_eq!(e.status_message, "Hybrid line numbers enabled");
    assert!(e.show_relative_numbers);
    assert_eq!(run(&h, &mut e, ":set nocul").1, CommandStep::SaveConfig);
    assert!(!e.show_cursor_line);
    let (_, step) = run(&h, &mut e, ":set ignorecase");
    assert_eq!(step, CommandStep::FollowUp(SettingFollowUp::Nothing));
    assert!(e.config.behavior.ignore_case);
    assert!(!e.search_engine.case_sensitive);
    run(&h, &mut e, ":set tabstop=8");
    assert_eq!(e.config.behavior.tab_width, 8);
    assert_eq!(run(&h, &mut e, ":split").1, CommandStep::Window);
    run(&h, &mut e, ":frobnicate");
    assert_eq!(e.status_message, "Unknown command: frobnicate");
}
