use oxidized::keymap::{KeyCode, KeyInput};
use oxidized::macros::{Macro, MacroError, MacroRecorder};

fn key(c: char) -> KeyInput {
    KeyInput { code: KeyCode::Char(c), ctrl: false, alt: false, shift: false }
}

fn ctrl(c: char) -> KeyInput {
    KeyInput { code: KeyCode::Char(c), ctrl: true, alt: false, shift: false }
}

#[test]
fn recorded_keys_play_back_without_the_stop_key() {
    let mut r = MacroRecorder::new();
    assert_eq!(r.start_recording('a'), Ok(()));
    assert!(r.is_recording());
    assert_eq!(r.recording_register(), Some('a'));
    r.record_event(key('d'));
    r.record_event(key('w'));
    r.record_event(ctrl('q'));
    r.record_event(key('q'));
    assert_eq!(r.get_status(), "Recording macro 'a' (3 events)");
    assert_eq!(r.stop_recording(), Ok('a'));
    assert!(!r.is_recording());
    assert_eq!(r.get_status(), "Not recording macro");
    assert!(r.has_macro('a'));
    assert_eq!(r.get_macro('a').unwrap().len(), 3);
    let keys = r.play_macro('a').unwrap();
    assert_eq!(keys, vec![key('d'), key('w'), ctrl('q')]);
    assert_eq!(r.get_last_played_register(), Some('a'));
}

#[test]
fn a_macro_that_plays_during_playback_gives_no_keys() {
    let mut r = MacroRecorder::new();
    r.start_recording('b').unwrap();
    r.record_event(key('x'));
    r.stop_recording().unwrap();
    assert_eq!(r.play_macro('b').unwrap().len(), 1);
    assert_eq!(r.play_macro('b').unwrap().len(), 0);
    r.finish_playback();
    assert_eq!(r.play_last_macro().unwrap(), vec![key('x')]);
}

#[test]
fn recording_errors() {
    let mut r = MacroRecorder::new();
    assert_eq!(r.start_recording('%'), Err(MacroError::InvalidRegister('%')));
    assert_eq!(r.stop_recording(), Err(MacroError::NotRecording));
    r.start_recording('1').unwrap();
    assert_eq!(r.start_recording('2'), Err(MacroError::AlreadyRecording));
    assert_eq!(r.stop_recording(), Ok('1'));
    assert!(r.get_macro('1').unwrap().is_empty());
}

#[test]
fn playback_errors() {
    let mut r = MacroRecorder::default();
    assert_eq!(r.play_macro('!'), Err(MacroError::InvalidRegister('!')));
    assert_eq!(r.play_macro('z'), Err(MacroError::MacroNotFound('z')));
    match r.play_last_macro() {
        Err(e) => assert_eq!(e.message(), "Macro playback failed: No previous macro to repeat"),
        Ok(_) => panic!("no macro was played"),
    }
}

#[test]
fn rerecording_a_register_replaces_its_macro() {
    let mut r = MacroRecorder::new();
    r.start_recording('a').unwrap();
    r.record_event(key('x'));
    r.stop_recording().unwrap();
    r.start_recording('a').unwrap();
    r.record_event(key('y'));
    r.record_event(key('z'));
    r.stop_recording().unwrap();
    assert_eq!(r.list_macros().len(), 1);
    assert_eq!(r.play_macro('a').unwrap(), vec![key('y'), key('z')]);
}

#[test]
fn macros_list_by_register_and_clear() {
    let mut r = MacroRecorder::new();
    for c in ['z', 'B', '3', 'a'] {
        r.start_recording(c).unwrap();
        r.stop_recording().unwrap();
    }
    let names: Vec<char> = r.list_macros().iter().map(|(c, _)| *c).collect();
    assert_eq!(names, vec!['3', 'B', 'a', 'z']);
    assert!(r.clear_macro('B'));
    assert!(!r.clear_macro('B'));
    assert!(!r.has_macro('B'));
    assert!(r.has_macro('z'));
    r.clear_all_macros();
    assert!(r.list_macros().is_empty());
}

#[test]
fn a_new_macro_is_named_after_its_register() {
    let mut m = Macro::new('k');
    assert_eq!(m.description, "Macro k");
    assert!(m.is_empty());
    m.add_event(key('q'));
    assert_eq!(m.len(), 0);
    m.add_event(key('j'));
    assert_eq!(m.len(), 1);
}
