//! The event-driven input handler: turns a key press in a mode into the editor events
//! it stands for.
use crate::event::{BufferEvent, EditorEvent, InputEvent, SearchEvent, SplitDirection, UIEvent, WindowEvent};
use crate::keymap::{KeyCode, KeyInput};
use crate::mode::Mode;
use crate::text::{owned, push_char};
use vstd::prelude::*;

verus! {

/// A key pressed with no modifier.
pub open spec fn plain(key: KeyInput) -> bool {
    !key.ctrl && !key.alt && !key.shift
}

/// A key pressed with Ctrl alone.
pub open spec fn ctrl_only(key: KeyInput) -> bool {
    key.ctrl && !key.alt && !key.shift
}

pub open spec fn is_mode_change(e: EditorEvent, from: Mode, to: Mode) -> bool {
    e matches EditorEvent::Input(InputEvent::ModeChange { from: f, to: t }) && f == from && t == to
}

pub open spec fn is_cursor_moved(e: EditorEvent, old: (usize, usize), new: (usize, usize)) -> bool {
    e matches EditorEvent::Buffer(BufferEvent::CursorMoved { buffer_id, old_pos, new_pos }) && buffer_id == 0
        && old_pos == old && new_pos == new
}

pub open spec fn is_text_insert(e: EditorEvent, text: Seq<char>, pos: (usize, usize)) -> bool {
    e matches EditorEvent::Input(InputEvent::TextInsert { text: t, position }) && t@ == text && position == pos
}

pub open spec fn is_command(e: EditorEvent, text: Seq<char>) -> bool {
    e matches EditorEvent::Input(InputEvent::Command(t)) && t@ == text
}

pub open spec fn is_command_line_update(e: EditorEvent, text: Seq<char>) -> bool {
    e matches EditorEvent::UI(UIEvent::CommandLineUpdated(t)) && t@ == text
}

/// The mode that a plain key switches to from normal mode, if it is one of `i : / v`.
pub open spec fn normal_mode_switch(key: KeyInput) -> Option<Mode> {
    if !plain(key) {
        None
    } else {
        match key.code {
            KeyCode::Char('i') => Some(Mode::Insert),
            KeyCode::Char(':') => Some(Mode::Command),
            KeyCode::Char('/') => Some(Mode::Search),
            KeyCode::Char('v') => Some(Mode::Visual),
            _ => None,
        }
    }
}

/// What a key gives in normal mode.
pub open spec fn normal_key_events(cursor: Option<(usize, usize)>, key: KeyInput, r: Seq<EditorEvent>) -> bool {
    &&& normal_mode_switch(key) matches Some(to) ==> r.len() == 1 && is_mode_change(r[0], Mode::Normal, to)
    &&& plain(key) && key.code == KeyCode::Char('j') ==> match cursor {
        Some(p) => r.len() == 1 && is_cursor_moved(r[0], p, ((p.0 + 1) as usize, p.1)),
        None => r.len() == 0,
    }
    &&& plain(key) && key.code == KeyCode::Char('k') ==> match cursor {
        Some(p) => r.len() == 1 && is_cursor_moved(r[0], p, (if p.0 > 0 { (p.0 - 1) as usize } else { 0 }, p.1)),
        None => r.len() == 0,
    }
    &&& ctrl_only(key) && key.code == KeyCode::Char('s') ==> r.len() == 1 && (r[0] matches EditorEvent::Window(
        WindowEvent::Split { parent_id, new_window_id, direction },
    ) && parent_id == 0 && new_window_id == 1 && direction == SplitDirection::Horizontal)
    &&& plain(key) && key.code == KeyCode::Char('s') ==> r.len() == 1 && (r[0] matches EditorEvent::Buffer(
        BufferEvent::Modified { buffer_id },
    ) && buffer_id == 0)
    &&& normal_mode_switch(key) is None && !(plain(key) && (key.code == KeyCode::Char('j') || key.code == KeyCode::Char(
        'k',
    ) || key.code == KeyCode::Char('s'))) && !(ctrl_only(key) && key.code == KeyCode::Char('s')) ==> r.len() == 0
}

/// What a key gives in insert mode.
pub open spec fn insert_key_events(cursor: Option<(usize, usize)>, key: KeyInput, r: Seq<EditorEvent>) -> bool {
    &&& plain(key) && key.code == KeyCode::Esc ==> r.len() == 1 && is_mode_change(r[0], Mode::Insert, Mode::Normal)
    &&& plain(key) && key.code is Char ==> match cursor {
        Some(p) => r.len() == 1 && is_text_insert(r[0], seq![key.code->Char_0], p),
        None => r.len() == 0,
    }
    &&& plain(key) && key.code == KeyCode::Enter ==> match cursor {
        Some(p) => r.len() == 1 && is_text_insert(r[0], seq!['\n'], p),
        None => r.len() == 0,
    }
    &&& !(plain(key) && (key.code == KeyCode::Esc || key.code is Char || key.code == KeyCode::Enter)) ==> r.len() == 0
}

/// What a key gives in command mode.
pub open spec fn command_key_events(command_line: Seq<char>, key: KeyInput, r: Seq<EditorEvent>) -> bool {
    &&& plain(key) && key.code == KeyCode::Esc ==> r.len() == 1 && is_mode_change(r[0], Mode::Command, Mode::Normal)
    &&& plain(key) && key.code == KeyCode::Enter ==> r.len() == 2 && is_command(r[0], command_line)
        && is_mode_change(r[1], Mode::Command, Mode::Normal)
    &&& plain(key) && key.code is Char ==> r.len() == 1 && is_command_line_update(r[0], command_line.push(key.code->Char_0))
    &&& !(plain(key) && (key.code == KeyCode::Esc || key.code is Char || key.code == KeyCode::Enter)) ==> r.len() == 0
}

/// What a key gives in visual mode.
pub open spec fn visual_key_events(key: KeyInput, r: Seq<EditorEvent>) -> bool {
    &&& plain(key) && key.code == KeyCode::Esc ==> r.len() == 1 && is_mode_change(r[0], Mode::Visual, Mode::Normal)
    &&& !(plain(key) && key.code == KeyCode::Esc) ==> r.len() == 0
}

/// What a key gives in search mode.
pub open spec fn search_key_events(key: KeyInput, r: Seq<EditorEvent>) -> bool {
    &&& plain(key) && key.code == KeyCode::Esc ==> r.len() == 2 && (r[0] matches EditorEvent::Search(SearchEvent::Cancelled))
        && is_mode_change(r[1], Mode::Search, Mode::Normal)
    &&& plain(key) && key.code == KeyCode::Enter ==> r.len() == 1 && (r[0] matches EditorEvent::Search(
        SearchEvent::Started { pattern, is_regex },
    ) && pattern@.len() == 0 && !is_regex)
    &&& !(plain(key) && (key.code == KeyCode::Esc || key.code == KeyCode::Enter)) ==> r.len() == 0
}

fn mode_change(from: Mode, to: Mode) -> (e: EditorEvent)
    ensures
        is_mode_change(e, from, to),
{
    EditorEvent::Input(InputEvent::ModeChange { from, to })
}

fn is_plain(key: KeyInput) -> (b: bool)
    ensures
        b == plain(key),
{
    !key.ctrl && !key.alt && !key.shift
}

/// Normal mode: `i : / v` switch modes, `j` and `k` move the cursor a line down and up
/// (`k` not above the first line), Ctrl+`s` splits the window and `s` marks the buffer
/// modified; other keys give nothing. `cursor` is the current buffer's cursor, if
/// there is a buffer.
pub fn handle_normal_mode_key(cursor: Option<(usize, usize)>, key: KeyInput) -> (r: Vec<EditorEvent>)
    requires
        cursor matches Some(p) ==> p.0 < usize::MAX,
    ensures
        normal_key_events(cursor, key, r@),
{
    let mut events: Vec<EditorEvent> = Vec::new();
    let p = is_plain(key);
    match key.code {
        KeyCode::Char('i') if p => events.push(mode_change(Mode::Normal, Mode::Insert)),
        KeyCode::Char(':') if p => events.push(mode_change(Mode::Normal, Mode::Command)),
        KeyCode::Char('/') if p => events.push(mode_change(Mode::Normal, Mode::Search)),
        KeyCode::Char('v') if p => events.push(mode_change(Mode::Normal, Mode::Visual)),
        KeyCode::Char('j') if p => {
            if let Some((row, col)) = cursor {
                events.push(
                    EditorEvent::Buffer(BufferEvent::CursorMoved { buffer_id: 0, old_pos: (row, col), new_pos: (row + 1, col) }),
                );
            }
        },
        KeyCode::Char('k') if p => {
            if let Some((row, col)) = cursor {
                let up = if row > 0 {
                    row - 1
                } else {
                    0
                };
                events.push(
                    EditorEvent::Buffer(BufferEvent::CursorMoved { buffer_id: 0, old_pos: (row, col), new_pos: (up, col) }),
                );
            }
        },
        KeyCode::Char('s') if key.ctrl && !key.alt && !key.shift => {
            events.push(
                EditorEvent::Window(WindowEvent::Split { parent_id: 0, new_window_id: 1, direction: SplitDirection::Horizontal }),
            );
        },
        KeyCode::Char('s') if p => {
            events.push(EditorEvent::Buffer(BufferEvent::Modified { buffer_id: 0 }));
        },
        _ => {},
    }
    events
}

/// Insert mode: Esc returns to normal mode, and a character or Enter is inserted at the
/// cursor (when there is a buffer); other keys give nothing.
pub fn handle_insert_mode_key(cursor: Option<(usize, usize)>, key: KeyInput) -> (r: Vec<EditorEvent>)
    ensures
        insert_key_events(cursor, key, r@),
{
    let mut events: Vec<EditorEvent> = Vec::new();
    if !is_plain(key) {
        return events;
    }
    match key.code {
        KeyCode::Esc => events.push(mode_change(Mode::Insert, Mode::Normal)),
        KeyCode::Char(c) => {
            if let Some(pos) = cursor {
                let mut text = String::new();
                push_char(&mut text, c);
                events.push(EditorEvent::Input(InputEvent::TextInsert { text, position: pos }));
            }
        },
        KeyCode::Enter => {
            if let Some(pos) = cursor {
                let mut text = String::new();
                push_char(&mut text, '\n');
                events.push(EditorEvent::Input(InputEvent::TextInsert { text, position: pos }));
            }
        },
        _ => {},
    }
    events
}

/// Command mode: Esc returns to normal mode, Enter runs the command line and returns to
/// normal mode, and a character updates the command line; other keys give nothing.
pub fn handle_command_mode_key(command_line: &str, key: KeyInput) -> (r: Vec<EditorEvent>)
    ensures
        command_key_events(command_line@, key, r@),
{
    let mut events: Vec<EditorEvent> = Vec::new();
    if !is_plain(key) {
        return events;
    }
    match key.code {
        KeyCode::Esc => events.push(mode_change(Mode::Command, Mode::Normal)),
        KeyCode::Enter => {
            events.push(EditorEvent::Input(InputEvent::Command(owned(command_line))));
            events.push(mode_change(Mode::Command, Mode::Normal));
        },
        KeyCode::Char(c) => {
            let mut text = owned(command_line);
            push_char(&mut text, c);
            events.push(EditorEvent::UI(UIEvent::CommandLineUpdated(text)));
        },
        _ => {},
    }
    events
}

/// Visual mode: Esc returns to normal mode; other keys give nothing.
pub fn handle_visual_mode_key(key: KeyInput) -> (r: Vec<EditorEvent>)
    ensures
        visual_key_events(key, r@),
{
    let mut events: Vec<EditorEvent> = Vec::new();
    if is_plain(key) && key.code == KeyCode::Esc {
        events.push(mode_change(Mode::Visual, Mode::Normal));
    }
    events
}

/// Search mode: Esc cancels the search and returns to normal mode, Enter starts a plain
/// search (for an empty pattern); other keys give nothing.
pub fn handle_search_mode_key(key: KeyInput) -> (r: Vec<EditorEvent>)
    ensures
        search_key_events(key, r@),
{
    let mut events: Vec<EditorEvent> = Vec::new();
    if !is_plain(key) {
        return events;
    }
    match key.code {
        KeyCode::Esc => {
            events.push(EditorEvent::Search(SearchEvent::Cancelled));
            events.push(mode_change(Mode::Search, Mode::Normal));
        },
        KeyCode::Enter => {
            events.push(EditorEvent::Search(SearchEvent::Started { pattern: String::new(), is_regex: false }));
        },
        _ => {},
    }
    events
}

/// Convert a raw key press in a mode to the editor events it stands for (see the
/// handler of each mode); in the other modes a key gives nothing.
pub fn process_key_event(mode: Mode, cursor: Option<(usize, usize)>, command_line: &str, key: KeyInput) -> (r: Vec<
    EditorEvent,
>)
    requires
        cursor matches Some(p) ==> p.0 < usize::MAX,
    ensures
        mode is Normal ==> normal_key_events(cursor, key, r@),
        mode is Insert ==> insert_key_events(cursor, key, r@),
        mode is Command ==> command_key_events(command_line@, key, r@),
        mode is Visual ==> visual_key_events(key, r@),
        mode is Search ==> search_key_events(key, r@),
        !(mode is Normal || mode is Insert || mode is Command || mode is Visual || mode is Search) ==> r@.len() == 0,
{
    match mode {
        Mode::Normal => handle_normal_mode_key(cursor, key),
        Mode::Insert => handle_insert_mode_key(cursor, key),
        Mode::Command => handle_command_mode_key(command_line, key),
        Mode::Visual => handle_visual_mode_key(key),
        Mode::Search => handle_search_mode_key(key),
        _ => Vec::new(),
    }
}

} // verus!
