//! Key handling: turning key presses into the names of editor actions through the
//! keymaps of each mode, multi-key sequences in normal mode, the Ex commands typed on
//! the command line and the `:set` command.
use crate::config;
use crate::config::{EditorConfig, Setting};
use crate::digits;
use crate::engine::buffer::Buffer;
use crate::mode::{Mode, Position};
use crate::text_objects::back_ws_run;
use crate::text;
use crate::text::{concat, owned, push_char, starts_with, str_eq};
use vstd::prelude::*;

verus! {

/// A key binding table: key names (such as `j`, `gg`, `Ctrl+w h`) and the names of
/// the actions they run.
pub open spec fn bindings(v: Seq<(String, String)>) -> Seq<(Seq<char>, Seq<char>)> {
    v.map_values(|p: (String, String)| (p.0@, p.1@))
}

/// The action bound to `key`: that of the first binding for it.
pub open spec fn lookup(m: Seq<(Seq<char>, Seq<char>)>, key: Seq<char>) -> Option<Seq<char>>
    decreases m.len(),
{
    if m.len() == 0 {
        None
    } else if m[0].0 == key {
        Some(m[0].1)
    } else {
        lookup(m.drop_first(), key)
    }
}

/// Some key of `m` is a longer sequence that begins with `prefix`.
pub open spec fn extends_some_key(m: Seq<(Seq<char>, Seq<char>)>, prefix: Seq<char>) -> bool {
    exists|i: int|
        0 <= i < m.len() && m[i].0 != prefix && prefix.len() <= m[i].0.len() && #[trigger] m[i].0.take(
            prefix.len() as int,
        ) == prefix
}

/// The key bindings of each mode.
#[derive(Debug, Clone)]
pub struct KeymapConfig {
    pub normal_mode: Vec<(String, String)>,
    pub insert_mode: Vec<(String, String)>,
    pub command_mode: Vec<(String, String)>,
    pub visual_mode: Vec<(String, String)>,
    pub visual_line_mode: Vec<(String, String)>,
    pub visual_block_mode: Vec<(String, String)>,
    pub replace_mode: Vec<(String, String)>,
    pub search_mode: Vec<(String, String)>,
}

/// The action bound to a key name in a binding table.
pub fn lookup_binding(m: &Vec<(String, String)>, key: &str) -> (r: Option<String>)
    ensures
        match r {
            Some(a) => lookup(bindings(m@), key@) == Some(a@),
            None => lookup(bindings(m@), key@) is None,
        },
{
    let mut i: usize = 0;
    assert(bindings(m@).skip(0) =~= bindings(m@));
    while i < m.len()
        invariant
            i <= m@.len(),
            lookup(bindings(m@).skip(i as int), key@) == lookup(bindings(m@), key@),
        decreases m@.len() - i,
    {
        assert(bindings(m@).skip(i as int).drop_first() =~= bindings(m@).skip(i + 1));
        if str_eq(m[i].0.as_str(), key) {
            return Some(owned(m[i].1.as_str()));
        }
        i = i + 1;
    }
    None
}

/// Whether some key of the table is a longer sequence that `prefix` begins.
pub fn has_longer_key(m: &Vec<(String, String)>, prefix: &str) -> (b: bool)
    ensures
        b == extends_some_key(bindings(m@), prefix@),
{
    let mut i: usize = 0;
    while i < m.len()
        invariant
            i <= m@.len(),
            forall|j: int|
                0 <= j < i ==> !(bindings(m@)[j].0 != prefix@ && prefix@.len() <= bindings(m@)[j].0.len()
                    && bindings(m@)[j].0.take(prefix@.len() as int) == prefix@),
        decreases m@.len() - i,
    {
        if starts_with(m[i].0.as_str(), prefix) && !str_eq(m[i].0.as_str(), prefix) {
            assert(bindings(m@)[i as int].0.take(prefix@.len() as int) == prefix@);
            return true;
        }
        i = i + 1;
    }
    false
}

/// The keymap used when no keymap file could be read: just enough to reach the
/// command line and quit.
pub open spec fn fallback_normal() -> Seq<(Seq<char>, Seq<char>)> {
    seq![(":"@, "command_mode"@)]
}

pub open spec fn fallback_command() -> Seq<(Seq<char>, Seq<char>)> {
    seq![("Escape"@, "normal_mode"@), ("Enter"@, "execute_command"@), ("Char"@, "append_command"@)]
}

fn binding(key: &str, action: &str) -> (p: (String, String))
    ensures
        p.0@ == key@ && p.1@ == action@,
{
    (owned(key), owned(action))
}

impl KeymapConfig {
    /// Absolute minimal keymaps just to exit gracefully
    pub fn create_minimal_fallback() -> (c: Self)
        ensures
            bindings(c.normal_mode@) == fallback_normal(),
            bindings(c.command_mode@) == fallback_command(),
            c.insert_mode@.len() == 0 && c.visual_mode@.len() == 0 && c.visual_line_mode@.len() == 0,
            c.visual_block_mode@.len() == 0 && c.replace_mode@.len() == 0 && c.search_mode@.len() == 0,
    {
        let mut normal_mode = Vec::new();
        normal_mode.push(binding(":", "command_mode"));
        let mut command_mode = Vec::new();
        command_mode.push(binding("Escape", "normal_mode"));
        command_mode.push(binding("Enter", "execute_command"));
        command_mode.push(binding("Char", "append_command"));
        assert(bindings(normal_mode@) =~= fallback_normal());
        assert(bindings(command_mode@) =~= fallback_command());
        KeymapConfig {
            normal_mode,
            insert_mode: Vec::new(),
            command_mode,
            visual_mode: Vec::new(),
            visual_line_mode: Vec::new(),
            visual_block_mode: Vec::new(),
            replace_mode: Vec::new(),
            search_mode: Vec::new(),
        }
    }
}

/// The keys as the terminal reports them.
#[derive(Debug, Clone, Copy, PartialEq, Eq, Structural)]
pub enum KeyCode {
    Char(char),
    Enter,
    Left,
    Right,
    Up,
    Down,
    Backspace,
    Esc,
    Tab,
    Delete,
    Home,
    End,
    PageUp,
    PageDown,
    Insert,
    F(u8),
    /// Any other key.
    Other,
}

/// A key press: the key and the modifiers held with it.
#[derive(Debug, Clone, Copy, PartialEq, Eq, Structural)]
pub struct KeyInput {
    pub code: KeyCode,
    pub ctrl: bool,
    pub alt: bool,
    pub shift: bool,
}

/// The text takes more than one byte in UTF-8: two characters or more, or one that is
/// not ASCII.
pub open spec fn more_than_one_byte(s: Seq<char>) -> bool {
    s.len() >= 2 || (s.len() == 1 && (s[0] as u32) >= 0x80)
}

/// The shifted characters that need no `Shift+` in front of them.
pub open spec fn shifted_symbols() -> Seq<char> {
    seq!['!', '@', '#', '$', '%', '^', '&', '*', '(', ')', '_', '+', '{', '}', '|', ':', '"', '<', '>', '?', '~']
}

pub open spec fn is_ascii_lower(c: char) -> bool {
    'a' <= c && c <= 'z'
}

pub open spec fn is_ascii_upper(c: char) -> bool {
    'A' <= c && c <= 'Z'
}

pub open spec fn ascii_upper(c: char) -> char {
    ((c as u32) - 32) as char
}

/// The name of a key that is not a character.
pub open spec fn key_word(code: KeyCode) -> Seq<char> {
    match code {
        KeyCode::Enter => "Enter"@,
        KeyCode::Left => "Left"@,
        KeyCode::Right => "Right"@,
        KeyCode::Up => "Up"@,
        KeyCode::Down => "Down"@,
        KeyCode::Backspace => "Backspace"@,
        KeyCode::Esc => "Escape"@,
        KeyCode::Tab => "Tab"@,
        KeyCode::Delete => "Delete"@,
        KeyCode::Home => "Home"@,
        KeyCode::End => "End"@,
        KeyCode::PageUp => "PageUp"@,
        KeyCode::PageDown => "PageDown"@,
        KeyCode::Insert => "Insert"@,
        KeyCode::F(n) => seq!['F'] + digits::decimal(n as nat),
        KeyCode::Char(c) => seq![c],
        KeyCode::Other => "Unknown"@,
    }
}

/// The `Ctrl+` and `Alt+` part of a key's name.
pub open spec fn ctrl_alt(key: KeyInput) -> Seq<char> {
    (if key.ctrl {
        "Ctrl+"@
    } else {
        Seq::empty()
    }) + (if key.alt {
        "Alt+"@
    } else {
        Seq::empty()
    })
}

/// The name of a key press, as keymaps write it: `Ctrl+`, `Alt+`, `Shift+` in that
/// order, then the key; a shifted letter or symbol is written as the character itself.
pub open spec fn key_name(key: KeyInput) -> Seq<char> {
    match key.code {
        KeyCode::Char(c) => if key.shift && is_ascii_lower(c) {
            ctrl_alt(key).push(ascii_upper(c))
        } else if key.shift && (is_ascii_upper(c) || shifted_symbols().contains(c)) {
            ctrl_alt(key).push(c)
        } else if key.shift {
            ctrl_alt(key) + "Shift+"@ + seq![c]
        } else {
            ctrl_alt(key).push(c)
        },
        _ => ctrl_alt(key) + (if key.shift {
            "Shift+"@
        } else {
            Seq::empty()
        }) + key_word(key.code),
    }
}

fn is_shifted_symbol(c: char) -> (b: bool)
    ensures
        b == shifted_symbols().contains(c),
{
    let symbols = ['!', '@', '#', '$', '%', '^', '&', '*', '(', ')', '_', '+', '{', '}', '|', ':', '"', '<', '>', '?', '~'];
    let mut i: usize = 0;
    assert(symbols@ == shifted_symbols());
    while i < symbols.len()
        invariant
            i <= symbols@.len(),
            symbols@ == shifted_symbols(),
            forall|k: int| 0 <= k < i ==> symbols@[k] != c,
        decreases symbols@.len() - i,
    {
        if symbols[i] == c {
            return true;
        }
        i = i + 1;
    }
    false
}

fn push_str(s: &mut String, t: &str)
    ensures
        final(s)@ == old(s)@ + t@,
{
    *s = concat(s.as_str(), t);
}

impl KeyInput {
    /// The name of a key that is not a character.
    fn word(code: KeyCode) -> (s: String)
        ensures
            s@ == key_word(code),
    {
        match code {
            KeyCode::Enter => owned("Enter"),
            KeyCode::Left => owned("Left"),
            KeyCode::Right => owned("Right"),
            KeyCode::Up => owned("Up"),
            KeyCode::Down => owned("Down"),
            KeyCode::Backspace => owned("Backspace"),
            KeyCode::Esc => owned("Escape"),
            KeyCode::Tab => owned("Tab"),
            KeyCode::Delete => owned("Delete"),
            KeyCode::Home => owned("Home"),
            KeyCode::End => owned("End"),
            KeyCode::PageUp => owned("PageUp"),
            KeyCode::PageDown => owned("PageDown"),
            KeyCode::Insert => owned("Insert"),
            KeyCode::F(n) => {
                let mut s = String::new();
                push_char(&mut s, 'F');
                let d = digits::decimal_string(n as u64);
                push_str(&mut s, d.as_str());
                assert(s@ =~= seq!['F'] + digits::decimal(n as nat));
                s
            },
            KeyCode::Char(c) => {
                let mut s = String::new();
                push_char(&mut s, c);
                assert(s@ =~= seq![c]);
                s
            },
            KeyCode::Other => owned("Unknown"),
        }
    }
}

/// Converts a key press to the name keymaps use for it (see `key_name`).
pub fn key_event_to_string(key: KeyInput) -> (s: String)
    ensures
        s@ == key_name(key),
{
    let mut result = String::new();
    if key.ctrl {
        push_str(&mut result, "Ctrl+");
    }
    if key.alt {
        push_str(&mut result, "Alt+");
    }
    assert(result@ =~= ctrl_alt(key));
    match key.code {
        KeyCode::Char(c) => {
            if key.shift && 'a' <= c && c <= 'z' {
                let b: u8 = ((c as u32) - 32) as u8;
                push_char(&mut result, b as char);
            } else if key.shift && (('A' <= c && c <= 'Z') || is_shifted_symbol(c)) {
                push_char(&mut result, c);
            } else if key.shift {
                push_str(&mut result, "Shift+");
                push_char(&mut result, c);
                assert(result@ =~= ctrl_alt(key) + "Shift+"@ + seq![c]);
            } else {
                push_char(&mut result, c);
            }
        },
        _ => {
            if key.shift {
                push_str(&mut result, "Shift+");
            }
            assert(result@ =~= ctrl_alt(key) + (if key.shift {
                "Shift+"@
            } else {
                Seq::empty()
            }));
            let w = KeyInput::word(key.code);
            push_str(&mut result, w.as_str());
        },
    }
    result
}

/// What a key press asks of the editor.
#[derive(Debug, Clone)]
pub enum KeyOutcome {
    /// Nothing to run (no binding, or a key sequence still being typed).
    Nothing,
    /// Escape on the command line: back to normal mode.
    LeaveCommandMode,
    /// Run the action of this name.
    Run(String),
}

/// `r` runs the action `a`, or nothing when `a` is `None`.
pub open spec fn runs(r: KeyOutcome, a: Option<Seq<char>>) -> bool {
    match a {
        Some(name) => r matches KeyOutcome::Run(n) && n@ == name,
        None => r is Nothing,
    }
}

/// A character key with neither Ctrl nor Alt held.
pub open spec fn plain_char(key: KeyInput) -> bool {
    key.code is Char && !key.ctrl && !key.alt
}

/// The bindings of a mode.
pub open spec fn mode_bindings(c: KeymapConfig, mode: Mode) -> Seq<(Seq<char>, Seq<char>)> {
    bindings(
        match mode {
            Mode::Normal => c.normal_mode@,
            Mode::Insert => c.insert_mode@,
            Mode::Command => c.command_mode@,
            Mode::Visual => c.visual_mode@,
            Mode::VisualLine => c.visual_line_mode@,
            Mode::VisualBlock => c.visual_block_mode@,
            Mode::Replace => c.replace_mode@,
            Mode::Search => c.search_mode@,
            Mode::OperatorPending => Seq::empty(),
        },
    )
}

/// The action a key runs outside normal mode: in insert, command and search mode a
/// plain character runs the binding of `Char`, in replace mode any character does;
/// other keys run the binding of their name.
pub open spec fn mode_action(c: KeymapConfig, mode: Mode, key: KeyInput) -> Option<Seq<char>> {
    let m = mode_bindings(c, mode);
    match mode {
        Mode::Insert | Mode::Command | Mode::Search => if plain_char(key) {
            lookup(m, "Char"@)
        } else {
            lookup(m, key_name(key))
        },
        Mode::Replace => if key.code is Char {
            lookup(m, "Char"@)
        } else {
            lookup(m, key_name(key))
        },
        Mode::OperatorPending => None,
        _ => lookup(m, key_name(key)),
    }
}

pub open spec fn is_ascii_alpha(c: char) -> bool {
    is_ascii_lower(c) || is_ascii_upper(c)
}

/// A key sequence older than a second is dropped.
pub open spec fn timed_out(last: Option<u64>, now: u64) -> bool {
    match last {
        Some(t) => now - t > 1000,
        None => false,
    }
}

/// The pending sequence with a key added: two single letters join directly (`gg`),
/// anything else is separated by a space (`Ctrl+w h`).
pub open spec fn extend_sequence(pending: Seq<char>, key: Seq<char>) -> Seq<char> {
    if pending.len() == 0 {
        key
    } else if key.len() == 1 && (key[0] as u32) < 128 && pending.len() == 1 && is_ascii_alpha(pending[0]) {
        pending + key
    } else {
        pending + seq![' '] + key
    }
}

/// The key sequence typed so far in normal mode, this key included.
pub open spec fn normal_sequence(pending: Seq<char>, last: Option<u64>, now: u64, key: KeyInput) -> Seq<char> {
    extend_sequence(
        if timed_out(last, now) {
            Seq::empty()
        } else {
            pending
        },
        key_name(key),
    )
}

/// The Escape key on the command line.
pub open spec fn leaves_command_mode(mode: Mode, key: KeyInput) -> bool {
    mode == Mode::Command && key.code == KeyCode::Esc
}

/// The editor actions that keymaps name.
#[derive(Debug, Clone, Copy, PartialEq, Eq, Structural)]
pub enum EditorAction {
    CursorLeft,
    CursorRight,
    CursorUp,
    CursorDown,
    WordForward,
    WordBackward,
    WordEnd,
    DeleteCharAtCursor,
    DeleteCharBeforeCursor,
    DeleteLine,
    YankLine,
    YankWord,
    YankToEndOfLine,
    PutAfter,
    PutBefore,
    LineStart,
    LineEnd,
    BufferStart,
    BufferEnd,
    InsertMode,
    InsertLineStart,
    InsertAfter,
    InsertLineEnd,
    InsertLineBelow,
    InsertLineAbove,
    NormalMode,
    CommandMode,
    VisualMode,
    VisualLineMode,
    VisualBlockMode,
    ReplaceMode,
    SearchForward,
    SearchBackward,
    SearchNext,
    SearchPrevious,
    SaveFile,
    Quit,
    Undo,
    Redo,
    BufferNext,
    BufferPrevious,
    InsertChar,
    NewLine,
    DeleteChar,
    DeleteCharForward,
    DeleteWordBackward,
    InsertTab,
    AppendCommand,
    DeleteCommandChar,
    ExecuteCommand,
    AppendSearch,
    DeleteSearchChar,
    ExecuteSearch,
    DeleteSelection,
    YankSelection,
    ChangeSelection,
    ReplaceChar,
    ScrollDownLine,
    ScrollUpLine,
    ScrollDownPage,
    ScrollUpPage,
    ScrollDownHalfPage,
    ScrollUpHalfPage,
    CenterCursor,
    CursorToTop,
    CursorToBottom,
    SplitHorizontal,
    SplitVertical,
    SplitHorizontalAbove,
    SplitHorizontalBelow,
    SplitVerticalLeft,
    SplitVerticalRight,
    CloseWindow,
    WindowLeft,
    WindowRight,
    WindowUp,
    WindowDown,
    CycleSuggestion,
    AcceptSuggestion,
    ResizeWindowWider,
    ResizeWindowNarrower,
    ResizeWindowTaller,
    ResizeWindowShorter,
}

/// The action a keymap names (`line_first_char` runs `LineStart`); `None` for a
/// name that is no action, which is ignored.
pub open spec fn action_named(s: Seq<char>) -> Option<EditorAction> {
    if s == "cursor_left"@ {
        Some(EditorAction::CursorLeft)
    } else if s == "cursor_right"@ {
        Some(EditorAction::CursorRight)
    } else if s == "cursor_up"@ {
        Some(EditorAction::CursorUp)
    } else if s == "cursor_down"@ {
        Some(EditorAction::CursorDown)
    } else if s == "word_forward"@ {
        Some(EditorAction::WordForward)
    } else if s == "word_backward"@ {
        Some(EditorAction::WordBackward)
    } else if s == "word_end"@ {
        Some(EditorAction::WordEnd)
    } else if s == "delete_char_at_cursor"@ {
        Some(EditorAction::DeleteCharAtCursor)
    } else if s == "delete_char_before_cursor"@ {
        Some(EditorAction::DeleteCharBeforeCursor)
    } else if s == "delete_line"@ {
        Some(EditorAction::DeleteLine)
    } else if s == "yank_line"@ {
        Some(EditorAction::YankLine)
    } else if s == "yank_word"@ {
        Some(EditorAction::YankWord)
    } else if s == "yank_to_end_of_line"@ {
        Some(EditorAction::YankToEndOfLine)
    } else if s == "put_after"@ {
        Some(EditorAction::PutAfter)
    } else if s == "put_before"@ {
        Some(EditorAction::PutBefore)
    } else if s == "line_start"@ {
        Some(EditorAction::LineStart)
    } else if s == "line_end"@ {
        Some(EditorAction::LineEnd)
    } else if s == "line_first_char"@ {
        Some(EditorAction::LineStart)
    } else if s == "buffer_start"@ {
        Some(EditorAction::BufferStart)
    } else if s == "buffer_end"@ {
        Some(EditorAction::BufferEnd)
    } else if s == "insert_mode"@ {
        Some(EditorAction::InsertMode)
    } else if s == "insert_line_start"@ {
        Some(EditorAction::InsertLineStart)
    } else if s == "insert_after"@ {
        Some(EditorAction::InsertAfter)
    } else if s == "insert_line_end"@ {
        Some(EditorAction::InsertLineEnd)
    } else if s == "insert_line_below"@ {
        Some(EditorAction::InsertLineBelow)
    } else if s == "insert_line_above"@ {
        Some(EditorAction::InsertLineAbove)
    } else if s == "normal_mode"@ {
        Some(EditorAction::NormalMode)
    } else if s == "command_mode"@ {
        Some(EditorAction::CommandMode)
    } else if s == "visual_mode"@ {
        Some(EditorAction::VisualMode)
    } else if s == "visual_line_mode"@ {
        Some(EditorAction::VisualLineMode)
    } else if s == "visual_block_mode"@ {
        Some(EditorAction::VisualBlockMode)
    } else if s == "replace_mode"@ {
        Some(EditorAction::ReplaceMode)
    } else if s == "search_forward"@ {
        Some(EditorAction::SearchForward)
    } else if s == "search_backward"@ {
        Some(EditorAction::SearchBackward)
    } else if s == "search_next"@ {
        Some(EditorAction::SearchNext)
    } else if s == "search_previous"@ {
        Some(EditorAction::SearchPrevious)
    } else if s == "save_file"@ {
        Some(EditorAction::SaveFile)
    } else if s == "quit"@ {
        Some(EditorAction::Quit)
    } else if s == "undo"@ {
        Some(EditorAction::Undo)
    } else if s == "redo"@ {
        Some(EditorAction::Redo)
    } else if s == "buffer_next"@ {
        Some(EditorAction::BufferNext)
    } else if s == "buffer_previous"@ {
        Some(EditorAction::BufferPrevious)
    } else if s == "insert_char"@ {
        Some(EditorAction::InsertChar)
    } else if s == "new_line"@ {
        Some(EditorAction::NewLine)
    } else if s == "delete_char"@ {
        Some(EditorAction::DeleteChar)
    } else if s == "delete_char_forward"@ {
        Some(EditorAction::DeleteCharForward)
    } else if s == "delete_word_backward"@ {
        Some(EditorAction::DeleteWordBackward)
    } else if s == "insert_tab"@ {
        Some(EditorAction::InsertTab)
    } else if s == "append_command"@ {
        Some(EditorAction::AppendCommand)
    } else if s == "delete_command_char"@ {
        Some(EditorAction::DeleteCommandChar)
    } else if s == "execute_command"@ {
        Some(EditorAction::ExecuteCommand)
    } else if s == "append_search"@ {
        Some(EditorAction::AppendSearch)
    } else if s == "delete_search_char"@ {
        Some(EditorAction::DeleteSearchChar)
    } else if s == "execute_search"@ {
        Some(EditorAction::ExecuteSearch)
    } else if s == "delete_selection"@ {
        Some(EditorAction::DeleteSelection)
    } else if s == "yank_selection"@ {
        Some(EditorAction::YankSelection)
    } else if s == "change_selection"@ {
        Some(EditorAction::ChangeSelection)
    } else if s == "replace_char"@ {
        Some(EditorAction::ReplaceChar)
    } else if s == "scroll_down_line"@ {
        Some(EditorAction::ScrollDownLine)
    } else if s == "scroll_up_line"@ {
        Some(EditorAction::ScrollUpLine)
    } else if s == "scroll_down_page"@ {
        Some(EditorAction::ScrollDownPage)
    } else if s == "scroll_up_page"@ {
        Some(EditorAction::ScrollUpPage)
    } else if s == "scroll_down_half_page"@ {
        Some(EditorAction::ScrollDownHalfPage)
    } else if s == "scroll_up_half_page"@ {
        Some(EditorAction::ScrollUpHalfPage)
    } else if s == "center_cursor"@ {
        Some(EditorAction::CenterCursor)
    } else if s == "cursor_to_top"@ {
        Some(EditorAction::CursorToTop)
    } else if s == "cursor_to_bottom"@ {
        Some(EditorAction::CursorToBottom)
    } else if s == "split_horizontal"@ {
        Some(EditorAction::SplitHorizontal)
    } else if s == "split_vertical"@ {
        Some(EditorAction::SplitVertical)
    } else if s == "split_horizontal_above"@ {
        Some(EditorAction::SplitHorizontalAbove)
    } else if s == "split_horizontal_below"@ {
        Some(EditorAction::SplitHorizontalBelow)
    } else if s == "split_vertical_left"@ {
        Some(EditorAction::SplitVerticalLeft)
    } else if s == "split_vertical_right"@ {
        Some(EditorAction::SplitVerticalRight)
    } else if s == "close_window"@ {
        Some(EditorAction::CloseWindow)
    } else if s == "window_left"@ {
        Some(EditorAction::WindowLeft)
    } else if s == "window_right"@ {
        Some(EditorAction::WindowRight)
    } else if s == "window_up"@ {
        Some(EditorAction::WindowUp)
    } else if s == "window_down"@ {
        Some(EditorAction::WindowDown)
    } else if s == "cycle_suggestion"@ {
        Some(EditorAction::CycleSuggestion)
    } else if s == "accept_suggestion"@ {
        Some(EditorAction::AcceptSuggestion)
    } else if s == "resize_window_wider"@ {
        Some(EditorAction::ResizeWindowWider)
    } else if s == "resize_window_narrower"@ {
        Some(EditorAction::ResizeWindowNarrower)
    } else if s == "resize_window_taller"@ {
        Some(EditorAction::ResizeWindowTaller)
    } else if s == "resize_window_shorter"@ {
        Some(EditorAction::ResizeWindowShorter)
    } else {
        None
    }
}

/// An Ex command typed on the command line, as the editor carries it out.
#[derive(Debug, Clone, PartialEq, Eq)]
pub enum ExCommand {
    Quit,
    ForceQuit,
    Write,
    WriteQuit,
    /// Show absolute and relative line numbers as given.
    LineNumbers(bool, bool),
    CursorLine(bool),
    BufferNext,
    BufferPrevious,
    BufferDelete,
    BufferForceDelete,
    ListBuffers,
    Split,
    VSplit,
    Close,
    /// `:e file`
    Edit(String),
    /// `:b 3`
    SwitchBuffer(usize),
    /// `:b name`
    SwitchBufferByName(String),
    /// `:set ...` with what follows `set `.
    SetOptions(String),
    Unknown(String),
}

/// `s` without the colons it begins with.
pub open spec fn strip_colons(s: Seq<char>) -> Seq<char>
    decreases s.len(),
{
    if s.len() > 0 && s[0] == ':' {
        strip_colons(s.drop_first())
    } else {
        s
    }
}

pub open spec fn begins_with(s: Seq<char>, prefix: Seq<char>) -> bool {
    prefix.len() <= s.len() && s.take(prefix.len() as int) == prefix
}

/// `r` is what the command `cmd` (its leading colons removed) asks for.
pub open spec fn ex_command_of(cmd: Seq<char>, r: ExCommand) -> bool {
    if cmd == "q"@ || cmd == "quit"@ {
        r is Quit
    } else if cmd == "q!"@ || cmd == "quit!"@ {
        r is ForceQuit
    } else if cmd == "w"@ || cmd == "write"@ {
        r is Write
    } else if cmd == "wq"@ || cmd == "x"@ {
        r is WriteQuit
    } else if cmd == "set nu"@ || cmd == "set number"@ {
        r == ExCommand::LineNumbers(true, false)
    } else if cmd == "set nonu"@ || cmd == "set nonumber"@ {
        r == ExCommand::LineNumbers(false, false)
    } else if cmd == "set rnu"@ || cmd == "set relativenumber"@ {
        r == ExCommand::LineNumbers(false, true)
    } else if cmd == "set nornu"@ || cmd == "set norelativenumber"@ {
        r == ExCommand::LineNumbers(true, false)
    } else if cmd == "set nu rnu"@ || cmd == "set number relativenumber"@ {
        r == ExCommand::LineNumbers(true, true)
    } else if cmd == "set cul"@ || cmd == "set cursorline"@ {
        r == ExCommand::CursorLine(true)
    } else if cmd == "set nocul"@ || cmd == "set nocursorline"@ {
        r == ExCommand::CursorLine(false)
    } else if cmd == "bn"@ || cmd == "bnext"@ {
        r is BufferNext
    } else if cmd == "bp"@ || cmd == "bprev"@ || cmd == "bprevious"@ {
        r is BufferPrevious
    } else if cmd == "bd"@ || cmd == "bdelete"@ {
        r is BufferDelete
    } else if cmd == "bd!"@ || cmd == "bdelete!"@ {
        r is BufferForceDelete
    } else if cmd == "ls"@ || cmd == "buffers"@ {
        r is ListBuffers
    } else if cmd == "split"@ || cmd == "sp"@ {
        r is Split
    } else if cmd == "vsplit"@ || cmd == "vsp"@ {
        r is VSplit
    } else if cmd == "close"@ {
        r is Close
    } else if begins_with(cmd, seq!['e', ' ']) {
        r matches ExCommand::Edit(f) && f@ == text::trim(cmd.skip(2))
    } else if begins_with(cmd, seq!['b', ' ']) {
        let name = text::trim(cmd.skip(2));
        match digits::parse_unsigned(name, usize::MAX as nat) {
            Some(n) => r matches ExCommand::SwitchBuffer(id) && id == n,
            None => r matches ExCommand::SwitchBufferByName(b) && b@ == name,
        }
    } else if begins_with(cmd, seq!['s', 'e', 't', ' ']) {
        r matches ExCommand::SetOptions(a) && a@ == cmd.skip(4)
    } else {
        r matches ExCommand::Unknown(c) && c@ == cmd
    }
}

/// What `:set` did: the status message to show (none leaves the status line as it
/// was), and the setting it changed with the value given for it, so that the editor
/// can bring the rest of its state in line.
#[derive(Debug, Clone)]
pub struct SetOutcome {
    pub message: Option<String>,
    pub applied: Option<(String, String)>,
}

pub open spec fn shows(r: SetOutcome, m: Seq<char>) -> bool {
    r.message matches Some(s) && s@ == m
}

pub open spec fn applies(r: SetOutcome, k: Setting, v: Seq<char>) -> bool {
    r.applied matches Some(p) && p.0@ == config::setting_name(k) && p.1@ == v
}

/// The setting's value as text, or nothing for an unknown name.
pub open spec fn shown_value(c: EditorConfig, name: Seq<char>) -> Seq<char> {
    match c.value_text(name) {
        Some(v) => v,
        None => Seq::empty(),
    }
}

/// The message of `:set` alone.
pub open spec fn current_settings_message(c: EditorConfig) -> Seq<char> {
    "Current settings: "@ + text::join(
        seq![
            "number: "@ + shown_value(c, "number"@),
            "relativenumber: "@ + shown_value(c, "relativenumber"@),
            "cursorline: "@ + shown_value(c, "cursorline"@),
            "tabstop: "@ + shown_value(c, "tabstop"@),
            "expandtab: "@ + shown_value(c, "expandtab"@),
        ],
        ", "@,
    )
}

/// The settings that `:set all` lists, in order.
pub open spec fn listed_settings() -> Seq<&'static str> {
    seq![
        "number", "relativenumber", "cursorline", "tabstop", "expandtab", "autoindent", "ignorecase",
        "smartcase", "hlsearch", "incsearch", "wrap", "linebreak", "undolevels", "undofile", "backup",
        "swapfile", "autosave", "laststatus", "showcmd", "scrolloff", "sidescrolloff", "timeoutlen",
        "colorscheme", "syntax",
    ]
}

/// `name=value` for each of `names` that has a value.
pub open spec fn name_values(c: EditorConfig, names: Seq<&'static str>) -> Seq<Seq<char>>
    decreases names.len(),
{
    if names.len() == 0 {
        Seq::empty()
    } else {
        name_values(c, names.drop_last()) + match c.value_text(names.last()@) {
            Some(v) => seq![names.last()@ + "="@ + v],
            None => Seq::empty(),
        }
    }
}

/// The status message after line numbers are set.
pub open spec fn line_number_message(absolute: bool, relative: bool) -> Seq<char> {
    if absolute && relative {
        "Hybrid line numbers enabled"@
    } else if absolute {
        "Absolute line numbers enabled"@
    } else if relative {
        "Relative line numbers enabled"@
    } else {
        "Line numbers disabled"@
    }
}

/// The status message after a flag is switched on (`b`) or off through `:set`.
pub open spec fn flag_message(c: EditorConfig, k: Setting, b: bool) -> Option<Seq<char>> {
    match k {
        Setting::Number => Some(line_number_message(b, c.display.show_relative_numbers)),
        Setting::RelativeNumber => Some(line_number_message(c.display.show_line_numbers, b)),
        Setting::CursorLine => Some(
            if b {
                "Cursor line highlighting enabled"@
            } else {
                "Cursor line highlighting disabled"@
            },
        ),
        _ => if b {
            Some(config::flag_label(k) + " enabled"@)
        } else {
            None
        },
    }
}

/// The message when a count is set from the text `v`.
pub open spec fn count_set_message(k: Setting, v: Seq<char>) -> Seq<char> {
    match k {
        Setting::TabStop => "Tab width set to "@ + v,
        Setting::UndoLevels => "Undo levels set to "@ + v,
        Setting::ScrollOff => "Scroll offset set to "@ + v,
        Setting::SideScrollOff => "Side scroll offset set to "@ + v,
        _ => "Command timeout set to "@ + v + " ms"@,
    }
}

/// The message when the text given for a count is not a number it can hold.
pub open spec fn count_invalid_message(k: Setting) -> Seq<char> {
    match k {
        Setting::TabStop => "Invalid tab width value"@,
        Setting::UndoLevels => "Invalid undo levels value"@,
        Setting::ScrollOff => "Invalid scroll offset value"@,
        Setting::SideScrollOff => "Invalid side scroll offset value"@,
        _ => "Invalid timeout value"@,
    }
}

/// The index of the first `c` in `s` from `i` on, or the length of `s`.
pub open spec fn find_char(s: Seq<char>, c: char, i: int) -> int
    decreases s.len() - i,
{
    if 0 <= i < s.len() && s[i] != c {
        find_char(s, c, i + 1)
    } else {
        i
    }
}

/// A flag switched on or off: the config changes, the message is `flag_message`.
pub open spec fn flag_done(c0: EditorConfig, c1: EditorConfig, k: Setting, b: bool, r: SetOutcome) -> bool {
    &&& c1 == c0.with_flag(k, b)
    &&& match flag_message(c0, k, b) {
        Some(m) => shows(r, m),
        None => r.message is None,
    }
    &&& applies(r, k, digits::bool_text(b))
}

/// Nothing changes; the message says why or what.
pub open spec fn only_says(c0: EditorConfig, c1: EditorConfig, r: SetOutcome, m: Seq<char>) -> bool {
    c1 == c0 && shows(r, m) && r.applied is None
}

/// What `:set args` does to the settings, and what it answers.
pub open spec fn set_command_done(c0: EditorConfig, c1: EditorConfig, args: Seq<char>, r: SetOutcome) -> bool {
    let a = text::trim(args);
    if a.len() == 0 {
        only_says(c0, c1, r, current_settings_message(c0))
    } else if a == "all"@ {
        only_says(c0, c1, r, "All settings: "@ + text::join(name_values(c0, listed_settings()), " | "@))
    } else if a.last() == '?' {
        let name = a.drop_last();
        only_says(
            c0,
            c1,
            r,
            match c0.value_text(name) {
                Some(v) => name + ": "@ + v,
                None => "Unknown setting: "@ + name,
            },
        )
    } else if begins_with(a, seq!['n', 'o']) {
        let name = a.skip(2);
        let k = config::setting_named(name);
        if k is Some && config::is_flag(k->0) {
            flag_done(c0, c1, k->0, false, r)
        } else {
            only_says(c0, c1, r, "Unknown option: no"@ + name)
        }
    } else if find_char(a, '=', 0) < a.len() {
        let i = find_char(a, '=', 0);
        let name = a.take(i);
        let value = a.skip(i + 1);
        let k = config::setting_named(text::trim(name));
        if k is Some && config::is_count(k->0) {
            match digits::parse_unsigned(value, config::count_max(k->0)) {
                Some(n) => c1 == c0.with_count(k->0, n) && shows(r, count_set_message(k->0, value))
                    && applies(r, k->0, value),
                None => only_says(c0, c1, r, count_invalid_message(k->0)),
            }
        } else if k == Some(Setting::ColorScheme) {
            &&& c1.display.color_scheme@ == value
            &&& c1 == c0.with_color(c1.display.color_scheme)
            &&& shows(r, "Color scheme set to "@ + value)
            &&& applies(r, Setting::ColorScheme, value)
        } else {
            only_says(c0, c1, r, "Unknown setting: "@ + name)
        }
    } else {
        let k = config::setting_named(a);
        if k is Some && config::is_flag(k->0) {
            flag_done(c0, c1, k->0, true, r)
        } else {
            only_says(c0, c1, r, "Unknown option: "@ + a)
        }
    }
}

/// Handles keyboard input and keymaps
#[derive(Debug, Clone)]
pub struct KeyHandler {
    pub keymap_config: KeymapConfig,
    /// The keys typed so far of a normal-mode sequence.
    pub pending_sequence: String,
    /// When the last normal-mode key came, in milliseconds.
    pub last_key_time: Option<u64>,
}

impl KeyHandler {
    /// A key handler with the keymaps read from the keymap file, or the minimal
    /// fallback when there are none.
    pub fn new(loaded: Option<KeymapConfig>) -> (h: Self)
        ensures
            h.pending_sequence@.len() == 0,
            h.last_key_time is None,
            match loaded {
                Some(c) => h.keymap_config == c,
                None => bindings(h.keymap_config.normal_mode@) == fallback_normal() && bindings(
                    h.keymap_config.command_mode@,
                ) == fallback_command() && h.keymap_config.insert_mode@.len() == 0,
            },
    {
        let keymap_config = match loaded {
            Some(c) => c,
            None => KeymapConfig::create_minimal_fallback(),
        };
        Self { keymap_config, pending_sequence: String::new(), last_key_time: None }
    }

    /// Converts a key press to the name keymaps use for it (see `key_name`).
    pub fn key_event_to_string(key: KeyInput) -> (s: String)
        ensures
            s@ == key_name(key),
    {
        key_event_to_string(key)
    }

    fn bindings_of(&self, mode: Mode) -> (m: &Vec<(String, String)>)
        requires
            mode != Mode::OperatorPending,
        ensures
            bindings(m@) == mode_bindings(self.keymap_config, mode),
    {
        match mode {
            Mode::Normal => &self.keymap_config.normal_mode,
            Mode::Insert => &self.keymap_config.insert_mode,
            Mode::Command => &self.keymap_config.command_mode,
            Mode::Visual => &self.keymap_config.visual_mode,
            Mode::VisualLine => &self.keymap_config.visual_line_mode,
            Mode::VisualBlock => &self.keymap_config.visual_block_mode,
            Mode::Replace => &self.keymap_config.replace_mode,
            _ => &self.keymap_config.search_mode,
        }
    }

    /// Decides what a key press runs in the given mode at time `now_ms`: in normal
    /// mode it extends the pending key sequence and runs the action of the whole
    /// sequence, or, when no longer binding begins with it, that of the key alone.
    pub fn handle_key(&mut self, mode: Mode, key: KeyInput, now_ms: u64) -> (r: KeyOutcome)
        ensures
            final(self).keymap_config == old(self).keymap_config,
            leaves_command_mode(mode, key) ==> r is LeaveCommandMode && final(self).pending_sequence@
                == old(self).pending_sequence@ && final(self).last_key_time == old(self).last_key_time,
            !leaves_command_mode(mode, key) && mode == Mode::Normal ==> ({
                let m = mode_bindings(old(self).keymap_config, Mode::Normal);
                let sq = normal_sequence(old(self).pending_sequence@, old(self).last_key_time, now_ms, key);
                &&& final(self).last_key_time == Some(now_ms)
                &&& if lookup(m, sq) is Some {
                    runs(r, lookup(m, sq)) && final(self).pending_sequence@.len() == 0
                } else if extends_some_key(m, sq) {
                    r is Nothing && final(self).pending_sequence@ == sq
                } else {
                    runs(r, lookup(m, key_name(key))) && final(self).pending_sequence@.len() == 0
                }
            }),
            !leaves_command_mode(mode, key) && mode != Mode::Normal ==> runs(
                r,
                mode_action(old(self).keymap_config, mode, key),
            ) && final(self).pending_sequence@ == old(self).pending_sequence@ && final(self).last_key_time
                == old(self).last_key_time,
    {
        let key_string = key_event_to_string(key);
        if mode == Mode::Command && key.code == KeyCode::Esc {
            return KeyOutcome::LeaveCommandMode;
        }
        if mode == Mode::Normal {
            if let Some(last_time) = self.last_key_time {
                if now_ms >= last_time && now_ms - last_time > 1000 {
                    self.pending_sequence = String::new();
                }
            }
            self.last_key_time = Some(now_ms);
            let ghost start = self.pending_sequence@;
            let p = text::chars_of(self.pending_sequence.as_str());
            let k = text::chars_of(key_string.as_str());
            if p.len() > 0 {
                if k.len() == 1 && (k[0] as u32) < 128 && p.len() == 1 && (('a' <= p[0] && p[0] <= 'z') || (
                'A' <= p[0] && p[0] <= 'Z')) {
                    push_str(&mut self.pending_sequence, key_string.as_str());
                } else {
                    push_char(&mut self.pending_sequence, ' ');
                    push_str(&mut self.pending_sequence, key_string.as_str());
                }
            } else {
                self.pending_sequence = owned(key_string.as_str());
            }
            assert(self.pending_sequence@ == extend_sequence(start, key_name(key)));
            let normal = &self.keymap_config.normal_mode;
            if let Some(action) = lookup_binding(normal, self.pending_sequence.as_str()) {
                self.pending_sequence = String::new();
                return KeyOutcome::Run(action);
            }
            if !has_longer_key(normal, self.pending_sequence.as_str()) {
                let found = lookup_binding(normal, key_string.as_str());
                self.pending_sequence = String::new();
                return match found {
                    Some(action) => KeyOutcome::Run(action),
                    None => KeyOutcome::Nothing,
                };
            }
            return KeyOutcome::Nothing;
        }
        if mode == Mode::OperatorPending {
            return KeyOutcome::Nothing;
        }
        let plain = match key.code {
            KeyCode::Char(_) => !key.ctrl && !key.alt,
            _ => false,
        };
        let is_char = match key.code {
            KeyCode::Char(_) => true,
            _ => false,
        };
        let use_char_binding = match mode {
            Mode::Insert | Mode::Command | Mode::Search => plain,
            Mode::Replace => is_char,
            _ => false,
        };
        let m = self.bindings_of(mode);
        let found = if use_char_binding {
            lookup_binding(m, "Char")
        } else {
            lookup_binding(m, key_string.as_str())
        };
        match found {
            Some(action) => KeyOutcome::Run(action),
            None => KeyOutcome::Nothing,
        }
    }

    /// The action a keymap's action name stands for (see `action_named`).
    pub fn parse_action(action: &str) -> (r: Option<EditorAction>)
        ensures
            r == action_named(action@),
    {
        if str_eq(action, "cursor_left") {
            Some(EditorAction::CursorLeft)
        } else if str_eq(action, "cursor_right") {
            Some(EditorAction::CursorRight)
        } else if str_eq(action, "cursor_up") {
            Some(EditorAction::CursorUp)
        } else if str_eq(action, "cursor_down") {
            Some(EditorAction::CursorDown)
        } else if str_eq(action, "word_forward") {
            Some(EditorAction::WordForward)
        } else if str_eq(action, "word_backward") {
            Some(EditorAction::WordBackward)
        } else if str_eq(action, "word_end") {
            Some(EditorAction::WordEnd)
        } else if str_eq(action, "delete_char_at_cursor") {
            Some(EditorAction::DeleteCharAtCursor)
        } else if str_eq(action, "delete_char_before_cursor") {
            Some(EditorAction::DeleteCharBeforeCursor)
        } else if str_eq(action, "delete_line") {
            Some(EditorAction::DeleteLine)
        } else if str_eq(action, "yank_line") {
            Some(EditorAction::YankLine)
        } else if str_eq(action, "yank_word") {
            Some(EditorAction::YankWord)
        } else if str_eq(action, "yank_to_end_of_line") {
            Some(EditorAction::YankToEndOfLine)
        } else if str_eq(action, "put_after") {
            Some(EditorAction::PutAfter)
        } else if str_eq(action, "put_before") {
            Some(EditorAction::PutBefore)
        } else if str_eq(action, "line_start") {
            Some(EditorAction::LineStart)
        } else if str_eq(action, "line_end") {
            Some(EditorAction::LineEnd)
        } else if str_eq(action, "line_first_char") {
            Some(EditorAction::LineStart)
        } else if str_eq(action, "buffer_start") {
            Some(EditorAction::BufferStart)
        } else if str_eq(action, "buffer_end") {
            Some(EditorAction::BufferEnd)
        } else if str_eq(action, "insert_mode") {
            Some(EditorAction::InsertMode)
        } else if str_eq(action, "insert_line_start") {
            Some(EditorAction::InsertLineStart)
        } else if str_eq(action, "insert_after") {
            Some(EditorAction::InsertAfter)
        } else if str_eq(action, "insert_line_end") {
            Some(EditorAction::InsertLineEnd)
        } else if str_eq(action, "insert_line_below") {
            Some(EditorAction::InsertLineBelow)
        } else if str_eq(action, "insert_line_above") {
            Some(EditorAction::InsertLineAbove)
        } else if str_eq(action, "normal_mode") {
            Some(EditorAction::NormalMode)
        } else if str_eq(action, "command_mode") {
            Some(EditorAction::CommandMode)
        } else if str_eq(action, "visual_mode") {
            Some(EditorAction::VisualMode)
        } else if str_eq(action, "visual_line_mode") {
            Some(EditorAction::VisualLineMode)
        } else if str_eq(action, "visual_block_mode") {
            Some(EditorAction::VisualBlockMode)
        } else if str_eq(action, "replace_mode") {
            Some(EditorAction::ReplaceMode)
        } else if str_eq(action, "search_forward") {
            Some(EditorAction::SearchForward)
        } else if str_eq(action, "search_backward") {
            Some(EditorAction::SearchBackward)
        } else if str_eq(action, "search_next") {
            Some(EditorAction::SearchNext)
        } else if str_eq(action, "search_previous") {
            Some(EditorAction::SearchPrevious)
        } else if str_eq(action, "save_file") {
            Some(EditorAction::SaveFile)
        } else if str_eq(action, "quit") {
            Some(EditorAction::Quit)
        } else if str_eq(action, "undo") {
            Some(EditorAction::Undo)
        } else if str_eq(action, "redo") {
            Some(EditorAction::Redo)
        } else if str_eq(action, "buffer_next") {
            Some(EditorAction::BufferNext)
        } else if str_eq(action, "buffer_previous") {
            Some(EditorAction::BufferPrevious)
        } else if str_eq(action, "insert_char") {
            Some(EditorAction::InsertChar)
        } else if str_eq(action, "new_line") {
            Some(EditorAction::NewLine)
        } else if str_eq(action, "delete_char") {
            Some(EditorAction::DeleteChar)
        } else if str_eq(action, "delete_char_forward") {
            Some(EditorAction::DeleteCharForward)
        } else if str_eq(action, "delete_word_backward") {
            Some(EditorAction::DeleteWordBackward)
        } else if str_eq(action, "insert_tab") {
            Some(EditorAction::InsertTab)
        } else if str_eq(action, "append_command") {
            Some(EditorAction::AppendCommand)
        } else if str_eq(action, "delete_command_char") {
            Some(EditorAction::DeleteCommandChar)
        } else if str_eq(action, "execute_command") {
            Some(EditorAction::ExecuteCommand)
        } else if str_eq(action, "append_search") {
            Some(EditorAction::AppendSearch)
        } else if str_eq(action, "delete_search_char") {
            Some(EditorAction::DeleteSearchChar)
        } else if str_eq(action, "execute_search") {
            Some(EditorAction::ExecuteSearch)
        } else if str_eq(action, "delete_selection") {
            Some(EditorAction::DeleteSelection)
        } else if str_eq(action, "yank_selection") {
            Some(EditorAction::YankSelection)
        } else if str_eq(action, "change_selection") {
            Some(EditorAction::ChangeSelection)
        } else if str_eq(action, "replace_char") {
            Some(EditorAction::ReplaceChar)
        } else if str_eq(action, "scroll_down_line") {
            Some(EditorAction::ScrollDownLine)
        } else if str_eq(action, "scroll_up_line") {
            Some(EditorAction::ScrollUpLine)
        } else if str_eq(action, "scroll_down_page") {
            Some(EditorAction::ScrollDownPage)
        } else if str_eq(action, "scroll_up_page") {
            Some(EditorAction::ScrollUpPage)
        } else if str_eq(action, "scroll_down_half_page") {
            Some(EditorAction::ScrollDownHalfPage)
        } else if str_eq(action, "scroll_up_half_page") {
            Some(EditorAction::ScrollUpHalfPage)
        } else if str_eq(action, "center_cursor") {
            Some(EditorAction::CenterCursor)
        } else if str_eq(action, "cursor_to_top") {
            Some(EditorAction::CursorToTop)
        } else if str_eq(action, "cursor_to_bottom") {
            Some(EditorAction::CursorToBottom)
        } else if str_eq(action, "split_horizontal") {
            Some(EditorAction::SplitHorizontal)
        } else if str_eq(action, "split_vertical") {
            Some(EditorAction::SplitVertical)
        } else if str_eq(action, "split_horizontal_above") {
            Some(EditorAction::SplitHorizontalAbove)
        } else if str_eq(action, "split_horizontal_below") {
            Some(EditorAction::SplitHorizontalBelow)
        } else if str_eq(action, "split_vertical_left") {
            Some(EditorAction::SplitVerticalLeft)
        } else if str_eq(action, "split_vertical_right") {
            Some(EditorAction::SplitVerticalRight)
        } else if str_eq(action, "close_window") {
            Some(EditorAction::CloseWindow)
        } else if str_eq(action, "window_left") {
            Some(EditorAction::WindowLeft)
        } else if str_eq(action, "window_right") {
            Some(EditorAction::WindowRight)
        } else if str_eq(action, "window_up") {
            Some(EditorAction::WindowUp)
        } else if str_eq(action, "window_down") {
            Some(EditorAction::WindowDown)
        } else if str_eq(action, "cycle_suggestion") {
            Some(EditorAction::CycleSuggestion)
        } else if str_eq(action, "accept_suggestion") {
            Some(EditorAction::AcceptSuggestion)
        } else if str_eq(action, "resize_window_wider") {
            Some(EditorAction::ResizeWindowWider)
        } else if str_eq(action, "resize_window_narrower") {
            Some(EditorAction::ResizeWindowNarrower)
        } else if str_eq(action, "resize_window_taller") {
            Some(EditorAction::ResizeWindowTaller)
        } else if str_eq(action, "resize_window_shorter") {
            Some(EditorAction::ResizeWindowShorter)
        } else {
            None
        }
    }

    /// Reads the command line (`:w`, `:e file`, `:b 2`, `:set ...`) as an Ex command.
    pub fn parse_ex_command(command_line: &str) -> (r: ExCommand)
        ensures
            ex_command_of(strip_colons(command_line@), r),
    {
        let cs = text::chars_of(command_line);
        let mut from: usize = 0;
        assert(cs@.skip(0) =~= cs@);
        while from < cs.len() && cs[from] == ':'
            invariant
                from <= cs@.len(),
                cs@ == command_line@,
                strip_colons(cs@.skip(from as int)) == strip_colons(command_line@),
            decreases cs@.len() - from,
        {
            assert(cs@.skip(from as int).drop_first() =~= cs@.skip(from + 1));
            from = from + 1;
        }
        proof {
            if from < cs@.len() {
                assert(cs@.skip(from as int)[0] == cs@[from as int]);
            }
            assert(strip_colons(cs@.skip(from as int)) == cs@.skip(from as int));
        }
        let command = text::substring(command_line, from, cs.len());
        assert(command@ =~= cs@.skip(from as int));
        let c = command.as_str();
        if str_eq(c, "q") || str_eq(c, "quit") {
            ExCommand::Quit
        } else if str_eq(c, "q!") || str_eq(c, "quit!") {
            ExCommand::ForceQuit
        } else if str_eq(c, "w") || str_eq(c, "write") {
            ExCommand::Write
        } else if str_eq(c, "wq") || str_eq(c, "x") {
            ExCommand::WriteQuit
        } else if str_eq(c, "set nu") || str_eq(c, "set number") {
            ExCommand::LineNumbers(true, false)
        } else if str_eq(c, "set nonu") || str_eq(c, "set nonumber") {
            ExCommand::LineNumbers(false, false)
        } else if str_eq(c, "set rnu") || str_eq(c, "set relativenumber") {
            ExCommand::LineNumbers(false, true)
        } else if str_eq(c, "set nornu") || str_eq(c, "set norelativenumber") {
            ExCommand::LineNumbers(true, false)
        } else if str_eq(c, "set nu rnu") || str_eq(c, "set number relativenumber") {
            ExCommand::LineNumbers(true, true)
        } else if str_eq(c, "set cul") || str_eq(c, "set cursorline") {
            ExCommand::CursorLine(true)
        } else if str_eq(c, "set nocul") || str_eq(c, "set nocursorline") {
            ExCommand::CursorLine(false)
        } else if str_eq(c, "bn") || str_eq(c, "bnext") {
            ExCommand::BufferNext
        } else if str_eq(c, "bp") || str_eq(c, "bprev") || str_eq(c, "bprevious") {
            ExCommand::BufferPrevious
        } else if str_eq(c, "bd") || str_eq(c, "bdelete") {
            ExCommand::BufferDelete
        } else if str_eq(c, "bd!") || str_eq(c, "bdelete!") {
            ExCommand::BufferForceDelete
        } else if str_eq(c, "ls") || str_eq(c, "buffers") {
            ExCommand::ListBuffers
        } else if str_eq(c, "split") || str_eq(c, "sp") {
            ExCommand::Split
        } else if str_eq(c, "vsplit") || str_eq(c, "vsp") {
            ExCommand::VSplit
        } else if str_eq(c, "close") {
            ExCommand::Close
        } else {
            let cc = text::chars_of(c);
            let n = cc.len();
            if n >= 2 && cc[0] == 'e' && cc[1] == ' ' {
                assert(cc@.take(2) =~= seq!['e', ' ']);
                let rest = text::substring(c, 2, n);
                assert(rest@ =~= c@.skip(2));
                ExCommand::Edit(text::trim_str(rest.as_str()))
            } else if n >= 2 && cc[0] == 'b' && cc[1] == ' ' {
                assert(cc@.take(2) =~= seq!['b', ' ']);
                let rest = text::substring(c, 2, n);
                assert(rest@ =~= c@.skip(2));
                let name = text::trim_str(rest.as_str());
                match digits::parse_usize(name.as_str()) {
                    Some(id) => ExCommand::SwitchBuffer(id),
                    None => ExCommand::SwitchBufferByName(name),
                }
            } else if n >= 4 && cc[0] == 's' && cc[1] == 'e' && cc[2] == 't' && cc[3] == ' ' {
                assert(cc@.take(4) =~= seq!['s', 'e', 't', ' ']);
                let rest = text::substring(c, 4, n);
                assert(rest@ =~= c@.skip(4));
                ExCommand::SetOptions(rest)
            } else {
                proof {
                    if begins_with(c@, seq!['e', ' ']) {
                        assert(c@.take(2)[0] == 'e' && c@.take(2)[1] == ' ');
                    }
                    if begins_with(c@, seq!['b', ' ']) {
                        assert(c@.take(2)[0] == 'b' && c@.take(2)[1] == ' ');
                    }
                    if begins_with(c@, seq!['s', 'e', 't', ' ']) {
                        assert(c@.take(4)[0] == 's' && c@.take(4)[3] == ' ');
                    }
                }
                ExCommand::Unknown(command)
            }
        }
    }

    fn line_numbers_text(absolute: bool, relative: bool) -> (s: &'static str)
        ensures
            s@ == line_number_message(absolute, relative),
    {
        if absolute && relative {
            "Hybrid line numbers enabled"
        } else if absolute {
            "Absolute line numbers enabled"
        } else if relative {
            "Relative line numbers enabled"
        } else {
            "Line numbers disabled"
        }
    }

    /// Switches a flag on or off as `:set name` and `:set noname` do.
    fn switch_flag(config: &mut EditorConfig, k: Setting, b: bool) -> (r: SetOutcome)
        requires
            config::is_flag(k),
        ensures
            flag_done(*old(config), *final(config), k, b, r),
    {
        let absolute = config.display.show_line_numbers;
        let relative = config.display.show_relative_numbers;
        config.set_flag(k, b);
        let message = match k {
            Setting::Number => Some(owned(Self::line_numbers_text(b, relative))),
            Setting::RelativeNumber => Some(owned(Self::line_numbers_text(absolute, b))),
            Setting::CursorLine => Some(
                owned(
                    if b {
                        "Cursor line highlighting enabled"
                    } else {
                        "Cursor line highlighting disabled"
                    },
                ),
            ),
            _ => if b {
                Some(concat(config::flag_label_text(k), " enabled"))
            } else {
                None
            },
        };
        SetOutcome { message, applied: Some((owned(config::name_of_setting(k)), digits::bool_string(b))) }
    }

    fn count_set_text(k: Setting, v: &str) -> (s: String)
        ensures
            s@ == count_set_message(k, v@),
    {
        match k {
            Setting::TabStop => concat("Tab width set to ", v),
            Setting::UndoLevels => concat("Undo levels set to ", v),
            Setting::ScrollOff => concat("Scroll offset set to ", v),
            Setting::SideScrollOff => concat("Side scroll offset set to ", v),
            _ => {
                let head = concat("Command timeout set to ", v);
                concat(head.as_str(), " ms")
            },
        }
    }

    fn count_invalid_text(k: Setting) -> (s: &'static str)
        ensures
            s@ == count_invalid_message(k),
    {
        match k {
            Setting::TabStop => "Invalid tab width value",
            Setting::UndoLevels => "Invalid undo levels value",
            Setting::ScrollOff => "Invalid scroll offset value",
            Setting::SideScrollOff => "Invalid side scroll offset value",
            _ => "Invalid timeout value",
        }
    }

    fn value_or_empty(config: &EditorConfig, name: &str) -> (s: String)
        ensures
            s@ == shown_value(*config, name@),
    {
        match config.get_config_value(name) {
            Some(v) => v,
            None => String::new(),
        }
    }

    fn labelled(label: &str, config: &EditorConfig, name: &str) -> (s: String)
        ensures
            s@ == label@ + shown_value(*config, name@),
    {
        let v = Self::value_or_empty(config, name);
        concat(label, v.as_str())
    }

    fn current_settings(config: &EditorConfig) -> (s: String)
        ensures
            s@ == current_settings_message(*config),
    {
        let mut items: Vec<String> = Vec::new();
        items.push(Self::labelled("number: ", config, "number"));
        items.push(Self::labelled("relativenumber: ", config, "relativenumber"));
        items.push(Self::labelled("cursorline: ", config, "cursorline"));
        items.push(Self::labelled("tabstop: ", config, "tabstop"));
        items.push(Self::labelled("expandtab: ", config, "expandtab"));
        let joined = text::join_with(&items, ", ");
        assert(text::seqs(items@) =~= seq![
            "number: "@ + shown_value(*config, "number"@),
            "relativenumber: "@ + shown_value(*config, "relativenumber"@),
            "cursorline: "@ + shown_value(*config, "cursorline"@),
            "tabstop: "@ + shown_value(*config, "tabstop"@),
            "expandtab: "@ + shown_value(*config, "expandtab"@),
        ]);
        concat("Current settings: ", joined.as_str())
    }

    fn all_settings(config: &EditorConfig) -> (s: String)
        ensures
            s@ == "All settings: "@ + text::join(name_values(*config, listed_settings()), " | "@),
    {
        let all_settings = [
            "number", "relativenumber", "cursorline", "tabstop", "expandtab", "autoindent", "ignorecase",
            "smartcase", "hlsearch", "incsearch", "wrap", "linebreak", "undolevels", "undofile", "backup",
            "swapfile", "autosave", "laststatus", "showcmd", "scrolloff", "sidescrolloff", "timeoutlen",
            "colorscheme", "syntax",
        ];
        assert(all_settings@ == listed_settings());
        let mut all_values: Vec<String> = Vec::new();
        let mut i: usize = 0;
        while i < all_settings.len()
            invariant
                i <= all_settings@.len(),
                all_settings@ == listed_settings(),
                text::seqs(all_values@) == name_values(*config, listed_settings().take(i as int)),
            decreases all_settings@.len() - i,
        {
            let setting = all_settings[i];
            let ghost before = all_values@;
            assert(listed_settings().take(i + 1).drop_last() =~= listed_settings().take(i as int));
            match config.get_config_value(setting) {
                Some(value) => {
                    let head = concat(setting, "=");
                    let item = concat(head.as_str(), value.as_str());
                    all_values.push(item);
                    proof {
                        text::lemma_seqs_push(before, item);
                    }
                },
                None => {
                    assert(text::seqs(before) + Seq::<Seq<char>>::empty() =~= text::seqs(before));
                },
            }
            i = i + 1;
        }
        assert(listed_settings().take(all_settings@.len() as int) =~= listed_settings());
        let joined = text::join_with(&all_values, " | ");
        concat("All settings: ", joined.as_str())
    }

    /// Handle generic :set commands: `:set` (the main settings), `:set all`,
    /// `:set name?`, `:set noname`, `:set name=value` and `:set name`.
    pub fn handle_set_command(&self, config: &mut EditorConfig, args: &str) -> (r: SetOutcome)
        ensures
            set_command_done(*old(config), *final(config), args@, r),
    {
        let trimmed = text::trim_str(args);
        let a = trimmed.as_str();
        let cs = text::chars_of(a);
        let n = cs.len();
        if n == 0 {
            return SetOutcome { message: Some(Self::current_settings(config)), applied: None };
        }
        if str_eq(a, "all") {
            return SetOutcome { message: Some(Self::all_settings(config)), applied: None };
        }
        if cs[n - 1] == '?' {
            let name = text::substring(a, 0, n - 1);
            assert(name@ =~= a@.drop_last());
            let message = match config.get_config_value(name.as_str()) {
                Some(v) => {
                    let head = concat(name.as_str(), ": ");
                    concat(head.as_str(), v.as_str())
                },
                None => concat("Unknown setting: ", name.as_str()),
            };
            return SetOutcome { message: Some(message), applied: None };
        }
        if n >= 2 && cs[0] == 'n' && cs[1] == 'o' {
            assert(a@.take(2) =~= seq!['n', 'o']);
            let name = text::substring(a, 2, n);
            assert(name@ =~= a@.skip(2));
            if let Some(k) = config::setting_from_name(name.as_str()) {
                if config::setting_is_flag(k) {
                    return Self::switch_flag(config, k, false);
                }
            }
            return SetOutcome { message: Some(concat("Unknown option: no", name.as_str())), applied: None };
        }
        proof {
            if begins_with(a@, seq!['n', 'o']) {
                assert(a@.take(2)[0] == 'n' && a@.take(2)[1] == 'o');
            }
        }
        let mut eq: usize = 0;
        while eq < n && cs[eq] != '='
            invariant
                eq <= n,
                n == cs@.len(),
                cs@ == a@,
                find_char(a@, '=', eq as int) == find_char(a@, '=', 0),
            decreases n - eq,
        {
            eq = eq + 1;
        }
        if eq < n {
            let name = text::substring(a, 0, eq);
            let value = text::substring(a, eq + 1, n);
            assert(name@ =~= a@.take(eq as int));
            assert(value@ =~= a@.skip(eq + 1));
            let key_name = text::trim_str(name.as_str());
            let found = config::setting_from_name(key_name.as_str());
            if let Some(k) = found {
                if config::setting_is_count(k) {
                    let parsed: Option<u64> = if k == Setting::TimeoutLen {
                        digits::parse_u64(value.as_str())
                    } else {
                        match digits::parse_usize(value.as_str()) {
                            Some(v) => Some(v as u64),
                            None => None,
                        }
                    };
                    return match parsed {
                        Some(v) => {
                            config.set_count(k, v);
                            SetOutcome {
                                message: Some(Self::count_set_text(k, value.as_str())),
                                applied: Some((owned(config::name_of_setting(k)), value)),
                            }
                        },
                        None => SetOutcome { message: Some(owned(Self::count_invalid_text(k))), applied: None },
                    };
                }
                if k == Setting::ColorScheme {
                    config.display.color_scheme = owned(value.as_str());
                    return SetOutcome {
                        message: Some(concat("Color scheme set to ", value.as_str())),
                        applied: Some((owned(config::name_of_setting(k)), value)),
                    };
                }
            }
            return SetOutcome { message: Some(concat("Unknown setting: ", name.as_str())), applied: None };
        }
        if let Some(k) = config::setting_from_name(a) {
            if config::setting_is_flag(k) {
                return Self::switch_flag(config, k, true);
            }
        }
        SetOutcome { message: Some(concat("Unknown option: ", a)), applied: None }
    }

    /// Moves the cursor one character left, unless it is at the start of the line.
    pub fn action_cursor_left(&self, buffer: &mut Buffer)
        ensures
            final(buffer).only_cursor_moved(old(buffer)),
            final(buffer).cursor.row == old(buffer).cursor.row,
            final(buffer).cursor.col == if old(buffer).cursor.col > 0 {
                old(buffer).cursor.col - 1
            } else {
                0
            },
    {
        if buffer.cursor.col > 0 {
            buffer.cursor.col = buffer.cursor.col - 1;
        }
    }

    /// The cursor one character right, not past the end of its line.
    pub open spec fn right_of(b: Buffer) -> Position {
        if b.cursor.row < b.lines@.len() && b.cursor.col < b.text()[b.cursor.row as int].len() {
            Position { row: b.cursor.row, col: (b.cursor.col + 1) as usize }
        } else {
            b.cursor
        }
    }

    /// Moves the cursor one character right, not past the end of its line.
    pub fn action_cursor_right(&self, buffer: &mut Buffer)
        ensures
            final(buffer).only_cursor_moved(old(buffer)),
            final(buffer).cursor == Self::right_of(*old(buffer)),
    {
        let row = buffer.cursor.row;
        if row < buffer.lines.len() {
            let len = text::char_len(buffer.lines[row].as_str());
            if buffer.cursor.col < len {
                buffer.cursor.col = buffer.cursor.col + 1;
            }
        }
    }

    /// The cursor moved to `row`, its column clamped to that line's length.
    pub open spec fn on_row(b: Buffer, row: int) -> Position {
        Position {
            row: row as usize,
            col: if row < b.lines@.len() {
                text::min_int(b.cursor.col as int, b.text()[row].len() as int) as usize
            } else {
                b.cursor.col
            },
        }
    }

    fn to_row(buffer: &mut Buffer, row: usize)
        ensures
            final(buffer).only_cursor_moved(old(buffer)),
            final(buffer).cursor == Self::on_row(*old(buffer), row as int),
    {
        buffer.cursor.row = row;
        if row < buffer.lines.len() {
            let len = text::char_len(buffer.lines[row].as_str());
            if len < buffer.cursor.col {
                buffer.cursor.col = len;
            }
        }
    }

    /// Moves the cursor one line up, keeping its column where the line is long enough.
    pub fn action_cursor_up(&self, buffer: &mut Buffer)
        ensures
            final(buffer).only_cursor_moved(old(buffer)),
            final(buffer).cursor == if old(buffer).cursor.row > 0 {
                Self::on_row(*old(buffer), old(buffer).cursor.row - 1)
            } else {
                old(buffer).cursor
            },
    {
        if buffer.cursor.row > 0 {
            let row = buffer.cursor.row - 1;
            Self::to_row(buffer, row);
        }
    }

    /// Moves the cursor one line down, unless it is on the last line.
    pub fn action_cursor_down(&self, buffer: &mut Buffer)
        requires
            old(buffer).lines@.len() > 0,
        ensures
            final(buffer).only_cursor_moved(old(buffer)),
            final(buffer).cursor == if old(buffer).cursor.row < old(buffer).lines@.len() - 1 {
                Self::on_row(*old(buffer), old(buffer).cursor.row + 1)
            } else {
                old(buffer).cursor
            },
    {
        if buffer.cursor.row < buffer.lines.len() - 1 {
            let row = buffer.cursor.row + 1;
            Self::to_row(buffer, row);
        }
    }

    /// Moves the cursor to the start of its line.
    pub fn action_line_start(&self, buffer: &mut Buffer)
        ensures
            final(buffer).only_cursor_moved(old(buffer)),
            final(buffer).cursor == (Position { row: old(buffer).cursor.row, col: 0 }),
    {
        buffer.cursor.col = 0;
    }

    /// The cursor at the end of line `row`, if there is such a line.
    pub open spec fn line_end_of(b: Buffer, row: int) -> Position {
        if row < b.lines@.len() {
            Position { row: row as usize, col: b.text()[row].len() as usize }
        } else {
            Position { row: row as usize, col: b.cursor.col }
        }
    }

    /// Moves the cursor past the last character of its line.
    pub fn action_line_end(&self, buffer: &mut Buffer)
        ensures
            final(buffer).only_cursor_moved(old(buffer)),
            final(buffer).cursor == Self::line_end_of(*old(buffer), old(buffer).cursor.row as int),
    {
        let row = buffer.cursor.row;
        if row < buffer.lines.len() {
            buffer.cursor.col = text::char_len(buffer.lines[row].as_str());
        }
    }

    /// Moves the cursor to the start of the buffer.
    pub fn action_buffer_start(&self, buffer: &mut Buffer)
        ensures
            final(buffer).only_cursor_moved(old(buffer)),
            final(buffer).cursor == (Position { row: 0, col: 0 }),
    {
        buffer.cursor.row = 0;
        buffer.cursor.col = 0;
    }

    /// Moves the cursor past the last character of the last line.
    pub fn action_buffer_end(&self, buffer: &mut Buffer)
        ensures
            final(buffer).only_cursor_moved(old(buffer)),
            final(buffer).cursor == Self::line_end_of(
                *old(buffer),
                if old(buffer).lines@.len() > 0 {
                    old(buffer).lines@.len() - 1
                } else {
                    0
                },
            ),
    {
        let row = if buffer.lines.len() > 0 {
            buffer.lines.len() - 1
        } else {
            0
        };
        buffer.cursor.row = row;
        if row < buffer.lines.len() {
            buffer.cursor.col = text::char_len(buffer.lines[row].as_str());
        }
    }

    /// The text and cursor changed as given, and the buffer is marked modified.
    pub open spec fn edited(before: Buffer, after: Buffer, t: Seq<Seq<char>>, c: Position) -> bool {
        &&& after.text() == t
        &&& after.cursor == c
        &&& after.modified
        &&& after.keeps_rest(&before)
    }

    /// Opens an empty line below the cursor line and moves to it (`o`).
    pub fn action_insert_line_below(&self, buffer: &mut Buffer)
        requires
            old(buffer).cursor.row < old(buffer).lines@.len(),
        ensures
            Self::edited(
                *old(buffer),
                *final(buffer),
                old(buffer).text().insert(old(buffer).cursor.row + 1, Seq::empty()),
                Position { row: (old(buffer).cursor.row + 1) as usize, col: 0 },
            ),
    {
        let row = buffer.cursor.row;
        let _n = buffer.lines.len();
        let ghost before = buffer.lines@;
        let empty = String::new();
        let ghost e = empty;
        buffer.lines.insert(row + 1, empty);
        proof {
            text::lemma_seqs_insert(before, row + 1, e);
        }
        buffer.cursor.row = row + 1;
        buffer.cursor.col = 0;
        buffer.modified = true;
    }

    /// Opens an empty line above the cursor line; the cursor stays on the same row (`O`).
    pub fn action_insert_line_above(&self, buffer: &mut Buffer)
        requires
            old(buffer).cursor.row <= old(buffer).lines@.len(),
        ensures
            Self::edited(
                *old(buffer),
                *final(buffer),
                old(buffer).text().insert(old(buffer).cursor.row as int, Seq::empty()),
                Position { row: old(buffer).cursor.row, col: 0 },
            ),
    {
        let row = buffer.cursor.row;
        let ghost before = buffer.lines@;
        let empty = String::new();
        let ghost e = empty;
        buffer.lines.insert(row, empty);
        proof {
            text::lemma_seqs_insert(before, row as int, e);
        }
        buffer.cursor.col = 0;
        buffer.modified = true;
    }

    /// What `action_delete_char_forward` does: the character under the cursor is removed, if there is one.
    pub open spec fn deletes_forward(before: Buffer, after: Buffer) -> bool {
        &&& ({
            let b = before;
            if b.cursor.row < b.lines@.len() && b.cursor.col < b.text()[b.cursor.row as int].len() {
                Self::edited(
                    b,
                    after,
                    b.text().update(b.cursor.row as int, b.text()[b.cursor.row as int].remove(b.cursor.col as int)),
                    b.cursor,
                )
            } else {
                after == b
            }
        })
    }

    /// Deletes the character under the cursor (insert mode `Delete`), if there is one.
    pub fn action_delete_char_forward(&self, buffer: &mut Buffer)
        ensures
            Self::deletes_forward(*old(buffer), *final(buffer)),
    {
        let row = buffer.cursor.row;
        if row < buffer.lines.len() {
            let col = buffer.cursor.col;
            let len = text::char_len(buffer.lines[row].as_str());
            if col < len {
                let line = text::remove_char_at(buffer.lines[row].as_str(), col);
                buffer.set_line(row, line);
                buffer.modified = true;
            }
        }
    }

    /// Where deleting a word backward from `col` stops: back over whitespace, then
    /// back over the word before it.
    pub open spec fn word_back_start(l: Seq<char>, col: int) -> int {
        back_ws_run(l, back_ws_run(l, col, true), false)
    }

    /// What `action_delete_word_backward` does: the text from the start of the word left of the cursor up to the cursor is removed.
    pub open spec fn deletes_word_backward(before: Buffer, after: Buffer) -> bool {
        &&& ({
            let b = before;
            let l = b.text()[b.cursor.row as int];
            let p = Self::word_back_start(l, b.cursor.col as int);
            if b.cursor.row < b.lines@.len() && b.cursor.col > 0 {
                Self::edited(
                    b,
                    after,
                    b.text().update(b.cursor.row as int, l.take(p) + l.skip(b.cursor.col as int)),
                    Position { row: b.cursor.row, col: p as usize },
                )
            } else {
                after == b
            }
        })
    }

    /// Deletes the word before the cursor (insert mode `Ctrl+w`).
    pub fn action_delete_word_backward(&self, buffer: &mut Buffer)
        requires
            old(buffer).cursor.row < old(buffer).lines@.len() ==> old(buffer).cursor.col <= old(
                buffer,
            ).text()[old(buffer).cursor.row as int].len(),
        ensures
            Self::deletes_word_backward(*old(buffer), *final(buffer)),
    {
        let row = buffer.cursor.row;
        if row < buffer.lines.len() && buffer.cursor.col > 0 {
            let col = buffer.cursor.col;
            let chars = text::chars_of(buffer.lines[row].as_str());
            let ws_start = crate::text_objects::TextObjectFinder::back_whitespace(&chars, col, true);
            let pos = crate::text_objects::TextObjectFinder::back_whitespace(&chars, ws_start, false);
            let line = buffer.lines[row].as_str();
            let head = text::substring(line, 0, pos);
            let tail = text::substring(line, col, chars.len());
            let joined = concat(head.as_str(), tail.as_str());
            assert(joined@ =~= chars@.take(pos as int) + chars@.skip(col as int));
            buffer.set_line(row, joined);
            buffer.cursor.col = pos;
            buffer.modified = true;
        }
    }

    /// What `action_replace_char` does: the character under the cursor becomes `ch` and the cursor steps right within the line.
    pub open spec fn replaces_char(before: Buffer, after: Buffer, ch: char) -> bool {
        &&& ({
            let b = before;
            let l = b.text()[b.cursor.row as int];
            if b.cursor.row < b.lines@.len() && b.cursor.col < l.len() {
                Self::edited(
                    b,
                    after,
                    b.text().update(b.cursor.row as int, l.update(b.cursor.col as int, ch)),
                    Position {
                        row: b.cursor.row,
                        col: if b.cursor.col + 1 < l.len() {
                            (b.cursor.col + 1) as usize
                        } else {
                            b.cursor.col
                        },
                    },
                )
            } else {
                after == b
            }
        })
    }

    /// Replaces the character under the cursor with `ch` and steps right (replace mode).
    pub fn action_replace_char(&self, buffer: &mut Buffer, ch: char)
        ensures
            Self::replaces_char(*old(buffer), *final(buffer), ch),
    {
        let row = buffer.cursor.row;
        if row < buffer.lines.len() {
            let col = buffer.cursor.col;
            let len = text::char_len(buffer.lines[row].as_str());
            if col < len {
                let removed = text::remove_char_at(buffer.lines[row].as_str(), col);
                let line = text::insert_char_at(removed.as_str(), col, ch);
                let ghost l = buffer.text()[row as int];
                assert(line@ =~= l.update(col as int, ch));
                buffer.set_line(row, line);
                if col + 1 < len {
                    buffer.cursor.col = col + 1;
                }
                buffer.modified = true;
            }
        }
    }

    /// `a`: moves the cursor one character right (not past the end of its line) and
    /// enters insert mode.
    pub fn action_insert_after(&self, buffer: &mut Buffer) -> (m: Mode)
        ensures
            final(buffer).only_cursor_moved(old(buffer)),
            final(buffer).cursor == Self::right_of(*old(buffer)),
            m == Mode::Insert,
    {
        self.action_cursor_right(buffer);
        Mode::Insert
    }

    /// `A`: moves the cursor past the end of its line and enters insert mode.
    pub fn action_insert_line_end(&self, buffer: &mut Buffer) -> (m: Mode)
        ensures
            final(buffer).only_cursor_moved(old(buffer)),
            final(buffer).cursor == Self::line_end_of(*old(buffer), old(buffer).cursor.row as int),
            m == Mode::Insert,
    {
        self.action_line_end(buffer);
        Mode::Insert
    }

    /// `I`: moves the cursor to the start of its line and enters insert mode.
    pub fn action_insert_line_start(&self, buffer: &mut Buffer) -> (m: Mode)
        ensures
            final(buffer).only_cursor_moved(old(buffer)),
            final(buffer).cursor == (Position { row: old(buffer).cursor.row, col: 0 }),
            m == Mode::Insert,
    {
        self.action_line_start(buffer);
        Mode::Insert
    }

    /// Types a character key at the cursor; other keys are ignored.
    pub fn action_insert_char(&self, buffer: &mut Buffer, key: KeyInput)
        requires
            key.code matches KeyCode::Char(_) ==> crate::engine::buffer::ins_char_ok(old(buffer).state()),
        ensures
            key.code matches KeyCode::Char(ch) ==> final(buffer).state() == crate::engine::buffer::ins_char(
                old(buffer).state(),
                ch,
            ) && final(buffer).modified,
            !(key.code is Char) ==> *final(buffer) == *old(buffer),
    {
        if let KeyCode::Char(ch) = key.code {
            buffer.insert_char(ch);
        }
    }

    /// Appends a typed character to the command line; other keys are ignored.
    pub fn action_append_command(&self, command_line: &mut String, key: KeyInput)
        ensures
            final(command_line)@ == match key.code {
                KeyCode::Char(ch) => old(command_line)@.push(ch),
                _ => old(command_line)@,
            },
    {
        if let KeyCode::Char(ch) = key.code {
            push_char(command_line, ch);
        }
    }

    /// Removes the last character of the command line, keeping the text when it is at
    /// most one byte long (the `:` that opened it).
    pub fn action_delete_command_char(&self, command_line: &mut String)
        ensures
            final(command_line)@ == if more_than_one_byte(old(command_line)@) {
                old(command_line)@.drop_last()
            } else {
                old(command_line)@
            },
    {
        let cs = text::chars_of(command_line.as_str());
        let n = cs.len();
        if n >= 2 || (n == 1 && (cs[0] as u32) >= 0x80) {
            *command_line = text::string_from_chars(&cs.as_slice()[0..n - 1]);
            assert(command_line@ =~= old(command_line)@.drop_last());
        }
    }

    /// Appends a typed character to the search text; other keys are ignored.
    pub fn action_append_search(&self, search: &mut String, key: KeyInput)
        ensures
            final(search)@ == match key.code {
                KeyCode::Char(ch) => old(search)@.push(ch),
                _ => old(search)@,
            },
    {
        self.action_append_command(search, key)
    }

    /// Removes the last character of the search text, keeping the text when it is at
    /// most one byte long (the `/` that opened it).
    pub fn action_delete_search_char(&self, search: &mut String)
        ensures
            final(search)@ == if more_than_one_byte(old(search)@) {
                old(search)@.drop_last()
            } else {
                old(search)@
            },
    {
        self.action_delete_command_char(search)
    }

    /// Ends a search: the text after the leading `/` is the term to search for (none
    /// when it is empty), the command line is cleared and normal mode resumes.
    pub fn action_execute_search(&self, command_line: &mut String) -> (r: (Option<String>, Mode))
        requires
            old(command_line)@.len() > 0,
            (old(command_line)@[0] as u32) < 0x80,
        ensures
            final(command_line)@.len() == 0,
            r.1 == Mode::Normal,
            old(command_line)@.len() > 1 ==> (r.0 matches Some(t) && t@ == old(command_line)@.drop_first()),
            old(command_line)@.len() == 1 ==> r.0 is None,
    {
        let n = text::char_len(command_line.as_str());
        let term = text::substring(command_line.as_str(), 1, n);
        *command_line = String::new();
        if n > 1 {
            assert(term@ =~= old(command_line)@.drop_first());
            (Some(term), Mode::Normal)
        } else {
            (None, Mode::Normal)
        }
    }
}

} // verus!
