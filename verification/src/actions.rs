//! Running the action a key is bound to on the editor: most act on the current buffer,
//! the others change the mode, the command line or the editor as a whole.
use crate::commands::CommandStep;
use crate::editor::{at_id, Editor};
use crate::engine::buffer::{del_char_ok, ins_char_ok, line_break_ok, reapply_ok, unapply_ok, Buffer, YankType};
use crate::keymap::{
    action_named, ex_command_of, extends_some_key, key_name, leaves_command_mode, lookup, mode_action, mode_bindings,
    more_than_one_byte, normal_sequence, strip_colons, EditorAction, ExCommand, KeyCode, KeyHandler, KeyInput,
    KeyOutcome,
};
use crate::mode::{Mode, Position};
use crate::text;
use crate::text::owned;
use vstd::prelude::*;

verus! {

/// Only the cursor moved, and it moved to `p`.
pub open spec fn moved_to(a: Buffer, b: Buffer, p: Position) -> bool {
    b.only_cursor_moved(&a) && b.cursor == p
}

/// The actions that work on the current buffer (and do nothing without one).
pub open spec fn on_buffer(action: EditorAction) -> bool {
    match action {
        EditorAction::CursorLeft | EditorAction::CursorRight | EditorAction::CursorUp | EditorAction::CursorDown
        | EditorAction::WordForward | EditorAction::WordBackward | EditorAction::WordEnd
        | EditorAction::DeleteCharAtCursor | EditorAction::DeleteCharBeforeCursor | EditorAction::DeleteLine
        | EditorAction::YankLine | EditorAction::YankWord | EditorAction::YankToEndOfLine | EditorAction::PutAfter
        | EditorAction::PutBefore | EditorAction::LineStart | EditorAction::LineEnd | EditorAction::BufferStart
        | EditorAction::BufferEnd | EditorAction::InsertLineStart | EditorAction::InsertAfter
        | EditorAction::InsertLineEnd | EditorAction::InsertLineBelow | EditorAction::InsertLineAbove
        | EditorAction::Undo | EditorAction::Redo | EditorAction::InsertChar | EditorAction::NewLine
        | EditorAction::DeleteChar | EditorAction::DeleteCharForward | EditorAction::DeleteWordBackward
        | EditorAction::InsertTab | EditorAction::ReplaceChar => true,
        _ => false,
    }
}

/// What a buffer action asks of the buffer (the operations it calls would fail
/// otherwise).
pub open spec fn buffer_allows(action: EditorAction, key: KeyInput, a: Buffer) -> bool {
    let row = a.cursor.row;
    let col = a.cursor.col;
    match action {
        EditorAction::CursorDown => a.lines@.len() > 0,
        EditorAction::WordBackward | EditorAction::DeleteCharBeforeCursor => col > 0 ==> row < a.lines@.len(),
        EditorAction::PutAfter => {
            &&& a.clipboard.yank_type == YankType::Line ==> row < usize::MAX
            &&& a.clipboard.yank_type != YankType::Line ==> row < a.lines@.len()
            &&& a.clipboard.yank_type == YankType::Character ==> a.clipboard.text@.len() > 0 || a.text()[row as int].len()
                > 0
        },
        EditorAction::PutBefore => {
            &&& a.clipboard.yank_type == YankType::Line ==> row <= a.lines@.len()
            &&& a.clipboard.yank_type != YankType::Line && row < a.lines@.len() ==> col <= a.text()[row as int].len()
            &&& a.clipboard.yank_type == YankType::Character && row < a.lines@.len() ==> a.clipboard.text@.len() > 0
        },
        EditorAction::InsertLineBelow => row < a.lines@.len(),
        EditorAction::InsertLineAbove => row <= a.lines@.len(),
        EditorAction::Undo => a.undo_stack@.len() > 0 ==> unapply_ok(a.text(), a.undo_stack@.last().operations@),
        EditorAction::Redo => a.redo_stack@.len() > 0 ==> reapply_ok(a.text(), a.redo_stack@.last().operations@),
        EditorAction::InsertChar => key.code is Char ==> ins_char_ok(a.state()),
        EditorAction::NewLine => line_break_ok(a.state()),
        EditorAction::DeleteChar => del_char_ok(a.state()),
        EditorAction::DeleteWordBackward => row < a.lines@.len() ==> col <= a.text()[row as int].len(),
        EditorAction::InsertTab => ins_char_ok(a.state()),
        _ => true,
    }
}

/// What a buffer action does to the buffer `a`, giving `b`.
pub open spec fn buffer_step(action: EditorAction, key: KeyInput, a: Buffer, b: Buffer) -> bool {
    let row = a.cursor.row;
    match action {
        EditorAction::CursorLeft => moved_to(
            a,
            b,
            Position { row, col: if a.cursor.col > 0 { (a.cursor.col - 1) as usize } else { 0 } },
        ),
        EditorAction::CursorRight | EditorAction::InsertAfter => moved_to(a, b, KeyHandler::right_of(a)),
        EditorAction::CursorUp => moved_to(a, b, if row > 0 { KeyHandler::on_row(a, row - 1) } else { a.cursor }),
        EditorAction::CursorDown => moved_to(
            a,
            b,
            if row < a.lines@.len() - 1 { KeyHandler::on_row(a, row + 1) } else { a.cursor },
        ),
        EditorAction::WordForward => moved_to(a, b, text::next_word_pos(a.text(), a.cursor)),
        EditorAction::WordBackward => moved_to(a, b, text::prev_word_pos(a.text(), a.cursor)),
        EditorAction::WordEnd => moved_to(a, b, text::word_end_pos(a.text(), a.cursor)),
        EditorAction::LineStart | EditorAction::InsertLineStart => moved_to(a, b, Position { row, col: 0 }),
        EditorAction::LineEnd | EditorAction::InsertLineEnd => moved_to(a, b, KeyHandler::line_end_of(a, row as int)),
        EditorAction::BufferStart => moved_to(a, b, Position { row: 0, col: 0 }),
        EditorAction::BufferEnd => moved_to(
            a,
            b,
            KeyHandler::line_end_of(a, if a.lines@.len() > 0 { a.lines@.len() - 1 } else { 0 }),
        ),
        EditorAction::DeleteCharAtCursor => exists|r: bool| #[trigger] Buffer::deletes_at_cursor(&a, &b, r),
        EditorAction::DeleteCharBeforeCursor => exists|r: bool| #[trigger] Buffer::deletes_before_cursor(&a, &b, r),
        EditorAction::DeleteLine => exists|r: bool| #[trigger] Buffer::deletes_line(&a, &b, r),
        EditorAction::YankLine => Buffer::yanks_line(&a, &b),
        EditorAction::YankWord => Buffer::yanks_word(&a, &b),
        EditorAction::YankToEndOfLine => Buffer::yanks_to_line_end(&a, &b),
        EditorAction::PutAfter => Buffer::puts_after(&a, &b),
        EditorAction::PutBefore => Buffer::puts_before(&a, &b),
        EditorAction::InsertLineBelow => KeyHandler::edited(
            a,
            b,
            a.text().insert(row + 1, Seq::empty()),
            Position { row: (row + 1) as usize, col: 0 },
        ),
        EditorAction::InsertLineAbove => KeyHandler::edited(
            a,
            b,
            a.text().insert(row as int, Seq::empty()),
            Position { row, col: 0 },
        ),
        EditorAction::Undo => exists|r: bool| #[trigger] Buffer::undo_step(&a, &b, r),
        EditorAction::Redo => exists|r: bool| #[trigger] Buffer::redo_step(&a, &b, r),
        EditorAction::InsertChar => match key.code {
            KeyCode::Char(ch) => Buffer::inserts_char(&a, &b, ch),
            _ => b == a,
        },
        EditorAction::NewLine => Buffer::breaks_line(&a, &b),
        EditorAction::DeleteChar => exists|r: bool| #[trigger] Buffer::deletes_char(&a, &b, r),
        EditorAction::DeleteCharForward => KeyHandler::deletes_forward(a, b),
        EditorAction::DeleteWordBackward => KeyHandler::deletes_word_backward(a, b),
        EditorAction::InsertTab => Buffer::inserts_char(&a, &b, '\t'),
        EditorAction::ReplaceChar => match key.code {
            KeyCode::Char(ch) => KeyHandler::replaces_char(a, b, ch),
            _ => b == a,
        },
        _ => b == a,
    }
}

/// The status message a buffer action leaves, if any.
pub open spec fn message_of(action: EditorAction) -> Option<Seq<char>> {
    match action {
        EditorAction::YankLine => Some("Line yanked"@),
        EditorAction::YankWord => Some("Word yanked"@),
        EditorAction::YankToEndOfLine => Some("Text yanked to end of line"@),
        EditorAction::PutAfter => Some("Text pasted after cursor"@),
        EditorAction::PutBefore => Some("Text pasted before cursor"@),
        _ => None,
    }
}

/// The buffer actions that go on to insert mode (with or without a buffer).
pub open spec fn goes_to_insert(action: EditorAction) -> bool {
    match action {
        EditorAction::InsertLineStart | EditorAction::InsertAfter | EditorAction::InsertLineEnd
        | EditorAction::InsertLineBelow | EditorAction::InsertLineAbove => true,
        _ => false,
    }
}

/// The window actions; this editor has a single window.
pub open spec fn on_window(action: EditorAction) -> bool {
    match action {
        EditorAction::SplitHorizontal | EditorAction::SplitVertical | EditorAction::SplitHorizontalAbove
        | EditorAction::SplitHorizontalBelow | EditorAction::SplitVerticalLeft | EditorAction::SplitVerticalRight
        | EditorAction::CloseWindow | EditorAction::WindowLeft | EditorAction::WindowRight | EditorAction::WindowUp
        | EditorAction::WindowDown | EditorAction::ResizeWindowWider | EditorAction::ResizeWindowNarrower
        | EditorAction::ResizeWindowTaller | EditorAction::ResizeWindowShorter => true,
        _ => false,
    }
}

/// `f` is `e` with its current buffer changed as `step` allows; without a current
/// buffer nothing changes.
pub open spec fn current_changed(e: Editor, f: Editor, step: spec_fn(Buffer, Buffer) -> bool) -> bool {
    match e.current_buffer_id {
        None => f == e,
        Some(_) => {
            let i = e.current_pos();
            &&& f.buffers@ == e.buffers@.update(i, f.buffers@[i])
            &&& step(e.buffers@[i], f.buffers@[i])
            &&& f == (Editor { buffers: f.buffers, ..e })
        },
    }
}

/// `f` is `e` in `mode` with the command line `line`.
pub open spec fn entered(e: Editor, f: Editor, mode: Mode, line: Seq<char>) -> bool {
    &&& f == (Editor { mode: f.mode, command_line: f.command_line, ..e })
    &&& f.mode == mode
    &&& f.command_line@ == line
}

/// `f` is `e` with the command line `line`.
pub open spec fn command_line_set(e: Editor, f: Editor, line: Seq<char>) -> bool {
    f == (Editor { command_line: f.command_line, ..e }) && f.command_line@ == line
}

/// `f` is `e` with the status message `m`.
pub open spec fn says(e: Editor, f: Editor, m: Seq<char>) -> bool {
    f == (Editor { status_message: f.status_message, ..e }) && f.status_message@ == m
}

/// What a buffer action did to the editor: the current buffer took the step, the
/// status says the action's message (when there was a buffer), and the actions that
/// insert go to insert mode.
pub open spec fn buffer_action_done(e: Editor, f: Editor, action: EditorAction, key: KeyInput) -> bool {
    let g = if goes_to_insert(action) {
        Editor { mode: e.mode, command_line: e.command_line, ..f }
    } else {
        f
    };
    let h = match message_of(action) {
        Some(_) => Editor { status_message: e.status_message, ..g },
        None => g,
    };
    &&& goes_to_insert(action) ==> f.mode == Mode::Insert && f.command_line@.len() == 0
    &&& e.current_buffer_id is Some ==> (message_of(action) matches Some(m) ==> f.status_message@ == m)
    &&& (message_of(action) is Some && e.current_buffer_id is None) ==> g.status_message == e.status_message
    &&& current_changed(e, h, |a: Buffer, b: Buffer| buffer_step(action, key, a, b))
}

/// What an action asks of the editor (what it calls would fail otherwise).
pub open spec fn action_allowed(e: Editor, action: EditorAction, key: KeyInput) -> bool {
    &&& on_buffer(action) && e.current_buffer_id is Some ==> buffer_allows(action, key, e.buffers@[e.current_pos()])
    &&& action == EditorAction::ExecuteCommand ==> e.next_buffer_id < usize::MAX
    &&& action == EditorAction::ExecuteSearch ==> e.command_line@.len() > 0 && (e.command_line@[0] as u32) < 0x80
}

/// What running `action` (for the key `key`) did to the editor, `e` before and `f`
/// after, and what it left to the caller.
pub open spec fn action_done(e: Editor, f: Editor, action: EditorAction, key: KeyInput, step: CommandStep) -> bool {
    if on_buffer(action) {
        step == CommandStep::Done && buffer_action_done(e, f, action, key)
    } else if on_window(action) {
        step == CommandStep::Window && f == e
    } else {
        match action {
            EditorAction::SaveFile => f == e && step == if e.current_buffer_id is Some {
                CommandStep::Save { then_quit: false }
            } else {
                CommandStep::Done
            },
            EditorAction::ExecuteCommand => exists|c: ExCommand| #[trigger]
                ex_command_of(strip_colons(e.command_line@), c) && KeyHandler::command_done(e, f, c, step)
                    && f.mode == Mode::Normal && f.command_line@.len() == 0,
            _ => step == CommandStep::Done && match action {
                EditorAction::InsertMode => entered(e, f, Mode::Insert, Seq::empty()),
                EditorAction::NormalMode => entered(e, f, Mode::Normal, Seq::empty()),
                EditorAction::CommandMode => entered(e, f, Mode::Command, ":"@),
                EditorAction::VisualMode => entered(e, f, Mode::Visual, Seq::empty()),
                EditorAction::VisualLineMode => entered(e, f, Mode::VisualLine, Seq::empty()),
                EditorAction::VisualBlockMode => entered(e, f, Mode::VisualBlock, Seq::empty()),
                EditorAction::ReplaceMode => entered(e, f, Mode::Replace, Seq::empty()),
                EditorAction::SearchForward | EditorAction::SearchBackward => entered(e, f, Mode::Search, "/"@),
                EditorAction::SearchNext => exists|b: bool| #[trigger] Editor::goes_to_next_match(e, f, b),
                EditorAction::SearchPrevious => exists|b: bool| #[trigger] Editor::goes_to_previous_match(e, f, b),
                EditorAction::Quit => Editor::quits(e, f),
                EditorAction::BufferNext => exists|b: bool| #[trigger] Editor::switches_to_next(e, f, b),
                EditorAction::BufferPrevious => exists|b: bool| #[trigger] Editor::switches_to_previous(e, f, b),
                EditorAction::AppendCommand | EditorAction::AppendSearch => match key.code {
                    KeyCode::Char(ch) => command_line_set(e, f, e.command_line@.push(ch)),
                    _ => f == e,
                },
                EditorAction::DeleteCommandChar | EditorAction::DeleteSearchChar => if more_than_one_byte(
                    e.command_line@,
                ) {
                    command_line_set(e, f, e.command_line@.drop_last())
                } else {
                    f == e
                },
                EditorAction::ExecuteSearch => {
                    let term = e.command_line@.drop_first();
                    let g = Editor { mode: e.mode, command_line: e.command_line, ..f };
                    &&& f.mode == Mode::Normal && f.command_line@.len() == 0
                    &&& if term.len() > 0 {
                        exists|found: bool| #[trigger] Editor::searched(e, g, term, found)
                    } else {
                        g == e
                    }
                },
                EditorAction::DeleteSelection => says(e, f, "Delete selection not implemented"@),
                EditorAction::YankSelection => says(e, f, "Yank selection not implemented"@),
                EditorAction::ChangeSelection => says(e, f, "Change selection not implemented"@),
                EditorAction::ScrollDownLine => Editor::scroll_spec(e, f, true, 1, false),
                EditorAction::ScrollUpLine => Editor::scroll_spec(e, f, false, 1, false),
                EditorAction::ScrollDownPage => Editor::scroll_spec(e, f, true, 20, true),
                EditorAction::ScrollUpPage => Editor::scroll_spec(e, f, false, 20, true),
                EditorAction::ScrollDownHalfPage => Editor::scroll_spec(e, f, true, 10, true),
                EditorAction::ScrollUpHalfPage => Editor::scroll_spec(e, f, false, 10, true),
                // centering and suggestions have nothing to act on here
                _ => f == e,
            },
        }
    }
}

fn acts_on_buffer(action: EditorAction) -> (b: bool)
    ensures
        b == on_buffer(action),
{
    match action {
        EditorAction::CursorLeft | EditorAction::CursorRight | EditorAction::CursorUp | EditorAction::CursorDown
        | EditorAction::WordForward | EditorAction::WordBackward | EditorAction::WordEnd
        | EditorAction::DeleteCharAtCursor | EditorAction::DeleteCharBeforeCursor | EditorAction::DeleteLine
        | EditorAction::YankLine | EditorAction::YankWord | EditorAction::YankToEndOfLine | EditorAction::PutAfter
        | EditorAction::PutBefore | EditorAction::LineStart | EditorAction::LineEnd | EditorAction::BufferStart
        | EditorAction::BufferEnd | EditorAction::InsertLineStart | EditorAction::InsertAfter
        | EditorAction::InsertLineEnd | EditorAction::InsertLineBelow | EditorAction::InsertLineAbove
        | EditorAction::Undo | EditorAction::Redo | EditorAction::InsertChar | EditorAction::NewLine
        | EditorAction::DeleteChar | EditorAction::DeleteCharForward | EditorAction::DeleteWordBackward
        | EditorAction::InsertTab | EditorAction::ReplaceChar => true,
        _ => false,
    }
}

fn acts_on_window(action: EditorAction) -> (b: bool)
    ensures
        b == on_window(action),
{
    match action {
        EditorAction::SplitHorizontal | EditorAction::SplitVertical | EditorAction::SplitHorizontalAbove
        | EditorAction::SplitHorizontalBelow | EditorAction::SplitVerticalLeft | EditorAction::SplitVerticalRight
        | EditorAction::CloseWindow | EditorAction::WindowLeft | EditorAction::WindowRight | EditorAction::WindowUp
        | EditorAction::WindowDown | EditorAction::ResizeWindowWider | EditorAction::ResizeWindowNarrower
        | EditorAction::ResizeWindowTaller | EditorAction::ResizeWindowShorter => true,
        _ => false,
    }
}

fn enters_insert(action: EditorAction) -> (b: bool)
    ensures
        b == goes_to_insert(action),
{
    match action {
        EditorAction::InsertLineStart | EditorAction::InsertAfter | EditorAction::InsertLineEnd
        | EditorAction::InsertLineBelow | EditorAction::InsertLineAbove => true,
        _ => false,
    }
}

fn message_for(action: EditorAction) -> (m: Option<String>)
    ensures
        match m {
            Some(s) => message_of(action) == Some(s@),
            None => message_of(action) is None,
        },
{
    match action {
        EditorAction::YankLine => Some(owned("Line yanked")),
        EditorAction::YankWord => Some(owned("Word yanked")),
        EditorAction::YankToEndOfLine => Some(owned("Text yanked to end of line")),
        EditorAction::PutAfter => Some(owned("Text pasted after cursor")),
        EditorAction::PutBefore => Some(owned("Text pasted before cursor")),
        _ => None,
    }
}

/// The name of the action a key press runs, as `handle_key` decides it (none when the
/// press leaves the command line, waits for more keys, or is bound to nothing).
pub open spec fn chosen_action(h: KeyHandler, mode: Mode, key: KeyInput, now: u64) -> Option<Seq<char>> {
    if leaves_command_mode(mode, key) {
        None
    } else if mode == Mode::Normal {
        let m = mode_bindings(h.keymap_config, Mode::Normal);
        let sq = normal_sequence(h.pending_sequence@, h.last_key_time, now, key);
        if lookup(m, sq) is Some {
            lookup(m, sq)
        } else if extends_some_key(m, sq) {
            None
        } else {
            lookup(m, key_name(key))
        }
    } else {
        mode_action(h.keymap_config, mode, key)
    }
}

/// What carrying out a key's outcome did to the editor: leaving the command line goes
/// to normal mode with an empty command line; running an action does what the action
/// does; nothing else changes anything.
pub open spec fn outcome_done(e: Editor, f: Editor, run: Option<Seq<char>>, leave: bool, key: KeyInput, step: CommandStep) -> bool {
    if leave {
        step == CommandStep::Done && f == (Editor { mode: Mode::Normal, command_line: f.command_line, ..e })
            && f.command_line@.len() == 0
    } else {
        match run {
            Some(name) => match action_named(name) {
                Some(a) => action_done(e, f, a, key, step),
                None => step == CommandStep::Done && f == e,
            },
            None => step == CommandStep::Done && f == e,
        }
    }
}

/// The action that would run is allowed on the editor.
pub open spec fn run_allowed(e: Editor, run: Option<Seq<char>>, key: KeyInput) -> bool {
    run matches Some(name) && action_named(name) matches Some(a) ==> action_allowed(e, a, key)
}

impl KeyHandler {
    /// Runs a buffer action on a buffer.
    pub fn step_buffer(&self, buffer: &mut Buffer, action: EditorAction, key: KeyInput)
        requires
            on_buffer(action),
            buffer_allows(action, key, *old(buffer)),
        ensures
            buffer_step(action, key, *old(buffer), *final(buffer)),
            final(buffer).id == old(buffer).id,
    {
        match action {
            EditorAction::CursorLeft => self.action_cursor_left(buffer),
            EditorAction::CursorRight | EditorAction::InsertAfter => self.action_cursor_right(buffer),
            EditorAction::CursorUp => self.action_cursor_up(buffer),
            EditorAction::CursorDown => self.action_cursor_down(buffer),
            EditorAction::WordForward => buffer.move_to_next_word(),
            EditorAction::WordBackward => buffer.move_to_previous_word(),
            EditorAction::WordEnd => buffer.move_to_word_end(),
            EditorAction::LineStart | EditorAction::InsertLineStart => self.action_line_start(buffer),
            EditorAction::LineEnd | EditorAction::InsertLineEnd => self.action_line_end(buffer),
            EditorAction::BufferStart => self.action_buffer_start(buffer),
            EditorAction::BufferEnd => self.action_buffer_end(buffer),
            EditorAction::DeleteCharAtCursor => {
                buffer.delete_char_at_cursor();
            },
            EditorAction::DeleteCharBeforeCursor => {
                buffer.delete_char_before_cursor();
            },
            EditorAction::DeleteLine => {
                buffer.delete_line();
            },
            EditorAction::YankLine => buffer.yank_line(),
            EditorAction::YankWord => buffer.yank_word(),
            EditorAction::YankToEndOfLine => buffer.yank_to_end_of_line(),
            EditorAction::PutAfter => buffer.put_after(),
            EditorAction::PutBefore => buffer.put_before(),
            EditorAction::InsertLineBelow => self.action_insert_line_below(buffer),
            EditorAction::InsertLineAbove => self.action_insert_line_above(buffer),
            EditorAction::Undo => {
                buffer.undo();
            },
            EditorAction::Redo => {
                buffer.redo();
            },
            EditorAction::InsertChar => {
                if let KeyCode::Char(ch) = key.code {
                    buffer.insert_char(ch);
                }
            },
            EditorAction::NewLine => buffer.insert_line_break(),
            EditorAction::DeleteChar => {
                buffer.delete_char();
            },
            EditorAction::DeleteCharForward => self.action_delete_char_forward(buffer),
            EditorAction::DeleteWordBackward => self.action_delete_word_backward(buffer),
            EditorAction::InsertTab => buffer.insert_char('\t'),
            EditorAction::ReplaceChar => {
                if let KeyCode::Char(ch) = key.code {
                    self.action_replace_char(buffer, ch);
                }
            },
            _ => {},
        }
    }

    /// Runs a buffer action on the current buffer, if there is one.
    fn run_buffer_action(&self, editor: &mut Editor, action: EditorAction, key: KeyInput)
        requires
            old(editor).well_formed(),
            on_buffer(action),
            action_allowed(*old(editor), action, key),
        ensures
            final(editor).well_formed(),
            buffer_action_done(*old(editor), *final(editor), action, key),
    {
        match editor.current_index() {
            Some(i) => {
                proof {
                    editor.lemma_current_pos();
                }
                self.step_buffer(&mut editor.buffers[i], action, key);
                assert(at_id(editor.buffers@, editor.current_buffer_id->0, i as int));
                match message_for(action) {
                    Some(m) => editor.set_status_message(m),
                    None => {},
                }
            },
            None => {},
        }
        if enters_insert(action) {
            editor.set_mode(Mode::Insert);
        }
    }


    /// Runs an action that is neither a buffer action, a window action, saving nor the
    /// command line's execution.
    fn run_editor_action(&self, editor: &mut Editor, action: EditorAction, key: KeyInput)
        requires
            old(editor).well_formed(),
            !on_buffer(action),
            !on_window(action),
            action != EditorAction::SaveFile,
            action != EditorAction::ExecuteCommand,
            action_allowed(*old(editor), action, key),
        ensures
            final(editor).well_formed(),
            action_done(*old(editor), *final(editor), action, key, CommandStep::Done),
    {
        match action {
            EditorAction::InsertMode => editor.set_mode(Mode::Insert),
            EditorAction::NormalMode => editor.set_mode(Mode::Normal),
            EditorAction::CommandMode => {
                editor.set_mode(Mode::Command);
                editor.set_command_line(owned(":"));
            },
            EditorAction::VisualMode => editor.set_mode(Mode::Visual),
            EditorAction::VisualLineMode => editor.set_mode(Mode::VisualLine),
            EditorAction::VisualBlockMode => editor.set_mode(Mode::VisualBlock),
            EditorAction::ReplaceMode => editor.set_mode(Mode::Replace),
            EditorAction::SearchForward | EditorAction::SearchBackward => {
                editor.set_mode(Mode::Search);
                editor.set_command_line(owned("/"));
            },
            EditorAction::SearchNext => {
                editor.search_next();
            },
            EditorAction::SearchPrevious => {
                editor.search_previous();
            },
            EditorAction::Quit => editor.quit(),
            EditorAction::BufferNext => {
                editor.switch_to_next_buffer();
            },
            EditorAction::BufferPrevious => {
                editor.switch_to_previous_buffer();
            },
            EditorAction::AppendCommand | EditorAction::AppendSearch => {
                if let KeyCode::Char(_) = key.code {
                    let mut line = owned(editor.command_line.as_str());
                    self.action_append_command(&mut line, key);
                    editor.set_command_line(line);
                }
            },
            EditorAction::DeleteCommandChar | EditorAction::DeleteSearchChar => {
                let mut line = owned(editor.command_line.as_str());
                self.action_delete_command_char(&mut line);
                if text::char_len(line.as_str()) < text::char_len(editor.command_line.as_str()) {
                    editor.set_command_line(line);
                }
            },
            EditorAction::ExecuteSearch => {
                let mut line = owned(editor.command_line.as_str());
                let (term, mode) = self.action_execute_search(&mut line);
                let ghost e = *editor;
                let mut found = false;
                match term {
                    Some(t) => {
                        found = editor.search(t.as_str());
                    },
                    None => {},
                }
                let ghost g = *editor;
                editor.set_mode(mode);
                editor.set_command_line(line);
                proof {
                    let g2 = Editor { mode: e.mode, command_line: e.command_line, ..*editor };
                    assert(g2 == Editor { command_line: e.command_line, ..g });
                    if e.command_line@.len() > 1 {
                        assert(Editor::searched(e, g2, e.command_line@.drop_first(), found));
                    }
                }
            },
            EditorAction::DeleteSelection => editor.set_status_message(owned("Delete selection not implemented")),
            EditorAction::YankSelection => editor.set_status_message(owned("Yank selection not implemented")),
            EditorAction::ChangeSelection => editor.set_status_message(owned("Change selection not implemented")),
            EditorAction::ScrollDownLine => editor.scroll_down_line(),
            EditorAction::ScrollUpLine => editor.scroll_up_line(),
            EditorAction::ScrollDownPage => editor.scroll_down_page(),
            EditorAction::ScrollUpPage => editor.scroll_up_page(),
            EditorAction::ScrollDownHalfPage => editor.scroll_down_half_page(),
            EditorAction::ScrollUpHalfPage => editor.scroll_up_half_page(),
            _ => {},
        }
    }

    /// Runs the action a key is bound to: buffer actions on the current buffer, mode
    /// changes, the command line and search, scrolling and the rest. Writing the file
    /// and what the command line leaves are handed back to the caller.
    pub fn execute_action(&self, editor: &mut Editor, action: EditorAction, key: KeyInput) -> (step: CommandStep)
        requires
            old(editor).well_formed(),
            action_allowed(*old(editor), action, key),
        ensures
            final(editor).well_formed(),
            action_done(*old(editor), *final(editor), action, key, step),
    {
        if acts_on_buffer(action) {
            self.run_buffer_action(editor, action, key);
            return CommandStep::Done;
        }
        if acts_on_window(action) {
            return CommandStep::Window;
        }
        match action {
            EditorAction::SaveFile => if editor.current_buffer_id.is_some() {
                CommandStep::Save { then_quit: false }
            } else {
                CommandStep::Done
            },
            EditorAction::ExecuteCommand => {
                let (_, step) = self.action_execute_command(editor);
                step
            },
            _ => {
                self.run_editor_action(editor, action, key);
                CommandStep::Done
            },
        }
    }


    /// Carries out what `handle_key` decided for a key press: leaves the command line
    /// for normal mode, or runs the named action on the editor.
    pub fn apply_outcome(&self, editor: &mut Editor, outcome: KeyOutcome, key: KeyInput) -> (step: CommandStep)
        requires
            old(editor).well_formed(),
            run_allowed(*old(editor), match outcome {
                KeyOutcome::Run(n) => Some(n@),
                _ => None,
            }, key),
        ensures
            final(editor).well_formed(),
            outcome_done(*old(editor), *final(editor), match outcome {
                KeyOutcome::Run(n) => Some(n@),
                _ => None,
            }, outcome is LeaveCommandMode, key, step),
    {
        match outcome {
            KeyOutcome::Nothing => CommandStep::Done,
            KeyOutcome::LeaveCommandMode => {
                editor.set_mode(Mode::Normal);
                CommandStep::Done
            },
            KeyOutcome::Run(name) => match Self::parse_action(name.as_str()) {
                Some(action) => self.execute_action(editor, action, key),
                None => CommandStep::Done,
            },
        }
    }

    /// Handles a key press on the editor: decides what it runs (see `handle_key`) and
    /// carries it out. Escape on the command line returns to normal mode with an empty
    /// command line; a bound key runs its action; other keys change nothing.
    pub fn handle_key_on(&mut self, editor: &mut Editor, key: KeyInput, now_ms: u64) -> (step: CommandStep)
        requires
            old(editor).well_formed(),
            run_allowed(*old(editor), chosen_action(*old(self), old(editor).mode, key, now_ms), key),
        ensures
            final(editor).well_formed(),
            final(self).keymap_config == old(self).keymap_config,
            outcome_done(
                *old(editor),
                *final(editor),
                chosen_action(*old(self), old(editor).mode, key, now_ms),
                leaves_command_mode(old(editor).mode, key),
                key,
                step,
            ),
    {
        let outcome = self.handle_key(editor.mode(), key, now_ms);
        self.apply_outcome(editor, outcome, key)
    }

}

} // verus!
