//! A text buffer whose undo history keeps whole snapshots of the text.
use crate::mode::{Position, Selection};
use crate::motion;
use crate::text;
use crate::text::{char_len, chars_of, concat, insert_char_at, remove_char_at, substring};
use std::collections::VecDeque;
use std::path::PathBuf;
use vstd::prelude::*;

verus! {

/// How many snapshots the undo history keeps at most.
pub const UNDO_LIMIT: usize = 1000;

/// Represents a text buffer with content and metadata
#[derive(Debug, Clone)]
pub struct Buffer {
    /// Buffer ID
    pub id: usize,
    /// File path (None for unnamed buffers)
    pub file_path: Option<PathBuf>,
    /// Buffer content as lines
    pub lines: Vec<String>,
    /// Whether the buffer has been modified
    pub modified: bool,
    /// Cursor position
    pub cursor: Position,
    /// Visual selection (if any)
    pub selection: Option<Selection>,
    /// Undo stack
    pub undo_stack: VecDeque<BufferState>,
    /// Redo stack
    pub redo_stack: VecDeque<BufferState>,
    /// Buffer type (normal, help, quickfix, etc.)
    pub buffer_type: BufferType,
}

/// A saved copy of the text and cursor.
#[derive(Debug, Clone)]
pub struct BufferState {
    pub lines: Vec<String>,
    pub cursor: Position,
}

#[derive(Debug, Clone, PartialEq, Eq, Structural)]
pub enum BufferType {
    Normal,
    Help,
    Quickfix,
    Terminal,
    Scratch,
}

/// What a snapshot holds: the text (line by line) and the cursor.
pub type Snapshot = (Seq<Seq<char>>, Position);

impl BufferState {
    pub open spec fn snapshot(&self) -> Snapshot {
        (text::seqs(self.lines@), self.cursor)
    }
}

/// The snapshots of a history, oldest first.
pub open spec fn history(s: Seq<BufferState>) -> Seq<Snapshot> {
    s.map_values(|st: BufferState| st.snapshot())
}

/// `s` with `x` pushed, dropping the oldest entry when that exceeds `limit`.
pub open spec fn push_limited<T>(s: Seq<T>, x: T, limit: nat) -> Seq<T> {
    let p = s.push(x);
    if p.len() > limit {
        p.drop_first()
    } else {
        p
    }
}

impl Buffer {
    /// The text of the buffer, line by line.
    pub open spec fn text(&self) -> Seq<Seq<char>> {
        text::seqs(self.lines@)
    }

    /// The text and the cursor.
    pub open spec fn snapshot(&self) -> Snapshot {
        (self.text(), self.cursor)
    }

    pub open spec fn undo_history(&self) -> Seq<Snapshot> {
        history(self.undo_stack@)
    }

    pub open spec fn redo_history(&self) -> Seq<Snapshot> {
        history(self.redo_stack@)
    }

    /// Identity, file, selection and kind are kept by every edit.
    pub open spec fn same_identity(&self, other: &Buffer) -> bool {
        &&& self.id == other.id
        &&& self.file_path == other.file_path
        &&& self.selection == other.selection
        &&& self.buffer_type == other.buffer_type
    }

    /// The history after an edit that saved the state `before`.
    pub open spec fn saved(&self, before: &Buffer) -> bool {
        &&& self.undo_history() == push_limited(
            before.undo_history(),
            before.snapshot(),
            UNDO_LIMIT as nat,
        )
        &&& self.redo_history() == Seq::<Snapshot>::empty()
    }

    /// The histories are untouched.
    pub open spec fn same_history(&self, other: &Buffer) -> bool {
        &&& self.undo_history() == other.undo_history()
        &&& self.redo_history() == other.redo_history()
    }

    /// What `undo` does: with a saved snapshot, it becomes the current text and cursor and
    /// the state it replaces goes on the redo history; without one, nothing changes.
    pub open spec fn undo_step(before: &Buffer, after: &Buffer, r: bool) -> bool {
        &&& r == (before.undo_history().len() > 0)
        &&& after.same_identity(before)
        &&& r ==> {
            &&& after.snapshot() == before.undo_history().last()
            &&& after.undo_history() == before.undo_history().drop_last()
            &&& after.redo_history() == before.redo_history().push(before.snapshot())
            &&& after.modified
        }
        &&& !r ==> {
            &&& after.lines == before.lines
            &&& after.cursor == before.cursor
            &&& after.modified == before.modified
            &&& after.same_history(before)
        }
    }

    /// What `redo` does: the mirror image of `undo_step` over the redo history.
    pub open spec fn redo_step(before: &Buffer, after: &Buffer, r: bool) -> bool {
        &&& r == (before.redo_history().len() > 0)
        &&& after.same_identity(before)
        &&& r ==> {
            &&& after.snapshot() == before.redo_history().last()
            &&& after.redo_history() == before.redo_history().drop_last()
            &&& after.undo_history() == before.undo_history().push(before.snapshot())
            &&& after.modified
        }
        &&& !r ==> {
            &&& after.lines == before.lines
            &&& after.cursor == before.cursor
            &&& after.modified == before.modified
            &&& after.same_history(before)
        }
    }

    pub fn new(id: usize) -> (b: Self)
        ensures
            b.id == id,
            b.file_path.is_none(),
            b.text() == seq![Seq::<char>::empty()],
            !b.modified,
            b.cursor == (Position { row: 0, col: 0 }),
            b.selection.is_none(),
            b.undo_history().len() == 0,
            b.redo_history().len() == 0,
            b.buffer_type == BufferType::Normal,
    {
        let mut lines: Vec<String> = Vec::new();
        lines.push(String::new());
        let b = Self {
            id,
            file_path: None,
            lines,
            modified: false,
            cursor: Position::zero(),
            selection: None,
            undo_stack: VecDeque::new(),
            redo_stack: VecDeque::new(),
            buffer_type: BufferType::Normal,
        };
        assert(b.text() =~= seq![Seq::<char>::empty()]);
        b
    }

    fn copy_lines(&self) -> (v: Vec<String>)
        ensures
            v@ == self.lines@,
    {
        let v = self.lines.clone();
        assert(v@ =~= self.lines@);
        v
    }

    /// Records the current text and cursor on the undo history and forgets the redo history.
    pub fn save_state(&mut self)
        ensures
            final(self).saved(old(self)),
            final(self).lines == old(self).lines,
            final(self).cursor == old(self).cursor,
            final(self).modified == old(self).modified,
            final(self).same_identity(old(self)),
    {
        let state = BufferState { lines: self.copy_lines(), cursor: self.cursor };
        let ghost old_undo = self.undo_stack@;
        self.undo_stack.push_back(state);
        self.redo_stack.clear();
        proof {
            assert(history(old_undo.push(state)) =~= history(old_undo).push(state.snapshot()));
        }
        if self.undo_stack.len() > UNDO_LIMIT {
            let ghost pushed = self.undo_stack@;
            self.undo_stack.pop_front();
            proof {
                assert(history(pushed.drop_first()) =~= history(pushed).drop_first());
                assert(pushed.drop_first() =~= pushed.subrange(1, pushed.len() as int));
            }
        }
        assert(self.redo_history() =~= Seq::<Snapshot>::empty());
    }

    /// A buffer holding the text read from the file at `path`: its lines (an empty
    /// text gives one empty line).
    pub fn from_text(id: usize, path: PathBuf, content: &str) -> (b: Self)
        ensures
            b.id == id,
            b.file_path == Some(path),
            b.text() == (if content@.len() == 0 {
                seq![Seq::<char>::empty()]
            } else {
                text::split_lines(content@)
            }),
            !b.modified,
            b.cursor == (Position { row: 0, col: 0 }),
            b.selection.is_none(),
            b.undo_history().len() == 0,
            b.redo_history().len() == 0,
            b.buffer_type == BufferType::Normal,
    {
        let lines = if char_len(content) == 0 {
            let mut lines: Vec<String> = Vec::new();
            lines.push(String::new());
            assert(text::seqs(lines@) =~= seq![Seq::<char>::empty()]);
            lines
        } else {
            text::lines_of(content)
        };
        Self {
            id,
            file_path: Some(path),
            lines,
            modified: false,
            cursor: Position::zero(),
            selection: None,
            undo_stack: VecDeque::new(),
            redo_stack: VecDeque::new(),
            buffer_type: BufferType::Normal,
        }
    }

    /// Replaces line `row` with `line`.
    fn set_line(&mut self, row: usize, line: String)
        requires
            row < old(self).lines@.len(),
        ensures
            final(self).text() == old(self).text().update(row as int, line@),
            final(self).lines@.len() == old(self).lines@.len(),
            final(self).cursor == old(self).cursor,
            final(self).modified == old(self).modified,
            final(self).same_identity(old(self)),
            final(self).same_history(old(self)),
    {
        let ghost before = self.lines@;
        self.lines.set(row, line);
        proof {
            text::lemma_seqs_update(before, row as int, line);
        }
    }

    /// Inserts `ch` at the cursor and moves the cursor past it (an empty line is
    /// added first when the cursor sits just below the last line).
    pub fn insert_char(&mut self, ch: char)
        requires
            old(self).cursor.row <= old(self).lines@.len(),
        ensures
            final(self).saved(old(self)),
            final(self).same_identity(old(self)),
            ({
                let row = old(self).cursor.row as int;
                let col = old(self).cursor.col as int;
                let t0 = text::pad_to(old(self).text(), row);
                if col <= t0[row].len() {
                    &&& final(self).text() == t0.update(row, t0[row].insert(col, ch))
                    &&& final(self).cursor == Position { row: row as usize, col: (col + 1) as usize }
                    &&& final(self).modified
                } else {
                    &&& final(self).text() == t0
                    &&& final(self).cursor == old(self).cursor
                    &&& final(self).modified == old(self).modified
                }
            }),
    {
        self.save_state();
        if self.cursor.row >= self.lines.len() {
            let ghost before = self.lines@;
            let empty = String::new();
            let ghost e = empty;
            self.lines.push(empty);
            proof {
                text::lemma_seqs_push(before, e);
            }
        }
        let row = self.cursor.row;
        let n = char_len(self.lines[row].as_str());
        if self.cursor.col <= n {
            let line = insert_char_at(self.lines[row].as_str(), self.cursor.col, ch);
            self.set_line(row, line);
            self.cursor.col = self.cursor.col + 1;
            self.modified = true;
        }
    }

    /// Splits the line at the cursor and moves the cursor to the start of the new line
    /// (adds an empty line when the cursor sits below the last line).
    pub fn insert_line_break(&mut self)
        requires
            old(self).cursor.row < old(self).lines@.len() ==> old(self).cursor.col
                <= old(self).text()[old(self).cursor.row as int].len(),
        ensures
            final(self).saved(old(self)),
            final(self).same_identity(old(self)),
            final(self).modified,
            ({
                let row = old(self).cursor.row as int;
                let col = old(self).cursor.col as int;
                let t = old(self).text();
                if row >= t.len() {
                    &&& final(self).text() == t.push(Seq::empty())
                    &&& final(self).cursor == Position { row: t.len() as usize, col: 0 }
                } else {
                    &&& final(self).text() == t.update(row, t[row].take(col)).insert(
                        row + 1,
                        t[row].skip(col),
                    )
                    &&& final(self).cursor == Position { row: (row + 1) as usize, col: 0 }
                }
            }),
    {
        self.save_state();
        if self.cursor.row >= self.lines.len() {
            let ghost before = self.lines@;
            let empty = String::new();
            let ghost e = empty;
            self.lines.push(empty);
            proof {
                text::lemma_seqs_push(before, e);
            }
            self.cursor.row = self.lines.len() - 1;
            self.cursor.col = 0;
        } else {
            let row = self.cursor.row;
            let n = char_len(self.lines[row].as_str());
            let head = substring(self.lines[row].as_str(), 0, self.cursor.col);
            let tail = substring(self.lines[row].as_str(), self.cursor.col, n);
            self.set_line(row, head);
            let ghost before = self.lines@;
            self.lines.insert(row + 1, tail);
            proof {
                text::lemma_seqs_insert(before, row + 1, tail);
            }
            self.cursor.row = row + 1;
            self.cursor.col = 0;
        }
        self.modified = true;
    }

    /// Backspace: removes the character before the cursor, or joins the line with the
    /// previous one when the cursor is at the start of a line.
    pub fn delete_char(&mut self) -> (r: bool)
        requires
            old(self).cursor.col > 0 || old(self).cursor.row > 0 ==> old(self).cursor.row
                < old(self).lines@.len(),
        ensures
            final(self).same_identity(old(self)),
            ({
                let row = old(self).cursor.row as int;
                let col = old(self).cursor.col as int;
                let t = old(self).text();
                if col > 0 {
                    &&& final(self).saved(old(self))
                    &&& if col <= t[row].len() {
                        &&& r
                        &&& final(self).text() == t.update(row, t[row].remove(col - 1))
                        &&& final(self).cursor == Position { row: row as usize, col: (col - 1) as usize }
                        &&& final(self).modified
                    } else {
                        &&& !r
                        &&& final(self).text() == t
                        &&& final(self).cursor == old(self).cursor
                        &&& final(self).modified == old(self).modified
                    }
                } else if row > 0 {
                    &&& r
                    &&& final(self).saved(old(self))
                    &&& final(self).text() == t.remove(row).update(row - 1, t[row - 1] + t[row])
                    &&& final(self).cursor == Position { row: (row - 1) as usize, col: t[row - 1].len() as usize }
                    &&& final(self).modified
                } else {
                    &&& !r
                    &&& final(self).lines == old(self).lines
                    &&& final(self).cursor == old(self).cursor
                    &&& final(self).modified == old(self).modified
                    &&& final(self).same_history(old(self))
                }
            }),
    {
        if self.cursor.col > 0 {
            self.save_state();
            let row = self.cursor.row;
            let n = char_len(self.lines[row].as_str());
            if self.cursor.col <= n {
                let line = remove_char_at(self.lines[row].as_str(), self.cursor.col - 1);
                self.set_line(row, line);
                self.cursor.col = self.cursor.col - 1;
                self.modified = true;
                return true;
            }
        } else if self.cursor.row > 0 {
            self.save_state();
            let row = self.cursor.row;
            let ghost before = self.lines@;
            let current = self.lines.remove(row);
            proof {
                text::lemma_seqs_remove(before, row as int);
            }
            let prev_len = char_len(self.lines[row - 1].as_str());
            let joined = concat(self.lines[row - 1].as_str(), current.as_str());
            self.set_line(row - 1, joined);
            self.cursor.row = row - 1;
            self.cursor.col = prev_len;
            self.modified = true;
            return true;
        }
        false
    }

    /// Moves the cursor to `new_pos`, clamped to the last line and to that line's length.
    pub fn move_cursor(&mut self, new_pos: Position)
        ensures
            final(self).cursor == text::clamp_pos(old(self).text(), new_pos),
            final(self).lines == old(self).lines,
            final(self).modified == old(self).modified,
            final(self).same_identity(old(self)),
            final(self).same_history(old(self)),
    {
        self.cursor = motion::clamp(&self.lines, new_pos);
    }

    /// Restores the most recent snapshot, keeping the current state for `redo`.
    pub fn undo(&mut self) -> (r: bool)
        ensures
            Self::undo_step(old(self), final(self), r),
    {
        let ghost old_undo = self.undo_stack@;
        let ghost old_redo = self.redo_stack@;
        match self.undo_stack.pop_back() {
            Some(state) => {
                let current = BufferState { lines: self.copy_lines(), cursor: self.cursor };
                self.redo_stack.push_back(current);
                self.lines = state.lines;
                self.cursor = state.cursor;
                self.modified = true;
                proof {
                    assert(history(old_undo.subrange(0, old_undo.len() - 1)) =~= history(
                        old_undo,
                    ).drop_last());
                    assert(history(old_redo.push(current)) =~= history(old_redo).push(
                        current.snapshot(),
                    ));
                }
                true
            },
            None => false,
        }
    }

    /// Re-applies the most recently undone snapshot, keeping the current state for `undo`.
    pub fn redo(&mut self) -> (r: bool)
        ensures
            Self::redo_step(old(self), final(self), r),
    {
        let ghost old_undo = self.undo_stack@;
        let ghost old_redo = self.redo_stack@;
        match self.redo_stack.pop_back() {
            Some(state) => {
                let current = BufferState { lines: self.copy_lines(), cursor: self.cursor };
                self.undo_stack.push_back(current);
                self.lines = state.lines;
                self.cursor = state.cursor;
                self.modified = true;
                proof {
                    assert(history(old_redo.subrange(0, old_redo.len() - 1)) =~= history(
                        old_redo,
                    ).drop_last());
                    assert(history(old_undo.push(current)) =~= history(old_undo).push(
                        current.snapshot(),
                    ));
                }
                true
            },
            None => false,
        }
    }

    /// Line `row`, if there is one.
    pub fn get_line(&self, row: usize) -> (r: Option<&String>)
        ensures
            match r {
                Some(l) => row < self.lines@.len() && l@ == self.text()[row as int],
                None => row >= self.lines@.len(),
            },
    {
        if row < self.lines.len() {
            Some(&self.lines[row])
        } else {
            None
        }
    }

    pub fn line_count(&self) -> (n: usize)
        ensures
            n == self.lines@.len(),
    {
        self.lines.len()
    }

    /// The whole text with lines joined by newlines (what saving writes to the file).
    pub fn contents(&self) -> (s: String)
        ensures
            s@ == text::join_lines(self.text()),
    {
        text::join_strings(&self.lines)
    }

    /// Delete character at cursor position (like 'x' in Vim)
    pub fn delete_char_at_cursor(&mut self) -> (r: bool)
        ensures
            final(self).same_identity(old(self)),
            final(self).cursor == old(self).cursor,
            ({
                let row = old(self).cursor.row as int;
                let col = old(self).cursor.col as int;
                let t = old(self).text();
                if row < t.len() && col < t[row].len() {
                    &&& r
                    &&& final(self).saved(old(self))
                    &&& final(self).text() == t.update(row, t[row].remove(col))
                    &&& final(self).modified
                } else {
                    &&& !r
                    &&& final(self).lines == old(self).lines
                    &&& final(self).modified == old(self).modified
                    &&& final(self).same_history(old(self))
                }
            }),
    {
        if self.cursor.row < self.lines.len() {
            let row = self.cursor.row;
            if self.cursor.col < char_len(self.lines[row].as_str()) {
                self.save_state();
                let line = remove_char_at(self.lines[row].as_str(), self.cursor.col);
                self.set_line(row, line);
                self.modified = true;
                return true;
            }
        }
        false
    }

    /// Delete character before cursor (like 'X' in Vim)
    pub fn delete_char_before_cursor(&mut self) -> (r: bool)
        requires
            old(self).cursor.col > 0 ==> old(self).cursor.row < old(self).lines@.len(),
        ensures
            final(self).same_identity(old(self)),
            ({
                let row = old(self).cursor.row as int;
                let col = old(self).cursor.col as int;
                let t = old(self).text();
                if col > 0 {
                    &&& final(self).saved(old(self))
                    &&& if col <= t[row].len() {
                        &&& r
                        &&& final(self).text() == t.update(row, t[row].remove(col - 1))
                        &&& final(self).cursor == Position { row: row as usize, col: (col - 1) as usize }
                        &&& final(self).modified
                    } else {
                        &&& !r
                        &&& final(self).text() == t
                        &&& final(self).cursor == old(self).cursor
                        &&& final(self).modified == old(self).modified
                    }
                } else {
                    &&& !r
                    &&& final(self).lines == old(self).lines
                    &&& final(self).cursor == old(self).cursor
                    &&& final(self).modified == old(self).modified
                    &&& final(self).same_history(old(self))
                }
            }),
    {
        if self.cursor.col > 0 {
            self.save_state();
            let row = self.cursor.row;
            if self.cursor.col <= char_len(self.lines[row].as_str()) {
                let line = remove_char_at(self.lines[row].as_str(), self.cursor.col - 1);
                self.set_line(row, line);
                self.cursor.col = self.cursor.col - 1;
                self.modified = true;
                return true;
            }
        }
        false
    }

    /// Delete entire line (like 'dd' in Vim)
    pub fn delete_line(&mut self) -> (r: bool)
        ensures
            final(self).same_identity(old(self)),
            ({
                let row = old(self).cursor.row as int;
                let t = old(self).text();
                if row < t.len() {
                    &&& r
                    &&& final(self).saved(old(self))
                    &&& final(self).modified
                    &&& if t.len() == 1 {
                        &&& final(self).text() == seq![Seq::<char>::empty()]
                        &&& final(self).cursor == Position { row: old(self).cursor.row, col: 0 }
                    } else {
                        &&& final(self).text() == t.remove(row)
                        &&& final(self).cursor == Position {
                            row: (if row >= t.len() - 1 { t.len() - 2 } else { row }) as usize,
                            col: 0,
                        }
                    }
                } else {
                    &&& !r
                    &&& final(self).lines == old(self).lines
                    &&& final(self).cursor == old(self).cursor
                    &&& final(self).modified == old(self).modified
                    &&& final(self).same_history(old(self))
                }
            }),
    {
        if self.lines.len() > 0 && self.cursor.row < self.lines.len() {
            self.save_state();
            if self.lines.len() == 1 {
                self.set_line(0, String::new());
                self.cursor.col = 0;
                assert(self.text() =~= seq![Seq::<char>::empty()]);
            } else {
                let ghost before = self.lines@;
                let _removed = self.lines.remove(self.cursor.row);
                proof {
                    text::lemma_seqs_remove(before, self.cursor.row as int);
                }
                if self.cursor.row >= self.lines.len() {
                    self.cursor.row = self.lines.len() - 1;
                }
                self.cursor.col = 0;
            }
            self.modified = true;
            return true;
        }
        false
    }

    /// Move cursor to start of next word
    pub fn move_to_next_word(&mut self)
        ensures
            final(self).cursor == text::next_word_pos(old(self).text(), old(self).cursor),
            final(self).lines == old(self).lines,
            final(self).modified == old(self).modified,
            final(self).same_identity(old(self)),
            final(self).same_history(old(self)),
    {
        self.cursor = motion::next_word(&self.lines, self.cursor);
    }

    /// Move cursor to start of previous word
    pub fn move_to_previous_word(&mut self)
        requires
            old(self).cursor.col > 0 ==> old(self).cursor.row < old(self).lines@.len(),
        ensures
            final(self).cursor == text::prev_word_pos(old(self).text(), old(self).cursor),
            final(self).lines == old(self).lines,
            final(self).modified == old(self).modified,
            final(self).same_identity(old(self)),
            final(self).same_history(old(self)),
    {
        self.cursor = motion::previous_word(&self.lines, self.cursor);
    }

    /// Move cursor to end of current word
    pub fn move_to_word_end(&mut self)
        ensures
            final(self).cursor == text::word_end_pos(old(self).text(), old(self).cursor),
            final(self).lines == old(self).lines,
            final(self).modified == old(self).modified,
            final(self).same_identity(old(self)),
            final(self).same_history(old(self)),
    {
        self.cursor = motion::word_end(&self.lines, self.cursor);
    }
}


/// Undo right after an edit that saved its state gives back the text and cursor from
/// before the edit, and keeps the edited state for redo.
pub proof fn law_undo_reverts_edit(before: Buffer, edited: Buffer, undone: Buffer, r: bool)
    requires
        edited.saved(&before),
        Buffer::undo_step(&edited, &undone, r),
    ensures
        r,
        undone.snapshot() == before.snapshot(),
        undone.redo_history() == seq![edited.snapshot()],
        undone.undo_history() == before.undo_history() || undone.undo_history()
            == before.undo_history().drop_first(),
{
    let h = before.undo_history().push(before.snapshot());
    if h.len() > UNDO_LIMIT {
        assert(h.drop_first().drop_last() =~= before.undo_history().drop_first());
    } else {
        assert(h.drop_last() =~= before.undo_history());
    }
    assert(undone.redo_history() =~= seq![edited.snapshot()]);
}

/// Redo right after an undo puts back exactly the state (text, cursor and both
/// histories) that the undo left.
pub proof fn law_redo_reverts_undo(start: Buffer, undone: Buffer, redone: Buffer, r1: bool, r2: bool)
    requires
        Buffer::undo_step(&start, &undone, r1),
        r1,
        Buffer::redo_step(&undone, &redone, r2),
    ensures
        r2,
        redone.snapshot() == start.snapshot(),
        redone.undo_history() == start.undo_history(),
        redone.redo_history() == start.redo_history(),
{
    assert(start.undo_history().drop_last().push(start.undo_history().last()) =~= start.undo_history());
    assert(start.redo_history().push(start.snapshot()).drop_last() =~= start.redo_history());
}

/// Undo right after a redo puts back exactly the state that the redo left.
pub proof fn law_undo_reverts_redo(start: Buffer, redone: Buffer, undone: Buffer, r1: bool, r2: bool)
    requires
        Buffer::redo_step(&start, &redone, r1),
        r1,
        Buffer::undo_step(&redone, &undone, r2),
    ensures
        r2,
        undone.snapshot() == start.snapshot(),
        undone.undo_history() == start.undo_history(),
        undone.redo_history() == start.redo_history(),
{
    assert(start.redo_history().drop_last().push(start.redo_history().last()) =~= start.redo_history());
    assert(start.undo_history().push(start.snapshot()).drop_last() =~= start.undo_history());
}

} // verus!
