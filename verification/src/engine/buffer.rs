//! A text buffer whose undo history records edit operations (deltas) rather than
//! snapshots, with a clipboard for yank and put.
use crate::mode::{Position, Selection};
use crate::motion;
use crate::text;
use crate::text::{
    char_len, chars_of, concat, insert_char_at, push_char, remove_char_at, scan_forward, substring,
};
use std::collections::VecDeque;
use std::path::PathBuf;
use vstd::prelude::*;

verus! {

/// Types of content that can be yanked
#[derive(Debug, Clone, PartialEq, Eq, Structural)]
pub enum YankType {
    Character,  // Character-wise yank (like yanking a word)
    Line,  // Line-wise yank (like yy)
    Block,  // Block-wise yank (visual block mode)
}

/// Content stored in the clipboard
#[derive(Debug, Clone)]
pub struct ClipboardContent {
    pub text: String,
    pub yank_type: YankType,
}

impl Default for ClipboardContent {
    fn default() -> (c: Self)
        ensures
            c.text@ == Seq::<char>::empty(),
            c.yank_type == YankType::Character,
    {
        Self { text: String::new(), yank_type: YankType::Character }
    }
}

/// Represents a text buffer with content and metadata
#[derive(Debug, Clone)]
pub struct Buffer {
    /// Buffer ID
    pub id: usize,
    /// File path (None for unnamed buffers)
    pub file_path: Option<PathBuf>,
    /// Buffer content as lines
    pub lines: Vec<String>,
    /// Whether the buffer has been modified
    pub modified: bool,
    /// Cursor position
    pub cursor: Position,
    /// Visual selection (if any)
    pub selection: Option<Selection>,
    /// Undo stack
    pub undo_stack: VecDeque<BufferDelta>,
    /// Redo stack
    pub redo_stack: VecDeque<BufferDelta>,
    /// Buffer type (normal, help, quickfix, etc.)
    pub buffer_type: BufferType,
    /// Clipboard for yank/put operations
    pub clipboard: ClipboardContent,
    /// Maximum number of undo levels to keep
    pub undo_levels: usize,
}

/// Represents a single edit operation for delta-based undo system
#[derive(Debug, Clone, PartialEq, Eq)]
pub enum EditOperation {
    /// Insert text at a position
    Insert { pos: Position, text: String },
    /// Delete text at a position (stores deleted text for undo)
    Delete { pos: Position, text: String },
    /// Replace text at a position
    Replace { pos: Position, old: String, new: String },
}

/// Delta representing changes made to buffer state
#[derive(Debug, Clone)]
pub struct BufferDelta {
    /// The edit operations performed
    pub operations: Vec<EditOperation>,
    /// Cursor position before the edit
    pub cursor_before: Position,
    /// Cursor position after the edit
    pub cursor_after: Position,
}

#[derive(Debug, Clone, PartialEq, Eq, Structural)]
pub enum BufferType {
    Normal,
    Help,
    Quickfix,
    Terminal,
    Scratch,
}

/// The editable state: the text, line by line, and the cursor.
pub type EdState = (Seq<Seq<char>>, Position);

// ---------------------------------------------------------------------------
// The primitive edits, on the character model.
// ---------------------------------------------------------------------------

/// Inserting one character at the cursor (an empty line is added first when the
/// cursor is just below the last line; past the end of the line nothing is inserted).
pub open spec fn ins_char(s: EdState, ch: char) -> EdState {
    let row = s.1.row as int;
    let col = s.1.col as int;
    let t0 = text::pad_to(s.0, row);
    if col <= t0[row].len() {
        (t0.update(row, t0[row].insert(col, ch)), Position { row: s.1.row, col: (col + 1) as usize })
    } else {
        (t0, s.1)
    }
}

pub open spec fn ins_char_ok(s: EdState) -> bool {
    s.1.row <= s.0.len()
}

/// Splitting the line at the cursor (or adding an empty last line).
pub open spec fn line_break(s: EdState) -> EdState {
    let row = s.1.row as int;
    let col = s.1.col as int;
    let t = s.0;
    if row >= t.len() {
        (t.push(Seq::empty()), Position { row: t.len() as usize, col: 0 })
    } else {
        (
            t.update(row, t[row].take(col)).insert(row + 1, t[row].skip(col)),
            Position { row: (row + 1) as usize, col: 0 },
        )
    }
}

pub open spec fn line_break_ok(s: EdState) -> bool {
    s.1.row < s.0.len() ==> s.1.col <= s.0[s.1.row as int].len()
}

/// Backspace: remove the character before the cursor, or join with the previous line.
pub open spec fn del_char(s: EdState) -> EdState {
    let row = s.1.row as int;
    let col = s.1.col as int;
    let t = s.0;
    if col > 0 {
        if col <= t[row].len() {
            (t.update(row, t[row].remove(col - 1)), Position { row: s.1.row, col: (col - 1) as usize })
        } else {
            s
        }
    } else if row > 0 {
        (
            t.remove(row).update(row - 1, t[row - 1] + t[row]),
            Position { row: (row - 1) as usize, col: t[row - 1].len() as usize },
        )
    } else {
        s
    }
}

pub open spec fn del_char_ok(s: EdState) -> bool {
    s.1.col > 0 || s.1.row > 0 ==> s.1.row < s.0.len()
}

/// One step right, wrapping to the start of the next line.
pub open spec fn right(s: EdState) -> EdState {
    let row = s.1.row as int;
    let col = s.1.col as int;
    let t = s.0;
    if row < t.len() {
        if col < t[row].len() {
            (t, Position { row: s.1.row, col: (col + 1) as usize })
        } else if row + 1 < t.len() {
            (t, Position { row: (row + 1) as usize, col: 0 })
        } else {
            s
        }
    } else {
        s
    }
}

pub open spec fn ins_one(s: EdState, c: char) -> EdState {
    if c == '\n' {
        line_break(s)
    } else {
        ins_char(s, c)
    }
}

pub open spec fn ins_one_ok(s: EdState, c: char) -> bool {
    if c == '\n' {
        line_break_ok(s)
    } else {
        ins_char_ok(s)
    }
}

/// Typing `cs` at the cursor, a newline splitting the line.
pub open spec fn ins_text(s: EdState, cs: Seq<char>) -> EdState
    decreases cs.len(),
{
    if cs.len() == 0 {
        s
    } else {
        ins_text(ins_one(s, cs[0]), cs.drop_first())
    }
}

pub open spec fn ins_text_ok(s: EdState, cs: Seq<char>) -> bool
    decreases cs.len(),
{
    cs.len() == 0 || (ins_one_ok(s, cs[0]) && ins_text_ok(ins_one(s, cs[0]), cs.drop_first()))
}

pub open spec fn rights(s: EdState, n: nat) -> EdState
    decreases n,
{
    if n == 0 {
        s
    } else {
        rights(right(s), (n - 1) as nat)
    }
}

pub open spec fn dels(s: EdState, n: nat) -> EdState
    decreases n,
{
    if n == 0 {
        s
    } else {
        dels(del_char(s), (n - 1) as nat)
    }
}

pub open spec fn dels_ok(s: EdState, n: nat) -> bool
    decreases n,
{
    n == 0 || (del_char_ok(s) && dels_ok(del_char(s), (n - 1) as nat))
}

/// Applying a recorded operation to the text `t`: the cursor first goes to the
/// operation's position; a deletion of `k` characters moves `k` steps right and
/// then erases `k` characters backwards.
pub open spec fn apply_op(t: Seq<Seq<char>>, op: EditOperation) -> EdState {
    match op {
        EditOperation::Insert { pos, text } => ins_text((t, pos), text@),
        EditOperation::Delete { pos, text } => dels(rights((t, pos), text@.len()), text@.len()),
        EditOperation::Replace { pos, old, new } => ins_text(
            dels(rights((t, pos), old@.len()), old@.len()),
            new@,
        ),
    }
}

pub open spec fn apply_op_ok(t: Seq<Seq<char>>, op: EditOperation) -> bool {
    match op {
        EditOperation::Insert { pos, text } => ins_text_ok((t, pos), text@),
        EditOperation::Delete { pos, text } => dels_ok(rights((t, pos), text@.len()), text@.len()),
        EditOperation::Replace { pos, old, new } => {
            &&& dels_ok(rights((t, pos), old@.len()), old@.len())
            &&& ins_text_ok(dels(rights((t, pos), old@.len()), old@.len()), new@)
        },
    }
}

/// The operation that takes back `op`.
pub open spec fn inverse(op: EditOperation) -> EditOperation {
    match op {
        EditOperation::Insert { pos, text } => EditOperation::Delete { pos, text },
        EditOperation::Delete { pos, text } => EditOperation::Insert { pos, text },
        EditOperation::Replace { pos, old, new } => EditOperation::Replace { pos, old: new, new: old },
    }
}

/// The text after taking back `ops`, last operation first.
pub open spec fn unapply(t: Seq<Seq<char>>, ops: Seq<EditOperation>) -> Seq<Seq<char>>
    decreases ops.len(),
{
    if ops.len() == 0 {
        t
    } else {
        unapply(apply_op(t, inverse(ops.last())).0, ops.drop_last())
    }
}

pub open spec fn unapply_ok(t: Seq<Seq<char>>, ops: Seq<EditOperation>) -> bool
    decreases ops.len(),
{
    ops.len() == 0 || (apply_op_ok(t, inverse(ops.last())) && unapply_ok(
        apply_op(t, inverse(ops.last())).0,
        ops.drop_last(),
    ))
}

/// The text after applying `ops[from..]` in order.
pub open spec fn reapply(t: Seq<Seq<char>>, ops: Seq<EditOperation>) -> Seq<Seq<char>>
    decreases ops.len(),
{
    if ops.len() == 0 {
        t
    } else {
        reapply(apply_op(t, ops[0]).0, ops.drop_first())
    }
}

pub open spec fn reapply_ok(t: Seq<Seq<char>>, ops: Seq<EditOperation>) -> bool
    decreases ops.len(),
{
    ops.len() == 0 || (apply_op_ok(t, ops[0]) && reapply_ok(apply_op(t, ops[0]).0, ops.drop_first()))
}

/// What an operation says, with its strings taken as character sequences.
pub enum OpView {
    Insert(Position, Seq<char>),
    Delete(Position, Seq<char>),
    Replace(Position, Seq<char>, Seq<char>),
}

pub open spec fn op_view(op: EditOperation) -> OpView {
    match op {
        EditOperation::Insert { pos, text } => OpView::Insert(pos, text@),
        EditOperation::Delete { pos, text } => OpView::Delete(pos, text@),
        EditOperation::Replace { pos, old, new } => OpView::Replace(pos, old@, new@),
    }
}

/// `after` is `before` with one delta recording an operation that reads `op` at
/// cursor `at` pushed, the oldest delta dropped when that exceeds `limit`.
pub open spec fn pushed_delta(
    before: Seq<BufferDelta>,
    after: Seq<BufferDelta>,
    op: OpView,
    at: Position,
    limit: nat,
) -> bool {
    if before.len() + 1 > limit && before.len() == 0 {
        after.len() == 0
    } else {
        let kept = if before.len() + 1 > limit {
            before.drop_first()
        } else {
            before
        };
        &&& after.len() == kept.len() + 1
        &&& after.drop_last() == kept
        &&& after.last().operations@.len() == 1
        &&& op_view(after.last().operations@[0]) == op
        &&& after.last().cursor_before == at
        &&& after.last().cursor_after == at
    }
}


/// `line` with `ins` placed before character `at`.
pub open spec fn splice(line: Seq<char>, at: int, ins: Seq<char>) -> Seq<char> {
    line.take(at) + ins + line.skip(at)
}

/// Where a character-wise put after the cursor inserts on line `c.row`.
pub open spec fn after_cursor(t: Seq<Seq<char>>, c: Position) -> int {
    if c.col < t[c.row as int].len() {
        c.col + 1
    } else {
        t[c.row as int].len() as int
    }
}

/// The last row a multi-line cut reaches.
pub open spec fn cut_end_row(t: Seq<Seq<char>>, end: Position) -> int {
    text::min_int(end.row as int, if t.len() == 0 { 0 } else { t.len() - 1 })
}

/// The text with the range from `start` to `end` removed: on one line the characters
/// between the clamped columns; across lines, the first line up to `start` joined with
/// the last (clamped) line from `end`, replacing all the lines in between.
pub open spec fn cut(t: Seq<Seq<char>>, start: Position, end: Position) -> Seq<Seq<char>> {
    if start.row == end.row {
        if start.row < t.len() {
            let l = t[start.row as int];
            t.update(
                start.row as int,
                l.take(text::min_int(start.col as int, l.len() as int)) + l.skip(
                    text::min_int(end.col as int, l.len() as int),
                ),
            )
        } else {
            t
        }
    } else {
        let end_row = cut_end_row(t, end);
        let first = if start.row < t.len() {
            t[start.row as int].take(text::min_int(start.col as int, t[start.row as int].len() as int))
        } else {
            Seq::empty()
        };
        let last = if end_row < t.len() {
            t[end_row].skip(text::min_int(end.col as int, t[end_row].len() as int))
        } else {
            Seq::empty()
        };
        if end_row >= start.row {
            t.take(start.row as int) + seq![first + last] + t.skip(end_row + 1)
        } else {
            t.insert(start.row as int, first + last)
        }
    }
}

/// When `cut` can be carried out without a panic.
pub open spec fn cut_ok(t: Seq<Seq<char>>, start: Position, end: Position) -> bool {
    if start.row == end.row {
        text::range_text_ok(t, start, end)
    } else {
        &&& t.len() > 0
        &&& cut_end_row(t, end) >= start.row || start.row <= t.len()
    }
}

/// How many leading characters `<` removes: four spaces, one tab, or the leading
/// spaces among the first four characters.
pub open spec fn unindent_width(l: Seq<char>) -> int {
    if l.len() >= 4 && l.take(4) == seq![' ', ' ', ' ', ' '] {
        4
    } else if l.len() > 0 && l[0] == '\t' {
        1
    } else {
        lead_spaces(l, 0)
    }
}

/// The index of the first non-space among the first four characters from `i`.
pub open spec fn lead_spaces(l: Seq<char>, i: int) -> int
    decreases 4 - i,
{
    if 0 <= i < 4 && i < l.len() && l[i] == ' ' {
        lead_spaces(l, i + 1)
    } else {
        i
    }
}

impl Buffer {
    /// The text of the buffer, line by line.
    pub open spec fn text(&self) -> Seq<Seq<char>> {
        text::seqs(self.lines@)
    }

    /// The text and the cursor.
    pub open spec fn state(&self) -> EdState {
        (self.text(), self.cursor)
    }

    /// Everything but the text, the cursor and the modified flag is as in `other`.
    pub open spec fn keeps_rest(&self, other: &Buffer) -> bool {
        &&& self.id == other.id
        &&& self.file_path == other.file_path
        &&& self.selection == other.selection
        &&& self.buffer_type == other.buffer_type
        &&& self.clipboard == other.clipboard
        &&& self.undo_levels == other.undo_levels
        &&& self.undo_stack@ == other.undo_stack@
        &&& self.redo_stack@ == other.redo_stack@
    }

    /// Identity, file, selection, kind, clipboard and undo limit are as in `other`.
    pub open spec fn keeps_identity(&self, other: &Buffer) -> bool {
        &&& self.id == other.id
        &&& self.file_path == other.file_path
        &&& self.selection == other.selection
        &&& self.buffer_type == other.buffer_type
        &&& self.clipboard == other.clipboard
        &&& self.undo_levels == other.undo_levels
    }

    /// The histories after recording `op` at the cursor of `before`.
    pub open spec fn recorded(&self, before: &Buffer, op: OpView) -> bool {
        &&& pushed_delta(
            before.undo_stack@,
            self.undo_stack@,
            op,
            before.cursor,
            before.undo_levels as nat,
        )
        &&& self.redo_stack@.len() == 0
    }

    pub fn new(id: usize, undo_levels: usize) -> (b: Self)
        ensures
            b.id == id,
            b.file_path.is_none(),
            b.text() == seq![Seq::<char>::empty()],
            !b.modified,
            b.cursor == (Position { row: 0, col: 0 }),
            b.selection.is_none(),
            b.undo_stack@.len() == 0,
            b.redo_stack@.len() == 0,
            b.buffer_type == BufferType::Normal,
            b.clipboard.text@ == Seq::<char>::empty(),
            b.clipboard.yank_type == YankType::Character,
            b.undo_levels == undo_levels,
    {
        let mut lines: Vec<String> = Vec::new();
        lines.push(String::new());
        let b = Self {
            id,
            file_path: None,
            lines,
            modified: false,
            cursor: Position::zero(),
            selection: None,
            undo_stack: VecDeque::new(),
            redo_stack: VecDeque::new(),
            buffer_type: BufferType::Normal,
            clipboard: ClipboardContent::default(),
            undo_levels,
        };
        assert(b.text() =~= seq![Seq::<char>::empty()]);
        b
    }

    /// A buffer holding the text read from the file at `path`: its lines (an empty
    /// text gives one empty line).
    pub fn from_text(id: usize, path: PathBuf, content: &str, undo_levels: usize) -> (b: Self)
        ensures
            b.id == id,
            b.file_path == Some(path),
            b.text() == (if content@.len() == 0 {
                seq![Seq::<char>::empty()]
            } else {
                text::split_lines(content@)
            }),
            !b.modified,
            b.cursor == (Position { row: 0, col: 0 }),
            b.selection.is_none(),
            b.undo_stack@.len() == 0,
            b.redo_stack@.len() == 0,
            b.buffer_type == BufferType::Normal,
            b.undo_levels == undo_levels,
            b.clipboard.text@ == Seq::<char>::empty(),
    {
        let lines = if char_len(content) == 0 {
            let mut lines: Vec<String> = Vec::new();
            lines.push(String::new());
            assert(text::seqs(lines@) =~= seq![Seq::<char>::empty()]);
            lines
        } else {
            text::lines_of(content)
        };
        Self {
            id,
            file_path: Some(path),
            lines,
            modified: false,
            cursor: Position::zero(),
            selection: None,
            undo_stack: VecDeque::new(),
            redo_stack: VecDeque::new(),
            buffer_type: BufferType::Normal,
            clipboard: ClipboardContent::default(),
            undo_levels,
        }
    }

    /// Replaces line `row` with `line`.
    pub(crate) fn set_line(&mut self, row: usize, line: String)
        requires
            row < old(self).lines@.len(),
        ensures
            final(self).text() == old(self).text().update(row as int, line@),
            final(self).lines@.len() == old(self).lines@.len(),
            final(self).cursor == old(self).cursor,
            final(self).modified == old(self).modified,
            final(self).keeps_rest(old(self)),
    {
        let ghost before = self.lines@;
        self.lines.set(row, line);
        proof {
            text::lemma_seqs_update(before, row as int, line);
        }
    }

    /// Appends an empty line.
    fn push_empty_line(&mut self)
        ensures
            final(self).text() == old(self).text().push(Seq::empty()),
            final(self).lines@.len() == old(self).lines@.len() + 1,
            final(self).cursor == old(self).cursor,
            final(self).modified == old(self).modified,
            final(self).keeps_rest(old(self)),
    {
        let ghost before = self.lines@;
        let empty = String::new();
        let ghost e = empty;
        self.lines.push(empty);
        proof {
            text::lemma_seqs_push(before, e);
        }
    }

    /// Records `operation` on the undo history (dropping the oldest entry beyond
    /// `undo_levels`) and forgets the redo history.
    pub fn save_operation(&mut self, operation: EditOperation)
        ensures
            final(self).recorded(old(self), op_view(operation)),
            final(self).lines == old(self).lines,
            final(self).cursor == old(self).cursor,
            final(self).modified == old(self).modified,
            final(self).keeps_identity(old(self)),
    {
        let mut operations: Vec<EditOperation> = Vec::new();
        operations.push(operation);
        let delta = BufferDelta { operations, cursor_before: self.cursor, cursor_after: self.cursor };
        let ghost before = self.undo_stack@;
        self.undo_stack.push_back(delta);
        self.redo_stack.clear();
        if self.undo_stack.len() > self.undo_levels {
            let ghost pushed = self.undo_stack@;
            self.undo_stack.pop_front();
            proof {
                if before.len() > 0 {
                    assert(pushed.subrange(1, pushed.len() as int).drop_last() =~= before.drop_first());
                }
            }
        } else {
            assert(self.undo_stack@.drop_last() =~= before);
        }
    }

    /// Inserts a character at the cursor without recording it.
    fn insert_char_raw(&mut self, ch: char)
        requires
            ins_char_ok(old(self).state()),
        ensures
            final(self).state() == ins_char(old(self).state(), ch),
            final(self).modified == old(self).modified,
            final(self).keeps_rest(old(self)),
    {
        if self.cursor.row >= self.lines.len() {
            self.push_empty_line();
        }
        let row = self.cursor.row;
        let n = char_len(self.lines[row].as_str());
        if self.cursor.col <= n {
            let line = insert_char_at(self.lines[row].as_str(), self.cursor.col, ch);
            self.set_line(row, line);
            self.cursor.col = self.cursor.col + 1;
        }
    }

    /// Splits the line at the cursor without recording it.
    fn insert_line_break_raw(&mut self)
        requires
            line_break_ok(old(self).state()),
        ensures
            final(self).state() == line_break(old(self).state()),
            final(self).modified == old(self).modified,
            final(self).keeps_rest(old(self)),
    {
        if self.cursor.row >= self.lines.len() {
            self.push_empty_line();
            self.cursor.row = self.lines.len() - 1;
            self.cursor.col = 0;
        } else {
            let row = self.cursor.row;
            let n = char_len(self.lines[row].as_str());
            let head = substring(self.lines[row].as_str(), 0, self.cursor.col);
            let tail = substring(self.lines[row].as_str(), self.cursor.col, n);
            self.set_line(row, head);
            let ghost before = self.lines@;
            self.lines.insert(row + 1, tail);
            proof {
                text::lemma_seqs_insert(before, row + 1, tail);
            }
            self.cursor.row = row + 1;
            self.cursor.col = 0;
        }
    }

    /// Backspace without recording it.
    fn delete_char_raw(&mut self) -> (r: bool)
        requires
            del_char_ok(old(self).state()),
        ensures
            final(self).state() == del_char(old(self).state()),
            r == ((old(self).cursor.col > 0 && old(self).cursor.col <= old(self).text()[old(self).cursor.row as int].len()) || (old(self).cursor.col == 0 && old(self).cursor.row > 0)),
            final(self).modified == old(self).modified,
            final(self).keeps_rest(old(self)),
    {
        if self.cursor.col > 0 {
            let row = self.cursor.row;
            let n = char_len(self.lines[row].as_str());
            if self.cursor.col <= n {
                let line = remove_char_at(self.lines[row].as_str(), self.cursor.col - 1);
                self.set_line(row, line);
                self.cursor.col = self.cursor.col - 1;
                return true;
            }
        } else if self.cursor.row > 0 {
            let row = self.cursor.row;
            let ghost before = self.lines@;
            let current = self.lines.remove(row);
            proof {
                text::lemma_seqs_remove(before, row as int);
            }
            let prev_len = char_len(self.lines[row - 1].as_str());
            let joined = concat(self.lines[row - 1].as_str(), current.as_str());
            self.set_line(row - 1, joined);
            self.cursor.row = row - 1;
            self.cursor.col = prev_len;
            return true;
        }
        false
    }

    /// Moves the cursor one step right, wrapping to the next line.
    fn move_cursor_right(&mut self)
        ensures
            final(self).state() == right(old(self).state()),
            final(self).lines == old(self).lines,
            final(self).modified == old(self).modified,
            final(self).keeps_rest(old(self)),
    {
        if self.cursor.row < self.lines.len() {
            let n = char_len(self.lines[self.cursor.row].as_str());
            if self.cursor.col < n {
                self.cursor.col = self.cursor.col + 1;
            } else if self.cursor.row + 1 < self.lines.len() {
                self.cursor.row = self.cursor.row + 1;
                self.cursor.col = 0;
            }
        }
    }

    /// Types the characters `cs` at the cursor without recording them.
    fn type_chars(&mut self, cs: &Vec<char>)
        requires
            ins_text_ok(old(self).state(), cs@),
        ensures
            final(self).state() == ins_text(old(self).state(), cs@),
            final(self).modified == old(self).modified,
            final(self).keeps_rest(old(self)),
    {
        let ghost start = self.state();
        let mut i: usize = 0;
        assert(cs@.skip(0) =~= cs@);
        while i < cs.len()
            invariant
                i <= cs@.len(),
                start == old(self).state(),
                ins_text(self.state(), cs@.skip(i as int)) == ins_text(start, cs@),
                ins_text_ok(self.state(), cs@.skip(i as int)),
                self.modified == old(self).modified,
                self.keeps_rest(old(self)),
            decreases cs@.len() - i,
        {
            proof {
                assert(cs@.skip(i as int)[0] == cs@[i as int]);
                assert(cs@.skip(i as int).drop_first() =~= cs@.skip(i + 1));
            }
            if cs[i] == '\n' {
                self.insert_line_break_raw();
            } else {
                self.insert_char_raw(cs[i]);
            }
            i = i + 1;
        }
        assert(cs@.skip(cs@.len() as int) =~= Seq::<char>::empty());
    }

    /// Moves the cursor `n` steps right.
    fn step_right(&mut self, n: usize)
        ensures
            final(self).state() == rights(old(self).state(), n as nat),
            final(self).lines == old(self).lines,
            final(self).modified == old(self).modified,
            final(self).keeps_rest(old(self)),
    {
        let ghost start = self.state();
        let mut i: usize = 0;
        while i < n
            invariant
                i <= n,
                rights(self.state(), (n - i) as nat) == rights(start, n as nat),
                self.lines == old(self).lines,
                self.modified == old(self).modified,
                self.keeps_rest(old(self)),
            decreases n - i,
        {
            self.move_cursor_right();
            i = i + 1;
        }
    }

    /// Backspaces `n` times.
    fn erase_back(&mut self, n: usize)
        requires
            dels_ok(old(self).state(), n as nat),
        ensures
            final(self).state() == dels(old(self).state(), n as nat),
            final(self).modified == old(self).modified,
            final(self).keeps_rest(old(self)),
    {
        let ghost start = self.state();
        let mut i: usize = 0;
        while i < n
            invariant
                i <= n,
                start == old(self).state(),
                dels(self.state(), (n - i) as nat) == dels(start, n as nat),
                dels_ok(self.state(), (n - i) as nat),
                self.modified == old(self).modified,
                self.keeps_rest(old(self)),
            decreases n - i,
        {
            self.delete_char_raw();
            i = i + 1;
        }
    }

    /// Applies a recorded operation to the text (the cursor first moves to its position).
    fn apply_edit_operation(&mut self, operation: &EditOperation)
        requires
            apply_op_ok(old(self).text(), *operation),
        ensures
            final(self).state() == apply_op(old(self).text(), *operation),
            final(self).modified == old(self).modified,
            final(self).keeps_rest(old(self)),
    {
        match operation {
            EditOperation::Insert { pos, text } => {
                self.cursor = *pos;
                let cs = chars_of(text.as_str());
                self.type_chars(&cs);
            },
            EditOperation::Delete { pos, text } => {
                self.cursor = *pos;
                let n = char_len(text.as_str());
                self.step_right(n);
                self.erase_back(n);
            },
            EditOperation::Replace { pos, old, new } => {
                self.cursor = *pos;
                let n = char_len(old.as_str());
                self.step_right(n);
                self.erase_back(n);
                let cs = chars_of(new.as_str());
                self.type_chars(&cs);
            },
        }
    }

    /// A buffer holding a copy of this text, to try operations on.
    fn scratch_copy(&self) -> (b: Buffer)
        ensures
            b.text() == self.text(),
    {
        let mut lines: Vec<String> = Vec::new();
        let mut i: usize = 0;
        while i < self.lines.len()
            invariant
                i <= self.lines@.len(),
                text::seqs(lines@) == self.text().take(i as int),
            decreases self.lines@.len() - i,
        {
            let ghost before = lines@;
            let l = text::owned(self.lines[i].as_str());
            let ghost lv = l;
            lines.push(l);
            proof {
                text::lemma_seqs_push(before, lv);
                assert(self.text().take(i + 1) =~= self.text().take(i as int).push(lv@));
            }
            i = i + 1;
        }
        assert(self.text().take(i as int) =~= self.text());
        let mut b = Buffer::new(self.id, self.undo_levels);
        b.lines = lines;
        b
    }

    /// Types `cs` at the cursor where each character can go in; says whether all could.
    fn try_type_chars(&mut self, cs: &Vec<char>) -> (ok: bool)
        ensures
            ok == ins_text_ok(old(self).state(), cs@),
            ok ==> final(self).state() == ins_text(old(self).state(), cs@),
    {
        let ghost start = self.state();
        let mut i: usize = 0;
        assert(cs@.skip(0) =~= cs@);
        while i < cs.len()
            invariant
                i <= cs@.len(),
                start == old(self).state(),
                ins_text(self.state(), cs@.skip(i as int)) == ins_text(start, cs@),
                ins_text_ok(self.state(), cs@.skip(i as int)) == ins_text_ok(start, cs@),
            decreases cs@.len() - i,
        {
            proof {
                assert(cs@.skip(i as int)[0] == cs@[i as int]);
                assert(cs@.skip(i as int).drop_first() =~= cs@.skip(i + 1));
            }
            if cs[i] == '\n' {
                let row = self.cursor.row;
                if row < self.lines.len() && self.cursor.col > char_len(self.lines[row].as_str()) {
                    proof {
                        assert(self.text().len() == self.lines@.len());
                        assert(cs@.skip(i as int).len() > 0);
                        assert(self.text()[row as int] == self.lines@[row as int]@);
                        assert(!ins_one_ok(self.state(), cs@[i as int]));
                        assert(!ins_text_ok(self.state(), cs@.skip(i as int)));
                    }
                    return false;
                }
                self.insert_line_break_raw();
            } else {
                if self.cursor.row > self.lines.len() {
                    proof {
                        assert(self.text().len() == self.lines@.len());
                        assert(cs@.skip(i as int).len() > 0);
                        assert(!ins_one_ok(self.state(), cs@[i as int]));
                        assert(!ins_text_ok(self.state(), cs@.skip(i as int)));
                    }
                    return false;
                }
                self.insert_char_raw(cs[i]);
            }
            i = i + 1;
        }
        assert(cs@.skip(cs@.len() as int) =~= Seq::<char>::empty());
        true
    }

    /// Backspaces `n` times where each can be done; says whether all could.
    fn try_erase_back(&mut self, n: usize) -> (ok: bool)
        ensures
            ok == dels_ok(old(self).state(), n as nat),
            ok ==> final(self).state() == dels(old(self).state(), n as nat),
    {
        let ghost start = self.state();
        let mut i: usize = 0;
        while i < n
            invariant
                i <= n,
                start == old(self).state(),
                dels(self.state(), (n - i) as nat) == dels(start, n as nat),
                dels_ok(self.state(), (n - i) as nat) == dels_ok(start, n as nat),
            decreases n - i,
        {
            if (self.cursor.col > 0 || self.cursor.row > 0) && self.cursor.row >= self.lines.len() {
                proof {
                    assert(self.text().len() == self.lines@.len());
                    assert(n - i > 0);
                    assert(!del_char_ok(self.state()));
                    assert(!dels_ok(self.state(), (n - i) as nat));
                }
                return false;
            }
            self.delete_char_raw();
            i = i + 1;
        }
        true
    }

    /// Applies a recorded operation where it can be applied; says whether it could.
    fn try_apply(&mut self, operation: &EditOperation) -> (ok: bool)
        ensures
            ok == apply_op_ok(old(self).text(), *operation),
            ok ==> final(self).state() == apply_op(old(self).text(), *operation),
    {
        match operation {
            EditOperation::Insert { pos, text } => {
                self.cursor = *pos;
                let cs = chars_of(text.as_str());
                self.try_type_chars(&cs)
            },
            EditOperation::Delete { pos, text } => {
                self.cursor = *pos;
                let n = char_len(text.as_str());
                self.step_right(n);
                self.try_erase_back(n)
            },
            EditOperation::Replace { pos, old, new } => {
                self.cursor = *pos;
                let n = char_len(old.as_str());
                self.step_right(n);
                if !self.try_erase_back(n) {
                    return false;
                }
                let cs = chars_of(new.as_str());
                self.try_type_chars(&cs)
            },
        }
    }

    /// Whether `undo` can take back the latest delta on this text (it always can when
    /// there is none): the edits it recorded still fit the text.
    pub fn undo_applies(&self) -> (b: bool)
        ensures
            b == (self.undo_stack@.len() > 0 ==> unapply_ok(self.text(), self.undo_stack@.last().operations@)),
    {
        let n = self.undo_stack.len();
        if n == 0 {
            return true;
        }
        let delta = &self.undo_stack[n - 1];
        let ghost ops = delta.operations@;
        let mut scratch = self.scratch_copy();
        let ghost start = self.text();
        let mut i = delta.operations.len();
        assert(ops.take(i as int) =~= ops);
        while i > 0
            invariant
                i <= ops.len(),
                ops == delta.operations@,
                ops == self.undo_stack@.last().operations@,
                n == self.undo_stack@.len(),
                n > 0,
                start == self.text(),
                unapply_ok(scratch.text(), ops.take(i as int)) == unapply_ok(start, ops),
            decreases i,
        {
            proof {
                assert(ops.take(i as int).drop_last() =~= ops.take(i - 1));
                assert(ops.take(i as int).last() == ops[i - 1]);
            }
            let back = self.create_inverse_operation(&delta.operations[i - 1]);
            let ghost before = scratch.text();
            if !scratch.try_apply(&back) {
                proof {
                    assert(ops.take(i as int).len() > 0);
                    assert(back == inverse(ops.take(i as int).last()));
                    assert(!apply_op_ok(before, inverse(ops.take(i as int).last())));
                    assert(!unapply_ok(before, ops.take(i as int)));
                }
                return false;
            }
            i = i - 1;
        }
        assert(ops.take(0) =~= Seq::<EditOperation>::empty());
        true
    }

    /// Whether `redo` can apply the latest undone delta again on this text (it always
    /// can when there is none).
    pub fn redo_applies(&self) -> (b: bool)
        ensures
            b == (self.redo_stack@.len() > 0 ==> reapply_ok(self.text(), self.redo_stack@.last().operations@)),
    {
        let n = self.redo_stack.len();
        if n == 0 {
            return true;
        }
        let delta = &self.redo_stack[n - 1];
        let ghost ops = delta.operations@;
        let mut scratch = self.scratch_copy();
        let ghost start = self.text();
        let mut i: usize = 0;
        assert(ops.skip(0) =~= ops);
        while i < delta.operations.len()
            invariant
                i <= ops.len(),
                ops == delta.operations@,
                ops == self.redo_stack@.last().operations@,
                n == self.redo_stack@.len(),
                n > 0,
                start == self.text(),
                reapply_ok(scratch.text(), ops.skip(i as int)) == reapply_ok(start, ops),
            decreases ops.len() - i,
        {
            proof {
                assert(ops.skip(i as int)[0] == ops[i as int]);
                assert(ops.skip(i as int).drop_first() =~= ops.skip(i + 1));
            }
            let ghost before = scratch.text();
            if !scratch.try_apply(&delta.operations[i]) {
                proof {
                    assert(ops.skip(i as int).len() > 0);
                    assert(!apply_op_ok(before, ops.skip(i as int)[0]));
                    assert(!reapply_ok(before, ops.skip(i as int)));
                }
                return false;
            }
            i = i + 1;
        }
        assert(ops.skip(ops.len() as int) =~= Seq::<EditOperation>::empty());
        true
    }

    /// The operation that takes back `operation`.
    fn create_inverse_operation(&self, operation: &EditOperation) -> (r: EditOperation)
        ensures
            r == inverse(*operation),
    {
        match operation {
            EditOperation::Insert { pos, text } => EditOperation::Delete { pos: *pos, text: text.clone() },
            EditOperation::Delete { pos, text } => EditOperation::Insert { pos: *pos, text: text.clone() },
            EditOperation::Replace { pos, old, new } => EditOperation::Replace {
                pos: *pos,
                old: new.clone(),
                new: old.clone(),
            },
        }
    }

    /// What `undo` does: the most recent delta is taken back (its operations inverted,
    /// last first), the cursor returns to where it was before that delta, and a delta
    /// for redo goes on the redo history; without a delta nothing changes.
    pub open spec fn undo_step(before: &Buffer, after: &Buffer, r: bool) -> bool {
        &&& r == (before.undo_stack@.len() > 0)
        &&& after.keeps_identity(before)
        &&& r ==> {
            let d = before.undo_stack@.last();
            &&& after.text() == unapply(before.text(), d.operations@)
            &&& after.cursor == d.cursor_before
            &&& after.modified
            &&& after.undo_stack@ == before.undo_stack@.drop_last()
            &&& after.redo_stack@.drop_last() == before.redo_stack@
            &&& after.redo_stack@.len() == before.redo_stack@.len() + 1
            &&& after.redo_stack@.last().operations == d.operations
            &&& after.redo_stack@.last().cursor_before == before.cursor
            &&& after.redo_stack@.last().cursor_after == d.cursor_before
        }
        &&& !r ==> {
            &&& after.lines == before.lines
            &&& after.cursor == before.cursor
            &&& after.modified == before.modified
            &&& after.undo_stack@ == before.undo_stack@
            &&& after.redo_stack@ == before.redo_stack@
        }
    }

    /// What `redo` does: the most recently undone delta is applied again, in order,
    /// the cursor goes to the delta's recorded after-position, and a delta goes back
    /// on the undo history; without one nothing changes.
    pub open spec fn redo_step(before: &Buffer, after: &Buffer, r: bool) -> bool {
        &&& r == (before.redo_stack@.len() > 0)
        &&& after.keeps_identity(before)
        &&& r ==> {
            let d = before.redo_stack@.last();
            &&& after.text() == reapply(before.text(), d.operations@)
            &&& after.cursor == d.cursor_after
            &&& after.modified
            &&& after.redo_stack@ == before.redo_stack@.drop_last()
            &&& after.undo_stack@.drop_last() == before.undo_stack@
            &&& after.undo_stack@.len() == before.undo_stack@.len() + 1
            &&& after.undo_stack@.last().operations == d.operations
            &&& after.undo_stack@.last().cursor_before == before.cursor
            &&& after.undo_stack@.last().cursor_after == d.cursor_after
        }
        &&& !r ==> {
            &&& after.lines == before.lines
            &&& after.cursor == before.cursor
            &&& after.modified == before.modified
            &&& after.undo_stack@ == before.undo_stack@
            &&& after.redo_stack@ == before.redo_stack@
        }
    }

    /// Takes back the most recent delta.
    pub fn undo(&mut self) -> (r: bool)
        requires
            old(self).undo_stack@.len() > 0 ==> unapply_ok(
                old(self).text(),
                old(self).undo_stack@.last().operations@,
            ),
        ensures
            Self::undo_step(old(self), final(self), r),
    {
        let ghost old_undo = self.undo_stack@;
        let ghost old_redo = self.redo_stack@;
        let ghost start = self.text();
        match self.undo_stack.pop_back() {
            Some(delta) => {
                let current_cursor = self.cursor;
                let ghost ops = delta.operations@;
                let mut i = delta.operations.len();
                assert(ops.take(i as int) =~= ops);
                while i > 0
                    invariant
                        i <= ops.len(),
                        ops == delta.operations@,
                        unapply(self.text(), ops.take(i as int)) == unapply(start, ops),
                        unapply_ok(self.text(), ops.take(i as int)),
                        self.keeps_identity(old(self)),
                        self.undo_stack@ == old_undo.subrange(0, old_undo.len() - 1),
                        self.redo_stack@ == old_redo,
                    decreases i,
                {
                    proof {
                        assert(ops.take(i as int).drop_last() =~= ops.take(i - 1));
                        assert(ops.take(i as int).last() == ops[i - 1]);
                    }
                    let inverse = self.create_inverse_operation(&delta.operations[i - 1]);
                    self.apply_edit_operation(&inverse);
                    i = i - 1;
                }
                assert(ops.take(0) =~= Seq::<EditOperation>::empty());
                let cursor_before = delta.cursor_before;
                let redo_delta = BufferDelta {
                    operations: delta.operations,
                    cursor_before: current_cursor,
                    cursor_after: cursor_before,
                };
                self.redo_stack.push_back(redo_delta);
                self.cursor = cursor_before;
                self.modified = true;
                assert(self.redo_stack@.drop_last() =~= old_redo);
                assert(old_undo.subrange(0, old_undo.len() - 1) =~= old_undo.drop_last());
                true
            },
            None => false,
        }
    }

    /// Applies again the most recently undone delta.
    pub fn redo(&mut self) -> (r: bool)
        requires
            old(self).redo_stack@.len() > 0 ==> reapply_ok(
                old(self).text(),
                old(self).redo_stack@.last().operations@,
            ),
        ensures
            Self::redo_step(old(self), final(self), r),
    {
        let ghost old_undo = self.undo_stack@;
        let ghost old_redo = self.redo_stack@;
        let ghost start = self.text();
        match self.redo_stack.pop_back() {
            Some(delta) => {
                let current_cursor = self.cursor;
                let ghost ops = delta.operations@;
                let mut i: usize = 0;
                assert(ops.skip(0) =~= ops);
                while i < delta.operations.len()
                    invariant
                        i <= ops.len(),
                        ops == delta.operations@,
                        reapply(self.text(), ops.skip(i as int)) == reapply(start, ops),
                        reapply_ok(self.text(), ops.skip(i as int)),
                        self.keeps_identity(old(self)),
                        self.redo_stack@ == old_redo.subrange(0, old_redo.len() - 1),
                        self.undo_stack@ == old_undo,
                    decreases ops.len() - i,
                {
                    proof {
                        assert(ops.skip(i as int).drop_first() =~= ops.skip(i + 1));
                        assert(ops.skip(i as int)[0] == ops[i as int]);
                    }
                    self.apply_edit_operation(&delta.operations[i]);
                    i = i + 1;
                }
                assert(ops.skip(ops.len() as int) =~= Seq::<EditOperation>::empty());
                let cursor_after = delta.cursor_after;
                let undo_delta = BufferDelta {
                    operations: delta.operations,
                    cursor_before: current_cursor,
                    cursor_after: cursor_after,
                };
                self.undo_stack.push_back(undo_delta);
                self.cursor = cursor_after;
                self.modified = true;
                assert(self.undo_stack@.drop_last() =~= old_undo);
                assert(old_redo.subrange(0, old_redo.len() - 1) =~= old_redo.drop_last());
                true
            },
            None => false,
        }
    }

    /// A one-character string.
    fn char_string(ch: char) -> (s: String)
        ensures
            s@ == seq![ch],
    {
        let mut s = String::new();
        push_char(&mut s, ch);
        s
    }

    /// What `insert_char` does: the character goes in at the cursor and the edit is recorded.
    pub open spec fn inserts_char(before: &Buffer, after: &Buffer, ch: char) -> bool {
        &&& after.recorded(before, OpView::Insert(before.cursor, seq![ch]))
        &&& after.state() == ins_char(before.state(), ch)
        &&& after.modified
        &&& after.keeps_identity(before)
    }

    /// Inserts `ch` at the cursor (recording it for undo) and moves the cursor past it.
    pub fn insert_char(&mut self, ch: char)
        requires
            ins_char_ok(old(self).state()),
        ensures
            Self::inserts_char(old(self), final(self), ch),
    {
        let operation = EditOperation::Insert { pos: self.cursor, text: Self::char_string(ch) };
        self.save_operation(operation);
        self.insert_char_raw(ch);
        self.modified = true;
    }

    /// What `insert_line_break` does: the line is split at the cursor and the edit is recorded.
    pub open spec fn breaks_line(before: &Buffer, after: &Buffer) -> bool {
        &&& after.recorded(before, OpView::Insert(before.cursor, seq!['\n']))
        &&& after.state() == line_break(before.state())
        &&& after.modified
        &&& after.keeps_identity(before)
    }

    /// Splits the line at the cursor (recording it for undo).
    pub fn insert_line_break(&mut self)
        requires
            line_break_ok(old(self).state()),
        ensures
            Self::breaks_line(old(self), final(self)),
    {
        let operation = EditOperation::Insert { pos: self.cursor, text: Self::char_string('\n') };
        self.save_operation(operation);
        self.insert_line_break_raw();
        self.modified = true;
    }

    /// What `delete_char` (backspace) does: the character left of the cursor, or the line break before the line, is removed.
    pub open spec fn deletes_char(before: &Buffer, after: &Buffer, r: bool) -> bool {
        &&& after.keeps_identity(before)
        &&& ({
            let row = before.cursor.row as int;
            let col = before.cursor.col as int;
            let t = before.text();
            if (col > 0 && col <= t[row].len()) || (col == 0 && row > 0) {
                &&& r
                &&& after.state() == del_char(before.state())
                &&& after.modified
                &&& if col > 0 {
                    after.recorded(
                        before,
                        OpView::Delete(Position { row: row as usize, col: (col - 1) as usize }, seq![t[row][col - 1]]),
                    )
                } else {
                    after.recorded(
                        before,
                        OpView::Delete(Position { row: (row - 1) as usize, col: t[row - 1].len() as usize }, seq!['\n']),
                    )
                }
            } else {
                &&& !r
                &&& after.lines == before.lines
                &&& after.cursor == before.cursor
                &&& after.modified == before.modified
                &&& after.undo_stack@ == before.undo_stack@
                &&& after.redo_stack@ == before.redo_stack@
            }
        })
    }

    /// Backspace: removes the character before the cursor or joins with the previous line
    /// (recording it for undo); past the end of the line nothing happens.
    pub fn delete_char(&mut self) -> (r: bool)
        requires
            del_char_ok(old(self).state()),
        ensures
            Self::deletes_char(old(self), final(self), r),
    {
        if self.cursor.col > 0 {
            let row = self.cursor.row;
            let cs = chars_of(self.lines[row].as_str());
            if self.cursor.col <= cs.len() {
                let deleted = cs[self.cursor.col - 1];
                let operation = EditOperation::Delete {
                    pos: Position { row, col: self.cursor.col - 1 },
                    text: Self::char_string(deleted),
                };
                self.save_operation(operation);
                self.delete_char_raw();
                self.modified = true;
                return true;
            }
        } else if self.cursor.row > 0 {
            let prev_len = char_len(self.lines[self.cursor.row - 1].as_str());
            let operation = EditOperation::Delete {
                pos: Position { row: self.cursor.row - 1, col: prev_len },
                text: Self::char_string('\n'),
            };
            self.save_operation(operation);
            self.delete_char_raw();
            self.modified = true;
            return true;
        }
        false
    }

    /// The buffer with only the cursor changed.
    pub open spec fn only_cursor_moved(&self, other: &Buffer) -> bool {
        &&& self.lines == other.lines
        &&& self.modified == other.modified
        &&& self.keeps_rest(other)
    }

    /// Moves the cursor to `new_pos`, clamped to the last line and to that line's length.
    pub fn move_cursor(&mut self, new_pos: Position)
        ensures
            final(self).cursor == text::clamp_pos(old(self).text(), new_pos),
            final(self).only_cursor_moved(old(self)),
    {
        self.cursor = motion::clamp(&self.lines, new_pos);
    }

    /// Line `row`, if there is one.
    pub fn get_line(&self, row: usize) -> (r: Option<&String>)
        ensures
            match r {
                Some(l) => row < self.lines@.len() && l@ == self.text()[row as int],
                None => row >= self.lines@.len(),
            },
    {
        if row < self.lines.len() {
            Some(&self.lines[row])
        } else {
            None
        }
    }

    pub fn line_count(&self) -> (n: usize)
        ensures
            n == self.lines@.len(),
    {
        self.lines.len()
    }

    /// The whole text with lines joined by newlines (what saving writes to the file).
    pub fn contents(&self) -> (s: String)
        ensures
            s@ == text::join_lines(self.text()),
    {
        text::join_strings(&self.lines)
    }

    /// What `delete_char_at_cursor` does: the character under the cursor is removed, if there is one.
    pub open spec fn deletes_at_cursor(before: &Buffer, after: &Buffer, r: bool) -> bool {
        &&& after.keeps_identity(before)
        &&& after.cursor == before.cursor
        &&& ({
            let row = before.cursor.row as int;
            let col = before.cursor.col as int;
            let t = before.text();
            if row < t.len() && col < t[row].len() {
                &&& r
                &&& after.recorded(before, OpView::Delete(before.cursor, seq![t[row][col]]))
                &&& after.text() == t.update(row, t[row].remove(col))
                &&& after.modified
            } else {
                &&& !r
                &&& after.lines == before.lines
                &&& after.modified == before.modified
                &&& after.undo_stack@ == before.undo_stack@
                &&& after.redo_stack@ == before.redo_stack@
            }
        })
    }

    /// Delete character at cursor position (like 'x' in Vim)
    pub fn delete_char_at_cursor(&mut self) -> (r: bool)
        ensures
            Self::deletes_at_cursor(old(self), final(self), r),
    {
        if self.cursor.row < self.lines.len() {
            let row = self.cursor.row;
            let cs = chars_of(self.lines[row].as_str());
            if self.cursor.col < cs.len() {
                let deleted = cs[self.cursor.col];
                let operation = EditOperation::Delete {
                    pos: self.cursor,
                    text: Self::char_string(deleted),
                };
                self.save_operation(operation);
                let line = remove_char_at(self.lines[row].as_str(), self.cursor.col);
                self.set_line(row, line);
                self.modified = true;
                return true;
            }
        }
        false
    }

    /// What `delete_char_before_cursor` does: the character left of the cursor is removed and the cursor steps onto its place.
    pub open spec fn deletes_before_cursor(before: &Buffer, after: &Buffer, r: bool) -> bool {
        &&& after.keeps_identity(before)
        &&& ({
            let row = before.cursor.row as int;
            let col = before.cursor.col as int;
            let t = before.text();
            if col > 0 {
                &&& after.recorded(
                    before,
                    OpView::Delete(
                        Position { row: row as usize, col: (col - 1) as usize },
                        seq![text::char_or_space(t[row], col - 1)],
                    ),
                )
                &&& if col <= t[row].len() {
                    &&& r
                    &&& after.text() == t.update(row, t[row].remove(col - 1))
                    &&& after.cursor == Position { row: row as usize, col: (col - 1) as usize }
                    &&& after.modified
                } else {
                    &&& !r
                    &&& after.lines == before.lines
                    &&& after.cursor == before.cursor
                    &&& after.modified == before.modified
                }
            } else {
                &&& !r
                &&& after.lines == before.lines
                &&& after.cursor == before.cursor
                &&& after.modified == before.modified
                &&& after.undo_stack@ == before.undo_stack@
                &&& after.redo_stack@ == before.redo_stack@
            }
        })
    }

    /// Delete character before cursor (like 'X' in Vim); the deletion is recorded
    /// for undo even when the cursor is past the end of the line and nothing is removed.
    pub fn delete_char_before_cursor(&mut self) -> (r: bool)
        requires
            old(self).cursor.col > 0 ==> old(self).cursor.row < old(self).lines@.len(),
        ensures
            Self::deletes_before_cursor(old(self), final(self), r),
    {
        if self.cursor.col > 0 {
            let row = self.cursor.row;
            let cs = chars_of(self.lines[row].as_str());
            let deleted = text::char_at_or_space(&cs, self.cursor.col - 1);
            let operation = EditOperation::Delete {
                pos: Position { row, col: self.cursor.col - 1 },
                text: Self::char_string(deleted),
            };
            self.save_operation(operation);
            if self.cursor.col <= cs.len() {
                let line = remove_char_at(self.lines[row].as_str(), self.cursor.col - 1);
                self.set_line(row, line);
                self.cursor.col = self.cursor.col - 1;
                self.modified = true;
                return true;
            }
        }
        false
    }

    /// What `delete_line` does: the cursor line is removed (the last line is emptied instead).
    pub open spec fn deletes_line(before: &Buffer, after: &Buffer, r: bool) -> bool {
        &&& after.keeps_identity(before)
        &&& ({
            let row = before.cursor.row as int;
            let t = before.text();
            if row < t.len() {
                &&& r
                &&& after.recorded(
                    before,
                    OpView::Delete(Position { row: row as usize, col: 0 }, t[row] + seq!['\n']),
                )
                &&& after.modified
                &&& if t.len() == 1 {
                    &&& after.text() == seq![Seq::<char>::empty()]
                    &&& after.cursor == Position { row: before.cursor.row, col: 0 }
                } else {
                    &&& after.text() == t.remove(row)
                    &&& after.cursor == Position {
                        row: (if row >= t.len() - 1 { t.len() - 2 } else { row }) as usize,
                        col: 0,
                    }
                }
            } else {
                &&& !r
                &&& after.lines == before.lines
                &&& after.cursor == before.cursor
                &&& after.modified == before.modified
                &&& after.undo_stack@ == before.undo_stack@
                &&& after.redo_stack@ == before.redo_stack@
            }
        })
    }

    /// Delete entire line (like 'dd' in Vim); the only line is emptied instead.
    pub fn delete_line(&mut self) -> (r: bool)
        ensures
            Self::deletes_line(old(self), final(self), r),
    {
        if self.lines.len() > 0 && self.cursor.row < self.lines.len() {
            let row = self.cursor.row;
            let mut deleted = text::owned(self.lines[row].as_str());
            push_char(&mut deleted, '\n');
            assert(deleted@ =~= self.text()[row as int] + seq!['\n']);
            let operation = EditOperation::Delete { pos: Position { row, col: 0 }, text: deleted };
            self.save_operation(operation);
            if self.lines.len() == 1 {
                self.set_line(0, String::new());
                self.cursor.col = 0;
                assert(self.text() =~= seq![Seq::<char>::empty()]);
            } else {
                let ghost before = self.lines@;
                let _removed = self.lines.remove(row);
                proof {
                    text::lemma_seqs_remove(before, row as int);
                }
                if self.cursor.row >= self.lines.len() {
                    self.cursor.row = self.lines.len() - 1;
                }
                self.cursor.col = 0;
            }
            self.modified = true;
            return true;
        }
        false
    }

    /// Move cursor to start of next word
    pub fn move_to_next_word(&mut self)
        ensures
            final(self).cursor == text::next_word_pos(old(self).text(), old(self).cursor),
            final(self).only_cursor_moved(old(self)),
    {
        self.cursor = motion::next_word(&self.lines, self.cursor);
    }

    /// Move cursor to start of previous word
    pub fn move_to_previous_word(&mut self)
        requires
            old(self).cursor.col > 0 ==> old(self).cursor.row < old(self).lines@.len(),
        ensures
            final(self).cursor == text::prev_word_pos(old(self).text(), old(self).cursor),
            final(self).only_cursor_moved(old(self)),
    {
        self.cursor = motion::previous_word(&self.lines, self.cursor);
    }

    /// Move cursor to end of current word
    pub fn move_to_word_end(&mut self)
        ensures
            final(self).cursor == text::word_end_pos(old(self).text(), old(self).cursor),
            final(self).only_cursor_moved(old(self)),
    {
        self.cursor = motion::word_end(&self.lines, self.cursor);
    }

    /// Everything but the clipboard is as in `other`.
    pub open spec fn only_clipboard_changed(&self, other: &Buffer) -> bool {
        &&& self.lines == other.lines
        &&& self.cursor == other.cursor
        &&& self.modified == other.modified
        &&& self.id == other.id
        &&& self.file_path == other.file_path
        &&& self.selection == other.selection
        &&& self.buffer_type == other.buffer_type
        &&& self.undo_levels == other.undo_levels
        &&& self.undo_stack@ == other.undo_stack@
        &&& self.redo_stack@ == other.redo_stack@
    }

    /// What `yank_line` does: the cursor line and a line break go to the clipboard as a line.
    pub open spec fn yanks_line(before: &Buffer, after: &Buffer) -> bool {
        &&& after.only_clipboard_changed(before)
        &&& ({
            let row = before.cursor.row as int;
            if row < before.lines@.len() {
                &&& after.clipboard.text@ == before.text()[row] + seq!['\n']
                &&& after.clipboard.yank_type == YankType::Line
            } else {
                after.clipboard == before.clipboard
            }
        })
    }

    /// Yank (copy) the current line, with its line break, line-wise
    pub fn yank_line(&mut self)
        ensures
            Self::yanks_line(old(self), final(self)),
    {
        if self.cursor.row < self.lines.len() {
            let mut line_with_newline = text::owned(self.lines[self.cursor.row].as_str());
            push_char(&mut line_with_newline, '\n');
            assert(line_with_newline@ =~= self.text()[self.cursor.row as int] + seq!['\n']);
            self.clipboard = ClipboardContent { text: line_with_newline, yank_type: YankType::Line };
        }
    }

    /// What `yank_word` does: the word from the cursor on goes to the clipboard.
    pub open spec fn yanks_word(before: &Buffer, after: &Buffer) -> bool {
        &&& after.only_clipboard_changed(before)
        &&& ({
            let row = before.cursor.row as int;
            let col = before.cursor.col as int;
            let t = before.text();
            if row < t.len() && col < t[row].len() && text::scan_fwd(t[row], col, false) > col {
                &&& after.clipboard.text@ == t[row].subrange(col, text::scan_fwd(t[row], col, false))
                &&& after.clipboard.yank_type == YankType::Character
            } else {
                after.clipboard == before.clipboard
            }
        })
    }

    /// Yank (copy) the current word: from the cursor up to the next whitespace
    pub fn yank_word(&mut self)
        ensures
            Self::yanks_word(old(self), final(self)),
    {
        if self.cursor.row >= self.lines.len() {
            return;
        }
        let cs = chars_of(self.lines[self.cursor.row].as_str());
        if self.cursor.col >= cs.len() {
            return;
        }
        let start_pos = self.cursor.col;
        let end_pos = scan_forward(&cs, start_pos, false);
        if end_pos > start_pos {
            let word = substring(self.lines[self.cursor.row].as_str(), start_pos, end_pos);
            self.clipboard = ClipboardContent { text: word, yank_type: YankType::Character };
        }
    }

    /// What `yank_to_end_of_line` does: the rest of the cursor line goes to the clipboard.
    pub open spec fn yanks_to_line_end(before: &Buffer, after: &Buffer) -> bool {
        &&& after.only_clipboard_changed(before)
        &&& ({
            let row = before.cursor.row as int;
            let col = before.cursor.col as int;
            let t = before.text();
            if row < t.len() {
                &&& after.clipboard.text@ == (if col < t[row].len() {
                    t[row].skip(col)
                } else {
                    Seq::empty()
                })
                &&& after.clipboard.yank_type == YankType::Character
            } else {
                after.clipboard == before.clipboard
            }
        })
    }

    /// Yank (copy) text from current cursor to end of line
    pub fn yank_to_end_of_line(&mut self)
        ensures
            Self::yanks_to_line_end(old(self), final(self)),
    {
        if self.cursor.row < self.lines.len() {
            let row = self.cursor.row;
            let n = char_len(self.lines[row].as_str());
            let text = if self.cursor.col < n {
                substring(self.lines[row].as_str(), self.cursor.col, n)
            } else {
                String::new()
            };
            self.clipboard = ClipboardContent { text, yank_type: YankType::Character };
        }
    }

    /// A copy of lines `..a`, then `mid`, then a copy of lines `b..`.
    fn spliced_lines(&self, a: usize, b: usize, mid: String) -> (v: Vec<String>)
        requires
            a <= b <= self.lines@.len(),
        ensures
            text::seqs(v@) == self.text().take(a as int) + seq![mid@] + self.text().skip(b as int),
    {
        let mut v: Vec<String> = Vec::new();
        let mut i: usize = 0;
        while i < a
            invariant
                i <= a <= b <= self.lines@.len(),
                text::seqs(v@) == self.text().take(i as int),
            decreases a - i,
        {
            let ghost before = v@;
            let l = self.lines[i].clone();
            v.push(l);
            proof {
                text::lemma_seqs_push(before, l);
                assert(self.text().take(i + 1) =~= self.text().take(i as int).push(self.text()[i as int]));
            }
            i = i + 1;
        }
        let ghost before = v@;
        let ghost m = mid;
        v.push(mid);
        proof {
            text::lemma_seqs_push(before, m);
        }
        let mut j: usize = b;
        let n = self.lines.len();
        while j < n
            invariant
                b <= j <= n,
                n == self.lines@.len(),
                text::seqs(v@) == self.text().take(a as int) + seq![mid@] + self.text().subrange(b as int, j as int),
            decreases n - j,
        {
            let ghost before = v@;
            let l = self.lines[j].clone();
            v.push(l);
            proof {
                text::lemma_seqs_push(before, l);
                assert(self.text().subrange(b as int, j + 1) =~= self.text().subrange(b as int, j as int).push(self.text()[j as int]));
            }
            j = j + 1;
        }
        assert(self.text().subrange(b as int, n as int) =~= self.text().skip(b as int));
        v
    }

    /// Get text content in a range
    pub fn get_text_in_range(&self, start: Position, end: Position) -> (r: String)
        requires
            text::range_text_ok(self.text(), start, end),
        ensures
            r@ == text::range_text(self.text(), start, end),
    {
        text::text_in_range(&self.lines, start, end)
    }

    /// Removes the range from `start` to `end` and puts the cursor at `start`, without recording it.
    fn delete_range_raw(&mut self, start: Position, end: Position)
        requires
            cut_ok(old(self).text(), start, end),
        ensures
            final(self).text() == cut(old(self).text(), start, end),
            final(self).cursor == start,
            final(self).modified == old(self).modified,
            final(self).keeps_rest(old(self)),
    {
        let ghost t = self.text();
        if start.row == end.row {
            if start.row < self.lines.len() {
                let row = start.row;
                let n = char_len(self.lines[row].as_str());
                let sc = if start.col < n { start.col } else { n };
                let ec = if end.col < n { end.col } else { n };
                let head = substring(self.lines[row].as_str(), 0, sc);
                let tail = substring(self.lines[row].as_str(), ec, n);
                let line = concat(head.as_str(), tail.as_str());
                proof {
                    assert(t[row as int].subrange(0, sc as int) =~= t[row as int].take(sc as int));
                    assert(t[row as int].subrange(ec as int, n as int) =~= t[row as int].skip(ec as int));
                }
                self.set_line(row, line);
            }
        } else {
            let start_row = start.row;
            let len = self.lines.len();
            let end_row = if end.row < len - 1 { end.row } else { len - 1 };
            let first_part = if start_row < len {
                let l = self.lines[start_row].as_str();
                let n = char_len(l);
                let c = if start.col < n { start.col } else { n };
                assert(l@.subrange(0, c as int) =~= l@.take(c as int));
                substring(l, 0, c)
            } else {
                String::new()
            };
            let last_part = if end_row < len {
                let l = self.lines[end_row].as_str();
                let n = char_len(l);
                let c = if end.col < n { end.col } else { n };
                assert(l@.subrange(c as int, n as int) =~= l@.skip(c as int));
                substring(l, c, n)
            } else {
                String::new()
            };
            let combined = concat(first_part.as_str(), last_part.as_str());
            if end_row >= start_row {
                let v = self.spliced_lines(start_row, end_row + 1, combined);
                self.lines = v;
            } else {
                let ghost before = self.lines@;
                let ghost cm = combined;
                self.lines.insert(start_row, combined);
                proof {
                    text::lemma_seqs_insert(before, start_row as int, cm);
                }
            }
        }
        self.cursor = start;
    }

    /// Delete a range of text (recorded for undo); returns the deleted text and leaves
    /// the cursor at `start`.
    pub fn delete_range(&mut self, start: Position, end: Position) -> (r: String)
        requires
            text::range_text_ok(old(self).text(), start, end),
            cut_ok(old(self).text(), start, end),
        ensures
            r@ == text::range_text(old(self).text(), start, end),
            final(self).recorded(old(self), OpView::Delete(start, text::range_text(old(self).text(), start, end))),
            final(self).text() == cut(old(self).text(), start, end),
            final(self).cursor == start,
            final(self).modified,
            final(self).keeps_identity(old(self)),
    {
        let deleted_text = self.get_text_in_range(start, end);
        let operation = EditOperation::Delete { pos: start, text: deleted_text.clone() };
        self.save_operation(operation);
        self.delete_range_raw(start, end);
        self.modified = true;
        deleted_text
    }

    /// Replace text in a range with new text (recorded for undo). On one line the
    /// cursor ends just after the new text; across lines the range is cut and the new
    /// text typed at `start` (a newline splitting the line).
    pub fn replace_range(&mut self, start: Position, end: Position, new_text: &str)
        requires
            text::range_text_ok(old(self).text(), start, end),
            start.row != end.row ==> cut_ok(old(self).text(), start, end) && ins_text_ok(
                (cut(old(self).text(), start, end), start),
                new_text@,
            ),
        ensures
            final(self).recorded(
                old(self),
                OpView::Replace(start, text::range_text(old(self).text(), start, end), new_text@),
            ),
            final(self).modified,
            final(self).keeps_identity(old(self)),
            ({
                let t = old(self).text();
                if start.row == end.row {
                    if start.row < t.len() {
                        let l = t[start.row as int];
                        let sc = text::min_int(start.col as int, l.len() as int);
                        let ec = text::min_int(end.col as int, l.len() as int);
                        &&& final(self).text() == t.update(start.row as int, l.take(sc) + new_text@ + l.skip(ec))
                        &&& final(self).cursor == Position { row: start.row, col: (sc + new_text@.len()) as usize }
                    } else {
                        &&& final(self).text() == t
                        &&& final(self).cursor == old(self).cursor
                    }
                } else {
                    final(self).state() == ins_text((cut(t, start, end), start), new_text@)
                }
            }),
    {
        let old_text = self.get_text_in_range(start, end);
        let operation = EditOperation::Replace { pos: start, old: old_text, new: text::owned(new_text) };
        self.save_operation(operation);
        if start.row == end.row {
            if start.row < self.lines.len() {
                let row = start.row;
                let ghost l = self.text()[row as int];
                let n = char_len(self.lines[row].as_str());
                let sc = if start.col < n { start.col } else { n };
                let ec = if end.col < n { end.col } else { n };
                let head = substring(self.lines[row].as_str(), 0, sc);
                let tail = substring(self.lines[row].as_str(), ec, n);
                let mid = concat(head.as_str(), new_text);
                let line = concat(mid.as_str(), tail.as_str());
                let total = char_len(line.as_str());
                proof {
                    assert(l.subrange(0, sc as int) =~= l.take(sc as int));
                    assert(l.subrange(ec as int, n as int) =~= l.skip(ec as int));
                }
                self.set_line(row, line);
                self.cursor = Position { row, col: sc + char_len(new_text) };
            }
        } else {
            self.delete_range_raw(start, end);
            self.cursor = start;
            let cs = chars_of(new_text);
            self.type_chars(&cs);
        }
        self.modified = true;
    }

    /// Add indentation (four spaces) to a line, recorded for undo.
    pub fn indent_line(&mut self, line_num: usize) -> (r: Result<(), anyhow::Error>)
        ensures
            r.is_ok(),
            final(self).cursor == old(self).cursor,
            final(self).keeps_identity(old(self)),
            ({
                let t = old(self).text();
                if line_num < t.len() {
                    &&& final(self).recorded(
                        old(self),
                        OpView::Insert(Position { row: line_num, col: 0 }, seq![' ', ' ', ' ', ' ']),
                    )
                    &&& final(self).text() == t.update(line_num as int, seq![' ', ' ', ' ', ' '] + t[line_num as int])
                    &&& final(self).modified
                } else {
                    &&& final(self).lines == old(self).lines
                    &&& final(self).modified == old(self).modified
                    &&& final(self).undo_stack@ == old(self).undo_stack@
                    &&& final(self).redo_stack@ == old(self).redo_stack@
                }
            }),
    {
        if line_num < self.lines.len() {
            let indent = text::spaces(4);
            assert(indent@ =~= seq![' ', ' ', ' ', ' ']);
            let operation = EditOperation::Insert { pos: Position { row: line_num, col: 0 }, text: indent };
            self.save_operation(operation);
            let ind = text::spaces(4);
            let line = concat(ind.as_str(), self.lines[line_num].as_str());
            assert(ind@ =~= seq![' ', ' ', ' ', ' ']);
            self.set_line(line_num, line);
            self.modified = true;
        }
        Ok(())
    }

    /// Remove indentation from a line: four leading spaces, else a leading tab, else
    /// the leading spaces among the first four characters (recorded for undo).
    pub fn unindent_line(&mut self, line_num: usize) -> (r: Result<(), anyhow::Error>)
        ensures
            r.is_ok(),
            final(self).cursor == old(self).cursor,
            final(self).keeps_identity(old(self)),
            ({
                let t = old(self).text();
                if line_num < t.len() && unindent_width(t[line_num as int]) > 0 {
                    let k = unindent_width(t[line_num as int]);
                    &&& final(self).recorded(
                        old(self),
                        OpView::Delete(Position { row: line_num, col: 0 }, t[line_num as int].take(k)),
                    )
                    &&& final(self).text() == t.update(line_num as int, t[line_num as int].skip(k))
                    &&& final(self).modified
                } else {
                    &&& final(self).lines == old(self).lines
                    &&& final(self).modified == old(self).modified
                    &&& final(self).undo_stack@ == old(self).undo_stack@
                    &&& final(self).redo_stack@ == old(self).redo_stack@
                }
            }),
    {
        if line_num < self.lines.len() {
            let cs = chars_of(self.lines[line_num].as_str());
            let ghost l = cs@;
            let chars_to_remove: usize = if cs.len() >= 4 && cs[0] == ' ' && cs[1] == ' ' && cs[2] == ' '
                && cs[3] == ' ' {
                assert(l.take(4) =~= seq![' ', ' ', ' ', ' ']);
                4
            } else if cs.len() > 0 && cs[0] == '\t' {
                proof {
                    if l.len() >= 4 && l.take(4) == seq![' ', ' ', ' ', ' '] {
                        assert(l.take(4)[0] == ' ');
                    }
                }
                1
            } else {
                proof {
                    if l.len() >= 4 && l.take(4) == seq![' ', ' ', ' ', ' '] {
                        assert(l.take(4)[0] == ' ' && l.take(4)[1] == ' ' && l.take(4)[2] == ' ' && l.take(4)[3] == ' ');
                    }
                }
                let mut k: usize = 0;
                while k < 4 && k < cs.len() && cs[k] == ' '
                    invariant
                        k <= 4,
                        k <= cs@.len(),
                        lead_spaces(l, k as int) == lead_spaces(l, 0),
                        l == cs@,
                    decreases 4 - k,
                {
                    k = k + 1;
                }
                k
            };
            if chars_to_remove > 0 {
                let n = cs.len();
                let removed_text = substring(self.lines[line_num].as_str(), 0, chars_to_remove);
                assert(l.subrange(0, chars_to_remove as int) =~= l.take(chars_to_remove as int));
                let operation = EditOperation::Delete {
                    pos: Position { row: line_num, col: 0 },
                    text: removed_text,
                };
                self.save_operation(operation);
                let rest = substring(self.lines[line_num].as_str(), chars_to_remove, n);
                assert(l.subrange(chars_to_remove as int, n as int) =~= l.skip(chars_to_remove as int));
                self.set_line(line_num, rest);
                self.modified = true;
            }
        }
        Ok(())
    }

    /// Inserts `ins` on line `row` before character `at` and returns the new length of that line.
    fn splice_into_line(&mut self, row: usize, at: usize, ins: &str) -> (n: usize)
        requires
            row < old(self).lines@.len(),
            at <= old(self).text()[row as int].len(),
        ensures
            final(self).text() == old(self).text().update(row as int, splice(old(self).text()[row as int], at as int, ins@)),
            n == old(self).text()[row as int].len() + ins@.len(),
            final(self).cursor == old(self).cursor,
            final(self).modified == old(self).modified,
            final(self).keeps_rest(old(self)),
    {
        let line = text::insert_str_at(self.lines[row].as_str(), at, ins);
        let n = char_len(line.as_str());
        self.set_line(row, line);
        n
    }

    /// Helper for character-wise paste after cursor
    fn put_after_character(&mut self)
        requires
            old(self).cursor.row < old(self).lines@.len(),
        ensures
            Self::put_after_chars(old(self), final(self), false),
    {
        let row = self.cursor.row;
        let n = char_len(self.lines[row].as_str());
        let insert_pos = if self.cursor.col < n { self.cursor.col + 1 } else { n };
        let operation = EditOperation::Insert {
            pos: Position { row, col: insert_pos },
            text: self.clipboard.text.clone(),
        };
        self.save_operation(operation);
        let clip_len = char_len(self.clipboard.text.as_str());
        let clip = self.clipboard.text.clone();
        let _total = self.splice_into_line(row, insert_pos, clip.as_str());
        self.cursor.col = insert_pos + (if clip_len > 0 { clip_len - 1 } else { 0 });
        self.modified = true;
    }

    /// A character-wise put after the cursor: the clipboard text goes after the
    /// character under the cursor (at the end of the line when the cursor is past it)
    /// and the cursor lands on its last character (`strict`: on an empty clipboard the
    /// cursor is one before the insertion point, else at it).
    pub open spec fn put_after_chars(before: &Buffer, after: &Buffer, strict: bool) -> bool {
        let t = before.text();
        let row = before.cursor.row as int;
        let at = after_cursor(t, before.cursor);
        let clip = before.clipboard.text@;
        &&& after.recorded(before, OpView::Insert(Position { row: row as usize, col: at as usize }, clip))
        &&& after.text() == t.update(row, splice(t[row], at, clip))
        &&& after.cursor == Position {
            row: row as usize,
            col: (if strict || clip.len() > 0 { at + clip.len() - 1 } else { at }) as usize,
        }
        &&& after.modified
        &&& after.keeps_identity(before)
    }

    /// Helper for character-wise paste before cursor
    fn put_before_character(&mut self)
        requires
            old(self).cursor.row < old(self).lines@.len() ==> old(self).cursor.col
                <= old(self).text()[old(self).cursor.row as int].len(),
        ensures
            Self::put_before_chars(old(self), final(self), false),
    {
        let operation = EditOperation::Insert { pos: self.cursor, text: self.clipboard.text.clone() };
        self.save_operation(operation);
        if self.cursor.row < self.lines.len() {
            let row = self.cursor.row;
            let clip_len = char_len(self.clipboard.text.as_str());
            let clip = self.clipboard.text.clone();
            let _total = self.splice_into_line(row, self.cursor.col, clip.as_str());
            self.cursor.col = self.cursor.col + (if clip_len > 0 { clip_len - 1 } else { 0 });
            self.modified = true;
        }
    }

    /// A character-wise put before the cursor: the clipboard text goes in at the cursor
    /// and the cursor lands on its last character (`strict`: an empty clipboard is not
    /// allowed, else it leaves the cursor where it was); below the last line only the
    /// operation is recorded.
    pub open spec fn put_before_chars(before: &Buffer, after: &Buffer, strict: bool) -> bool {
        let t = before.text();
        let row = before.cursor.row as int;
        let col = before.cursor.col as int;
        let clip = before.clipboard.text@;
        &&& after.recorded(before, OpView::Insert(before.cursor, clip))
        &&& after.keeps_identity(before)
        &&& if row < t.len() {
            &&& after.text() == t.update(row, splice(t[row], col, clip))
            &&& after.cursor == Position {
                row: row as usize,
                col: (if strict || clip.len() > 0 { col + clip.len() - 1 } else { col }) as usize,
            }
            &&& after.modified
        } else {
            &&& after.lines == before.lines
            &&& after.cursor == before.cursor
            &&& after.modified == before.modified
        }
    }

    /// What `put_after` does: the clipboard goes in below the cursor line, or after the cursor.
    pub open spec fn puts_after(before: &Buffer, after: &Buffer) -> bool {
        &&& ({
            let t = before.text();
            let row = before.cursor.row as int;
            let clip = before.clipboard.text@;
            match before.clipboard.yank_type {
                YankType::Line => {
                    &&& after.recorded(
                        before,
                        OpView::Insert(Position { row: (row + 1) as usize, col: 0 }, clip + seq!['\n']),
                    )
                    &&& after.keeps_identity(before)
                    &&& if row + 1 <= t.len() {
                        &&& after.text() == t.insert(row + 1, clip)
                        &&& after.cursor == Position { row: (row + 1) as usize, col: 0 }
                        &&& after.modified
                    } else {
                        &&& after.lines == before.lines
                        &&& after.cursor == before.cursor
                        &&& after.modified == before.modified
                    }
                },
                YankType::Character => Self::put_after_chars(before, after, true),
                YankType::Block => Self::put_after_chars(before, after, false),
            }
        })
    }

    /// Put (paste) clipboard content after the cursor: a line-wise yank goes in as a new
    /// line below the cursor line, a character-wise yank after the cursor character.
    pub fn put_after(&mut self)
        requires
            old(self).clipboard.yank_type == YankType::Line ==> old(self).cursor.row < usize::MAX,
            old(self).clipboard.yank_type != YankType::Line ==> old(self).cursor.row < old(self).lines@.len(),
            old(self).clipboard.yank_type == YankType::Character ==> old(self).clipboard.text@.len() > 0
                || old(self).text()[old(self).cursor.row as int].len() > 0,
        ensures
            Self::puts_after(old(self), final(self)),
    {
        match self.clipboard.yank_type {
            YankType::Line => {
                let mut text = self.clipboard.text.clone();
                push_char(&mut text, '\n');
                assert(text@ =~= self.clipboard.text@ + seq!['\n']);
                let operation = EditOperation::Insert {
                    pos: Position { row: self.cursor.row + 1, col: 0 },
                    text,
                };
                self.save_operation(operation);
                let new_line = self.clipboard.text.clone();
                if self.cursor.row + 1 <= self.lines.len() {
                    let ghost before = self.lines@;
                    let ghost nl = new_line;
                    self.lines.insert(self.cursor.row + 1, new_line);
                    proof {
                        text::lemma_seqs_insert(before, self.cursor.row + 1, nl);
                    }
                    self.cursor.row = self.cursor.row + 1;
                    self.cursor.col = 0;
                    self.modified = true;
                }
            },
            YankType::Character => {
                let row = self.cursor.row;
                let n = char_len(self.lines[row].as_str());
                let insert_pos = if self.cursor.col < n { self.cursor.col + 1 } else { n };
                let operation = EditOperation::Insert {
                    pos: Position { row, col: insert_pos },
                    text: self.clipboard.text.clone(),
                };
                self.save_operation(operation);
                let clip_len = char_len(self.clipboard.text.as_str());
                let clip = self.clipboard.text.clone();
                let _total = self.splice_into_line(row, insert_pos, clip.as_str());
                self.cursor.col = insert_pos + clip_len - 1;
                self.modified = true;
            },
            YankType::Block => {
                self.put_after_character();
            },
        }
    }

    /// What `put_before` does: the clipboard goes in above the cursor line, or at the cursor.
    pub open spec fn puts_before(before: &Buffer, after: &Buffer) -> bool {
        &&& ({
            let t = before.text();
            let row = before.cursor.row as int;
            let clip = before.clipboard.text@;
            match before.clipboard.yank_type {
                YankType::Line => {
                    &&& after.recorded(
                        before,
                        OpView::Insert(Position { row: row as usize, col: 0 }, clip + seq!['\n']),
                    )
                    &&& after.keeps_identity(before)
                    &&& after.text() == t.insert(row, clip)
                    &&& after.cursor == Position { row: row as usize, col: 0 }
                    &&& after.modified
                },
                YankType::Character => Self::put_before_chars(before, after, true),
                YankType::Block => Self::put_before_chars(before, after, false),
            }
        })
    }

    /// Put (paste) clipboard content before the cursor: a line-wise yank goes in as a
    /// new line above the cursor line, a character-wise yank at the cursor.
    pub fn put_before(&mut self)
        requires
            old(self).clipboard.yank_type == YankType::Line ==> old(self).cursor.row <= old(self).lines@.len(),
            old(self).clipboard.yank_type != YankType::Line && old(self).cursor.row < old(self).lines@.len()
                ==> old(self).cursor.col <= old(self).text()[old(self).cursor.row as int].len(),
            old(self).clipboard.yank_type == YankType::Character && old(self).cursor.row < old(self).lines@.len()
                ==> old(self).clipboard.text@.len() > 0,
        ensures
            Self::puts_before(old(self), final(self)),
    {
        match self.clipboard.yank_type {
            YankType::Line => {
                let mut text = self.clipboard.text.clone();
                push_char(&mut text, '\n');
                assert(text@ =~= self.clipboard.text@ + seq!['\n']);
                let operation = EditOperation::Insert {
                    pos: Position { row: self.cursor.row, col: 0 },
                    text,
                };
                self.save_operation(operation);
                let new_line = self.clipboard.text.clone();
                let ghost before = self.lines@;
                let ghost nl = new_line;
                self.lines.insert(self.cursor.row, new_line);
                proof {
                    text::lemma_seqs_insert(before, self.cursor.row as int, nl);
                }
                self.cursor.col = 0;
                self.modified = true;
            },
            YankType::Character => {
                let operation = EditOperation::Insert { pos: self.cursor, text: self.clipboard.text.clone() };
                self.save_operation(operation);
                if self.cursor.row < self.lines.len() {
                    let row = self.cursor.row;
                    let clip_len = char_len(self.clipboard.text.as_str());
                    let clip = self.clipboard.text.clone();
                    let _total = self.splice_into_line(row, self.cursor.col, clip.as_str());
                    self.cursor.col = self.cursor.col + (clip_len - 1);
                    self.modified = true;
                }
            },
            YankType::Block => {
                self.put_before_character();
            },
        }
    }
}

} // verus!
