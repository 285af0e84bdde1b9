//! The editor's state: its buffers and which one is current, the mode, the command and
//! status lines, the configuration, the search and its results, the viewport and the
//! line-number display. Reading and writing files, the terminal and the screen are
//! not here; the editor is handed what they give.
use crate::config::{applies_setting, EditorConfig};
use crate::digits;
use crate::engine::buffer::Buffer;
use crate::mode::{Mode, Position};
use crate::search::{results_view, search_outcome, SearchEngine, SearchResult};
use crate::text;
use crate::text::{concat, owned, push_char};
use std::path::PathBuf;
use vstd::prelude::*;

verus! {

/// The editor's state.
pub struct Editor {
    /// All open buffers, in the order they were opened, each id once
    pub buffers: Vec<Buffer>,
    /// Currently active buffer ID
    pub current_buffer_id: Option<usize>,
    /// Next buffer ID to assign
    pub next_buffer_id: usize,
    /// Current editor mode
    pub mode: Mode,
    /// Editor configuration
    pub config: EditorConfig,
    /// Search engine for text search
    pub search_engine: SearchEngine,
    /// Current search results
    pub search_results: Vec<SearchResult>,
    /// Current search result index
    pub current_search_index: Option<usize>,
    /// Whether the editor should quit
    pub should_quit: bool,
    /// Command line content (for command mode)
    pub command_line: String,
    /// Status message
    pub status_message: String,
    /// Top row of the viewport
    pub viewport_top: usize,
    /// Show absolute line numbers
    pub show_line_numbers: bool,
    /// Show relative line numbers
    pub show_relative_numbers: bool,
    /// Highlight the current cursor line
    pub show_cursor_line: bool,
}

/// Buffer `i` of `bs` has id `id`.
pub open spec fn at_id(bs: Seq<Buffer>, id: usize, i: int) -> bool {
    0 <= i < bs.len() && bs[i].id == id
}

/// Some buffer of `bs` has id `id`.
pub open spec fn has_id(bs: Seq<Buffer>, id: usize) -> bool {
    exists|i: int| at_id(bs, id, i)
}

/// The ids of the buffers, in order.
pub open spec fn ids(bs: Seq<Buffer>) -> Seq<usize> {
    bs.map_values(|b: Buffer| b.id)
}

/// A fresh buffer: the text of the file read (one empty line for an empty file), or
/// one empty line without a file; cursor at the start, unmodified, no history.
pub open spec fn fresh_buffer(b: Buffer, id: usize, file: Option<Seq<char>>, undo_levels: usize) -> bool {
    &&& b.id == id
    &&& b.text() == match file {
        Some(c) => if c.len() == 0 {
            seq![Seq::<char>::empty()]
        } else {
            text::split_lines(c)
        },
        None => seq![Seq::<char>::empty()],
    }
    &&& file is None <==> b.file_path is None
    &&& !b.modified
    &&& b.cursor == (Position { row: 0, col: 0 })
    &&& b.undo_stack@.len() == 0
    &&& b.redo_stack@.len() == 0
    &&& b.undo_levels == undo_levels
}


/// The path a file name stands for.
pub uninterp spec fn path_named(name: Seq<char>) -> PathBuf;

/// `PathBuf::from` a file name: the path is named `path_named` of the name.
#[verifier::external_body]
fn path_from(name: &str) -> (p: PathBuf)
    ensures
        p == path_named(name@),
{
    PathBuf::from(name)
}

/// The last component of a path, as text, if the path has one.
pub uninterp spec fn path_file_name(path: PathBuf) -> Option<Seq<char>>;

/// How a path is displayed (its bytes read as UTF-8, lossily).
pub uninterp spec fn path_display(path: PathBuf) -> Seq<char>;

/// `Path::display` of the path, as text: the text is named `path_display`.
#[verifier::external_body]
pub(crate) fn path_text(path: &PathBuf) -> (s: String)
    ensures
        s@ == path_display(*path),
{
    format!("{}", path.display())
}

/// `Path::file_name` of the path, converted with `to_string_lossy`.
#[verifier::external_body]
fn file_name_of(path: &PathBuf) -> (r: Option<String>)
    ensures
        match r {
            Some(t) => path_file_name(*path) == Some(t@),
            None => path_file_name(*path) is None,
        },
{
    path.file_name().map(|n| n.to_string_lossy().to_string())
}

/// The file name of a buffer, if it has a file whose path has one.
pub open spec fn buffer_file_name(b: Buffer) -> Option<Seq<char>> {
    match b.file_path {
        Some(p) => path_file_name(p),
        None => None,
    }
}

/// `name` occurs in the text.
pub open spec fn mentions(t: Seq<char>, name: Seq<char>) -> bool {
    exists|p: int| crate::search::occurs_at(t, name, p)
}

/// The first buffer whose file name holds `name`, from `i` on.
pub open spec fn first_named_from(bs: Seq<Buffer>, name: Seq<char>, i: int) -> Option<int>
    decreases bs.len() - i,
{
    if i < 0 || i >= bs.len() {
        None
    } else if buffer_file_name(bs[i]) matches Some(f) && mentions(f, name) {
        Some(i)
    } else {
        first_named_from(bs, name, i + 1)
    }
}

/// A buffer's entry in the buffer list: `id:name` (`[No Name]` without a file name),
/// `+` when modified, in brackets when current.
pub open spec fn buffer_entry(b: Buffer, current: bool) -> Seq<char> {
    (if current { "["@ } else { Seq::empty() }) + digits::decimal(b.id as nat) + ":"@ + match buffer_file_name(b) {
        Some(n) => n,
        None => "[No Name]"@,
    } + (if b.modified { "+"@ } else { Seq::empty() }) + (if current { "]"@ } else { Seq::empty() })
}

/// The entries of the first `n` buffers, each followed by a space.
pub open spec fn buffer_entries(bs: Seq<Buffer>, current: Option<usize>, n: int) -> Seq<char>
    decreases n,
{
    if n <= 0 || n > bs.len() {
        Seq::empty()
    } else {
        buffer_entries(bs, current, n - 1) + buffer_entry(bs[n - 1], current == Some(bs[n - 1].id)) + seq![' ']
    }
}


/// The buffer with its cursor moved to `p`.
pub open spec fn with_cursor(b: Buffer, p: Position) -> Buffer {
    Buffer { cursor: p, ..b }
}

/// Some open buffer has unsaved changes.
pub open spec fn any_modified(bs: Seq<Buffer>) -> bool {
    exists|i: int| 0 <= i < bs.len() && #[trigger] bs[i].modified
}


/// What the editor leaves to its caller after a setting changed.
#[derive(Debug, Clone, PartialEq, Eq)]
pub enum SettingFollowUp {
    Nothing,
    /// Syntax highlighting was turned on or off.
    SyntaxHighlighting(bool),
    /// The color scheme changed to this one.
    ColorScheme(String),
    /// Auto-save is on and the current buffer has unsaved changes to its file.
    SaveCurrentBuffer,
}

/// The cursor after the viewport scrolled by `delta` rows (down or up) with the text:
/// it moves as many rows, not past the last line going down, and when `fix_col` its
/// column is kept within its new line.
pub open spec fn scrolled(b: Buffer, down: bool, delta: int, fix_col: bool) -> Position {
    let last = if b.lines@.len() > 0 { b.lines@.len() - 1 } else { 0 };
    let row = if down {
        text::min_int(text::min_int(b.cursor.row + delta, usize::MAX as int), last)
    } else {
        if b.cursor.row >= delta { b.cursor.row - delta } else { 0 }
    };
    let col = if fix_col && row < b.lines@.len() {
        text::min_int(b.cursor.col as int, b.text()[row].len() as int)
    } else {
        b.cursor.col as int
    };
    Position { row: row as usize, col: col as usize }
}

impl Editor {
    /// Buffer ids are distinct and below the next id, the current buffer (if any) is
    /// open, and the current search result (if any) is one of the results.
    pub open spec fn well_formed(&self) -> bool {
        &&& forall|i: int, j: int| 0 <= i < j < self.buffers@.len() ==> #[trigger] self.buffers@[i].id != #[trigger] self.buffers@[j].id
        &&& forall|i: int| 0 <= i < self.buffers@.len() ==> #[trigger] self.buffers@[i].id < self.next_buffer_id
        &&& self.current_buffer_id matches Some(id) ==> has_id(self.buffers@, id)
        &&& self.current_search_index matches Some(k) ==> k < self.search_results@.len()
    }

    /// An editor with no buffer, in normal mode, with the configuration's line-number
    /// and cursor-line display.
    pub fn new(config: EditorConfig) -> (e: Self)
        ensures
            e.well_formed(),
            e.buffers@.len() == 0,
            e.current_buffer_id is None,
            e.next_buffer_id == 1,
            e.mode == Mode::Normal,
            e.config == config,
            e.search_results@.len() == 0,
            e.current_search_index is None,
            !e.should_quit,
            e.command_line@.len() == 0,
            e.status_message@.len() == 0,
            e.viewport_top == 0,
            e.show_line_numbers == config.display.show_line_numbers,
            e.show_relative_numbers == config.display.show_relative_numbers,
            e.show_cursor_line == config.display.show_cursor_line,
            !e.search_engine.case_sensitive && !e.search_engine.use_regex,
    {
        let show_line_numbers = config.display.show_line_numbers;
        let show_relative_numbers = config.display.show_relative_numbers;
        let show_cursor_line = config.display.show_cursor_line;
        Editor {
            buffers: Vec::new(),
            current_buffer_id: None,
            next_buffer_id: 1,
            mode: Mode::Normal,
            config,
            search_engine: SearchEngine::new(),
            search_results: Vec::new(),
            current_search_index: None,
            should_quit: false,
            command_line: String::new(),
            status_message: String::new(),
            viewport_top: 0,
            show_line_numbers,
            show_relative_numbers,
            show_cursor_line,
        }
    }

    /// Where the buffer of this id stands, if it is open.
    pub fn find_buffer(&self, id: usize) -> (r: Option<usize>)
        ensures
            match r {
                Some(i) => at_id(self.buffers@, id, i as int),
                None => !has_id(self.buffers@, id),
            },
    {
        let mut i: usize = 0;
        while i < self.buffers.len()
            invariant
                i <= self.buffers@.len(),
                forall|j: int| 0 <= j < i ==> #[trigger] self.buffers@[j].id != id,
            decreases self.buffers@.len() - i,
        {
            if self.buffers[i].id == id {
                return Some(i);
            }
            i = i + 1;
        }
        assert forall|j: int| !at_id(self.buffers@, id, j) by {
            if 0 <= j < self.buffers@.len() {
                assert(self.buffers@[j].id != id);
            }
        }
        None
    }

    /// Opens a buffer with the next id, with the file that was read (its path and text)
    /// or with no file, and makes it current. When reading the file failed, the id is
    /// used up and the error is handed back.
    pub fn create_buffer(&mut self, file: Option<Result<(PathBuf, String), anyhow::Error>>) -> (r: Result<
        usize,
        anyhow::Error,
    >)
        requires
            old(self).well_formed(),
            old(self).next_buffer_id < usize::MAX,
        ensures
            final(self).well_formed(),
            final(self).next_buffer_id == old(self).next_buffer_id + 1,
            file matches Some(Err(_)) ==> r is Err && final(self).buffers@ == old(self).buffers@
                && final(self).current_buffer_id == old(self).current_buffer_id,
            !(file matches Some(Err(_))) ==> r == Ok::<usize, anyhow::Error>(old(self).next_buffer_id)
                && final(self).buffers@.len() == old(self).buffers@.len() + 1
                && final(self).buffers@.take(old(self).buffers@.len() as int) == old(self).buffers@
                && fresh_buffer(
                    final(self).buffers@.last(),
                    old(self).next_buffer_id,
                    match file {
                        Some(Ok((_, t))) => Some(t@),
                        _ => None,
                    },
                    old(self).config.editing.undo_levels,
                )
                && final(self).current_buffer_id == Some(old(self).next_buffer_id),
            file matches Some(Ok((p, _))) ==> final(self).buffers@.last().file_path == Some(p),
            final(self).mode == old(self).mode,
            final(self).search_results@ == old(self).search_results@,
            final(self).current_search_index == old(self).current_search_index,
            final(self).config == old(self).config,
            final(self).should_quit == old(self).should_quit,
            final(self).status_message@ == old(self).status_message@,
    {
        let id = self.next_buffer_id;
        self.next_buffer_id = self.next_buffer_id + 1;
        let undo_levels = self.config.editing.undo_levels;
        let buffer = match file {
            None => Buffer::new(id, undo_levels),
            Some(Ok((path, content))) => Buffer::from_text(id, path, content.as_str(), undo_levels),
            Some(Err(e)) => {
                return Err(e);
            },
        };
        let ghost before = self.buffers@;
        self.buffers.push(buffer);
        proof {
            assert(self.buffers@.take(before.len() as int) =~= before);
            assert(at_id(self.buffers@, id, before.len() as int));
            assert forall|i: int, j: int| 0 <= i < j < self.buffers@.len() implies #[trigger] self.buffers@[i].id
                != #[trigger] self.buffers@[j].id by {
                if j < before.len() {
                    assert(self.buffers@[i] == before[i] && self.buffers@[j] == before[j]);
                } else {
                    assert(self.buffers@[i] == before[i]);
                }
            }
            assert forall|i: int| 0 <= i < self.buffers@.len() implies #[trigger] self.buffers@[i].id < self.next_buffer_id by {
                if i < before.len() {
                    assert(self.buffers@[i] == before[i]);
                }
            }
        }
        self.current_buffer_id = Some(id);
        Ok(id)
    }

    /// The current buffer, if there is one.
    pub fn current_buffer(&self) -> (r: Option<&Buffer>)
        requires
            self.well_formed(),
        ensures
            match r {
                Some(b) => self.current_buffer_id matches Some(id) && exists|i: int| #[trigger] at_id(self.buffers@, id, i)
                    && self.buffers@[i] == *b,
                None => self.current_buffer_id is None,
            },
    {
        match self.current_buffer_id {
            Some(id) => match self.find_buffer(id) {
                Some(i) => Some(&self.buffers[i]),
                None => None,
            },
            None => None,
        }
    }

    /// Where the current buffer stands, if there is one.
    pub fn current_index(&self) -> (r: Option<usize>)
        requires
            self.well_formed(),
        ensures
            match r {
                Some(i) => self.current_buffer_id matches Some(id) && at_id(self.buffers@, id, i as int),
                None => self.current_buffer_id is None,
            },
    {
        match self.current_buffer_id {
            Some(id) => self.find_buffer(id),
            None => None,
        }
    }

    /// Makes the buffer of this id current, if it is open.
    pub fn switch_to_buffer(&mut self, id: usize) -> (b: bool)
        requires
            old(self).well_formed(),
        ensures
            final(self).well_formed(),
            b == has_id(old(self).buffers@, id),
            final(self).current_buffer_id == if b {
                Some(id)
            } else {
                old(self).current_buffer_id
            },
            *final(self) == (Editor { current_buffer_id: final(self).current_buffer_id, ..*old(self) }),
            final(self).buffers@ == old(self).buffers@,
            final(self).status_message@ == old(self).status_message@,
    {
        match self.find_buffer(id) {
            Some(_) => {
                self.current_buffer_id = Some(id);
                true
            },
            None => false,
        }
    }

    /// The buffers without the one at `i`.
    fn remove_buffer(&mut self, i: usize)
        requires
            old(self).well_formed(),
            i < old(self).buffers@.len(),
            old(self).current_buffer_id != Some(old(self).buffers@[i as int].id),
        ensures
            final(self).buffers@ == old(self).buffers@.remove(i as int),
            final(self).well_formed(),
            final(self).current_buffer_id == old(self).current_buffer_id,
            final(self).next_buffer_id == old(self).next_buffer_id,
            final(self).search_results@ == old(self).search_results@,
            final(self).current_search_index == old(self).current_search_index,
            final(self).config == old(self).config,
            final(self).mode == old(self).mode,
            final(self).should_quit == old(self).should_quit,
            final(self).status_message@ == old(self).status_message@,
    {
        let ghost before = self.buffers@;
        let _gone = self.buffers.remove(i);
        proof {
            let after = self.buffers@;
            assert(after =~= before.remove(i as int));
            assert forall|a: int, b: int| 0 <= a < b < after.len() implies #[trigger] after[a].id != #[trigger] after[b].id by {
                let a2 = if a < i { a } else { a + 1 };
                let b2 = if b < i { b } else { b + 1 };
                assert(after[a] == before[a2] && after[b] == before[b2]);
            }
            assert forall|a: int| 0 <= a < after.len() implies #[trigger] after[a].id < self.next_buffer_id by {
                let a2 = if a < i { a } else { a + 1 };
                assert(after[a] == before[a2]);
            }
            if let Some(id) = self.current_buffer_id {
                let k = choose|k: int| at_id(before, id, k);
                assert(k != i);
                let k2 = if k < i { k } else { k - 1 };
                assert(at_id(after, id, k2));
            }
        }
    }

    /// The first open buffer's id, if any.
    fn first_id(&self) -> (r: Option<usize>)
        ensures
            r == if self.buffers@.len() > 0 {
                Some(self.buffers@[0].id)
            } else {
                None::<usize>
            },
    {
        if self.buffers.len() > 0 {
            Some(self.buffers[0].id)
        } else {
            None
        }
    }

    /// Closes the buffer of this id, unless it has unsaved changes (then the status
    /// says so); when it was current, the first open buffer (if any) becomes current.
    pub fn close_buffer(&mut self, id: usize) -> (r: Result<(), anyhow::Error>)
        requires
            old(self).well_formed(),
        ensures
            r is Ok,
            final(self).well_formed(),
            !has_id(old(self).buffers@, id) ==> final(self).buffers@ == old(self).buffers@
                && final(self).current_buffer_id == old(self).current_buffer_id && final(self).status_message@ == old(self).status_message@,
            forall|i: int| #[trigger] at_id(old(self).buffers@, id, i) && old(self).buffers@[i].modified ==> final(self).buffers@ == old(self).buffers@ && final(self).current_buffer_id == old(self).current_buffer_id
                && final(self).status_message@ == "Buffer has unsaved changes!"@,
            forall|i: int| #[trigger] at_id(old(self).buffers@, id, i) && !old(self).buffers@[i].modified ==> final(self).buffers@ == old(self).buffers@.remove(i) && final(self).status_message@ == old(self).status_message@
                && final(self).current_buffer_id == if old(self).current_buffer_id == Some(id) {
                if final(self).buffers@.len() > 0 {
                    Some(final(self).buffers@[0].id)
                } else {
                    None
                }
            } else {
                old(self).current_buffer_id
            },
            final(self).next_buffer_id == old(self).next_buffer_id,
            final(self).mode == old(self).mode,
            final(self).should_quit == old(self).should_quit,
            final(self).config == old(self).config,
            final(self).search_results@ == old(self).search_results@,
            final(self).current_search_index == old(self).current_search_index,
    {
        match self.find_buffer(id) {
            None => Ok(()),
            Some(i) => {
                if self.buffers[i].modified {
                    self.status_message = owned("Buffer has unsaved changes!");
                    return Ok(());
                }
                if self.current_buffer_id == Some(id) {
                    self.current_buffer_id = None;
                    self.remove_buffer(i);
                    self.current_buffer_id = self.first_id();
                    proof {
                        if self.buffers@.len() > 0 {
                            assert(at_id(self.buffers@, self.buffers@[0].id, 0));
                        }
                    }
                } else {
                    self.remove_buffer(i);
                }
                Ok(())
            },
        }
    }

    /// Opens the file `filename` (whose text was read, or could not be) in a new buffer.
    pub fn open_file(&mut self, filename: &str, read: Result<String, anyhow::Error>) -> (r: Result<String, anyhow::Error>)
        requires
            old(self).well_formed(),
            old(self).next_buffer_id < usize::MAX,
        ensures
            final(self).well_formed(),
            final(self).next_buffer_id == old(self).next_buffer_id + 1,
            read is Err ==> r is Err && final(self).buffers@ == old(self).buffers@,
            read matches Ok(t) ==> (r matches Ok(m) && m@ == "Opened '"@ + filename@ + "' in buffer "@ + digits::decimal(
                old(self).next_buffer_id as nat,
            )) && final(self).buffers@.len() == old(self).buffers@.len() + 1 && fresh_buffer(
                final(self).buffers@.last(),
                old(self).next_buffer_id,
                Some(t@),
                old(self).config.editing.undo_levels,
            ) && final(self).current_buffer_id == Some(old(self).next_buffer_id)
                && final(self).buffers@.last().file_path == Some(path_named(filename@))
                && final(self).buffers@.take(old(self).buffers@.len() as int) == old(self).buffers@,
            read is Err ==> final(self).current_buffer_id == old(self).current_buffer_id,
            final(self).mode == old(self).mode,
            final(self).search_results@ == old(self).search_results@,
            final(self).current_search_index == old(self).current_search_index,
            final(self).config == old(self).config,
            final(self).should_quit == old(self).should_quit,
            final(self).status_message@ == old(self).status_message@,
    {
        let file = match read {
            Ok(t) => Ok((path_from(filename), t)),
            Err(e) => Err(e),
        };
        let id = match self.create_buffer(Some(file)) {
            Ok(id) => id,
            Err(e) => {
                return Err(e);
            },
        };
        let m = concat("Opened '", filename);
        let m = concat(m.as_str(), "' in buffer ");
        Ok(concat(m.as_str(), digits::decimal_string(id as u64).as_str()))
    }

    /// Where the current buffer stands (the first place when there is none).
    pub open spec fn current_pos(&self) -> int {
        match self.current_buffer_id {
            Some(id) => choose|i: int| at_id(self.buffers@, id, i),
            None => 0,
        }
    }

    pub proof fn lemma_current_pos(&self)
        requires
            self.well_formed(),
        ensures
            0 <= self.current_pos() < self.buffers@.len() || (self.current_buffer_id is None && self.current_pos() == 0),
            self.current_buffer_id matches Some(id) ==> at_id(self.buffers@, id, self.current_pos()),
    {
    }

    fn current_pos_exec(&self) -> (p: usize)
        requires
            self.well_formed(),
        ensures
            p == self.current_pos(),
    {
        match self.current_buffer_id {
            Some(id) => match self.find_buffer(id) {
                Some(i) => {
                    proof {
                        let k = choose|k: int| at_id(self.buffers@, id, k);
                        assert(at_id(self.buffers@, id, k));
                        if k != i {
                            if k < i {
                                assert(self.buffers@[k].id != self.buffers@[i as int].id);
                            } else {
                                assert(self.buffers@[i as int].id != self.buffers@[k].id);
                            }
                        }
                    }
                    i
                },
                None => 0,
            },
            None => 0,
        }
    }

    /// What `switch_to_next_buffer` does: the buffer after the current one (after the last, the first) becomes current.
    pub open spec fn switches_to_next(before: Editor, after: Editor, b: bool) -> bool {
        &&& after.well_formed()
        &&& b == (before.buffers@.len() > 1)
        &&& after == (Editor { current_buffer_id: after.current_buffer_id, ..before })
        &&& after.current_buffer_id == if b {
            Some(before.buffers@[(before.current_pos() + 1) % (before.buffers@.len() as int)].id)
        } else {
            before.current_buffer_id
        }
    }

    /// Switch to the next buffer in the list (from the last to the first); nothing
    /// happens with fewer than two buffers.
    pub fn switch_to_next_buffer(&mut self) -> (b: bool)
        requires
            old(self).well_formed(),
        ensures
            Self::switches_to_next(*old(self), *final(self), b),
    {
        if self.buffers.len() <= 1 {
            return false;
        }
        let p = self.current_pos_exec();
        proof {
            self.lemma_current_pos();
        }
        let next = (p + 1) % self.buffers.len();
        self.current_buffer_id = Some(self.buffers[next].id);
        assert(at_id(self.buffers@, self.buffers@[next as int].id, next as int));
        true
    }

    /// What `switch_to_previous_buffer` does: the buffer before the current one (before the first, the last) becomes current.
    pub open spec fn switches_to_previous(before: Editor, after: Editor, b: bool) -> bool {
        &&& after.well_formed()
        &&& b == (before.buffers@.len() > 1)
        &&& after == (Editor { current_buffer_id: after.current_buffer_id, ..before })
        &&& after.current_buffer_id == if b {
            Some(
                before.buffers@[if before.current_pos() == 0 {
                    before.buffers@.len() - 1
                } else {
                    before.current_pos() - 1
                }].id,
            )
        } else {
            before.current_buffer_id
        }
    }

    /// Switch to the previous buffer in the list (from the first to the last); nothing
    /// happens with fewer than two buffers.
    pub fn switch_to_previous_buffer(&mut self) -> (b: bool)
        requires
            old(self).well_formed(),
        ensures
            Self::switches_to_previous(*old(self), *final(self), b),
    {
        if self.buffers.len() <= 1 {
            return false;
        }
        let p = self.current_pos_exec();
        proof {
            self.lemma_current_pos();
        }
        let prev = if p == 0 {
            self.buffers.len() - 1
        } else {
            p - 1
        };
        self.current_buffer_id = Some(self.buffers[prev].id);
        assert(at_id(self.buffers@, self.buffers@[prev as int].id, prev as int));
        true
    }

    /// Closes the current buffer, unless it has unsaved changes; when it was the last
    /// one a new empty buffer is opened, else the first open buffer becomes current.
    pub fn close_current_buffer(&mut self) -> (r: Result<String, anyhow::Error>)
        requires
            old(self).well_formed(),
            old(self).next_buffer_id < usize::MAX,
        ensures
            final(self).well_formed(),
            old(self).current_buffer_id is None ==> (r matches Ok(m) && m@ == "No buffer to close"@)
                && final(self).buffers@ == old(self).buffers@,
            old(self).current_buffer_id is Some && old(self).buffers@[old(self).current_pos()].modified ==> (r matches Ok(
                m,
            ) && m@ == "Buffer has unsaved changes! Use :bd! to force close"@) && final(self).buffers@ == old(
            self).buffers@ && final(self).current_buffer_id == old(self).current_buffer_id,
            old(self).current_buffer_id is Some && !old(self).buffers@[old(self).current_pos()].modified ==> Self::closed(
                *old(self),
                *final(self),
                r,
                "Closed buffer, created new empty buffer"@,
                "Buffer closed"@,
            ),
    {
        match self.current_buffer_id {
            None => Ok(owned("No buffer to close")),
            Some(_) => {
                let p = self.current_pos_exec();
                proof {
                    self.lemma_current_pos();
                }
                if self.buffers[p].modified {
                    return Ok(owned("Buffer has unsaved changes! Use :bd! to force close"));
                }
                self.close_at(p, "Closed buffer, created new empty buffer", "Buffer closed")
            },
        }
    }

    /// Force close the current buffer (ignore unsaved changes); when it was the last one
    /// a new empty buffer is opened, else the first open buffer becomes current.
    pub fn force_close_current_buffer(&mut self) -> (r: Result<String, anyhow::Error>)
        requires
            old(self).well_formed(),
            old(self).next_buffer_id < usize::MAX,
        ensures
            final(self).well_formed(),
            old(self).current_buffer_id is None ==> (r matches Ok(m) && m@ == "No buffer to close"@)
                && final(self).buffers@ == old(self).buffers@,
            old(self).current_buffer_id is Some ==> Self::closed(
                *old(self),
                *final(self),
                r,
                "Closed buffer (discarded changes), created new empty buffer"@,
                "Buffer closed (discarded changes)"@,
            ),
    {
        match self.current_buffer_id {
            None => Ok(owned("No buffer to close")),
            Some(_) => {
                let p = self.current_pos_exec();
                proof {
                    self.lemma_current_pos();
                }
                self.close_at(p, "Closed buffer (discarded changes), created new empty buffer", "Buffer closed (discarded changes)")
            },
        }
    }

    /// The current buffer was closed: when it was the only one, a new empty buffer is
    /// current and `emptied` is reported, else the first remaining buffer is current
    /// and `closed` is reported.
    pub open spec fn closed(before: Editor, after: Editor, r: Result<String, anyhow::Error>, emptied: Seq<char>, closed: Seq<char>) -> bool {
        let rest = before.buffers@.remove(before.current_pos());
        if rest.len() == 0 {
            &&& r matches Ok(m) && m@ == emptied
            &&& after.buffers@.len() == 1
            &&& fresh_buffer(after.buffers@[0], before.next_buffer_id, None, before.config.editing.undo_levels)
            &&& after.current_buffer_id == Some(before.next_buffer_id)
            &&& after.next_buffer_id == before.next_buffer_id + 1
        } else {
            &&& r matches Ok(m) && m@ == closed
            &&& after.buffers@ == rest
            &&& after.current_buffer_id == Some(rest[0].id)
            &&& after.next_buffer_id == before.next_buffer_id
        }
    }

    fn close_at(&mut self, p: usize, emptied: &str, closed: &str) -> (r: Result<String, anyhow::Error>)
        requires
            old(self).well_formed(),
            old(self).next_buffer_id < usize::MAX,
            old(self).current_buffer_id is Some,
            p == old(self).current_pos(),
            at_id(old(self).buffers@, old(self).current_buffer_id->0, p as int),
        ensures
            final(self).well_formed(),
            Self::closed(*old(self), *final(self), r, emptied@, closed@),
    {
        let ghost before = *self;
        self.current_buffer_id = None;
        self.remove_buffer(p);
        if self.buffers.len() == 0 {
            let made = self.create_buffer(None);
            proof {
                assert(self.buffers@.take(0) =~= Seq::<Buffer>::empty());
                assert(self.buffers@[0] == self.buffers@.last());
            }
            match made {
                Ok(_) => Ok(owned(emptied)),
                Err(e) => Err(e),
            }
        } else {
            self.current_buffer_id = Some(self.buffers[0].id);
            assert(at_id(self.buffers@, self.buffers@[0].id, 0));
            Ok(owned(closed))
        }
    }

    /// Switch to the first buffer whose file name holds `name`.
    pub fn switch_to_buffer_by_name(&mut self, name: &str) -> (b: bool)
        requires
            old(self).well_formed(),
        ensures
            final(self).well_formed(),
            final(self).buffers@ == old(self).buffers@,
            match first_named_from(old(self).buffers@, name@, 0) {
                Some(i) => b && final(self).current_buffer_id == Some(old(self).buffers@[i].id),
                None => !b && final(self).current_buffer_id == old(self).current_buffer_id,
            },
    {
        let mut i: usize = 0;
        while i < self.buffers.len()
            invariant
                i <= self.buffers@.len(),
                *self == *old(self),
                old(self).well_formed(),
                first_named_from(self.buffers@, name@, 0) == first_named_from(self.buffers@, name@, i as int),
            decreases self.buffers@.len() - i,
        {
            let hit = match &self.buffers[i].file_path {
                Some(path) => match file_name_of(path) {
                    Some(f) => crate::search::contains_text(f.as_str(), name),
                    None => false,
                },
                None => false,
            };
            if hit {
                let id = self.buffers[i].id;
                self.current_buffer_id = Some(id);
                assert(at_id(self.buffers@, id, i as int));
                return true;
            }
            i = i + 1;
        }
        false
    }

    fn entry_text(b: &Buffer, current: bool) -> (e: String)
        ensures
            e@ == buffer_entry(*b, current),
    {
        let name = match &b.file_path {
            Some(path) => match file_name_of(path) {
                Some(n) => n,
                None => owned("[No Name]"),
            },
            None => owned("[No Name]"),
        };
        let mut e = if current {
            owned("[")
        } else {
            String::new()
        };
        e = concat(e.as_str(), digits::decimal_string(b.id as u64).as_str());
        e = concat(e.as_str(), ":");
        e = concat(e.as_str(), name.as_str());
        if b.modified {
            e = concat(e.as_str(), "+");
        }
        if current {
            e = concat(e.as_str(), "]");
        }
        assert(e@ =~= buffer_entry(*b, current));
        e
    }

    /// List all open buffers: `Buffers: ` and their entries (see `buffer_entry`), with
    /// no trailing whitespace; `No buffers open` when there is none.
    pub fn list_buffers(&self) -> (s: String)
        ensures
            self.buffers@.len() == 0 ==> s@ == "No buffers open"@,
            self.buffers@.len() > 0 ==> s@ == {
                let all = "Buffers: "@ + buffer_entries(self.buffers@, self.current_buffer_id, self.buffers@.len() as int);
                all.take(text::trim_end(all, all.len() as int))
            },
    {
        if self.buffers.len() == 0 {
            return owned("No buffers open");
        }
        let mut list = owned("Buffers: ");
        let mut i: usize = 0;
        while i < self.buffers.len()
            invariant
                i <= self.buffers@.len(),
                list@ == "Buffers: "@ + buffer_entries(self.buffers@, self.current_buffer_id, i as int),
            decreases self.buffers@.len() - i,
        {
            let current = self.current_buffer_id == Some(self.buffers[i].id);
            let e = Self::entry_text(&self.buffers[i], current);
            let ghost pre = list@;
            list = concat(list.as_str(), e.as_str());
            push_char(&mut list, ' ');
            proof {
                assert(list@ =~= pre + buffer_entry(self.buffers@[i as int], current) + seq![' ']);
            }
            i = i + 1;
        }
        text::trim_end_str(list.as_str())
    }

    pub fn mode(&self) -> (m: Mode)
        ensures
            m == self.mode,
    {
        self.mode
    }

    /// Sets the mode; the command line is cleared unless the mode is command mode.
    pub fn set_mode(&mut self, mode: Mode)
        ensures
            *final(self) == (Editor { mode: final(self).mode, command_line: final(self).command_line, ..*old(self) }),
            final(self).mode == mode,
            final(self).command_line@ == if mode is Command {
                old(self).command_line@
            } else {
                Seq::empty()
            },
            final(self).buffers@ == old(self).buffers@,
            final(self).current_buffer_id == old(self).current_buffer_id,
            final(self).next_buffer_id == old(self).next_buffer_id,
            final(self).search_results@ == old(self).search_results@,
            final(self).current_search_index == old(self).current_search_index,
            final(self).status_message@ == old(self).status_message@,
            final(self).should_quit == old(self).should_quit,
    {
        self.mode = mode;
        if !matches!(mode, Mode::Command) {
            self.command_line = String::new();
        }
    }

    pub fn command_line(&self) -> (s: &str)
        ensures
            s@ == self.command_line@,
    {
        self.command_line.as_str()
    }

    pub fn set_command_line(&mut self, text: String)
        ensures
            *final(self) == (Editor { command_line: final(self).command_line, ..*old(self) }),
            final(self).command_line@ == text@,
            final(self).mode == old(self).mode,
            final(self).buffers@ == old(self).buffers@,
            final(self).current_buffer_id == old(self).current_buffer_id,
            final(self).status_message@ == old(self).status_message@,
    {
        self.command_line = text;
    }

    pub fn status_message(&self) -> (s: &str)
        ensures
            s@ == self.status_message@,
    {
        self.status_message.as_str()
    }

    pub fn set_status_message(&mut self, message: String)
        ensures
            *final(self) == (Editor { status_message: final(self).status_message, ..*old(self) }),
            final(self).status_message@ == message@,
            final(self).mode == old(self).mode,
            final(self).buffers@ == old(self).buffers@,
            final(self).current_buffer_id == old(self).current_buffer_id,
            final(self).command_line@ == old(self).command_line@,
    {
        self.status_message = message;
    }

    /// What `quit` does: the editor is to quit unless some buffer has unsaved changes, which the status then says.
    pub open spec fn quits(before: Editor, after: Editor) -> bool {
        &&& after == (Editor { status_message: after.status_message, should_quit: after.should_quit, ..before })
        &&& any_modified(before.buffers@) ==> !after.should_quit == !before.should_quit
            && after.status_message@ == "Unsaved changes! Use :q! to force quit"@
        &&& !any_modified(before.buffers@) ==> after.should_quit && after.status_message@ == before.status_message@
        &&& after.buffers@ == before.buffers@
        &&& after.current_buffer_id == before.current_buffer_id
        &&& after.mode == before.mode
    }

    /// Quits, unless a buffer has unsaved changes (then the status says so).
    pub fn quit(&mut self)
        ensures
            Self::quits(*old(self), *final(self)),
    {
        let mut i: usize = 0;
        while i < self.buffers.len()
            invariant
                i <= self.buffers@.len(),
                *self == *old(self),
                forall|j: int| 0 <= j < i ==> !(#[trigger] self.buffers@[j]).modified,
            decreases self.buffers@.len() - i,
        {
            if self.buffers[i].modified {
                assert(self.buffers@[i as int].modified);
                self.status_message = owned("Unsaved changes! Use :q! to force quit");
                return;
            }
            i = i + 1;
        }
        self.should_quit = true;
    }

    pub fn force_quit(&mut self)
        ensures
            *final(self) == (Editor { should_quit: true, ..*old(self) }),
            final(self).should_quit,
            final(self).buffers@ == old(self).buffers@,
            final(self).status_message@ == old(self).status_message@,
    {
        self.should_quit = true;
    }

    /// Moves the current buffer's cursor to search result `index`, if there are both.
    fn move_to_search_result(&mut self, index: usize)
        requires
            old(self).well_formed(),
        ensures
            final(self).well_formed(),
            index < old(self).search_results@.len() && old(self).current_buffer_id is Some ==> final(self).buffers@
                == old(self).buffers@.update(
                old(self).current_pos(),
                with_cursor(
                    old(self).buffers@[old(self).current_pos()],
                    Position {
                        row: old(self).search_results@[index as int].line,
                        col: old(self).search_results@[index as int].start_col,
                    },
                ),
            ),
            !(index < old(self).search_results@.len() && old(self).current_buffer_id is Some) ==> final(self).buffers@
                == old(self).buffers@,
            *final(self) == (Editor { buffers: final(self).buffers, ..*old(self) }),
            final(self).current_buffer_id == old(self).current_buffer_id,
            final(self).next_buffer_id == old(self).next_buffer_id,
            final(self).search_results@ == old(self).search_results@,
            final(self).current_search_index == old(self).current_search_index,
            final(self).status_message@ == old(self).status_message@,
            final(self).search_engine == old(self).search_engine,
            final(self).mode == old(self).mode,
            final(self).config == old(self).config,
            final(self).should_quit == old(self).should_quit,
    {
        if index < self.search_results.len() && self.current_buffer_id.is_some() {
            let row = self.search_results[index].line;
            let col = self.search_results[index].start_col;
            let p = self.current_pos_exec();
            proof {
                self.lemma_current_pos();
            }
            let ghost before = self.buffers@;
            self.buffers[p].cursor = Position { row, col };
            proof {
                assert(self.buffers@[p as int] == with_cursor(before[p as int], Position { row, col }));
                assert(self.buffers@ =~= before.update(p as int, with_cursor(before[p as int], Position { row, col })));
                assert forall|i: int| 0 <= i < self.buffers@.len() implies #[trigger] self.buffers@[i].id == before[i].id by {
                }
                let id = self.current_buffer_id->0;
                assert(at_id(self.buffers@, id, p as int));
            }
        }
    }

    /// What `search` does: the results of the pattern in the current buffer are kept and the cursor goes to the first.
    pub open spec fn searched(before: Editor, after: Editor, pattern: Seq<char>, found: bool) -> bool {
        &&& after.well_formed()
        &&& before.current_buffer_id is None ==> !found && after.buffers@ == before.buffers@
            && after.search_results@ == before.search_results@
        &&& before.current_buffer_id is Some ==> {
            let b = before.buffers@[before.current_pos()];
            let rs = search_outcome(before.search_engine, pattern, b.text());
            &&& results_view(after.search_results@) == rs
            &&& found == (rs.len() > 0)
            &&& found ==> after.current_search_index == Some(0usize) && after.buffers@ == before.buffers@.update(
                before.current_pos(),
                with_cursor(b, Position { row: rs[0].0 as usize, col: rs[0].1 as usize }),
            ) && after.status_message@ == "Found "@ + digits::decimal(rs.len()) + " matches"@
            &&& !found ==> after.current_search_index is None && after.buffers@ == before.buffers@
                && after.status_message@ == "Pattern not found: "@ + pattern
        }
        &&& after == (Editor {
            buffers: after.buffers,
            search_engine: after.search_engine,
            search_results: after.search_results,
            current_search_index: after.current_search_index,
            status_message: after.status_message,
            ..before
        })
        &&& before.current_buffer_id is None ==> after.search_engine == before.search_engine
            && after.status_message == before.status_message && after.current_search_index
            == before.current_search_index
        &&& before.current_buffer_id is Some ==> (after.search_engine.last_search matches Some(s) && s@ == pattern)
            && after.search_engine.case_sensitive == before.search_engine.case_sensitive
            && after.search_engine.use_regex == before.search_engine.use_regex
        &&& after.current_buffer_id == before.current_buffer_id
        &&& after.mode == before.mode
    }

    /// Searches the current buffer for `pattern`: with results, the first one is
    /// current, the cursor moves to it and the status gives their number; without, the
    /// status says the pattern was not found. Without a buffer nothing happens.
    pub fn search(&mut self, pattern: &str) -> (found: bool)
        requires
            old(self).well_formed(),
        ensures
            Self::searched(*old(self), *final(self), pattern@, found),
    {
        if self.current_buffer_id.is_none() {
            return false;
        }
        let p = self.current_pos_exec();
        proof {
            self.lemma_current_pos();
        }
        let results = self.search_engine.search(pattern, self.buffers[p].lines.as_slice());
        self.search_results = results;
        if self.search_results.len() > 0 {
            self.current_search_index = Some(0);
            self.move_to_search_result(0);
            let m = concat("Found ", digits::decimal_string(self.search_results.len() as u64).as_str());
            self.status_message = concat(m.as_str(), " matches");
            true
        } else {
            self.current_search_index = None;
            self.status_message = concat("Pattern not found: ", pattern);
            false
        }
    }

    /// Makes search result `index` current and moves there, saying which match it is.
    fn go_to_match(&mut self, index: usize)
        requires
            old(self).well_formed(),
            index < old(self).search_results@.len(),
        ensures
            final(self).well_formed(),
            final(self).current_search_index == Some(index),
            *final(self) == (Editor {
                buffers: final(self).buffers,
                current_search_index: final(self).current_search_index,
                status_message: final(self).status_message,
                ..*old(self)
            }),
            old(self).current_buffer_id is Some ==> final(self).buffers@ == old(self).buffers@.update(
                old(self).current_pos(),
                with_cursor(
                    old(self).buffers@[old(self).current_pos()],
                    Position {
                        row: old(self).search_results@[index as int].line,
                        col: old(self).search_results@[index as int].start_col,
                    },
                ),
            ),
            old(self).current_buffer_id is None ==> final(self).buffers@ == old(self).buffers@,
            final(self).status_message@ == "Match "@ + digits::decimal((index + 1) as nat) + " of "@ + digits::decimal(
                old(self).search_results@.len(),
            ),
            final(self).current_buffer_id == old(self).current_buffer_id,
            final(self).search_results@ == old(self).search_results@,
    {
        self.current_search_index = Some(index);
        self.move_to_search_result(index);
        let n = self.search_results.len();
        let m = concat("Match ", digits::decimal_string((index + 1) as u64).as_str());
        let m = concat(m.as_str(), " of ");
        self.status_message = concat(m.as_str(), digits::decimal_string(n as u64).as_str());
    }

    /// The buffers with the cursor of the current buffer (if any) on search result `k`.
    pub open spec fn at_match(before: Editor, k: int) -> Seq<Buffer> {
        if before.current_buffer_id is Some {
            before.buffers@.update(
                before.current_pos(),
                with_cursor(
                    before.buffers@[before.current_pos()],
                    Position { row: before.search_results@[k].line, col: before.search_results@[k].start_col },
                ),
            )
        } else {
            before.buffers@
        }
    }

    /// Search result `k` became current and the cursor went there; when `say`, the
    /// status tells which match of how many it is.
    pub open spec fn went_to_match(before: Editor, after: Editor, k: int, say: bool) -> bool {
        &&& after == (Editor {
            buffers: after.buffers,
            current_search_index: after.current_search_index,
            status_message: after.status_message,
            ..before
        })
        &&& after.current_search_index == Some(k as usize)
        &&& after.buffers@ == Self::at_match(before, k)
        &&& if say {
            after.status_message@ == "Match "@ + digits::decimal((k + 1) as nat) + " of "@ + digits::decimal(
                before.search_results@.len(),
            )
        } else {
            after.status_message == before.status_message
        }
    }

    /// What `search_next` does: the next search result (after the last, the first;
    /// the first when none was current) becomes current and the cursor goes there.
    pub open spec fn goes_to_next_match(before: Editor, after: Editor, b: bool) -> bool {
        let n = before.search_results@.len();
        &&& after.well_formed()
        &&& b == (n > 0)
        &&& !b ==> after == (Editor { status_message: after.status_message, ..before })
            && after.status_message@ == "No search results"@
        &&& b ==> match before.current_search_index {
            Some(c) => Self::went_to_match(before, after, (c + 1) % (n as int), true),
            None => Self::went_to_match(before, after, 0, false),
        }
    }

    /// Move to the next search result (from the last to the first).
    pub fn search_next(&mut self) -> (b: bool)
        requires
            old(self).well_formed(),
        ensures
            Self::goes_to_next_match(*old(self), *final(self), b),
    {
        if self.search_results.len() == 0 {
            self.status_message = owned("No search results");
            return false;
        }
        match self.current_search_index {
            Some(c) => {
                let next = (c + 1) % self.search_results.len();
                self.go_to_match(next);
            },
            None => {
                self.current_search_index = Some(0);
                self.move_to_search_result(0);
            },
        }
        true
    }

    /// What `search_previous` does: the previous search result (before the first,
    /// the last; the first when none was current) becomes current and the cursor goes
    /// there.
    pub open spec fn goes_to_previous_match(before: Editor, after: Editor, b: bool) -> bool {
        let n = before.search_results@.len();
        &&& after.well_formed()
        &&& b == (n > 0)
        &&& !b ==> after == (Editor { status_message: after.status_message, ..before })
            && after.status_message@ == "No search results"@
        &&& b ==> match before.current_search_index {
            Some(c) => Self::went_to_match(before, after, if c == 0 { n - 1 } else { c - 1 }, true),
            None => Self::went_to_match(before, after, 0, false),
        }
    }

    /// Move to the previous search result (from the first to the last).
    pub fn search_previous(&mut self) -> (b: bool)
        requires
            old(self).well_formed(),
        ensures
            Self::goes_to_previous_match(*old(self), *final(self), b),
    {
        if self.search_results.len() == 0 {
            self.status_message = owned("No search results");
            return false;
        }
        match self.current_search_index {
            Some(c) => {
                let prev = if c == 0 {
                    self.search_results.len() - 1
                } else {
                    c - 1
                };
                self.go_to_match(prev);
            },
            None => {
                self.current_search_index = Some(0);
                self.move_to_search_result(0);
            },
        }
        true
    }

    /// Clear current search results
    pub fn clear_search(&mut self)
        requires
            old(self).well_formed(),
        ensures
            final(self).well_formed(),
            *final(self) == (Editor { search_results: final(self).search_results, current_search_index: final(self).current_search_index, ..*old(self) }),
            final(self).search_results@.len() == 0,
            final(self).current_search_index is None,
            final(self).buffers@ == old(self).buffers@,
            final(self).current_buffer_id == old(self).current_buffer_id,
            final(self).status_message@ == old(self).status_message@,
    {
        self.search_results = Vec::new();
        self.current_search_index = None;
    }

    /// Toggle absolute line numbers
    pub fn toggle_line_numbers(&mut self)
        ensures
            *final(self) == (Editor { status_message: final(self).status_message, show_line_numbers: final(self).show_line_numbers, ..*old(self) }),
            final(self).show_line_numbers == !old(self).show_line_numbers,
            final(self).status_message@ == if final(self).show_line_numbers {
                "Line numbers enabled"@
            } else {
                "Line numbers disabled"@
            },
            final(self).buffers@ == old(self).buffers@,
            final(self).config == old(self).config,
    {
        self.show_line_numbers = !self.show_line_numbers;
        self.status_message = if self.show_line_numbers {
            owned("Line numbers enabled")
        } else {
            owned("Line numbers disabled")
        };
    }

    /// Toggle relative line numbers
    pub fn toggle_relative_numbers(&mut self)
        ensures
            *final(self) == (Editor { status_message: final(self).status_message, show_relative_numbers: final(self).show_relative_numbers, ..*old(self) }),
            final(self).show_relative_numbers == !old(self).show_relative_numbers,
            final(self).status_message@ == if final(self).show_relative_numbers {
                "Relative line numbers enabled"@
            } else {
                "Relative line numbers disabled"@
            },
            final(self).buffers@ == old(self).buffers@,
            final(self).config == old(self).config,
    {
        self.show_relative_numbers = !self.show_relative_numbers;
        self.status_message = if self.show_relative_numbers {
            owned("Relative line numbers enabled")
        } else {
            owned("Relative line numbers disabled")
        };
    }

    /// Set line number display options (in the configuration too, which the caller
    /// saves).
    pub fn set_line_numbers(&mut self, absolute: bool, relative: bool)
        ensures
            *final(self) == (Editor { status_message: final(self).status_message, show_line_numbers: absolute, show_relative_numbers: relative, config: final(self).config, ..*old(self) }),
            final(self).config.display.show_line_numbers == absolute,
            final(self).config.display.show_relative_numbers == relative,
            final(self).config.display.show_cursor_line == old(self).config.display.show_cursor_line,
            final(self).config.behavior == old(self).config.behavior,
            final(self).config.editing == old(self).config.editing,
            final(self).config.interface == old(self).config.interface,
            final(self).show_line_numbers == absolute,
            final(self).show_relative_numbers == relative,
            final(self).status_message@ == if absolute && relative {
                "Hybrid line numbers enabled"@
            } else if absolute {
                "Absolute line numbers enabled"@
            } else if relative {
                "Relative line numbers enabled"@
            } else {
                "Line numbers disabled"@
            },
            final(self).buffers@ == old(self).buffers@,
    {
        self.config.display.show_line_numbers = absolute;
        self.config.display.show_relative_numbers = relative;
        self.show_line_numbers = absolute;
        self.show_relative_numbers = relative;
        self.status_message = if absolute && relative {
            owned("Hybrid line numbers enabled")
        } else if absolute {
            owned("Absolute line numbers enabled")
        } else if relative {
            owned("Relative line numbers enabled")
        } else {
            owned("Line numbers disabled")
        };
    }

    /// Set cursor line highlighting (in the configuration too, which the caller saves).
    pub fn set_cursor_line(&mut self, enabled: bool)
        ensures
            *final(self) == (Editor { status_message: final(self).status_message, show_cursor_line: enabled, config: final(self).config, ..*old(self) }),
            final(self).config.display.show_cursor_line == enabled,
            final(self).config.display.show_line_numbers == old(self).config.display.show_line_numbers,
            final(self).config.display.show_relative_numbers == old(self).config.display.show_relative_numbers,
            final(self).config.behavior == old(self).config.behavior,
            final(self).config.editing == old(self).config.editing,
            final(self).config.interface == old(self).config.interface,
            final(self).show_cursor_line == enabled,
            final(self).status_message@ == if enabled {
                "Cursor line highlighting enabled"@
            } else {
                "Cursor line highlighting disabled"@
            },
            final(self).buffers@ == old(self).buffers@,
    {
        self.config.display.show_cursor_line = enabled;
        self.show_cursor_line = enabled;
        self.status_message = if enabled {
            owned("Cursor line highlighting enabled")
        } else {
            owned("Cursor line highlighting disabled")
        };
    }

    /// Toggle cursor line highlighting (in the configuration too, which the caller saves).
    pub fn toggle_cursor_line(&mut self)
        ensures
            *final(self) == (Editor { status_message: final(self).status_message, show_cursor_line: final(self).show_cursor_line, config: final(self).config, ..*old(self) }),
            final(self).config.display.show_cursor_line == !old(self).config.display.show_cursor_line,
            final(self).config.behavior == old(self).config.behavior,
            final(self).show_cursor_line == final(self).config.display.show_cursor_line,
            final(self).status_message@ == if final(self).show_cursor_line {
                "Cursor line highlighting enabled"@
            } else {
                "Cursor line highlighting disabled"@
            },
            final(self).buffers@ == old(self).buffers@,
    {
        let enabled = !self.config.display.show_cursor_line;
        self.set_cursor_line(enabled);
    }

    /// The search follows the configuration: case sensitive unless it ignores case.
    pub fn apply_search_settings(&mut self)
        ensures
            *final(self) == (Editor { search_engine: final(self).search_engine, ..*old(self) }),
            final(self).search_engine.case_sensitive == !old(self).config.behavior.ignore_case,
            final(self).search_engine.use_regex == old(self).search_engine.use_regex,
            final(self).config == old(self).config,
            final(self).buffers@ == old(self).buffers@,
            final(self).current_buffer_id == old(self).current_buffer_id,
            final(self).next_buffer_id == old(self).next_buffer_id,
            final(self).search_results@ == old(self).search_results@,
            final(self).current_search_index == old(self).current_search_index,
            final(self).show_line_numbers == old(self).show_line_numbers,
            final(self).show_relative_numbers == old(self).show_relative_numbers,
            final(self).show_cursor_line == old(self).show_cursor_line,
    {
        let sensitive = !self.config.behavior.ignore_case;
        self.search_engine.set_case_sensitive(sensitive);
    }

    /// Whether auto-save should save the current buffer now: auto-save is on and the
    /// current buffer has unsaved changes and a file.
    pub fn check_auto_save(&self) -> (b: bool)
        requires
            self.well_formed(),
        ensures
            b == (self.config.editing.auto_save && self.current_buffer_id is Some && self.buffers@[self.current_pos()].modified
                && self.buffers@[self.current_pos()].file_path is Some),
    {
        if !self.config.editing.auto_save {
            return false;
        }
        if self.current_buffer_id.is_none() {
            return false;
        }
        let p = self.current_pos_exec();
        proof {
            self.lemma_current_pos();
        }
        self.buffers[p].modified && self.buffers[p].file_path.is_some()
    }

    /// Set a configuration setting by name; the display follows the configuration, the
    /// search follows a change of case handling, and what is left to the caller (the
    /// highlighter, the theme, saving) is handed back.
    pub fn set_config_setting(&mut self, setting: &str, value: &str) -> (f: SettingFollowUp)
        requires
            old(self).well_formed(),
        ensures
            final(self).well_formed(),
            applies_setting(old(self).config, final(self).config, setting@, value@),
            final(self).status_message@ == old(self).status_message@,
            final(self).should_quit == old(self).should_quit,
            final(self).next_buffer_id == old(self).next_buffer_id,
            final(self).show_line_numbers == final(self).config.display.show_line_numbers,
            final(self).show_relative_numbers == final(self).config.display.show_relative_numbers,
            final(self).show_cursor_line == final(self).config.display.show_cursor_line,
            final(self).buffers@ == old(self).buffers@,
            final(self).current_buffer_id == old(self).current_buffer_id,
            setting@ == "syntax"@ || setting@ == "syn"@ ==> f == SettingFollowUp::SyntaxHighlighting(
                final(self).config.display.syntax_highlighting,
            ),
            setting@ == "colorscheme"@ || setting@ == "colo"@ ==> (f matches SettingFollowUp::ColorScheme(c) && c@
                == value@),
            setting@ == "ignorecase"@ || setting@ == "ic"@ || setting@ == "smartcase"@ || setting@ == "scs"@ ==> f
                == SettingFollowUp::Nothing && final(self).search_engine.case_sensitive
                == !final(self).config.behavior.ignore_case,
            setting@ == "autosave"@ || setting@ == "aw"@ ==> (f == SettingFollowUp::SaveCurrentBuffer) == (
            final(self).config.editing.auto_save && final(self).current_buffer_id is Some
                && final(self).buffers@[final(self).current_pos()].modified
                && final(self).buffers@[final(self).current_pos()].file_path is Some) && (f is Nothing || f
                is SaveCurrentBuffer),
            !(setting@ == "syntax"@ || setting@ == "syn"@ || setting@ == "colorscheme"@ || setting@ == "colo"@
                || setting@ == "ignorecase"@ || setting@ == "ic"@ || setting@ == "smartcase"@ || setting@ == "scs"@
                || setting@ == "autosave"@ || setting@ == "aw"@) ==> f == SettingFollowUp::Nothing,
    {
        proof {
            reveal_strlit("syntax");
            reveal_strlit("syn");
            reveal_strlit("colorscheme");
            reveal_strlit("colo");
            reveal_strlit("ignorecase");
            reveal_strlit("ic");
            reveal_strlit("smartcase");
            reveal_strlit("scs");
            reveal_strlit("autosave");
            reveal_strlit("aw");
            assert("syntax"@.len() != "colorscheme"@.len() && "syn"@.len() != "colorscheme"@.len());
            assert("syntax"@[0] != "colo"@[0] && "syn"@[0] != "colo"@[0]);
            assert("ignorecase"@[0] != "syntax"@[0] && "ignorecase"@[0] != "syn"@[0]);
            assert("ignorecase"@[0] != "colorscheme"@[0] && "ignorecase"@[0] != "colo"@[0]);
            assert("ic"@[0] != "syntax"@[0] && "ic"@[0] != "syn"@[0] && "ic"@[0] != "colorscheme"@[0] && "ic"@[0] != "colo"@[0]);
            assert("smartcase"@[1] != "syntax"@[1] && "smartcase"@[1] != "syn"@[1]);
            assert("smartcase"@[0] != "colorscheme"@[0] && "smartcase"@[0] != "colo"@[0]);
            assert("scs"@[1] != "syntax"@[1] && "scs"@[1] != "syn"@[1]);
            assert("scs"@[0] != "colorscheme"@[0] && "scs"@[0] != "colo"@[0]);
            assert("autosave"@[0] != "syntax"@[0] && "autosave"@[0] != "syn"@[0] && "autosave"@[0] != "colorscheme"@[0]);
            assert("autosave"@[0] != "colo"@[0] && "autosave"@[0] != "ignorecase"@[0] && "autosave"@[0] != "ic"@[0]);
            assert("autosave"@[0] != "smartcase"@[0] && "autosave"@[0] != "scs"@[0]);
            assert("aw"@[0] != "syntax"@[0] && "aw"@[0] != "syn"@[0] && "aw"@[0] != "colorscheme"@[0]);
            assert("aw"@[0] != "colo"@[0] && "aw"@[0] != "ignorecase"@[0] && "aw"@[0] != "ic"@[0]);
            assert("aw"@[0] != "smartcase"@[0] && "aw"@[0] != "scs"@[0]);
        }
        let _ = self.config.set_setting(setting, value);
        self.show_line_numbers = self.config.display.show_line_numbers;
        self.show_relative_numbers = self.config.display.show_relative_numbers;
        self.show_cursor_line = self.config.display.show_cursor_line;
        if text::str_eq(setting, "syntax") || text::str_eq(setting, "syn") {
            SettingFollowUp::SyntaxHighlighting(self.config.display.syntax_highlighting)
        } else if text::str_eq(setting, "colorscheme") || text::str_eq(setting, "colo") {
            SettingFollowUp::ColorScheme(owned(value))
        } else if text::str_eq(setting, "ignorecase") || text::str_eq(setting, "ic") || text::str_eq(setting, "smartcase")
            || text::str_eq(setting, "scs") {
            self.apply_search_settings();
            SettingFollowUp::Nothing
        } else if text::str_eq(setting, "autosave") || text::str_eq(setting, "aw") {
            if self.check_auto_save() {
                SettingFollowUp::SaveCurrentBuffer
            } else {
                SettingFollowUp::Nothing
            }
        } else {
            SettingFollowUp::Nothing
        }
    }

    /// Get configuration value for display
    pub fn get_config_value(&self, setting: &str) -> (r: Option<String>)
        ensures
            match r {
                Some(s) => self.config.value_text(setting@) == Some(s@),
                None => self.config.value_text(setting@) is None,
            },
    {
        self.config.get_config_value(setting)
    }

    /// Whether absolute and relative line numbers are on, in the configuration.
    pub fn get_line_number_state(&self) -> (r: (bool, bool))
        ensures
            r == (self.config.display.show_line_numbers, self.config.display.show_relative_numbers),
    {
        (self.config.display.show_line_numbers, self.config.display.show_relative_numbers)
    }

    /// Takes a reloaded configuration; the display follows it.
    pub fn reload_editor_config(&mut self, new_config: EditorConfig)
        ensures
            *final(self) == (Editor { status_message: final(self).status_message, show_line_numbers: final(self).show_line_numbers, show_relative_numbers: final(self).show_relative_numbers, show_cursor_line: final(self).show_cursor_line, config: new_config, ..*old(self) }),
            final(self).config == new_config,
            final(self).show_line_numbers == new_config.display.show_line_numbers,
            final(self).show_relative_numbers == new_config.display.show_relative_numbers,
            final(self).show_cursor_line == new_config.display.show_cursor_line,
            final(self).status_message@ == "Editor configuration reloaded"@,
            final(self).buffers@ == old(self).buffers@,
            final(self).current_buffer_id == old(self).current_buffer_id,
    {
        self.show_line_numbers = new_config.display.show_line_numbers;
        self.show_relative_numbers = new_config.display.show_relative_numbers;
        self.show_cursor_line = new_config.display.show_cursor_line;
        self.config = new_config;
        self.status_message = owned("Editor configuration reloaded");
    }

    /// Reports that the key bindings were reloaded.
    pub fn reload_keymap_config(&mut self)
        ensures
            *final(self) == (Editor { status_message: final(self).status_message, ..*old(self) }),
            final(self).status_message@ == "Keymap configuration reloaded"@,
            final(self).buffers@ == old(self).buffers@,
    {
        self.status_message = owned("Keymap configuration reloaded");
    }

    /// Reports that the theme of this name was reloaded.
    pub fn reload_ui_theme(&mut self, current_theme: &str)
        ensures
            *final(self) == (Editor { status_message: final(self).status_message, ..*old(self) }),
            final(self).status_message@ == "Theme '"@ + current_theme@ + "' reloaded"@,
            final(self).buffers@ == old(self).buffers@,
    {
        let m = concat("Theme '", current_theme);
        self.status_message = concat(m.as_str(), "' reloaded");
    }

    /// Scrolls the viewport `amount` rows down (not past the largest position) or up
    /// (not above the top); when it moved, the current buffer's cursor moves as many
    /// rows (see `scrolled`).
    fn scroll(&mut self, down: bool, amount: usize, fix_col: bool)
        requires
            old(self).well_formed(),
        ensures
            final(self).well_formed(),
            final(self).viewport_top == if down {
                text::min_int(old(self).viewport_top + amount, usize::MAX as int) as usize
            } else {
                if old(self).viewport_top >= amount { (old(self).viewport_top - amount) as usize } else { 0usize }
            },
            old(self).current_buffer_id is Some && final(self).viewport_top != old(self).viewport_top ==> final(
            self).buffers@ == old(self).buffers@.update(
                old(self).current_pos(),
                with_cursor(
                    old(self).buffers@[old(self).current_pos()],
                    scrolled(
                        old(self).buffers@[old(self).current_pos()],
                        down,
                        if down {
                            final(self).viewport_top - old(self).viewport_top
                        } else {
                            old(self).viewport_top - final(self).viewport_top
                        },
                        fix_col,
                    ),
                ),
            ),
            !(old(self).current_buffer_id is Some && final(self).viewport_top != old(self).viewport_top) ==> final(
            self).buffers@ == old(self).buffers@,
            *final(self) == (Editor { viewport_top: final(self).viewport_top, buffers: final(self).buffers, ..*old(self) }),
            final(self).current_buffer_id == old(self).current_buffer_id,
            final(self).config == old(self).config,
            final(self).status_message@ == old(self).status_message@,
    {
        let old_top = self.viewport_top;
        let new_top = if down {
            old_top.saturating_add(amount)
        } else {
            old_top.saturating_sub(amount)
        };
        self.viewport_top = new_top;
        if old_top == new_top || self.current_buffer_id.is_none() {
            return;
        }
        let p = self.current_pos_exec();
        proof {
            self.lemma_current_pos();
        }
        let ghost before = self.buffers@;
        let b = &self.buffers[p];
        let n = b.lines.len();
        let last = if n > 0 {
            n - 1
        } else {
            0
        };
        let row = if down {
            let r = b.cursor.row.saturating_add(new_top - old_top);
            if r < last {
                r
            } else {
                last
            }
        } else {
            b.cursor.row.saturating_sub(old_top - new_top)
        };
        let mut col = b.cursor.col;
        if fix_col && row < n {
            let len = text::char_len(b.lines[row].as_str());
            if len < col {
                col = len;
            }
        }
        proof {
            let d = if down { new_top - old_top } else { old_top - new_top };
            assert(Position { row, col } == scrolled(before[p as int], down, d as int, fix_col));
        }
        self.buffers[p].cursor = Position { row, col };
        proof {
            assert(self.buffers@ =~= before.update(p as int, with_cursor(before[p as int], Position { row, col })));
            assert forall|i: int| 0 <= i < self.buffers@.len() implies #[trigger] self.buffers@[i].id == before[i].id by {
            }
            let id = self.current_buffer_id->0;
            assert(at_id(self.buffers@, id, p as int));
        }
    }

    /// Ctrl+e: scroll down one line, the cursor keeping its place on the screen.
    pub fn scroll_down_line(&mut self)
        requires
            old(self).well_formed(),
        ensures
            final(self).well_formed(),
            Self::scroll_spec(*old(self), *final(self), true, 1, false),
    {
        self.scroll(true, 1, false)
    }

    /// Ctrl+y: scroll up one line, the cursor keeping its place on the screen.
    pub fn scroll_up_line(&mut self)
        requires
            old(self).well_formed(),
        ensures
            final(self).well_formed(),
            Self::scroll_spec(*old(self), *final(self), false, 1, false),
    {
        self.scroll(false, 1, false)
    }

    /// Ctrl+f: scroll down a page (20 lines), the cursor moving with it.
    pub fn scroll_down_page(&mut self)
        requires
            old(self).well_formed(),
        ensures
            final(self).well_formed(),
            Self::scroll_spec(*old(self), *final(self), true, 20, true),
    {
        self.scroll(true, 20, true)
    }

    /// Ctrl+b: scroll up a page (20 lines), the cursor moving with it.
    pub fn scroll_up_page(&mut self)
        requires
            old(self).well_formed(),
        ensures
            final(self).well_formed(),
            Self::scroll_spec(*old(self), *final(self), false, 20, true),
    {
        self.scroll(false, 20, true)
    }

    /// Ctrl+d: scroll down half a page (10 lines), the cursor moving with it.
    pub fn scroll_down_half_page(&mut self)
        requires
            old(self).well_formed(),
        ensures
            final(self).well_formed(),
            Self::scroll_spec(*old(self), *final(self), true, 10, true),
    {
        self.scroll(true, 10, true)
    }

    /// Ctrl+u: scroll up half a page (10 lines), the cursor moving with it.
    pub fn scroll_up_half_page(&mut self)
        requires
            old(self).well_formed(),
        ensures
            final(self).well_formed(),
            Self::scroll_spec(*old(self), *final(self), false, 10, true),
    {
        self.scroll(false, 10, true)
    }

    /// The editor after scrolling by `amount` (see `scroll`).
    pub open spec fn scroll_spec(before: Editor, after: Editor, down: bool, amount: int, fix_col: bool) -> bool {
        &&& after.viewport_top == if down {
            text::min_int(before.viewport_top + amount, usize::MAX as int) as usize
        } else {
            if before.viewport_top >= amount { (before.viewport_top - amount) as usize } else { 0usize }
        }
        &&& before.current_buffer_id is Some && after.viewport_top != before.viewport_top ==> after.buffers@
            == before.buffers@.update(
            before.current_pos(),
            with_cursor(
                before.buffers@[before.current_pos()],
                scrolled(
                    before.buffers@[before.current_pos()],
                    down,
                    if down { after.viewport_top - before.viewport_top } else { before.viewport_top - after.viewport_top },
                    fix_col,
                ),
            ),
        )
        &&& !(before.current_buffer_id is Some && after.viewport_top != before.viewport_top) ==> after.buffers@
            == before.buffers@
        &&& after == (Editor { viewport_top: after.viewport_top, buffers: after.buffers, ..before })
        &&& after.current_buffer_id == before.current_buffer_id
        &&& after.status_message@ == before.status_message@
    }

    /// Keeps the cursor on the screen: the rows between the status and command lines
    /// show the text from `viewport_top`; when the cursor is above them the view starts
    /// at its row, when below them it ends at its row. Gives the top row and the number
    /// of text rows.
    pub fn update_viewport(&mut self, height: u16) -> (r: (usize, usize))
        requires
            old(self).well_formed(),
            old(self).current_buffer_id is Some && height <= 2 ==> old(self).buffers@[old(self).current_pos()].cursor.row
                < old(self).viewport_top,
        ensures
            final(self).well_formed(),
            *final(self) == (Editor { viewport_top: final(self).viewport_top, ..*old(self) }),
            r.1 == if height >= 2 { (height - 2) as usize } else { 0usize },
            r.0 == final(self).viewport_top,
            final(self).viewport_top == if old(self).current_buffer_id is Some {
                let row = old(self).buffers@[old(self).current_pos()].cursor.row;
                if row < old(self).viewport_top {
                    row
                } else if row >= old(self).viewport_top + r.1 {
                    (row - (r.1 - 1)) as usize
                } else {
                    old(self).viewport_top
                }
            } else {
                old(self).viewport_top
            },
    {
        let content_height: usize = if height >= 2 {
            (height - 2) as usize
        } else {
            0
        };
        if self.current_buffer_id.is_some() {
            let p = self.current_pos_exec();
            proof {
                self.lemma_current_pos();
            }
            let row = self.buffers[p].cursor.row;
            if row < self.viewport_top {
                self.viewport_top = row;
            } else if row - self.viewport_top >= content_height {
                self.viewport_top = row - (content_height - 1);
            }
        }
        (self.viewport_top, content_height)
    }
}

/// Going to the next buffer and then to the previous one comes back to the buffer one
/// started from.
pub proof fn law_previous_undoes_next(e: Editor, mid: Editor)
    requires
        e.well_formed(),
        e.buffers@.len() > 1,
        e.current_buffer_id is Some,
        mid.well_formed(),
        mid.buffers@ == e.buffers@,
        mid.current_buffer_id == Some(e.buffers@[(e.current_pos() + 1) % (e.buffers@.len() as int)].id),
    ensures
        Some(
            mid.buffers@[if mid.current_pos() == 0 {
                mid.buffers@.len() - 1
            } else {
                mid.current_pos() - 1
            }].id,
        ) == e.current_buffer_id,
{
    e.lemma_current_pos();
    mid.lemma_current_pos();
    let n = e.buffers@.len() as int;
    let p = e.current_pos();
    let q = (p + 1) % n;
    assert(0 <= p < n);
    if p + 1 < n {
        assert((p + 1) % n == p + 1) by (nonlinear_arith)
            requires
                0 <= p + 1 < n,
        ;
    } else {
        assert((p + 1) % n == 0) by (nonlinear_arith)
            requires
                p + 1 == n,
                n > 0,
        ;
    }
    let m = mid.current_pos();
    if m != q {
        if m < q {
            assert(mid.buffers@[m].id != mid.buffers@[q].id);
        } else {
            assert(mid.buffers@[q].id != mid.buffers@[m].id);
        }
    }
}

} // verus!
