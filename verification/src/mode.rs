//! Editor modes, cursor positions and visual selections.
use vstd::prelude::*;

verus! {

/// Represents different editor modes
#[derive(Debug, Clone, Copy, PartialEq, Eq, Structural)]
pub enum Mode {
    Normal,
    Insert,
    Visual,
    VisualLine,
    VisualBlock,
    Command,
    Replace,
    Search,
    OperatorPending,  // For waiting for text object after operator
}

impl Mode {
    /// The status-line name of the mode.
    pub open spec fn spec_label(self) -> Seq<char> {
        match self {
            Mode::Normal => "NORMAL"@,
            Mode::Insert => "INSERT"@,
            Mode::Visual => "VISUAL"@,
            Mode::VisualLine => "V-LINE"@,
            Mode::VisualBlock => "V-BLOCK"@,
            Mode::Command => "COMMAND"@,
            Mode::Replace => "REPLACE"@,
            Mode::Search => "SEARCH"@,
            Mode::OperatorPending => "OP-PENDING"@,
        }
    }

    /// The name shown for the mode in the status line.
    pub fn label(&self) -> (s: &'static str)
        ensures
            s@ == self.spec_label(),
    {
        match self {
            Mode::Normal => "NORMAL",
            Mode::Insert => "INSERT",
            Mode::Visual => "VISUAL",
            Mode::VisualLine => "V-LINE",
            Mode::VisualBlock => "V-BLOCK",
            Mode::Command => "COMMAND",
            Mode::Replace => "REPLACE",
            Mode::Search => "SEARCH",
            Mode::OperatorPending => "OP-PENDING",
        }
    }
}

/// Cursor position in the buffer
#[derive(Debug, Clone, Copy, PartialEq, Eq, Structural)]
pub struct Position {
    pub row: usize,
    pub col: usize,
}

impl Position {
    pub fn new(row: usize, col: usize) -> (p: Self)
        ensures
            p.row == row,
            p.col == col,
    {
        Self { row, col }
    }

    pub fn zero() -> (p: Self)
        ensures
            p.row == 0,
            p.col == 0,
    {
        Self { row: 0, col: 0 }
    }
}

/// Type of visual selection
#[derive(Debug, Clone, Copy, PartialEq, Eq, Structural)]
pub enum SelectionType {
    Character,  // Character-wise selection (default visual mode)
    Line,  // Line-wise selection (visual line mode)
    Block,  // Block-wise selection (visual block mode)
}

/// Selection range for visual mode
#[derive(Debug, Clone, Copy, PartialEq, Eq, Structural)]
pub struct Selection {
    pub start: Position,
    pub end: Position,
    pub selection_type: SelectionType,
}

impl Selection {
    pub fn new(start: Position, end: Position) -> (s: Self)
        ensures
            s.start == start,
            s.end == end,
            s.selection_type == SelectionType::Character,
    {
        Self { start, end, selection_type: SelectionType::Character }
    }

    pub fn new_with_type(start: Position, end: Position, selection_type: SelectionType) -> (s: Self)
        ensures
            s.start == start,
            s.end == end,
            s.selection_type == selection_type,
    {
        Self { start, end, selection_type }
    }

    /// Create a line-wise selection
    pub fn new_line(start: Position, end: Position) -> (s: Self)
        ensures
            s.start == start,
            s.end == end,
            s.selection_type == SelectionType::Line,
    {
        Self { start, end, selection_type: SelectionType::Line }
    }
}

} // verus!
