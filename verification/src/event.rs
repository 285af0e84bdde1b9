//! The events of the event-driven editor: what happens to buffers, the screen,
//! windows, settings, searches, the system and language servers.
use crate::keymap::KeyInput;
use crate::mode::Mode;
use crate::search::SearchResult;
use crate::syntax::HighlightRange;
use std::path::PathBuf;
use vstd::prelude::*;

verus! {

/// Core event types that can occur in the editor
#[derive(Debug, Clone)]
pub enum EditorEvent {
    /// Input events
    Input(InputEvent),
    /// Buffer events
    Buffer(BufferEvent),
    /// UI events
    UI(UIEvent),
    /// Window events
    Window(WindowEvent),
    /// Configuration events
    Config(ConfigEvent),
    /// Search events
    Search(SearchEvent),
    /// System events
    System(SystemEvent),
    /// Plugin events (future extensibility)
    Plugin(PluginEvent),
    /// LSP events (future LSP integration)
    LSP(LSPEvent),
}

/// Input-related events
#[derive(Debug)]
pub enum InputEvent {
    /// Raw key press from terminal
    KeyPress(KeyInput),
    /// Parsed key sequence (e.g., "gg", "dd", "2yy")
    KeySequence(String),
    /// Mode transition request
    ModeChange { from: Mode, to: Mode },
    /// Command entered in command mode
    Command(String),
    /// Text insertion in insert mode
    TextInsert { text: String, position: (usize, usize) },
}

impl Clone for InputEvent {
    fn clone(&self) -> Self {
        match self {
            InputEvent::KeyPress(k) => InputEvent::KeyPress(*k),
            InputEvent::KeySequence(s) => InputEvent::KeySequence(s.clone()),
            InputEvent::ModeChange { from, to } => InputEvent::ModeChange { from: *from, to: *to },
            InputEvent::Command(c) => InputEvent::Command(c.clone()),
            InputEvent::TextInsert { text, position } => InputEvent::TextInsert {
                text: text.clone(),
                position: (position.0, position.1),
            },
        }
    }
}

/// Plugin events
#[derive(Debug, Clone)]
pub enum PluginEvent {
    /// Plugin loaded
    Loaded(String),
    /// Plugin command
    Command { plugin: String, command: String },
    /// Custom event from plugin, its data as JSON text
    Custom { plugin: String, data: String },
}

/// What a handler made of an event.
#[derive(Debug, Clone)]
pub enum EventResult {
    /// Event was handled, no further processing needed
    Handled,
    /// Event was handled, but should continue to other handlers
    PassThrough,
    /// Event was not handled
    NotHandled,
    /// Event handling failed
    Error(String),
    /// Event handling generated new events
    Events(Vec<EditorEvent>),
}

/// Buffer-related events
#[derive(Debug)]
pub enum BufferEvent {
    /// Buffer created
    Created { buffer_id: usize, path: Option<PathBuf> },
    /// Buffer opened from file
    Opened { buffer_id: usize, path: PathBuf },
    /// Buffer modified
    Modified { buffer_id: usize },
    /// Buffer saved
    Saved { buffer_id: usize, path: PathBuf },
    /// Buffer closed
    Closed { buffer_id: usize },
    /// Content changed
    ContentChanged { buffer_id: usize, line: usize, col: usize, old_text: String, new_text: String },
    /// Cursor moved
    CursorMoved { buffer_id: usize, old_pos: (usize, usize), new_pos: (usize, usize) },
    /// Selection changed
    SelectionChanged { buffer_id: usize, start: Option<(usize, usize)>, end: Option<(usize, usize)> },
    /// Syntax highlighting updated
    SyntaxHighlighted { buffer_id: usize, line: usize, highlights: Vec<HighlightRange> },
}

impl Clone for BufferEvent {
    fn clone(&self) -> Self {
        match self {
            BufferEvent::Created { buffer_id, path } => BufferEvent::Created { buffer_id: *buffer_id, path: path.clone() },
            BufferEvent::Opened { buffer_id, path } => BufferEvent::Opened { buffer_id: *buffer_id, path: path.clone() },
            BufferEvent::Modified { buffer_id } => BufferEvent::Modified { buffer_id: *buffer_id },
            BufferEvent::Saved { buffer_id, path } => BufferEvent::Saved { buffer_id: *buffer_id, path: path.clone() },
            BufferEvent::Closed { buffer_id } => BufferEvent::Closed { buffer_id: *buffer_id },
            BufferEvent::ContentChanged { buffer_id, line, col, old_text, new_text } => BufferEvent::ContentChanged {
                buffer_id: *buffer_id,
                line: *line,
                col: *col,
                old_text: old_text.clone(),
                new_text: new_text.clone(),
            },
            BufferEvent::CursorMoved { buffer_id, old_pos, new_pos } => BufferEvent::CursorMoved {
                buffer_id: *buffer_id,
                old_pos: (old_pos.0, old_pos.1),
                new_pos: (new_pos.0, new_pos.1),
            },
            BufferEvent::SelectionChanged { buffer_id, start, end } => BufferEvent::SelectionChanged {
                buffer_id: *buffer_id,
                start: *start,
                end: *end,
            },
            BufferEvent::SyntaxHighlighted { buffer_id, line, highlights } => BufferEvent::SyntaxHighlighted {
                buffer_id: *buffer_id,
                line: *line,
                highlights: highlights.clone(),
            },
        }
    }
}

/// UI-related events
#[derive(Debug, Clone)]
pub enum UIEvent {
    /// Terminal resized
    Resize { width: u16, height: u16 },
    /// Redraw requested
    RedrawRequest,
    /// Theme changed
    ThemeChanged(String),
    /// Status message updated
    StatusMessage(String),
    /// Command line updated
    CommandLineUpdated(String),
    /// Viewport changed (scrolling)
    ViewportChanged { buffer_id: usize, top: usize, visible_lines: usize },
}

/// How a window is split.
#[derive(Debug, Clone, Copy, PartialEq, Eq, Structural)]
pub enum SplitDirection {
    Horizontal,
    Vertical,
}

/// Window management events
#[derive(Debug, Clone)]
pub enum WindowEvent {
    /// Window created
    Created { window_id: usize },
    /// Window closed
    Closed { window_id: usize },
    /// Window split
    Split { parent_id: usize, new_window_id: usize, direction: SplitDirection },
    /// Window focus changed
    FocusChanged { old_window_id: Option<usize>, new_window_id: usize },
    /// Window resized
    Resized { window_id: usize, width: u16, height: u16 },
}

/// Configuration events
#[derive(Debug, Clone)]
pub enum ConfigEvent {
    /// Editor config file changed
    EditorConfigChanged,
    /// Theme config file changed
    ThemeConfigChanged,
    /// Keymap config file changed
    KeymapConfigChanged,
    /// Setting changed via :set command
    SettingChanged { key: String, value: String },
}

/// Search-related events
#[derive(Debug, Clone)]
pub enum SearchEvent {
    /// Search started
    Started { pattern: String, is_regex: bool },
    /// Search results found
    ResultsFound(Vec<SearchResult>),
    /// Search navigation (n/N)
    Navigate { direction: SearchDirection },
    /// Search cancelled
    Cancelled,
}

#[derive(Debug, Clone, Copy, PartialEq, Eq, Structural)]
pub enum SearchDirection {
    Forward,
    Backward,
}

/// System-level events
#[derive(Debug, Clone)]
pub enum SystemEvent {
    /// Request to quit the editor
    Quit,
    /// Force quit without saving
    ForceQuit,
    /// File system event (file changed externally)
    FileChanged(PathBuf),
    /// Timer event (for periodic tasks)
    Timer { id: String },
    /// Signal received (SIGTERM, etc.)
    Signal(String),
}

/// LSP events (future Language Server Protocol integration)
#[derive(Debug)]
pub enum LSPEvent {
    /// LSP server started
    ServerStarted { language: String },
    /// Diagnostics received
    Diagnostics { buffer_id: usize, diagnostics: Vec<LSPDiagnostic> },
    /// Completion received
    Completion { buffer_id: usize, position: (usize, usize), items: Vec<LSPCompletionItem> },
    /// Hover information
    Hover { buffer_id: usize, position: (usize, usize), content: String },
}

impl Clone for LSPEvent {
    fn clone(&self) -> Self {
        match self {
            LSPEvent::ServerStarted { language } => LSPEvent::ServerStarted { language: language.clone() },
            LSPEvent::Diagnostics { buffer_id, diagnostics } => LSPEvent::Diagnostics {
                buffer_id: *buffer_id,
                diagnostics: diagnostics.clone(),
            },
            LSPEvent::Completion { buffer_id, position, items } => LSPEvent::Completion {
                buffer_id: *buffer_id,
                position: (position.0, position.1),
                items: items.clone(),
            },
            LSPEvent::Hover { buffer_id, position, content } => LSPEvent::Hover {
                buffer_id: *buffer_id,
                position: (position.0, position.1),
                content: content.clone(),
            },
        }
    }
}

#[derive(Debug, Clone)]
pub struct LSPDiagnostic {
    pub line: usize,
    pub col: usize,
    pub length: usize,
    pub severity: LSPDiagnosticSeverity,
    pub message: String,
}

#[derive(Debug, Clone, Copy, PartialEq, Eq, Structural)]
pub enum LSPDiagnosticSeverity {
    Error,
    Warning,
    Info,
    Hint,
}

#[derive(Debug, Clone)]
pub struct LSPCompletionItem {
    pub label: String,
    pub kind: LSPCompletionKind,
    pub detail: Option<String>,
    pub documentation: Option<String>,
}

#[derive(Debug, Clone, Copy, PartialEq, Eq, Structural)]
pub enum LSPCompletionKind {
    Text,
    Method,
    Function,
    Constructor,
    Field,
    Variable,
    Class,
    Interface,
    Module,
    Property,
    Unit,
    Value,
    Enum,
    Keyword,
    Snippet,
    Color,
    File,
    Reference,
}

/// Changes to the configuration files that the watcher reports.
#[derive(Debug, Clone, Copy, PartialEq, Eq, Structural)]
pub enum ConfigChangeEvent {
    EditorConfigChanged,
    KeymapConfigChanged,
}

} // verus!
