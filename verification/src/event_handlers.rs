//! The decisions of the event-driven editor: which handlers an event goes to, what the
//! handlers make of an event, which editor commands a command line names and what is
//! reported of them, and the event history.
use crate::event::{BufferEvent, ConfigEvent, EditorEvent, EventResult, InputEvent, SystemEvent, UIEvent};
use crate::editor::{path_display, path_text};
use crate::mode::Mode;
use crate::text;
use crate::text::{concat, owned, starts_with, str_eq};
use std::path::PathBuf;
use vstd::prelude::*;

verus! {

/// The handler lists of the dispatcher, one per kind of event.
#[derive(Debug, Clone, Copy, PartialEq, Eq, Structural)]
pub enum HandlerKind {
    Input,
    Buffer,
    UI,
    Window,
    Config,
    Search,
    System,
}

/// The handlers an event is dispatched to (plugin and LSP events have none).
pub fn handler_kind(event: &EditorEvent) -> (k: Option<HandlerKind>)
    ensures
        k == match *event {
            EditorEvent::Input(_) => Some(HandlerKind::Input),
            EditorEvent::Buffer(_) => Some(HandlerKind::Buffer),
            EditorEvent::UI(_) => Some(HandlerKind::UI),
            EditorEvent::Window(_) => Some(HandlerKind::Window),
            EditorEvent::Config(_) => Some(HandlerKind::Config),
            EditorEvent::Search(_) => Some(HandlerKind::Search),
            EditorEvent::System(_) => Some(HandlerKind::System),
            EditorEvent::Plugin(_) => None,
            EditorEvent::LSP(_) => None,
        },
{
    match event {
        EditorEvent::Input(_) => Some(HandlerKind::Input),
        EditorEvent::Buffer(_) => Some(HandlerKind::Buffer),
        EditorEvent::UI(_) => Some(HandlerKind::UI),
        EditorEvent::Window(_) => Some(HandlerKind::Window),
        EditorEvent::Config(_) => Some(HandlerKind::Config),
        EditorEvent::Search(_) => Some(HandlerKind::Search),
        EditorEvent::System(_) => Some(HandlerKind::System),
        EditorEvent::Plugin(_) => None,
        EditorEvent::LSP(_) => None,
    }
}

/// Takes one handler's result into the events generated so far: `Handled` stops the
/// chain of handlers, new events are appended, and the others go on to the next
/// handler. An error's message is handed back to be reported.
pub fn absorb_result(generated: &mut Vec<EditorEvent>, result: EventResult) -> (r: (bool, Option<String>))
    ensures
        match result {
            EventResult::Handled => !r.0 && r.1 is None && final(generated)@ == old(generated)@,
            EventResult::PassThrough | EventResult::NotHandled => r.0 && r.1 is None && final(generated)@ == old(
                generated,
            )@,
            EventResult::Error(e) => r.0 && (r.1 matches Some(m) && m@ == e@) && final(generated)@ == old(generated)@,
            EventResult::Events(v) => r.0 && r.1 is None && final(generated)@ == old(generated)@ + v@,
        },
{
    match result {
        EventResult::Handled => (false, None),
        EventResult::PassThrough => (true, None),
        EventResult::NotHandled => (true, None),
        EventResult::Error(e) => (true, Some(e)),
        EventResult::Events(v) => {
            let mut v = v;
            generated.append(&mut v);
            (true, None)
        },
    }
}

/// A change that a handler makes to the editor.
#[derive(Debug, Clone)]
pub enum EditorUpdate {
    SetMode(Mode),
    SetStatusMessage(String),
    SetCommandLine(String),
}

/// The buffer handler: a content change marks the buffer modified and asks for a
/// redraw, a cursor move asks for a redraw, a modification is handled; it leaves other
/// events alone.
pub fn buffer_event_result(event: &EditorEvent) -> (r: EventResult)
    ensures
        match *event {
            EditorEvent::Buffer(BufferEvent::ContentChanged { buffer_id, .. }) => r matches EventResult::Events(v)
                && v@.len() == 2 && (v@[0] matches EditorEvent::Buffer(BufferEvent::Modified { buffer_id: b })
                && b == buffer_id) && (v@[1] matches EditorEvent::UI(UIEvent::RedrawRequest)),
            EditorEvent::Buffer(BufferEvent::CursorMoved { .. }) => r matches EventResult::Events(v) && v@.len()
                == 1 && (v@[0] matches EditorEvent::UI(UIEvent::RedrawRequest)),
            EditorEvent::Buffer(BufferEvent::Modified { .. }) => r is Handled,
            _ => r is NotHandled,
        },
{
    match event {
        EditorEvent::Buffer(BufferEvent::ContentChanged { buffer_id, .. }) => {
            let mut v: Vec<EditorEvent> = Vec::new();
            v.push(EditorEvent::Buffer(BufferEvent::Modified { buffer_id: *buffer_id }));
            v.push(EditorEvent::UI(UIEvent::RedrawRequest));
            EventResult::Events(v)
        },
        EditorEvent::Buffer(BufferEvent::CursorMoved { .. }) => {
            let mut v: Vec<EditorEvent> = Vec::new();
            v.push(EditorEvent::UI(UIEvent::RedrawRequest));
            EventResult::Events(v)
        },
        EditorEvent::Buffer(BufferEvent::Modified { .. }) => EventResult::Handled,
        _ => EventResult::NotHandled,
    }
}

/// UI event handler: whether the screen must be drawn again.
#[derive(Debug)]
pub struct UIEventHandler {
    pub needs_redraw: bool,
}

impl UIEventHandler {
    pub fn new() -> (h: Self)
        ensures
            !h.needs_redraw,
    {
        UIEventHandler { needs_redraw: false }
    }

    /// A redraw request, a resize or a theme change asks for a redraw; a status message
    /// or command line text goes to the editor and asks for a redraw; other events are
    /// left alone.
    pub fn handle_event(&mut self, event: &EditorEvent) -> (r: (EventResult, Option<EditorUpdate>))
        ensures
            match *event {
                EditorEvent::UI(UIEvent::RedrawRequest) | EditorEvent::UI(UIEvent::Resize { .. })
                | EditorEvent::UI(UIEvent::ThemeChanged(_)) => r.0 is Handled && r.1 is None && final(self).needs_redraw,
                EditorEvent::UI(UIEvent::StatusMessage(m)) => r.0 is Handled && (r.1 matches Some(
                    EditorUpdate::SetStatusMessage(t),
                ) && t@ == m@) && final(self).needs_redraw,
                EditorEvent::UI(UIEvent::CommandLineUpdated(c)) => r.0 is Handled && (r.1 matches Some(
                    EditorUpdate::SetCommandLine(t),
                ) && t@ == c@) && final(self).needs_redraw,
                _ => r.0 is NotHandled && r.1 is None && final(self).needs_redraw == old(self).needs_redraw,
            },
    {
        match event {
            EditorEvent::UI(UIEvent::RedrawRequest) | EditorEvent::UI(UIEvent::Resize { .. })
            | EditorEvent::UI(UIEvent::ThemeChanged(_)) => {
                self.needs_redraw = true;
                (EventResult::Handled, None)
            },
            EditorEvent::UI(UIEvent::StatusMessage(m)) => {
                self.needs_redraw = true;
                (EventResult::Handled, Some(EditorUpdate::SetStatusMessage(owned(m.as_str()))))
            },
            EditorEvent::UI(UIEvent::CommandLineUpdated(c)) => {
                self.needs_redraw = true;
                (EventResult::Handled, Some(EditorUpdate::SetCommandLine(owned(c.as_str()))))
            },
            _ => (EventResult::NotHandled, None),
        }
    }
}

/// The configuration handler: a reloaded editor configuration asks for a redraw, a
/// reloaded theme asks for a redraw and says so, a changed setting is handled; other
/// events are left alone.
pub fn config_event_result(event: &EditorEvent) -> (r: EventResult)
    ensures
        match *event {
            EditorEvent::Config(ConfigEvent::EditorConfigChanged) => r matches EventResult::Events(v) && v@.len() == 1
                && (v@[0] matches EditorEvent::UI(UIEvent::RedrawRequest)),
            EditorEvent::Config(ConfigEvent::ThemeConfigChanged) => r matches EventResult::Events(v) && v@.len() == 2
                && (v@[0] matches EditorEvent::UI(UIEvent::RedrawRequest)) && (v@[1] matches EditorEvent::UI(
                UIEvent::StatusMessage(m),
            ) && m@ == "Theme reloaded"@),
            EditorEvent::Config(ConfigEvent::SettingChanged { .. }) => r is Handled,
            _ => r is NotHandled,
        },
{
    match event {
        EditorEvent::Config(ConfigEvent::EditorConfigChanged) => {
            let mut v: Vec<EditorEvent> = Vec::new();
            v.push(EditorEvent::UI(UIEvent::RedrawRequest));
            EventResult::Events(v)
        },
        EditorEvent::Config(ConfigEvent::ThemeConfigChanged) => {
            let mut v: Vec<EditorEvent> = Vec::new();
            v.push(EditorEvent::UI(UIEvent::RedrawRequest));
            v.push(EditorEvent::UI(UIEvent::StatusMessage(owned("Theme reloaded"))));
            EventResult::Events(v)
        },
        EditorEvent::Config(ConfigEvent::SettingChanged { .. }) => EventResult::Handled,
        _ => EventResult::NotHandled,
    }
}


/// System event handler: whether the editor should quit.
#[derive(Debug)]
pub struct SystemEventHandler {
    pub should_quit: bool,
}

impl SystemEventHandler {
    pub fn new() -> (h: Self)
        ensures
            !h.should_quit,
    {
        SystemEventHandler { should_quit: false }
    }

    /// Quit sets the quit flag; a file changed outside is reported and asks for a
    /// redraw; other events are left alone.
    pub fn handle_event(&mut self, event: &EditorEvent) -> (r: EventResult)
        ensures
            match *event {
                EditorEvent::System(SystemEvent::Quit) => r is Handled && final(self).should_quit,
                EditorEvent::System(SystemEvent::FileChanged(p)) => (r matches EventResult::Events(v) && v@.len() == 2
                    && (v@[0] matches EditorEvent::UI(UIEvent::StatusMessage(m)) && m@ == "File "@ + path_display(p)
                    + " changed externally"@) && (v@[1] matches EditorEvent::UI(
                    UIEvent::RedrawRequest,
                ))) && final(self).should_quit == old(self).should_quit,
                _ => r is NotHandled && final(self).should_quit == old(self).should_quit,
            },
    {
        match event {
            EditorEvent::System(SystemEvent::Quit) => {
                self.should_quit = true;
                EventResult::Handled
            },
            EditorEvent::System(SystemEvent::FileChanged(path)) => {
                let s = concat("File ", path_text(path).as_str());
                let s = concat(s.as_str(), " changed externally");
                let mut v: Vec<EditorEvent> = Vec::new();
                v.push(EditorEvent::UI(UIEvent::StatusMessage(s)));
                v.push(EditorEvent::UI(UIEvent::RedrawRequest));
                EventResult::Events(v)
            },
            _ => EventResult::NotHandled,
        }
    }
}

/// The editor commands that the event-driven editor runs itself.
#[derive(Debug, Clone, PartialEq, Eq)]
pub enum EditorCommand {
    Quit,
    ForceQuit,
    Write,
    WriteQuit,
    /// Open the file (its name trimmed).
    Edit(String),
    Unknown(String),
}

/// The command a command line names, its leading `:`s dropped.
pub open spec fn editor_command_of(c: Seq<char>) -> Seq<char> {
    c.skip(leading_colons(c, 0))
}

/// The position of the first character from `i` on that is not a `:`.
pub open spec fn leading_colons(c: Seq<char>, i: int) -> int
    decreases c.len() - i,
{
    if 0 <= i < c.len() && c[i] == ':' {
        leading_colons(c, i + 1)
    } else {
        i
    }
}

/// `str::trim_start_matches(':')`.
fn strip_colons(s: &str) -> (r: String)
    ensures
        r@ == editor_command_of(s@),
{
    let cs = text::chars_of(s);
    let mut i: usize = 0;
    while i < cs.len() && cs[i] == ':'
        invariant
            i <= cs@.len(),
            cs@ == s@,
            leading_colons(s@, i as int) == leading_colons(s@, 0),
        decreases cs@.len() - i,
    {
        i = i + 1;
    }
    let n = cs.len();
    let r = text::string_from_chars(&cs.as_slice()[i..n]);
    assert(r@ =~= s@.skip(i as int));
    r
}

impl EditorCommand {
    /// The command a command text names: `q`/`quit`, `q!`/`quit!`, `w`/`write`,
    /// `wq`/`x`, `e <file>`; anything else is unknown.
    pub open spec fn named(c: Seq<char>, cmd: EditorCommand) -> bool {
        if c == "q"@ || c == "quit"@ {
            cmd == EditorCommand::Quit
        } else if c == "q!"@ || c == "quit!"@ {
            cmd == EditorCommand::ForceQuit
        } else if c == "w"@ || c == "write"@ {
            cmd == EditorCommand::Write
        } else if c == "wq"@ || c == "x"@ {
            cmd == EditorCommand::WriteQuit
        } else if c.len() >= 2 && c.take(2) == "e "@ {
            cmd matches EditorCommand::Edit(f) && f@ == text::trim(c.skip(2))
        } else {
            cmd matches EditorCommand::Unknown(u) && u@ == c
        }
    }
}

/// The editor command of a command line (leading `:`s dropped).
pub fn parse_editor_command(command_line: &str) -> (cmd: EditorCommand)
    ensures
        EditorCommand::named(editor_command_of(command_line@), cmd),
{
    let c = strip_colons(command_line);
    let s = c.as_str();
    if str_eq(s, "q") || str_eq(s, "quit") {
        EditorCommand::Quit
    } else if str_eq(s, "q!") || str_eq(s, "quit!") {
        EditorCommand::ForceQuit
    } else if str_eq(s, "w") || str_eq(s, "write") {
        EditorCommand::Write
    } else if str_eq(s, "wq") || str_eq(s, "x") {
        EditorCommand::WriteQuit
    } else if starts_with(s, "e ") {
        let n = text::char_len(s);
        proof {
            reveal_strlit("e ");
        }
        let rest = text::substring(s, 2, n);
        assert(rest@ =~= s@.skip(2));
        EditorCommand::Edit(text::trim_str(rest.as_str()))
    } else {
        proof {
            reveal_strlit("e ");
        }
        EditorCommand::Unknown(c)
    }
}

/// What happened when the editor ran a command.
#[derive(Debug, Clone, PartialEq, Eq)]
pub enum CommandOutcome {
    Quitting,
    ForceQuitting,
    Saved,
    SaveFailed(String),
    NoBufferToSave,
    SavedAndExiting,
    Exiting,
    Opened(String),
    OpenFailed(String),
    Unknown(String),
}

/// What is reported of a command's outcome.
pub open spec fn outcome_reply(o: CommandOutcome) -> Result<Seq<char>, Seq<char>> {
    match o {
        CommandOutcome::Quitting => Ok("Quitting editor"@),
        CommandOutcome::ForceQuitting => Ok("Force quit"@),
        CommandOutcome::Saved => Ok("File saved"@),
        CommandOutcome::SaveFailed(e) => Err("Error saving: "@ + e@),
        CommandOutcome::NoBufferToSave => Err("No buffer to save"@),
        CommandOutcome::SavedAndExiting => Ok("File saved and exiting"@),
        CommandOutcome::Exiting => Ok("Exiting"@),
        CommandOutcome::Opened(m) => Ok(m@),
        CommandOutcome::OpenFailed(e) => Err("Error opening file: "@ + e@),
        CommandOutcome::Unknown(c) => Err("Unknown command: "@ + c@),
    }
}

/// The report of a command's outcome: a message, or an error.
pub fn command_reply(outcome: &CommandOutcome) -> (r: Result<String, String>)
    ensures
        match (r, outcome_reply(*outcome)) {
            (Ok(m), Ok(n)) => m@ == n,
            (Err(m), Err(n)) => m@ == n,
            _ => false,
        },
{
    match outcome {
        CommandOutcome::Quitting => Ok(owned("Quitting editor")),
        CommandOutcome::ForceQuitting => Ok(owned("Force quit")),
        CommandOutcome::Saved => Ok(owned("File saved")),
        CommandOutcome::SaveFailed(e) => Err(concat("Error saving: ", e.as_str())),
        CommandOutcome::NoBufferToSave => Err(owned("No buffer to save")),
        CommandOutcome::SavedAndExiting => Ok(owned("File saved and exiting")),
        CommandOutcome::Exiting => Ok(owned("Exiting")),
        CommandOutcome::Opened(m) => Ok(owned(m.as_str())),
        CommandOutcome::OpenFailed(e) => Err(concat("Error opening file: ", e.as_str())),
        CommandOutcome::Unknown(c) => Err(concat("Unknown command: ", c.as_str())),
    }
}

/// The input handler's answer to a command's report: the message (or `Error: ` and the
/// error) as the status, then a redraw.
pub fn reply_events(reply: &Result<String, String>) -> (v: Vec<EditorEvent>)
    ensures
        v@.len() == 2,
        v@[0] matches EditorEvent::UI(UIEvent::StatusMessage(m)) && m@ == match *reply {
            Ok(t) => t@,
            Err(e) => "Error: "@ + e@,
        },
        (v@[1] matches EditorEvent::UI(UIEvent::RedrawRequest)),
{
    let status = match reply {
        Ok(t) => owned(t.as_str()),
        Err(e) => concat("Error: ", e.as_str()),
    };
    let mut v: Vec<EditorEvent> = Vec::new();
    v.push(EditorEvent::UI(UIEvent::StatusMessage(status)));
    v.push(EditorEvent::UI(UIEvent::RedrawRequest));
    v
}

/// What the input handler makes of an event: a key press asks for a redraw, a mode
/// change sets the mode and asks for a redraw, a command is to be run (its command
/// named); other events are left alone.
pub enum InputDecision {
    Result(EventResult, Option<EditorUpdate>),
    Run(EditorCommand),
}

pub fn input_event_decision(event: &EditorEvent) -> (d: InputDecision)
    ensures
        match *event {
            EditorEvent::Input(InputEvent::KeyPress(_)) => d matches InputDecision::Result(EventResult::Events(v), None)
                && v@.len() == 1 && (v@[0] matches EditorEvent::UI(UIEvent::RedrawRequest)),
            EditorEvent::Input(InputEvent::ModeChange { to, .. }) => d matches InputDecision::Result(
                EventResult::Events(v),
                Some(EditorUpdate::SetMode(m)),
            ) && m == to && v@.len() == 1 && (v@[0] matches EditorEvent::UI(UIEvent::RedrawRequest)),
            EditorEvent::Input(InputEvent::Command(c)) => d matches InputDecision::Run(cmd) && EditorCommand::named(
                editor_command_of(c@),
                cmd,
            ),
            _ => d matches InputDecision::Result(EventResult::NotHandled, None),
        },
{
    match event {
        EditorEvent::Input(InputEvent::KeyPress(_)) => {
            let mut v: Vec<EditorEvent> = Vec::new();
            v.push(EditorEvent::UI(UIEvent::RedrawRequest));
            InputDecision::Result(EventResult::Events(v), None)
        },
        EditorEvent::Input(InputEvent::ModeChange { to, .. }) => {
            let mut v: Vec<EditorEvent> = Vec::new();
            v.push(EditorEvent::UI(UIEvent::RedrawRequest));
            InputDecision::Result(EventResult::Events(v), Some(EditorUpdate::SetMode(*to)))
        },
        EditorEvent::Input(InputEvent::Command(c)) => InputDecision::Run(parse_editor_command(c.as_str())),
        _ => InputDecision::Result(EventResult::NotHandled, None),
    }
}

/// The recent events, each with the time it was recorded (ms), oldest first, at most
/// `max_history` of them.
#[derive(Debug)]
pub struct EventHistory {
    pub entries: Vec<(u64, EditorEvent)>,
    pub max_history: usize,
}

impl EventHistory {
    pub fn new() -> (h: Self)
        ensures
            h.entries@.len() == 0,
            h.max_history == 1000,
    {
        EventHistory { entries: Vec::new(), max_history: 1000 }
    }

    /// Records an event; the oldest one goes when there are more than `max_history`.
    pub fn record(&mut self, now: u64, event: EditorEvent)
        ensures
            final(self).max_history == old(self).max_history,
            final(self).entries@ == if old(self).entries@.len() + 1 > old(self).max_history {
                old(self).entries@.push((now, event)).drop_first()
            } else {
                old(self).entries@.push((now, event))
            },
    {
        self.entries.push((now, event));
        if self.entries.len() > self.max_history {
            let ghost pushed = self.entries@;
            self.entries.remove(0);
            assert(self.entries@ =~= pushed.drop_first());
        }
    }

    /// The last `count` events recorded (all of them when there are fewer).
    pub fn get_history(&self, count: usize) -> (r: &[(u64, EditorEvent)])
        ensures
            r@ == self.entries@.skip(if count <= self.entries@.len() {
                self.entries@.len() - count
            } else {
                0
            }),
    {
        let n = self.entries.len();
        let start = if count <= n {
            n - count
        } else {
            0
        };
        vstd::slice::slice_subrange(self.entries.as_slice(), start, n)
    }
}

} // verus!
