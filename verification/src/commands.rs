//! Running the command line (`:w`, `:q`, `:e file`, `:b 2`, `:set ...`) on the editor.
//! What needs the disk (writing a buffer, reading a file, saving the configuration) is
//! handed back as a step for the caller to take, and then finished here.
use crate::digits;
use crate::editor::{any_modified, first_named_from, has_id, Editor, SettingFollowUp};
use crate::keymap::{ex_command_of, set_command_done, strip_colons, ExCommand, KeyHandler, SetOutcome};
use crate::mode::Mode;
use crate::text::{concat, owned};
use vstd::prelude::*;

verus! {

/// What is left to the caller once a command ran.
#[derive(Debug, Clone, PartialEq, Eq)]
pub enum CommandStep {
    /// Nothing.
    Done,
    /// Write the current buffer to its file, then finish with `finish_save` (and quit
    /// when it was written, if asked).
    Save { then_quit: bool },
    /// Read the named file, then finish with `finish_open`.
    Open(String),
    /// Save the configuration file.
    SaveConfig,
    /// A setting changed; the caller takes care of what follows (see `SettingFollowUp`).
    FollowUp(SettingFollowUp),
    /// A window command; this editor has a single window.
    Window,
}

/// `anyhow::Error` as its `Display` text. Nothing is claimed of the text.
#[verifier::external_body]
fn error_text(e: &anyhow::Error) -> String {
    format!("{}", e)
}

/// The status after a buffer command: its message, or `Error: ` and the error.
pub open spec fn reported(status: Seq<char>, r: Result<String, anyhow::Error>) -> bool {
    match r {
        Ok(m) => status == m@,
        Err(_) => status.len() >= 7 && status.take(7) == "Error: "@,
    }
}

impl KeyHandler {
    fn report(editor: &mut Editor, r: Result<String, anyhow::Error>)
        requires
            old(editor).well_formed(),
        ensures
            final(editor).well_formed(),
            reported(final(editor).status_message@, r),
            final(editor).buffers@ == old(editor).buffers@,
            final(editor).current_buffer_id == old(editor).current_buffer_id,
            final(editor).next_buffer_id == old(editor).next_buffer_id,
            final(editor).mode == old(editor).mode,
            final(editor).config == old(editor).config,
            final(editor).should_quit == old(editor).should_quit,
    {
        match r {
            Ok(m) => editor.status_message = m,
            Err(e) => {
                let t = concat("Error: ", error_text(&e).as_str());
                proof {
                    reveal_strlit("Error: ");
                    assert(t@.take(7) =~= "Error: "@);
                }
                editor.status_message = t;
            },
        }
    }

    /// Runs the command line (its leading `:`s dropped) on the editor and returns to
    /// normal mode with an empty command line. Writing and reading files, saving the
    /// configuration and what follows a setting are handed back.
    pub fn action_execute_command(&self, editor: &mut Editor) -> (r: (ExCommand, CommandStep))
        requires
            old(editor).well_formed(),
            old(editor).next_buffer_id < usize::MAX,
        ensures
            final(editor).well_formed(),
            ex_command_of(strip_colons(old(editor).command_line@), r.0),
            final(editor).mode == Mode::Normal,
            final(editor).command_line@.len() == 0,
            Self::command_done(*old(editor), *final(editor), r.0, r.1),
    {
        let cmd = Self::parse_ex_command(editor.command_line.as_str());
        let step = self.run_command(editor, &cmd);
        let ghost mid = *editor;
        editor.set_mode(Mode::Normal);
        editor.command_line = String::new();
        proof {
            Self::lemma_command_done_frame(*old(editor), mid, *editor, cmd, step);
        }
        (cmd, step)
    }

    /// What a command did does not depend on the mode and the command line.
    proof fn lemma_command_done_frame(e: Editor, mid: Editor, f: Editor, cmd: ExCommand, step: CommandStep)
        requires
            Self::command_done(e, mid, cmd, step),
            f == (Editor { mode: f.mode, command_line: f.command_line, ..mid }),
        ensures
            Self::command_done(e, f, cmd, step),
    {
        match cmd {
            ExCommand::BufferDelete => {
                if e.current_buffer_id is Some && !e.buffers@[e.current_pos()].modified {
                    let r = choose|r: Result<String, anyhow::Error>| #[trigger] Editor::closed(
                        e,
                        mid,
                        r,
                        "Closed buffer, created new empty buffer"@,
                        "Buffer closed"@,
                    ) && reported(mid.status_message@, r);
                    assert(Editor::closed(e, f, r, "Closed buffer, created new empty buffer"@, "Buffer closed"@));
                }
            },
            ExCommand::BufferForceDelete => {
                if e.current_buffer_id is Some {
                    let r = choose|r: Result<String, anyhow::Error>| #[trigger] Editor::closed(
                        e,
                        mid,
                        r,
                        "Closed buffer (discarded changes), created new empty buffer"@,
                        "Buffer closed (discarded changes)"@,
                    ) && reported(mid.status_message@, r);
                    assert(Editor::closed(
                        e,
                        f,
                        r,
                        "Closed buffer (discarded changes), created new empty buffer"@,
                        "Buffer closed (discarded changes)"@,
                    ));
                }
            },
            ExCommand::SetOptions(args) => {
                let (c, o) = choose|c: crate::config::EditorConfig, o: SetOutcome| #[trigger] set_command_done(
                    e.config,
                    c,
                    args@,
                    o,
                ) && match o.applied {
                    Some(p) => crate::config::applies_setting(c, mid.config, p.0@, p.1@) && (step matches CommandStep::FollowUp(_))
                        && mid.show_line_numbers == mid.config.display.show_line_numbers && mid.show_relative_numbers
                        == mid.config.display.show_relative_numbers && mid.show_cursor_line
                        == mid.config.display.show_cursor_line,
                    None => mid.config == c && step == CommandStep::Done && mid.show_line_numbers == e.show_line_numbers
                        && mid.show_relative_numbers == e.show_relative_numbers && mid.show_cursor_line == e.show_cursor_line,
                } && match o.message {
                    Some(m) => mid.status_message@ == m@,
                    None => mid.status_message@ == e.status_message@,
                };
                assert(set_command_done(e.config, c, args@, o));
            },
            _ => {},
        }
    }

    /// What running `cmd` did to the editor (leaving mode and command line aside) and
    /// what it left to the caller.
    pub open spec fn command_done(e: Editor, f: Editor, cmd: ExCommand, step: CommandStep) -> bool {
        match cmd {
            ExCommand::Quit => step == CommandStep::Done && f.buffers@ == e.buffers@ && if any_modified(e.buffers@) {
                f.should_quit == e.should_quit && f.status_message@ == "Unsaved changes! Use :q! to force quit"@
            } else {
                f.should_quit
            },
            ExCommand::ForceQuit => step == CommandStep::Done && f.should_quit && f.buffers@ == e.buffers@,
            ExCommand::Write => f.buffers@ == e.buffers@ && f.should_quit == e.should_quit && if e.current_buffer_id is Some {
                step == (CommandStep::Save { then_quit: false })
            } else {
                step == CommandStep::Done
            },
            ExCommand::WriteQuit => f.buffers@ == e.buffers@ && if e.current_buffer_id is Some {
                step == (CommandStep::Save { then_quit: true }) && f.should_quit == e.should_quit
            } else {
                step == CommandStep::Done && (!any_modified(e.buffers@) ==> f.should_quit)
            },
            ExCommand::LineNumbers(a, rel) => step == CommandStep::SaveConfig && f.config.display.show_line_numbers == a
                && f.config.display.show_relative_numbers == rel && f.show_line_numbers == a && f.show_relative_numbers
                == rel && f.buffers@ == e.buffers@,
            ExCommand::CursorLine(on) => step == CommandStep::SaveConfig && f.config.display.show_cursor_line == on
                && f.show_cursor_line == on && f.buffers@ == e.buffers@,
            ExCommand::BufferNext => step == CommandStep::Done && f.buffers@ == e.buffers@ && if e.buffers@.len() > 1 {
                f.current_buffer_id == Some(e.buffers@[(e.current_pos() + 1) % (e.buffers@.len() as int)].id)
                    && f.status_message@ == "Switched to next buffer"@
            } else {
                f.current_buffer_id == e.current_buffer_id && f.status_message@ == "No next buffer"@
            },
            ExCommand::BufferPrevious => step == CommandStep::Done && f.buffers@ == e.buffers@ && if e.buffers@.len() > 1 {
                f.current_buffer_id == Some(
                    e.buffers@[if e.current_pos() == 0 {
                        e.buffers@.len() - 1
                    } else {
                        e.current_pos() - 1
                    }].id,
                ) && f.status_message@ == "Switched to previous buffer"@
            } else {
                f.current_buffer_id == e.current_buffer_id && f.status_message@ == "No previous buffer"@
            },
            ExCommand::BufferDelete => step == CommandStep::Done && if e.current_buffer_id is None {
                f.status_message@ == "No buffer to close"@ && f.buffers@ == e.buffers@
            } else if e.buffers@[e.current_pos()].modified {
                f.status_message@ == "Buffer has unsaved changes! Use :bd! to force close"@ && f.buffers@ == e.buffers@
            } else {
                exists|r: Result<String, anyhow::Error>| #[trigger] Editor::closed(
                    e,
                    f,
                    r,
                    "Closed buffer, created new empty buffer"@,
                    "Buffer closed"@,
                ) && reported(f.status_message@, r)
            },
            ExCommand::BufferForceDelete => step == CommandStep::Done && if e.current_buffer_id is None {
                f.status_message@ == "No buffer to close"@ && f.buffers@ == e.buffers@
            } else {
                exists|r: Result<String, anyhow::Error>| #[trigger] Editor::closed(
                    e,
                    f,
                    r,
                    "Closed buffer (discarded changes), created new empty buffer"@,
                    "Buffer closed (discarded changes)"@,
                ) && reported(f.status_message@, r)
            },
            ExCommand::ListBuffers => step == CommandStep::Done && f.buffers@ == e.buffers@ && f.status_message@ == e.list_text(),
            ExCommand::Split | ExCommand::VSplit | ExCommand::Close => step == CommandStep::Window && f.buffers@
                == e.buffers@ && f.status_message@ == e.status_message@,
            ExCommand::Edit(name) => (step matches CommandStep::Open(n) && n@ == name@) && f.buffers@ == e.buffers@,
            ExCommand::SwitchBuffer(id) => step == CommandStep::Done && f.buffers@ == e.buffers@ && if has_id(
                e.buffers@,
                id,
            ) {
                f.current_buffer_id == Some(id) && f.status_message@ == "Switched to buffer "@ + digits::decimal(id as nat)
            } else {
                f.current_buffer_id == e.current_buffer_id && f.status_message@ == "No buffer with ID "@ + digits::decimal(
                    id as nat,
                )
            },
            ExCommand::SwitchBufferByName(name) => step == CommandStep::Done && f.buffers@ == e.buffers@
                && match first_named_from(e.buffers@, name@, 0) {
                Some(i) => f.current_buffer_id == Some(e.buffers@[i].id) && f.status_message@ == "Switched to buffer '"@
                    + name@ + "'"@,
                None => f.current_buffer_id == e.current_buffer_id && f.status_message@ == "No buffer matching '"@
                    + name@ + "'"@,
            },
            ExCommand::SetOptions(args) => f.buffers@ == e.buffers@ && exists|mid: crate::config::EditorConfig, out: SetOutcome|
                #[trigger] set_command_done(e.config, mid, args@, out) && match out.applied {
                Some(p) => crate::config::applies_setting(mid, f.config, p.0@, p.1@) && (step matches CommandStep::FollowUp(_))
                    && f.show_line_numbers == f.config.display.show_line_numbers && f.show_relative_numbers
                    == f.config.display.show_relative_numbers && f.show_cursor_line == f.config.display.show_cursor_line,
                None => f.config == mid && step == CommandStep::Done && f.show_line_numbers == e.show_line_numbers
                    && f.show_relative_numbers == e.show_relative_numbers && f.show_cursor_line == e.show_cursor_line,
            } && match out.message {
                Some(m) => f.status_message@ == m@,
                None => f.status_message@ == e.status_message@,
            },
            ExCommand::Unknown(c) => step == CommandStep::Done && f.buffers@ == e.buffers@ && f.status_message@
                == "Unknown command: "@ + c@,
        }
    }

    fn run_command(&self, editor: &mut Editor, cmd: &ExCommand) -> (step: CommandStep)
        requires
            old(editor).well_formed(),
            old(editor).next_buffer_id < usize::MAX,
        ensures
            final(editor).well_formed(),
            Self::command_done(*old(editor), *final(editor), *cmd, step),
    {
        match cmd {
            ExCommand::Quit => {
                editor.quit();
                CommandStep::Done
            },
            ExCommand::ForceQuit => {
                editor.force_quit();
                CommandStep::Done
            },
            ExCommand::Write => {
                if editor.current_buffer_id.is_some() {
                    CommandStep::Save { then_quit: false }
                } else {
                    CommandStep::Done
                }
            },
            ExCommand::WriteQuit => {
                if editor.current_buffer_id.is_some() {
                    CommandStep::Save { then_quit: true }
                } else {
                    editor.quit();
                    CommandStep::Done
                }
            },
            ExCommand::LineNumbers(a, r) => {
                editor.set_line_numbers(*a, *r);
                CommandStep::SaveConfig
            },
            ExCommand::CursorLine(on) => {
                editor.set_cursor_line(*on);
                CommandStep::SaveConfig
            },
            ExCommand::BufferNext => {
                if editor.switch_to_next_buffer() {
                    editor.status_message = owned("Switched to next buffer");
                } else {
                    editor.status_message = owned("No next buffer");
                }
                CommandStep::Done
            },
            ExCommand::BufferPrevious => {
                if editor.switch_to_previous_buffer() {
                    editor.status_message = owned("Switched to previous buffer");
                } else {
                    editor.status_message = owned("No previous buffer");
                }
                CommandStep::Done
            },
            ExCommand::BufferDelete => {
                let r = editor.close_current_buffer();
                let ghost gr = r;
                let ghost mid = *editor;
                Self::report(editor, r);
                proof {
                    if old(editor).current_buffer_id is Some && !old(editor).buffers@[old(editor).current_pos()].modified {
                        assert(Editor::closed(*old(editor), mid, gr, "Closed buffer, created new empty buffer"@, "Buffer closed"@));
                        assert(Editor::closed(*old(editor), *editor, gr, "Closed buffer, created new empty buffer"@, "Buffer closed"@));
                        assert(reported(editor.status_message@, gr));
                    }
                }
                CommandStep::Done
            },
            ExCommand::BufferForceDelete => {
                let r = editor.force_close_current_buffer();
                let ghost gr = r;
                let ghost mid = *editor;
                Self::report(editor, r);
                proof {
                    if old(editor).current_buffer_id is Some {
                        assert(Editor::closed(*old(editor), mid, gr, "Closed buffer (discarded changes), created new empty buffer"@, "Buffer closed (discarded changes)"@));
                        assert(Editor::closed(*old(editor), *editor, gr, "Closed buffer (discarded changes), created new empty buffer"@, "Buffer closed (discarded changes)"@));
                        assert(reported(editor.status_message@, gr));
                    }
                }
                CommandStep::Done
            },
            ExCommand::ListBuffers => {
                editor.status_message = editor.list_buffers();
                CommandStep::Done
            },
            ExCommand::Split | ExCommand::VSplit | ExCommand::Close => CommandStep::Window,
            ExCommand::Edit(name) => CommandStep::Open(owned(name.as_str())),
            ExCommand::SwitchBuffer(id) => {
                if editor.switch_to_buffer(*id) {
                    editor.status_message = concat("Switched to buffer ", digits::decimal_string(*id as u64).as_str());
                } else {
                    editor.status_message = concat("No buffer with ID ", digits::decimal_string(*id as u64).as_str());
                }
                CommandStep::Done
            },
            ExCommand::SwitchBufferByName(name) => {
                let m = if editor.switch_to_buffer_by_name(name.as_str()) {
                    concat("Switched to buffer '", name.as_str())
                } else {
                    concat("No buffer matching '", name.as_str())
                };
                editor.status_message = concat(m.as_str(), "'");
                CommandStep::Done
            },
            ExCommand::SetOptions(args) => {
                let out = self.handle_set_command(&mut editor.config, args.as_str());
                let ghost mid = editor.config;
                let step = match &out.applied {
                    Some((s, v)) => CommandStep::FollowUp(editor.set_config_setting(s.as_str(), v.as_str())),
                    None => CommandStep::Done,
                };
                match &out.message {
                    Some(m) => editor.status_message = owned(m.as_str()),
                    None => {},
                }
                proof {
                    assert(set_command_done(old(editor).config, mid, args@, out));
                }
                step
            },
            ExCommand::Unknown(c) => {
                editor.status_message = concat("Unknown command: ", c.as_str());
                CommandStep::Done
            },
        }
    }
}

impl Editor {
    /// The buffer list's text (see `list_buffers`).
    pub open spec fn list_text(&self) -> Seq<char> {
        if self.buffers@.len() == 0 {
            "No buffers open"@
        } else {
            let all = "Buffers: "@ + crate::editor::buffer_entries(
                self.buffers@,
                self.current_buffer_id,
                self.buffers@.len() as int,
            );
            all.take(crate::text::trim_end(all, all.len() as int))
        }
    }

    /// After the current buffer was written (or could not be): the status says so, and
    /// the editor quits when it was written and that was asked.
    pub fn finish_save(&mut self, written: Result<(), String>, then_quit: bool)
        requires
            old(self).well_formed(),
        ensures
            final(self).well_formed(),
            final(self).buffers@ == old(self).buffers@,
            final(self).current_buffer_id == old(self).current_buffer_id,
            match written {
                Ok(_) => if then_quit && !any_modified(old(self).buffers@) {
                    final(self).should_quit && final(self).status_message@ == "File saved"@
                } else if then_quit {
                    final(self).status_message@ == "Unsaved changes! Use :q! to force quit"@
                } else {
                    final(self).status_message@ == "File saved"@ && final(self).should_quit == old(self).should_quit
                },
                Err(e) => final(self).status_message@ == "Error saving: "@ + e@ && final(self).should_quit == old(
                self).should_quit,
            },
    {
        match written {
            Ok(_) => {
                self.status_message = owned("File saved");
                if then_quit {
                    self.quit();
                }
            },
            Err(e) => {
                self.status_message = concat("Error saving: ", e.as_str());
            },
        }
    }

    /// Opens the file that `:e` named (its text read, or not): the status gives the
    /// outcome.
    pub fn finish_open(&mut self, filename: &str, read: Result<String, anyhow::Error>)
        requires
            old(self).well_formed(),
            old(self).next_buffer_id < usize::MAX,
        ensures
            final(self).well_formed(),
            read matches Ok(_) ==> final(self).buffers@.len() == old(self).buffers@.len() + 1 && final(
            self).current_buffer_id == Some(old(self).next_buffer_id) && final(self).status_message@ == "Opened '"@
                + filename@ + "' in buffer "@ + digits::decimal(old(self).next_buffer_id as nat),
            read is Err ==> final(self).buffers@ == old(self).buffers@ && final(self).status_message@.len() >= 20
                && final(self).status_message@.take(20) == "Error opening file: "@,
    {
        match self.open_file(filename, read) {
            Ok(m) => self.status_message = m,
            Err(e) => {
                let t = concat("Error opening file: ", error_text(&e).as_str());
                proof {
                    reveal_strlit("Error opening file: ");
                    assert(t@.take(20) =~= "Error opening file: "@);
                }
                self.status_message = t;
            },
        }
    }
}


/// `:x` is `:wq`, whatever colons lead either: both read as the same command, and on an
/// editor with a current buffer that command writes it and then quits.
pub proof fn law_x_is_wq(s1: Seq<char>, s2: Seq<char>, r1: ExCommand, r2: ExCommand, e: Editor, f: Editor, step: CommandStep)
    requires
        strip_colons(s1) == "x"@,
        strip_colons(s2) == "wq"@,
        ex_command_of(strip_colons(s1), r1),
        ex_command_of(strip_colons(s2), r2),
    ensures
        r1 == r2,
        e.current_buffer_id is Some && KeyHandler::command_done(e, f, r1, step) ==> step == (CommandStep::Save {
            then_quit: true,
        }),
{
    reveal_strlit("x");
    reveal_strlit("wq");
    reveal_strlit("q");
    reveal_strlit("quit");
    reveal_strlit("q!");
    reveal_strlit("quit!");
    reveal_strlit("w");
    reveal_strlit("write");
    assert("x"@.len() == 1 && "x"@[0] == 'x');
    assert("wq"@.len() == 2 && "wq"@[0] == 'w' && "wq"@[1] == 'q');
    assert("q"@.len() == 1 && "q"@[0] == 'q');
    assert("w"@.len() == 1 && "w"@[0] == 'w');
    assert("q!"@.len() == 2 && "q!"@[0] == 'q');
    assert("quit"@.len() == 4);
    assert("quit!"@.len() == 5);
    assert("write"@.len() == 5);
    assert("x"@ != "q"@ && "x"@ != "quit"@ && "x"@ != "q!"@ && "x"@ != "quit!"@ && "x"@ != "w"@ && "x"@ != "write"@);
    assert("wq"@ != "q"@ && "wq"@ != "quit"@ && "wq"@ != "q!"@ && "wq"@ != "quit!"@ && "wq"@ != "w"@ && "wq"@ != "write"@);
    assert(r1 is WriteQuit);
    assert(r2 is WriteQuit);
}


/// Each Ex command name and its long form run the same command, which does what the
/// name says: `:q`/`:quit` quits unless a buffer has unsaved changes, `:q!`/`:quit!`
/// quits, `:w`/`:write` writes the current buffer without quitting, and `:bn`/`:bnext`
/// and `:bp`/`:bprev`/`:bprevious` go to the next and the previous buffer, round the
/// list of buffers.
pub proof fn law_ex_command_names(s: Seq<char>, r: ExCommand, e: Editor, f: Editor, step: CommandStep)
    requires
        ex_command_of(strip_colons(s), r),
        KeyHandler::command_done(e, f, r, step),
    ensures
        strip_colons(s) == "q"@ || strip_colons(s) == "quit"@ ==> {
            &&& f.buffers@ == e.buffers@
            &&& !any_modified(e.buffers@) ==> f.should_quit
            &&& any_modified(e.buffers@) ==> f.should_quit == e.should_quit
        },
        strip_colons(s) == "q!"@ || strip_colons(s) == "quit!"@ ==> f.should_quit && f.buffers@ == e.buffers@,
        strip_colons(s) == "w"@ || strip_colons(s) == "write"@ ==> {
            &&& f.should_quit == e.should_quit
            &&& f.buffers@ == e.buffers@
            &&& e.current_buffer_id is Some ==> step == (CommandStep::Save { then_quit: false })
        },
        (strip_colons(s) == "bn"@ || strip_colons(s) == "bnext"@) && e.buffers@.len() > 1 ==> f.current_buffer_id
            == Some(e.buffers@[(e.current_pos() + 1) % (e.buffers@.len() as int)].id),
        (strip_colons(s) == "bp"@ || strip_colons(s) == "bprev"@ || strip_colons(s) == "bprevious"@)
            && e.buffers@.len() > 1 ==> f.current_buffer_id == Some(
            e.buffers@[if e.current_pos() == 0 {
                e.buffers@.len() - 1
            } else {
                e.current_pos() - 1
            }].id,
        ),
{
    reveal_strlit("q");
    assert("q"@.len() == 1 && "q"@[0] == 'q');
    reveal_strlit("quit");
    assert("quit"@.len() == 4 && "quit"@[0] == 'q' && "quit"@[1] == 'u');
    reveal_strlit("q!");
    assert("q!"@.len() == 2 && "q!"@[0] == 'q' && "q!"@[1] == '!');
    reveal_strlit("quit!");
    assert("quit!"@.len() == 5 && "quit!"@[0] == 'q' && "quit!"@[1] == 'u');
    reveal_strlit("w");
    assert("w"@.len() == 1 && "w"@[0] == 'w');
    reveal_strlit("write");
    assert("write"@.len() == 5 && "write"@[0] == 'w' && "write"@[1] == 'r');
    reveal_strlit("wq");
    assert("wq"@.len() == 2 && "wq"@[0] == 'w' && "wq"@[1] == 'q');
    reveal_strlit("x");
    assert("x"@.len() == 1 && "x"@[0] == 'x');
    reveal_strlit("set nu");
    assert("set nu"@.len() == 6 && "set nu"@[0] == 's' && "set nu"@[1] == 'e');
    reveal_strlit("set number");
    assert("set number"@.len() == 10 && "set number"@[0] == 's' && "set number"@[1] == 'e');
    reveal_strlit("set nonu");
    assert("set nonu"@.len() == 8 && "set nonu"@[0] == 's' && "set nonu"@[1] == 'e');
    reveal_strlit("set nonumber");
    assert("set nonumber"@.len() == 12 && "set nonumber"@[0] == 's' && "set nonumber"@[1] == 'e');
    reveal_strlit("set rnu");
    assert("set rnu"@.len() == 7 && "set rnu"@[0] == 's' && "set rnu"@[1] == 'e');
    reveal_strlit("set relativenumber");
    assert("set relativenumber"@.len() == 18 && "set relativenumber"@[0] == 's' && "set relativenumber"@[1] == 'e');
    reveal_strlit("set nornu");
    assert("set nornu"@.len() == 9 && "set nornu"@[0] == 's' && "set nornu"@[1] == 'e');
    reveal_strlit("set norelativenumber");
    assert("set norelativenumber"@.len() == 20 && "set norelativenumber"@[0] == 's' && "set norelativenumber"@[1] == 'e');
    reveal_strlit("set nu rnu");
    assert("set nu rnu"@.len() == 10 && "set nu rnu"@[0] == 's' && "set nu rnu"@[1] == 'e');
    reveal_strlit("set number relativenumber");
    assert("set number relativenumber"@.len() == 25 && "set number relativenumber"@[0] == 's' && "set number relativenumber"@[1] == 'e');
    reveal_strlit("set cul");
    assert("set cul"@.len() == 7 && "set cul"@[0] == 's' && "set cul"@[1] == 'e');
    reveal_strlit("set cursorline");
    assert("set cursorline"@.len() == 14 && "set cursorline"@[0] == 's' && "set cursorline"@[1] == 'e');
    reveal_strlit("set nocul");
    assert("set nocul"@.len() == 9 && "set nocul"@[0] == 's' && "set nocul"@[1] == 'e');
    reveal_strlit("set nocursorline");
    assert("set nocursorline"@.len() == 16 && "set nocursorline"@[0] == 's' && "set nocursorline"@[1] == 'e');
    reveal_strlit("bn");
    assert("bn"@.len() == 2 && "bn"@[0] == 'b' && "bn"@[1] == 'n');
    reveal_strlit("bnext");
    assert("bnext"@.len() == 5 && "bnext"@[0] == 'b' && "bnext"@[1] == 'n');
    reveal_strlit("bp");
    assert("bp"@.len() == 2 && "bp"@[0] == 'b' && "bp"@[1] == 'p');
    reveal_strlit("bprev");
    assert("bprev"@.len() == 5 && "bprev"@[0] == 'b' && "bprev"@[1] == 'p');
    reveal_strlit("bprevious");
    assert("bprevious"@.len() == 9 && "bprevious"@[0] == 'b' && "bprevious"@[1] == 'p');
}

} // verus!
