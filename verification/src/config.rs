//! Editor settings: the values read from `editor.toml`, and the `:set` names that
//! change and read them.
use crate::digits;
use crate::digits::{bool_string, decimal_string, parse_bool, parse_u64, parse_usize};
use crate::text;
use crate::text::{concat, owned, str_eq};
use std::collections::HashMap;
use vstd::prelude::*;

verus! {

#[derive(Debug, Clone)]
pub struct EditorConfig {
    pub display: DisplayConfig,
    pub behavior: BehaviorConfig,
    pub editing: EditingConfig,
    pub interface: InterfaceConfig,
}

#[derive(Debug, Clone)]
pub struct DisplayConfig {
    pub show_line_numbers: bool,
    pub show_relative_numbers: bool,
    pub show_cursor_line: bool,
    pub color_scheme: String,
    pub syntax_highlighting: bool,
}

#[derive(Debug, Clone)]
pub struct BehaviorConfig {
    pub tab_width: usize,
    pub expand_tabs: bool,
    pub auto_indent: bool,
    pub ignore_case: bool,
    pub smart_case: bool,
    pub highlight_search: bool,
    pub incremental_search: bool,
    pub wrap_lines: bool,
    pub line_break: bool,
}

#[derive(Debug, Clone)]
pub struct EditingConfig {
    pub undo_levels: usize,
    pub persistent_undo: bool,
    pub backup: bool,
    pub swap_file: bool,
    pub auto_save: bool,
}

#[derive(Debug, Clone)]
pub struct InterfaceConfig {
    pub show_status_line: bool,
    pub status_line_format: String,
    pub command_timeout: u64,
    pub show_command: bool,
    pub scroll_off: usize,
    pub side_scroll_off: usize,
    pub window_resize_amount: u16,
}

/// The settings that `:set` names.
#[derive(Debug, Clone, Copy, PartialEq, Eq, Structural)]
pub enum Setting {
    Number,
    RelativeNumber,
    CursorLine,
    IgnoreCase,
    SmartCase,
    HlSearch,
    ExpandTab,
    TabStop,
    AutoIndent,
    IncSearch,
    Wrap,
    LineBreak,
    UndoLevels,
    UndoFile,
    Backup,
    SwapFile,
    AutoSave,
    LastStatus,
    ShowCmd,
    ScrollOff,
    SideScrollOff,
    TimeoutLen,
    ColorScheme,
    Syntax,
}

/// The setting a name or its short form stands for.
pub open spec fn setting_named(s: Seq<char>) -> Option<Setting> {
    if s == "number"@ || s == "nu"@ {
        Some(Setting::Number)
    } else if s == "relativenumber"@ || s == "rnu"@ {
        Some(Setting::RelativeNumber)
    } else if s == "cursorline"@ || s == "cul"@ {
        Some(Setting::CursorLine)
    } else if s == "ignorecase"@ || s == "ic"@ {
        Some(Setting::IgnoreCase)
    } else if s == "smartcase"@ || s == "scs"@ {
        Some(Setting::SmartCase)
    } else if s == "hlsearch"@ || s == "hls"@ {
        Some(Setting::HlSearch)
    } else if s == "expandtab"@ || s == "et"@ {
        Some(Setting::ExpandTab)
    } else if s == "tabstop"@ || s == "ts"@ {
        Some(Setting::TabStop)
    } else if s == "autoindent"@ || s == "ai"@ {
        Some(Setting::AutoIndent)
    } else if s == "incsearch"@ || s == "is"@ {
        Some(Setting::IncSearch)
    } else if s == "wrap"@ {
        Some(Setting::Wrap)
    } else if s == "linebreak"@ || s == "lbr"@ {
        Some(Setting::LineBreak)
    } else if s == "undolevels"@ || s == "ul"@ {
        Some(Setting::UndoLevels)
    } else if s == "undofile"@ || s == "udf"@ {
        Some(Setting::UndoFile)
    } else if s == "backup"@ || s == "bk"@ {
        Some(Setting::Backup)
    } else if s == "swapfile"@ || s == "swf"@ {
        Some(Setting::SwapFile)
    } else if s == "autosave"@ || s == "aw"@ {
        Some(Setting::AutoSave)
    } else if s == "laststatus"@ || s == "ls"@ {
        Some(Setting::LastStatus)
    } else if s == "showcmd"@ || s == "sc"@ {
        Some(Setting::ShowCmd)
    } else if s == "scrolloff"@ || s == "so"@ {
        Some(Setting::ScrollOff)
    } else if s == "sidescrolloff"@ || s == "siso"@ {
        Some(Setting::SideScrollOff)
    } else if s == "timeoutlen"@ || s == "tm"@ {
        Some(Setting::TimeoutLen)
    } else if s == "colorscheme"@ || s == "colo"@ {
        Some(Setting::ColorScheme)
    } else if s == "syntax"@ || s == "syn"@ {
        Some(Setting::Syntax)
    } else {
        None
    }
}

/// The full name of a setting.
pub open spec fn setting_name(k: Setting) -> Seq<char> {
    match k {
        Setting::Number => "number"@,
        Setting::RelativeNumber => "relativenumber"@,
        Setting::CursorLine => "cursorline"@,
        Setting::IgnoreCase => "ignorecase"@,
        Setting::SmartCase => "smartcase"@,
        Setting::HlSearch => "hlsearch"@,
        Setting::ExpandTab => "expandtab"@,
        Setting::TabStop => "tabstop"@,
        Setting::AutoIndent => "autoindent"@,
        Setting::IncSearch => "incsearch"@,
        Setting::Wrap => "wrap"@,
        Setting::LineBreak => "linebreak"@,
        Setting::UndoLevels => "undolevels"@,
        Setting::UndoFile => "undofile"@,
        Setting::Backup => "backup"@,
        Setting::SwapFile => "swapfile"@,
        Setting::AutoSave => "autosave"@,
        Setting::LastStatus => "laststatus"@,
        Setting::ShowCmd => "showcmd"@,
        Setting::ScrollOff => "scrolloff"@,
        Setting::SideScrollOff => "sidescrolloff"@,
        Setting::TimeoutLen => "timeoutlen"@,
        Setting::ColorScheme => "colorscheme"@,
        Setting::Syntax => "syntax"@,
    }
}

/// A setting that is on or off.
pub open spec fn is_flag(k: Setting) -> bool {
    match k {
        Setting::TabStop | Setting::UndoLevels | Setting::ScrollOff | Setting::SideScrollOff | Setting::TimeoutLen | Setting::ColorScheme => false,
        _ => true,
    }
}

/// A setting that holds a count.
pub open spec fn is_count(k: Setting) -> bool {
    match k {
        Setting::TabStop | Setting::UndoLevels | Setting::ScrollOff | Setting::SideScrollOff | Setting::TimeoutLen => true,
        _ => false,
    }
}

/// What a flag becomes when the value given for it is neither `true` nor `false`.
pub open spec fn flag_default(k: Setting) -> bool {
    match k {
        Setting::Number | Setting::HlSearch | Setting::AutoIndent | Setting::IncSearch | Setting::LastStatus | Setting::ShowCmd | Setting::Syntax => true,
        _ => false,
    }
}

/// The words that name a flag in the message `set_setting` answers.
pub open spec fn flag_label(k: Setting) -> Seq<char> {
    match k {
        Setting::Number => "Line numbers"@,
        Setting::RelativeNumber => "Relative line numbers"@,
        Setting::CursorLine => "Cursor line"@,
        Setting::IgnoreCase => "Ignore case"@,
        Setting::SmartCase => "Smart case"@,
        Setting::HlSearch => "Search highlighting"@,
        Setting::ExpandTab => "Expand tabs"@,
        Setting::AutoIndent => "Auto indent"@,
        Setting::IncSearch => "Incremental search"@,
        Setting::Wrap => "Line wrap"@,
        Setting::LineBreak => "Line break"@,
        Setting::UndoFile => "Persistent undo"@,
        Setting::Backup => "Backup files"@,
        Setting::SwapFile => "Swap file"@,
        Setting::AutoSave => "Auto save"@,
        Setting::LastStatus => "Status line"@,
        Setting::ShowCmd => "Show command"@,
        Setting::Syntax => "Syntax highlighting"@,
        _ => ""@,
    }
}

/// The largest value a count setting holds.
pub open spec fn count_max(k: Setting) -> nat {
    match k {
        Setting::TimeoutLen => u64::MAX as nat,
        _ => usize::MAX as nat,
    }
}

/// The message `set_setting` answers when a count is set to `n`.
pub open spec fn count_message(k: Setting, n: nat) -> Seq<char> {
    match k {
        Setting::TabStop => "Tab width: "@ + digits::decimal(n),
        Setting::UndoLevels => "Undo levels: "@ + digits::decimal(n),
        Setting::ScrollOff => "Scroll offset: "@ + digits::decimal(n),
        Setting::SideScrollOff => "Side scroll offset: "@ + digits::decimal(n),
        Setting::TimeoutLen => "Command timeout: "@ + digits::decimal(n) + " ms"@,
        _ => Seq::empty(),
    }
}

/// The error `set_setting` answers when a count's value is not a number it can hold.
pub open spec fn count_error(k: Setting) -> Seq<char> {
    match k {
        Setting::TabStop => "Invalid tab width"@,
        Setting::UndoLevels => "Invalid undo levels"@,
        Setting::ScrollOff => "Invalid scroll offset"@,
        Setting::SideScrollOff => "Invalid side scroll offset"@,
        Setting::TimeoutLen => "Invalid timeout value"@,
        _ => ""@,
    }
}

/// `enabled` or `disabled`.
pub open spec fn state_word(b: bool) -> Seq<char> {
    if b {
        "enabled"@
    } else {
        "disabled"@
    }
}

/// The value a flag takes from the text given for it.
pub open spec fn flag_after(k: Setting, value: Seq<char>) -> bool {
    match digits::parse_bool_spec(value) {
        Some(b) => b,
        None => flag_default(k),
    }
}

/// `after` is `before` with the setting set to the value (unchanged when the setting
/// is unknown or the value is no valid count).
pub open spec fn applies_setting(before: EditorConfig, after: EditorConfig, setting: Seq<char>, value: Seq<char>) -> bool {
    match setting_named(setting) {
        None => after == before,
        Some(k) => if is_flag(k) {
            after == before.with_flag(k, flag_after(k, value))
        } else if is_count(k) {
            match digits::parse_unsigned(value, count_max(k)) {
                Some(n) => after == before.with_count(k, n),
                None => after == before,
            }
        } else {
            after.display.color_scheme@ == value && after == before.with_color(after.display.color_scheme)
        },
    }
}

impl EditorConfig {
    /// The value of a flag setting.
    pub open spec fn flag(&self, k: Setting) -> bool {
        match k {
            Setting::Number => self.display.show_line_numbers,
            Setting::RelativeNumber => self.display.show_relative_numbers,
            Setting::CursorLine => self.display.show_cursor_line,
            Setting::IgnoreCase => self.behavior.ignore_case,
            Setting::SmartCase => self.behavior.smart_case,
            Setting::HlSearch => self.behavior.highlight_search,
            Setting::ExpandTab => self.behavior.expand_tabs,
            Setting::AutoIndent => self.behavior.auto_indent,
            Setting::IncSearch => self.behavior.incremental_search,
            Setting::Wrap => self.behavior.wrap_lines,
            Setting::LineBreak => self.behavior.line_break,
            Setting::UndoFile => self.editing.persistent_undo,
            Setting::Backup => self.editing.backup,
            Setting::SwapFile => self.editing.swap_file,
            Setting::AutoSave => self.editing.auto_save,
            Setting::LastStatus => self.interface.show_status_line,
            Setting::ShowCmd => self.interface.show_command,
            Setting::Syntax => self.display.syntax_highlighting,
            _ => false,
        }
    }

    /// The value of a count setting.
    pub open spec fn count(&self, k: Setting) -> nat {
        match k {
            Setting::TabStop => self.behavior.tab_width as nat,
            Setting::UndoLevels => self.editing.undo_levels as nat,
            Setting::ScrollOff => self.interface.scroll_off as nat,
            Setting::SideScrollOff => self.interface.side_scroll_off as nat,
            Setting::TimeoutLen => self.interface.command_timeout as nat,
            _ => 0,
        }
    }

    /// `self` with the flag `k` set to `b`.
    pub open spec fn with_flag(self, k: Setting, b: bool) -> EditorConfig {
        EditorConfig {
            display: self.display.with_flag(k, b),
            behavior: self.behavior.with_flag(k, b),
            editing: self.editing.with_flag(k, b),
            interface: self.interface.with_flag(k, b),
        }
    }

    /// `self` with the count `k` set to `n`.
    pub open spec fn with_count(self, k: Setting, n: nat) -> EditorConfig {
        EditorConfig {
            display: self.display,
            behavior: self.behavior.with_count(k, n),
            editing: self.editing.with_count(k, n),
            interface: self.interface.with_count(k, n),
        }
    }

    /// `self` with the color scheme `s`.
    pub open spec fn with_color(self, s: String) -> EditorConfig {
        EditorConfig {
            display: DisplayConfig {
                show_line_numbers: self.display.show_line_numbers,
                show_relative_numbers: self.display.show_relative_numbers,
                show_cursor_line: self.display.show_cursor_line,
                color_scheme: s,
                syntax_highlighting: self.display.syntax_highlighting,
            },
            behavior: self.behavior,
            editing: self.editing,
            interface: self.interface,
        }
    }

    /// What `get_config_value` reads for a setting name.
    pub open spec fn value_text(&self, name: Seq<char>) -> Option<Seq<char>> {
        match setting_named(name) {
            None => None,
            Some(k) => Some(
                if is_flag(k) {
                    digits::bool_text(self.flag(k))
                } else if is_count(k) {
                    digits::decimal(self.count(k))
                } else {
                    self.display.color_scheme@
                },
            ),
        }
    }
}

impl DisplayConfig {
    pub open spec fn with_flag(self, k: Setting, b: bool) -> DisplayConfig {
        DisplayConfig {
            show_line_numbers: if k == Setting::Number { b } else { self.show_line_numbers },
            show_relative_numbers: if k == Setting::RelativeNumber { b } else { self.show_relative_numbers },
            show_cursor_line: if k == Setting::CursorLine { b } else { self.show_cursor_line },
            color_scheme: self.color_scheme,
            syntax_highlighting: if k == Setting::Syntax { b } else { self.syntax_highlighting },
        }
    }

    fn set_flag(&mut self, k: Setting, b: bool)
        ensures
            *final(self) == old(self).with_flag(k, b),
    {
        self.show_line_numbers = if k == Setting::Number { b } else { self.show_line_numbers };
        self.show_relative_numbers = if k == Setting::RelativeNumber { b } else { self.show_relative_numbers };
        self.show_cursor_line = if k == Setting::CursorLine { b } else { self.show_cursor_line };
        self.syntax_highlighting = if k == Setting::Syntax { b } else { self.syntax_highlighting };
    }
}

impl BehaviorConfig {
    pub open spec fn with_flag(self, k: Setting, b: bool) -> BehaviorConfig {
        BehaviorConfig {
            tab_width: self.tab_width,
            expand_tabs: if k == Setting::ExpandTab { b } else { self.expand_tabs },
            auto_indent: if k == Setting::AutoIndent { b } else { self.auto_indent },
            ignore_case: if k == Setting::IgnoreCase { b } else { self.ignore_case },
            smart_case: if k == Setting::SmartCase { b } else { self.smart_case },
            highlight_search: if k == Setting::HlSearch { b } else { self.highlight_search },
            incremental_search: if k == Setting::IncSearch { b } else { self.incremental_search },
            wrap_lines: if k == Setting::Wrap { b } else { self.wrap_lines },
            line_break: if k == Setting::LineBreak { b } else { self.line_break },
        }
    }

    fn set_flag(&mut self, k: Setting, b: bool)
        ensures
            *final(self) == old(self).with_flag(k, b),
    {
        self.expand_tabs = if k == Setting::ExpandTab { b } else { self.expand_tabs };
        self.auto_indent = if k == Setting::AutoIndent { b } else { self.auto_indent };
        self.ignore_case = if k == Setting::IgnoreCase { b } else { self.ignore_case };
        self.smart_case = if k == Setting::SmartCase { b } else { self.smart_case };
        self.highlight_search = if k == Setting::HlSearch { b } else { self.highlight_search };
        self.incremental_search = if k == Setting::IncSearch { b } else { self.incremental_search };
        self.wrap_lines = if k == Setting::Wrap { b } else { self.wrap_lines };
        self.line_break = if k == Setting::LineBreak { b } else { self.line_break };
    }

    pub open spec fn with_count(self, k: Setting, n: nat) -> BehaviorConfig {
        BehaviorConfig {
            tab_width: if k == Setting::TabStop { n as usize } else { self.tab_width },
            expand_tabs: self.expand_tabs,
            auto_indent: self.auto_indent,
            ignore_case: self.ignore_case,
            smart_case: self.smart_case,
            highlight_search: self.highlight_search,
            incremental_search: self.incremental_search,
            wrap_lines: self.wrap_lines,
            line_break: self.line_break,
        }
    }

    fn set_count(&mut self, k: Setting, n: u64)
        requires
            n <= count_max(k),
        ensures
            *final(self) == old(self).with_count(k, n as nat),
    {
        self.tab_width = if k == Setting::TabStop { n as usize } else { self.tab_width };
    }
}

impl EditingConfig {
    pub open spec fn with_flag(self, k: Setting, b: bool) -> EditingConfig {
        EditingConfig {
            undo_levels: self.undo_levels,
            persistent_undo: if k == Setting::UndoFile { b } else { self.persistent_undo },
            backup: if k == Setting::Backup { b } else { self.backup },
            swap_file: if k == Setting::SwapFile { b } else { self.swap_file },
            auto_save: if k == Setting::AutoSave { b } else { self.auto_save },
        }
    }

    fn set_flag(&mut self, k: Setting, b: bool)
        ensures
            *final(self) == old(self).with_flag(k, b),
    {
        self.persistent_undo = if k == Setting::UndoFile { b } else { self.persistent_undo };
        self.backup = if k == Setting::Backup { b } else { self.backup };
        self.swap_file = if k == Setting::SwapFile { b } else { self.swap_file };
        self.auto_save = if k == Setting::AutoSave { b } else { self.auto_save };
    }

    pub open spec fn with_count(self, k: Setting, n: nat) -> EditingConfig {
        EditingConfig {
            undo_levels: if k == Setting::UndoLevels { n as usize } else { self.undo_levels },
            persistent_undo: self.persistent_undo,
            backup: self.backup,
            swap_file: self.swap_file,
            auto_save: self.auto_save,
        }
    }

    fn set_count(&mut self, k: Setting, n: u64)
        requires
            n <= count_max(k),
        ensures
            *final(self) == old(self).with_count(k, n as nat),
    {
        self.undo_levels = if k == Setting::UndoLevels { n as usize } else { self.undo_levels };
    }
}

impl InterfaceConfig {
    pub open spec fn with_flag(self, k: Setting, b: bool) -> InterfaceConfig {
        InterfaceConfig {
            show_status_line: if k == Setting::LastStatus { b } else { self.show_status_line },
            status_line_format: self.status_line_format,
            command_timeout: self.command_timeout,
            show_command: if k == Setting::ShowCmd { b } else { self.show_command },
            scroll_off: self.scroll_off,
            side_scroll_off: self.side_scroll_off,
            window_resize_amount: self.window_resize_amount,
        }
    }

    fn set_flag(&mut self, k: Setting, b: bool)
        ensures
            *final(self) == old(self).with_flag(k, b),
    {
        self.show_status_line = if k == Setting::LastStatus { b } else { self.show_status_line };
        self.show_command = if k == Setting::ShowCmd { b } else { self.show_command };
    }

    pub open spec fn with_count(self, k: Setting, n: nat) -> InterfaceConfig {
        InterfaceConfig {
            show_status_line: self.show_status_line,
            status_line_format: self.status_line_format,
            command_timeout: if k == Setting::TimeoutLen { n as u64 } else { self.command_timeout },
            show_command: self.show_command,
            scroll_off: if k == Setting::ScrollOff { n as usize } else { self.scroll_off },
            side_scroll_off: if k == Setting::SideScrollOff { n as usize } else { self.side_scroll_off },
            window_resize_amount: self.window_resize_amount,
        }
    }

    fn set_count(&mut self, k: Setting, n: u64)
        requires
            n <= count_max(k),
        ensures
            *final(self) == old(self).with_count(k, n as nat),
    {
        self.command_timeout = if k == Setting::TimeoutLen { n } else { self.command_timeout };
        self.scroll_off = if k == Setting::ScrollOff { n as usize } else { self.scroll_off };
        self.side_scroll_off = if k == Setting::SideScrollOff { n as usize } else { self.side_scroll_off };
    }
}

impl Default for EditorConfig {
    fn default() -> (c: Self)
        ensures
            c.display.show_line_numbers && !c.display.show_relative_numbers && !c.display.show_cursor_line,
            c.display.color_scheme@ == "default"@,
            c.display.syntax_highlighting,
            c.behavior.tab_width == 4 && !c.behavior.expand_tabs && c.behavior.auto_indent,
            !c.behavior.ignore_case && !c.behavior.smart_case && c.behavior.highlight_search,
            c.behavior.incremental_search && !c.behavior.wrap_lines && !c.behavior.line_break,
            c.editing.undo_levels == 1000 && !c.editing.persistent_undo && !c.editing.backup,
            !c.editing.swap_file && !c.editing.auto_save,
            c.interface.show_status_line && c.interface.status_line_format@ == "default"@,
            c.interface.command_timeout == 1000 && c.interface.show_command,
            c.interface.scroll_off == 0 && c.interface.side_scroll_off == 0,
            c.interface.window_resize_amount == 1,
    {
        Self {
            display: DisplayConfig {
                show_line_numbers: true,
                show_relative_numbers: false,
                show_cursor_line: false,
                color_scheme: owned("default"),
                syntax_highlighting: true,
            },
            behavior: BehaviorConfig {
                tab_width: 4,
                expand_tabs: false,
                auto_indent: true,
                ignore_case: false,
                smart_case: false,
                highlight_search: true,
                incremental_search: true,
                wrap_lines: false,
                line_break: false,
            },
            editing: EditingConfig {
                undo_levels: 1000,
                persistent_undo: false,
                backup: false,
                swap_file: false,
                auto_save: false,
            },
            interface: InterfaceConfig {
                show_status_line: true,
                status_line_format: owned("default"),
                command_timeout: 1000,
                show_command: true,
                scroll_off: 0,
                side_scroll_off: 0,
                window_resize_amount: 1,
            },
        }
    }
}

/// The setting a name or its short form stands for.
pub fn setting_from_name(name: &str) -> (r: Option<Setting>)
    ensures
        r == setting_named(name@),
{
    if str_eq(name, "number") || str_eq(name, "nu") {
        Some(Setting::Number)
    } else if str_eq(name, "relativenumber") || str_eq(name, "rnu") {
        Some(Setting::RelativeNumber)
    } else if str_eq(name, "cursorline") || str_eq(name, "cul") {
        Some(Setting::CursorLine)
    } else if str_eq(name, "ignorecase") || str_eq(name, "ic") {
        Some(Setting::IgnoreCase)
    } else if str_eq(name, "smartcase") || str_eq(name, "scs") {
        Some(Setting::SmartCase)
    } else if str_eq(name, "hlsearch") || str_eq(name, "hls") {
        Some(Setting::HlSearch)
    } else if str_eq(name, "expandtab") || str_eq(name, "et") {
        Some(Setting::ExpandTab)
    } else if str_eq(name, "tabstop") || str_eq(name, "ts") {
        Some(Setting::TabStop)
    } else if str_eq(name, "autoindent") || str_eq(name, "ai") {
        Some(Setting::AutoIndent)
    } else if str_eq(name, "incsearch") || str_eq(name, "is") {
        Some(Setting::IncSearch)
    } else if str_eq(name, "wrap") {
        Some(Setting::Wrap)
    } else if str_eq(name, "linebreak") || str_eq(name, "lbr") {
        Some(Setting::LineBreak)
    } else if str_eq(name, "undolevels") || str_eq(name, "ul") {
        Some(Setting::UndoLevels)
    } else if str_eq(name, "undofile") || str_eq(name, "udf") {
        Some(Setting::UndoFile)
    } else if str_eq(name, "backup") || str_eq(name, "bk") {
        Some(Setting::Backup)
    } else if str_eq(name, "swapfile") || str_eq(name, "swf") {
        Some(Setting::SwapFile)
    } else if str_eq(name, "autosave") || str_eq(name, "aw") {
        Some(Setting::AutoSave)
    } else if str_eq(name, "laststatus") || str_eq(name, "ls") {
        Some(Setting::LastStatus)
    } else if str_eq(name, "showcmd") || str_eq(name, "sc") {
        Some(Setting::ShowCmd)
    } else if str_eq(name, "scrolloff") || str_eq(name, "so") {
        Some(Setting::ScrollOff)
    } else if str_eq(name, "sidescrolloff") || str_eq(name, "siso") {
        Some(Setting::SideScrollOff)
    } else if str_eq(name, "timeoutlen") || str_eq(name, "tm") {
        Some(Setting::TimeoutLen)
    } else if str_eq(name, "colorscheme") || str_eq(name, "colo") {
        Some(Setting::ColorScheme)
    } else if str_eq(name, "syntax") || str_eq(name, "syn") {
        Some(Setting::Syntax)
    } else {
        None
    }
}

/// The full name of a setting.
pub fn name_of_setting(k: Setting) -> (s: &'static str)
    ensures
        s@ == setting_name(k),
{
    match k {
        Setting::Number => "number",
        Setting::RelativeNumber => "relativenumber",
        Setting::CursorLine => "cursorline",
        Setting::IgnoreCase => "ignorecase",
        Setting::SmartCase => "smartcase",
        Setting::HlSearch => "hlsearch",
        Setting::ExpandTab => "expandtab",
        Setting::TabStop => "tabstop",
        Setting::AutoIndent => "autoindent",
        Setting::IncSearch => "incsearch",
        Setting::Wrap => "wrap",
        Setting::LineBreak => "linebreak",
        Setting::UndoLevels => "undolevels",
        Setting::UndoFile => "undofile",
        Setting::Backup => "backup",
        Setting::SwapFile => "swapfile",
        Setting::AutoSave => "autosave",
        Setting::LastStatus => "laststatus",
        Setting::ShowCmd => "showcmd",
        Setting::ScrollOff => "scrolloff",
        Setting::SideScrollOff => "sidescrolloff",
        Setting::TimeoutLen => "timeoutlen",
        Setting::ColorScheme => "colorscheme",
        Setting::Syntax => "syntax",
    }
}

pub fn setting_is_flag(k: Setting) -> (b: bool)
    ensures
        b == is_flag(k),
{
    match k {
        Setting::TabStop | Setting::UndoLevels | Setting::ScrollOff | Setting::SideScrollOff | Setting::TimeoutLen | Setting::ColorScheme => false,
        _ => true,
    }
}

pub fn setting_is_count(k: Setting) -> (b: bool)
    ensures
        b == is_count(k),
{
    match k {
        Setting::TabStop | Setting::UndoLevels | Setting::ScrollOff | Setting::SideScrollOff | Setting::TimeoutLen => true,
        _ => false,
    }
}

fn default_flag(k: Setting) -> (b: bool)
    ensures
        b == flag_default(k),
{
    match k {
        Setting::Number | Setting::HlSearch | Setting::AutoIndent | Setting::IncSearch | Setting::LastStatus | Setting::ShowCmd | Setting::Syntax => true,
        _ => false,
    }
}

pub fn flag_label_text(k: Setting) -> (s: &'static str)
    ensures
        s@ == flag_label(k),
{
    match k {
        Setting::Number => "Line numbers",
        Setting::RelativeNumber => "Relative line numbers",
        Setting::CursorLine => "Cursor line",
        Setting::IgnoreCase => "Ignore case",
        Setting::SmartCase => "Smart case",
        Setting::HlSearch => "Search highlighting",
        Setting::ExpandTab => "Expand tabs",
        Setting::AutoIndent => "Auto indent",
        Setting::IncSearch => "Incremental search",
        Setting::Wrap => "Line wrap",
        Setting::LineBreak => "Line break",
        Setting::UndoFile => "Persistent undo",
        Setting::Backup => "Backup files",
        Setting::SwapFile => "Swap file",
        Setting::AutoSave => "Auto save",
        Setting::LastStatus => "Status line",
        Setting::ShowCmd => "Show command",
        Setting::Syntax => "Syntax highlighting",
        _ => "",
    }
}

fn count_fits_usize(k: Setting) -> (b: bool)
    ensures
        b == (k != Setting::TimeoutLen),
{
    match k {
        Setting::TimeoutLen => false,
        _ => true,
    }
}

fn count_error_text(k: Setting) -> (s: &'static str)
    ensures
        s@ == count_error(k),
{
    match k {
        Setting::TabStop => "Invalid tab width",
        Setting::UndoLevels => "Invalid undo levels",
        Setting::ScrollOff => "Invalid scroll offset",
        Setting::SideScrollOff => "Invalid side scroll offset",
        Setting::TimeoutLen => "Invalid timeout value",
        _ => "",
    }
}

fn count_text(k: Setting, n: u64) -> (s: String)
    ensures
        s@ == count_message(k, n as nat),
{
    match k {
        Setting::TabStop => concat("Tab width: ", decimal_string(n).as_str()),
        Setting::UndoLevels => concat("Undo levels: ", decimal_string(n).as_str()),
        Setting::ScrollOff => concat("Scroll offset: ", decimal_string(n).as_str()),
        Setting::SideScrollOff => concat("Side scroll offset: ", decimal_string(n).as_str()),
        Setting::TimeoutLen => {
            let head = concat("Command timeout: ", decimal_string(n).as_str());
            concat(head.as_str(), " ms")
        },
        _ => String::new(),
    }
}

impl EditorConfig {
    fn flag_value(&self, k: Setting) -> (b: bool)
        ensures
            b == self.flag(k),
    {
        match k {
            Setting::Number => self.display.show_line_numbers,
            Setting::RelativeNumber => self.display.show_relative_numbers,
            Setting::CursorLine => self.display.show_cursor_line,
            Setting::IgnoreCase => self.behavior.ignore_case,
            Setting::SmartCase => self.behavior.smart_case,
            Setting::HlSearch => self.behavior.highlight_search,
            Setting::ExpandTab => self.behavior.expand_tabs,
            Setting::AutoIndent => self.behavior.auto_indent,
            Setting::IncSearch => self.behavior.incremental_search,
            Setting::Wrap => self.behavior.wrap_lines,
            Setting::LineBreak => self.behavior.line_break,
            Setting::UndoFile => self.editing.persistent_undo,
            Setting::Backup => self.editing.backup,
            Setting::SwapFile => self.editing.swap_file,
            Setting::AutoSave => self.editing.auto_save,
            Setting::LastStatus => self.interface.show_status_line,
            Setting::ShowCmd => self.interface.show_command,
            Setting::Syntax => self.display.syntax_highlighting,
            _ => false,
        }
    }

    fn count_value(&self, k: Setting) -> (n: u64)
        requires
            is_count(k),
        ensures
            n as nat == self.count(k),
    {
        match k {
            Setting::TabStop => self.behavior.tab_width as u64,
            Setting::UndoLevels => self.editing.undo_levels as u64,
            Setting::ScrollOff => self.interface.scroll_off as u64,
            Setting::SideScrollOff => self.interface.side_scroll_off as u64,
            Setting::TimeoutLen => self.interface.command_timeout,
            _ => 0,
        }
    }

    pub(crate) fn set_flag(&mut self, k: Setting, b: bool)
        ensures
            *final(self) == old(self).with_flag(k, b),
    {
        self.display.set_flag(k, b);
        self.behavior.set_flag(k, b);
        self.editing.set_flag(k, b);
        self.interface.set_flag(k, b);
    }

    pub(crate) fn set_count(&mut self, k: Setting, n: u64)
        requires
            n <= count_max(k),
        ensures
            *final(self) == old(self).with_count(k, n as nat),
    {
        self.behavior.set_count(k, n);
        self.editing.set_count(k, n);
        self.interface.set_count(k, n);
    }

    /// Update a setting and return success status: the message for the status line,
    /// or the reason the setting was not changed.
    pub fn set_setting(&mut self, setting: &str, value: &str) -> (r: Result<String, String>)
        ensures
            applies_setting(*old(self), *final(self), setting@, value@),
            match setting_named(setting@) {
                None => r matches Err(e) && e@ == "Unknown setting: "@ + setting@ && *final(self) == *old(self),
                Some(k) => if is_flag(k) {
                    let b = flag_after(k, value@);
                    &&& *final(self) == old(self).with_flag(k, b)
                    &&& r matches Ok(m) && m@ == flag_label(k) + ": "@ + state_word(b)
                } else if is_count(k) {
                    match digits::parse_unsigned(value@, count_max(k)) {
                        Some(n) => {
                            &&& *final(self) == old(self).with_count(k, n)
                            &&& r matches Ok(m) && m@ == count_message(k, n)
                        },
                        None => r matches Err(e) && e@ == count_error(k) && *final(self) == *old(self),
                    }
                } else {
                    &&& final(self).display.color_scheme@ == value@
                    &&& *final(self) == old(self).with_color(final(self).display.color_scheme)
                    &&& r matches Ok(m) && m@ == "Color scheme: "@ + value@
                },
            },
    {
        let k = match setting_from_name(setting) {
            Some(k) => k,
            None => return Err(concat("Unknown setting: ", setting)),
        };
        if setting_is_flag(k) {
            let b = match parse_bool(value) {
                Some(b) => b,
                None => default_flag(k),
            };
            self.set_flag(k, b);
            let head = concat(flag_label_text(k), ": ");
            Ok(concat(head.as_str(), if b { "enabled" } else { "disabled" }))
        } else if setting_is_count(k) {
            let parsed: Option<u64> = if count_fits_usize(k) {
                match parse_usize(value) {
                    Some(n) => Some(n as u64),
                    None => None,
                }
            } else {
                parse_u64(value)
            };
            match parsed {
                Some(n) => {
                    self.set_count(k, n);
                    Ok(count_text(k, n))
                },
                None => Err(owned(count_error_text(k))),
            }
        } else {
            self.display.color_scheme = owned(value);
            Ok(concat("Color scheme: ", value))
        }
    }

    /// The current value of a setting as text (`true`/`false`, a number, or the color
    /// scheme's name), or `None` for a name that is no setting.
    pub fn get_config_value(&self, setting: &str) -> (r: Option<String>)
        ensures
            match r {
                Some(s) => self.value_text(setting@) == Some(s@),
                None => self.value_text(setting@) is None,
            },
    {
        match setting_from_name(setting) {
            None => None,
            Some(k) => if setting_is_flag(k) {
                Some(bool_string(self.flag_value(k)))
            } else if setting_is_count(k) {
                Some(decimal_string(self.count_value(k)))
            } else {
                Some(owned(self.display.color_scheme.as_str()))
            },
        }
    }
}

/// Legacy config types for backwards compatibility
#[derive(Debug, Clone)]
pub struct Config {
    pub settings: HashMap<String, ConfigValue>,
    pub keymaps: HashMap<String, String>,
    pub plugins: Vec<String>,
}

#[derive(Debug, Clone)]
pub enum ConfigValue {
    Bool(bool),
    Int(i64),
    String(String),
    List(Vec<String>),
}

} // verus!
