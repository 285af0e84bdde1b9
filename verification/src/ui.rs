//! Drawing the editor: what the screen shows of the current buffer, the status line
//! and the command line, as a list of drawing steps that the terminal carries out.
use crate::color::{hex_fields_cut_cleanly, Color};
use crate::digits;
use crate::editor::{path_display, path_text, Editor};
use crate::engine::buffer::Buffer;
use crate::mode::Mode;
use crate::syntax::{text_color, HighlightRange};
use crate::text;
use crate::text::{concat, owned, spaces};
use crate::theme::{ThemeConfig, UITheme};
use vstd::prelude::*;
use vstd::string::StringSliceAdditionalSpecFns;
use vstd::utf8::{decode_utf8, encode_utf8, is_char_boundary, valid_utf8};

verus! {

/// One drawing step for the terminal.
#[derive(Debug, Clone)]
pub enum DrawOp {
    MoveTo { row: usize, col: usize },
    ClearLine,
    SetFg(Color),
    SetBg(Color),
    ResetColor,
    Print(String),
    HideCursor,
    ShowCursor,
}

/// A drawing step with its text as characters.
pub enum Drawn {
    MoveTo(usize, usize),
    ClearLine,
    SetFg(Color),
    SetBg(Color),
    ResetColor,
    Print(Seq<char>),
    HideCursor,
    ShowCursor,
}

pub open spec fn drawn(op: DrawOp) -> Drawn {
    match op {
        DrawOp::MoveTo { row, col } => Drawn::MoveTo(row, col),
        DrawOp::ClearLine => Drawn::ClearLine,
        DrawOp::SetFg(c) => Drawn::SetFg(c),
        DrawOp::SetBg(c) => Drawn::SetBg(c),
        DrawOp::ResetColor => Drawn::ResetColor,
        DrawOp::Print(s) => Drawn::Print(s@),
        DrawOp::HideCursor => Drawn::HideCursor,
        DrawOp::ShowCursor => Drawn::ShowCursor,
    }
}

/// The steps, each with its text as characters.
pub open spec fn all_drawn(ops: Seq<DrawOp>) -> Seq<Drawn> {
    ops.map_values(|o: DrawOp| drawn(o))
}

/// Adds a step.
fn emit(ops: &mut Vec<DrawOp>, op: DrawOp)
    ensures
        all_drawn(final(ops)@) == all_drawn(old(ops)@).push(drawn(op)),
{
    let ghost d = drawn(op);
    ops.push(op);
    assert(all_drawn(ops@) =~= all_drawn(old(ops)@).push(d));
}

/// `n` spaces.
pub open spec fn spaces_of(n: nat) -> Seq<char> {
    Seq::new(n, |i: int| ' ')
}

/// `s` right-aligned in `w` columns (longer text is kept whole).
pub open spec fn pad_left(s: Seq<char>, w: nat) -> Seq<char> {
    if s.len() < w {
        spaces_of((w - s.len()) as nat) + s
    } else {
        s
    }
}

/// The width of the line number column when numbers are shown: the digits of the
/// line count and a space, at least four.
pub open spec fn number_column(shown: bool, line_count: nat) -> nat {
    if !shown {
        0
    } else if digits::decimal(line_count).len() + 1 > 4 {
        digits::decimal(line_count).len() + 1
    } else {
        4
    }
}

/// The number beside buffer row `row`: with relative numbers its distance to the
/// cursor row (the cursor row keeps its own number), else its number counted from one.
pub open spec fn row_label(row: nat, cursor_row: nat, relative: bool) -> nat {
    if relative && row != cursor_row {
        if row > cursor_row {
            (row - cursor_row) as nat
        } else {
            (cursor_row - row) as nat
        }
    } else {
        row + 1
    }
}

/// The colors of the configuration's current theme (of its first theme when the
/// current one is missing, of the emergency theme when there is none).
pub open spec fn current_ui(themes: ThemeConfig, u: UITheme) -> bool {
    match themes.current_theme_of() {
        Some(t) => u == crate::theme::ui_theme_of(t.ui),
        None => u == UITheme::emergency_colors(),
    }
}

/// The text of some bytes: the characters they encode in UTF-8, none when they are not
/// UTF-8.
pub open spec fn byte_text(bytes: Seq<u8>) -> Seq<char> {
    if valid_utf8(bytes) {
        decode_utf8(bytes)
    } else {
        Seq::empty()
    }
}

/// `std::str::from_utf8` of the bytes, or no text when they are not UTF-8.
#[verifier::external_body]
fn utf8_text(bytes: &[u8]) -> (s: String)
    ensures
        s@ == byte_text(bytes@),
{
    std::str::from_utf8(bytes).unwrap_or("").to_string()
}

/// The first `w` bytes of a text (all of it when it is shorter).
pub open spec fn first_bytes(t: Seq<char>, w: nat) -> Seq<char> {
    if encode_utf8(t).len() > w {
        decode_utf8(encode_utf8(t).subrange(0, w as int))
    } else {
        t
    }
}

/// Cutting `t` after `w` bytes falls between characters (slicing a `str` asks it).
pub open spec fn cuts_at(t: Seq<char>, w: nat) -> bool {
    encode_utf8(t).len() > w ==> is_char_boundary(encode_utf8(t), w as int)
}

/// The first `w` bytes of `s`.
fn first_bytes_of(s: &str, w: usize) -> (r: String)
    requires
        cuts_at(s@, w as nat),
        encode_utf8(s@).len() <= usize::MAX,
    ensures
        r@ == first_bytes(s@, w as nat),
{
    broadcast use vstd::utf8::group_utf8_lib;

    assert(s.spec_bytes() == encode_utf8(s@));
    if s.len() > w {
        let (a, _) = s.split_at(w);
        proof {
            assert(a.spec_bytes() == encode_utf8(a@));
            assert(a@ == decode_utf8(encode_utf8(a@)));
            assert(a@ == decode_utf8(encode_utf8(s@).subrange(0, w as int)));
        }
        owned(a)
    } else {
        owned(s)
    }
}

/// The highlight styles can be read as colors.
pub open spec fn styles_read(hs: Seq<HighlightRange>) -> bool {
    forall|k: int|
        0 <= k < hs.len() ==> #[trigger] hs[k].start <= hs[k].end && (hs[k].style.fg_color matches Some(t)
            ==> hex_fields_cut_cleanly(t@))
}

pub open spec fn min_nat(a: int, b: int) -> int {
    if a < b {
        a
    } else {
        b
    }
}

/// What drawing a line of bytes with highlights shows, from highlight `i` on, with the
/// bytes before `pos` drawn and `shown` bytes in view: the text up to each highlight,
/// the highlight in its color, and the text after the last one.
pub open spec fn highlighted_drawn(bytes: Seq<u8>, hs: Seq<HighlightRange>, i: int, pos: int, shown: int) -> Seq<
    Drawn,
>
    decreases hs.len() - i,
{
    let rest = if pos < shown {
        seq![Drawn::Print(byte_text(bytes.subrange(pos, shown)))]
    } else {
        Seq::empty()
    };
    if i < 0 || i >= hs.len() {
        rest
    } else {
        let h = hs[i];
        let start = min_nat(h.start as int, shown);
        let end = min_nat(h.end as int, shown);
        if start >= shown {
            rest
        } else {
            let before = if pos < start {
                seq![Drawn::Print(byte_text(bytes.subrange(pos, start)))]
            } else {
                Seq::empty()
            };
            let color = match h.style.fg_color {
                Some(t) => match text_color(t@) {
                    Some(c) => seq![Drawn::SetFg(c)],
                    None => Seq::empty(),
                },
                None => Seq::empty(),
            };
            before + color + seq![Drawn::Print(byte_text(bytes.subrange(start, end))), Drawn::ResetColor]
                + highlighted_drawn(bytes, hs, i + 1, end, shown)
        }
    }
}

/// Draws a line with its highlights (byte ranges of the line), within `max_width`
/// bytes.
fn render_highlighted_line(ops: &mut Vec<DrawOp>, line: &str, highlights: &Vec<HighlightRange>, max_width: usize)
    requires
        styles_read(highlights@),
        encode_utf8(line@).len() <= usize::MAX,
    ensures
        all_drawn(final(ops)@) == all_drawn(old(ops)@) + highlighted_drawn(
            encode_utf8(line@),
            highlights@,
            0,
            0,
            min_nat(encode_utf8(line@).len() as int, max_width as int),
        ),
{
    let ghost start0 = all_drawn(ops@);
    let bytes = line.as_bytes();
    assert(bytes@ == encode_utf8(line@));
    assert(line.spec_bytes() == encode_utf8(line@));
    let display_len = if line.len() < max_width {
        line.len()
    } else {
        max_width
    };
    let ghost total = highlighted_drawn(bytes@, highlights@, 0, 0, display_len as int);
    let mut current_pos: usize = 0;
    let mut i: usize = 0;
    while i < highlights.len()
        invariant_except_break
            i <= highlights@.len(),
            current_pos <= display_len,
            display_len <= bytes@.len(),
            bytes@ == encode_utf8(line@),
            styles_read(highlights@),
            all_drawn(ops@) + highlighted_drawn(bytes@, highlights@, i as int, current_pos as int, display_len as int)
                == start0 + total,
        ensures
            current_pos <= display_len,
            display_len <= bytes@.len(),
            bytes@ == encode_utf8(line@),
            all_drawn(ops@) + highlighted_drawn(bytes@, highlights@, i as int, current_pos as int, display_len as int)
                == start0 + total,
            highlighted_drawn(bytes@, highlights@, i as int, current_pos as int, display_len as int) == (
            if current_pos < display_len {
                seq![Drawn::Print(byte_text(bytes@.subrange(current_pos as int, display_len as int)))]
            } else {
                Seq::<Drawn>::empty()
            }),
        decreases highlights@.len() - i,
    {
        let h = &highlights[i];
        assert(h.start <= h.end && (h.style.fg_color matches Some(t) ==> hex_fields_cut_cleanly(t@)));
        let start = if h.start < display_len {
            h.start
        } else {
            display_len
        };
        let end = if h.end < display_len {
            h.end
        } else {
            display_len
        };
        if start >= display_len {
            break;
        }
        let ghost before_ops = all_drawn(ops@);
        let ghost piece = highlighted_drawn(bytes@, highlights@, i as int, current_pos as int, display_len as int);
        let ghost next = highlighted_drawn(bytes@, highlights@, i as int + 1, end as int, display_len as int);
        if current_pos < start {
            let text_before = utf8_text(vstd::slice::slice_subrange(bytes, current_pos, start));
            emit(ops, DrawOp::Print(text_before));
        }
        match h.style.to_color() {
            Some(color) => emit(ops, DrawOp::SetFg(color)),
            None => {},
        }
        let highlighted_text = utf8_text(vstd::slice::slice_subrange(bytes, start, end));
        emit(ops, DrawOp::Print(highlighted_text));
        emit(ops, DrawOp::ResetColor);
        proof {
            assert(all_drawn(ops@) + next =~= before_ops + piece);
        }
        current_pos = end;
        i = i + 1;
    }
    if current_pos < display_len {
        let remaining_text = utf8_text(vstd::slice::slice_subrange(bytes, current_pos, display_len));
        emit(ops, DrawOp::Print(remaining_text));
    }
    assert(all_drawn(ops@) =~= start0 + total);
}

/// What is drawn of the editor: its mode, current buffer, command line and status,
/// how many buffers are open, and the highlights of buffer rows (by row).
pub struct EditorRenderState<'a> {
    pub mode: Mode,
    pub current_buffer: Option<&'a Buffer>,
    pub all_buffers: &'a Vec<Buffer>,
    pub command_line: &'a str,
    pub status_message: &'a str,
    pub buffer_count: usize,
    pub current_buffer_id: Option<usize>,
    pub syntax_highlights: Vec<(usize, Vec<HighlightRange>)>,
}

/// The highlights of buffer row `row`: those of the first entry for it from `i` on.
pub open spec fn highlights_from(hl: Seq<(usize, Vec<HighlightRange>)>, row: nat, i: int) -> Option<
    Seq<HighlightRange>,
>
    decreases hl.len() - i,
{
    if i < 0 || i >= hl.len() {
        None
    } else if hl[i].0 == row {
        Some(hl[i].1@)
    } else {
        highlights_from(hl, row, i + 1)
    }
}

/// The highlights of buffer row `row`, if it has any.
pub open spec fn highlights_at(hl: Seq<(usize, Vec<HighlightRange>)>, row: nat) -> Option<Seq<HighlightRange>> {
    highlights_from(hl, row, 0)
}

/// The highlights of buffer row `row`, if it has any.
fn find_highlights<'a>(hl: &'a Vec<(usize, Vec<HighlightRange>)>, row: usize) -> (r: Option<&'a Vec<HighlightRange>>)
    ensures
        match r {
            Some(v) => highlights_at(hl@, row as nat) == Some(v@),
            None => highlights_at(hl@, row as nat) is None,
        },
{
    let mut i: usize = 0;
    while i < hl.len()
        invariant
            i <= hl@.len(),
            highlights_from(hl@, row as nat, i as int) == highlights_at(hl@, row as nat),
        decreases hl@.len() - i,
    {
        if hl[i].0 == row {
            return Some(&hl[i].1);
        }
        i = i + 1;
    }
    None
}

impl Editor {
    /// What is drawn of the editor, with the highlights of the rows that have them.
    pub fn render_state(&self, syntax_highlights: Vec<(usize, Vec<HighlightRange>)>) -> (s: EditorRenderState<'_>)
        requires
            self.well_formed(),
        ensures
            s.mode == self.mode,
            match s.current_buffer {
                Some(b) => self.current_buffer_id is Some && *b == self.buffers@[self.current_pos()],
                None => self.current_buffer_id is None,
            },
            s.all_buffers@ == self.buffers@,
            s.command_line@ == self.command_line@,
            s.status_message@ == self.status_message@,
            s.buffer_count == self.buffers@.len(),
            s.current_buffer_id == self.current_buffer_id,
            s.syntax_highlights@ == syntax_highlights@,
    {
        let current_buffer = match self.current_index() {
            Some(i) => {
                proof {
                    self.lemma_current_pos();
                }
                Some(&self.buffers[i])
            },
            None => None,
        };
        EditorRenderState {
            mode: self.mode,
            current_buffer,
            all_buffers: &self.buffers,
            command_line: self.command_line.as_str(),
            status_message: self.status_message.as_str(),
            buffer_count: self.buffers.len(),
            current_buffer_id: self.current_buffer_id,
            syntax_highlights,
        }
    }

    /// The buffer rows to highlight for a screen of `content_height` text rows: those in
    /// view and ten more below, within the text.
    pub fn highlight_rows(&self, content_height: usize) -> (r: (usize, usize))
        requires
            self.well_formed(),
            self.viewport_top + content_height + 10 <= usize::MAX,
        ensures
            match self.current_buffer_id {
                Some(_) => r == (self.viewport_top, text::min_int(
                    self.viewport_top + content_height + 10,
                    self.buffers@[self.current_pos()].lines@.len() as int,
                ) as usize),
                None => r == (0usize, 0usize),
            },
    {
        match self.current_index() {
            Some(i) => {
                proof {
                    self.lemma_current_pos();
                }
                let end = self.viewport_top + content_height + 10;
                let n = self.buffers[i].lines.len();
                (self.viewport_top, if end < n { end } else { n })
            },
            None => (0, 0),
        }
    }
}

/// The status line's text: the mode, the buffer id when several buffers are open, the
/// file (or `[No Name]`), `[+]` when modified, the cursor's row and column counted
/// from one, and the status message.
pub open spec fn status_text(st: EditorRenderState) -> Seq<char> {
    status_mode(st) + status_id(st) + status_file(st) + status_note(st)
}

pub open spec fn status_mode(st: EditorRenderState) -> Seq<char> {
    " "@ + st.mode.spec_label() + " "@
}

pub open spec fn status_id(st: EditorRenderState) -> Seq<char> {
    if st.buffer_count > 1 && st.current_buffer_id is Some {
        " ["@ + digits::decimal(st.current_buffer_id->0 as nat) + "] "@
    } else {
        Seq::empty()
    }
}

pub open spec fn status_file(st: EditorRenderState) -> Seq<char> {
    match st.current_buffer {
        Some(b) => {
            let name = match b.file_path {
                Some(p) => " "@ + path_display(p) + " "@,
                None => " [No Name] "@,
            };
            let modified = if b.modified {
                "[+] "@
            } else {
                Seq::empty()
            };
            name + modified + digits::decimal((b.cursor.row + 1) as nat) + ":"@ + digits::decimal(
                (b.cursor.col + 1) as nat,
            ) + " "@
        },
        None => Seq::empty(),
    }
}

pub open spec fn status_note(st: EditorRenderState) -> Seq<char> {
    if st.status_message@.len() > 0 {
        " | "@ + st.status_message@
    } else {
        Seq::empty()
    }
}

/// `t` made exactly `w` bytes wide: padded with spaces, or cut.
pub open spec fn fitted(t: Seq<char>, w: nat) -> Seq<char> {
    let n = encode_utf8(t).len();
    if n > w {
        first_bytes(t, w)
    } else {
        t + spaces_of((w - n) as nat)
    }
}

/// Where the viewport's top goes so that the cursor row is in view (the rows of text
/// being the screen less two).
pub open spec fn viewport_after(top: usize, row: usize, height: u16) -> usize {
    let content_height = UI::content_rows(height);
    if row < top {
        row
    } else if row >= top + content_height {
        (row - (content_height - 1)) as usize
    } else {
        top
    }
}

/// Once the viewport has followed the cursor, the cursor row is on screen: at or below
/// the viewport's top and above its bottom (when the screen has rows for text).
pub proof fn law_viewport_shows_cursor(top: usize, row: usize, height: u16)
    requires
        height > 2,
        top + UI::content_rows(height) <= usize::MAX,
    ensures
        viewport_after(top, row, height) <= row < viewport_after(top, row, height) + UI::content_rows(height),
{
}

/// How the UI draws: its viewport, what it shows beside the text, and its colors.
#[derive(Debug, Clone, Copy)]
pub struct UI {
    /// Top row of the current viewport
    pub viewport_top: usize,
    /// Show absolute line numbers
    pub show_line_numbers: bool,
    /// Show relative line numbers
    pub show_relative_numbers: bool,
    /// Highlight the current cursor line
    pub show_cursor_line: bool,
    /// The colors of the current theme
    pub theme: UITheme,
}

/// The name `theme_name` gives for a current theme name.
pub open spec fn known_theme_name(current: Seq<char>) -> Seq<char> {
    if current == "dark"@ {
        "dark"@
    } else if current == "light"@ {
        "light"@
    } else if current == "ferris"@ {
        "ferris"@
    } else {
        "default"@
    }
}

impl UI {
    /// The UI with line numbers and the cursor line shown, at the top of the text, in
    /// the current theme of the configuration.
    pub fn new(themes: &ThemeConfig) -> (u: Self)
        requires
            themes.cuts_cleanly(),
        ensures
            u.viewport_top == 0,
            u.show_line_numbers,
            !u.show_relative_numbers,
            u.show_cursor_line,
            current_ui(*themes, u.theme),
    {
        let current = themes.get_current_theme();
        UI {
            viewport_top: 0,
            show_line_numbers: true,
            show_relative_numbers: false,
            show_cursor_line: true,
            theme: current.ui,
        }
    }

    /// Uses the colors of the named theme, or of the current theme when there is no
    /// such theme.
    pub fn set_theme(&mut self, themes: &ThemeConfig, theme_name: &str)
        requires
            themes.cuts_cleanly(),
        ensures
            *final(self) == (UI { theme: final(self).theme, ..*old(self) }),
            themes.has_theme(theme_name@) ==> final(self).theme == crate::theme::ui_theme_of(
                themes.first_named(theme_name@).ui,
            ),
            !themes.has_theme(theme_name@) ==> current_ui(*themes, final(self).theme),
    {
        match themes.get_theme(theme_name) {
            Some(t) => self.theme = t.ui,
            None => {
                let current = themes.get_current_theme();
                self.theme = current.ui;
            },
        }
    }

    /// The name of the configuration's current theme, if it is one of the known themes.
    pub fn theme_name(themes: &ThemeConfig) -> (s: &'static str)
        ensures
            s@ == known_theme_name(themes.theme.current@),
    {
        let current = themes.theme.current.as_str();
        if text::str_eq(current, "dark") {
            "dark"
        } else if text::str_eq(current, "light") {
            "light"
        } else if text::str_eq(current, "ferris") {
            "ferris"
        } else {
            "default"
        }
    }

    /// Get the current viewport top position
    pub fn viewport_top(&self) -> (t: usize)
        ensures
            t == self.viewport_top,
    {
        self.viewport_top
    }

    /// The viewport's top row and the rows of text it holds (the screen less the status
    /// and command lines).
    pub fn viewport_range(&self, height: u16) -> (r: (usize, usize))
        ensures
            r == (self.viewport_top, if height >= 2 { (height - 2) as usize } else { 0usize }),
    {
        (self.viewport_top, height.saturating_sub(2) as usize)
    }

    pub fn scroll_down_line(&mut self)
        ensures
            *final(self) == (UI { viewport_top: text::min_int(old(self).viewport_top + 1, usize::MAX as int) as usize, ..*old(self) }),
    {
        self.viewport_top = self.viewport_top.saturating_add(1);
    }

    pub fn scroll_up_line(&mut self)
        ensures
            *final(self) == (UI { viewport_top: if old(self).viewport_top >= 1 { (old(self).viewport_top - 1) as usize } else { 0 }, ..*old(self) }),
    {
        self.viewport_top = self.viewport_top.saturating_sub(1);
    }

    /// Scrolls a page (20 rows) down.
    pub fn scroll_down_page(&mut self)
        ensures
            *final(self) == (UI { viewport_top: text::min_int(old(self).viewport_top + 20, usize::MAX as int) as usize, ..*old(self) }),
    {
        self.viewport_top = self.viewport_top.saturating_add(20);
    }

    /// Scrolls a page (20 rows) up.
    pub fn scroll_up_page(&mut self)
        ensures
            *final(self) == (UI { viewport_top: if old(self).viewport_top >= 20 { (old(self).viewport_top - 20) as usize } else { 0 }, ..*old(self) }),
    {
        self.viewport_top = self.viewport_top.saturating_sub(20);
    }

    /// Scrolls half a page (10 rows) down.
    pub fn scroll_down_half_page(&mut self)
        ensures
            *final(self) == (UI { viewport_top: text::min_int(old(self).viewport_top + 10, usize::MAX as int) as usize, ..*old(self) }),
    {
        self.viewport_top = self.viewport_top.saturating_add(10);
    }

    /// Scrolls half a page (10 rows) up.
    pub fn scroll_up_half_page(&mut self)
        ensures
            *final(self) == (UI { viewport_top: if old(self).viewport_top >= 10 { (old(self).viewport_top - 10) as usize } else { 0 }, ..*old(self) }),
    {
        self.viewport_top = self.viewport_top.saturating_sub(10);
    }

    /// Whether line numbers of either kind are shown.
    pub open spec fn shows_numbers(self) -> bool {
        self.show_line_numbers || self.show_relative_numbers
    }

    /// The width of the line number column for a buffer of `line_count` lines.
    pub fn number_column_width(&self, line_count: usize) -> (w: usize)
        ensures
            w == number_column(self.shows_numbers(), line_count as nat),
    {
        if self.show_line_numbers || self.show_relative_numbers {
            let d = digits::decimal_string(line_count as u64);
            let n = text::char_len(d.as_str());
            proof {
                digits::lemma_decimal_len(line_count as nat);
            }
            if n + 1 > 4 {
                n + 1
            } else {
                4
            }
        } else {
            0
        }
    }

    /// What the line number column shows on buffer row `row`.
    pub open spec fn line_number_drawn(self, b: Buffer, row: nat, width: nat, is_cursor_line: bool) -> Seq<Drawn> {
        let colors = if is_cursor_line && self.show_cursor_line {
            seq![Drawn::SetFg(self.theme.line_number_current), Drawn::SetBg(self.theme.cursor_line_bg)]
        } else {
            seq![Drawn::SetFg(self.theme.line_number)]
        };
        let label = if row < b.lines@.len() {
            pad_left(digits::decimal(row_label(row, b.cursor.row as nat, self.show_relative_numbers)), (width - 1) as nat)
                + seq![' ']
        } else {
            spaces_of(width)
        };
        colors.push(Drawn::Print(label))
    }

    /// Draws the line number column on buffer row `buffer_row`.
    fn render_line_number(&self, ops: &mut Vec<DrawOp>, buffer: &Buffer, buffer_row: usize, width: usize, is_cursor_line: bool)
        requires
            width >= 1,
        ensures
            all_drawn(final(ops)@) == all_drawn(old(ops)@) + self.line_number_drawn(
                *buffer,
                buffer_row as nat,
                width as nat,
                is_cursor_line,
            ),
    {
        let ghost start = all_drawn(ops@);
        if is_cursor_line && self.show_cursor_line {
            emit(ops, DrawOp::SetFg(self.theme.line_number_current));
            emit(ops, DrawOp::SetBg(self.theme.cursor_line_bg));
        } else {
            emit(ops, DrawOp::SetFg(self.theme.line_number));
        }
        let label = if buffer_row < buffer.lines.len() {
            let current_line = buffer.cursor.row;
            let line_num = if self.show_relative_numbers {
                if buffer_row == current_line {
                    buffer_row + 1
                } else if buffer_row > current_line {
                    buffer_row - current_line
                } else {
                    current_line - buffer_row
                }
            } else {
                buffer_row + 1
            };
            let d = digits::decimal_string(line_num as u64);
            let n = text::char_len(d.as_str());
            let padded = if n < width - 1 {
                let p = spaces(width - 1 - n);
                concat(p.as_str(), d.as_str())
            } else {
                d
            };
            concat(padded.as_str(), " ")
        } else {
            spaces(width)
        };
        proof {
            reveal_strlit(" ");
            let expected = if buffer_row < buffer.lines@.len() {
                pad_left(
                    digits::decimal(row_label(buffer_row as nat, buffer.cursor.row as nat, self.show_relative_numbers)),
                    (width - 1) as nat,
                ) + seq![' ']
            } else {
                spaces_of(width as nat)
            };
            assert(label@ =~= expected);
        }
        emit(ops, DrawOp::Print(label));
        assert(all_drawn(ops@) =~= start + self.line_number_drawn(*buffer, buffer_row as nat, width as nat, is_cursor_line));
    }

    /// The text rows below the status and command lines.
    pub open spec fn content_rows(height: u16) -> nat {
        if height >= 2 {
            (height - 2) as nat
        } else {
            0
        }
    }

    /// The bytes of a line in view beside the line number column.
    pub open spec fn text_width(self, b: Buffer, width: u16) -> nat {
        let lnw = number_column(self.shows_numbers(), b.lines@.len());
        if width >= lnw {
            (width - lnw) as nat
        } else {
            0
        }
    }

    /// What screen row `screen_row` shows of buffer `b`: the line number column, then
    /// the buffer row's text (highlighted when it has highlights, cut to the width), or
    /// `~` past the end of the text.
    pub open spec fn row_drawn(self, st: EditorRenderState, b: Buffer, screen_row: nat, width: u16) -> Seq<Drawn> {
        let lnw = number_column(self.shows_numbers(), b.lines@.len());
        let text_width = self.text_width(b, width);
        let buffer_row = (self.viewport_top + screen_row) as nat;
        let is_cursor_line = self.show_cursor_line && buffer_row == b.cursor.row;
        let cursor_bg = if is_cursor_line {
            seq![Drawn::SetBg(self.theme.cursor_line_bg)]
        } else {
            Seq::empty()
        };
        let numbers = if self.shows_numbers() {
            self.line_number_drawn(b, buffer_row, lnw, is_cursor_line)
        } else {
            Seq::empty()
        };
        let body = if buffer_row < b.lines@.len() {
            let line = b.text()[buffer_row as int];
            match highlights_at(st.syntax_highlights@, buffer_row) {
                Some(hs) => highlighted_drawn(
                    encode_utf8(line),
                    hs,
                    0,
                    0,
                    min_nat(encode_utf8(line).len() as int, text_width as int),
                ),
                None => seq![Drawn::Print(first_bytes(line, text_width))],
            }
        } else {
            let mark = if !is_cursor_line {
                seq![Drawn::SetFg(self.theme.empty_line)]
            } else {
                Seq::empty()
            };
            mark.push(Drawn::Print("~"@))
        };
        seq![Drawn::MoveTo(screen_row as usize, 0), Drawn::ClearLine] + cursor_bg + numbers + seq![
            Drawn::MoveTo(screen_row as usize, lnw as usize),
        ] + body + seq![Drawn::ResetColor]
    }

    /// What drawing screen row `screen_row` asks: the line fits in memory, its
    /// highlights can be read, and without highlights it can be cut to the width.
    pub open spec fn row_ok(self, st: EditorRenderState, b: Buffer, screen_row: nat, width: u16) -> bool {
        let buffer_row = (self.viewport_top + screen_row) as nat;
        buffer_row < b.lines@.len() ==> {
            let line = b.text()[buffer_row as int];
            &&& encode_utf8(line).len() <= usize::MAX
            &&& match highlights_at(st.syntax_highlights@, buffer_row) {
                Some(hs) => styles_read(hs),
                None => cuts_at(line, self.text_width(b, width)),
            }
        }
    }

    /// The first `k` screen rows.
    pub open spec fn rows_drawn(self, st: EditorRenderState, b: Buffer, width: u16, k: nat) -> Seq<Drawn>
        decreases k,
    {
        if k == 0 {
            Seq::empty()
        } else {
            self.rows_drawn(st, b, width, (k - 1) as nat) + self.row_drawn(st, b, (k - 1) as nat, width)
        }
    }

    /// Draws the text rows of the buffer.
    fn render_buffer(&self, ops: &mut Vec<DrawOp>, buffer: &Buffer, state: &EditorRenderState, width: u16, height: u16)
        requires
            self.viewport_top + Self::content_rows(height) <= usize::MAX,
            forall|k: nat| k < Self::content_rows(height) ==> #[trigger] self.row_ok(*state, *buffer, k, width),
        ensures
            all_drawn(final(ops)@) == all_drawn(old(ops)@) + self.rows_drawn(
                *state,
                *buffer,
                width,
                Self::content_rows(height),
            ),
    {
        let ghost start0 = all_drawn(ops@);
        let content_height = height.saturating_sub(2) as usize;
        let start_row = self.viewport_top;
        let line_number_width = self.number_column_width(buffer.lines.len());
        proof {
            digits::lemma_usize_digits(buffer.lines.len());
        }
        let text_start_col = line_number_width;
        let text_width = width.saturating_sub(text_start_col as u16) as usize;
        let mut screen_row: usize = 0;
        while screen_row < content_height
            invariant
                screen_row <= content_height,
                content_height == Self::content_rows(height),
                start_row == self.viewport_top,
                start_row + content_height <= usize::MAX,
                line_number_width == number_column(self.shows_numbers(), buffer.lines@.len()),
                text_width == self.text_width(*buffer, width),
                forall|k: nat| k < Self::content_rows(height) ==> #[trigger] self.row_ok(*state, *buffer, k, width),
                all_drawn(ops@) == start0 + self.rows_drawn(*state, *buffer, width, screen_row as nat),
            decreases content_height - screen_row,
        {
            assert(self.row_ok(*state, *buffer, screen_row as nat, width));
            self.render_row(ops, buffer, state, screen_row, width, line_number_width, text_width);
            proof {
                assert(self.rows_drawn(*state, *buffer, width, (screen_row + 1) as nat) == self.rows_drawn(
                    *state,
                    *buffer,
                    width,
                    screen_row as nat,
                ) + self.row_drawn(*state, *buffer, screen_row as nat, width));
                assert(all_drawn(ops@) =~= start0 + self.rows_drawn(*state, *buffer, width, (screen_row + 1) as nat));
            }
            screen_row = screen_row + 1;
        }
    }

    /// Draws one screen row of the buffer.
    #[verifier::rlimit(60)]
    #[verifier::spinoff_prover]
    fn render_row(
        &self,
        ops: &mut Vec<DrawOp>,
        buffer: &Buffer,
        state: &EditorRenderState,
        screen_row: usize,
        width: u16,
        line_number_width: usize,
        text_width: usize,
    )
        requires
            self.viewport_top + screen_row <= usize::MAX,
            line_number_width == number_column(self.shows_numbers(), buffer.lines@.len()),
            text_width == self.text_width(*buffer, width),
            self.row_ok(*state, *buffer, screen_row as nat, width),
        ensures
            all_drawn(final(ops)@) == all_drawn(old(ops)@) + self.row_drawn(*state, *buffer, screen_row as nat, width),
    {
        let ghost s0 = all_drawn(ops@);
        let buffer_row = self.viewport_top + screen_row;
        emit(ops, DrawOp::MoveTo { row: screen_row, col: 0 });
        emit(ops, DrawOp::ClearLine);
        let ghost p1 = seq![Drawn::MoveTo(screen_row, 0), Drawn::ClearLine];
        assert(all_drawn(ops@) =~= s0 + p1);
        let is_cursor_line = self.show_cursor_line && buffer_row == buffer.cursor.row;
        if is_cursor_line {
            emit(ops, DrawOp::SetBg(self.theme.cursor_line_bg));
        }
        let ghost p2 = if is_cursor_line {
            seq![Drawn::SetBg(self.theme.cursor_line_bg)]
        } else {
            Seq::empty()
        };
        assert(all_drawn(ops@) =~= s0 + p1 + p2);
        if self.show_line_numbers || self.show_relative_numbers {
            self.render_line_number(ops, buffer, buffer_row, line_number_width, is_cursor_line);
        }
        let ghost p3 = if self.shows_numbers() {
            self.line_number_drawn(*buffer, buffer_row as nat, line_number_width as nat, is_cursor_line)
        } else {
            Seq::empty()
        };
        assert(all_drawn(ops@) =~= s0 + p1 + p2 + p3);
        emit(ops, DrawOp::MoveTo { row: screen_row, col: line_number_width });
        let ghost p4 = seq![Drawn::MoveTo(screen_row, line_number_width)];
        assert(all_drawn(ops@) =~= s0 + p1 + p2 + p3 + p4);
        let ghost s4 = all_drawn(ops@);
        if buffer_row < buffer.lines.len() {
            let line = buffer.lines[buffer_row].as_str();
            assert(line@ == buffer.text()[buffer_row as int]);
            match find_highlights(&state.syntax_highlights, buffer_row) {
                Some(highlights) => render_highlighted_line(ops, line, highlights, text_width),
                None => {
                    let display_line = first_bytes_of(line, text_width);
                    emit(ops, DrawOp::Print(display_line));
                },
            }
        } else {
            if !is_cursor_line {
                emit(ops, DrawOp::SetFg(self.theme.empty_line));
            }
            let tilde = owned("~");
            emit(ops, DrawOp::Print(tilde));
        }
        let ghost p5 = if (buffer_row as nat) < buffer.lines@.len() {
            let line = buffer.text()[buffer_row as int];
            match highlights_at(state.syntax_highlights@, buffer_row as nat) {
                Some(hs) => highlighted_drawn(
                    encode_utf8(line),
                    hs,
                    0,
                    0,
                    min_nat(encode_utf8(line).len() as int, text_width as int),
                ),
                None => seq![Drawn::Print(first_bytes(line, text_width as nat))],
            }
        } else {
            let mark = if !is_cursor_line {
                seq![Drawn::SetFg(self.theme.empty_line)]
            } else {
                Seq::empty()
            };
            mark.push(Drawn::Print("~"@))
        };
        assert(all_drawn(ops@) =~= s4 + p5);
        emit(ops, DrawOp::ResetColor);
        assert(all_drawn(ops@) =~= s0 + (p1 + p2 + p3 + p4 + p5 + seq![Drawn::ResetColor]));
        assert(self.row_drawn(*state, *buffer, screen_row as nat, width) == p1 + p2 + p3 + p4 + p5 + seq![
            Drawn::ResetColor,
        ]);
    }


    /// What the status line shows, in the status colors (the modified color when the
    /// buffer has unsaved changes).
    pub open spec fn status_drawn(self, st: EditorRenderState, width: u16, height: u16) -> Seq<Drawn> {
        let color = if st.current_buffer matches Some(b) && b.modified {
            self.theme.status_modified
        } else {
            self.theme.status_bg
        };
        seq![
            Drawn::MoveTo(if height >= 2 { (height - 2) as usize } else { 0 }, 0),
            Drawn::ClearLine,
            Drawn::SetBg(color),
            Drawn::SetFg(self.theme.status_fg),
            Drawn::Print(fitted(status_text(st), width as nat)),
            Drawn::ResetColor,
        ]
    }

    /// What the command line shows, cut to the width.
    pub open spec fn command_drawn(self, st: EditorRenderState, width: u16, height: u16) -> Seq<Drawn> {
        seq![
            Drawn::MoveTo(if height >= 1 { (height - 1) as usize } else { 0 }, 0),
            Drawn::ClearLine,
            Drawn::SetBg(self.theme.command_line_bg),
            Drawn::SetFg(self.theme.command_line_fg),
            Drawn::Print(first_bytes(st.command_line@, width as nat)),
            Drawn::ResetColor,
        ]
    }

    fn status_mode_text(st: &EditorRenderState) -> (t: String)
        ensures
            t@ == status_mode(*st),
    {
        let t = concat(" ", st.mode.label());
        concat(t.as_str(), " ")
    }

    fn status_id_text(st: &EditorRenderState) -> (t: String)
        ensures
            t@ == status_id(*st),
    {
        if st.buffer_count > 1 {
            if let Some(buffer_id) = st.current_buffer_id {
                let t = concat(" [", digits::decimal_string(buffer_id as u64).as_str());
                return concat(t.as_str(), "] ");
            }
        }
        String::new()
    }

    fn status_file_text(st: &EditorRenderState) -> (t: String)
        requires
            st.current_buffer matches Some(b) ==> b.cursor.row < usize::MAX && b.cursor.col < usize::MAX,
        ensures
            t@ == status_file(*st),
    {
        match st.current_buffer {
            Some(buffer) => {
                let name = match &buffer.file_path {
                    Some(path) => {
                        let t = concat(" ", path_text(path).as_str());
                        concat(t.as_str(), " ")
                    },
                    None => owned(" [No Name] "),
                };
                let t = if buffer.modified {
                    concat(name.as_str(), "[+] ")
                } else {
                    name
                };
                let t = concat(t.as_str(), digits::decimal_string((buffer.cursor.row + 1) as u64).as_str());
                let t = concat(t.as_str(), ":");
                let t = concat(t.as_str(), digits::decimal_string((buffer.cursor.col + 1) as u64).as_str());
                let t = concat(t.as_str(), " ");
                assert(t@ =~= status_file(*st));
                t
            },
            None => String::new(),
        }
    }

    fn status_note_text(st: &EditorRenderState) -> (t: String)
        ensures
            t@ == status_note(*st),
    {
        if !st.status_message.is_empty() {
            concat(" | ", st.status_message)
        } else {
            String::new()
        }
    }

    /// The status line's text (see `status_text`).
    pub fn status_text(st: &EditorRenderState) -> (t: String)
        requires
            st.current_buffer matches Some(b) ==> b.cursor.row < usize::MAX && b.cursor.col < usize::MAX,
        ensures
            t@ == status_text(*st),
    {
        let a = Self::status_mode_text(st);
        let b = Self::status_id_text(st);
        let c = Self::status_file_text(st);
        let d = Self::status_note_text(st);
        let t = concat(a.as_str(), b.as_str());
        let t = concat(t.as_str(), c.as_str());
        concat(t.as_str(), d.as_str())
    }

    /// What drawing the status line asks: its text fits in memory and can be cut to
    /// the width.
    pub open spec fn status_ok(st: EditorRenderState, width: u16) -> bool {
        &&& st.current_buffer matches Some(b) ==> b.cursor.row < usize::MAX && b.cursor.col < usize::MAX
        &&& encode_utf8(status_text(st)).len() <= usize::MAX
        &&& cuts_at(status_text(st), width as nat)
    }

    /// Draws the status line.
    fn render_status_line(&self, ops: &mut Vec<DrawOp>, st: &EditorRenderState, width: u16, height: u16)
        requires
            Self::status_ok(*st, width),
        ensures
            all_drawn(final(ops)@) == all_drawn(old(ops)@) + self.status_drawn(*st, width, height),
    {
        broadcast use vstd::utf8::group_utf8_lib;

        let ghost s0 = all_drawn(ops@);
        let status_row = height.saturating_sub(2);
        emit(ops, DrawOp::MoveTo { row: status_row as usize, col: 0 });
        emit(ops, DrawOp::ClearLine);
        let modified = match st.current_buffer {
            Some(b) => b.modified,
            None => false,
        };
        let status_color = if modified {
            self.theme.status_modified
        } else {
            self.theme.status_bg
        };
        emit(ops, DrawOp::SetBg(status_color));
        emit(ops, DrawOp::SetFg(self.theme.status_fg));
        let text = Self::status_text(st);
        let w = width as usize;
        let ts = text.as_str();
        assert(ts.spec_bytes() == encode_utf8(ts@));
        let n = ts.len();
        let shown = if n > w {
            first_bytes_of(text.as_str(), w)
        } else {
            let pad = spaces(w - n);
            concat(text.as_str(), pad.as_str())
        };
        emit(ops, DrawOp::Print(shown));
        emit(ops, DrawOp::ResetColor);
        assert(all_drawn(ops@) =~= s0 + self.status_drawn(*st, width, height));
    }

    /// What drawing the command line asks: it fits in memory and can be cut to the width.
    pub open spec fn command_ok(st: EditorRenderState, width: u16) -> bool {
        encode_utf8(st.command_line@).len() <= usize::MAX && cuts_at(st.command_line@, width as nat)
    }

    /// Draws the command line.
    fn render_command_line(&self, ops: &mut Vec<DrawOp>, st: &EditorRenderState, width: u16, height: u16)
        requires
            Self::command_ok(*st, width),
        ensures
            all_drawn(final(ops)@) == all_drawn(old(ops)@) + self.command_drawn(*st, width, height),
    {
        let ghost s0 = all_drawn(ops@);
        let command_row = height.saturating_sub(1);
        emit(ops, DrawOp::MoveTo { row: command_row as usize, col: 0 });
        emit(ops, DrawOp::ClearLine);
        emit(ops, DrawOp::SetBg(self.theme.command_line_bg));
        emit(ops, DrawOp::SetFg(self.theme.command_line_fg));
        let display_text = first_bytes_of(st.command_line, width as usize);
        emit(ops, DrawOp::Print(display_text));
        emit(ops, DrawOp::ResetColor);
        assert(all_drawn(ops@) =~= s0 + self.command_drawn(*st, width, height));
    }


    /// The UI once its viewport follows the cursor of the drawn buffer.
    pub open spec fn followed(self, st: EditorRenderState, height: u16) -> UI {
        match st.current_buffer {
            Some(b) => UI { viewport_top: viewport_after(self.viewport_top, b.cursor.row, height), ..self },
            None => self,
        }
    }

    /// Moves the viewport so that the cursor row is in view.
    fn update_viewport(&mut self, cursor_row: usize, height: u16) -> (r: (usize, usize))
        requires
            height <= 2 ==> cursor_row < old(self).viewport_top,
            old(self).viewport_top + Self::content_rows(height) <= usize::MAX,
        ensures
            *final(self) == (UI { viewport_top: viewport_after(old(self).viewport_top, cursor_row, height), ..*old(self) }),
            r == (final(self).viewport_top, Self::content_rows(height) as usize),
    {
        let content_height = height.saturating_sub(2) as usize;
        let viewport_bottom = self.viewport_top + content_height;
        if cursor_row < self.viewport_top {
            self.viewport_top = cursor_row;
        } else if cursor_row >= viewport_bottom {
            self.viewport_top = cursor_row.saturating_sub(content_height - 1);
        }
        (self.viewport_top, content_height)
    }

    /// What drawing the screen asks (the drawing would fail otherwise): the status
    /// and command lines and the rows in view can be drawn, and the positions fit.
    pub open spec fn render_ok(self, st: EditorRenderState, width: u16, height: u16) -> bool {
        &&& Self::status_ok(st, width)
        &&& (st.mode == Mode::Command || st.mode == Mode::Search) ==> Self::command_ok(st, width)
        &&& st.current_buffer matches Some(b) ==> {
            let u = self.followed(st, height);
            &&& height <= 2 ==> b.cursor.row < self.viewport_top
            &&& self.viewport_top + Self::content_rows(height) <= usize::MAX
            &&& u.viewport_top + Self::content_rows(height) <= usize::MAX
            &&& forall|k: nat| k < Self::content_rows(height) ==> #[trigger] u.row_ok(st, *b, k, width)
            &&& b.cursor.col + number_column(self.shows_numbers(), b.lines@.len()) <= usize::MAX
        }
    }

    /// What drawing the screen shows: the rows of the current buffer from the viewport
    /// (moved to follow the cursor), the status line, the command line in command and
    /// search mode, and the cursor when its row is in view.
    pub open spec fn render_drawn(self, st: EditorRenderState, width: u16, height: u16) -> Seq<Drawn> {
        let u = self.followed(st, height);
        let rows = match st.current_buffer {
            Some(b) => u.rows_drawn(st, *b, width, Self::content_rows(height)),
            None => Seq::empty(),
        };
        let command = if st.mode == Mode::Command || st.mode == Mode::Search {
            u.command_drawn(st, width, height)
        } else {
            Seq::empty()
        };
        let cursor = match st.current_buffer {
            Some(b) => {
                let screen_row = if b.cursor.row >= u.viewport_top {
                    b.cursor.row - u.viewport_top
                } else {
                    0
                };
                if screen_row < Self::content_rows(height) {
                    seq![
                        Drawn::MoveTo(
                            screen_row as usize,
                            (b.cursor.col + number_column(self.shows_numbers(), b.lines@.len())) as usize,
                        ),
                    ]
                } else {
                    Seq::empty()
                }
            },
            None => Seq::empty(),
        };
        seq![Drawn::HideCursor] + rows + u.status_drawn(st, width, height) + command + cursor + seq![
            Drawn::ShowCursor,
        ]
    }

    /// Draws the screen: the steps for the terminal, which carries them out and then
    /// flushes.
    pub fn render(&mut self, st: &EditorRenderState, width: u16, height: u16) -> (ops: Vec<DrawOp>)
        requires
            old(self).render_ok(*st, width, height),
        ensures
            *final(self) == old(self).followed(*st, height),
            all_drawn(ops@) == old(self).render_drawn(*st, width, height),
    {
        let mut ops: Vec<DrawOp> = Vec::new();
        assert(all_drawn(ops@) =~= Seq::<Drawn>::empty());
        emit(&mut ops, DrawOp::HideCursor);
        if let Some(buffer) = st.current_buffer {
            self.update_viewport(buffer.cursor.row, height);
        }
        let ghost s1 = all_drawn(ops@);
        if let Some(buffer) = st.current_buffer {
            self.render_buffer(&mut ops, buffer, st, width, height);
        }
        let ghost s2 = all_drawn(ops@);
        self.render_status_line(&mut ops, st, width, height);
        if st.mode == Mode::Command || st.mode == Mode::Search {
            self.render_command_line(&mut ops, st, width, height);
        }
        let ghost s3 = all_drawn(ops@);
        if let Some(buffer) = st.current_buffer {
            let content_height = height.saturating_sub(2) as usize;
            let line_number_width = self.number_column_width(buffer.lines.len());
            let screen_row = buffer.cursor.row.saturating_sub(self.viewport_top);
            let screen_col = buffer.cursor.col + line_number_width;
            if screen_row < content_height {
                emit(&mut ops, DrawOp::MoveTo { row: screen_row, col: screen_col });
            }
        }
        let ghost s4 = all_drawn(ops@);
        emit(&mut ops, DrawOp::ShowCursor);
        proof {
            let u = old(self).followed(*st, height);
            assert(*self == u);
            assert(all_drawn(ops@) =~= old(self).render_drawn(*st, width, height));
        }
        ops
    }

}

} // verus!
