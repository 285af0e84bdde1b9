//! Text object system for Vim-style operations: finds the range that `iw`, `aw`,
//! `ip`, `i"`, `a(` and the like select around the cursor.
use crate::engine::buffer::Buffer;
use crate::mode::Position;
use crate::text;
use crate::text::{char_len, chars_of, is_whitespace, scan_forward};
use vstd::prelude::*;

verus! {

/// Represents the type of text object
#[derive(Debug, Clone, Copy, PartialEq, Eq, Structural)]
pub enum TextObjectType {
    Word,  // w - word
    Word2,  // W - WORD (whitespace delimited)
    Sentence,  // s - sentence
    Paragraph,  // p - paragraph
    Quote,  // " or ' - quoted text
    Paren,  // () - parentheses
    Bracket,  // [] - square brackets
    Brace,  // {} - curly braces
    Angle,  // <> - angle brackets
    Tag,  // t - HTML/XML tag
}

/// Represents whether we want inner or around (a) text object
#[derive(Debug, Clone, Copy, PartialEq, Eq, Structural)]
pub enum TextObjectMode {
    Inner,  // i - inner (exclude delimiters)
    Around,  // a - around (include delimiters)
}

/// A range of text selected by a text object
#[derive(Debug, Clone, PartialEq, Eq, Structural)]
pub struct TextObjectRange {
    pub start: Position,
    pub end: Position,
    pub object_type: TextObjectType,
    pub mode: TextObjectMode,
}

impl TextObjectRange {
    pub fn new(start: Position, end: Position, object_type: TextObjectType, mode: TextObjectMode) -> (r: Self)
        ensures
            r == (TextObjectRange { start, end, object_type, mode }),
    {
        Self { start, end, object_type, mode }
    }

    /// `start` comes before or equals `end`.
    pub open spec fn spec_is_valid(&self) -> bool {
        self.start.row < self.end.row || (self.start.row == self.end.row && self.start.col
            <= self.end.col)
    }

    /// Check if this range is valid (start comes before or equals end)
    pub fn is_valid(&self) -> (b: bool)
        ensures
            b == self.spec_is_valid(),
    {
        self.start.row < self.end.row || (self.start.row == self.end.row && self.start.col
            <= self.end.col)
    }

    /// Get the text content for this range from the buffer (empty for an invalid range)
    pub fn get_text(&self, buffer: &Buffer) -> (s: String)
        ensures
            s@ == (if self.spec_is_valid() {
                text::range_text(buffer.text(), self.start, self.end)
            } else {
                Seq::empty()
            }),
    {
        if !self.is_valid() {
            return String::new();
        }
        text::text_in_range(&buffer.lines, self.start, self.end)
    }
}

// ---------------------------------------------------------------------------
// Scans over one line.
// ---------------------------------------------------------------------------

/// Steps back from `p` while the character before it is not in `seps`.
pub open spec fn back_outside(l: Seq<char>, p: int, seps: Seq<char>) -> int
    decreases p,
{
    if p > 0 && !seps.contains(l[p - 1]) {
        back_outside(l, p - 1, seps)
    } else {
        p
    }
}

/// Steps forward from `p` while the character there is not in `seps`.
pub open spec fn fwd_outside(l: Seq<char>, p: int, seps: Seq<char>) -> int
    decreases l.len() - p,
{
    if 0 <= p < l.len() && !seps.contains(l[p]) {
        fwd_outside(l, p + 1, seps)
    } else {
        p
    }
}

/// Steps back from `p` while the character before it is (`ws`) or is not whitespace.
pub open spec fn back_ws_run(l: Seq<char>, p: int, ws: bool) -> int
    decreases p,
{
    if p > 0 && text::is_ws(l[p - 1]) == ws {
        back_ws_run(l, p - 1, ws)
    } else {
        p
    }
}

/// A line that holds only whitespace.
pub open spec fn blank(l: Seq<char>) -> bool {
    forall|i: int| 0 <= i < l.len() ==> text::is_ws(l[i])
}

/// For "around": take the whitespace after `[start, end)`, or, when there is none and
/// the word does not start the line, the whitespace before it.
pub open spec fn around(l: Seq<char>, start: int, end: int) -> (int, int) {
    let ext_end = text::scan_fwd(l, end, true);
    if ext_end == end && start > 0 {
        (back_ws_run(l, start, true), end)
    } else {
        (start, ext_end)
    }
}

/// The whitespace run around column `col` of line `row`, if it is not empty.
pub open spec fn whitespace_around(t: Seq<Seq<char>>, cursor: Position) -> Option<TextObjectRange> {
    if cursor.row >= t.len() {
        None
    } else {
        let l = t[cursor.row as int];
        let start = back_ws_run(l, cursor.col as int, true);
        let end = text::scan_fwd(l, cursor.col as int, true);
        if start < end {
            Some(
                TextObjectRange {
                    start: Position { row: cursor.row, col: start as usize },
                    end: Position { row: cursor.row, col: end as usize },
                    object_type: TextObjectType::Word,
                    mode: TextObjectMode::Around,
                },
            )
        } else {
            None
        }
    }
}

/// The word (`big` false: delimited by `seps`) or WORD (`big` true: delimited by
/// whitespace) under the cursor, the cursor column clamped to the last character.
pub open spec fn word_object(
    t: Seq<Seq<char>>,
    cursor: Position,
    mode: TextObjectMode,
    seps: Seq<char>,
    big: bool,
) -> Option<TextObjectRange> {
    if cursor.row >= t.len() || t[cursor.row as int].len() == 0 {
        None
    } else {
        let l = t[cursor.row as int];
        let cc = text::min_int(cursor.col as int, l.len() - 1);
        let on_gap = if big {
            text::is_ws(l[cc])
        } else {
            seps.contains(l[cc])
        };
        if on_gap {
            match mode {
                TextObjectMode::Inner => None,
                TextObjectMode::Around => whitespace_around(t, cursor),
            }
        } else {
            let ws = if big {
                back_ws_run(l, cc, false)
            } else {
                back_outside(l, cc, seps)
            };
            let we = if big {
                text::scan_fwd(l, cc, false)
            } else {
                fwd_outside(l, cc, seps)
            };
            let (s, e) = if mode == TextObjectMode::Around {
                around(l, ws, we)
            } else {
                (ws, we)
            };
            Some(
                TextObjectRange {
                    start: Position { row: cursor.row, col: s as usize },
                    end: Position { row: cursor.row, col: e as usize },
                    object_type: if big {
                        TextObjectType::Word2
                    } else {
                        TextObjectType::Word
                    },
                    mode,
                },
            )
        }
    }
}

/// When `word_object` reads only characters that exist.
pub open spec fn word_object_ok(t: Seq<Seq<char>>, cursor: Position, mode: TextObjectMode, seps: Seq<char>, big: bool) -> bool {
    cursor.row < t.len() && t[cursor.row as int].len() > 0 && mode == TextObjectMode::Around && ({
        let l = t[cursor.row as int];
        let cc = text::min_int(cursor.col as int, l.len() - 1);
        if big {
            text::is_ws(l[cc])
        } else {
            seps.contains(l[cc])
        }
    }) ==> cursor.col <= t[cursor.row as int].len()
}

/// Going back from `p`: just past the nearest sentence ender before `p` and the
/// whitespace after it, or the start of the line.
pub open spec fn sentence_start(l: Seq<char>, p: int, enders: Seq<char>) -> int
    decreases p,
{
    if p > 0 {
        if enders.contains(l[p - 1]) {
            text::scan_fwd(l, p, true)
        } else {
            sentence_start(l, p - 1, enders)
        }
    } else {
        0
    }
}

/// Going forward from `p`: just past the next sentence ender, or the end of the line.
pub open spec fn sentence_end(l: Seq<char>, p: int, enders: Seq<char>) -> int
    decreases l.len() - p,
{
    if 0 <= p < l.len() {
        if enders.contains(l[p]) {
            p + 1
        } else {
            sentence_end(l, p + 1, enders)
        }
    } else {
        l.len() as int
    }
}

pub proof fn lemma_sentence_end_bound(l: Seq<char>, p: int, enders: Seq<char>)
    ensures
        sentence_end(l, p, enders) <= l.len(),
        0 <= p ==> p <= sentence_end(l, p, enders) || p > l.len(),
    decreases l.len() - p,
{
    if 0 <= p < l.len() && !enders.contains(l[p]) {
        lemma_sentence_end_bound(l, p + 1, enders);
    }
}

/// The sentence around the cursor, within the cursor line ("around" adds the
/// whitespace after it).
pub open spec fn sentence_object(t: Seq<Seq<char>>, cursor: Position, mode: TextObjectMode, enders: Seq<char>) -> Option<TextObjectRange> {
    if cursor.row >= t.len() {
        None
    } else {
        let l = t[cursor.row as int];
        let s = sentence_start(l, cursor.col as int, enders);
        let e0 = sentence_end(l, cursor.col as int, enders);
        let e = if mode == TextObjectMode::Around {
            text::scan_fwd(l, e0, true)
        } else {
            e0
        };
        Some(
            TextObjectRange {
                start: Position { row: cursor.row, col: s as usize },
                end: Position { row: cursor.row, col: e as usize },
                object_type: TextObjectType::Sentence,
                mode,
            },
        )
    }
}

/// First row of the paragraph holding `r`: back while the line above is not blank.
pub open spec fn paragraph_start(t: Seq<Seq<char>>, r: int) -> int
    decreases r,
{
    if r > 0 && r - 1 < t.len() && !blank(t[r - 1]) {
        paragraph_start(t, r - 1)
    } else {
        r
    }
}

/// The row after the paragraph holding `r`: forward while the line is not blank.
pub open spec fn paragraph_end(t: Seq<Seq<char>>, r: int) -> int
    decreases t.len() - r,
{
    if 0 <= r < t.len() && !blank(t[r]) {
        paragraph_end(t, r + 1)
    } else {
        r
    }
}

/// The paragraph around the cursor row: from its first line to the blank line after it
/// (or the end of the text); "around" also takes that blank line.
pub open spec fn paragraph_object(t: Seq<Seq<char>>, cursor: Position, mode: TextObjectMode) -> TextObjectRange {
    let s = paragraph_start(t, cursor.row as int);
    let e = paragraph_end(t, cursor.row as int);
    let end_pos = if e < t.len() {
        Position { row: e as usize, col: 0 }
    } else {
        Position { row: (t.len() - 1) as usize, col: t[t.len() - 1].len() as usize }
    };
    let final_end = if mode == TextObjectMode::Around && e < t.len() {
        Position { row: (e + 1) as usize, col: 0 }
    } else {
        end_pos
    };
    TextObjectRange { start: Position { row: s as usize, col: 0 }, end: final_end, object_type: TextObjectType::Paragraph, mode }
}

/// The indices, below `n`, at which `l` holds `q`, in order.
pub open spec fn positions(l: Seq<char>, q: char, n: int) -> Seq<int>
    decreases n,
{
    if n <= 0 {
        Seq::empty()
    } else if l[n - 1] == q {
        positions(l, q, n - 1).push(n - 1)
    } else {
        positions(l, q, n - 1)
    }
}

/// The first of the consecutive pairs of `qs` (first and second, third and fourth, ...),
/// from pair `k` on, that encloses `col`.
pub open spec fn enclosing_pair(qs: Seq<int>, col: int, k: int) -> Option<(int, int)>
    decreases qs.len() - 2 * k,
{
    if k < 0 || 2 * k + 1 >= qs.len() {
        None
    } else if qs[2 * k] <= col <= qs[2 * k + 1] {
        Some((qs[2 * k], qs[2 * k + 1]))
    } else {
        enclosing_pair(qs, col, k + 1)
    }
}

/// The columns a pair `(a, b)` selects: inside the delimiters, or including them.
pub open spec fn select_pair(p: Option<(int, int)>, mode: TextObjectMode) -> Option<(int, int)> {
    match p {
        Some((a, b)) => match mode {
            TextObjectMode::Inner => Some((a + 1, b)),
            TextObjectMode::Around => Some((a, b + 1)),
        },
        None => None,
    }
}

/// The quoted text around `col`: quotes of kind `q` pair up in order along the line.
pub open spec fn quote_pair(l: Seq<char>, col: int, q: char, mode: TextObjectMode) -> Option<(int, int)> {
    select_pair(enclosing_pair(positions(l, q, l.len() as int), col, 0), mode)
}

/// The quote object: the first of `"`, `'`, backquote whose pairs enclose the cursor.
pub open spec fn quote_object(t: Seq<Seq<char>>, cursor: Position, mode: TextObjectMode) -> Option<TextObjectRange> {
    if cursor.row >= t.len() || t[cursor.row as int].len() == 0 {
        None
    } else {
        let l = t[cursor.row as int];
        let col = cursor.col as int;
        let found = if quote_pair(l, col, '"', mode) is Some {
            quote_pair(l, col, '"', mode)
        } else if quote_pair(l, col, '\'', mode) is Some {
            quote_pair(l, col, '\'', mode)
        } else {
            quote_pair(l, col, '`', mode)
        };
        match found {
            Some((a, b)) => Some(
                TextObjectRange {
                    start: Position { row: cursor.row, col: a as usize },
                    end: Position { row: cursor.row, col: b as usize },
                    object_type: TextObjectType::Quote,
                    mode,
                },
            ),
            None => None,
        }
    }
}

/// Matching `open` and `close` along the first `n` characters: the unmatched opening
/// columns (a stack) and the matched pairs in the order their closing bracket comes.
pub open spec fn bracket_scan(l: Seq<char>, open: char, close: char, n: int) -> (Seq<int>, Seq<(int, int)>)
    decreases n,
{
    if n <= 0 {
        (Seq::empty(), Seq::empty())
    } else {
        let (stack, pairs) = bracket_scan(l, open, close, n - 1);
        let ch = l[n - 1];
        if ch == open {
            (stack.push(n - 1), pairs)
        } else if ch == close && stack.len() > 0 {
            (stack.drop_last(), pairs.push((stack.last(), n - 1)))
        } else {
            (stack, pairs)
        }
    }
}

/// The first pair from index `k` on that encloses `col`.
pub open spec fn first_enclosing(pairs: Seq<(int, int)>, col: int, k: int) -> Option<(int, int)>
    decreases pairs.len() - k,
{
    if k < 0 || k >= pairs.len() {
        None
    } else if pairs[k].0 <= col <= pairs[k].1 {
        Some(pairs[k])
    } else {
        first_enclosing(pairs, col, k + 1)
    }
}

/// The bracket pair around `col`, within the line.
pub open spec fn bracket_pair(l: Seq<char>, col: int, open: char, close: char, mode: TextObjectMode) -> Option<(int, int)> {
    select_pair(first_enclosing(bracket_scan(l, open, close, l.len() as int).1, col, 0), mode)
}

/// The object type for an opening bracket.
pub open spec fn bracket_type(open: char) -> TextObjectType {
    if open == '(' {
        TextObjectType::Paren
    } else if open == '[' {
        TextObjectType::Bracket
    } else if open == '{' {
        TextObjectType::Brace
    } else if open == '<' {
        TextObjectType::Angle
    } else {
        TextObjectType::Paren
    }
}

pub open spec fn bracket_object(t: Seq<Seq<char>>, cursor: Position, mode: TextObjectMode, open: char, close: char) -> Option<TextObjectRange> {
    if cursor.row >= t.len() {
        None
    } else {
        match bracket_pair(t[cursor.row as int], cursor.col as int, open, close, mode) {
            Some((a, b)) => Some(
                TextObjectRange {
                    start: Position { row: cursor.row, col: a as usize },
                    end: Position { row: cursor.row, col: b as usize },
                    object_type: bracket_type(open),
                    mode,
                },
            ),
            None => None,
        }
    }
}

pub open spec fn ints(v: Seq<usize>) -> Seq<int> {
    v.map_values(|x: usize| x as int)
}

pub open spec fn int_pairs(v: Seq<(usize, usize)>) -> Seq<(int, int)> {
    v.map_values(|p: (usize, usize)| (p.0 as int, p.1 as int))
}

pub open spec fn int_pair(o: Option<(usize, usize)>) -> Option<(int, int)> {
    match o {
        Some((a, b)) => Some((a as int, b as int)),
        None => None,
    }
}

/// Characters that separate words by default.
pub open spec fn default_separators() -> Seq<char> {
    seq![' ', '\t', '\n', '\r', '.', ',', ';', ':', '!', '?', '(', ')', '[', ']', '{', '}', '"', '\'', '<', '>']
}

/// Characters that end sentences by default.
pub open spec fn default_enders() -> Seq<char> {
    seq!['.', '!', '?']
}

/// Text object finder - finds text object ranges at cursor position
pub struct TextObjectFinder {
    /// Characters that separate words
    pub word_separators: String,
    /// Characters that end sentences
    pub sentence_enders: String,
    /// Matching pairs for brackets/quotes
    pub bracket_pairs: Vec<(char, char)>,
}

impl Default for TextObjectFinder {
    fn default() -> (f: Self)
        ensures
            f.word_separators@ == default_separators(),
            f.sentence_enders@ == default_enders(),
            f.bracket_pairs@ == seq![('(', ')'), ('[', ']'), ('{', '}'), ('<', '>'), ('"', '"'), ('\'', '\''), ('`', '`')],
    {
        let mut seps: Vec<char> = Vec::new();
        seps.push(' ');
        seps.push('\t');
        seps.push('\n');
        seps.push('\r');
        seps.push('.');
        seps.push(',');
        seps.push(';');
        seps.push(':');
        seps.push('!');
        seps.push('?');
        seps.push('(');
        seps.push(')');
        seps.push('[');
        seps.push(']');
        seps.push('{');
        seps.push('}');
        seps.push('"');
        seps.push('\'');
        seps.push('<');
        seps.push('>');
        let mut enders: Vec<char> = Vec::new();
        enders.push('.');
        enders.push('!');
        enders.push('?');
        let mut pairs: Vec<(char, char)> = Vec::new();
        pairs.push(('(', ')'));
        pairs.push(('[', ']'));
        pairs.push(('{', '}'));
        pairs.push(('<', '>'));
        pairs.push(('"', '"'));
        pairs.push(('\'', '\''));
        pairs.push(('`', '`'));
        assert(seps@ =~= default_separators());
        assert(enders@ =~= default_enders());
        assert(pairs@ =~= seq![('(', ')'), ('[', ']'), ('{', '}'), ('<', '>'), ('"', '"'), ('\'', '\''), ('`', '`')]);
        Self {
            word_separators: text::string_from_chars(seps.as_slice()),
            sentence_enders: text::string_from_chars(enders.as_slice()),
            bracket_pairs: pairs,
        }
    }
}

impl TextObjectFinder {
    /// What `find_text_object` finds.
    pub open spec fn spec_find(&self, t: Seq<Seq<char>>, cursor: Position, object_type: TextObjectType, mode: TextObjectMode) -> Option<TextObjectRange> {
        match object_type {
            TextObjectType::Word => word_object(t, cursor, mode, self.word_separators@, false),
            TextObjectType::Word2 => word_object(t, cursor, mode, self.word_separators@, true),
            TextObjectType::Sentence => sentence_object(t, cursor, mode, self.sentence_enders@),
            TextObjectType::Paragraph => Some(paragraph_object(t, cursor, mode)),
            TextObjectType::Quote => quote_object(t, cursor, mode),
            TextObjectType::Paren => bracket_object(t, cursor, mode, '(', ')'),
            TextObjectType::Bracket => bracket_object(t, cursor, mode, '[', ']'),
            TextObjectType::Brace => bracket_object(t, cursor, mode, '{', '}'),
            TextObjectType::Angle => bracket_object(t, cursor, mode, '<', '>'),
            TextObjectType::Tag => None,
        }
    }

    /// When finding reads only characters and lines that exist.
    pub open spec fn find_ok(&self, t: Seq<Seq<char>>, cursor: Position, object_type: TextObjectType, mode: TextObjectMode) -> bool {
        match object_type {
            TextObjectType::Word => word_object_ok(t, cursor, mode, self.word_separators@, false),
            TextObjectType::Word2 => word_object_ok(t, cursor, mode, self.word_separators@, true),
            TextObjectType::Sentence => cursor.row < t.len() ==> cursor.col <= t[cursor.row as int].len(),
            TextObjectType::Paragraph => t.len() > 0,
            _ => true,
        }
    }

    pub fn new() -> (f: Self)
        ensures
            f.word_separators@ == default_separators(),
            f.sentence_enders@ == default_enders(),
            f.bracket_pairs@ == seq![('(', ')'), ('[', ']'), ('{', '}'), ('<', '>'), ('"', '"'), ('\'', '\''), ('`', '`')],
    {
        Self::default()
    }

    /// Find a text object at the given cursor position
    pub fn find_text_object(&self, buffer: &Buffer, cursor: Position, object_type: TextObjectType, mode: TextObjectMode) -> (r: Result<Option<TextObjectRange>, anyhow::Error>)
        requires
            self.find_ok(buffer.text(), cursor, object_type, mode),
        ensures
            r matches Ok(found) && found == self.spec_find(buffer.text(), cursor, object_type, mode),
    {
        match object_type {
            TextObjectType::Word => self.find_word(buffer, cursor, mode),
            TextObjectType::Word2 => self.find_word2(buffer, cursor, mode),
            TextObjectType::Sentence => self.find_sentence(buffer, cursor, mode),
            TextObjectType::Paragraph => self.find_paragraph(buffer, cursor, mode),
            TextObjectType::Quote => self.find_quote(buffer, cursor, mode),
            TextObjectType::Paren => self.find_bracket_pair(buffer, cursor, mode, '(', ')'),
            TextObjectType::Bracket => self.find_bracket_pair(buffer, cursor, mode, '[', ']'),
            TextObjectType::Brace => self.find_bracket_pair(buffer, cursor, mode, '{', '}'),
            TextObjectType::Angle => self.find_bracket_pair(buffer, cursor, mode, '<', '>'),
            TextObjectType::Tag => self.find_tag(buffer, cursor, mode),
        }
    }

    /// Extends `[start, end)` for "around" (see `around`).
    fn extend_around(chars: &Vec<char>, start: usize, end: usize) -> (r: (usize, usize))
        requires
            start <= end <= chars@.len(),
        ensures
            (r.0 as int, r.1 as int) == around(chars@, start as int, end as int),
    {
        let extended_end = scan_forward(chars, end, true);
        if extended_end == end && start > 0 {
            let s = Self::back_whitespace(chars, start, true);
            (s, end)
        } else {
            (start, extended_end)
        }
    }

    /// Steps back while the character before is (`ws`) or is not whitespace.
    pub(crate) fn back_whitespace(chars: &Vec<char>, pos: usize, ws: bool) -> (r: usize)
        requires
            pos <= chars@.len(),
        ensures
            r == back_ws_run(chars@, pos as int, ws),
            r <= pos,
    {
        let mut p = pos;
        while p > 0 && is_whitespace(chars[p - 1]) == ws
            invariant
                p <= pos <= chars@.len(),
                back_ws_run(chars@, p as int, ws) == back_ws_run(chars@, pos as int, ws),
            decreases p,
        {
            p = p - 1;
        }
        p
    }

    /// Find word text object (separated by whitespace and punctuation)
    fn find_word(&self, buffer: &Buffer, cursor: Position, mode: TextObjectMode) -> (r: Result<Option<TextObjectRange>, anyhow::Error>)
        requires
            word_object_ok(buffer.text(), cursor, mode, self.word_separators@, false),
        ensures
            r matches Ok(found) && found == word_object(buffer.text(), cursor, mode, self.word_separators@, false),
    {
        self.find_word_like(buffer, cursor, mode, false)
    }

    /// Find WORD text object (separated only by whitespace)
    fn find_word2(&self, buffer: &Buffer, cursor: Position, mode: TextObjectMode) -> (r: Result<Option<TextObjectRange>, anyhow::Error>)
        requires
            word_object_ok(buffer.text(), cursor, mode, self.word_separators@, true),
        ensures
            r matches Ok(found) && found == word_object(buffer.text(), cursor, mode, self.word_separators@, true),
    {
        self.find_word_like(buffer, cursor, mode, true)
    }

    fn find_word_like(&self, buffer: &Buffer, cursor: Position, mode: TextObjectMode, big: bool) -> (r: Result<Option<TextObjectRange>, anyhow::Error>)
        requires
            word_object_ok(buffer.text(), cursor, mode, self.word_separators@, big),
        ensures
            r matches Ok(found) && found == word_object(buffer.text(), cursor, mode, self.word_separators@, big),
    {
        if cursor.row >= buffer.lines.len() {
            return Ok(None);
        }
        let chars = chars_of(buffer.lines[cursor.row].as_str());
        assert(chars@ == buffer.text()[cursor.row as int]);
        if chars.len() == 0 {
            return Ok(None);
        }
        let cursor_col = if cursor.col < chars.len() - 1 { cursor.col } else { chars.len() - 1 };
        let on_gap = if big { is_whitespace(chars[cursor_col]) } else { self.is_word_separator(chars[cursor_col]) };
        if on_gap {
            return match mode {
                TextObjectMode::Inner => Ok(None),
                TextObjectMode::Around => self.find_whitespace_around(buffer, cursor),
            };
        }
        let word_start = if big { self.find_word2_start(&chars, cursor_col) } else { self.find_word_start(&chars, cursor_col) };
        let word_end = if big { self.find_word2_end(&chars, cursor_col) } else { self.find_word_end(&chars, cursor_col) };
        let (s, e) = if mode == TextObjectMode::Around {
            Self::extend_around(&chars, word_start, word_end)
        } else {
            (word_start, word_end)
        };
        let object_type = if big { TextObjectType::Word2 } else { TextObjectType::Word };
        Ok(Some(TextObjectRange::new(Position::new(cursor.row, s), Position::new(cursor.row, e), object_type, mode)))
    }

    /// Find HTML/XML tag text object: tags are not recognized, so there is never one.
    fn find_tag(&self, _buffer: &Buffer, _cursor: Position, _mode: TextObjectMode) -> (r: Result<Option<TextObjectRange>, anyhow::Error>)
        ensures
            r matches Ok(found) && found.is_none(),
    {
        Ok(None)
    }

    fn is_word_separator(&self, ch: char) -> (b: bool)
        ensures
            b == self.word_separators@.contains(ch),
    {
        let seps = chars_of(self.word_separators.as_str());
        let mut i: usize = 0;
        while i < seps.len()
            invariant
                i <= seps@.len(),
                seps@ == self.word_separators@,
                forall|k: int| 0 <= k < i ==> seps@[k] != ch,
            decreases seps@.len() - i,
        {
            if seps[i] == ch {
                return true;
            }
            i = i + 1;
        }
        false
    }

    fn find_word_start(&self, chars: &Vec<char>, pos: usize) -> (r: usize)
        requires
            pos <= chars@.len(),
        ensures
            r == back_outside(chars@, pos as int, self.word_separators@),
            r <= pos,
    {
        let mut start = pos;
        while start > 0 && !self.is_word_separator(chars[start - 1])
            invariant
                start <= pos <= chars@.len(),
                back_outside(chars@, start as int, self.word_separators@) == back_outside(chars@, pos as int, self.word_separators@),
            decreases start,
        {
            start = start - 1;
        }
        start
    }

    fn find_word_end(&self, chars: &Vec<char>, pos: usize) -> (r: usize)
        requires
            pos <= chars@.len(),
        ensures
            r == fwd_outside(chars@, pos as int, self.word_separators@),
            pos <= r <= chars@.len(),
    {
        let mut end = pos;
        while end < chars.len() && !self.is_word_separator(chars[end])
            invariant
                pos <= end <= chars@.len(),
                fwd_outside(chars@, end as int, self.word_separators@) == fwd_outside(chars@, pos as int, self.word_separators@),
            decreases chars@.len() - end,
        {
            end = end + 1;
        }
        end
    }

    fn find_word2_start(&self, chars: &Vec<char>, pos: usize) -> (r: usize)
        requires
            pos <= chars@.len(),
        ensures
            r == back_ws_run(chars@, pos as int, false),
            r <= pos,
    {
        Self::back_whitespace(chars, pos, false)
    }

    fn find_word2_end(&self, chars: &Vec<char>, pos: usize) -> (r: usize)
        requires
            pos <= chars@.len(),
        ensures
            r == text::scan_fwd(chars@, pos as int, false),
            pos <= r <= chars@.len(),
    {
        scan_forward(chars, pos, false)
    }

    fn find_whitespace_around(&self, buffer: &Buffer, cursor: Position) -> (r: Result<Option<TextObjectRange>, anyhow::Error>)
        requires
            cursor.row < buffer.lines@.len() ==> cursor.col <= buffer.text()[cursor.row as int].len(),
        ensures
            r matches Ok(found) && found == whitespace_around(buffer.text(), cursor),
    {
        if cursor.row >= buffer.lines.len() {
            return Ok(None);
        }
        let chars = chars_of(buffer.lines[cursor.row].as_str());
        assert(chars@ == buffer.text()[cursor.row as int]);
        let start = Self::back_whitespace(&chars, cursor.col, true);
        let end = scan_forward(&chars, cursor.col, true);
        if start < end {
            Ok(Some(TextObjectRange::new(Position::new(cursor.row, start), Position::new(cursor.row, end), TextObjectType::Word, TextObjectMode::Around)))
        } else {
            Ok(None)
        }
    }

    fn contains_ender(&self, ch: char) -> (b: bool)
        ensures
            b == self.sentence_enders@.contains(ch),
    {
        let enders = chars_of(self.sentence_enders.as_str());
        let mut i: usize = 0;
        while i < enders.len()
            invariant
                i <= enders@.len(),
                enders@ == self.sentence_enders@,
                forall|k: int| 0 <= k < i ==> enders@[k] != ch,
            decreases enders@.len() - i,
        {
            if enders[i] == ch {
                return true;
            }
            i = i + 1;
        }
        false
    }

    fn find_sentence_start(&self, buffer: &Buffer, cursor: Position) -> (r: Result<Option<Position>, anyhow::Error>)
        requires
            cursor.row < buffer.lines@.len() ==> cursor.col <= buffer.text()[cursor.row as int].len(),
        ensures
            r matches Ok(found) && found == (if cursor.row < buffer.lines@.len() {
                Some(Position { row: cursor.row, col: sentence_start(buffer.text()[cursor.row as int], cursor.col as int, self.sentence_enders@) as usize })
            } else {
                None
            }),
    {
        if cursor.row >= buffer.lines.len() {
            return Ok(None);
        }
        let chars = chars_of(buffer.lines[cursor.row].as_str());
        let ghost l = chars@;
        assert(l == buffer.text()[cursor.row as int]);
        let mut pos = cursor.col;
        while pos > 0
            invariant
                pos <= cursor.col <= l.len(),
                l == chars@,
                cursor.row < buffer.lines@.len(),
                l == buffer.text()[cursor.row as int],
                sentence_start(l, pos as int, self.sentence_enders@) == sentence_start(l, cursor.col as int, self.sentence_enders@),
            decreases pos,
        {
            if self.contains_ender(chars[pos - 1]) {
                let p = scan_forward(&chars, pos, true);
                return Ok(Some(Position::new(cursor.row, p)));
            }
            pos = pos - 1;
        }
        Ok(Some(Position::new(cursor.row, 0)))
    }

    fn find_sentence_end(&self, buffer: &Buffer, cursor: Position) -> (r: Result<Option<Position>, anyhow::Error>)
        ensures
            r matches Ok(found) && found == (if cursor.row < buffer.lines@.len() {
                Some(Position { row: cursor.row, col: sentence_end(buffer.text()[cursor.row as int], cursor.col as int, self.sentence_enders@) as usize })
            } else {
                None
            }),
    {
        if cursor.row >= buffer.lines.len() {
            return Ok(None);
        }
        let chars = chars_of(buffer.lines[cursor.row].as_str());
        let ghost l = chars@;
        assert(l == buffer.text()[cursor.row as int]);
        let mut pos = cursor.col;
        while pos < chars.len()
            invariant
                cursor.col <= pos,
                l == chars@,
                cursor.row < buffer.lines@.len(),
                l == buffer.text()[cursor.row as int],
                sentence_end(l, pos as int, self.sentence_enders@) == sentence_end(l, cursor.col as int, self.sentence_enders@),
            decreases chars@.len() - pos,
        {
            if self.contains_ender(chars[pos]) {
                return Ok(Some(Position::new(cursor.row, pos + 1)));
            }
            pos = pos + 1;
        }
        Ok(Some(Position::new(cursor.row, chars.len())))
    }

    /// Find sentence text object
    fn find_sentence(&self, buffer: &Buffer, cursor: Position, mode: TextObjectMode) -> (r: Result<Option<TextObjectRange>, anyhow::Error>)
        requires
            cursor.row < buffer.lines@.len() ==> cursor.col <= buffer.text()[cursor.row as int].len(),
        ensures
            r matches Ok(found) && found == sentence_object(buffer.text(), cursor, mode, self.sentence_enders@),
    {
        let sentence_start = self.find_sentence_start(buffer, cursor)?;
        let sentence_end = self.find_sentence_end(buffer, cursor)?;
        if let (Some(start), Some(end)) = (sentence_start, sentence_end) {
            let start_pos = start;
            let mut end_pos = end;
            if mode == TextObjectMode::Around {
                let chars = chars_of(buffer.lines[end_pos.row].as_str());
                proof {
                    assert(chars@ == buffer.text()[cursor.row as int]);
                    lemma_sentence_end_bound(chars@, cursor.col as int, self.sentence_enders@);
                    text::lemma_scan_fwd_bounds(chars@, end_pos.col as int, true);
                }
                if end_pos.col <= chars.len() {
                    end_pos.col = scan_forward(&chars, end_pos.col, true);
                }
            }
            return Ok(Some(TextObjectRange::new(start_pos, end_pos, TextObjectType::Sentence, mode)));
        }
        Ok(None)
    }

    /// A line that holds only whitespace.
    fn is_blank(line: &str) -> (b: bool)
        ensures
            b == blank(line@),
    {
        let chars = chars_of(line);
        let mut i: usize = 0;
        while i < chars.len()
            invariant
                i <= chars@.len(),
                chars@ == line@,
                forall|k: int| 0 <= k < i ==> text::is_ws(chars@[k]),
            decreases chars@.len() - i,
        {
            if !is_whitespace(chars[i]) {
                return false;
            }
            i = i + 1;
        }
        true
    }

    /// Find paragraph text object
    fn find_paragraph(&self, buffer: &Buffer, cursor: Position, mode: TextObjectMode) -> (r: Result<Option<TextObjectRange>, anyhow::Error>)
        requires
            buffer.lines@.len() > 0,
        ensures
            r matches Ok(found) && found == Some(paragraph_object(buffer.text(), cursor, mode)),
    {
        let ghost t = buffer.text();
        let current_row = cursor.row;
        let mut start_row = current_row;
        while start_row > 0
            invariant
                start_row <= current_row,
                t == buffer.text(),
                paragraph_start(t, start_row as int) == paragraph_start(t, current_row as int),
            ensures
                paragraph_start(t, start_row as int) == start_row,
                paragraph_start(t, current_row as int) == start_row,
            decreases start_row,
        {
            if start_row - 1 < buffer.lines.len() {
                if Self::is_blank(buffer.lines[start_row - 1].as_str()) {
                    break;
                }
                start_row = start_row - 1;
            } else {
                break;
            }
        }
        let mut end_row = current_row;
        while end_row < buffer.lines.len()
            invariant
                current_row <= end_row,
                t == buffer.text(),
                paragraph_end(t, end_row as int) == paragraph_end(t, current_row as int),
            ensures
                paragraph_end(t, current_row as int) == end_row,
            decreases buffer.lines@.len() - end_row,
        {
            if Self::is_blank(buffer.lines[end_row].as_str()) {
                break;
            }
            end_row = end_row + 1;
        }
        let n = buffer.lines.len();
        let start_pos = Position::new(start_row, 0);
        let end_pos = if end_row < n {
            Position::new(end_row, 0)
        } else {
            let last_line = char_len(buffer.lines[n - 1].as_str());
            Position::new(n - 1, last_line)
        };
        let final_end = if mode == TextObjectMode::Around && end_row < n {
            Position::new(end_row + 1, 0)
        } else {
            end_pos
        };
        Ok(Some(TextObjectRange::new(start_pos, final_end, TextObjectType::Paragraph, mode)))
    }

    fn find_quote_pair(&self, chars: &Vec<char>, cursor_col: usize, quote_char: char, mode: TextObjectMode) -> (r: Result<Option<(usize, usize)>, anyhow::Error>)
        ensures
            r matches Ok(found) && int_pair(found) == quote_pair(chars@, cursor_col as int, quote_char, mode),
    {
        let mut quotes: Vec<usize> = Vec::new();
        let mut i: usize = 0;
        while i < chars.len()
            invariant
                i <= chars@.len(),
                ints(quotes@) == positions(chars@, quote_char, i as int),
                forall|k: int| 0 <= k < quotes@.len() ==> quotes@[k] < i,
            decreases chars@.len() - i,
        {
            if chars[i] == quote_char {
                quotes.push(i);
            }
            proof {
                assert(ints(quotes@) =~= positions(chars@, quote_char, i + 1));
            }
            i = i + 1;
        }
        let ghost qs = ints(quotes@);
        assert(qs == positions(chars@, quote_char, chars@.len() as int));
        let n: usize = chars.len();
        let mut k: usize = 0;
        while k < quotes.len() / 2
            invariant
                k <= quotes@.len() / 2,
                qs == ints(quotes@),
                qs == positions(chars@, quote_char, chars@.len() as int),
                forall|j: int| 0 <= j < quotes@.len() ==> quotes@[j] < n,
                enclosing_pair(qs, cursor_col as int, k as int) == enclosing_pair(qs, cursor_col as int, 0),
            decreases quotes@.len() / 2 - k,
        {
            let start = quotes[2 * k];
            let end = quotes[2 * k + 1];
            assert(qs[2 * k as int] == start as int && qs[2 * k + 1] == end as int);
            if cursor_col >= start && cursor_col <= end {
                return match mode {
                    TextObjectMode::Inner => Ok(Some((start + 1, end))),
                    TextObjectMode::Around => Ok(Some((start, end + 1))),
                };
            }
            k = k + 1;
        }
        Ok(None)
    }

    /// Find quoted text object
    fn find_quote(&self, buffer: &Buffer, cursor: Position, mode: TextObjectMode) -> (r: Result<Option<TextObjectRange>, anyhow::Error>)
        ensures
            r matches Ok(found) && found == quote_object(buffer.text(), cursor, mode),
    {
        if cursor.row >= buffer.lines.len() {
            return Ok(None);
        }
        let chars = chars_of(buffer.lines[cursor.row].as_str());
        assert(chars@ == buffer.text()[cursor.row as int]);
        if chars.len() == 0 {
            return Ok(None);
        }
        let candidates = ['"', '\'', '`'];
        let mut found: Option<(usize, usize)> = None;
        if let Some(range) = self.find_quote_pair(&chars, cursor.col, '"', mode)? {
            found = Some(range);
        } else if let Some(range) = self.find_quote_pair(&chars, cursor.col, '\'', mode)? {
            found = Some(range);
        } else if let Some(range) = self.find_quote_pair(&chars, cursor.col, '`', mode)? {
            found = Some(range);
        }
        let _ = candidates;
        match found {
            Some((a, b)) => Ok(Some(TextObjectRange::new(Position::new(cursor.row, a), Position::new(cursor.row, b), TextObjectType::Quote, mode))),
            None => Ok(None),
        }
    }

    fn find_matching_brackets(&self, chars: &Vec<char>, cursor_col: usize, open_char: char, close_char: char, mode: TextObjectMode) -> (r: Result<Option<(usize, usize)>, anyhow::Error>)
        ensures
            r matches Ok(found) && int_pair(found) == bracket_pair(chars@, cursor_col as int, open_char, close_char, mode),
    {
        let mut stack: Vec<usize> = Vec::new();
        let mut pairs: Vec<(usize, usize)> = Vec::new();
        let mut i: usize = 0;
        while i < chars.len()
            invariant
                i <= chars@.len(),
                (ints(stack@), int_pairs(pairs@)) == bracket_scan(chars@, open_char, close_char, i as int),
                forall|k: int| 0 <= k < stack@.len() ==> stack@[k] < i,
                forall|k: int| 0 <= k < pairs@.len() ==> pairs@[k].0 < i && pairs@[k].1 < i,
            decreases chars@.len() - i,
        {
            let ch = chars[i];
            let ghost st = stack@;
            let ghost ps = pairs@;
            if ch == open_char {
                stack.push(i);
                proof {
                    assert(ints(stack@) =~= ints(st).push(i as int));
                }
            } else if ch == close_char {
                if let Some(start) = stack.pop() {
                    pairs.push((start, i));
                    proof {
                        assert(ints(stack@) =~= ints(st).drop_last());
                        assert(int_pairs(pairs@) =~= int_pairs(ps).push((ints(st).last(), i as int)));
                    }
                }
            }
            i = i + 1;
        }
        let ghost ps = int_pairs(pairs@);
        assert(ps == bracket_scan(chars@, open_char, close_char, chars@.len() as int).1);
        let n: usize = chars.len();
        let mut k: usize = 0;
        while k < pairs.len()
            invariant
                k <= pairs@.len(),
                ps == int_pairs(pairs@),
                ps == bracket_scan(chars@, open_char, close_char, chars@.len() as int).1,
                forall|j: int| 0 <= j < pairs@.len() ==> pairs@[j].0 < n && pairs@[j].1 < n,
                first_enclosing(ps, cursor_col as int, k as int) == first_enclosing(ps, cursor_col as int, 0),
            decreases pairs@.len() - k,
        {
            let (start, end) = pairs[k];
            assert(ps[k as int] == (start as int, end as int));
            if cursor_col >= start && cursor_col <= end {
                return match mode {
                    TextObjectMode::Inner => Ok(Some((start + 1, end))),
                    TextObjectMode::Around => Ok(Some((start, end + 1))),
                };
            }
            k = k + 1;
        }
        Ok(None)
    }

    /// Find bracket pair text object
    fn find_bracket_pair(&self, buffer: &Buffer, cursor: Position, mode: TextObjectMode, open_char: char, close_char: char) -> (r: Result<Option<TextObjectRange>, anyhow::Error>)
        ensures
            r matches Ok(found) && found == bracket_object(buffer.text(), cursor, mode, open_char, close_char),
    {
        if cursor.row >= buffer.lines.len() {
            return Ok(None);
        }
        let chars = chars_of(buffer.lines[cursor.row].as_str());
        assert(chars@ == buffer.text()[cursor.row as int]);
        if let Some(range) = self.find_matching_brackets(&chars, cursor.col, open_char, close_char, mode)? {
            let object_type = if open_char == '(' {
                TextObjectType::Paren
            } else if open_char == '[' {
                TextObjectType::Bracket
            } else if open_char == '{' {
                TextObjectType::Brace
            } else if open_char == '<' {
                TextObjectType::Angle
            } else {
                TextObjectType::Paren
            };
            return Ok(Some(TextObjectRange::new(Position::new(cursor.row, range.0), Position::new(cursor.row, range.1), object_type, mode)));
        }
        Ok(None)
    }
}

/// The mode that a text object's first character names (`i` or `a`).
pub open spec fn mode_named(c: char) -> Option<TextObjectMode> {
    if c == 'i' {
        Some(TextObjectMode::Inner)
    } else if c == 'a' {
        Some(TextObjectMode::Around)
    } else {
        None
    }
}

/// The object type that a text object's second character names.
pub open spec fn type_named(c: char) -> Option<TextObjectType> {
    if c == 'w' {
        Some(TextObjectType::Word)
    } else if c == 'W' {
        Some(TextObjectType::Word2)
    } else if c == 's' {
        Some(TextObjectType::Sentence)
    } else if c == 'p' {
        Some(TextObjectType::Paragraph)
    } else if c == '"' || c == '\'' || c == '`' {
        Some(TextObjectType::Quote)
    } else if c == '(' || c == ')' || c == 'b' {
        Some(TextObjectType::Paren)
    } else if c == '[' || c == ']' {
        Some(TextObjectType::Bracket)
    } else if c == '{' || c == '}' || c == 'B' {
        Some(TextObjectType::Brace)
    } else if c == '<' || c == '>' {
        Some(TextObjectType::Angle)
    } else if c == 't' {
        Some(TextObjectType::Tag)
    } else {
        None
    }
}

/// What `parse_text_object` reads from a string such as `iw` or `a(`: the first two
/// characters name the mode and the object; whatever follows them is ignored.
pub open spec fn parsed_text_object(s: Seq<char>) -> Option<(TextObjectMode, TextObjectType)> {
    if s.len() < 2 {
        None
    } else {
        match (mode_named(s[0]), type_named(s[1])) {
            (Some(m), Some(t)) => Some((m, t)),
            _ => None,
        }
    }
}

/// Parse text object from string (e.g., "iw", "a(", "i\"", etc.)
pub fn parse_text_object(s: &str) -> (r: Option<(TextObjectMode, TextObjectType)>)
    ensures
        r == parsed_text_object(s@),
{
    let chars = chars_of(s);
    if chars.len() < 2 {
        return None;
    }
    let mode = match chars[0] {
        'i' => TextObjectMode::Inner,
        'a' => TextObjectMode::Around,
        _ => return None,
    };
    let object_type = match chars[1] {
        'w' => TextObjectType::Word,
        'W' => TextObjectType::Word2,
        's' => TextObjectType::Sentence,
        'p' => TextObjectType::Paragraph,
        '"' | '\'' | '`' => TextObjectType::Quote,
        '(' | ')' | 'b' => TextObjectType::Paren,  // 'b' is traditional vim for ()
        '[' | ']' => TextObjectType::Bracket,
        '{' | '}' | 'B' => TextObjectType::Brace,  // 'B' is traditional vim for {}
        '<' | '>' => TextObjectType::Angle,
        't' => TextObjectType::Tag,
        _ => return None,
    };
    Some((mode, object_type))
}


/// How many times `q` occurs in `s`.
pub open spec fn occurrences(s: Seq<char>, q: char) -> nat
    decreases s.len(),
{
    if s.len() == 0 {
        0
    } else {
        occurrences(s.drop_last(), q) + if s.last() == q {
            1nat
        } else {
            0nat
        }
    }
}

/// The list of the columns holding `q` is increasing, holds only such columns, and a
/// column holding `q` stands at the place given by how many come before it.
proof fn lemma_positions(l: Seq<char>, q: char, n: int)
    requires
        0 <= n <= l.len(),
    ensures
        positions(l, q, n).len() == occurrences(l.take(n), q),
        forall|m: int| 0 <= m < positions(l, q, n).len() ==> 0 <= #[trigger] positions(l, q, n)[m] < n && l[positions(l, q, n)[m]] == q,
        forall|m1: int, m2: int|
            0 <= m1 < m2 < positions(l, q, n).len() ==> #[trigger] positions(l, q, n)[m1] < #[trigger] positions(l, q, n)[m2],
        forall|i: int|
            0 <= i < n && l[i] == q ==> occurrences(#[trigger] l.take(i), q) < positions(l, q, n).len() && positions(l, q, n)[occurrences(l.take(i), q) as int] == i,
    decreases n,
{
    if n > 0 {
        lemma_positions(l, q, n - 1);
        assert(l.take(n).drop_last() =~= l.take(n - 1));
        assert(l.take(n).last() == l[n - 1]);
    } else {
        assert(l.take(0).len() == 0);
    }
}

/// Pairs before pair `j` lie wholly before it; so when pair `j` encloses `col`, it is
/// the one found from any earlier pair on.
proof fn lemma_enclosing_finds(qs: Seq<int>, col: int, k: int, j: int)
    requires
        0 <= k <= j,
        2 * j + 1 < qs.len(),
        forall|m1: int, m2: int| 0 <= m1 < m2 < qs.len() ==> #[trigger] qs[m1] < #[trigger] qs[m2],
        qs[2 * j] <= col <= qs[2 * j + 1],
    ensures
        enclosing_pair(qs, col, k) == Some((qs[2 * j], qs[2 * j + 1])),
    decreases j - k,
{
    if k < j {
        assert(qs[2 * k + 1] < qs[2 * j]);
        lemma_enclosing_finds(qs, col, k + 1, j);
    }
}

proof fn lemma_enclosing_is_pair(qs: Seq<int>, col: int, k: int)
    requires
        k >= 0,
    ensures
        enclosing_pair(qs, col, k) matches Some((x, y)) ==> exists|j: int|
            k <= j && 2 * j + 1 < qs.len() && #[trigger] qs[2 * j] == x && qs[2 * j + 1] == y && x <= col <= y,
    decreases qs.len() - 2 * k,
{
    if 2 * k + 1 < qs.len() && !(qs[2 * k] <= col <= qs[2 * k + 1]) {
        lemma_enclosing_is_pair(qs, col, k + 1);
    }
}

/// `i"` selects the text between two consecutive quotes of the line (the first and
/// second quote, the third and fourth, ...) around the cursor: both ends are quotes, no
/// quote lies between them, an even number of quotes comes before the opening one, and
/// whenever such a pair encloses the cursor it is the one selected. `a"` selects the
/// same pair with its quotes.
pub proof fn law_quote_pair_is_consecutive_quotes(l: Seq<char>, col: int, q: char)
    ensures
        quote_pair(l, col, q, TextObjectMode::Inner) matches Some((a, b)) ==> {
            &&& 1 <= a <= b < l.len()
            &&& l[a - 1] == q
            &&& l[b] == q
            &&& a - 1 <= col <= b
            &&& forall|i: int| a <= i < b ==> l[i] != q
            &&& occurrences(l.take(a - 1), q) % 2 == 0
        },
        quote_pair(l, col, q, TextObjectMode::Around) == match quote_pair(l, col, q, TextObjectMode::Inner) {
            Some((a, b)) => Some((a - 1, b + 1)),
            None => None,
        },
        forall|x: int, y: int|
            0 <= x < y < l.len() && l[x] == q && #[trigger] l[y] == q && (forall|i: int| x < i < y ==> l[i] != q)
                && occurrences(#[trigger] l.take(x), q) % 2 == 0 && x <= col <= y
                ==> quote_pair(l, col, q, TextObjectMode::Inner) == Some((x + 1, y)),
{
    let n = l.len() as int;
    let qs = positions(l, q, n);
    lemma_positions(l, q, n);
    lemma_enclosing_is_pair(qs, col, 0);
    if let Some((x, y)) = enclosing_pair(qs, col, 0) {
        let j = choose|j: int| 0 <= j && 2 * j + 1 < qs.len() && #[trigger] qs[2 * j] == x && qs[2 * j + 1] == y && x <= col <= y;
        assert(l[qs[2 * j]] == q && l[qs[2 * j + 1]] == q);
        assert(qs[2 * j] < qs[2 * j + 1]);
        assert forall|i: int| x < i < y implies l[i] != q by {
            if l[i] == q {
                let m = occurrences(l.take(i), q) as int;
                assert(qs[m] == i);
                if m <= 2 * j {
                    if m < 2 * j {
                        assert(qs[m] < qs[2 * j]);
                    }
                } else if m >= 2 * j + 1 {
                    if m > 2 * j + 1 {
                        assert(qs[2 * j + 1] < qs[m]);
                    }
                }
            }
        }
        let m = occurrences(l.take(x), q) as int;
        assert(qs[m] == x);
        if m < 2 * j {
            assert(qs[m] < qs[2 * j]);
        } else if m > 2 * j {
            assert(qs[2 * j] < qs[m]);
        }
        assert(m == 2 * j);
        assert((2 * j) % 2 == 0);
    }
    assert forall|x: int, y: int|
        0 <= x < y < l.len() && l[x] == q && #[trigger] l[y] == q && (forall|i: int| x < i < y ==> l[i] != q)
            && occurrences(#[trigger] l.take(x), q) % 2 == 0 && x <= col <= y
        implies quote_pair(l, col, q, TextObjectMode::Inner) == Some((x + 1, y)) by {
        let mx = occurrences(l.take(x), q) as int;
        let my = occurrences(l.take(y), q) as int;
        assert(qs[mx] == x);
        assert(qs[my] == y);
        if my <= mx {
            if my < mx {
                assert(qs[my] < qs[mx]);
            }
        }
        assert(my > mx);
        if my > mx + 1 {
            assert(qs[mx] < qs[mx + 1] && qs[mx + 1] < qs[my]);
            assert(l[qs[mx + 1]] == q);
        }
        assert(my == mx + 1);
        let j = mx / 2;
        assert(mx == 2 * j);
        lemma_enclosing_finds(qs, col, 0, j);
    }
}


/// What separates words: whitespace for WORDs, the separator characters for words.
pub open spec fn separates(c: char, seps: Seq<char>, big: bool) -> bool {
    if big {
        text::is_ws(c)
    } else {
        seps.contains(c)
    }
}

proof fn lemma_back_outside(l: Seq<char>, p: int, seps: Seq<char>)
    requires
        0 <= p <= l.len(),
    ensures
        0 <= back_outside(l, p, seps) <= p,
        forall|i: int| back_outside(l, p, seps) <= i < p ==> !seps.contains(#[trigger] l[i]),
        back_outside(l, p, seps) == 0 || seps.contains(l[back_outside(l, p, seps) - 1]),
    decreases p,
{
    if p > 0 && !seps.contains(l[p - 1]) {
        lemma_back_outside(l, p - 1, seps);
    }
}

proof fn lemma_fwd_outside(l: Seq<char>, p: int, seps: Seq<char>)
    requires
        0 <= p <= l.len(),
    ensures
        p <= fwd_outside(l, p, seps) <= l.len(),
        forall|i: int| p <= i < fwd_outside(l, p, seps) ==> !seps.contains(#[trigger] l[i]),
        fwd_outside(l, p, seps) == l.len() || seps.contains(l[fwd_outside(l, p, seps)]),
    decreases l.len() - p,
{
    if 0 <= p < l.len() && !seps.contains(l[p]) {
        lemma_fwd_outside(l, p + 1, seps);
    }
}

proof fn lemma_back_ws_run(l: Seq<char>, p: int, ws: bool)
    requires
        0 <= p <= l.len(),
    ensures
        0 <= back_ws_run(l, p, ws) <= p,
        forall|i: int| back_ws_run(l, p, ws) <= i < p ==> text::is_ws(#[trigger] l[i]) == ws,
        back_ws_run(l, p, ws) == 0 || text::is_ws(l[back_ws_run(l, p, ws) - 1]) != ws,
    decreases p,
{
    if p > 0 && text::is_ws(l[p - 1]) == ws {
        lemma_back_ws_run(l, p - 1, ws);
    }
}

/// `iw` (or `iW`) on a character of a word selects that whole word: the longest run of
/// non-separators holding the cursor character (the cursor column is taken as the
/// last column when it lies past the line). On a separator it selects nothing. `aw`
/// adds the blanks after the word, or, when there are none, those before it.
pub proof fn law_word_object_is_the_word_under_cursor(
    t: Seq<Seq<char>>,
    cursor: Position,
    seps: Seq<char>,
    big: bool,
)
    requires
        cursor.row < t.len(),
        0 < t[cursor.row as int].len() <= usize::MAX,
    ensures
        ({
            let l = t[cursor.row as int];
            let n = l.len() as int;
            let cc = text::min_int(cursor.col as int, n - 1);
            separates(l[cc], seps, big) ==> word_object(t, cursor, TextObjectMode::Inner, seps, big) is None
        }),
        ({
            let l = t[cursor.row as int];
            let n = l.len() as int;
            let cc = text::min_int(cursor.col as int, n - 1);
            !separates(l[cc], seps, big) ==> (word_object(t, cursor, TextObjectMode::Inner, seps, big) matches Some(
                w,
            ) && {
                let s = w.start.col as int;
                let e = w.end.col as int;
                &&& w.start.row == cursor.row && w.end.row == cursor.row
                &&& s <= cc < e <= n
                &&& forall|i: int| s <= i < e ==> !separates(#[trigger] l[i], seps, big)
                &&& s == 0 || separates(l[s - 1], seps, big)
                &&& e == n || separates(l[e], seps, big)
                &&& word_object(t, cursor, TextObjectMode::Around, seps, big) matches Some(a) && {
                    let s2 = a.start.col as int;
                    let e2 = a.end.col as int;
                    &&& a.start.row == cursor.row && a.end.row == cursor.row
                    &&& s2 <= s && e <= e2 <= n
                    &&& forall|i: int| s2 <= i < s ==> text::is_ws(#[trigger] l[i])
                    &&& forall|i: int| e <= i < e2 ==> text::is_ws(#[trigger] l[i])
                    &&& e < n && text::is_ws(l[e]) ==> s2 == s && (e2 == n || !text::is_ws(l[e2]))
                    &&& !(e < n && text::is_ws(l[e])) ==> e2 == e && (s2 == 0 || !text::is_ws(l[s2 - 1]))
                }
            })
        }),
{
    let l = t[cursor.row as int];
    let n = l.len() as int;
    let cc = text::min_int(cursor.col as int, n - 1);
    if !separates(l[cc], seps, big) {
        let ws = if big {
            back_ws_run(l, cc, false)
        } else {
            back_outside(l, cc, seps)
        };
        let we = if big {
            text::scan_fwd(l, cc, false)
        } else {
            fwd_outside(l, cc, seps)
        };
        if big {
            lemma_back_ws_run(l, cc, false);
            crate::motion::lemma_scan_fwd_run(l, cc, false);
            assert(we > cc);
        } else {
            lemma_back_outside(l, cc, seps);
            lemma_fwd_outside(l, cc, seps);
            assert(we > cc);
        }
        assert(forall|i: int| ws <= i < we ==> !separates(#[trigger] l[i], seps, big)) by {
            assert forall|i: int| ws <= i < we implies !separates(#[trigger] l[i], seps, big) by {
                if i == cc {
                } else if i < cc {
                } else {
                }
            }
        }
        let ext = text::scan_fwd(l, we, true);
        crate::motion::lemma_scan_fwd_run(l, we, true);
        lemma_back_ws_run(l, ws, true);
        let (s2, e2) = around(l, ws, we);
        if ext == we && ws > 0 {
            assert(s2 == back_ws_run(l, ws, true));
            assert(we < n ==> !text::is_ws(l[we]));
        } else {
            assert(s2 == ws && e2 == ext);
            if !(we < n && text::is_ws(l[we])) {
                assert(ext == we);
                assert(ws == 0);
            }
        }
    }
}


/// How many more `open` than `close` characters `s` holds.
pub open spec fn depth(s: Seq<char>, open: char, close: char) -> int
    decreases s.len(),
{
    if s.len() == 0 {
        0
    } else {
        depth(s.drop_last(), open, close) + if s.last() == open {
            1int
        } else if s.last() == close {
            -1int
        } else {
            0int
        }
    }
}

/// Every `close` in `s` closes an `open` before it in `s`, and every `open` is closed.
pub open spec fn balanced(s: Seq<char>, open: char, close: char) -> bool {
    &&& depth(s, open, close) == 0
    &&& forall|i: int| 0 <= i <= s.len() ==> depth(#[trigger] s.take(i), open, close) >= 0
}

proof fn lemma_depth_concat(a: Seq<char>, b: Seq<char>, open: char, close: char)
    ensures
        depth(a + b, open, close) == depth(a, open, close) + depth(b, open, close),
    decreases b.len(),
{
    if b.len() == 0 {
        assert(a + b =~= a);
    } else {
        assert((a + b).drop_last() =~= a + b.drop_last());
        lemma_depth_concat(a, b.drop_last(), open, close);
    }
}

proof fn lemma_balanced_push_other(s: Seq<char>, ch: char, open: char, close: char)
    requires
        balanced(s, open, close),
        ch != open,
        ch != close,
    ensures
        balanced(s.push(ch), open, close),
{
    let t = s.push(ch);
    assert(t.drop_last() =~= s);
    assert forall|i: int| 0 <= i <= t.len() implies depth(#[trigger] t.take(i), open, close) >= 0 by {
        if i <= s.len() {
            assert(t.take(i) =~= s.take(i));
        } else {
            assert(t.take(i) =~= t);
        }
    }
}

proof fn lemma_balanced_wrap(a: Seq<char>, b: Seq<char>, open: char, close: char)
    requires
        balanced(a, open, close),
        balanced(b, open, close),
        open != close,
    ensures
        balanced(a + seq![open] + b + seq![close], open, close),
{
    let w = a + seq![open] + b + seq![close];
    lemma_depth_concat(a, seq![open], open, close);
    lemma_depth_concat(a + seq![open], b, open, close);
    lemma_depth_concat(a + seq![open] + b, seq![close], open, close);
    assert(seq![open].drop_last() =~= Seq::<char>::empty());
    assert(seq![close].drop_last() =~= Seq::<char>::empty());
    assert(depth(Seq::<char>::empty(), open, close) == 0);
    assert(seq![open].last() == open);
    assert(seq![close].last() == close);
    assert(depth(seq![open], open, close) == 1);
    assert(depth(seq![close], open, close) == -1);
    assert forall|i: int| 0 <= i <= w.len() implies depth(#[trigger] w.take(i), open, close) >= 0 by {
        let na = a.len() as int;
        let nb = b.len() as int;
        if i <= na {
            assert(w.take(i) =~= a.take(i));
        } else if i <= na + 1 + nb {
            assert(w.take(i) =~= a + seq![open] + b.take(i - na - 1));
            lemma_depth_concat(a, seq![open], open, close);
            lemma_depth_concat(a + seq![open], b.take(i - na - 1), open, close);
            assert(a.take(na) =~= a);
        } else {
            assert(w.take(i) =~= w);
        }
    }
}

/// What the scan over the first `n` characters keeps: the open brackets still waiting
/// hold `open`, in increasing order, with balanced text after each; each matched pair
/// holds `open` then `close` with balanced text between.
pub open spec fn scan_ok(l: Seq<char>, open: char, close: char, n: int, st: Seq<int>, pairs: Seq<(int, int)>) -> bool {
    &&& forall|k: int| 0 <= k < st.len() ==> 0 <= #[trigger] st[k] < n && l[st[k]] == open
    &&& forall|j: int, k: int| 0 <= j < k < st.len() ==> #[trigger] st[j] < #[trigger] st[k]
    &&& forall|k: int|
        0 <= k < st.len() ==> balanced(
            l.subrange(#[trigger] st[k] + 1, if k + 1 < st.len() {
                st[k + 1]
            } else {
                n
            }),
            open,
            close,
        )
    &&& forall|j: int|
        0 <= j < pairs.len() ==> {
            let x = (#[trigger] pairs[j]).0;
            let y = pairs[j].1;
            &&& 0 <= x < y < n
            &&& l[x] == open
            &&& l[y] == close
            &&& balanced(l.subrange(x + 1, y), open, close)
        }
}

proof fn lemma_bracket_scan(l: Seq<char>, open: char, close: char, n: int)
    requires
        0 <= n <= l.len(),
        open != close,
    ensures
        scan_ok(l, open, close, n, bracket_scan(l, open, close, n).0, bracket_scan(l, open, close, n).1),
    decreases n,
{
    if n > 0 {
        lemma_bracket_scan(l, open, close, n - 1);
        let (st, pairs) = bracket_scan(l, open, close, n - 1);
        let ch = l[n - 1];
        let m = st.len() as int;
        if ch == open {
            let st2 = st.push(n - 1);
            assert forall|k: int|
                0 <= k < st2.len() implies balanced(
                l.subrange(#[trigger] st2[k] + 1, if k + 1 < st2.len() {
                    st2[k + 1]
                } else {
                    n
                }),
                open,
                close,
            ) by {
                if k < m {
                    assert(st2[k] == st[k]);
                    if k + 1 < m {
                        assert(st2[k + 1] == st[k + 1]);
                    }
                } else {
                    let e = l.subrange(n, n);
                    assert(e =~= Seq::<char>::empty());
                    assert forall|i: int| 0 <= i <= e.len() implies depth(#[trigger] e.take(i), open, close) >= 0 by {
                        assert(e.take(i) =~= Seq::<char>::empty());
                    }
                }
            }
            assert(scan_ok(l, open, close, n, st2, pairs));
        } else if ch == close && m > 0 {
            let top = st.last();
            let st2 = st.drop_last();
            let pairs2 = pairs.push((top, n - 1));
            assert(balanced(l.subrange(st[m - 1] + 1, n - 1), open, close));
            assert forall|k: int|
                0 <= k < st2.len() implies balanced(
                l.subrange(#[trigger] st2[k] + 1, if k + 1 < st2.len() {
                    st2[k + 1]
                } else {
                    n
                }),
                open,
                close,
            ) by {
                assert(st2[k] == st[k]);
                if k + 1 < st2.len() {
                    assert(st2[k + 1] == st[k + 1]);
                } else {
                    assert(k == m - 2);
                    let a = l.subrange(st[k] + 1, top);
                    let b = l.subrange(top + 1, n - 1);
                    lemma_balanced_wrap(a, b, open, close);
                    assert(l.subrange(st[k] + 1, n) =~= a + seq![open] + b + seq![close]);
                }
            }
            assert(scan_ok(l, open, close, n, st2, pairs2));
        } else {
            assert forall|k: int|
                0 <= k < st.len() implies balanced(
                l.subrange(#[trigger] st[k] + 1, if k + 1 < st.len() {
                    st[k + 1]
                } else {
                    n
                }),
                open,
                close,
            ) by {
                if k + 1 >= st.len() {
                    lemma_balanced_push_other(l.subrange(st[k] + 1, n - 1), ch, open, close);
                    assert(l.subrange(st[k] + 1, n) =~= l.subrange(st[k] + 1, n - 1).push(ch));
                }
            }
            assert(scan_ok(l, open, close, n, st, pairs));
        }
    }
}

proof fn lemma_first_enclosing(pairs: Seq<(int, int)>, col: int, k: int)
    requires
        k >= 0,
    ensures
        first_enclosing(pairs, col, k) matches Some(p) ==> exists|j: int|
            k <= j < pairs.len() && #[trigger] pairs[j] == p && p.0 <= col <= p.1 && forall|i: int|
                k <= i < j ==> !((#[trigger] pairs[i]).0 <= col <= pairs[i].1),
    decreases pairs.len() - k,
{
    if k < pairs.len() && !(pairs[k].0 <= col <= pairs[k].1) {
        lemma_first_enclosing(pairs, col, k + 1);
    }
}

proof fn lemma_pairs_grow(l: Seq<char>, open: char, close: char, m: int, n: int)
    requires
        0 <= m <= n,
    ensures
        bracket_scan(l, open, close, m).1.len() <= bracket_scan(l, open, close, n).1.len(),
        forall|i: int|
            0 <= i < bracket_scan(l, open, close, m).1.len() ==> #[trigger] bracket_scan(l, open, close, n).1[i]
                == bracket_scan(l, open, close, m).1[i],
    decreases n - m,
{
    if n > m {
        lemma_pairs_grow(l, open, close, m, n - 1);
    }
}

proof fn lemma_pairs_index(l: Seq<char>, open: char, close: char, n: int)
    requires
        0 <= n,
    ensures
        forall|j: int|
            0 <= j < bracket_scan(l, open, close, n).1.len() ==> (#[trigger] bracket_scan(l, open, close, n).1[j]).1
                < n && bracket_scan(l, open, close, bracket_scan(l, open, close, n).1[j].1).1.len() == j,
    decreases n,
{
    if n > 0 {
        lemma_pairs_index(l, open, close, n - 1);
        let prev = bracket_scan(l, open, close, n - 1);
        let cur = bracket_scan(l, open, close, n);
        assert forall|j: int| 0 <= j < cur.1.len() implies (#[trigger] cur.1[j]).1 < n && bracket_scan(
            l,
            open,
            close,
            cur.1[j].1,
        ).1.len() == j by {
            if j < prev.1.len() {
                assert(cur.1[j] == prev.1[j]);
            } else {
                assert(cur.1[j].1 == n - 1);
            }
        }
    }
}

/// Scanning balanced text on top of a non-empty stack of open brackets never touches
/// that stack: the stack grows by the text's depth so far.
proof fn lemma_balanced_segment(l: Seq<char>, open: char, close: char, n0: int, n: int, n1: int)
    requires
        0 <= n0 <= n <= n1 <= l.len(),
        open != close,
        balanced(l.subrange(n0, n1), open, close),
        bracket_scan(l, open, close, n0).0.len() > 0,
    ensures
        bracket_scan(l, open, close, n).0.len() == bracket_scan(l, open, close, n0).0.len() + depth(
            l.subrange(n0, n),
            open,
            close,
        ),
        forall|k: int|
            0 <= k < bracket_scan(l, open, close, n0).0.len() ==> #[trigger] bracket_scan(l, open, close, n).0[k]
                == bracket_scan(l, open, close, n0).0[k],
    decreases n - n0,
{
    if n == n0 {
        assert(l.subrange(n0, n) =~= Seq::<char>::empty());
    } else {
        lemma_balanced_segment(l, open, close, n0, n - 1, n1);
        let seg = l.subrange(n0, n);
        assert(seg.drop_last() =~= l.subrange(n0, n - 1));
        assert(seg.last() == l[n - 1]);
        assert(l.subrange(n0, n1).take(n - n0) =~= seg);
        assert(depth(seg, open, close) >= 0);
        assert(l.subrange(n0, n1).take(n - 1 - n0) =~= l.subrange(n0, n - 1));
        assert(depth(l.subrange(n0, n - 1), open, close) >= 0);
        let m = bracket_scan(l, open, close, n0).0.len() as int;
        let prev = bracket_scan(l, open, close, n - 1).0;
        let cur = bracket_scan(l, open, close, n).0;
        assert forall|k: int| 0 <= k < m implies #[trigger] cur[k] == bracket_scan(l, open, close, n0).0[k] by {
            assert(prev[k] == bracket_scan(l, open, close, n0).0[k]);
            if l[n - 1] == open {
                assert(cur == prev.push(n - 1));
            } else if l[n - 1] == close {
                assert(depth(seg, open, close) == depth(l.subrange(n0, n - 1), open, close) - 1);
                assert(prev.len() > 0);
                assert(cur == prev.drop_last());
                assert(k < prev.len() - 1);
            } else {
                assert(cur == prev);
            }
        }
    }
}

proof fn lemma_balanced_segment_end(l: Seq<char>, open: char, close: char, n0: int, n1: int)
    requires
        0 <= n0 <= n1 <= l.len(),
        open != close,
        balanced(l.subrange(n0, n1), open, close),
        bracket_scan(l, open, close, n0).0.len() > 0,
    ensures
        bracket_scan(l, open, close, n1).0 == bracket_scan(l, open, close, n0).0,
{
    lemma_balanced_segment(l, open, close, n0, n1, n1);
    assert(bracket_scan(l, open, close, n1).0 =~= bracket_scan(l, open, close, n0).0);
}

/// `i(` (and `i[`, `i{`, `i<`) selects the text between an opening bracket and the
/// closing bracket that matches it, around the cursor: both ends are those brackets,
/// and the text between them is balanced, every bracket in it matched inside it; and
/// it is the innermost such pair: no bracket pair with balanced text between lies
/// inside it around the cursor. `a(` selects the same pair with its brackets.
pub proof fn law_bracket_pair_matches(l: Seq<char>, col: int, open: char, close: char)
    requires
        open != close,
    ensures
        bracket_pair(l, col, open, close, TextObjectMode::Inner) matches Some((a, b)) ==> {
            &&& 1 <= a <= b < l.len()
            &&& l[a - 1] == open
            &&& l[b] == close
            &&& a - 1 <= col <= b
            &&& balanced(l.subrange(a, b), open, close)
            &&& forall|z: int, w: int|
                a <= z <= col <= w < b && l[z] == open && #[trigger] l[w] == close ==> !balanced(
                    #[trigger] l.subrange(z + 1, w),
                    open,
                    close,
                )
        },
        bracket_pair(l, col, open, close, TextObjectMode::Around) == match bracket_pair(
            l,
            col,
            open,
            close,
            TextObjectMode::Inner,
        ) {
            Some((a, b)) => Some((a - 1, b + 1)),
            None => None,
        },
{
    let n = l.len() as int;
    lemma_bracket_scan(l, open, close, n);
    let pairs = bracket_scan(l, open, close, n).1;
    lemma_first_enclosing(pairs, col, 0);
    if let Some(p) = first_enclosing(pairs, col, 0) {
        let j = choose|j: int|
            0 <= j < pairs.len() && #[trigger] pairs[j] == p && p.0 <= col <= p.1 && forall|i: int|
                0 <= i < j ==> !((#[trigger] pairs[i]).0 <= col <= pairs[i].1);
        assert(pairs[j] == p);
        let (x, y) = p;
        assert forall|z: int, w: int|
            x + 1 <= z <= col <= w < y && l[z] == open && #[trigger] l[w] == close && balanced(
                #[trigger] l.subrange(z + 1, w),
                open,
                close,
            ) implies false by {
            lemma_bracket_scan(l, open, close, z);
            assert(bracket_scan(l, open, close, z + 1).0 == bracket_scan(l, open, close, z).0.push(z));
            lemma_balanced_segment(l, open, close, z + 1, w, w);
            lemma_balanced_segment_end(l, open, close, z + 1, w);
            let pw = bracket_scan(l, open, close, w).1;
            let i = pw.len() as int;
            assert(bracket_scan(l, open, close, w + 1).1 == pw.push((z, w)));
            lemma_pairs_grow(l, open, close, w + 1, n);
            assert(pairs[i] == (z, w));
            assert(j <= i);
            lemma_pairs_index(l, open, close, n);
            assert(bracket_scan(l, open, close, y).1.len() == j);
            lemma_pairs_grow(l, open, close, w + 1, y);
        }
    }
}

} // verus!
