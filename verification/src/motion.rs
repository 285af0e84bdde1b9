//! Cursor motions over a list of lines, shared by both buffer kinds.
use crate::mode::Position;
use crate::text;
use crate::text::{char_len, chars_of, is_whitespace, scan_back_word, scan_back_ws, scan_forward};
use vstd::prelude::*;

verus! {

/// The cursor after `w`: past the rest of the current word and the blanks after it,
/// or to the start of the next line when that reaches the end of the line.
pub fn next_word(lines: &Vec<String>, c: Position) -> (p: Position)
    ensures
        p == text::next_word_pos(text::seqs(lines@), c),
{
    if c.row >= lines.len() {
        return c;
    }
    let ghost t = text::seqs(lines@);
    let cs = chars_of(lines[c.row].as_str());
    assert(cs@ == t[c.row as int]);
    let len = cs.len();
    if c.col > len {
        proof {
            text::lemma_scan_fwd_bounds(cs@, c.col as int, false);
            text::lemma_scan_fwd_bounds(cs@, c.col as int, true);
        }
        if c.row + 1 < lines.len() {
            return Position { row: c.row + 1, col: 0 };
        } else {
            return Position { row: c.row, col: len };
        }
    }
    let p1 = scan_forward(&cs, c.col, false);
    let p2 = scan_forward(&cs, p1, true);
    if p2 >= len && c.row + 1 < lines.len() {
        Position { row: c.row + 1, col: 0 }
    } else {
        Position { row: c.row, col: if p2 < len { p2 } else { len } }
    }
}

/// The cursor after `b`: back over blanks, then to the start of the word before.
pub fn previous_word(lines: &Vec<String>, c: Position) -> (p: Position)
    requires
        c.col > 0 ==> c.row < lines@.len(),
    ensures
        p == text::prev_word_pos(text::seqs(lines@), c),
{
    let ghost t = text::seqs(lines@);
    if c.col > 0 {
        let cs = chars_of(lines[c.row].as_str());
        assert(cs@ == t[c.row as int]);
        let p1 = scan_back_ws(&cs, c.col - 1);
        let p2 = scan_back_word(&cs, p1);
        Position { row: c.row, col: p2 }
    } else if c.row > 0 {
        let r = c.row - 1;
        if r < lines.len() {
            let n = char_len(lines[r].as_str());
            Position { row: r, col: n }
        } else {
            Position { row: r, col: c.col }
        }
    } else {
        c
    }
}

/// The cursor after `e`: to the last character of the current (or next) word.
pub fn word_end(lines: &Vec<String>, c: Position) -> (p: Position)
    ensures
        p == text::word_end_pos(text::seqs(lines@), c),
{
    let ghost t = text::seqs(lines@);
    if c.row >= lines.len() {
        return c;
    }
    let cs = chars_of(lines[c.row].as_str());
    assert(cs@ == t[c.row as int]);
    let len = cs.len();
    if c.col >= len {
        return c;
    }
    let mut pos = c.col;
    if is_whitespace(cs[pos]) {
        pos = scan_forward(&cs, pos, true);
    }
    pos = scan_forward(&cs, pos, false);
    if pos > 0 {
        pos = pos - 1;
    }
    Position { row: c.row, col: if pos < len - 1 { pos } else { len - 1 } }
}

/// The position `move_cursor` settles on for a requested position.
pub fn clamp(lines: &Vec<String>, want: Position) -> (p: Position)
    ensures
        p == text::clamp_pos(text::seqs(lines@), want),
{
    let ghost t = text::seqs(lines@);
    let max_row = if lines.len() == 0 {
        0
    } else {
        lines.len() - 1
    };
    let row = if want.row < max_row {
        want.row
    } else {
        max_row
    };
    let max_col = if row < lines.len() {
        char_len(lines[row].as_str())
    } else {
        0
    };
    let col = if want.col < max_col {
        want.col
    } else {
        max_col
    };
    Position { row, col }
}


/// A word begins at column `i` of `line`: a non-blank there, and a blank (or the start
/// of the line) before it.
pub open spec fn word_starts_at(line: Seq<char>, i: int) -> bool {
    &&& !text::is_ws(text::char_or_space(line, i))
    &&& (i == 0 || text::is_ws(text::char_or_space(line, i - 1)))
}

proof fn lemma_back_ws(s: Seq<char>, p: int)
    requires
        p >= 0,
    ensures
        0 <= text::back_ws(s, p) <= p,
        forall|i: int| text::back_ws(s, p) < i <= p ==> text::is_ws(text::char_or_space(s, i)),
        text::back_ws(s, p) == 0 || !text::is_ws(text::char_or_space(s, text::back_ws(s, p))),
    decreases p,
{
    if p > 0 && text::is_ws(text::char_or_space(s, p)) {
        lemma_back_ws(s, p - 1);
    }
}

proof fn lemma_back_word(s: Seq<char>, p: int)
    requires
        p >= 0,
    ensures
        0 <= text::back_word(s, p) <= p,
        forall|i: int| text::back_word(s, p) <= i < p ==> !text::is_ws(text::char_or_space(s, i)),
        text::back_word(s, p) == 0 || text::is_ws(text::char_or_space(s, text::back_word(s, p) - 1)),
    decreases p,
{
    if p > 0 && !text::is_ws(text::char_or_space(s, p - 1)) {
        lemma_back_word(s, p - 1);
    }
}

/// `b` from a column past the first stays on the line and goes back to the nearest
/// word start before the cursor (column 0 when there is none); so from inside a word
/// it goes to the first column of that same word.
pub proof fn law_b_goes_to_nearest_word_start(t: Seq<Seq<char>>, c: Position)
    requires
        c.col > 0,
        c.row < t.len(),
    ensures
        text::prev_word_pos(t, c).row == c.row,
        text::prev_word_pos(t, c).col < c.col,
        text::prev_word_pos(t, c).col == 0 || word_starts_at(t[c.row as int], text::prev_word_pos(t, c).col as int),
        forall|i: int|
            text::prev_word_pos(t, c).col < i < c.col ==> !#[trigger] word_starts_at(t[c.row as int], i),
        !text::is_ws(text::char_or_space(t[c.row as int], c.col - 1)) ==> forall|i: int|
            text::prev_word_pos(t, c).col <= i < c.col ==> !text::is_ws(#[trigger] text::char_or_space(t[c.row as int], i)),
{
    let line = t[c.row as int];
    let q = text::back_ws(line, c.col - 1);
    lemma_back_ws(line, c.col - 1);
    lemma_back_word(line, q);
    let r = text::back_word(line, q);
    assert(text::prev_word_pos(t, c).col == r);
    assert forall|i: int| r < i < c.col implies !#[trigger] word_starts_at(line, i) by {
        if i <= q {
            assert(!text::is_ws(text::char_or_space(line, i - 1)));
        } else {
            assert(text::is_ws(text::char_or_space(line, i)));
        }
    }
    if r > 0 {
        if r == q {
            assert(!text::is_ws(text::char_or_space(line, r)));
        } else {
            assert(!text::is_ws(text::char_or_space(line, r)));
        }
    }
    if !text::is_ws(text::char_or_space(line, c.col - 1)) {
        assert(q == c.col - 1);
    }
}


pub proof fn lemma_scan_fwd_run(s: Seq<char>, p: int, ws: bool)
    requires
        0 <= p,
    ensures
        p <= text::scan_fwd(s, p, ws),
        forall|i: int| p <= i < text::scan_fwd(s, p, ws) ==> 0 <= i < s.len() && text::is_ws(s[i]) == ws,
        0 <= text::scan_fwd(s, p, ws) < s.len() ==> text::is_ws(s[text::scan_fwd(s, p, ws)]) != ws,
        p <= s.len() ==> text::scan_fwd(s, p, ws) <= s.len(),
        p > s.len() ==> text::scan_fwd(s, p, ws) == p,
    decreases s.len() - p,
{
    if 0 <= p < s.len() && text::is_ws(s[p]) == ws {
        lemma_scan_fwd_run(s, p + 1, ws);
    }
}

/// `w` goes to the nearest word start after the cursor on its line; when there is
/// none, to the start of the next line, or to the end of the last line.
pub proof fn law_w_goes_to_next_word_start(t: Seq<Seq<char>>, c: Position)
    requires
        c.row < t.len(),
        t[c.row as int].len() <= usize::MAX,
    ensures
        (exists|i: int| c.col < i < t[c.row as int].len() && #[trigger] word_starts_at(t[c.row as int], i)) ==> {
            let p = text::next_word_pos(t, c);
            &&& p.row == c.row
            &&& c.col < p.col < t[c.row as int].len()
            &&& word_starts_at(t[c.row as int], p.col as int)
            &&& forall|i: int| c.col < i < p.col ==> !#[trigger] word_starts_at(t[c.row as int], i)
        },
        !(exists|i: int| c.col < i < t[c.row as int].len() && #[trigger] word_starts_at(t[c.row as int], i)) ==> {
            &&& c.row + 1 < t.len() ==> text::next_word_pos(t, c) == Position { row: (c.row + 1) as usize, col: 0 }
            &&& c.row + 1 >= t.len() ==> text::next_word_pos(t, c) == Position {
                row: c.row,
                col: t[c.row as int].len() as usize,
            }
        },
{
    let line = t[c.row as int];
    let n = line.len() as int;
    let col = c.col as int;
    let p1 = text::scan_fwd(line, col, false);
    let p2 = text::scan_fwd(line, p1, true);
    lemma_scan_fwd_run(line, col, false);
    lemma_scan_fwd_run(line, p1, true);
    assert forall|i: int| col < i < p2 && i < n implies !#[trigger] word_starts_at(line, i) by {
        if i < p1 {
            assert(!text::is_ws(line[i - 1]));
        } else if i == p1 {
            assert(text::is_ws(line[i]));
        } else {
            assert(text::is_ws(line[i]));
        }
    }
    if p2 < n {
        assert(col < n);
        assert(p2 > col) by {
            if p2 == col {
                assert(p1 == col);
            }
        }
        assert(p2 > p1) by {
            if p2 == p1 {
                assert(!text::is_ws(line[p2]));
                assert(!text::is_ws(line[p1 - 1]));
            }
        }
        assert(word_starts_at(line, p2));
    }
    if exists|i: int| col < i < n && #[trigger] word_starts_at(line, i) {
        let i = choose|i: int| col < i < n && #[trigger] word_starts_at(line, i);
        assert(p2 < n);
        assert(text::next_word_pos(t, c) == Position { row: c.row, col: p2 as usize });
    } else {
        assert(p2 >= n);
        if c.row + 1 >= t.len() {
            assert(text::min_int(p2, n) == n);
        }
    }
}

/// A word ends at column `i` of `line`: a non-blank there, and a blank (or the end of
/// the line) after it.
pub open spec fn word_ends_at(line: Seq<char>, i: int) -> bool {
    &&& 0 <= i < line.len()
    &&& !text::is_ws(line[i])
    &&& (i + 1 == line.len() || text::is_ws(line[i + 1]))
}

/// `e` on a column of its line goes to the nearest word end at or after the cursor;
/// when only blanks follow, to the last column of the line.
pub proof fn law_e_goes_to_next_word_end(t: Seq<Seq<char>>, c: Position)
    requires
        c.row < t.len(),
        c.col < t[c.row as int].len(),
        t[c.row as int].len() <= usize::MAX,
    ensures
        text::word_end_pos(t, c).row == c.row,
        (exists|j: int| c.col <= j < t[c.row as int].len() && !text::is_ws(#[trigger] t[c.row as int][j])) ==> {
            let e = text::word_end_pos(t, c).col as int;
            &&& c.col <= e
            &&& word_ends_at(t[c.row as int], e)
            &&& forall|i: int| c.col <= i < e ==> !#[trigger] word_ends_at(t[c.row as int], i)
        },
        !(exists|j: int| c.col <= j < t[c.row as int].len() && !text::is_ws(#[trigger] t[c.row as int][j]))
            ==> text::word_end_pos(t, c).col == t[c.row as int].len() - 1,
{
    let line = t[c.row as int];
    let n = line.len() as int;
    let col = c.col as int;
    let p0 = if text::is_ws(line[col]) {
        text::scan_fwd(line, col, true)
    } else {
        col
    };
    lemma_scan_fwd_run(line, col, true);
    let p1 = text::scan_fwd(line, p0, false);
    lemma_scan_fwd_run(line, p0, false);
    assert(p0 <= n);
    assert(p1 <= n);
    let p2 = if p1 > 0 {
        p1 - 1
    } else {
        p1
    };
    assert(text::word_end_pos(t, c).col == text::min_int(p2, n - 1));
    if exists|j: int| col <= j < n && !text::is_ws(#[trigger] line[j]) {
        let j = choose|j: int| col <= j < n && !text::is_ws(#[trigger] line[j]);
        assert(p0 < n && !text::is_ws(line[p0])) by {
            if p0 >= n {
                assert(text::is_ws(line[j]));
            }
        }
        assert(p1 > p0);
        let e = p1 - 1;
        assert(text::word_end_pos(t, c).col == e);
        assert(word_ends_at(line, e));
        assert forall|i: int| col <= i < e implies !#[trigger] word_ends_at(line, i) by {
            if i < p0 {
                assert(text::is_ws(line[i]));
            } else {
                assert(!text::is_ws(line[i + 1]));
            }
        }
    } else {
        assert(text::is_ws(line[col]));
        assert(p0 == n) by {
            if p0 < n {
                assert(!text::is_ws(line[p0]));
            }
        }
        assert(p1 == n);
    }
}

} // verus!
