//! Character-level helpers shared by the buffers, the text objects and the
//! command machinery. Lines are `String`s whose model is their sequence of
//! characters; every column in this crate counts characters.
use vstd::prelude::*;

verus! {

broadcast use vstd::string::group_string_axioms;

/// The Unicode `White_Space` property, which is what `char::is_whitespace` tests.
pub open spec fn is_ws(c: char) -> bool {
    let u = c as u32;
    ||| 0x09 <= u <= 0x0d
    ||| u == 0x20
    ||| u == 0x85
    ||| u == 0xa0
    ||| u == 0x1680
    ||| 0x2000 <= u <= 0x200a
    ||| u == 0x2028
    ||| u == 0x2029
    ||| u == 0x202f
    ||| u == 0x205f
    ||| u == 0x3000
}

/// Whitespace test on one character.
pub fn is_whitespace(c: char) -> (b: bool)
    ensures
        b == is_ws(c),
{
    let u = c as u32;
    (0x09 <= u && u <= 0x0d) || u == 0x20 || u == 0x85 || u == 0xa0 || u == 0x1680 || (0x2000
        <= u && u <= 0x200a) || u == 0x2028 || u == 0x2029 || u == 0x202f || u == 0x205f || u
        == 0x3000
}

/// Appends one character to a string (`String::push`).
#[verifier::external_body]
pub fn push_char(s: &mut String, c: char)
    ensures
        final(s)@ == old(s)@.push(c),
{
    s.push(c);
}

/// The characters of a string, in order.
pub fn chars_of(s: &str) -> (v: Vec<char>)
    ensures
        v@ == s@,
{
    let mut v: Vec<char> = Vec::new();
    for c in it: s.chars()
        invariant
            v@ == it.seq().take(it.index() as int),
            it.seq() == s@,
    {
        v.push(c);
    }
    v
}

/// A string made of the given characters.
pub fn string_from_chars(cs: &[char]) -> (s: String)
    ensures
        s@ == cs@,
{
    let mut s = String::new();
    let mut i: usize = 0;
    while i < cs.len()
        invariant
            i <= cs@.len(),
            s@ == cs@.take(i as int),
        decreases cs@.len() - i,
    {
        push_char(&mut s, cs[i]);
        proof {
            assert(cs@.take(i + 1) =~= cs@.take(i as int).push(cs@[i as int]));
        }
        i = i + 1;
    }
    proof {
        assert(cs@.take(cs@.len() as int) =~= cs@);
    }
    s
}

} // verus!

verus! {

/// The character model of a list of lines.
pub open spec fn seqs(lines: Seq<String>) -> Seq<Seq<char>> {
    lines.map_values(|l: String| l@)
}

/// Character `i` of `s`, or a space past either end (what `chars().nth(i).unwrap_or(' ')` reads).
pub open spec fn char_or_space(s: Seq<char>, i: int) -> char {
    if 0 <= i < s.len() {
        s[i]
    } else {
        ' '
    }
}

/// Number of characters of a string.
pub fn char_len(s: &str) -> (n: usize)
    ensures
        n == s@.len(),
{
    let v = chars_of(s);
    v.len()
}

/// `s` with `c` inserted before character `idx`.
pub fn insert_char_at(s: &str, idx: usize, c: char) -> (r: String)
    requires
        idx <= s@.len(),
    ensures
        r@ == s@.insert(idx as int, c),
        s@.len() < usize::MAX,
{
    let mut v = chars_of(s);
    v.insert(idx, c);
    let _n = v.len();
    string_from_chars(v.as_slice())
}

/// `s` without character `idx`.
pub fn remove_char_at(s: &str, idx: usize) -> (r: String)
    requires
        idx < s@.len(),
    ensures
        r@ == s@.remove(idx as int),
{
    let mut v = chars_of(s);
    v.remove(idx);
    string_from_chars(v.as_slice())
}

/// Characters `from..to` of `s`.
pub fn substring(s: &str, from: usize, to: usize) -> (r: String)
    requires
        from <= to <= s@.len(),
    ensures
        r@ == s@.subrange(from as int, to as int),
{
    let v = chars_of(s);
    let mut r = String::new();
    let mut i = from;
    while i < to
        invariant
            from <= i <= to,
            to <= v@.len(),
            v@ == s@,
            r@ == s@.subrange(from as int, i as int),
        decreases to - i,
    {
        push_char(&mut r, v[i]);
        proof {
            assert(s@.subrange(from as int, i + 1) =~= s@.subrange(from as int, i as int).push(
                s@[i as int],
            ));
        }
        i = i + 1;
    }
    r
}

/// The concatenation of two strings.
pub fn concat(a: &str, b: &str) -> (r: String)
    ensures
        r@ == a@ + b@,
{
    let mut v = chars_of(a);
    let w = chars_of(b);
    let mut r = string_from_chars(v.as_slice());
    let mut i: usize = 0;
    while i < w.len()
        invariant
            i <= w@.len(),
            w@ == b@,
            r@ == a@ + b@.take(i as int),
        decreases w@.len() - i,
    {
        push_char(&mut r, w[i]);
        proof {
            assert(a@ + b@.take(i + 1) =~= (a@ + b@.take(i as int)).push(b@[i as int]));
        }
        i = i + 1;
    }
    proof {
        assert(b@.take(b@.len() as int) =~= b@);
    }
    r
}

/// A copy of a string literal or slice as an owned string.
pub fn owned(s: &str) -> (r: String)
    ensures
        r@ == s@,
{
    let v = chars_of(s);
    string_from_chars(v.as_slice())
}

/// Whether two strings hold the same characters.
pub fn str_eq(a: &str, b: &str) -> (r: bool)
    ensures
        r == (a@ == b@),
{
    let v = chars_of(a);
    let w = chars_of(b);
    if v.len() != w.len() {
        return false;
    }
    let mut i: usize = 0;
    while i < v.len()
        invariant
            i <= v@.len(),
            v@.len() == w@.len(),
            v@ == a@,
            w@ == b@,
            forall|k: int| 0 <= k < i ==> v@[k] == w@[k],
        decreases v@.len() - i,
    {
        if v[i] != w[i] {
            return false;
        }
        i = i + 1;
    }
    proof {
        assert(v@ =~= w@);
    }
    true
}

/// Whether `s` begins with `prefix`.
pub fn starts_with(s: &str, prefix: &str) -> (r: bool)
    ensures
        r == (prefix@.len() <= s@.len() && s@.take(prefix@.len() as int) == prefix@),
{
    let v = chars_of(s);
    let w = chars_of(prefix);
    if w.len() > v.len() {
        return false;
    }
    let mut i: usize = 0;
    while i < w.len()
        invariant
            i <= w@.len(),
            w@.len() <= v@.len(),
            v@ == s@,
            w@ == prefix@,
            forall|k: int| 0 <= k < i ==> v@[k] == w@[k],
        decreases w@.len() - i,
    {
        if v[i] != w[i] {
            proof {
                assert(s@.take(prefix@.len() as int)[i as int] != prefix@[i as int]);
            }
            return false;
        }
        i = i + 1;
    }
    proof {
        assert(s@.take(prefix@.len() as int) =~= prefix@);
    }
    true
}

} // verus!

verus! {

pub proof fn lemma_seqs_update(lines: Seq<String>, i: int, s: String)
    requires
        0 <= i < lines.len(),
    ensures
        seqs(lines.update(i, s)) == seqs(lines).update(i, s@),
{
    assert(seqs(lines.update(i, s)) =~= seqs(lines).update(i, s@));
}

pub proof fn lemma_seqs_push(lines: Seq<String>, s: String)
    ensures
        seqs(lines.push(s)) == seqs(lines).push(s@),
{
    assert(seqs(lines.push(s)) =~= seqs(lines).push(s@));
}

pub proof fn lemma_seqs_insert(lines: Seq<String>, i: int, s: String)
    requires
        0 <= i <= lines.len(),
    ensures
        seqs(lines.insert(i, s)) == seqs(lines).insert(i, s@),
{
    assert(seqs(lines.insert(i, s)) =~= seqs(lines).insert(i, s@));
}

pub proof fn lemma_seqs_remove(lines: Seq<String>, i: int)
    requires
        0 <= i < lines.len(),
    ensures
        seqs(lines.remove(i)) == seqs(lines).remove(i),
{
    assert(seqs(lines.remove(i)) =~= seqs(lines).remove(i));
}

/// Advances from `p` while the character there is (or is not, by `ws`) whitespace.
pub open spec fn scan_fwd(s: Seq<char>, p: int, ws: bool) -> int
    decreases s.len() - p,
{
    if 0 <= p < s.len() && is_ws(s[p]) == ws {
        scan_fwd(s, p + 1, ws)
    } else {
        p
    }
}

pub proof fn lemma_scan_fwd_bounds(s: Seq<char>, p: int, ws: bool)
    requires
        0 <= p,
    ensures
        p <= scan_fwd(s, p, ws),
        p <= s.len() ==> scan_fwd(s, p, ws) <= s.len(),
        p > s.len() ==> scan_fwd(s, p, ws) == p,
    decreases s.len() - p,
{
    if 0 <= p < s.len() && is_ws(s[p]) == ws {
        lemma_scan_fwd_bounds(s, p + 1, ws);
    }
}

/// Index just past the run starting at `p` of characters whose whitespace-ness is `ws`.
pub fn scan_forward(cs: &Vec<char>, p: usize, ws: bool) -> (q: usize)
    requires
        p <= cs@.len(),
    ensures
        q == scan_fwd(cs@, p as int, ws),
        p <= q <= cs@.len(),
{
    let mut q = p;
    proof {
        lemma_scan_fwd_bounds(cs@, p as int, ws);
    }
    while q < cs.len() && is_whitespace(cs[q]) == ws
        invariant
            p <= q <= cs@.len(),
            scan_fwd(cs@, q as int, ws) == scan_fwd(cs@, p as int, ws),
        decreases cs@.len() - q,
    {
        q = q + 1;
    }
    q
}

} // verus!

verus! {

/// Steps back from `p` over whitespace (reading past the end as a space).
pub open spec fn back_ws(s: Seq<char>, p: int) -> int
    decreases p,
{
    if p > 0 && is_ws(char_or_space(s, p)) {
        back_ws(s, p - 1)
    } else {
        p
    }
}

/// Steps back from `p` while the character before it is not whitespace.
pub open spec fn back_word(s: Seq<char>, p: int) -> int
    decreases p,
{
    if p > 0 && !is_ws(char_or_space(s, p - 1)) {
        back_word(s, p - 1)
    } else {
        p
    }
}

/// Character `i` of `cs`, or a space past the end.
pub fn char_at_or_space(cs: &Vec<char>, i: usize) -> (c: char)
    ensures
        c == char_or_space(cs@, i as int),
{
    if i < cs.len() {
        cs[i]
    } else {
        ' '
    }
}

pub fn scan_back_ws(cs: &Vec<char>, p: usize) -> (q: usize)
    ensures
        q == back_ws(cs@, p as int),
        q <= p,
{
    let mut q = p;
    while q > 0 && is_whitespace(char_at_or_space(cs, q))
        invariant
            q <= p,
            back_ws(cs@, q as int) == back_ws(cs@, p as int),
        decreases q,
    {
        q = q - 1;
    }
    q
}

pub fn scan_back_word(cs: &Vec<char>, p: usize) -> (q: usize)
    ensures
        q == back_word(cs@, p as int),
        q <= p,
{
    let mut q = p;
    while q > 0 && !is_whitespace(char_at_or_space(cs, q - 1))
        invariant
            q <= p,
            back_word(cs@, q as int) == back_word(cs@, p as int),
        decreases q,
    {
        q = q - 1;
    }
    q
}

} // verus!

verus! {

pub open spec fn min_int(a: int, b: int) -> int {
    if a <= b {
        a
    } else {
        b
    }
}

/// Where `w` (start of next word) takes the cursor `c` in the text `t`.
pub open spec fn next_word_pos(t: Seq<Seq<char>>, c: crate::mode::Position) -> crate::mode::Position {
    if c.row >= t.len() {
        c
    } else {
        let line = t[c.row as int];
        let p = scan_fwd(line, scan_fwd(line, c.col as int, false), true);
        if p >= line.len() && c.row + 1 < t.len() {
            crate::mode::Position { row: (c.row + 1) as usize, col: 0 }
        } else {
            crate::mode::Position { row: c.row, col: min_int(p, line.len() as int) as usize }
        }
    }
}

/// Where `b` (start of previous word) takes the cursor `c` in the text `t`.
pub open spec fn prev_word_pos(t: Seq<Seq<char>>, c: crate::mode::Position) -> crate::mode::Position {
    if c.col > 0 {
        let line = t[c.row as int];
        crate::mode::Position {
            row: c.row,
            col: back_word(line, back_ws(line, c.col - 1)) as usize,
        }
    } else if c.row > 0 {
        let r = (c.row - 1) as usize;
        if r < t.len() {
            crate::mode::Position { row: r, col: t[r as int].len() as usize }
        } else {
            crate::mode::Position { row: r, col: c.col }
        }
    } else {
        c
    }
}

/// Where `e` (end of word) takes the cursor `c` in the text `t`.
pub open spec fn word_end_pos(t: Seq<Seq<char>>, c: crate::mode::Position) -> crate::mode::Position {
    if c.row >= t.len() || c.col >= t[c.row as int].len() {
        c
    } else {
        let line = t[c.row as int];
        let p0 = if is_ws(line[c.col as int]) {
            scan_fwd(line, c.col as int, true)
        } else {
            c.col as int
        };
        let p1 = scan_fwd(line, p0, false);
        let p2 = if p1 > 0 {
            p1 - 1
        } else {
            p1
        };
        crate::mode::Position { row: c.row, col: min_int(p2, line.len() - 1) as usize }
    }
}

/// Where `move_cursor` puts a requested position: clamped to the last line and to its length.
pub open spec fn clamp_pos(t: Seq<Seq<char>>, p: crate::mode::Position) -> crate::mode::Position {
    let max_row = if t.len() == 0 {
        0
    } else {
        t.len() - 1
    };
    let row = min_int(p.row as int, max_row);
    let max_col = if row < t.len() {
        t[row].len() as int
    } else {
        0
    };
    crate::mode::Position { row: row as usize, col: min_int(p.col as int, max_col) as usize }
}

/// The lines of `t` with an empty line appended when `row` is just past the end.
pub open spec fn pad_to(t: Seq<Seq<char>>, row: int) -> Seq<Seq<char>> {
    if row >= t.len() {
        t.push(Seq::empty())
    } else {
        t
    }
}

} // verus!

verus! {

/// Lines joined with a newline between each two.
pub open spec fn join_lines(t: Seq<Seq<char>>) -> Seq<char>
    decreases t.len(),
{
    if t.len() == 0 {
        Seq::empty()
    } else if t.len() == 1 {
        t[0]
    } else {
        join_lines(t.drop_last()) + seq!['\n'] + t.last()
    }
}

/// The lines joined with newlines.
pub fn join_strings(lines: &Vec<String>) -> (s: String)
    ensures
        s@ == join_lines(seqs(lines@)),
{
    let mut s = String::new();
    let mut i: usize = 0;
    while i < lines.len()
        invariant
            i <= lines@.len(),
            s@ == join_lines(seqs(lines@).take(i as int)),
        decreases lines@.len() - i,
    {
        let ghost t = seqs(lines@).take(i + 1);
        assert(t.drop_last() =~= seqs(lines@).take(i as int));
        if i > 0 {
            push_char(&mut s, '\n');
        }
        s = concat(s.as_str(), lines[i].as_str());
        proof {
            if i == 0 {
                assert(s@ =~= t[0]);
            }
        }
        i = i + 1;
    }
    assert(seqs(lines@).take(lines@.len() as int) =~= seqs(lines@));
    s
}

} // verus!

verus! {

/// `s` with `ins` placed before character `at`.
pub fn insert_str_at(s: &str, at: usize, ins: &str) -> (r: String)
    requires
        at <= s@.len(),
    ensures
        r@ == s@.take(at as int) + ins@ + s@.skip(at as int),
{
    let n = char_len(s);
    let head = substring(s, 0, at);
    let tail = substring(s, at, n);
    let mid = concat(head.as_str(), ins);
    let r = concat(mid.as_str(), tail.as_str());
    assert(s@.subrange(0, at as int) =~= s@.take(at as int));
    assert(s@.subrange(at as int, n as int) =~= s@.skip(at as int));
    r
}

/// A string of `n` spaces.
pub fn spaces(n: usize) -> (s: String)
    ensures
        s@ == Seq::new(n as nat, |i: int| ' '),
{
    let mut s = String::new();
    let mut i: usize = 0;
    while i < n
        invariant
            i <= n,
            s@ == Seq::new(i as nat, |k: int| ' '),
        decreases n - i,
    {
        push_char(&mut s, ' ');
        i = i + 1;
        assert(s@ =~= Seq::new(i as nat, |k: int| ' '));
    }
    s
}

} // verus!

verus! {

/// A line without the carriage return that ends it, if any.
pub open spec fn strip_cr(c: Seq<char>) -> Seq<char> {
    if c.len() > 0 && c.last() == '\r' {
        c.drop_last()
    } else {
        c
    }
}

/// The lines of `s` from index `i` on, `cur` holding the part of the current line
/// read so far: a line ends at each `\n` (a `\r` just before it is dropped) and a
/// last line that is empty is not a line.
pub open spec fn lines_from(s: Seq<char>, i: int, cur: Seq<char>) -> Seq<Seq<char>>
    decreases s.len() - i,
{
    if i >= s.len() || i < 0 {
        if cur.len() == 0 {
            Seq::empty()
        } else {
            seq![cur]
        }
    } else if s[i] == '\n' {
        seq![strip_cr(cur)] + lines_from(s, i + 1, Seq::empty())
    } else {
        lines_from(s, i + 1, cur.push(s[i]))
    }
}

/// The lines of a text, as `str::lines` splits it.
pub open spec fn split_lines(s: Seq<char>) -> Seq<Seq<char>> {
    lines_from(s, 0, Seq::empty())
}

/// Splits a text into lines (see `split_lines`).
pub fn lines_of(s: &str) -> (v: Vec<String>)
    ensures
        seqs(v@) == split_lines(s@),
{
    let cs = chars_of(s);
    let mut v: Vec<String> = Vec::new();
    let mut cur: Vec<char> = Vec::new();
    let mut i: usize = 0;
    while i < cs.len()
        invariant
            i <= cs@.len(),
            cs@ == s@,
            seqs(v@) + lines_from(s@, i as int, cur@) == split_lines(s@),
        decreases cs@.len() - i,
    {
        if cs[i] == '\n' {
            let n = cur.len();
            let line = if n > 0 && cur[n - 1] == '\r' {
                let l = string_from_chars(cur.as_slice());
                substring(l.as_str(), 0, n - 1)
            } else {
                string_from_chars(cur.as_slice())
            };
            proof {
                if n > 0 && cur@[n - 1] == '\r' {
                    assert(cur@.subrange(0, n - 1) =~= cur@.drop_last());
                }
            }
            let ghost before = v@;
            let ghost l = line;
            v.push(line);
            proof {
                lemma_seqs_push(before, l);
                assert(seqs(before) + (seq![strip_cr(cur@)] + lines_from(s@, i + 1, Seq::empty()))
                    =~= seqs(before).push(l@) + lines_from(s@, i + 1, Seq::empty()));
            }
            cur = Vec::new();
        } else {
            cur.push(cs[i]);
        }
        i = i + 1;
    }
    if cur.len() > 0 {
        let line = string_from_chars(cur.as_slice());
        let ghost before = v@;
        let ghost l = line;
        v.push(line);
        proof {
            lemma_seqs_push(before, l);
            assert(seqs(before) + seq![cur@] =~= seqs(before).push(l@));
        }
    } else {
        assert(seqs(v@) + Seq::<Seq<char>>::empty() =~= seqs(v@));
    }
    v
}

} // verus!

verus! {

/// The whole lines strictly between the rows of a range, each with its line break
/// (rows past the end of the text contribute nothing).
pub open spec fn middle_lines(t: Seq<Seq<char>>, a: int, b: int) -> Seq<char>
    decreases b - a,
{
    if b <= a {
        Seq::empty()
    } else {
        middle_lines(t, a, b - 1) + (if 0 <= b - 1 < t.len() {
            t[b - 1] + seq!['\n']
        } else {
            Seq::empty()
        })
    }
}

/// The text between `start` and `end`: on one line the characters between the two
/// columns (each clamped to the line); across lines the rest of the first line, the
/// lines in between and the start of the last line, joined by line breaks.
pub open spec fn range_text(t: Seq<Seq<char>>, start: crate::mode::Position, end: crate::mode::Position) -> Seq<char> {
    if start.row == end.row {
        if start.row < t.len() {
            let l = t[start.row as int];
            l.subrange(
                min_int(start.col as int, l.len() as int),
                min_int(end.col as int, l.len() as int),
            )
        } else {
            Seq::empty()
        }
    } else {
        let first = if start.row < t.len() {
            t[start.row as int].skip(min_int(start.col as int, t[start.row as int].len() as int))
                + seq!['\n']
        } else {
            Seq::empty()
        };
        let last = if end.row < t.len() {
            t[end.row as int].take(min_int(end.col as int, t[end.row as int].len() as int))
        } else {
            Seq::empty()
        };
        first + middle_lines(t, start.row + 1, end.row as int) + last
    }
}

/// When `range_text` can be read without a panic.
pub open spec fn range_text_ok(t: Seq<Seq<char>>, start: crate::mode::Position, end: crate::mode::Position) -> bool {
    if start.row == end.row {
        start.row < t.len() ==> min_int(start.col as int, t[start.row as int].len() as int)
            <= min_int(end.col as int, t[start.row as int].len() as int)
    } else {
        start.row < usize::MAX
    }
}

/// The text between two positions (see `range_text`).
pub fn text_in_range(lines: &Vec<String>, start: crate::mode::Position, end: crate::mode::Position) -> (r: String)
    requires
        range_text_ok(seqs(lines@), start, end),
    ensures
        r@ == range_text(seqs(lines@), start, end),
{
    let ghost t = seqs(lines@);
    if start.row == end.row {
        if start.row < lines.len() {
            let l = lines[start.row].as_str();
            let n = char_len(l);
            let sc = if start.col < n { start.col } else { n };
            let ec = if end.col < n { end.col } else { n };
            return substring(l, sc, ec);
        }
        String::new()
    } else {
        let mut result = String::new();
        if start.row < lines.len() {
            let l = lines[start.row].as_str();
            let n = char_len(l);
            let sc = if start.col < n { start.col } else { n };
            let part = substring(l, sc, n);
            result = part;
            push_char(&mut result, '\n');
            assert(l@.subrange(sc as int, n as int) =~= l@.skip(sc as int));
        }
        let ghost first = result@;
        let mut row = start.row + 1;
        assert(middle_lines(t, start.row + 1, row as int) =~= Seq::<char>::empty());
        while row < end.row
            invariant
                start.row + 1 <= row,
                row <= end.row || row == start.row + 1,
                t == seqs(lines@),
                result@ == first + middle_lines(t, start.row + 1, row as int),
            decreases end.row - row,
        {
            if row < lines.len() {
                result = concat(result.as_str(), lines[row].as_str());
                push_char(&mut result, '\n');
            }
            proof {
                assert(middle_lines(t, start.row + 1, row + 1) == middle_lines(t, start.row + 1, row as int)
                    + (if 0 <= row < t.len() { t[row as int] + seq!['\n'] } else { Seq::<char>::empty() }));
                assert(result@ =~= first + middle_lines(t, start.row + 1, row + 1));
            }
            row = row + 1;
        }
        proof {
            if end.row <= start.row + 1 {
                assert(middle_lines(t, start.row + 1, end.row as int) =~= Seq::<char>::empty());
            }
        }
        let ghost mid = result@;
        if end.row < lines.len() {
            let l = lines[end.row].as_str();
            let n = char_len(l);
            let ec = if end.col < n { end.col } else { n };
            let part = substring(l, 0, ec);
            result = concat(result.as_str(), part.as_str());
            assert(l@.subrange(0, ec as int) =~= l@.take(ec as int));
        } else {
            assert(result@ =~= mid + Seq::<char>::empty());
        }
        result
    }
}

} // verus!

verus! {

/// The whitespace-separated words of `s` from index `i` on, `cur` holding the part of
/// the current word read so far.
pub open spec fn words_from(s: Seq<char>, i: int, cur: Seq<char>) -> Seq<Seq<char>>
    decreases s.len() - i,
{
    let done = if cur.len() == 0 {
        Seq::empty()
    } else {
        seq![cur]
    };
    if i >= s.len() || i < 0 {
        done
    } else if is_ws(s[i]) {
        done + words_from(s, i + 1, Seq::empty())
    } else {
        words_from(s, i + 1, cur.push(s[i]))
    }
}

/// The words of a text, as `str::split_whitespace` splits it: the maximal runs of
/// characters that are not whitespace, in order.
pub open spec fn words(s: Seq<char>) -> Seq<Seq<char>> {
    words_from(s, 0, Seq::empty())
}

/// Splits a text into its whitespace-separated words (see `words`).
pub fn split_words(s: &str) -> (v: Vec<String>)
    ensures
        seqs(v@) == words(s@),
{
    let cs = chars_of(s);
    let mut v: Vec<String> = Vec::new();
    let mut cur: Vec<char> = Vec::new();
    let mut i: usize = 0;
    while i < cs.len()
        invariant
            i <= cs@.len(),
            cs@ == s@,
            seqs(v@) + words_from(s@, i as int, cur@) == words(s@),
        decreases cs@.len() - i,
    {
        if is_whitespace(cs[i]) {
            if cur.len() > 0 {
                let word = string_from_chars(cur.as_slice());
                let ghost before = v@;
                let ghost w = word;
                v.push(word);
                proof {
                    lemma_seqs_push(before, w);
                    assert(seqs(before) + (seq![cur@] + words_from(s@, i + 1, Seq::empty()))
                        =~= seqs(before).push(w@) + words_from(s@, i + 1, Seq::empty()));
                }
            } else {
                assert(Seq::<Seq<char>>::empty() + words_from(s@, i + 1, Seq::empty())
                    =~= words_from(s@, i + 1, Seq::empty()));
            }
            cur = Vec::new();
        } else {
            cur.push(cs[i]);
        }
        i = i + 1;
    }
    if cur.len() > 0 {
        let word = string_from_chars(cur.as_slice());
        let ghost before = v@;
        let ghost w = word;
        v.push(word);
        proof {
            lemma_seqs_push(before, w);
            assert(seqs(before) + seq![cur@] =~= seqs(before).push(w@));
        }
    } else {
        assert(seqs(v@) + Seq::<Seq<char>>::empty() =~= seqs(v@));
    }
    v
}

} // verus!

verus! {

/// Steps back from `p` while the character before it is whitespace.
pub open spec fn trim_end(s: Seq<char>, p: int) -> int
    decreases p,
{
    if 0 < p <= s.len() && is_ws(s[p - 1]) {
        trim_end(s, p - 1)
    } else {
        p
    }
}

/// `s` without the whitespace at its start and at its end (`str::trim`).
pub open spec fn trim(s: Seq<char>) -> Seq<char> {
    let a = scan_fwd(s, 0, true);
    let b = trim_end(s, s.len() as int);
    if a < b {
        s.subrange(a, b)
    } else {
        Seq::empty()
    }
}

proof fn lemma_trim_end_bounds(s: Seq<char>, p: int)
    requires
        0 <= p <= s.len(),
    ensures
        0 <= trim_end(s, p) <= p,
    decreases p,
{
    if 0 < p <= s.len() && is_ws(s[p - 1]) {
        lemma_trim_end_bounds(s, p - 1);
    }
}

/// `str::trim`: the string without leading and trailing whitespace.
pub fn trim_str(s: &str) -> (r: String)
    ensures
        r@ == trim(s@),
{
    let cs = chars_of(s);
    let a = scan_forward(&cs, 0, true);
    let mut b = cs.len();
    proof {
        lemma_trim_end_bounds(cs@, cs@.len() as int);
    }
    while b > 0 && is_whitespace(cs[b - 1])
        invariant
            b <= cs@.len(),
            cs@ == s@,
            trim_end(cs@, b as int) == trim_end(cs@, cs@.len() as int),
        decreases b,
    {
        b = b - 1;
    }
    if a < b {
        let whole = string_from_chars(cs.as_slice());
        substring(whole.as_str(), a, b)
    } else {
        String::new()
    }
}

/// `str::trim_end`: the string without the whitespace at its end.
pub fn trim_end_str(s: &str) -> (r: String)
    ensures
        r@ == s@.take(trim_end(s@, s@.len() as int)),
{
    let cs = chars_of(s);
    let mut b = cs.len();
    proof {
        lemma_trim_end_bounds(cs@, cs@.len() as int);
    }
    while b > 0 && is_whitespace(cs[b - 1])
        invariant
            b <= cs@.len(),
            cs@ == s@,
            trim_end(cs@, b as int) == trim_end(cs@, cs@.len() as int),
        decreases b,
    {
        b = b - 1;
    }
    let r = string_from_chars(&cs.as_slice()[0..b]);
    assert(r@ =~= s@.take(b as int));
    r
}

/// The items, with `sep` between each two of them.
pub open spec fn join(items: Seq<Seq<char>>, sep: Seq<char>) -> Seq<char>
    decreases items.len(),
{
    if items.len() == 0 {
        Seq::empty()
    } else if items.len() == 1 {
        items[0]
    } else {
        join(items.drop_last(), sep) + sep + items.last()
    }
}

/// `[String]::join`.
pub fn join_with(items: &Vec<String>, sep: &str) -> (r: String)
    ensures
        r@ == join(seqs(items@), sep@),
{
    let mut r = String::new();
    let mut i: usize = 0;
    while i < items.len()
        invariant
            i <= items@.len(),
            r@ == join(seqs(items@).take(i as int), sep@),
        decreases items@.len() - i,
    {
        let ghost before = seqs(items@).take(i as int);
        assert(seqs(items@).take(i + 1).drop_last() =~= before);
        if i == 0 {
            r = owned(items[i].as_str());
        } else {
            r = concat(r.as_str(), sep);
            r = concat(r.as_str(), items[i].as_str());
        }
        i = i + 1;
    }
    assert(seqs(items@).take(items@.len() as int) =~= seqs(items@));
    r
}

} // verus!

verus! {

/// The lower-case form of a string, as `str::to_lowercase` computes it.
pub uninterp spec fn lowercase(s: Seq<char>) -> Seq<char>;

/// `str::to_lowercase`. Claimed: the result is `lowercase` of the argument, a function
/// of the argument alone (the Unicode lower-case mapping, which is not written out here).
#[verifier::external_body]
pub fn to_lowercase(s: &str) -> (r: String)
    ensures
        r@ == lowercase(s@),
{
    s.to_lowercase()
}

} // verus!
