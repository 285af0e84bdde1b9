//! Search: every occurrence of a pattern in the lines of a buffer, as plain text
//! (optionally ignoring case) or as a regular expression.
use crate::text;
use crate::text::{owned, substring};
use vstd::prelude::*;

verus! {

/// Whether regex compiles `pattern` (its syntax is valid and the compiled program fits
/// the crate's default size limit).
pub uninterp spec fn regex_compiles(pattern: Seq<char>) -> bool;

/// The successive non-overlapping matches of the regex `pattern` in `line`: byte offset
/// of the start, byte offset of the end, matched text.
pub uninterp spec fn regex_spans(pattern: Seq<char>, line: Seq<char>) -> Seq<(int, int, Seq<char>)>;

pub open spec fn spans_view(v: Seq<(usize, usize, String)>) -> Seq<(int, int, Seq<char>)> {
    v.map_values(|m: (usize, usize, String)| (m.0 as int, m.1 as int, m.2@))
}

/// `regex::Regex::new` then `Regex::find_iter` on one line. Claimed: `None` exactly when
/// the pattern does not compile (`regex_compiles`), else the matches that `find_iter`
/// yields, each as its `start`, `end` and `as_str` (`regex_spans`); both depend on the
/// pattern and the line alone.
#[verifier::external_body]
fn regex_find_all(pattern: &str, line: &str) -> (r: Option<Vec<(usize, usize, String)>>)
    ensures
        match r {
            Some(v) => regex_compiles(pattern@) && spans_view(v@) == regex_spans(pattern@, line@),
            None => !regex_compiles(pattern@),
        },
{
    match regex::Regex::new(pattern) {
        Ok(re) => Some(re.find_iter(line).map(|m| (m.start(), m.end(), m.as_str().to_string())).collect()),
        Err(_) => None,
    }
}

/// A search result: its line, its first column, the column after it, and the text.
#[derive(Debug, Clone)]
pub struct SearchResult {
    pub line: usize,
    pub start_col: usize,
    pub end_col: usize,
    pub matched_text: String,
}

pub type ResultView = (int, int, int, Seq<char>);

pub open spec fn result_view(r: SearchResult) -> ResultView {
    (r.line as int, r.start_col as int, r.end_col as int, r.matched_text@)
}

pub open spec fn results_view(v: Seq<SearchResult>) -> Seq<ResultView> {
    v.map_values(|r: SearchResult| result_view(r))
}

/// `needle` occurs in `hay` at `p`.
pub open spec fn occurs_at(hay: Seq<char>, needle: Seq<char>, p: int) -> bool {
    0 <= p && p + needle.len() <= hay.len() && hay.subrange(p, p + needle.len()) == needle
}

/// The positions from `start` on where `needle` occurs, in order (overlapping ones
/// included).
pub open spec fn occurrences_from(hay: Seq<char>, needle: Seq<char>, start: int) -> Seq<int>
    decreases hay.len() + 1 - start,
{
    if start < 0 || start > hay.len() {
        Seq::empty()
    } else {
        (if occurs_at(hay, needle, start) {
            seq![start]
        } else {
            Seq::empty()
        }) + occurrences_from(hay, needle, start + 1)
    }
}

pub open spec fn clip(x: int, n: int) -> int {
    if x < n {
        x
    } else {
        n
    }
}

/// The result for a match at `p` of a line: `plen` columns from `p`, its text read
/// from the line.
pub open spec fn result_at(row: int, line: Seq<char>, plen: int, p: int) -> ResultView {
    (row, p, clip(p + plen, usize::MAX as int), line.subrange(clip(p, line.len() as int), clip(p + plen, line.len() as int)))
}

/// The results in one line: `needle` is looked for in `searched` (the line, or its
/// lower-case form), each match spans `plen` columns, and its text is read from the line.
pub open spec fn line_results(row: int, line: Seq<char>, searched: Seq<char>, needle: Seq<char>, plen: int) -> Seq<ResultView> {
    if needle.len() == 0 {
        Seq::empty()
    } else {
        occurrences_from(searched, needle, 0).map_values(|p: int| result_at(row, line, plen, p))
    }
}

/// The results in the first `n` lines, line by line.
pub open spec fn plain_results(lines: Seq<Seq<char>>, searched: Seq<Seq<char>>, needle: Seq<char>, plen: int, n: int) -> Seq<ResultView>
    decreases n,
{
    if n <= 0 {
        Seq::empty()
    } else {
        plain_results(lines, searched, needle, plen, n - 1) + line_results(n - 1, lines[n - 1], searched[n - 1], needle, plen)
    }
}

/// The column of the character at byte offset `b` of a line: how many characters
/// start before it.
pub open spec fn char_col(line: Seq<char>, b: int) -> int
    decreases line.len(),
{
    if line.len() == 0 || b <= 0 {
        0
    } else {
        1 + char_col(line.drop_first(), b - vstd::utf8::encode_scalar(line[0] as u32).len())
    }
}

/// The number of bytes UTF-8 takes for a character.
fn utf8_width(c: char) -> (n: usize)
    ensures
        n == vstd::utf8::encode_scalar(c as u32).len(),
{
    broadcast use vstd::utf8::group_utf8_lib;

    let v = c as u32;
    if v < 0x80 {
        1
    } else if v < 0x800 {
        2
    } else if v < 0x10000 {
        3
    } else {
        4
    }
}

/// The column of the character at byte offset `b` of a line (see `char_col`).
pub fn char_column(line: &str, b: usize) -> (k: usize)
    ensures
        k == char_col(line@, b as int),
{
    let cs = text::chars_of(line);
    let mut k: usize = 0;
    let mut left: usize = b;
    assert(line@.skip(0) =~= line@);
    while k < cs.len() && left > 0
        invariant
            k <= cs@.len(),
            cs@ == line@,
            char_col(line@, b as int) == k + char_col(line@.skip(k as int), left as int),
        decreases cs@.len() - k,
    {
        let w = utf8_width(cs[k]);
        let ghost old_left = left as int;
        proof {
            assert(line@.skip(k as int).drop_first() =~= line@.skip(k + 1));
            assert(line@.skip(k as int)[0] == cs@[k as int]);
            assert(char_col(line@.skip(k as int), old_left) == 1 + char_col(line@.skip(k + 1), old_left - w));
        }
        left = if left > w {
            left - w
        } else {
            0
        };
        proof {
            if old_left <= w {
                let rest = line@.skip(k + 1);
                assert(char_col(rest, old_left - w) == 0);
                assert(char_col(rest, 0) == 0);
            }
        }
        k = k + 1;
    }
    k
}

/// The regex results in the first `n` lines, line by line (columns counted in
/// characters; regex reports byte offsets).
pub open spec fn regex_results(pattern: Seq<char>, lines: Seq<Seq<char>>, n: int) -> Seq<ResultView>
    decreases n,
{
    if n <= 0 {
        Seq::empty()
    } else {
        regex_results(pattern, lines, n - 1) + regex_spans(pattern, lines[n - 1]).map_values(
            |m: (int, int, Seq<char>)| (n - 1, char_col(lines[n - 1], m.0), char_col(lines[n - 1], m.1), m.2),
        )
    }
}

fn copy_result(r: &SearchResult) -> (c: SearchResult)
    ensures
        result_view(c) == result_view(*r),
{
    SearchResult { line: r.line, start_col: r.start_col, end_col: r.end_col, matched_text: owned(r.matched_text.as_str()) }
}

fn push_result(v: &mut Vec<SearchResult>, r: SearchResult)
    ensures
        results_view(final(v)@) == results_view(old(v)@).push(result_view(r)),
{
    let ghost before = v@;
    v.push(r);
    assert(results_view(v@) =~= results_view(before).push(result_view(r)));
}

/// Appends copies of `found` to `v`.
fn append_results(v: &mut Vec<SearchResult>, found: &Vec<SearchResult>)
    ensures
        results_view(final(v)@) == results_view(old(v)@) + results_view(found@),
{
    let ghost before = results_view(v@);
    let mut k: usize = 0;
    while k < found.len()
        invariant
            k <= found@.len(),
            results_view(v@) == before + results_view(found@).take(k as int),
        decreases found@.len() - k,
    {
        push_result(v, copy_result(&found[k]));
        assert(results_view(found@).take(k + 1) =~= results_view(found@).take(k as int).push(result_view(found@[k as int])));
        assert(before + results_view(found@).take(k as int).push(result_view(found@[k as int])) =~= (before + results_view(found@).take(k as int)).push(result_view(found@[k as int])));
        k = k + 1;
    }
    assert(results_view(found@).take(k as int) =~= results_view(found@));
}

/// Search results for the regex matches of one line, their byte offsets turned into
/// character columns.
pub fn results_from_spans(row: usize, line: &str, spans: Vec<(usize, usize, String)>) -> (r: Vec<SearchResult>)
    ensures
        results_view(r@) == spans_view(spans@).map_values(
            |m: (int, int, Seq<char>)| (row as int, char_col(line@, m.0), char_col(line@, m.1), m.2),
        ),
{
    let mut r: Vec<SearchResult> = Vec::new();
    let mut i: usize = 0;
    while i < spans.len()
        invariant
            i <= spans@.len(),
            results_view(r@) == spans_view(spans@).take(i as int).map_values(
                |m: (int, int, Seq<char>)| (row as int, char_col(line@, m.0), char_col(line@, m.1), m.2),
            ),
        decreases spans@.len() - i,
    {
        let item = SearchResult {
            line: row,
            start_col: char_column(line, spans[i].0),
            end_col: char_column(line, spans[i].1),
            matched_text: owned(spans[i].2.as_str()),
        };
        push_result(&mut r, item);
        assert(spans_view(spans@).take(i + 1) =~= spans_view(spans@).take(i as int).push(spans_view(spans@)[i as int]));
        assert(results_view(r@) =~= spans_view(spans@).take(i + 1).map_values(
            |m: (int, int, Seq<char>)| (row as int, char_col(line@, m.0), char_col(line@, m.1), m.2),
        ));
        i = i + 1;
    }
    assert(spans_view(spans@).take(spans@.len() as int) =~= spans_view(spans@));
    r
}

/// Whether `needle` occurs in `hay` at `p`.
fn occurs(hay: &Vec<char>, needle: &Vec<char>, p: usize) -> (b: bool)
    ensures
        b == occurs_at(hay@, needle@, p as int),
{
    if p > hay.len() || needle.len() > hay.len() - p {
        return false;
    }
    let mut k: usize = 0;
    while k < needle.len()
        invariant
            k <= needle@.len(),
            p + needle@.len() <= hay@.len(),
            hay@.len() <= usize::MAX,
            forall|j: int| 0 <= j < k ==> hay@[p + j] == needle@[j],
        decreases needle@.len() - k,
    {
        if hay[p + k] != needle[k] {
            assert(hay@.subrange(p as int, p + needle@.len())[k as int] != needle@[k as int]);
            return false;
        }
        k = k + 1;
    }
    assert(hay@.subrange(p as int, p + needle@.len()) =~= needle@);
    true
}

/// `str::contains`: whether `needle` occurs somewhere in `hay`.
pub fn contains_text(hay: &str, needle: &str) -> (b: bool)
    ensures
        b == exists|p: int| occurs_at(hay@, needle@, p),
{
    let h = text::chars_of(hay);
    let n = text::chars_of(needle);
    let mut p: usize = 0;
    while p < h.len()
        invariant
            p <= h@.len(),
            h@ == hay@,
            n@ == needle@,
            forall|q: int| 0 <= q < p ==> !occurs_at(hay@, needle@, q),
        decreases h@.len() - p,
    {
        if occurs(&h, &n, p) {
            return true;
        }
        p = p + 1;
    }
    if occurs(&h, &n, p) {
        return true;
    }
    assert forall|q: int| !occurs_at(hay@, needle@, q) by {
        if 0 <= q && q < p {
        }
    }
    false
}

/// The results in one line (see `line_results`).
fn search_line(row: usize, line: &str, searched: &str, needle: &Vec<char>, plen: usize) -> (r: Vec<SearchResult>)
    ensures
        results_view(r@) == line_results(row as int, line@, searched@, needle@, plen as int),
{
    let mut r: Vec<SearchResult> = Vec::new();
    if needle.len() == 0 {
        return r;
    }
    let hay = text::chars_of(searched);
    let lc = text::chars_of(line);
    let mut start: usize = 0;
    while start < hay.len()
        invariant
            start <= hay@.len(),
            hay@ == searched@,
            lc@ == line@,
            needle@.len() > 0,
            results_view(r@) + occurrences_from(hay@, needle@, start as int).map_values(|p: int| result_at(row as int, line@, plen as int, p))
                == line_results(row as int, line@, searched@, needle@, plen as int),
        decreases hay@.len() + 1 - start,
    {
        let ghost rest = occurrences_from(hay@, needle@, start + 1);
        if occurs(&hay, needle, start) {
            let end_col = start.saturating_add(plen);
            let a = if start < lc.len() { start } else { lc.len() };
            let b = if end_col < lc.len() { end_col } else { lc.len() };
            assert(end_col == clip(start + plen, usize::MAX as int));
            assert(b == clip(start + plen, line@.len() as int)) by {
                if start + plen > usize::MAX {
                    assert(lc@.len() <= usize::MAX);
                }
            }
            assert(a == clip(start as int, line@.len() as int));
            let matched = substring(line, a, b);
            assert(matched@ == line@.subrange(clip(start as int, line@.len() as int), clip(start + plen, line@.len() as int)));
            let ghost before = results_view(r@);
            let item = SearchResult { line: row, start_col: start, end_col, matched_text: matched };
            assert(result_view(item) == result_at(row as int, line@, plen as int, start as int));
            push_result(&mut r, item);
            assert(occurrences_from(hay@, needle@, start as int) == seq![start as int] + rest);
            assert((seq![start as int] + rest).map_values(|p: int| result_at(row as int, line@, plen as int, p)) =~= seq![result_at(row as int, line@, plen as int, start as int)] + rest.map_values(|p: int| result_at(row as int, line@, plen as int, p)));
            assert(before + (seq![start as int] + rest).map_values(|p: int| result_at(row as int, line@, plen as int, p)) =~= before.push(result_at(row as int, line@, plen as int, start as int)) + rest.map_values(|p: int| result_at(row as int, line@, plen as int, p)));
        } else {
            assert((Seq::<int>::empty() + rest) =~= rest);
            assert(occurrences_from(hay@, needle@, start as int) == rest);
        }
        start = start + 1;
    }
    assert(!occurs_at(hay@, needle@, start as int));
    assert(occurrences_from(hay@, needle@, start + 1) == Seq::<int>::empty());
    assert(occurrences_from(hay@, needle@, start as int) =~= Seq::<int>::empty());
    assert(results_view(r@) + Seq::<ResultView>::empty() =~= results_view(r@));
    r
}

/// Every occurrence of `needle` in `searched` (the lines, or their lower-case forms),
/// reported with columns of `plen` characters and the text of `lines`.
pub fn find_all(lines: &[String], searched: &Vec<String>, needle: &str, plen: usize) -> (r: Vec<SearchResult>)
    requires
        searched@.len() == lines@.len(),
    ensures
        results_view(r@) == plain_results(
            text::seqs(lines@),
            text::seqs(searched@),
            needle@,
            plen as int,
            lines@.len() as int,
        ),
{
    let nc = text::chars_of(needle);
    let mut results: Vec<SearchResult> = Vec::new();
    let mut i: usize = 0;
    while i < lines.len()
        invariant
            i <= lines@.len(),
            searched@.len() == lines@.len(),
            nc@ == needle@,
            results_view(results@) == plain_results(
                text::seqs(lines@),
                text::seqs(searched@),
                needle@,
                plen as int,
                i as int,
            ),
        decreases lines@.len() - i,
    {
        let found = search_line(i, lines[i].as_str(), searched[i].as_str(), &nc, plen);
        append_results(&mut results, &found);
        i = i + 1;
    }
    results
}

/// The search engine: the last pattern searched and how patterns are matched.
pub struct SearchEngine {
    pub last_search: Option<String>,
    pub case_sensitive: bool,
    pub use_regex: bool,
}

/// The results a search engine in the given state gives for a pattern in some lines:
/// by regular expression when regex search is on (none when it does not compile), else
/// plain, compared in lower case unless the search is case sensitive.
pub open spec fn search_outcome(e: SearchEngine, pattern: Seq<char>, lines: Seq<Seq<char>>) -> Seq<ResultView> {
    if e.use_regex {
        if regex_compiles(pattern) {
            regex_results(pattern, lines, lines.len() as int)
        } else {
            Seq::empty()
        }
    } else if e.case_sensitive {
        plain_results(lines, lines, pattern, pattern.len() as int, lines.len() as int)
    } else {
        plain_results(
            lines,
            lines.map_values(|l: Seq<char>| text::lowercase(l)),
            text::lowercase(pattern),
            pattern.len() as int,
            lines.len() as int,
        )
    }
}

impl SearchEngine {
    pub fn new() -> (e: Self)
        ensures
            e.last_search is None,
            !e.case_sensitive,
            !e.use_regex,
    {
        Self { last_search: None, case_sensitive: false, use_regex: false }
    }

    pub fn set_case_sensitive(&mut self, case_sensitive: bool)
        ensures
            final(self).case_sensitive == case_sensitive,
            final(self).use_regex == old(self).use_regex,
            final(self).last_search == old(self).last_search,
    {
        self.case_sensitive = case_sensitive;
    }

    pub fn set_use_regex(&mut self, use_regex: bool)
        ensures
            final(self).use_regex == use_regex,
            final(self).case_sensitive == old(self).case_sensitive,
            final(self).last_search == old(self).last_search,
    {
        self.use_regex = use_regex;
    }

    /// Finds every match of `pattern` in the lines of `text` and remembers the pattern:
    /// as a regular expression when regex search is on (nothing when it does not
    /// compile), else as plain text, compared in lower case unless the search is case
    /// sensitive.
    pub fn search(&mut self, pattern: &str, text: &[String]) -> (r: Vec<SearchResult>)
        ensures
            final(self).last_search matches Some(s) && s@ == pattern@,
            final(self).case_sensitive == old(self).case_sensitive,
            final(self).use_regex == old(self).use_regex,
            results_view(r@) == search_outcome(*old(self), pattern@, text::seqs(text@)),
            old(self).use_regex ==> results_view(r@) == if regex_compiles(pattern@) {
                regex_results(pattern@, text::seqs(text@), text@.len() as int)
            } else {
                Seq::empty()
            },
            !old(self).use_regex && old(self).case_sensitive ==> results_view(r@) == plain_results(
                text::seqs(text@),
                text::seqs(text@),
                pattern@,
                pattern@.len() as int,
                text@.len() as int,
            ),
            !old(self).use_regex && !old(self).case_sensitive ==> results_view(r@) == plain_results(
                text::seqs(text@),
                text::seqs(text@).map_values(|l: Seq<char>| text::lowercase(l)),
                text::lowercase(pattern@),
                pattern@.len() as int,
                text@.len() as int,
            ),
    {
        self.last_search = Some(owned(pattern));
        let plen = text::char_len(pattern);
        if self.use_regex {
            let mut results: Vec<SearchResult> = Vec::new();
            let mut i: usize = 0;
            while i < text.len()
                invariant
                    i <= text@.len(),
                    self.last_search matches Some(s) && s@ == pattern@,
                    self.case_sensitive == old(self).case_sensitive,
                    self.use_regex == old(self).use_regex,
                    self.use_regex,
                    i > 0 ==> regex_compiles(pattern@),
                    results_view(results@) == regex_results(pattern@, text::seqs(text@), i as int),
                decreases text@.len() - i,
            {
                match regex_find_all(pattern, text[i].as_str()) {
                    None => {
                        return Vec::new();
                    },
                    Some(spans) => {
                        let found = results_from_spans(i, text[i].as_str(), spans);
                        append_results(&mut results, &found);
                    },
                }
                i = i + 1;
            }
            return results;
        }
        if self.case_sensitive {
            let mut searched: Vec<String> = Vec::new();
            let mut i: usize = 0;
            while i < text.len()
                invariant
                    i <= text@.len(),
                    text::seqs(searched@) == text::seqs(text@).take(i as int),
                decreases text@.len() - i,
            {
                let ghost before = searched@;
                let l = owned(text[i].as_str());
                let ghost lv = l;
                searched.push(l);
                proof {
                    text::lemma_seqs_push(before, lv);
                    assert(text::seqs(text@).take(i + 1) =~= text::seqs(text@).take(i as int).push(lv@));
                }
                i = i + 1;
            }
            assert(text::seqs(text@).take(i as int) =~= text::seqs(text@));
            find_all(text, &searched, pattern, plen)
        } else {
            let needle = text::to_lowercase(pattern);
            let mut searched: Vec<String> = Vec::new();
            let mut i: usize = 0;
            while i < text.len()
                invariant
                    i <= text@.len(),
                    text::seqs(searched@) == text::seqs(text@).map_values(|l: Seq<char>| text::lowercase(l)).take(
                        i as int,
                    ),
                decreases text@.len() - i,
            {
                let ghost before = searched@;
                let l = text::to_lowercase(text[i].as_str());
                let ghost lv = l;
                searched.push(l);
                proof {
                    text::lemma_seqs_push(before, lv);
                    assert(text::seqs(text@).map_values(|l: Seq<char>| text::lowercase(l)).take(i + 1)
                        =~= text::seqs(text@).map_values(|l: Seq<char>| text::lowercase(l)).take(i as int).push(lv@));
                }
                i = i + 1;
            }
            assert(text::seqs(text@).map_values(|l: Seq<char>| text::lowercase(l)).take(i as int)
                =~= text::seqs(text@).map_values(|l: Seq<char>| text::lowercase(l)));
            find_all(text, &searched, needle.as_str(), plen)
        }
    }

    /// Replacing is not implemented: nothing changes and no replacement is counted.
    pub fn replace(&self, _pattern: &str, _replacement: &str, _text: &mut [String]) -> (n: usize)
        ensures
            n == 0,
            final(_text)@ == old(_text)@,
    {
        0
    }
}

} // verus!
