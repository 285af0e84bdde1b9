//! The names that the command line completes: Ex commands with their aliases, and the
//! options of `:set` with their short forms and `no` forms.
use crate::text;
use crate::text::{concat, owned, starts_with, str_eq};
use vstd::prelude::*;

verus! {

/// An entry of a name table: a name and its aliases.
pub open spec fn entry_names(e: (Seq<char>, Seq<Seq<char>>)) -> Seq<Seq<char>> {
    seq![e.0] + e.1
}

/// All names of a table, entry by entry.
pub open spec fn all_names(t: Seq<(Seq<char>, Seq<Seq<char>>)>) -> Seq<Seq<char>>
    decreases t.len(),
{
    if t.len() == 0 {
        Seq::empty()
    } else {
        all_names(t.drop_last()) + entry_names(t.last())
    }
}

pub open spec fn str_views(v: Seq<&'static str>) -> Seq<Seq<char>> {
    v.map_values(|s: &'static str| s@)
}

/// Ex commands and their aliases.
pub open spec fn ex_table() -> Seq<(Seq<char>, Seq<Seq<char>>)> {
    seq![
        ("q"@, seq!["quit"@]),
        ("q!"@, seq!["quit!"@]),
        ("w"@, seq!["write"@]),
        ("wq"@, seq!["x"@]),
        ("e"@, seq!["edit"@]),
        ("b"@, seq!["buffer"@]),
        ("bn"@, seq!["bnext"@]),
        ("bp"@, seq!["bprev"@, "bprevious"@]),
        ("bd"@, seq!["bdelete"@]),
        ("ls"@, seq!["buffers"@]),
        ("split"@, seq!["sp"@]),
        ("vsplit"@, seq!["vsp"@]),
        ("close"@, Seq::empty()),
    ]
}

pub open spec fn table_view(v: Seq<(&'static str, Vec<&'static str>)>) -> Seq<(Seq<char>, Seq<Seq<char>>)> {
    v.map_values(|e: (&'static str, Vec<&'static str>)| (e.0@, str_views(e.1@)))
}

fn entry(name: &'static str, aliases: Vec<&'static str>) -> (e: (&'static str, Vec<&'static str>))
    ensures
        e.0 == name && e.1@ == aliases@,
{
    (name, aliases)
}

/// ex commands + aliases
pub fn ex_commands() -> (t: Vec<(&'static str, Vec<&'static str>)>)
    ensures
        table_view(t@) == ex_table(),
{
    let mut m = Vec::new();
    m.push(entry("q", vec!["quit"]));
    m.push(entry("q!", vec!["quit!"]));
    m.push(entry("w", vec!["write"]));
    m.push(entry("wq", vec!["x"]));
    m.push(entry("e", vec!["edit"]));
    m.push(entry("b", vec!["buffer"]));
    m.push(entry("bn", vec!["bnext"]));
    m.push(entry("bp", vec!["bprev", "bprevious"]));
    m.push(entry("bd", vec!["bdelete"]));
    m.push(entry("ls", vec!["buffers"]));
    m.push(entry("split", vec!["sp"]));
    m.push(entry("vsplit", vec!["vsp"]));
    m.push(entry("close", Vec::new()));
    assert(table_view(m@) =~= ex_table()) by {
        assert(str_views(m@[7].1@) =~= seq!["bprev"@, "bprevious"@]);
        assert(str_views(m@[12].1@) =~= Seq::<Seq<char>>::empty());
        assert forall|i: int| 0 <= i < 12 && i != 7 implies #[trigger] table_view(m@)[i] == ex_table()[i] by {
            assert(str_views(m@[i].1@) =~= ex_table()[i].1);
        }
    }
    m
}

/// `s` begins with `p`.
pub open spec fn has_prefix(s: Seq<char>, p: Seq<char>) -> bool {
    p.len() <= s.len() && s.take(p.len() as int) == p
}

/// The order of `str`'s `<`: character by character, a proper prefix first.
pub open spec fn str_lt(a: Seq<char>, b: Seq<char>) -> bool
    decreases a.len(),
{
    if a.len() == 0 {
        b.len() > 0
    } else if b.len() == 0 {
        false
    } else if a[0] != b[0] {
        (a[0] as u32) < (b[0] as u32)
    } else {
        str_lt(a.drop_first(), b.drop_first())
    }
}

/// Each string comes strictly before the next one.
pub open spec fn strictly_sorted(s: Seq<Seq<char>>) -> bool {
    forall|i: int| 0 <= i < s.len() - 1 ==> str_lt(#[trigger] s[i], s[i + 1])
}

/// Two different strings are ordered one way or the other.
pub proof fn lemma_str_lt_total(a: Seq<char>, b: Seq<char>)
    requires
        a != b,
    ensures
        str_lt(a, b) || str_lt(b, a),
    decreases a.len(),
{
    if a.len() == 0 {
        assert(b.len() > 0) by {
            if b.len() == 0 {
                assert(a =~= b);
            }
        }
    } else if b.len() == 0 {
    } else if a[0] != b[0] {
        vstd::utf8::char_u32_cast(a[0], a[0] as u32);
        vstd::utf8::char_u32_cast(b[0], b[0] as u32);
    } else {
        if a.drop_first() == b.drop_first() {
            assert(a =~= seq![a[0]] + a.drop_first());
            assert(b =~= seq![b[0]] + b.drop_first());
        }
        lemma_str_lt_total(a.drop_first(), b.drop_first());
    }
}

/// Whether `a` comes before `b` in `str`'s order.
pub fn str_less(a: &str, b: &str) -> (r: bool)
    ensures
        r == str_lt(a@, b@),
{
    let v = text::chars_of(a);
    let w = text::chars_of(b);
    let mut i: usize = 0;
    assert(v@.skip(0) =~= v@ && w@.skip(0) =~= w@);
    while i < v.len() && i < w.len() && v[i] == w[i]
        invariant
            i <= v@.len(),
            i <= w@.len(),
            v@ == a@,
            w@ == b@,
            str_lt(v@.skip(i as int), w@.skip(i as int)) == str_lt(a@, b@),
        decreases v@.len() - i,
    {
        assert(v@.skip(i as int).drop_first() =~= v@.skip(i + 1));
        assert(w@.skip(i as int).drop_first() =~= w@.skip(i + 1));
        i = i + 1;
    }
    if i == v.len() {
        assert(v@.skip(i as int).len() == 0);
        assert(w@.skip(i as int).len() == w@.len() - i);
        assert(str_lt(v@.skip(i as int), w@.skip(i as int)) == (i < w@.len()));
        i < w.len()
    } else if i == w.len() {
        assert(v@.skip(i as int).len() > 0);
        assert(w@.skip(i as int).len() == 0);
        assert(!str_lt(v@.skip(i as int), w@.skip(i as int)));
        false
    } else {
        assert(v@.skip(i as int).len() > 0);
        assert(w@.skip(i as int).len() > 0);
        assert(v@.skip(i as int)[0] == v@[i as int] && w@.skip(i as int)[0] == w@[i as int]);
        assert(v@[i as int] != w@[i as int]);
        assert(str_lt(v@.skip(i as int), w@.skip(i as int)) == ((v@[i as int] as u32) < (w@[i as int] as u32)));
        (v[i] as u32) < (w[i] as u32)
    }
}

/// Adds `x` to a strictly sorted list unless it is there already.
fn insert_sorted(v: &mut Vec<String>, x: String)
    requires
        strictly_sorted(text::seqs(old(v)@)),
    ensures
        strictly_sorted(text::seqs(final(v)@)),
        forall|s: Seq<char>| #[trigger] text::seqs(final(v)@).contains(s) <==> (text::seqs(old(v)@).contains(s) || s == x@),
{
    let ghost old_v = text::seqs(v@);
    let mut k: usize = 0;
    while k < v.len() && str_less(v[k].as_str(), x.as_str())
        invariant
            k <= v@.len(),
            text::seqs(v@) == old_v,
            forall|j: int| 0 <= j < k ==> str_lt(#[trigger] old_v[j], x@),
        decreases v@.len() - k,
    {
        k = k + 1;
    }
    if k < v.len() && str_eq(v[k].as_str(), x.as_str()) {
        assert(old_v[k as int] == x@);
        return;
    }
    proof {
        if k < v@.len() {
            lemma_str_lt_total(old_v[k as int], x@);
        }
    }
    let ghost before = v@;
    let ghost xs = x;
    v.insert(k, x);
    proof {
        text::lemma_seqs_insert(before, k as int, xs);
        let nv = text::seqs(v@);
        assert(nv == old_v.insert(k as int, xs@));
        assert forall|i: int| 0 <= i < nv.len() - 1 implies str_lt(#[trigger] nv[i], nv[i + 1]) by {
            if i < k - 1 {
                assert(nv[i] == old_v[i] && nv[i + 1] == old_v[i + 1]);
            } else if i == k - 1 {
                assert(nv[i] == old_v[i] && nv[i + 1] == xs@);
            } else if i == k {
                assert(nv[i + 1] == old_v[k as int]);
            } else {
                assert(nv[i] == old_v[i - 1] && nv[i + 1] == old_v[i]);
            }
        }
        assert forall|s: Seq<char>| nv.contains(s) <==> (old_v.contains(s) || s == xs@) by {
            if nv.contains(s) {
                let j = choose|j: int| 0 <= j < nv.len() && nv[j] == s;
                if j < k {
                    assert(old_v[j] == s);
                } else if j > k {
                    assert(old_v[j - 1] == s);
                }
            }
            if old_v.contains(s) {
                let j = choose|j: int| 0 <= j < old_v.len() && old_v[j] == s;
                if j < k {
                    assert(nv[j] == s);
                } else {
                    assert(nv[j + 1] == s);
                }
            }
            if s == xs@ {
                assert(nv[k as int] == s);
            }
        }
    }
}

/// All names of a table, entry by entry: each name, then its aliases.
fn flatten(t: &Vec<(&'static str, Vec<&'static str>)>) -> (r: Vec<String>)
    ensures
        text::seqs(r@) == all_names(table_view(t@)),
{
    let ghost tv = table_view(t@);
    let mut r: Vec<String> = Vec::new();
    let mut i: usize = 0;
    while i < t.len()
        invariant
            i <= t@.len(),
            tv == table_view(t@),
            text::seqs(r@) == all_names(tv.take(i as int)),
        decreases t@.len() - i,
    {
        let ghost base = text::seqs(r@);
        let name = owned(t[i].0);
        let ghost nm = name;
        let ghost before = r@;
        r.push(name);
        proof {
            text::lemma_seqs_push(before, nm);
        }
        let aliases = &t[i].1;
        let mut j: usize = 0;
        while j < aliases.len()
            invariant
                i < t@.len(),
                j <= aliases@.len(),
                aliases@ == t@[i as int].1@,
                tv == table_view(t@),
                text::seqs(r@) == base + seq![tv[i as int].0] + tv[i as int].1.take(j as int),
            decreases aliases@.len() - j,
        {
            let a = owned(aliases[j]);
            let ghost av = a;
            let ghost b = r@;
            r.push(a);
            proof {
                text::lemma_seqs_push(b, av);
                assert(tv[i as int].1.take(j + 1) =~= tv[i as int].1.take(j as int).push(av@));
            }
            j = j + 1;
        }
        proof {
            assert(tv[i as int].1.take(j as int) =~= tv[i as int].1);
            assert(tv.take(i + 1).drop_last() =~= tv.take(i as int));
            assert(text::seqs(r@) =~= all_names(tv.take(i as int)) + entry_names(tv[i as int]));
        }
        i = i + 1;
    }
    assert(tv.take(t@.len() as int) =~= tv);
    r
}

/// The Ex commands and aliases that begin with `prefix` (trimmed), in order and
/// without repeats.
pub fn suggest_ex_commands(prefix: &str) -> (r: Vec<String>)
    ensures
        strictly_sorted(text::seqs(r@)),
        forall|s: Seq<char>|
            #[trigger] text::seqs(r@).contains(s) <==> (all_names(ex_table()).contains(s) && has_prefix(
                s,
                text::trim(prefix@),
            )),
{
    let lower = text::trim_str(prefix);
    let table = ex_commands();
    let names = flatten(&table);
    let ghost all = text::seqs(names@);
    let mut matches: Vec<String> = Vec::new();
    let mut i: usize = 0;
    while i < names.len()
        invariant
            i <= names@.len(),
            all == text::seqs(names@),
            all == all_names(ex_table()),
            lower@ == text::trim(prefix@),
            strictly_sorted(text::seqs(matches@)),
            forall|s: Seq<char>|
                #[trigger] text::seqs(matches@).contains(s) <==> (all.take(i as int).contains(s) && has_prefix(s, lower@)),
        decreases names@.len() - i,
    {
        let ghost before = text::seqs(matches@);
        let ghost x = all[i as int];
        assert(names@[i as int]@ == x);
        let keep = starts_with(names[i].as_str(), lower.as_str());
        if keep {
            insert_sorted(&mut matches, owned(names[i].as_str()));
        }
        proof {
            assert(keep == has_prefix(x, lower@));
            assert(all.take(i + 1) =~= all.take(i as int).push(x));
            assert forall|s: Seq<char>|
                text::seqs(matches@).contains(s) <==> (all.take(i + 1).contains(s) && has_prefix(s, lower@)) by {
                assert(all.take(i + 1)[i as int] == x);
                if s == x {
                    if keep {
                        assert(text::seqs(matches@).contains(s));
                    } else {
                        assert(!has_prefix(s, lower@));
                        assert(!before.contains(s));
                    }
                } else {
                    if text::seqs(matches@).contains(s) {
                        assert(before.contains(s));
                        assert(all.take(i as int).contains(s));
                        let j = choose|j: int| 0 <= j < i && #[trigger] all.take(i as int)[j] == s;
                        assert(all.take(i + 1)[j] == s);
                    }
                    if all.take(i + 1).contains(s) && has_prefix(s, lower@) {
                        let j = choose|j: int| 0 <= j < i + 1 && #[trigger] all.take(i + 1)[j] == s;
                        assert(j < i);
                        assert(all.take(i as int)[j] == s);
                        assert(before.contains(s));
                    }
                }
            }
        }
        i = i + 1;
    }
    assert(all.take(names@.len() as int) =~= all);
    matches
}

/// Setting variants for `:set` (name + shorthand)
pub struct SettingVariant {
    pub name: &'static str,
    pub aliases: &'static [&'static str],
}

/// The `:set` options and their short forms.
pub open spec fn setting_table() -> Seq<(Seq<char>, Seq<Seq<char>>)> {
    seq![
        ("number"@, seq!["nu"@]),
        ("relativenumber"@, seq!["rnu"@]),
        ("cursorline"@, seq!["cul"@]),
        ("syntax"@, seq!["syn"@]),
        ("colorscheme"@, seq!["colo"@]),
        ("ignorecase"@, seq!["ic"@]),
        ("smartcase"@, seq!["scs"@]),
        ("hlsearch"@, seq!["hls"@]),
        ("incsearch"@, seq!["is"@]),
        ("wrap"@, Seq::empty()),
        ("linebreak"@, seq!["lbr"@]),
        ("tabstop"@, seq!["ts"@]),
        ("expandtab"@, seq!["et"@]),
        ("autoindent"@, seq!["ai"@]),
        ("backup"@, seq!["bk"@]),
        ("swapfile"@, seq!["swf"@]),
        ("autosave"@, seq!["aw"@]),
        ("undolevels"@, seq!["ul"@]),
        ("undofile"@, seq!["udf"@]),
        ("laststatus"@, seq!["ls"@]),
        ("showcmd"@, seq!["sc"@]),
        ("timeoutlen"@, seq!["tm"@]),
    ]
}

pub open spec fn variants_view(v: Seq<SettingVariant>) -> Seq<(Seq<char>, Seq<Seq<char>>)> {
    v.map_values(|e: SettingVariant| (e.name@, str_views(e.aliases@)))
}

fn variant(name: &'static str, aliases: &'static [&'static str]) -> (v: SettingVariant)
    ensures
        v.name == name && v.aliases@ == aliases@,
{
    SettingVariant { name, aliases }
}

/// List of current `:set` options
pub fn setting_variants() -> (v: Vec<SettingVariant>)
    ensures
        variants_view(v@) == setting_table(),
{
    let mut v = Vec::new();
    v.push(variant("number", &["nu"]));
    v.push(variant("relativenumber", &["rnu"]));
    v.push(variant("cursorline", &["cul"]));
    v.push(variant("syntax", &["syn"]));
    v.push(variant("colorscheme", &["colo"]));
    v.push(variant("ignorecase", &["ic"]));
    v.push(variant("smartcase", &["scs"]));
    v.push(variant("hlsearch", &["hls"]));
    v.push(variant("incsearch", &["is"]));
    v.push(variant("wrap", &[]));
    v.push(variant("linebreak", &["lbr"]));
    v.push(variant("tabstop", &["ts"]));
    v.push(variant("expandtab", &["et"]));
    v.push(variant("autoindent", &["ai"]));
    v.push(variant("backup", &["bk"]));
    v.push(variant("swapfile", &["swf"]));
    v.push(variant("autosave", &["aw"]));
    v.push(variant("undolevels", &["ul"]));
    v.push(variant("undofile", &["udf"]));
    v.push(variant("laststatus", &["ls"]));
    v.push(variant("showcmd", &["sc"]));
    v.push(variant("timeoutlen", &["tm"]));
    assert(variants_view(v@) =~= setting_table()) by {
        assert forall|i: int| 0 <= i < v@.len() implies #[trigger] variants_view(v@)[i] == setting_table()[i] by {
            assert(str_views(v@[i].aliases@) =~= setting_table()[i].1);
        }
    }
    v
}

/// `no` in front of each name.
pub open spec fn negated(names: Seq<Seq<char>>) -> Seq<Seq<char>> {
    names.map_values(|a: Seq<char>| "no"@ + a)
}

/// The `:set` tokens of an option: its name, its short forms, then the same with `no`.
pub open spec fn option_tokens(e: (Seq<char>, Seq<Seq<char>>)) -> Seq<Seq<char>> {
    seq![e.0] + e.1 + seq!["no"@ + e.0] + negated(e.1)
}

/// The `:set` tokens of every option, option by option.
pub open spec fn set_tokens(t: Seq<(Seq<char>, Seq<Seq<char>>)>) -> Seq<Seq<char>>
    decreases t.len(),
{
    if t.len() == 0 {
        Seq::empty()
    } else {
        set_tokens(t.drop_last()) + option_tokens(t.last())
    }
}

/// The strings of `s` that begin with `p`, in order.
pub open spec fn with_prefix(s: Seq<Seq<char>>, p: Seq<char>) -> Seq<Seq<char>>
    decreases s.len(),
{
    if s.len() == 0 {
        Seq::empty()
    } else {
        with_prefix(s.drop_last(), p) + if has_prefix(s.last(), p) {
            seq![s.last()]
        } else {
            Seq::empty()
        }
    }
}

fn push_owned(v: &mut Vec<String>, s: String)
    ensures
        text::seqs(final(v)@) == text::seqs(old(v)@).push(s@),
{
    let ghost before = v@;
    let ghost x = s;
    v.push(s);
    proof {
        text::lemma_seqs_push(before, x);
    }
}

/// Expand to all possible `:set` tokens like "number", "nu", "nonumber", "nonu", etc.
pub fn all_set_tokens() -> (v: Vec<String>)
    ensures
        text::seqs(v@) == set_tokens(setting_table()),
{
    let variants = setting_variants();
    let ghost t = variants_view(variants@);
    let mut v: Vec<String> = Vec::new();
    let mut i: usize = 0;
    while i < variants.len()
        invariant
            i <= variants@.len(),
            t == variants_view(variants@),
            t == setting_table(),
            text::seqs(v@) == set_tokens(t.take(i as int)),
        decreases variants@.len() - i,
    {
        let ghost base = text::seqs(v@);
        let ghost e = t[i as int];
        let name = variants[i].name;
        let aliases = variants[i].aliases;
        push_owned(&mut v, owned(name));
        let mut j: usize = 0;
        while j < aliases.len()
            invariant
                j <= aliases@.len(),
                e.1 == str_views(aliases@),
                text::seqs(v@) == base + seq![e.0] + e.1.take(j as int),
            decreases aliases@.len() - j,
        {
            push_owned(&mut v, owned(aliases[j]));
            assert(e.1.take(j + 1) =~= e.1.take(j as int).push(aliases@[j as int]@));
            j = j + 1;
        }
        assert(e.1.take(j as int) =~= e.1);
        push_owned(&mut v, concat("no", name));
        let ghost mid = text::seqs(v@);
        let mut j: usize = 0;
        while j < aliases.len()
            invariant
                j <= aliases@.len(),
                e.1 == str_views(aliases@),
                text::seqs(v@) == mid + negated(e.1).take(j as int),
            decreases aliases@.len() - j,
        {
            push_owned(&mut v, concat("no", aliases[j]));
            assert(negated(e.1).take(j + 1) =~= negated(e.1).take(j as int).push("no"@ + aliases@[j as int]@));
            j = j + 1;
        }
        proof {
            assert(negated(e.1).take(j as int) =~= negated(e.1));
            assert(t.take(i + 1).drop_last() =~= t.take(i as int));
            assert(text::seqs(v@) =~= set_tokens(t.take(i as int)) + option_tokens(e));
        }
        i = i + 1;
    }
    assert(t.take(variants@.len() as int) =~= t);
    v
}

/// The `:set` tokens that begin with `prefix` (trimmed), in the order of the table.
pub fn suggest_set_args(prefix: &str) -> (r: Vec<String>)
    ensures
        text::seqs(r@) == with_prefix(set_tokens(setting_table()), text::trim(prefix@)),
{
    let trimmed = text::trim_str(prefix);
    let tokens = all_set_tokens();
    let ghost all = text::seqs(tokens@);
    let mut r: Vec<String> = Vec::new();
    let mut i: usize = 0;
    while i < tokens.len()
        invariant
            i <= tokens@.len(),
            all == text::seqs(tokens@),
            text::seqs(r@) == with_prefix(all.take(i as int), trimmed@),
        decreases tokens@.len() - i,
    {
        assert(all.take(i + 1).drop_last() =~= all.take(i as int));
        assert(all.take(i + 1).last() == tokens@[i as int]@);
        if starts_with(tokens[i].as_str(), trimmed.as_str()) {
            push_owned(&mut r, owned(tokens[i].as_str()));
        } else {
            assert(text::seqs(r@) + Seq::<Seq<char>>::empty() =~= text::seqs(r@));
        }
        i = i + 1;
    }
    assert(all.take(tokens@.len() as int) =~= all);
    r
}

/// What the command line completes: after `set ` the options of `:set`, else the
/// Ex commands (one leading colon is skipped).
pub open spec fn suggestions_for(input: Seq<char>, r: Seq<Seq<char>>) -> bool {
    let w = if input.len() > 0 && input[0] == ':' {
        input.drop_first()
    } else {
        input
    };
    if has_prefix(w, seq!['s', 'e', 't', ' ']) {
        r == with_prefix(set_tokens(setting_table()), text::trim(w.skip(4)))
    } else {
        strictly_sorted(r) && forall|s: Seq<char>|
            #[trigger] r.contains(s) <==> (all_names(ex_table()).contains(s) && has_prefix(s, text::trim(w)))
    }
}

/// UI entry point to fetch auto-complete
pub fn suggest(full_input: &str) -> (r: Vec<String>)
    ensures
        suggestions_for(full_input@, text::seqs(r@)),
{
    let cs = text::chars_of(full_input);
    let n = cs.len();
    let without_colon = if n > 0 && cs[0] == ':' {
        text::substring(full_input, 1, n)
    } else {
        owned(full_input)
    };
    assert(n > 0 && cs@[0] == ':' ==> without_colon@ =~= full_input@.drop_first());
    let w = text::chars_of(without_colon.as_str());
    let m = w.len();
    if m >= 4 && w[0] == 's' && w[1] == 'e' && w[2] == 't' && w[3] == ' ' {
        assert(w@.take(4) =~= seq!['s', 'e', 't', ' ']);
        let rest = text::substring(without_colon.as_str(), 4, m);
        assert(rest@ =~= w@.skip(4));
        suggest_set_args(rest.as_str())
    } else {
        proof {
            if has_prefix(w@, seq!['s', 'e', 't', ' ']) {
                assert(w@.take(4)[0] == 's' && w@.take(4)[3] == ' ');
            }
        }
        suggest_ex_commands(without_colon.as_str())
    }
}

} // verus!
