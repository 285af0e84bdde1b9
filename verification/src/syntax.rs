//! Syntax highlighting data: highlight ranges and styles, the cache keys and entries,
//! and how overlapping syntax nodes are resolved (the more specific node wins).
use crate::color::{color_hex, color_hex_string, hex_fields_cut_cleanly, hex_rgb, law_color_text_round_trip, rgb_of_hex, Color};
use crate::text;
use crate::text::{owned, seqs, str_eq};
use crate::theme::{mapped_color, mappings_of, SyntaxTheme, ThemeConfig};
use std::hash::{Hash, Hasher};
use vstd::prelude::*;

verus! {

#[derive(Debug, Clone)]
pub struct HighlightRange {
    pub start: usize,
    pub end: usize,
    pub style: HighlightStyle,
}

#[derive(Debug, Clone)]
pub struct HighlightStyle {
    pub fg_color: Option<String>,
    pub bg_color: Option<String>,
    pub bold: bool,
    pub italic: bool,
    pub underline: bool,
}

/// The RGB color that a style's foreground text stands for, if it is `#rrggbb`.
pub open spec fn text_color(t: Seq<char>) -> Option<Color> {
    match hex_rgb(vstd::utf8::encode_utf8(t)) {
        Some((r, g, b)) => Some(Color::Rgb { r, g, b }),
        None => None,
    }
}

impl HighlightStyle {
    /// A plain style with the given foreground color (stored as `#rrggbb`; a color that
    /// is not RGB is stored as white).
    pub fn from_color(color: Color) -> (s: Self)
        ensures
            s.fg_color matches Some(t) && t@ == color_hex(color),
            s.bg_color is None,
            !s.bold && !s.italic && !s.underline,
    {
        HighlightStyle {
            fg_color: Some(color_hex_string(color)),
            bg_color: None,
            bold: false,
            italic: false,
            underline: false,
        }
    }

    /// The foreground color, if it is written as `#rrggbb`.
    pub fn to_color(&self) -> (c: Option<Color>)
        requires
            self.fg_color matches Some(t) ==> hex_fields_cut_cleanly(t@),
        ensures
            c == match self.fg_color {
                Some(t) => text_color(t@),
                None => None,
            },
    {
        match &self.fg_color {
            Some(t) => match rgb_of_hex(t.as_str()) {
                Some((r, g, b)) => Some(Color::Rgb { r, g, b }),
                None => None,
            },
            None => None,
        }
    }

    /// Create HighlightStyle with a default color for tree-sitter highlighting
    pub fn from_tree_sitter_color(color: Color) -> (s: Self)
        ensures
            s.fg_color matches Some(t) && t@ == color_hex(color),
            s.bg_color is None,
            !s.bold && !s.italic && !s.underline,
    {
        Self::from_color(color)
    }

    /// Builder method to set bold
    pub fn with_bold(self, bold: bool) -> (s: Self)
        ensures
            s == (HighlightStyle { bold, ..self }),
    {
        let mut s = self;
        s.bold = bold;
        s
    }

    /// Builder method to set italic
    pub fn with_italic(self, italic: bool) -> (s: Self)
        ensures
            s == (HighlightStyle { italic, ..self }),
    {
        let mut s = self;
        s.italic = italic;
        s
    }
}

/// `std::hash::Hash` of a string fed to `DefaultHasher::new()`, then `finish`. Nothing is
/// claimed of the value.
#[verifier::external_body]
fn content_hash(content: &str) -> u64 {
    let mut hasher = std::collections::hash_map::DefaultHasher::new();
    content.hash(&mut hasher);
    hasher.finish()
}

/// Cache key for syntax highlighting results
#[derive(Debug, Clone, Hash, Eq, PartialEq)]
pub struct HighlightCacheKey {
    pub content_hash: u64,
    pub language: String,
    pub theme: String,
}

/// Cache entry for syntax highlighting
#[derive(Debug, Clone)]
pub struct HighlightCacheEntry {
    pub highlights: Vec<HighlightRange>,
}

impl HighlightCacheKey {
    fn new(content: &str, language: &str, theme: &str) -> (k: Self)
        ensures
            k.language@ == language@,
            k.theme@ == theme@,
    {
        Self { content_hash: content_hash(content), language: owned(language), theme: owned(theme) }
    }

    /// Create a new cache key with the current theme of the theme configuration
    pub fn new_simple(content: &str, language: &str, themes: &ThemeConfig) -> (k: Self)
        ensures
            k.language@ == language@,
            k.theme@ == themes.theme.current@,
    {
        Self::new(content, language, themes.current_theme_name())
    }
}

impl HighlightCacheEntry {
    pub fn new(highlights: Vec<HighlightRange>) -> (e: Self)
        ensures
            e.highlights@ == highlights@,
    {
        Self { highlights }
    }

    pub fn highlights(&self) -> (r: &Vec<HighlightRange>)
        ensures
            r@ == self.highlights@,
    {
        &self.highlights
    }
}

/// Priority levels for syntax highlighting requests
#[derive(Debug, Clone, Copy, PartialEq, Eq, PartialOrd, Ord, Structural)]
pub enum Priority {
    Low,  // Background processing of entire file
    Medium,  // Lines within scroll buffer (±50 lines)
    High,  // Currently visible lines
    Critical,  // User is actively editing this line
}

/// A node of a parsed syntax tree: its kind, the bytes it spans and its children, in order.
#[derive(Debug)]
pub struct SyntaxNode {
    pub kind: String,
    pub start: usize,
    pub end: usize,
    pub children: Vec<SyntaxNode>,
}

/// A highlight as plain values: the span and its color.
pub type Span = (int, int, Color);

/// Comments are colored as one piece, markers and text alike.
pub open spec fn is_comment_kind(k: Seq<char>) -> bool {
    k == "line_comment"@ || k == "block_comment"@
}

/// Doc comment markers are colored directly rather than through their children.
pub open spec fn is_doc_marker(k: Seq<char>) -> bool {
    k == "outer_doc_comment_marker"@ || k == "inner_doc_comment_marker"@
}

/// What the walk finds under a node, in the order it visits: the highlights it makes
/// at once (whole comments and doc markers, whose children it skips) and the colored
/// nodes it collects for conflict resolution. The walk visits a node, then its
/// children from the last to the first, each with all it holds.
pub open spec fn walk_node(m: Seq<(String, Color)>, n: SyntaxNode) -> (Seq<Span>, Seq<MatchView>)
    decreases n, 0int,
{
    match mapped_color(m, n.kind@) {
        Some(c) => if is_comment_kind(n.kind@) || is_doc_marker(n.kind@) {
            (seq![(n.start as int, n.end as int, c)], Seq::empty())
        } else {
            let w = walk_stack(m, n.children@);
            (w.0, seq![(n.kind@, n.start as int, n.end as int, c)] + w.1)
        },
        None => walk_stack(m, n.children@),
    }
}

/// What the walk finds under the nodes of a stack, the top (last) one first.
pub open spec fn walk_stack(m: Seq<(String, Color)>, s: Seq<SyntaxNode>) -> (Seq<Span>, Seq<MatchView>)
    decreases s, 1int,
{
    if s.len() == 0 {
        (Seq::empty(), Seq::empty())
    } else {
        let a = walk_node(m, s.last());
        let b = walk_stack(m, s.drop_last());
        (a.0 + b.0, a.1 + b.1)
    }
}

/// A node of a parsed tree as plain values: its kind, its byte range and how many
/// children it has.
#[derive(Debug, Clone)]
pub struct FlatNode {
    pub kind: String,
    pub start: usize,
    pub end: usize,
    pub child_count: usize,
}

/// A node as plain values.
pub open spec fn flat_view(n: FlatNode) -> (Seq<char>, usize, usize, usize) {
    (n.kind@, n.start, n.end, n.child_count)
}

/// The nodes, each as plain values.
pub open spec fn flat_views(v: Seq<FlatNode>) -> Seq<(Seq<char>, usize, usize, usize)> {
    v.map_values(|n: FlatNode| flat_view(n))
}

/// The nodes of the tree that tree-sitter's Rust grammar makes of a text, in pre-order
/// (a node, then the nodes under each of its children in turn), if it makes one.
pub uninterp spec fn parsed_nodes(text: Seq<char>) -> Option<Seq<(Seq<char>, usize, usize, usize)>>;

/// `tree_sitter::Parser::parse` of the text with the Rust grammar, its nodes listed in
/// pre-order by the tree's cursor; `None` when the grammar is refused or no tree comes
/// back. The list is named `parsed_nodes` of the text.
#[verifier::external_body]
fn parse_rust(text: &str) -> (r: Option<Vec<FlatNode>>)
    ensures
        match r {
            Some(v) => parsed_nodes(text@) == Some(flat_views(v@)),
            None => parsed_nodes(text@) is None,
        },
{
    let mut parser = tree_sitter::Parser::new();
    parser.set_language(&tree_sitter_rust::LANGUAGE.into()).ok()?;
    let tree = parser.parse(text, None)?;
    let (mut cursor, mut out) = (tree.walk(), Vec::new());
    loop {
        let n = cursor.node();
        out.push(FlatNode { kind: n.kind().to_string(), start: n.start_byte(), end: n.end_byte(), child_count: n.child_count() });
        if !cursor.goto_first_child() {
            while !cursor.goto_next_sibling() {
                if !cursor.goto_parent() { return Some(out); }
            }
        }
    }
}

/// A tree's nodes in pre-order, as plain values.
pub open spec fn flat_of(n: SyntaxNode) -> Seq<(Seq<char>, usize, usize, usize)>
    decreases n, 0int,
{
    seq![(n.kind@, n.start, n.end, n.children@.len() as usize)] + flat_of_all(n.children@)
}

/// The nodes of some trees in pre-order, one tree after the other.
pub open spec fn flat_of_all(s: Seq<SyntaxNode>) -> Seq<(Seq<char>, usize, usize, usize)>
    decreases s, 1int,
{
    if s.len() == 0 {
        Seq::empty()
    } else {
        flat_of_all(s.drop_last()) + flat_of(s.last())
    }
}

/// `f` is the beginning of `x`.
pub open spec fn starts_with(
    x: Seq<(Seq<char>, usize, usize, usize)>,
    f: Seq<(Seq<char>, usize, usize, usize)>,
) -> bool {
    f.len() <= x.len() && x.subrange(0, f.len() as int) == f
}

proof fn lemma_flat_of_all_concat(a: Seq<SyntaxNode>, b: Seq<SyntaxNode>)
    ensures
        flat_of_all(a + b) == flat_of_all(a) + flat_of_all(b),
    decreases b.len(),
{
    if b.len() == 0 {
        assert(a + b =~= a);
        assert(flat_of_all(a) + flat_of_all(b) =~= flat_of_all(a));
    } else {
        assert((a + b).drop_last() =~= a + b.drop_last());
        assert((a + b).last() == b.last());
        lemma_flat_of_all_concat(a, b.drop_last());
        assert(flat_of_all(a + b) =~= flat_of_all(a) + flat_of_all(b));
    }
}

proof fn lemma_flat_of_all_single(m: SyntaxNode)
    ensures
        flat_of_all(seq![m]) == flat_of(m),
{
    let e = seq![m].drop_last();
    assert(e =~= Seq::<SyntaxNode>::empty());
    assert(flat_of_all(e) == Seq::<(Seq<char>, usize, usize, usize)>::empty());
    assert(seq![m].last() == m);
    assert(flat_of_all(seq![m]) == flat_of_all(e) + flat_of(m));
    assert(flat_of_all(seq![m]) =~= flat_of(m));
}

/// Two trees whose pre-order lists both begin `x` have the same list: the first node
/// says how many children follow.
proof fn lemma_tree_prefix_unique(m1: SyntaxNode, m2: SyntaxNode, x: Seq<(Seq<char>, usize, usize, usize)>)
    requires
        starts_with(x, flat_of(m1)),
        starts_with(x, flat_of(m2)),
    ensures
        flat_of(m1) == flat_of(m2),
    decreases x.len(), 0int,
{
    let f1 = flat_of(m1);
    let f2 = flat_of(m2);
    assert(f1[0] == x[0]);
    assert(f2[0] == x[0]);
    assert(m1.children.len() == m1.children@.len());
    assert(m2.children.len() == m2.children@.len());
    let y = x.subrange(1, x.len() as int);
    let c1 = flat_of_all(m1.children@);
    let c2 = flat_of_all(m2.children@);
    assert(y.subrange(0, c1.len() as int) =~= f1.subrange(1, f1.len() as int));
    assert(f1.subrange(1, f1.len() as int) =~= c1);
    assert(y.subrange(0, c2.len() as int) =~= f2.subrange(1, f2.len() as int));
    assert(f2.subrange(1, f2.len() as int) =~= c2);
    lemma_forest_prefix_unique(m1.children@, m2.children@, y);
    assert(f1 =~= f2);
}

/// Two equally long rows of trees whose lists both begin `x` have the same list.
proof fn lemma_forest_prefix_unique(a: Seq<SyntaxNode>, b: Seq<SyntaxNode>, x: Seq<(Seq<char>, usize, usize, usize)>)
    requires
        a.len() == b.len(),
        starts_with(x, flat_of_all(a)),
        starts_with(x, flat_of_all(b)),
    ensures
        flat_of_all(a) == flat_of_all(b),
    decreases x.len(), 1int,
{
    if a.len() > 0 {
        let ra = a.drop_first();
        let rb = b.drop_first();
        assert(a =~= seq![a[0]] + ra);
        assert(b =~= seq![b[0]] + rb);
        lemma_flat_of_all_concat(seq![a[0]], ra);
        lemma_flat_of_all_concat(seq![b[0]], rb);
        lemma_flat_of_all_single(a[0]);
        lemma_flat_of_all_single(b[0]);
        let h1 = flat_of(a[0]);
        let h2 = flat_of(b[0]);
        assert(x.subrange(0, h1.len() as int) =~= flat_of_all(a).subrange(0, h1.len() as int));
        assert(flat_of_all(a).subrange(0, h1.len() as int) =~= h1);
        assert(x.subrange(0, h2.len() as int) =~= flat_of_all(b).subrange(0, h2.len() as int));
        assert(flat_of_all(b).subrange(0, h2.len() as int) =~= h2);
        lemma_tree_prefix_unique(a[0], b[0], x);
        let k = h1.len() as int;
        let y = x.subrange(k, x.len() as int);
        assert(y.subrange(0, flat_of_all(ra).len() as int) =~= flat_of_all(a).subrange(k, flat_of_all(a).len() as int));
        assert(flat_of_all(a).subrange(k, flat_of_all(a).len() as int) =~= flat_of_all(ra));
        assert(y.subrange(0, flat_of_all(rb).len() as int) =~= flat_of_all(b).subrange(k, flat_of_all(b).len() as int));
        assert(flat_of_all(b).subrange(k, flat_of_all(b).len() as int) =~= flat_of_all(rb));
        lemma_forest_prefix_unique(ra, rb, y);
    } else {
        assert(b.len() == 0);
    }
}

/// Where the lists of the first `k` children of `n` end, the list of child `k` begins.
proof fn lemma_child_at(n: SyntaxNode, k: int, views: Seq<(Seq<char>, usize, usize, usize)>, i: int, j: int)
    requires
        0 <= k < n.children@.len(),
        0 <= i < j <= views.len(),
        starts_with(views.subrange(i, views.len() as int), flat_of(n)),
        flat_of_all(n.children@.take(k)) == views.subrange(i + 1, j),
    ensures
        starts_with(views.subrange(j, views.len() as int), flat_of(n.children@[k])),
{
    let ch = n.children@;
    let f = flat_of_all(ch);
    let a = ch.take(k);
    let c = ch[k];
    let b = ch.skip(k + 1);
    assert(ch =~= a + (seq![c] + b));
    lemma_flat_of_all_concat(a, seq![c] + b);
    lemma_flat_of_all_concat(seq![c], b);
    lemma_flat_of_all_single(c);
    let fc = flat_of(c);
    let fa = flat_of_all(a);
    assert(f == fa + (fc + flat_of_all(b)));
    let whole = flat_of(n);
    let rest = views.subrange(i, views.len() as int);
    assert(whole.subrange(1, whole.len() as int) =~= f);
    assert(rest.subrange(0, whole.len() as int) == whole);
    assert(fa.len() == j - i - 1);
    assert forall|q: int| 0 <= q < fc.len() implies views.subrange(j, views.len() as int)[q] == fc[q] by {
        assert(views[j + q] == rest[j - i + q]);
        assert(rest[j - i + q] == whole[j - i + q]);
        assert(whole[j - i + q] == f[j - i - 1 + q]);
        assert(f[fa.len() + q] == fc[q]);
    }
    assert(views.subrange(j, views.len() as int).subrange(0, fc.len() as int) =~= fc);
}

/// Once child `k` is read as the list that follows, the first `k + 1` children's
/// lists end where it ends.
proof fn lemma_child_step(
    n: SyntaxNode,
    k: int,
    views: Seq<(Seq<char>, usize, usize, usize)>,
    i: int,
    j: int,
    next: int,
    c: SyntaxNode,
)
    requires
        0 <= k < n.children@.len(),
        0 <= i < j < next <= views.len(),
        starts_with(views.subrange(i, views.len() as int), flat_of(n)),
        flat_of_all(n.children@.take(k)) == views.subrange(i + 1, j),
        flat_of(c) == views.subrange(j, next),
    ensures
        flat_of_all(n.children@.take(k + 1)) == views.subrange(i + 1, next),
{
    lemma_child_at(n, k, views, i, j);
    let x = views.subrange(j, views.len() as int);
    assert(x.subrange(0, flat_of(c).len() as int) =~= flat_of(c));
    lemma_tree_prefix_unique(c, n.children@[k], x);
    assert(n.children@.take(k + 1) =~= n.children@.take(k) + seq![n.children@[k]]);
    lemma_flat_of_all_concat(n.children@.take(k), seq![n.children@[k]]);
    lemma_flat_of_all_single(n.children@[k]);
    assert(views.subrange(i + 1, next) =~= views.subrange(i + 1, j) + views.subrange(j, next));
}

/// The tree whose pre-order list starts at node `i`, and where its list ends.
fn build_node(flat: &Vec<FlatNode>, i: usize) -> (r: Option<(SyntaxNode, usize)>)
    requires
        i <= flat@.len(),
    ensures
        r matches Some((n, j)) ==> i < j <= flat@.len() && flat_of(n) == flat_views(flat@).subrange(i as int, j as int),
        (exists|m: SyntaxNode|
            starts_with(flat_views(flat@).subrange(i as int, flat@.len() as int), #[trigger] flat_of(m))) ==> r is Some,
    decreases flat@.len() - i,
{
    let ghost views = flat_views(flat@);
    let ghost rest = views.subrange(i as int, flat@.len() as int);
    let ghost has = exists|m: SyntaxNode| starts_with(rest, #[trigger] flat_of(m));
    let ghost n = choose|m: SyntaxNode| starts_with(rest, #[trigger] flat_of(m));
    if i >= flat.len() {
        proof {
            if has {
                assert(flat_of(n).len() >= 1);
            }
        }
        return None;
    }
    let count = flat[i].child_count;
    proof {
        if has {
            assert(flat_of(n)[0] == rest[0]);
            assert(rest[0] == views[i as int]);
            assert(n.children.len() == n.children@.len());
        }
    }
    let mut children: Vec<SyntaxNode> = Vec::new();
    let mut j = i + 1;
    let mut k: usize = 0;
    assert(n.children@.take(0) =~= Seq::<SyntaxNode>::empty());
    assert(views.subrange(i + 1, i + 1) =~= Seq::<(Seq<char>, usize, usize, usize)>::empty());
    while k < count
        invariant
            i < j <= flat@.len(),
            k <= count,
            children@.len() == k,
            views == flat_views(flat@),
            views.len() == flat@.len(),
            rest == views.subrange(i as int, flat@.len() as int),
            has == exists|m: SyntaxNode| starts_with(rest, #[trigger] flat_of(m)),
            has ==> starts_with(rest, flat_of(n)),
            has ==> count == n.children@.len(),
            has ==> flat_of_all(n.children@.take(k as int)) == views.subrange(i + 1, j as int),
            flat_of_all(children@) == flat_views(flat@).subrange(i + 1, j as int),
        decreases count - k,
    {
        proof {
            if has {
                lemma_child_at(n, k as int, views, i as int, j as int);
            }
        }
        match build_node(flat, j) {
            Some((c, next)) => {
                let ghost before = children@;
                children.push(c);
                proof {
                    assert(children@.drop_last() == before);
                    assert(flat_views(flat@).subrange(i + 1, next as int) =~= flat_views(flat@).subrange(i + 1, j as int)
                        + flat_views(flat@).subrange(j as int, next as int));
                    if has {
                        lemma_child_step(n, k as int, views, i as int, j as int, next as int, c);
                    }
                }
                j = next;
            },
            None => {
                proof {
                    if has {
                        assert(starts_with(views.subrange(j as int, views.len() as int), flat_of(n.children@[k as int])));
                    }
                }
                return None;
            },
        }
        k = k + 1;
    }
    let node = SyntaxNode { kind: owned(flat[i].kind.as_str()), start: flat[i].start, end: flat[i].end, children };
    proof {
        assert(flat_views(flat@).subrange(i as int, j as int) =~= seq![flat_view(flat@[i as int])] + flat_views(
            flat@,
        ).subrange(i + 1, j as int));
    }
    Some((node, j))
}

/// The tree a pre-order list of nodes describes, if the list is exactly one tree.
pub fn build_tree(flat: &Vec<FlatNode>) -> (r: Option<SyntaxNode>)
    ensures
        r matches Some(t) ==> flat_of(t) == flat_views(flat@),
        r is None <==> !exists|t: SyntaxNode| #[trigger] flat_of(t) == flat_views(flat@),
{
    let ghost views = flat_views(flat@);
    assert(views.subrange(0, flat@.len() as int) =~= views);
    match build_node(flat, 0) {
        Some((t, j)) => {
            if j == flat.len() {
                assert(flat_views(flat@).subrange(0, j as int) =~= flat_views(flat@));
                Some(t)
            } else {
                proof {
                    if exists|u: SyntaxNode| #[trigger] flat_of(u) == views {
                        let u = choose|u: SyntaxNode| #[trigger] flat_of(u) == views;
                        assert(views.subrange(0, flat_of(t).len() as int) =~= flat_of(t));
                        assert(views.subrange(0, flat_of(u).len() as int) =~= flat_of(u));
                        lemma_tree_prefix_unique(t, u, views);
                    }
                }
                None
            }
        },
        None => {
            proof {
                if exists|u: SyntaxNode| #[trigger] flat_of(u) == views {
                    let u = choose|u: SyntaxNode| #[trigger] flat_of(u) == views;
                    assert(starts_with(views.subrange(0, flat@.len() as int), flat_of(u)));
                }
            }
            None
        },
    }
}

/// The number of nodes in a tree.
pub open spec fn node_count(n: SyntaxNode) -> nat
    decreases n, 0int,
{
    1 + stack_count(n.children@)
}

/// The number of nodes in the trees of a stack.
pub open spec fn stack_count(s: Seq<SyntaxNode>) -> nat
    decreases s, 1int,
{
    if s.len() == 0 {
        0
    } else {
        node_count(s.last()) + stack_count(s.drop_last())
    }
}

/// The nodes a stack of node references holds.
pub open spec fn stacked(s: Seq<&SyntaxNode>) -> Seq<SyntaxNode> {
    s.map_values(|r: &SyntaxNode| *r)
}

/// Spans as plain values.
pub open spec fn spans_view(v: Seq<(usize, usize, Color)>) -> Seq<Span> {
    v.map_values(|x: (usize, usize, Color)| (x.0 as int, x.1 as int, x.2))
}

/// The highlights of a tree before sorting: the ones made at once, then the colored
/// nodes that survive conflict resolution.
pub open spec fn tree_spans(m: Seq<(String, Color)>, root: SyntaxNode) -> Seq<Span> {
    let w = walk_node(m, root);
    w.0 + resolved(w.1).map_values(|v: MatchView| (v.1, v.2, v.3))
}

/// The first position from `i` on whose span starts after `k` (the length when none).
pub open spec fn first_after(t: Seq<Span>, k: int, i: int) -> int
    decreases t.len() - i,
{
    if 0 <= i < t.len() && t[i].0 <= k {
        first_after(t, k, i + 1)
    } else {
        i
    }
}

/// `x` put after every span that starts no later than it.
pub open spec fn insert_by_start(t: Seq<Span>, x: Span) -> Seq<Span> {
    let p = first_after(t, x.0, 0);
    t.take(p) + seq![x] + t.skip(p)
}

/// The spans in order of their start, spans that start together kept in their order.
pub open spec fn sort_by_start(s: Seq<Span>) -> Seq<Span>
    decreases s.len(),
{
    if s.len() == 0 {
        s
    } else {
        insert_by_start(sort_by_start(s.drop_last()), s.last())
    }
}

/// A highlight shows a span: the span, with a plain style of the span's color.
pub open spec fn shows_span(h: HighlightRange, sp: Span) -> bool {
    &&& h.start == sp.0
    &&& h.end == sp.1
    &&& h.style.fg_color matches Some(t) && t@ == color_hex(sp.2)
    &&& h.style.bg_color is None
    &&& !h.style.bold && !h.style.italic && !h.style.underline
}

/// The highlights show the spans, one for one and in order.
pub open spec fn shows_spans(hs: Seq<HighlightRange>, sps: Seq<Span>) -> bool {
    &&& hs.len() == sps.len()
    &&& forall|i: int| 0 <= i < hs.len() ==> shows_span(#[trigger] hs[i], sps[i])
}

proof fn lemma_stack_append(m: Seq<(String, Color)>, a: Seq<SyntaxNode>, b: Seq<SyntaxNode>)
    ensures
        walk_stack(m, a + b).0 == walk_stack(m, b).0 + walk_stack(m, a).0,
        walk_stack(m, a + b).1 == walk_stack(m, b).1 + walk_stack(m, a).1,
        stack_count(a + b) == stack_count(a) + stack_count(b),
    decreases b.len(),
{
    if b.len() == 0 {
        assert(a + b =~= a);
        assert(walk_stack(m, b).0 + walk_stack(m, a).0 =~= walk_stack(m, a).0);
        assert(walk_stack(m, b).1 + walk_stack(m, a).1 =~= walk_stack(m, a).1);
    } else {
        lemma_stack_append(m, a, b.drop_last());
        assert((a + b).drop_last() =~= a + b.drop_last());
        assert((a + b).last() == b.last());
        let x = walk_node(m, b.last());
        let p = walk_stack(m, b.drop_last());
        let q = walk_stack(m, a);
        assert(x.0 + (p.0 + q.0) =~= (x.0 + p.0) + q.0);
        assert(x.1 + (p.1 + q.1) =~= (x.1 + p.1) + q.1);
    }
}

fn is_whole_piece(kind: &str) -> (b: bool)
    ensures
        b == (is_comment_kind(kind@) || is_doc_marker(kind@)),
{
    str_eq(kind, "line_comment") || str_eq(kind, "block_comment") || str_eq(kind, "outer_doc_comment_marker")
        || str_eq(kind, "inner_doc_comment_marker")
}

fn push_children<'a>(stack: &mut Vec<&'a SyntaxNode>, node: &'a SyntaxNode)
    ensures
        stacked(final(stack)@) == stacked(old(stack)@) + node.children@,
{
    let ghost base = stacked(stack@);
    let mut i: usize = 0;
    while i < node.children.len()
        invariant
            i <= node.children@.len(),
            stacked(stack@) == base + node.children@.take(i as int),
        decreases node.children@.len() - i,
    {
        let ghost pre = stack@;
        stack.push(&node.children[i]);
        assert(stack@ == pre.push(&node.children@[i as int]));
        assert(stacked(stack@) =~= stacked(pre).push(node.children@[i as int]));
        assert(node.children@.take(i + 1) =~= node.children@.take(i as int).push(node.children@[i as int]));
        assert(stacked(stack@) =~= base + node.children@.take(i + 1));
        i = i + 1;
    }
    assert(node.children@.take(i as int) =~= node.children@);
}

/// Walks the tree from its root with a stack of nodes, as `walk_node` describes.
fn walk_tree(root: &SyntaxNode, theme: &SyntaxTheme) -> (r: (Vec<(usize, usize, Color)>, Vec<NodeMatch>))
    ensures
        spans_view(r.0@) == walk_node(theme.tree_sitter_mappings@, *root).0,
        matches_view(r.1@) == walk_node(theme.tree_sitter_mappings@, *root).1,
{
    let ghost m = theme.tree_sitter_mappings@;
    let ghost total = walk_node(m, *root);
    let mut direct: Vec<(usize, usize, Color)> = Vec::new();
    let mut found: Vec<NodeMatch> = Vec::new();
    let mut stack: Vec<&SyntaxNode> = Vec::new();
    stack.push(root);
    proof {
        assert(stacked(stack@) =~= seq![*root]);
        assert(seq![*root].drop_last() =~= Seq::<SyntaxNode>::empty());
        assert(seq![*root].last() == *root);
        assert(walk_stack(m, Seq::<SyntaxNode>::empty()).0 == Seq::<Span>::empty());
        assert(walk_stack(m, Seq::<SyntaxNode>::empty()).1 == Seq::<MatchView>::empty());
        assert(walk_stack(m, seq![*root]).0 =~= total.0);
        assert(walk_stack(m, seq![*root]).1 =~= total.1);
        assert(spans_view(direct@) + total.0 =~= total.0);
        assert(matches_view(found@) + total.1 =~= total.1);
    }
    while stack.len() > 0
        invariant
            m == theme.tree_sitter_mappings@,
            total == walk_node(m, *root),
            spans_view(direct@) + walk_stack(m, stacked(stack@)).0 == total.0,
            matches_view(found@) + walk_stack(m, stacked(stack@)).1 == total.1,
        decreases stack_count(stacked(stack@)),
    {
        let ghost before = stacked(stack@);
        let node = stack.pop().unwrap();
        let ghost base = stacked(stack@);
        let ghost here = walk_node(m, *node);
        let ghost rest = walk_stack(m, base);
        proof {
            assert(base =~= before.drop_last());
            assert(*node == before.last());
            assert(stack_count(before) == node_count(*node) + stack_count(base));
            assert(node_count(*node) == 1 + stack_count(node.children@));
            assert(walk_stack(m, before).0 == here.0 + rest.0);
            assert(walk_stack(m, before).1 == here.1 + rest.1);
        }
        let ghost d0 = spans_view(direct@);
        let ghost f0 = matches_view(found@);
        match theme.color_of(node.kind.as_str()) {
            Some(c) => {
                if is_whole_piece(node.kind.as_str()) {
                    direct.push((node.start, node.end, c));
                    proof {
                        assert(spans_view(direct@) =~= d0.push((node.start as int, node.end as int, c)));
                        assert(spans_view(direct@) + rest.0 =~= d0 + (here.0 + rest.0));
                        assert(f0 + rest.1 =~= f0 + (here.1 + rest.1));
                    }
                } else {
                    push_match(&mut found, NodeMatch { kind: owned(node.kind.as_str()), start: node.start, end: node.end, color: c });
                    push_children(&mut stack, node);
                    proof {
                        lemma_stack_append(m, base, node.children@);
                        let w = walk_stack(m, node.children@);
                        assert(spans_view(direct@) + (w.0 + rest.0) =~= d0 + (here.0 + rest.0));
                        assert(matches_view(found@) + (w.1 + rest.1) =~= f0 + (here.1 + rest.1));
                    }
                }
            },
            None => {
                push_children(&mut stack, node);
                proof {
                    lemma_stack_append(m, base, node.children@);
                    let w = walk_stack(m, node.children@);
                    assert(spans_view(direct@) + (w.0 + rest.0) =~= d0 + (here.0 + rest.0));
                    assert(matches_view(found@) + (w.1 + rest.1) =~= f0 + (here.1 + rest.1));
                }
            },
        }
    }
    proof {
        assert(spans_view(direct@) + Seq::<Span>::empty() =~= spans_view(direct@));
        assert(matches_view(found@) + Seq::<MatchView>::empty() =~= matches_view(found@));
    }
    (direct, found)
}

/// The spans in order of their start (a stable sort: spans that start together keep
/// their order).
fn sort_spans(v: Vec<(usize, usize, Color)>) -> (r: Vec<(usize, usize, Color)>)
    ensures
        spans_view(r@) == sort_by_start(spans_view(v@)),
{
    let ghost all = spans_view(v@);
    let mut r: Vec<(usize, usize, Color)> = Vec::new();
    let mut i: usize = 0;
    assert(all.take(0) =~= Seq::<Span>::empty());
    assert(spans_view(r@) =~= Seq::<Span>::empty());
    while i < v.len()
        invariant
            i <= v@.len(),
            all == spans_view(v@),
            spans_view(r@) == sort_by_start(all.take(i as int)),
        decreases v@.len() - i,
    {
        let x = v[i];
        let ghost xv = (x.0 as int, x.1 as int, x.2);
        let ghost t = spans_view(r@);
        let mut j: usize = 0;
        while j < r.len() && r[j].0 <= x.0
            invariant
                j <= r@.len(),
                t == spans_view(r@),
                xv == (x.0 as int, x.1 as int, x.2),
                first_after(t, xv.0, j as int) == first_after(t, xv.0, 0),
            decreases r@.len() - j,
        {
            j = j + 1;
        }
        let ghost pre = r@;
        r.insert(j, x);
        proof {
            assert(first_after(t, xv.0, j as int) == j);
            assert(r@ == pre.insert(j as int, x));
            assert(spans_view(r@) =~= t.take(j as int) + seq![xv] + t.skip(j as int));
            assert(all.take(i + 1).drop_last() =~= all.take(i as int));
            assert(all.take(i + 1).last() == xv);
        }
        i = i + 1;
    }
    assert(all.take(v@.len() as int) =~= all);
    r
}

/// The highlights of a parsed syntax tree under a syntax theme: whole comments and doc
/// markers at once, the other colored nodes after conflict resolution, all sorted by
/// where they start.
pub fn highlight_tree(root: &SyntaxNode, theme: &SyntaxTheme) -> (r: Vec<HighlightRange>)
    ensures
        shows_spans(r@, sort_by_start(tree_spans(theme.tree_sitter_mappings@, *root))),
{
    let ghost m = theme.tree_sitter_mappings@;
    let (direct, found) = walk_tree(root, theme);
    let kept = resolve_node_conflicts(found);
    let ghost d = spans_view(direct@);
    let ghost res = resolved(walk_node(m, *root).1).map_values(|v: MatchView| (v.1, v.2, v.3));
    let mut all = direct;
    let mut i: usize = 0;
    assert(res.take(0) =~= Seq::<Span>::empty());
    assert(d + res.take(0) =~= d);
    while i < kept.len()
        invariant
            i <= kept@.len(),
            matches_view(kept@) == resolved(walk_node(m, *root).1),
            res == resolved(walk_node(m, *root).1).map_values(|v: MatchView| (v.1, v.2, v.3)),
            spans_view(all@) == d + res.take(i as int),
        decreases kept@.len() - i,
    {
        let ghost pre = spans_view(all@);
        all.push((kept[i].start, kept[i].end, kept[i].color));
        proof {
            assert(matches_view(kept@)[i as int] == match_view(kept@[i as int]));
            assert(res.take(i + 1) =~= res.take(i as int).push(res[i as int]));
            assert(spans_view(all@) =~= pre.push(res[i as int]));
        }
        i = i + 1;
    }
    assert(res.take(kept@.len() as int) =~= res);
    let sorted = sort_spans(all);
    let ghost target = spans_view(sorted@);
    let mut out: Vec<HighlightRange> = Vec::new();
    let mut k: usize = 0;
    while k < sorted.len()
        invariant
            k <= sorted@.len(),
            target == spans_view(sorted@),
            shows_spans(out@, target.take(k as int)),
        decreases sorted@.len() - k,
    {
        let (a, b, c) = sorted[k];
        out.push(HighlightRange { start: a, end: b, style: HighlightStyle::from_color(c) });
        proof {
            assert forall|q: int| 0 <= q < out@.len() implies shows_span(#[trigger] out@[q], target.take(k + 1)[q]) by {
                if q < k {
                    assert(target.take(k + 1)[q] == target.take(k as int)[q]);
                }
            }
        }
        k = k + 1;
    }
    assert(target.take(sorted@.len() as int) =~= target);
    out
}

proof fn lemma_first_after(t: Seq<Span>, k: int, i: int)
    requires
        0 <= i <= t.len(),
    ensures
        i <= first_after(t, k, i) <= t.len(),
        forall|q: int| i <= q < first_after(t, k, i) ==> (#[trigger] t[q]).0 <= k,
        first_after(t, k, i) < t.len() ==> t[first_after(t, k, i)].0 > k,
    decreases t.len() - i,
{
    if i < t.len() && t[i].0 <= k {
        lemma_first_after(t, k, i + 1);
    }
}

/// Sorting the highlights orders them by where they start and keeps every one of them.
pub proof fn law_sorted_by_start(s: Seq<Span>)
    ensures
        forall|i: int, j: int| 0 <= i < j < sort_by_start(s).len() ==> (#[trigger] sort_by_start(s)[i]).0 <= (
        #[trigger] sort_by_start(s)[j]).0,
        sort_by_start(s).to_multiset() == s.to_multiset(),
    decreases s.len(),
{
    if s.len() > 0 {
        let t = sort_by_start(s.drop_last());
        let x = s.last();
        law_sorted_by_start(s.drop_last());
        let p = first_after(t, x.0, 0);
        lemma_first_after(t, x.0, 0);
        let r = insert_by_start(t, x);
        assert(r =~= t.insert(p, x));
        vstd::seq_lib::to_multiset_insert(t, p, x);
        vstd::seq_lib::to_multiset_build(s.drop_last(), x);
        assert(s.drop_last().push(x) =~= s);
        assert forall|i: int, j: int| 0 <= i < j < r.len() implies (#[trigger] r[i]).0 <= (#[trigger] r[j]).0 by {
            if j < p {
                assert(r[i] == t[i] && r[j] == t[j]);
            } else if j == p {
                assert(r[i] == t[i]);
            } else if i < p {
                assert(r[i] == t[i] && r[j] == t[j - 1]);
                assert(t[i].0 <= x.0);
                if p < t.len() {
                    assert(t[p].0 > x.0);
                }
            } else if i == p {
                assert(r[j] == t[j - 1]);
                assert(t[p].0 > x.0);
                if j - 1 > p {
                    assert(t[p].0 <= t[j - 1].0);
                }
            } else {
                assert(r[i] == t[i - 1] && r[j] == t[j - 1]);
            }
        }
    }
}

/// Errors of syntax highlighting.
#[derive(Debug, Clone, PartialEq, Eq)]
pub enum HighlightError {
    /// No parser for the language.
    NoParser(String),
    /// The parser gave no tree.
    ParseFailed,
    /// No theme of that name; the current theme is used.
    ThemeNotFound(String),
}

impl HighlightError {
    pub open spec fn spec_message(&self) -> Seq<char> {
        match self {
            HighlightError::NoParser(l) => "No parser for language: "@ + l@,
            HighlightError::ParseFailed => "Failed to parse text"@,
            HighlightError::ThemeNotFound(t) => "Theme '"@ + t@ + "' not found, using current theme"@,
        }
    }

    /// The error's message.
    pub fn message(&self) -> (s: String)
        ensures
            s@ == self.spec_message(),
    {
        match self {
            HighlightError::NoParser(l) => text::concat("No parser for language: ", l.as_str()),
            HighlightError::ParseFailed => owned("Failed to parse text"),
            HighlightError::ThemeNotFound(t) => {
                let s = text::concat("Theme '", t.as_str());
                text::concat(s.as_str(), "' not found, using current theme")
            },
        }
    }
}

/// The syntax theme of a theme configuration's current theme (the emergency one when
/// there is no theme).
pub open spec fn current_syntax_of(cfg: ThemeConfig, s: SyntaxTheme) -> bool {
    match cfg.current_theme_of() {
        Some(t) => mappings_of(s.tree_sitter_mappings@, t.tree_sitter@),
        None => s.tree_sitter_mappings@.len() == 8 && mapped_color(s.tree_sitter_mappings@, "_default"@) == Some(
            Color::White,
        ),
    }
}

/// Syntax highlighter: the languages it parses, the theme configuration and the syntax
/// theme in use. The parsing itself happens outside; the highlighter colors the tree.
pub struct SyntaxHighlighter {
    /// The languages with a parser.
    pub languages: Vec<String>,
    pub theme_config: ThemeConfig,
    pub current_syntax_theme: SyntaxTheme,
}

impl SyntaxHighlighter {
    fn current_syntax(theme_config: &ThemeConfig) -> (s: SyntaxTheme)
        requires
            theme_config.cuts_cleanly(),
        ensures
            current_syntax_of(*theme_config, s),
    {
        let c = theme_config.get_current_theme();
        c.syntax
    }

    /// A highlighter for Rust with the current theme of the configuration.
    pub fn new(theme_config: ThemeConfig) -> (h: Self)
        requires
            theme_config.cuts_cleanly(),
        ensures
            h.languages@.len() == 1 && h.languages@[0]@ == "rust"@,
            h.theme_config == theme_config,
            current_syntax_of(theme_config, h.current_syntax_theme),
    {
        let current_syntax_theme = Self::current_syntax(&theme_config);
        let mut languages: Vec<String> = Vec::new();
        languages.push(owned("rust"));
        SyntaxHighlighter { languages, theme_config, current_syntax_theme }
    }

    /// Whether the highlighter has a parser for the language.
    pub fn has_parser(&self, language: &str) -> (b: bool)
        ensures
            b == seqs(self.languages@).contains(language@),
    {
        let mut i: usize = 0;
        while i < self.languages.len()
            invariant
                i <= self.languages@.len(),
                forall|j: int| 0 <= j < i ==> seqs(self.languages@)[j] != language@,
            decreases self.languages@.len() - i,
        {
            if str_eq(self.languages[i].as_str(), language) {
                assert(seqs(self.languages@)[i as int] == language@);
                return true;
            }
            i = i + 1;
        }
        false
    }

    /// Switches to the named theme of the (reloaded) configuration; when there is no
    /// such theme the current theme is used and the error says so.
    pub fn update_theme(&mut self, reloaded: ThemeConfig, theme_name: &str) -> (r: Result<(), HighlightError>)
        requires
            reloaded.cuts_cleanly(),
        ensures
            final(self).theme_config == reloaded,
            final(self).languages == old(self).languages,
            reloaded.has_theme(theme_name@) ==> r is Ok && mappings_of(
                final(self).current_syntax_theme.tree_sitter_mappings@,
                reloaded.first_named(theme_name@).tree_sitter@,
            ),
            !reloaded.has_theme(theme_name@) ==> (r matches Err(HighlightError::ThemeNotFound(t)) && t@ == theme_name@)
                && current_syntax_of(reloaded, final(self).current_syntax_theme),
    {
        self.theme_config = reloaded;
        match self.theme_config.get_theme(theme_name) {
            Some(t) => {
                self.current_syntax_theme = t.syntax;
                Ok(())
            },
            None => {
                self.current_syntax_theme = Self::current_syntax(&self.theme_config);
                Err(HighlightError::ThemeNotFound(owned(theme_name)))
            },
        }
    }

    /// The node kinds of the current syntax theme and their colors.
    pub fn get_theme_mappings(&self) -> (r: &Vec<(String, Color)>)
        ensures
            r@ == self.current_syntax_theme.tree_sitter_mappings@,
    {
        &self.current_syntax_theme.tree_sitter_mappings
    }

    /// The highlights of text in a language, given the tree its parser made of the
    /// text (`None` when the parser gave none).
    pub fn highlight_parsed(&self, language: &str, tree: Option<&SyntaxNode>) -> (r: Result<
        Vec<HighlightRange>,
        HighlightError,
    >)
        ensures
            !seqs(self.languages@).contains(language@) ==> (r matches Err(HighlightError::NoParser(l)) && l@
                == language@),
            seqs(self.languages@).contains(language@) && tree is None ==> r == Err::<
                Vec<HighlightRange>,
                HighlightError,
            >(HighlightError::ParseFailed),
            seqs(self.languages@).contains(language@) && tree is Some ==> (r matches Ok(v) && shows_spans(
                v@,
                sort_by_start(tree_spans(self.current_syntax_theme.tree_sitter_mappings@, *tree->0)),
            )),
    {
        if !self.has_parser(language) {
            return Err(HighlightError::NoParser(owned(language)));
        }
        match tree {
            Some(t) => Ok(highlight_tree(t, &self.current_syntax_theme)),
            None => Err(HighlightError::ParseFailed),
        }
    }

    /// The highlights of text in a language: the text is parsed (only Rust has a
    /// parser) and the tree's nodes are colored by the current theme, the more specific
    /// node winning where nodes overlap.
    pub fn highlight_text(&self, language: &str, text: &str) -> (r: Result<Vec<HighlightRange>, HighlightError>)
        ensures
            !seqs(self.languages@).contains(language@) ==> (r matches Err(HighlightError::NoParser(l)) && l@
                == language@),
            seqs(self.languages@).contains(language@) && parsed_nodes(text@) is None ==> r == Err::<
                Vec<HighlightRange>,
                HighlightError,
            >(HighlightError::ParseFailed),
            seqs(self.languages@).contains(language@) && parsed_nodes(text@) is Some && !(exists|t: SyntaxNode|
                #[trigger] flat_of(t) == parsed_nodes(text@)->0) ==> r == Err::<
                Vec<HighlightRange>,
                HighlightError,
            >(HighlightError::ParseFailed),
            seqs(self.languages@).contains(language@) && parsed_nodes(text@) is Some && (exists|t: SyntaxNode|
                #[trigger] flat_of(t) == parsed_nodes(text@)->0) ==> (r matches Ok(v) && exists|t: SyntaxNode|
                #[trigger] flat_of(t) == parsed_nodes(text@)->0 && shows_spans(
                    v@,
                    sort_by_start(tree_spans(self.current_syntax_theme.tree_sitter_mappings@, t)),
                )),
    {
        if !self.has_parser(language) {
            return Err(HighlightError::NoParser(owned(language)));
        }
        let tree = match parse_rust(text) {
            Some(flat) => build_tree(&flat),
            None => None,
        };
        match tree {
            Some(t) => self.highlight_parsed(language, Some(&t)),
            None => Err(HighlightError::ParseFailed),
        }
    }

}

/// How specific a syntax node's kind is: higher wins when nodes overlap.
pub open spec fn node_priority(kind: Seq<char>) -> u8 {
    if kind == "field_identifier"@ {
        10
    } else if kind == "function_identifier"@ {
        8
    } else if kind == "primitive_type"@ {
        7
    } else if kind == "type_identifier"@ {
        6
    } else if kind == "{"@ || kind == "}"@ || kind == "("@ || kind == ")"@ || kind == "["@ || kind == "]"@
        || kind == ";"@ || kind == ","@ || kind == ":"@ || kind == "."@ {
        6
    } else if kind == "identifier"@ {
        1
    } else if kind == "field_declaration_list"@ || kind == "parameters"@ || kind == "block"@ || kind
        == "struct_item"@ {
        3
    } else {
        5
    }
}

/// Get priority for tree-sitter node types - higher numbers = higher priority
pub fn get_node_type_priority(node_kind: &str) -> (p: u8)
    ensures
        p == node_priority(node_kind@),
{
    if str_eq(node_kind, "field_identifier") {
        10
    } else if str_eq(node_kind, "function_identifier") {
        8
    } else if str_eq(node_kind, "primitive_type") {
        7
    } else if str_eq(node_kind, "type_identifier") {
        6
    } else if str_eq(node_kind, "{") || str_eq(node_kind, "}") || str_eq(node_kind, "(") || str_eq(node_kind, ")")
        || str_eq(node_kind, "[") || str_eq(node_kind, "]") || str_eq(node_kind, ";") || str_eq(node_kind, ",")
        || str_eq(node_kind, ":") || str_eq(node_kind, ".") {
        6
    } else if str_eq(node_kind, "identifier") {
        1
    } else if str_eq(node_kind, "field_declaration_list") || str_eq(node_kind, "parameters") || str_eq(
        node_kind,
        "block",
    ) || str_eq(node_kind, "struct_item") {
        3
    } else {
        5
    }
}

/// A syntax node that has a color: its kind, its byte span and its color.
#[derive(Debug, Clone)]
pub struct NodeMatch {
    pub kind: String,
    pub start: usize,
    pub end: usize,
    pub color: Color,
}

/// A node match as plain values.
pub type MatchView = (Seq<char>, int, int, Color);

pub open spec fn match_view(m: NodeMatch) -> MatchView {
    (m.kind@, m.start as int, m.end as int, m.color)
}

pub open spec fn matches_view(v: Seq<NodeMatch>) -> Seq<MatchView> {
    v.map_values(|m: NodeMatch| match_view(m))
}

/// The spans of two nodes overlap.
pub open spec fn overlaps(a: MatchView, b: MatchView) -> bool {
    a.1 < b.2 && a.2 > b.1
}

/// The first node from `i` on that overlaps `m` and is at least as specific: it keeps
/// `m` out (the length when there is none).
pub open spec fn first_blocker(s: Seq<MatchView>, m: MatchView, i: int) -> int
    decreases s.len() - i,
{
    if 0 <= i < s.len() && !(overlaps(m, s[i]) && node_priority(m.0) <= node_priority(s[i].0)) {
        first_blocker(s, m, i + 1)
    } else {
        i
    }
}

/// The nodes of `s` that do not overlap `m`, in order.
pub open spec fn without_overlapping(s: Seq<MatchView>, m: MatchView) -> Seq<MatchView>
    decreases s.len(),
{
    if s.len() == 0 {
        Seq::empty()
    } else {
        without_overlapping(s.drop_last(), m) + if overlaps(m, s.last()) {
            Seq::empty()
        } else {
            seq![s.last()]
        }
    }
}

/// One step of conflict resolution: the overlapping nodes that `m` outranks, up to the
/// first one that is at least as specific, are dropped; `m` is added when nothing
/// blocks it.
pub open spec fn resolve_step(s: Seq<MatchView>, m: MatchView) -> Seq<MatchView> {
    let j = first_blocker(s, m, 0);
    without_overlapping(s.take(j), m) + s.skip(j) + if j == s.len() {
        seq![m]
    } else {
        Seq::empty()
    }
}

/// The nodes kept after resolving the conflicts among `ms`, taken in order.
pub open spec fn resolved(ms: Seq<MatchView>) -> Seq<MatchView>
    decreases ms.len(),
{
    if ms.len() == 0 {
        Seq::empty()
    } else {
        resolve_step(resolved(ms.drop_last()), ms.last())
    }
}

/// No two of the nodes overlap.
pub open spec fn disjoint(s: Seq<MatchView>) -> bool {
    forall|i: int, j: int| 0 <= i < s.len() && 0 <= j < s.len() && i != j ==> !overlaps(#[trigger] s[i], #[trigger] s[j])
}

fn copy_match(m: &NodeMatch) -> (c: NodeMatch)
    ensures
        match_view(c) == match_view(*m),
{
    NodeMatch { kind: owned(m.kind.as_str()), start: m.start, end: m.end, color: m.color }
}

fn push_match(v: &mut Vec<NodeMatch>, m: NodeMatch)
    ensures
        matches_view(final(v)@) == matches_view(old(v)@).push(match_view(m)),
{
    let ghost before = v@;
    v.push(m);
    assert(matches_view(v@) =~= matches_view(before).push(match_view(m)));
}

/// Resolve conflicts between overlapping syntax nodes, preferring more specific types
/// (see `resolve_step`).
pub fn resolve_node_conflicts(node_matches: Vec<NodeMatch>) -> (r: Vec<NodeMatch>)
    ensures
        matches_view(r@) == resolved(matches_view(node_matches@)),
{
    let ghost all = matches_view(node_matches@);
    let mut result: Vec<NodeMatch> = Vec::new();
    let mut i: usize = 0;
    while i < node_matches.len()
        invariant
            i <= node_matches@.len(),
            all == matches_view(node_matches@),
            matches_view(result@) == resolved(all.take(i as int)),
        decreases node_matches@.len() - i,
    {
        let m = &node_matches[i];
        let ghost mv = match_view(*m);
        let ghost s = matches_view(result@);
        let new_priority = get_node_type_priority(m.kind.as_str());
        let mut j: usize = 0;
        assert(s.skip(0) =~= s);
        while j < result.len()
            invariant
                j <= result@.len(),
                s == matches_view(result@),
                mv == match_view(*m),
                new_priority == node_priority(mv.0),
                first_blocker(s, mv, j as int) == first_blocker(s, mv, 0),
            ensures
                j <= result@.len(),
                first_blocker(s, mv, 0) == j,
            decreases result@.len() - j,
        {
            let e = &result[j];
            if m.start < e.end && m.end > e.start && new_priority <= get_node_type_priority(e.kind.as_str()) {
                break;
            }
            j = j + 1;
        }
        let mut next: Vec<NodeMatch> = Vec::new();
        let mut k: usize = 0;
        while k < j
            invariant
                k <= j <= result@.len(),
                s == matches_view(result@),
                mv == match_view(*m),
                matches_view(next@) == without_overlapping(s.take(k as int), mv),
            decreases j - k,
        {
            let e = &result[k];
            assert(s.take(k + 1).drop_last() =~= s.take(k as int));
            if !(m.start < e.end && m.end > e.start) {
                push_match(&mut next, copy_match(e));
            } else {
                assert(matches_view(next@) + Seq::<MatchView>::empty() =~= matches_view(next@));
            }
            k = k + 1;
        }
        let ghost kept = matches_view(next@);
        while k < result.len()
            invariant
                j <= k <= result@.len(),
                s == matches_view(result@),
                matches_view(next@) == kept + s.subrange(j as int, k as int),
            decreases result@.len() - k,
        {
            push_match(&mut next, copy_match(&result[k]));
            assert(s.subrange(j as int, k + 1) =~= s.subrange(j as int, k as int).push(s[k as int]));
            k = k + 1;
        }
        assert(s.subrange(j as int, s.len() as int) =~= s.skip(j as int));
        if j == result.len() {
            push_match(&mut next, copy_match(m));
        } else {
            assert(matches_view(next@) + Seq::<MatchView>::empty() =~= matches_view(next@));
        }
        proof {
            assert(all.take(i + 1).drop_last() =~= all.take(i as int));
            assert(all.take(i + 1).last() == mv);
        }
        result = next;
        i = i + 1;
    }
    assert(all.take(node_matches@.len() as int) =~= all);
    result
}

proof fn lemma_without_overlapping(s: Seq<MatchView>, m: MatchView)
    ensures
        forall|x: MatchView| #[trigger] without_overlapping(s, m).contains(x) ==> s.contains(x) && !overlaps(m, x),
        disjoint(s) ==> disjoint(without_overlapping(s, m)),
    decreases s.len(),
{
    if s.len() > 0 {
        let p = s.drop_last();
        lemma_without_overlapping(p, m);
        let w = without_overlapping(s, m);
        let wp = without_overlapping(p, m);
        assert forall|x: MatchView| #[trigger] w.contains(x) implies s.contains(x) && !overlaps(m, x) by {
            let k = choose|k: int| 0 <= k < w.len() && w[k] == x;
            if k < wp.len() {
                assert(wp[k] == x);
                assert(wp.contains(x));
                let a = choose|a: int| 0 <= a < p.len() && p[a] == x;
                assert(s[a] == x);
            } else {
                assert(x == s.last());
                assert(s[s.len() - 1] == x);
            }
        }
        if disjoint(s) {
            assert(disjoint(p)) by {
                assert forall|a: int, b: int| 0 <= a < p.len() && 0 <= b < p.len() && a != b implies !overlaps(
                    #[trigger] p[a],
                    #[trigger] p[b],
                ) by {
                    assert(p[a] == s[a] && p[b] == s[b]);
                }
            }
            assert forall|a: int, b: int| 0 <= a < w.len() && 0 <= b < w.len() && a != b implies !overlaps(
                #[trigger] w[a],
                #[trigger] w[b],
            ) by {
                if a < wp.len() && b < wp.len() {
                    assert(w[a] == wp[a] && w[b] == wp[b]);
                } else {
                    let (x, y) = if a < wp.len() {
                        (a, b)
                    } else {
                        (b, a)
                    };
                    assert(x < wp.len());
                    assert(w[x] == wp[x]);
                    assert(wp.contains(wp[x]));
                    let q = choose|q: int| 0 <= q < p.len() && p[q] == wp[x];
                    assert(s[q] == w[x] && s[s.len() - 1] == w[y]);
                    assert(!overlaps(s[q], s[s.len() - 1]));
                }
            }
        }
    }
}

/// The nodes kept by conflict resolution never overlap one another.
pub proof fn law_resolved_nodes_are_disjoint(ms: Seq<MatchView>)
    ensures
        disjoint(resolved(ms)),
    decreases ms.len(),
{
    if ms.len() > 0 {
        law_resolved_nodes_are_disjoint(ms.drop_last());
        let s = resolved(ms.drop_last());
        let m = ms.last();
        lemma_step_disjoint(s, m);
    }
}

proof fn lemma_first_blocker_bounds(s: Seq<MatchView>, m: MatchView, i: int)
    requires
        0 <= i <= s.len(),
    ensures
        i <= first_blocker(s, m, i) <= s.len(),
        forall|k: int| i <= k < first_blocker(s, m, i) ==> !(overlaps(m, #[trigger] s[k]) && node_priority(m.0) <= node_priority(s[k].0)),
    decreases s.len() - i,
{
    if i < s.len() && !(overlaps(m, s[i]) && node_priority(m.0) <= node_priority(s[i].0)) {
        lemma_first_blocker_bounds(s, m, i + 1);
    }
}

proof fn lemma_step_disjoint(s: Seq<MatchView>, m: MatchView)
    requires
        disjoint(s),
    ensures
        disjoint(resolve_step(s, m)),
{
    let j = first_blocker(s, m, 0);
    lemma_first_blocker_bounds(s, m, 0);
    let t = s.take(j);
    assert(disjoint(t)) by {
        assert forall|a: int, b: int| 0 <= a < t.len() && 0 <= b < t.len() && a != b implies !overlaps(
            #[trigger] t[a],
            #[trigger] t[b],
        ) by {
            assert(t[a] == s[a] && t[b] == s[b]);
        }
    }
    let w = without_overlapping(t, m);
    lemma_without_overlapping(t, m);
    let rest = s.skip(j);
    let r = resolve_step(s, m);
    let base = w + rest;
    assert forall|a: int, b: int| 0 <= a < base.len() && 0 <= b < base.len() && a != b implies !overlaps(
        #[trigger] base[a],
        #[trigger] base[b],
    ) by {
        if a < w.len() && b < w.len() {
            assert(base[a] == w[a] && base[b] == w[b]);
        } else if a >= w.len() && b >= w.len() {
            assert(base[a] == s[j + (a - w.len())] && base[b] == s[j + (b - w.len())]);
        } else {
            let (x, y) = if a < w.len() {
                (a, b)
            } else {
                (b, a)
            };
            assert(base[x] == w[x]);
            assert(w.contains(w[x]));
            let q = choose|q: int| 0 <= q < t.len() && t[q] == w[x];
            assert(s[q] == base[x]);
            assert(base[y] == s[j + (y - w.len())]);
            assert(!overlaps(s[q], s[j + (y - w.len())]));
        }
    }
    if j == s.len() {
        assert(rest.len() == 0);
        assert(r =~= base.push(m));
        assert forall|a: int| 0 <= a < base.len() implies !overlaps(m, #[trigger] base[a]) by {
            assert(base[a] == w[a]);
            assert(w.contains(w[a]));
        }
        assert forall|a: int, b: int| 0 <= a < r.len() && 0 <= b < r.len() && a != b implies !overlaps(
            #[trigger] r[a],
            #[trigger] r[b],
        ) by {
            if a < base.len() && b < base.len() {
                assert(r[a] == base[a] && r[b] == base[b]);
            } else if a < base.len() {
                assert(r[a] == base[a] && r[b] == m);
                assert(!overlaps(m, base[a]));
            } else {
                assert(r[a] == m && r[b] == base[b]);
                assert(!overlaps(m, base[b]));
            }
        }
    } else {
        assert(r =~= base);
    }
}

/// A style made from a color gives that color back, for every RGB color; any other
/// color comes back as white.
pub proof fn law_style_keeps_its_color(c: Color)
    ensures
        hex_fields_cut_cleanly(color_hex(c)),
        text_color(color_hex(c)) == Some(
            match c {
                Color::Rgb { .. } => c,
                _ => Color::Rgb { r: 255, g: 255, b: 255 },
            },
        ),
{
    law_color_text_round_trip(c);
}

} // verus!
