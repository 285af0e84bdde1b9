//! Command-line completion: the commands the command line knows, the ones that match
//! what is typed (shortest first), and the menu's selection.
use crate::command_registry::str_less;
use crate::command_registry;
use crate::text;
use crate::text::{owned, starts_with, str_eq};
use vstd::prelude::*;

verus! {

#[derive(Debug, Clone)]
pub struct CompletionItem {
    /// The command text to complete
    pub text: String,
    /// Description of the command
    pub description: String,
    /// Category of command (set, buffer, file, etc.)
    pub category: String,
}

/// An item as text: command, description, category.
pub type ItemView = (Seq<char>, Seq<char>, Seq<char>);

pub open spec fn item_view(i: CompletionItem) -> ItemView {
    (i.text@, i.description@, i.category@)
}

pub open spec fn items_view(v: Seq<CompletionItem>) -> Seq<ItemView> {
    v.map_values(|i: CompletionItem| item_view(i))
}

/// The commands the command line completes, in the order they are offered.
pub open spec fn command_table() -> Seq<ItemView> {
    seq![
        ("quit"@, "Quit editor"@, "file"@),
        ("q"@, "Quit editor (short)"@, "file"@),
        ("quit!"@, "Force quit without saving"@, "file"@),
        ("q!"@, "Force quit without saving (short)"@, "file"@),
        ("write"@, "Save current file"@, "file"@),
        ("w"@, "Save current file (short)"@, "file"@),
        ("wq"@, "Save and quit"@, "file"@),
        ("x"@, "Save and quit (short)"@, "file"@),
        ("edit"@, "Edit file in new buffer"@, "file"@),
        ("e"@, "Edit file in new buffer (short)"@, "file"@),
        ("buffer"@, "Switch to buffer"@, "buffer"@),
        ("b"@, "Switch to buffer (short)"@, "buffer"@),
        ("bnext"@, "Switch to next buffer"@, "buffer"@),
        ("bn"@, "Switch to next buffer (short)"@, "buffer"@),
        ("bprevious"@, "Switch to previous buffer"@, "buffer"@),
        ("bp"@, "Switch to previous buffer (short)"@, "buffer"@),
        ("bprev"@, "Switch to previous buffer"@, "buffer"@),
        ("bdelete"@, "Delete current buffer"@, "buffer"@),
        ("bd"@, "Delete current buffer (short)"@, "buffer"@),
        ("bdelete!"@, "Force delete current buffer"@, "buffer"@),
        ("bd!"@, "Force delete current buffer (short)"@, "buffer"@),
        ("ls"@, "List all buffers"@, "buffer"@),
        ("buffers"@, "List all buffers"@, "buffer"@),
        ("split"@, "Create horizontal split"@, "window"@),
        ("sp"@, "Create horizontal split (short)"@, "window"@),
        ("vsplit"@, "Create vertical split"@, "window"@),
        ("vsp"@, "Create vertical split (short)"@, "window"@),
        ("close"@, "Close current window"@, "window"@),
        ("set number"@, "Show line numbers"@, "set"@),
        ("set nu"@, "Show line numbers (short)"@, "set"@),
        ("set nonumber"@, "Hide line numbers"@, "set"@),
        ("set nonu"@, "Hide line numbers (short)"@, "set"@),
        ("set relativenumber"@, "Show relative line numbers"@, "set"@),
        ("set rnu"@, "Show relative line numbers (short)"@, "set"@),
        ("set norelativenumber"@, "Hide relative line numbers"@, "set"@),
        ("set nornu"@, "Hide relative line numbers (short)"@, "set"@),
        ("set cursorline"@, "Highlight cursor line"@, "set"@),
        ("set cul"@, "Highlight cursor line (short)"@, "set"@),
        ("set nocursorline"@, "Disable cursor line highlight"@, "set"@),
        ("set nocul"@, "Disable cursor line highlight (short)"@, "set"@),
        ("set ignorecase"@, "Case-insensitive search"@, "set"@),
        ("set ic"@, "Case-insensitive search (short)"@, "set"@),
        ("set noignorecase"@, "Case-sensitive search"@, "set"@),
        ("set noic"@, "Case-sensitive search (short)"@, "set"@),
        ("set smartcase"@, "Smart case matching"@, "set"@),
        ("set scs"@, "Smart case matching (short)"@, "set"@),
        ("set nosmartcase"@, "Disable smart case"@, "set"@),
        ("set noscs"@, "Disable smart case (short)"@, "set"@),
        ("set hlsearch"@, "Highlight search results"@, "set"@),
        ("set hls"@, "Highlight search results (short)"@, "set"@),
        ("set nohlsearch"@, "Disable search highlighting"@, "set"@),
        ("set nohls"@, "Disable search highlighting (short)"@, "set"@),
        ("set incsearch"@, "Incremental search"@, "set"@),
        ("set is"@, "Incremental search (short)"@, "set"@),
        ("set noincsearch"@, "Disable incremental search"@, "set"@),
        ("set nois"@, "Disable incremental search (short)"@, "set"@),
        ("set tabstop="@, "Set tab width"@, "set"@),
        ("set ts="@, "Set tab width (short)"@, "set"@),
        ("set scrolloff="@, "Lines to keep around cursor"@, "set"@),
        ("set so="@, "Lines to keep around cursor (short)"@, "set"@),
        ("set sidescrolloff="@, "Columns to keep around cursor"@, "set"@),
        ("set siso="@, "Columns to keep around cursor (short)"@, "set"@),
        ("set colorscheme="@, "Change color scheme"@, "set"@),
        ("set colo="@, "Change color scheme (short)"@, "set"@),
    ]
}

/// The order of the completion menu: shorter commands first, then alphabetically.
pub open spec fn text_key_lt(a: Seq<char>, b: Seq<char>) -> bool {
    a.len() < b.len() || (a.len() == b.len() && command_registry::str_lt(a, b))
}

/// `x` put into `s` after every item whose command does not come after its own.
pub open spec fn sorted_insert(s: Seq<ItemView>, x: ItemView) -> Seq<ItemView>
    decreases s.len(),
{
    if s.len() > 0 && text_key_lt(x.0, s.last().0) {
        sorted_insert(s.drop_last(), x).push(s.last())
    } else {
        s.push(x)
    }
}

/// The items in menu order; items that order alike keep their order (a stable sort).
pub open spec fn sort_by_text(s: Seq<ItemView>) -> Seq<ItemView>
    decreases s.len(),
{
    if s.len() == 0 {
        Seq::empty()
    } else {
        sorted_insert(sort_by_text(s.drop_last()), s.last())
    }
}

/// The items whose lower-cased command (`lowered[i]`) begins with `input`, in order.
pub open spec fn matching(items: Seq<ItemView>, lowered: Seq<Seq<char>>, input: Seq<char>) -> Seq<ItemView>
    decreases items.len(),
{
    if items.len() == 0 {
        Seq::empty()
    } else {
        let i = items.len() - 1;
        matching(items.drop_last(), lowered.take(i), input) + if command_registry::has_prefix(lowered[i], input) {
            seq![items[i]]
        } else {
            Seq::empty()
        }
    }
}

/// The lower-cased commands of the items.
pub open spec fn lowered_texts(items: Seq<ItemView>) -> Seq<Seq<char>> {
    items.map_values(|i: ItemView| text::lowercase(i.0))
}

/// The index after `i` in a menu of `n` items, wrapping around.
pub open spec fn next_index(i: nat, n: nat) -> nat {
    if n == 0 {
        i
    } else {
        ((i + 1) % n) as nat
    }
}

/// The index before `i` in a menu of `n` items, wrapping around.
pub open spec fn previous_index(i: nat, n: nat) -> nat {
    if n == 0 {
        i
    } else if i == 0 {
        (n - 1) as nat
    } else {
        (i - 1) as nat
    }
}

/// The window of at most `max` items that the menu shows: all of them when they fit,
/// else one that centers the selection where it can.
pub open spec fn visible_start(len: nat, sel: nat, max: nat) -> nat {
    if len <= max {
        0
    } else {
        let half = max / 2;
        if sel < half {
            0
        } else if sel >= len - half {
            (len - max) as nat
        } else {
            (sel - half) as nat
        }
    }
}

pub open spec fn visible_end(len: nat, sel: nat, max: nat) -> nat {
    if visible_start(len, sel, max) + max < len {
        visible_start(len, sel, max) + max
    } else {
        len
    }
}

/// A copy of an item.
fn copy_item(i: &CompletionItem) -> (r: CompletionItem)
    ensures
        item_view(r) == item_view(*i),
{
    CompletionItem { text: owned(i.text.as_str()), description: owned(i.description.as_str()), category: owned(i.category.as_str()) }
}

fn item(text: &str, description: &str, category: &str) -> (r: CompletionItem)
    ensures
        item_view(r) == (text@, description@, category@),
{
    CompletionItem { text: owned(text), description: owned(description), category: owned(category) }
}

/// Whether command `a` comes before command `b` in the menu.
pub fn text_before(a: &str, b: &str) -> (r: bool)
    ensures
        r == text_key_lt(a@, b@),
{
    let la = text::char_len(a);
    let lb = text::char_len(b);
    la < lb || (la == lb && str_less(a, b))
}

/// Puts `x` into the menu after every item whose command does not come after its own.
fn insert_by_text(v: &mut Vec<CompletionItem>, x: CompletionItem)
    ensures
        items_view(final(v)@) == sorted_insert(items_view(old(v)@), item_view(x)),
{
    let ghost s = items_view(v@);
    let ghost xv = item_view(x);
    let mut k: usize = v.len();
    assert(s.take(k as int) =~= s);
    assert(s.skip(k as int) =~= Seq::<ItemView>::empty());
    while k > 0 && text_before(x.text.as_str(), v[k - 1].text.as_str())
        invariant
            k <= v@.len(),
            s == items_view(v@),
            xv == item_view(x),
            sorted_insert(s, xv) == sorted_insert(s.take(k as int), xv) + s.skip(k as int),
        decreases k,
    {
        assert(s.take(k as int).drop_last() =~= s.take(k - 1));
        assert(s.take(k as int).last() == s[k - 1]);
        assert(seq![s[k - 1]] + s.skip(k as int) =~= s.skip(k - 1));
        assert(sorted_insert(s.take(k - 1), xv).push(s[k - 1]) + s.skip(k as int) =~= sorted_insert(s.take(k - 1), xv) + s.skip(k - 1));
        k = k - 1;
    }
    let ghost before = v@;
    v.insert(k, x);
    proof {
        assert(items_view(v@) =~= s.take(k as int).push(xv) + s.skip(k as int));
    }
}

/// The items whose lower-cased command begins with the lower-cased input, in menu
/// order; `lowered` holds the lower-cased command of each item.
pub fn select_matches(commands: &Vec<CompletionItem>, lowered: &Vec<String>, lowered_input: &str) -> (r: Vec<CompletionItem>)
    requires
        lowered@.len() == commands@.len(),
    ensures
        items_view(r@) == sort_by_text(matching(items_view(commands@), text::seqs(lowered@), lowered_input@)),
{
    let ghost items = items_view(commands@);
    let ghost low = text::seqs(lowered@);
    let mut r: Vec<CompletionItem> = Vec::new();
    let mut i: usize = 0;
    while i < commands.len()
        invariant
            i <= commands@.len(),
            lowered@.len() == commands@.len(),
            items == items_view(commands@),
            low == text::seqs(lowered@),
            items_view(r@) == sort_by_text(matching(items.take(i as int), low.take(i as int), lowered_input@)),
        decreases commands@.len() - i,
    {
        let ghost prev = matching(items.take(i as int), low.take(i as int), lowered_input@);
        assert(items.take(i + 1).drop_last() =~= items.take(i as int));
        assert(low.take(i + 1).take(i as int) =~= low.take(i as int));
        assert(low.take(i + 1)[i as int] == lowered@[i as int]@);
        assert(items.take(i + 1)[i as int] == item_view(commands@[i as int]));
        if starts_with(lowered[i].as_str(), lowered_input) {
            assert(matching(items.take(i + 1), low.take(i + 1), lowered_input@) =~= prev.push(items[i as int]));
            assert(prev.push(items[i as int]).drop_last() =~= prev);
            insert_by_text(&mut r, copy_item(&commands[i]));
        } else {
            assert(matching(items.take(i + 1), low.take(i + 1), lowered_input@) =~= prev);
        }
        i = i + 1;
    }
    assert(items.take(commands@.len() as int) =~= items);
    assert(low.take(commands@.len() as int) =~= low);
    r
}

/// Command completion system for Vim-style commands
#[derive(Debug, Clone)]
pub struct CommandCompletion {
    /// Available commands for completion
    pub commands: Vec<CompletionItem>,
    /// Current completion state
    pub active: bool,
    /// Current matches based on input
    pub matches: Vec<CompletionItem>,
    /// Currently selected index
    pub selected_index: usize,
    /// The text that triggered completion
    pub completion_prefix: String,
}

impl CommandCompletion {
    /// The commands this completion offers.
    pub open spec fn available(&self) -> Seq<ItemView> {
        items_view(self.commands@)
    }

    pub fn new() -> (c: Self)
        ensures
            c.available() == command_table(),
            !c.active,
            c.matches@.len() == 0,
            c.selected_index == 0,
            c.completion_prefix@.len() == 0,
    {
        Self {
            commands: Self::build_command_list(),
            active: false,
            matches: Vec::new(),
            selected_index: 0,
            completion_prefix: String::new(),
        }
    }

    /// Build the complete list of available commands
    fn build_command_list() -> (v: Vec<CompletionItem>)
        ensures
            items_view(v@) == command_table(),
    {
        let mut commands = Vec::new();
        commands.push(item("quit", "Quit editor", "file"));
        commands.push(item("q", "Quit editor (short)", "file"));
        commands.push(item("quit!", "Force quit without saving", "file"));
        commands.push(item("q!", "Force quit without saving (short)", "file"));
        commands.push(item("write", "Save current file", "file"));
        commands.push(item("w", "Save current file (short)", "file"));
        commands.push(item("wq", "Save and quit", "file"));
        commands.push(item("x", "Save and quit (short)", "file"));
        commands.push(item("edit", "Edit file in new buffer", "file"));
        commands.push(item("e", "Edit file in new buffer (short)", "file"));
        commands.push(item("buffer", "Switch to buffer", "buffer"));
        commands.push(item("b", "Switch to buffer (short)", "buffer"));
        commands.push(item("bnext", "Switch to next buffer", "buffer"));
        commands.push(item("bn", "Switch to next buffer (short)", "buffer"));
        commands.push(item("bprevious", "Switch to previous buffer", "buffer"));
        commands.push(item("bp", "Switch to previous buffer (short)", "buffer"));
        commands.push(item("bprev", "Switch to previous buffer", "buffer"));
        commands.push(item("bdelete", "Delete current buffer", "buffer"));
        commands.push(item("bd", "Delete current buffer (short)", "buffer"));
        commands.push(item("bdelete!", "Force delete current buffer", "buffer"));
        commands.push(item("bd!", "Force delete current buffer (short)", "buffer"));
        commands.push(item("ls", "List all buffers", "buffer"));
        commands.push(item("buffers", "List all buffers", "buffer"));
        commands.push(item("split", "Create horizontal split", "window"));
        commands.push(item("sp", "Create horizontal split (short)", "window"));
        commands.push(item("vsplit", "Create vertical split", "window"));
        commands.push(item("vsp", "Create vertical split (short)", "window"));
        commands.push(item("close", "Close current window", "window"));
        commands.push(item("set number", "Show line numbers", "set"));
        commands.push(item("set nu", "Show line numbers (short)", "set"));
        commands.push(item("set nonumber", "Hide line numbers", "set"));
        commands.push(item("set nonu", "Hide line numbers (short)", "set"));
        commands.push(item("set relativenumber", "Show relative line numbers", "set"));
        commands.push(item("set rnu", "Show relative line numbers (short)", "set"));
        commands.push(item("set norelativenumber", "Hide relative line numbers", "set"));
        commands.push(item("set nornu", "Hide relative line numbers (short)", "set"));
        commands.push(item("set cursorline", "Highlight cursor line", "set"));
        commands.push(item("set cul", "Highlight cursor line (short)", "set"));
        commands.push(item("set nocursorline", "Disable cursor line highlight", "set"));
        commands.push(item("set nocul", "Disable cursor line highlight (short)", "set"));
        commands.push(item("set ignorecase", "Case-insensitive search", "set"));
        commands.push(item("set ic", "Case-insensitive search (short)", "set"));
        commands.push(item("set noignorecase", "Case-sensitive search", "set"));
        commands.push(item("set noic", "Case-sensitive search (short)", "set"));
        commands.push(item("set smartcase", "Smart case matching", "set"));
        commands.push(item("set scs", "Smart case matching (short)", "set"));
        commands.push(item("set nosmartcase", "Disable smart case", "set"));
        commands.push(item("set noscs", "Disable smart case (short)", "set"));
        commands.push(item("set hlsearch", "Highlight search results", "set"));
        commands.push(item("set hls", "Highlight search results (short)", "set"));
        commands.push(item("set nohlsearch", "Disable search highlighting", "set"));
        commands.push(item("set nohls", "Disable search highlighting (short)", "set"));
        commands.push(item("set incsearch", "Incremental search", "set"));
        commands.push(item("set is", "Incremental search (short)", "set"));
        commands.push(item("set noincsearch", "Disable incremental search", "set"));
        commands.push(item("set nois", "Disable incremental search (short)", "set"));
        commands.push(item("set tabstop=", "Set tab width", "set"));
        commands.push(item("set ts=", "Set tab width (short)", "set"));
        commands.push(item("set scrolloff=", "Lines to keep around cursor", "set"));
        commands.push(item("set so=", "Lines to keep around cursor (short)", "set"));
        commands.push(item("set sidescrolloff=", "Columns to keep around cursor", "set"));
        commands.push(item("set siso=", "Columns to keep around cursor (short)", "set"));
        commands.push(item("set colorscheme=", "Change color scheme", "set"));
        commands.push(item("set colo=", "Change color scheme (short)", "set"));
        assert(items_view(commands@) =~= command_table()) by {
            assert forall|i: int| 0 <= i < commands@.len() implies #[trigger] items_view(commands@)[i] == command_table()[i] by {
            }
        }
        commands
    }

    /// Start completion for the given input
    pub fn start_completion(&mut self, input: &str)
        ensures
            final(self).available() == old(self).available(),
            final(self).active,
            final(self).completion_prefix@ == input@,
            items_view(final(self).matches@) == sort_by_text(
                matching(old(self).available(), lowered_texts(old(self).available()), text::lowercase(input@)),
            ),
            final(self).selected_index == 0,
    {
        self.active = true;
        self.completion_prefix = owned(input);
        self.update_matches(input);
        self.selected_index = 0;
    }

    /// Update matches based on input
    fn update_matches(&mut self, input: &str)
        ensures
            final(self).available() == old(self).available(),
            final(self).active == old(self).active,
            final(self).completion_prefix == old(self).completion_prefix,
            final(self).selected_index == old(self).selected_index,
            items_view(final(self).matches@) == sort_by_text(
                matching(old(self).available(), lowered_texts(old(self).available()), text::lowercase(input@)),
            ),
    {
        let input_lower = text::to_lowercase(input);
        let mut lowered: Vec<String> = Vec::new();
        let mut i: usize = 0;
        while i < self.commands.len()
            invariant
                i <= self.commands@.len(),
                text::seqs(lowered@) == lowered_texts(items_view(self.commands@)).take(i as int),
            decreases self.commands@.len() - i,
        {
            let l = text::to_lowercase(self.commands[i].text.as_str());
            let ghost before = lowered@;
            let ghost lv = l;
            lowered.push(l);
            proof {
                text::lemma_seqs_push(before, lv);
                assert(lowered_texts(items_view(self.commands@)).take(i + 1) =~= lowered_texts(
                    items_view(self.commands@),
                ).take(i as int).push(lv@));
            }
            i = i + 1;
        }
        assert(lowered_texts(items_view(self.commands@)).take(i as int) =~= lowered_texts(items_view(self.commands@)));
        self.matches = select_matches(&self.commands, &lowered, input_lower.as_str());
    }

    /// Move to next completion
    pub fn next(&mut self)
        ensures
            final(self).selected_index == next_index(old(self).selected_index as nat, old(self).matches@.len()),
            final(self).matches == old(self).matches,
            final(self).active == old(self).active,
            final(self).completion_prefix == old(self).completion_prefix,
            final(self).available() == old(self).available(),
    {
        if self.matches.len() > 0 {
            self.selected_index = ((self.selected_index as u128 + 1) % (self.matches.len() as u128)) as usize;
        }
    }

    /// Move to previous completion
    pub fn previous(&mut self)
        ensures
            final(self).selected_index == previous_index(old(self).selected_index as nat, old(self).matches@.len()),
            final(self).matches == old(self).matches,
            final(self).active == old(self).active,
            final(self).completion_prefix == old(self).completion_prefix,
            final(self).available() == old(self).available(),
    {
        if self.matches.len() > 0 {
            self.selected_index = if self.selected_index == 0 {
                self.matches.len() - 1
            } else {
                self.selected_index - 1
            };
        }
    }

    /// Get currently selected completion
    pub fn selected(&self) -> (r: Option<&CompletionItem>)
        ensures
            match r {
                Some(i) => self.selected_index < self.matches@.len() && *i == self.matches@[self.selected_index as int],
                None => self.selected_index >= self.matches@.len(),
            },
    {
        if self.selected_index < self.matches.len() {
            Some(&self.matches[self.selected_index])
        } else {
            None
        }
    }

    /// Accept current completion and return the completed text
    pub fn accept(&mut self) -> (r: Option<String>)
        ensures
            match r {
                Some(t) => old(self).selected_index < old(self).matches@.len() && t@ == old(self).matches@[old(
                    self,
                ).selected_index as int].text@ && Self::cancelled(old(self), final(self)),
                None => old(self).selected_index >= old(self).matches@.len() && *final(self) == *old(self),
            },
    {
        if self.selected_index < self.matches.len() {
            let completed = owned(self.matches[self.selected_index].text.as_str());
            self.cancel();
            Some(completed)
        } else {
            None
        }
    }

    /// The completion after `cancel`.
    pub open spec fn cancelled(before: &CommandCompletion, after: &CommandCompletion) -> bool {
        &&& !after.active
        &&& after.matches@.len() == 0
        &&& after.selected_index == 0
        &&& after.completion_prefix@.len() == 0
        &&& after.available() == before.available()
    }

    /// Cancel completion
    pub fn cancel(&mut self)
        ensures
            Self::cancelled(old(self), final(self)),
    {
        self.active = false;
        self.matches.clear();
        self.selected_index = 0;
        self.completion_prefix = String::new();
    }

    /// Check if completion menu should be shown
    pub fn should_show(&self) -> (b: bool)
        ensures
            b == (self.active && self.matches@.len() > 0),
    {
        self.active && self.matches.len() > 0
    }

    /// Get visible completion items (for rendering)
    pub fn visible_items(&self, max_items: usize) -> (r: &[CompletionItem])
        ensures
            r@ == self.matches@.subrange(
                visible_start(self.matches@.len(), self.selected_index as nat, max_items as nat) as int,
                visible_end(self.matches@.len(), self.selected_index as nat, max_items as nat) as int,
            ),
    {
        let len = self.matches.len();
        if len == 0 {
            return vstd::slice::slice_subrange(self.matches.as_slice(), 0, 0);
        }
        let start_idx = if len <= max_items {
            0
        } else {
            let half_visible = max_items / 2;
            if self.selected_index < half_visible {
                0
            } else if self.selected_index >= len - half_visible {
                len - max_items
            } else {
                self.selected_index - half_visible
            }
        };
        let end_idx = if max_items < len - start_idx {
            start_idx + max_items
        } else {
            len
        };
        vstd::slice::slice_subrange(self.matches.as_slice(), start_idx, end_idx)
    }

    /// The index of the first item of `v`, from `i` on, whose command is `t` (the
    /// length of `v` when there is none).
    pub open spec fn first_with_text(v: Seq<CompletionItem>, t: Seq<char>, i: int) -> int
        decreases v.len() - i,
    {
        if 0 <= i < v.len() && v[i].text@ != t {
            Self::first_with_text(v, t, i + 1)
        } else {
            i
        }
    }

    /// Get the relative index of the selected item in the visible window
    pub fn visible_selected_index(&self, max_items: usize) -> (r: usize)
        ensures
            ({
                let v = self.matches@.subrange(
                    visible_start(self.matches@.len(), self.selected_index as nat, max_items as nat) as int,
                    visible_end(self.matches@.len(), self.selected_index as nat, max_items as nat) as int,
                );
                let sel = self.selected_index as int;
                r == if sel < self.matches@.len() && Self::first_with_text(v, self.matches@[sel].text@, 0) < v.len() {
                    Self::first_with_text(v, self.matches@[sel].text@, 0)
                } else {
                    0
                }
            }),
    {
        let visible_items = self.visible_items(max_items);
        if visible_items.len() == 0 {
            return 0;
        }
        let selected = self.selected();
        match selected {
            None => 0,
            Some(sel) => {
                let mut i: usize = 0;
                while i < visible_items.len()
                    invariant
                        i <= visible_items@.len(),
                        visible_items@ == self.matches@.subrange(
                            visible_start(self.matches@.len(), self.selected_index as nat, max_items as nat) as int,
                            visible_end(self.matches@.len(), self.selected_index as nat, max_items as nat) as int,
                        ),
                        self.selected_index < self.matches@.len(),
                        *sel == self.matches@[self.selected_index as int],
                        Self::first_with_text(visible_items@, sel.text@, i as int) == Self::first_with_text(
                            visible_items@,
                            sel.text@,
                            0,
                        ),
                    decreases visible_items@.len() - i,
                {
                    if str_eq(visible_items[i].text.as_str(), sel.text.as_str()) {
                        return i;
                    }
                    i = i + 1;
                }
                0
            },
        }
    }
}

impl Default for CommandCompletion {
    fn default() -> (c: Self)
        ensures
            c.available() == command_table(),
            !c.active,
            c.matches@.len() == 0,
            c.selected_index == 0,
    {
        Self::new()
    }
}

/// Moving to the next completion and back returns to the same one.
pub proof fn law_previous_undoes_next(i: nat, n: nat)
    requires
        i < n,
    ensures
        previous_index(next_index(i, n), n) == i,
{
    if i + 1 < n {
        vstd::arithmetic::div_mod::lemma_small_mod(i + 1, n);
    } else {
        vstd::arithmetic::div_mod::lemma_mod_self_0(n as int);
    }
}

/// Moving to the previous completion and then the next returns to the same one.
pub proof fn law_next_undoes_previous(i: nat, n: nat)
    requires
        i < n,
    ensures
        next_index(previous_index(i, n), n) == i,
{
    if i == 0 {
        vstd::arithmetic::div_mod::lemma_mod_self_0(n as int);
    } else {
        vstd::arithmetic::div_mod::lemma_small_mod(i, n);
    }
}

/// The selection stays within the menu as it moves.
pub proof fn law_selection_stays_in_menu(i: nat, n: nat)
    requires
        i < n,
    ensures
        next_index(i, n) < n,
        previous_index(i, n) < n,
{
    vstd::arithmetic::div_mod::lemma_mod_bound((i + 1) as int, n as int);
}

} // verus!
