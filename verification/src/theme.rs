//! Themes: the named color themes of `themes.toml` and which one is current.
use crate::color::{hex_fields_cut_cleanly, parse_color, parsed_color, Color};
use crate::text;
use crate::text::{owned, str_eq};
use vstd::prelude::*;

verus! {

/// Complete theme configuration with UI and syntax colors
#[derive(Debug, Clone)]
pub struct ThemeConfig {
    pub theme: ThemeSelection,
    /// Themes by name, each name once.
    pub themes: Vec<(String, Theme)>,
}

#[derive(Debug, Clone)]
pub struct ThemeSelection {
    pub current: String,
}

#[derive(Debug, Clone)]
pub struct Theme {
    pub name: String,
    pub description: String,
    pub ui: UIColors,
    /// Syntax node kind and its color.
    pub tree_sitter: Vec<(String, String)>,
}

#[derive(Debug, Clone)]
pub struct UIColors {
    pub background: String,
    pub status_bg: String,
    pub status_fg: String,
    pub status_modified: String,
    pub line_number: String,
    pub line_number_current: String,
    pub cursor_line_bg: String,
    pub empty_line: String,
    pub command_line_bg: String,
    pub command_line_fg: String,
    pub selection_bg: String,
    pub warning: String,
    pub error: String,
}

/// UI theme with the colors of `themes.toml` parsed.
#[derive(Debug, Clone, Copy, PartialEq, Eq, Structural)]
pub struct UITheme {
    pub background: Color,
    pub status_bg: Color,
    pub status_fg: Color,
    pub status_modified: Color,
    pub line_number: Color,
    pub line_number_current: Color,
    pub cursor_line_bg: Color,
    pub empty_line: Color,
    pub command_line_bg: Color,
    pub command_line_fg: Color,
    pub selection_bg: Color,
    pub warning: Color,
    pub error: Color,
}

/// Syntax theme that uses only tree-sitter node type mappings
#[derive(Debug, Clone)]
pub struct SyntaxTheme {
    /// Node kind and its color, each kind once.
    pub tree_sitter_mappings: Vec<(String, Color)>,
}

/// Combined theme with both UI and syntax colors
#[derive(Debug, Clone)]
pub struct CompleteTheme {
    pub name: String,
    pub description: String,
    pub ui: UITheme,
    pub syntax: SyntaxTheme,
}

/// Every color text of the UI colors can be cut into its fields.
pub open spec fn ui_colors_cut_cleanly(c: UIColors) -> bool {
    &&& hex_fields_cut_cleanly(c.background@)
    &&& hex_fields_cut_cleanly(c.status_bg@)
    &&& hex_fields_cut_cleanly(c.status_fg@)
    &&& hex_fields_cut_cleanly(c.status_modified@)
    &&& hex_fields_cut_cleanly(c.line_number@)
    &&& hex_fields_cut_cleanly(c.line_number_current@)
    &&& hex_fields_cut_cleanly(c.cursor_line_bg@)
    &&& hex_fields_cut_cleanly(c.empty_line@)
    &&& hex_fields_cut_cleanly(c.command_line_bg@)
    &&& hex_fields_cut_cleanly(c.command_line_fg@)
    &&& hex_fields_cut_cleanly(c.selection_bg@)
    &&& hex_fields_cut_cleanly(c.warning@)
    &&& hex_fields_cut_cleanly(c.error@)
}

/// Every color text of a theme can be cut into its fields.
pub open spec fn theme_cuts_cleanly(t: Theme) -> bool {
    &&& ui_colors_cut_cleanly(t.ui)
    &&& forall|i: int| 0 <= i < t.tree_sitter@.len() ==> hex_fields_cut_cleanly(#[trigger] t.tree_sitter@[i].1@)
}

/// The UI theme that the UI colors stand for.
pub open spec fn ui_theme_of(c: UIColors) -> UITheme {
    UITheme {
        background: parsed_color(c.background@),
        status_bg: parsed_color(c.status_bg@),
        status_fg: parsed_color(c.status_fg@),
        status_modified: parsed_color(c.status_modified@),
        line_number: parsed_color(c.line_number@),
        line_number_current: parsed_color(c.line_number_current@),
        cursor_line_bg: parsed_color(c.cursor_line_bg@),
        empty_line: parsed_color(c.empty_line@),
        command_line_bg: parsed_color(c.command_line_bg@),
        command_line_fg: parsed_color(c.command_line_fg@),
        selection_bg: parsed_color(c.selection_bg@),
        warning: parsed_color(c.warning@),
        error: parsed_color(c.error@),
    }
}

/// The mappings hold the node kinds of `ts`, in order, each with its color parsed.
pub open spec fn mappings_of(m: Seq<(String, Color)>, ts: Seq<(String, String)>) -> bool {
    &&& m.len() == ts.len()
    &&& forall|i: int| 0 <= i < m.len() ==> #[trigger] m[i].0@ == ts[i].0@ && m[i].1 == parsed_color(ts[i].1@)
}

/// The color mapped to a node kind (the first mapping of that kind).
pub open spec fn mapped_color(m: Seq<(String, Color)>, kind: Seq<char>) -> Option<Color>
    decreases m.len(),
{
    if m.len() == 0 {
        None
    } else if m[0].0@ == kind {
        Some(m[0].1)
    } else {
        mapped_color(m.drop_first(), kind)
    }
}

/// The complete theme made from a theme of `themes.toml`.
pub open spec fn completes(c: CompleteTheme, t: Theme) -> bool {
    &&& c.name@ == t.name@
    &&& c.description@ == t.description@
    &&& c.ui == ui_theme_of(t.ui)
    &&& mappings_of(c.syntax.tree_sitter_mappings@, t.tree_sitter@)
}

/// The emergency complete theme, used when there is no theme at all.
pub open spec fn is_emergency_theme(c: CompleteTheme) -> bool {
    &&& c.name@ == "Emergency"@
    &&& c.description@ == "Emergency fallback theme"@
    &&& c.ui == UITheme::emergency_colors()
    &&& c.syntax.tree_sitter_mappings@.len() == 8
    &&& mapped_color(c.syntax.tree_sitter_mappings@, "_default"@) == Some(Color::White)
}

impl UITheme {
    /// Create UITheme from color strings in themes.toml
    pub fn from_colors(colors: &UIColors) -> (t: Self)
        requires
            ui_colors_cut_cleanly(*colors),
        ensures
            t == ui_theme_of(*colors),
    {
        Self {
            background: parse_color(colors.background.as_str()),
            status_bg: parse_color(colors.status_bg.as_str()),
            status_fg: parse_color(colors.status_fg.as_str()),
            status_modified: parse_color(colors.status_modified.as_str()),
            line_number: parse_color(colors.line_number.as_str()),
            line_number_current: parse_color(colors.line_number_current.as_str()),
            cursor_line_bg: parse_color(colors.cursor_line_bg.as_str()),
            empty_line: parse_color(colors.empty_line.as_str()),
            command_line_bg: parse_color(colors.command_line_bg.as_str()),
            command_line_fg: parse_color(colors.command_line_fg.as_str()),
            selection_bg: parse_color(colors.selection_bg.as_str()),
            warning: parse_color(colors.warning.as_str()),
            error: parse_color(colors.error.as_str()),
        }
    }

    /// The colors of the emergency UI theme.
    pub open spec fn emergency_colors() -> UITheme {
        UITheme {
            background: Color::Black,
            status_bg: Color::DarkGreen,
            status_fg: Color::White,
            status_modified: Color::Red,
            line_number: Color::DarkGrey,
            line_number_current: Color::Yellow,
            cursor_line_bg: Color::DarkGrey,
            empty_line: Color::Blue,
            command_line_bg: Color::Black,
            command_line_fg: Color::White,
            selection_bg: Color::Blue,
            warning: Color::Yellow,
            error: Color::Red,
        }
    }

    /// Emergency UI theme with basic terminal colors
    pub fn emergency() -> (t: Self)
        ensures
            t == Self::emergency_colors(),
    {
        Self {
            background: Color::Black,
            status_bg: Color::DarkGreen,
            status_fg: Color::White,
            status_modified: Color::Red,
            line_number: Color::DarkGrey,
            line_number_current: Color::Yellow,
            cursor_line_bg: Color::DarkGrey,
            empty_line: Color::Blue,
            command_line_bg: Color::Black,
            command_line_fg: Color::White,
            selection_bg: Color::Blue,
            warning: Color::Yellow,
            error: Color::Red,
        }
    }
}

impl SyntaxTheme {
    /// Create SyntaxTheme from tree-sitter mappings in themes.toml
    pub fn from_tree_sitter(tree_sitter: &Vec<(String, String)>) -> (t: Self)
        requires
            forall|i: int| 0 <= i < tree_sitter@.len() ==> hex_fields_cut_cleanly(#[trigger] tree_sitter@[i].1@),
        ensures
            mappings_of(t.tree_sitter_mappings@, tree_sitter@),
    {
        let mut m: Vec<(String, Color)> = Vec::new();
        let mut i: usize = 0;
        while i < tree_sitter.len()
            invariant
                i <= tree_sitter@.len(),
                forall|k: int| 0 <= k < tree_sitter@.len() ==> hex_fields_cut_cleanly(#[trigger] tree_sitter@[k].1@),
                mappings_of(m@, tree_sitter@.take(i as int)),
            decreases tree_sitter@.len() - i,
        {
            let c = parse_color(tree_sitter[i].1.as_str());
            m.push((owned(tree_sitter[i].0.as_str()), c));
            i = i + 1;
        }
        assert(tree_sitter@.take(i as int) =~= tree_sitter@);
        Self { tree_sitter_mappings: m }
    }

    /// The color mapped to a node kind, if any.
    pub fn color_of(&self, kind: &str) -> (c: Option<Color>)
        ensures
            c == mapped_color(self.tree_sitter_mappings@, kind@),
    {
        let m = &self.tree_sitter_mappings;
        let mut i: usize = 0;
        assert(m@.skip(0) =~= m@);
        while i < m.len()
            invariant
                i <= m@.len(),
                m@ == self.tree_sitter_mappings@,
                mapped_color(m@, kind@) == mapped_color(m@.skip(i as int), kind@),
            decreases m@.len() - i,
        {
            assert(m@.skip(i as int).drop_first() =~= m@.skip(i + 1));
            assert(m@.skip(i as int)[0] == m@[i as int]);
            if str_eq(m[i].0.as_str(), kind) {
                assert(mapped_color(m@.skip(i as int), kind@) == Some(m@[i as int].1));
                return Some(m[i].1);
            }
            i = i + 1;
        }
        None
    }

    /// Get default text color from tree-sitter mappings (white when `_default` is unmapped)
    pub fn get_default_text_color(&self) -> (c: Color)
        ensures
            c == match mapped_color(self.tree_sitter_mappings@, "_default"@) {
                Some(d) => d,
                None => Color::White,
            },
    {
        match self.color_of("_default") {
            Some(d) => d,
            None => Color::White,
        }
    }

    /// Emergency syntax theme with basic terminal colors
    pub fn emergency() -> (t: Self)
        ensures
            t.tree_sitter_mappings@.len() == 8,
            mapped_color(t.tree_sitter_mappings@, "_default"@) == Some(Color::White),
    {
        let mut m: Vec<(String, Color)> = Vec::new();
        m.push((owned("_default"), Color::White));
        m.push((owned("line_comment"), Color::DarkGrey));
        m.push((owned("visibility_modifier"), Color::Blue));
        m.push((owned("fn"), Color::Blue));
        m.push((owned("string_literal"), Color::Yellow));
        m.push((owned("integer_literal"), Color::Magenta));
        m.push((owned("type_identifier"), Color::Green));
        m.push((owned("identifier"), Color::White));
        Self { tree_sitter_mappings: m }
    }
}

/// The theme names, in order.
pub open spec fn theme_names(themes: Seq<(String, Theme)>) -> Seq<Seq<char>> {
    themes.map_values(|t: (String, Theme)| t.0@)
}

impl ThemeConfig {
    /// There is a theme of this name.
    pub open spec fn has_theme(&self, name: Seq<char>) -> bool {
        theme_names(self.themes@).contains(name)
    }

    /// The current theme is one of the themes.
    pub open spec fn well_formed(&self) -> bool {
        self.has_theme(self.theme.current@)
    }

    fn contains_theme(&self, name: &str) -> (b: bool)
        ensures
            b == self.has_theme(name@),
    {
        let mut i: usize = 0;
        while i < self.themes.len()
            invariant
                i <= self.themes@.len(),
                forall|j: int| 0 <= j < i ==> theme_names(self.themes@)[j] != name@,
            decreases self.themes@.len() - i,
        {
            if str_eq(self.themes[i].0.as_str(), name) {
                assert(theme_names(self.themes@)[i as int] == name@);
                return true;
            }
            i = i + 1;
        }
        false
    }

    /// Where the first theme of this name stands, if there is one.
    fn find_theme(&self, name: &str) -> (r: Option<usize>)
        ensures
            match r {
                Some(i) => i < self.themes@.len() && self.themes@[i as int].0@ == name@ && forall|j: int|
                    0 <= j < i ==> #[trigger] self.themes@[j].0@ != name@,
                None => !self.has_theme(name@),
            },
            r is Some ==> self.has_theme(name@),
    {
        let mut i: usize = 0;
        while i < self.themes.len()
            invariant
                i <= self.themes@.len(),
                forall|j: int| 0 <= j < i ==> #[trigger] self.themes@[j].0@ != name@,
            decreases self.themes@.len() - i,
        {
            if str_eq(self.themes[i].0.as_str(), name) {
                assert(theme_names(self.themes@)[i as int] == name@);
                return Some(i);
            }
            i = i + 1;
        }
        assert forall|j: int| 0 <= j < theme_names(self.themes@).len() implies theme_names(self.themes@)[j] != name@ by {
            assert(self.themes@[j].0@ != name@);
        }
        None
    }

    fn complete_theme(t: &Theme) -> (c: CompleteTheme)
        requires
            theme_cuts_cleanly(*t),
        ensures
            completes(c, *t),
    {
        CompleteTheme {
            name: owned(t.name.as_str()),
            description: owned(t.description.as_str()),
            ui: UITheme::from_colors(&t.ui),
            syntax: SyntaxTheme::from_tree_sitter(&t.tree_sitter),
        }
    }

    /// Create emergency theme if no themes are available
    fn create_emergency_theme(&self) -> (c: CompleteTheme)
        ensures
            is_emergency_theme(c),
    {
        CompleteTheme {
            name: owned("Emergency"),
            description: owned("Emergency fallback theme"),
            ui: UITheme::emergency(),
            syntax: SyntaxTheme::emergency(),
        }
    }

    /// Every theme's color texts can be cut into their fields.
    pub open spec fn cuts_cleanly(&self) -> bool {
        forall|i: int| 0 <= i < self.themes@.len() ==> theme_cuts_cleanly(#[trigger] self.themes@[i].1)
    }

    /// The first theme of this name.
    #[verifier::opaque]
    pub open spec fn first_named(&self, name: Seq<char>) -> Theme {
        let i = choose|i: int| 0 <= i < self.themes@.len() && self.themes@[i].0@ == name && forall|j: int|
            0 <= j < i ==> #[trigger] self.themes@[j].0@ != name;
        self.themes@[i].1
    }

    proof fn lemma_first_named(&self, name: Seq<char>, i: int)
        requires
            0 <= i < self.themes@.len(),
            self.themes@[i].0@ == name,
            forall|j: int| 0 <= j < i ==> #[trigger] self.themes@[j].0@ != name,
        ensures
            self.first_named(name) == self.themes@[i].1,
    {
        reveal(ThemeConfig::first_named);
        let k = choose|k: int| 0 <= k < self.themes@.len() && self.themes@[k].0@ == name && forall|j: int|
            0 <= j < k ==> #[trigger] self.themes@[j].0@ != name;
        assert(0 <= k < self.themes@.len() && self.themes@[k].0@ == name);
        if k < i {
            assert(self.themes@[k].0@ != name);
        }
        if i < k {
            assert(self.themes@[i].0@ != name);
        }
    }

    /// The theme that stands for the current one: the current theme, else the first
    /// theme (none when there is no theme).
    pub open spec fn current_theme_of(&self) -> Option<Theme> {
        if self.has_theme(self.theme.current@) {
            Some(self.first_named(self.theme.current@))
        } else if self.themes@.len() > 0 {
            Some(self.themes@[0].1)
        } else {
            None
        }
    }

    /// Get the current active theme as a CompleteTheme: the current theme, else the
    /// first theme, else the emergency theme.
    pub fn get_current_theme(&self) -> (c: CompleteTheme)
        requires
            self.cuts_cleanly(),
        ensures
            self.has_theme(self.theme.current@) ==> completes(c, self.first_named(self.theme.current@)),
            !self.has_theme(self.theme.current@) && self.themes@.len() > 0 ==> completes(c, self.themes@[0].1),
            self.themes@.len() == 0 ==> is_emergency_theme(c),
    {
        match self.find_theme(self.theme.current.as_str()) {
            Some(i) => {
                proof {
                    self.lemma_first_named(self.theme.current@, i as int);
                    assert(theme_cuts_cleanly(self.themes@[i as int].1));
                }
                Self::complete_theme(&self.themes[i].1)
            },
            None => {
                if self.themes.len() > 0 {
                    proof {
                        assert(theme_cuts_cleanly(self.themes@[0].1));
                    }
                    Self::complete_theme(&self.themes[0].1)
                } else {
                    self.create_emergency_theme()
                }
            },
        }
    }

    /// Get a specific theme by name
    pub fn get_theme(&self, theme_name: &str) -> (c: Option<CompleteTheme>)
        requires
            self.cuts_cleanly(),
        ensures
            c is Some <==> self.has_theme(theme_name@),
            c matches Some(t) ==> completes(t, self.first_named(theme_name@)),
    {
        match self.find_theme(theme_name) {
            Some(i) => {
                proof {
                    self.lemma_first_named(theme_name@, i as int);
                    assert(theme_cuts_cleanly(self.themes@[i as int].1));
                }
                Some(Self::complete_theme(&self.themes[i].1))
            },
            None => None,
        }
    }

    /// Load theme configuration with "dark" as the default theme (see
    /// `load_with_default_theme`); `loaded` is what `themes.toml` holds, if it could be
    /// read and parsed.
    pub fn load(loaded: Option<ThemeConfig>) -> (c: Self)
        ensures
            c.well_formed(),
            Self::loaded_as(loaded, "dark"@, c),
    {
        Self::load_with_default_theme(loaded, "dark")
    }

    /// What loading gives: the configuration read, its current theme kept if it exists,
    /// else the default theme if it exists, else the first theme; with no themes (or
    /// nothing read) the emergency configuration.
    pub open spec fn loaded_as(loaded: Option<ThemeConfig>, default_theme: Seq<char>, c: ThemeConfig) -> bool {
        match loaded {
            None => c.is_emergency(),
            Some(l) => if l.has_theme(l.theme.current@) {
                c == l
            } else if l.has_theme(default_theme) {
                c.themes == l.themes && c.theme.current@ == default_theme
            } else if l.themes@.len() > 0 {
                c.themes == l.themes && c.theme.current@ == l.themes@[0].0@
            } else {
                c.is_emergency()
            },
        }
    }

    /// Load theme configuration with a specific default theme name
    pub fn load_with_default_theme(loaded: Option<ThemeConfig>, default_theme: &str) -> (c: Self)
        ensures
            c.well_formed(),
            Self::loaded_as(loaded, default_theme@, c),
    {
        match loaded {
            None => Self::create_emergency_config(),
            Some(config) => {
                let mut config = config;
                if !config.contains_theme(config.theme.current.as_str()) {
                    if config.contains_theme(default_theme) {
                        config.theme.current = owned(default_theme);
                    } else if config.themes.len() > 0 {
                        config.theme.current = owned(config.themes[0].0.as_str());
                        assert(theme_names(config.themes@)[0] == config.theme.current@);
                    } else {
                        return Self::create_emergency_config();
                    }
                }
                config
            },
        }
    }

    /// The emergency configuration: one theme, `emergency`, which is current.
    pub open spec fn is_emergency(&self) -> bool {
        &&& self.theme.current@ == "emergency"@
        &&& self.themes@.len() == 1
        &&& self.themes@[0].0@ == "emergency"@
        &&& self.themes@[0].1.name@ == "Emergency"@
    }

    /// Create minimal emergency configuration when themes.toml is missing or invalid
    fn create_emergency_config() -> (c: Self)
        ensures
            c.is_emergency(),
            c.well_formed(),
    {
        let mut tree_sitter: Vec<(String, String)> = Vec::new();
        tree_sitter.push((owned("_default"), owned("#ffffff")));
        tree_sitter.push((owned("line_comment"), owned("#666666")));
        tree_sitter.push((owned("visibility_modifier"), owned("#00ffff")));
        tree_sitter.push((owned("fn"), owned("#00ffff")));
        tree_sitter.push((owned("string_literal"), owned("#ffff00")));
        tree_sitter.push((owned("integer_literal"), owned("#ff00ff")));
        let theme = Theme {
            name: owned("Emergency"),
            description: owned("Minimal emergency theme - restore themes.toml"),
            ui: UIColors {
                background: owned("#000000"),
                status_bg: owned("#333333"),
                status_fg: owned("#ffffff"),
                status_modified: owned("#ff0000"),
                line_number: owned("#666666"),
                line_number_current: owned("#ffffff"),
                cursor_line_bg: owned("#222222"),
                empty_line: owned("#444444"),
                command_line_bg: owned("#000000"),
                command_line_fg: owned("#ffffff"),
                selection_bg: owned("#444444"),
                warning: owned("#ffff00"),
                error: owned("#ff0000"),
            },
            tree_sitter,
        };
        let mut themes: Vec<(String, Theme)> = Vec::new();
        themes.push((owned("emergency"), theme));
        let c = Self { theme: ThemeSelection { current: owned("emergency") }, themes };
        assert(theme_names(c.themes@)[0] == c.theme.current@);
        c
    }

    /// Set the current active theme (a name that is no theme is ignored)
    pub fn set_current_theme(&mut self, theme_name: &str)
        ensures
            final(self).themes == old(self).themes,
            final(self).theme.current@ == if old(self).has_theme(theme_name@) {
                theme_name@
            } else {
                old(self).theme.current@
            },
    {
        if self.contains_theme(theme_name) {
            self.theme.current = owned(theme_name);
        }
    }

    /// List all available theme names
    pub fn list_themes(&self) -> (r: Vec<&String>)
        ensures
            r@.map_values(|s: &String| s@) == theme_names(self.themes@),
    {
        let mut r: Vec<&String> = Vec::new();
        let mut i: usize = 0;
        while i < self.themes.len()
            invariant
                i <= self.themes@.len(),
                r@.map_values(|s: &String| s@) == theme_names(self.themes@).take(i as int),
            decreases self.themes@.len() - i,
        {
            let ghost before = r@;
            r.push(&self.themes[i].0);
            assert(r@ == before.push(&self.themes@[i as int].0));
            assert(r@.map_values(|s: &String| s@) =~= before.map_values(|s: &String| s@).push(self.themes@[i as int].0@));
            assert(r@.map_values(|s: &String| s@) =~= theme_names(self.themes@).take(i + 1));
            i = i + 1;
        }
        assert(theme_names(self.themes@).take(i as int) =~= theme_names(self.themes@));
        r
    }

    /// Get the current active theme name
    pub fn current_theme_name(&self) -> (s: &str)
        ensures
            s@ == self.theme.current@,
    {
        self.theme.current.as_str()
    }
}

/// After the current theme is set to a theme that exists, that theme is current and
/// the configuration stays well formed.
pub proof fn law_set_theme_selects_it(before: ThemeConfig, after: ThemeConfig, name: Seq<char>)
    requires
        before.well_formed(),
        after.themes == before.themes,
        after.theme.current@ == if before.has_theme(name) {
            name
        } else {
            before.theme.current@
        },
    ensures
        after.well_formed(),
        before.has_theme(name) ==> after.theme.current@ == name,
{
}

} // verus!
