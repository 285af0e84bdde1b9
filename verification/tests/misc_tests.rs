use oxidized::digits::{bool_string, decimal_string, parse_bool, parse_u64, parse_usize};
use oxidized::macros::MacroError;
use oxidized::file::{DirEntry, FileManager};
use oxidized::lsp::{LspClient, LspServer};
use oxidized::mode::{Mode, Position, Selection, SelectionType};
use oxidized::plugin::PluginManager;
use oxidized::theme::{law_set_theme_selects_it, ThemeConfig};
use std::path::PathBuf;

#[test]
fn numbers_read_as_str_parse_does() {
    assert_eq!(parse_u64("42"), Some(42));
    assert_eq!(parse_u64("+7"), Some(7));
    assert_eq!(parse_u64("007"), Some(7));
    assert_eq!(parse_u64("18446744073709551615"), Some(u64::MAX));
    assert_eq!(parse_u64("18446744073709551616"), None);
    assert_eq!(parse_u64("-1"), None);
    assert_eq!(parse_u64("+"), None);
    assert_eq!(parse_u64(""), None);
    assert_eq!(parse_u64("1 "), None);
    assert_eq!(parse_usize("12"), Some(12));
    assert_eq!(parse_bool("true"), Some(true));
    assert_eq!(parse_bool("false"), Some(false));
    assert_eq!(parse_bool("True"), None);
}

#[test]
fn numbers_write_as_to_string_does() {
    assert_eq!(decimal_string(0), "0");
    assert_eq!(decimal_string(1000), "1000");
    assert_eq!(decimal_string(u64::MAX), u64::MAX.to_string());
    assert_eq!(bool_string(true), "true");
    assert_eq!(bool_string(false), "false");
}

#[test]
fn macro_errors_have_messages() {
    assert_eq!(MacroError::InvalidRegister('%').message(), "Invalid register '%'. Must be a-z, A-Z, or 0-9");
    assert_eq!(MacroError::MacroNotFound('a').message(), "No macro recorded in register 'a'");
    assert_eq!(MacroError::NotRecording.message(), "No macro currently being recorded");
    assert_eq!(MacroError::PlaybackFailed("boom".to_string()).message(), "Macro playback failed: boom");
}

fn server(name: &str) -> LspServer {
    LspServer { name: name.to_string(), command: format!("{}-cmd", name), args: vec!["--stdio".to_string()] }
}

#[test]
fn registering_a_server_replaces_the_old_one() {
    let mut c = LspClient::new();
    c.register_server("rust".to_string(), server("ra"));
    c.register_server("toml".to_string(), server("taplo"));
    c.register_server("rust".to_string(), server("ra2"));
    assert_eq!(c.servers.len(), 2);
    let rust = c.servers.iter().find(|(l, _)| l == "rust").unwrap();
    assert_eq!(rust.1.name, "ra2");
    assert!(c.get_completions("main.rs", (0, 0)).is_empty());
    assert!(c.get_diagnostics("main.rs").is_empty());
}

#[test]
fn plugins_are_not_loaded_yet() {
    let mut m = PluginManager::new();
    assert!(m.load_plugin(std::path::Path::new("plugin.lua")).is_ok());
    assert!(m.execute_lua("print(1)").is_ok());
    assert!(m.list_plugins().is_empty());
}

fn entry(name: &str, is_dir: bool) -> DirEntry {
    DirEntry { name: name.to_string(), path: PathBuf::from(name), is_dir, size: 0 }
}

#[test]
fn directories_list_first_then_by_name() {
    let sorted = FileManager::sort_entries(vec![entry("b.txt", false), entry("src", true), entry("a.txt", false), entry("docs", true)]);
    let names: Vec<&str> = sorted.iter().map(|e| e.name.as_str()).collect();
    assert_eq!(names, vec!["docs", "src", "a.txt", "b.txt"]);
    let mut fm = FileManager::new(PathBuf::from("/tmp"));
    assert_eq!(fm.current_directory(), std::path::Path::new("/tmp"));
    assert!(fm.change_directory(PathBuf::from("/")).is_ok());
    assert_eq!(fm.current_directory(), std::path::Path::new("/"));
}

#[test]
fn themes_fall_back_in_order() {
    let emergency = ThemeConfig::load(None);
    assert_eq!(emergency.current_theme_name(), "emergency");
    assert_eq!(emergency.list_themes().len(), 1);
    let mut loaded = emergency.clone();
    loaded.theme.current = "missing".to_string();
    let mut dark = emergency.themes[0].1.clone();
    dark.name = "Dark".to_string();
    loaded.themes.push(("dark".to_string(), dark));
    let fixed = ThemeConfig::load(Some(loaded.clone()));
    assert_eq!(fixed.current_theme_name(), "dark");
    let first = ThemeConfig::load_with_default_theme(Some(loaded), "light");
    assert_eq!(first.current_theme_name(), "emergency");
}

#[test]
fn setting_the_theme_needs_a_known_name() {
    let mut t = ThemeConfig::load(None);
    t.set_current_theme("nope");
    assert_eq!(t.current_theme_name(), "emergency");
    let theme = t.themes[0].1.clone();
    t.themes.push(("light".to_string(), theme));
    t.set_current_theme("light");
    assert_eq!(t.current_theme_name(), "light");
    let names: Vec<&String> = t.list_themes();
    assert_eq!(names, vec!["emergency", "light"]);
    let _ = law_set_theme_selects_it;
}

#[test]
fn modes_and_positions() {
    assert_eq!(Mode::VisualBlock.label(), "V-BLOCK");
    assert_eq!(Mode::Normal.label(), "NORMAL");
    assert_eq!(Position::new(2, 3), Position { row: 2, col: 3 });
    assert_eq!(Position::zero(), Position { row: 0, col: 0 });
    let s = Selection::new_line(Position::zero(), Position::new(1, 0));
    assert_eq!(s.selection_type, SelectionType::Line);
}
