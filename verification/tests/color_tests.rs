use oxidized::color::{color_hex_string, parse_color, rgb_hex_string, Color};
use oxidized::syntax::HighlightStyle;
use oxidized::theme::{SyntaxTheme, ThemeConfig, UITheme};

#[test]
fn hex_colors_parse() {
    assert_eq!(parse_color("#ff7b72"), Color::Rgb { r: 0xff, g: 0x7b, b: 0x72 });
    assert_eq!(parse_color("#0D1117"), Color::Rgb { r: 0x0d, g: 0x11, b: 0x17 });
    // u8::from_str_radix takes a leading plus sign
    assert_eq!(parse_color("#+f+f+f"), Color::Rgb { r: 15, g: 15, b: 15 });
}

#[test]
fn other_color_texts_are_white() {
    assert_eq!(parse_color("red"), Color::White);
    assert_eq!(parse_color("#fff"), Color::White);
    assert_eq!(parse_color("#gg0000"), Color::White);
    assert_eq!(parse_color("ff00000"), Color::White);
    assert_eq!(parse_color("#-10000"), Color::White);
    assert_eq!(parse_color(""), Color::White);
    assert_eq!(parse_color("#é"), Color::White);
}

#[test]
fn colors_write_as_lowercase_hex() {
    assert_eq!(rgb_hex_string(255, 123, 0), "#ff7b00");
    assert_eq!(color_hex_string(Color::Rgb { r: 1, g: 2, b: 3 }), "#010203");
    assert_eq!(color_hex_string(Color::Blue), "#ffffff");
}

#[test]
fn a_written_color_parses_back() {
    for c in [Color::Rgb { r: 0, g: 0, b: 0 }, Color::Rgb { r: 200, g: 17, b: 255 }] {
        assert_eq!(parse_color(&color_hex_string(c)), c);
    }
    assert_eq!(parse_color(&color_hex_string(Color::DarkGrey)), Color::Rgb { r: 255, g: 255, b: 255 });
}

#[test]
fn styles_keep_their_color() {
    let s = HighlightStyle::from_color(Color::Rgb { r: 0x7e, g: 0xe7, b: 0x87 });
    assert_eq!(s.fg_color.as_deref(), Some("#7ee787"));
    assert_eq!(s.to_color(), Some(Color::Rgb { r: 0x7e, g: 0xe7, b: 0x87 }));
    let t = HighlightStyle::from_tree_sitter_color(Color::Magenta);
    assert_eq!(t.fg_color.as_deref(), Some("#ffffff"));
    let none = HighlightStyle { fg_color: None, bg_color: None, bold: false, italic: false, underline: false };
    assert_eq!(none.to_color(), None);
    let bad = HighlightStyle { fg_color: Some("blue".to_string()), ..none };
    assert_eq!(bad.to_color(), None);
}

#[test]
fn emergency_themes() {
    let ui = UITheme::emergency();
    assert_eq!(ui.background, Color::Black);
    assert_eq!(ui.status_bg, Color::DarkGreen);
    assert_eq!(ui.line_number_current, Color::Yellow);
    let syntax = SyntaxTheme::emergency();
    assert_eq!(syntax.tree_sitter_mappings.len(), 8);
    assert_eq!(syntax.get_default_text_color(), Color::White);
    assert_eq!(syntax.color_of("line_comment"), Some(Color::DarkGrey));
    assert_eq!(syntax.color_of("nothing"), None);
}

#[test]
fn the_emergency_configuration_gives_its_theme() {
    let config = ThemeConfig::load(None);
    let t = config.get_current_theme();
    assert_eq!(t.name, "Emergency");
    assert_eq!(t.ui.background, Color::Rgb { r: 0, g: 0, b: 0 });
    assert_eq!(t.ui.status_bg, Color::Rgb { r: 0x33, g: 0x33, b: 0x33 });
    assert_eq!(t.syntax.color_of("line_comment"), Some(Color::Rgb { r: 0x66, g: 0x66, b: 0x66 }));
    assert_eq!(t.syntax.get_default_text_color(), Color::Rgb { r: 255, g: 255, b: 255 });
    assert!(config.get_theme("emergency").is_some());
    assert!(config.get_theme("dark").is_none());
}

#[test]
fn a_missing_current_theme_falls_back_to_the_first() {
    let mut config = ThemeConfig::load(None);
    config.theme.current = "gone".to_string();
    assert_eq!(config.get_current_theme().name, "Emergency");
    config.themes.clear();
    let t = config.get_current_theme();
    assert_eq!(t.name, "Emergency");
    assert_eq!(t.description, "Emergency fallback theme");
    assert_eq!(t.ui.background, Color::Black);
}
