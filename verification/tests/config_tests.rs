use oxidized::config::{setting_from_name, EditorConfig, Setting};

#[test]
fn defaults_are_the_documented_ones() {
    let c = EditorConfig::default();
    assert!(c.display.show_line_numbers);
    assert!(!c.display.show_relative_numbers);
    assert_eq!(c.display.color_scheme, "default");
    assert_eq!(c.behavior.tab_width, 4);
    assert_eq!(c.editing.undo_levels, 1000);
    assert_eq!(c.interface.command_timeout, 1000);
    assert_eq!(c.interface.window_resize_amount, 1);
}

#[test]
fn flag_settings_parse_true_and_false() {
    let mut c = EditorConfig::default();
    assert_eq!(c.set_setting("rnu", "true"), Ok("Relative line numbers: enabled".to_string()));
    assert!(c.display.show_relative_numbers);
    assert_eq!(c.set_setting("relativenumber", "false"), Ok("Relative line numbers: disabled".to_string()));
    assert!(!c.display.show_relative_numbers);
    assert_eq!(c.set_setting("ic", "true"), Ok("Ignore case: enabled".to_string()));
    assert!(c.behavior.ignore_case);
}

#[test]
fn flag_takes_its_default_on_other_text() {
    let mut c = EditorConfig::default();
    c.display.show_line_numbers = false;
    // number defaults to true, cursorline to false
    assert_eq!(c.set_setting("number", "yes"), Ok("Line numbers: enabled".to_string()));
    assert!(c.display.show_line_numbers);
    c.display.show_cursor_line = true;
    assert_eq!(c.set_setting("cul", "maybe"), Ok("Cursor line: disabled".to_string()));
    assert!(!c.display.show_cursor_line);
}

#[test]
fn counts_parse_unsigned_numbers() {
    let mut c = EditorConfig::default();
    assert_eq!(c.set_setting("tabstop", "8"), Ok("Tab width: 8".to_string()));
    assert_eq!(c.behavior.tab_width, 8);
    assert_eq!(c.set_setting("ts", "+02"), Ok("Tab width: 2".to_string()));
    assert_eq!(c.behavior.tab_width, 2);
    assert_eq!(c.set_setting("tm", "250"), Ok("Command timeout: 250 ms".to_string()));
    assert_eq!(c.interface.command_timeout, 250);
    assert_eq!(c.set_setting("so", "0"), Ok("Scroll offset: 0".to_string()));
}

#[test]
fn invalid_counts_change_nothing() {
    let mut c = EditorConfig::default();
    assert_eq!(c.set_setting("tabstop", "-1"), Err("Invalid tab width".to_string()));
    assert_eq!(c.set_setting("ul", "many"), Err("Invalid undo levels".to_string()));
    assert_eq!(c.set_setting("siso", ""), Err("Invalid side scroll offset".to_string()));
    assert_eq!(c.set_setting("timeoutlen", "99999999999999999999999"), Err("Invalid timeout value".to_string()));
    assert_eq!(c.behavior.tab_width, 4);
    assert_eq!(c.editing.undo_levels, 1000);
}

#[test]
fn color_scheme_takes_any_text() {
    let mut c = EditorConfig::default();
    assert_eq!(c.set_setting("colo", "gruvbox"), Ok("Color scheme: gruvbox".to_string()));
    assert_eq!(c.display.color_scheme, "gruvbox");
}

#[test]
fn unknown_setting_is_an_error() {
    let mut c = EditorConfig::default();
    assert_eq!(c.set_setting("bogus", "1"), Err("Unknown setting: bogus".to_string()));
}

#[test]
fn config_values_read_back() {
    let mut c = EditorConfig::default();
    assert_eq!(c.get_config_value("number"), Some("true".to_string()));
    assert_eq!(c.get_config_value("tabstop"), Some("4".to_string()));
    assert_eq!(c.get_config_value("colo"), Some("default".to_string()));
    assert_eq!(c.get_config_value("nothing"), None);
    let _ = c.set_setting("ul", "12");
    assert_eq!(c.get_config_value("undolevels"), Some("12".to_string()));
}

#[test]
fn short_and_long_names_agree() {
    assert_eq!(setting_from_name("nu"), Some(Setting::Number));
    assert_eq!(setting_from_name("number"), Some(Setting::Number));
    assert_eq!(setting_from_name("siso"), Some(Setting::SideScrollOff));
    assert_eq!(setting_from_name("wrap"), Some(Setting::Wrap));
    assert_eq!(setting_from_name("Number"), None);
}
