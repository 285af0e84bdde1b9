use oxidized::command::Command;
use oxidized::command_registry::{all_set_tokens, setting_variants, suggest, suggest_ex_commands, suggest_set_args};
use oxidized::completion::{law_next_undoes_previous, law_previous_undoes_next, CommandCompletion};
use oxidized::utils::command::Command as LineCommand;

#[test]
fn completion_lists_shortest_first() {
    let mut c = CommandCompletion::new();
    assert_eq!(c.commands.len(), 64);
    c.start_completion("bd");
    let texts: Vec<&str> = c.matches.iter().map(|m| m.text.as_str()).collect();
    assert_eq!(texts, vec!["bd", "bd!", "bdelete", "bdelete!"]);
    assert!(c.should_show());
    assert_eq!(c.completion_prefix, "bd");
}

#[test]
fn completion_ignores_case() {
    let mut c = CommandCompletion::new();
    c.start_completion("SET NU");
    let texts: Vec<&str> = c.matches.iter().map(|m| m.text.as_str()).collect();
    assert_eq!(texts, vec!["set nu", "set number"]);
}

#[test]
fn same_length_commands_are_alphabetical() {
    let mut c = CommandCompletion::new();
    c.start_completion("q");
    let texts: Vec<&str> = c.matches.iter().map(|m| m.text.as_str()).collect();
    assert_eq!(texts, vec!["q", "q!", "quit", "quit!"]);
    c.start_completion("zzz");
    assert!(c.matches.is_empty());
    assert!(!c.should_show());
}

#[test]
fn selection_wraps_both_ways() {
    let mut c = CommandCompletion::new();
    c.start_completion("q");
    assert_eq!(c.selected().unwrap().text, "q");
    c.previous();
    assert_eq!(c.selected_index, 3);
    c.next();
    assert_eq!(c.selected_index, 0);
    c.next();
    c.next();
    assert_eq!(c.selected().unwrap().text, "quit");
    c.previous();
    c.next();
    assert_eq!(c.selected_index, 2);
    let _ = (law_next_undoes_previous, law_previous_undoes_next);
}

#[test]
fn accept_returns_the_selection_and_cancels() {
    let mut c = CommandCompletion::new();
    c.start_completion("vs");
    c.next();
    assert_eq!(c.accept(), Some("vsplit".to_string()));
    assert!(!c.active);
    assert!(c.matches.is_empty());
    assert_eq!(c.selected_index, 0);
    assert_eq!(c.accept(), None);
}

#[test]
fn visible_window_centers_the_selection() {
    let mut c = CommandCompletion::new();
    c.start_completion("set ");
    assert_eq!(c.matches.len(), 36);
    assert_eq!(c.visible_items(5).len(), 5);
    c.selected_index = 10;
    let window: Vec<String> = c.visible_items(5).iter().map(|m| m.text.clone()).collect();
    assert_eq!(window[2], c.matches[10].text);
    assert_eq!(c.visible_selected_index(5), 2);
    c.selected_index = 35;
    assert_eq!(c.visible_items(5)[4].text, c.matches[35].text);
    assert_eq!(c.visible_selected_index(5), 4);
    c.selected_index = 0;
    assert_eq!(c.visible_selected_index(5), 0);
    c.cancel();
    assert!(c.visible_items(5).is_empty());
    assert_eq!(c.visible_selected_index(5), 0);
}

#[test]
fn ex_suggestions_are_sorted_and_unique() {
    assert_eq!(suggest_ex_commands("b"), vec!["b", "bd", "bdelete", "bn", "bnext", "bp", "bprev", "bprevious", "buffer", "buffers"]);
    assert_eq!(suggest_ex_commands("  sp "), vec!["sp", "split"]);
    assert!(suggest_ex_commands("zz").is_empty());
    assert_eq!(suggest_ex_commands("").len(), 26);
}

#[test]
fn set_tokens_cover_names_aliases_and_negations() {
    let tokens = all_set_tokens();
    assert_eq!(&tokens[0..4], &["number", "nu", "nonumber", "nonu"]);
    assert!(tokens.contains(&"nowrap".to_string()));
    assert_eq!(setting_variants().len(), 22);
    assert_eq!(tokens.len(), 22 * 2 + 21 * 2);
    assert_eq!(suggest_set_args(" rel"), vec!["relativenumber"]);
    assert_eq!(suggest_set_args("nor"), vec!["norelativenumber", "nornu"]);
}

#[test]
fn suggest_picks_the_right_list() {
    assert_eq!(suggest(":set sw"), vec!["swapfile", "swf"]);
    assert_eq!(suggest(":vs"), vec!["vsp", "vsplit"]);
    assert_eq!(suggest("wq"), vec!["wq"]);
}

#[test]
fn commands_split_at_whitespace() {
    let c = Command::parse("  e   notes.txt\tnow ").unwrap();
    assert_eq!(c.name, "e");
    assert_eq!(c.args, vec!["notes.txt", "now"]);
    assert!(Command::parse(" \t ").is_none());
    let d = LineCommand::parse("w").unwrap();
    assert_eq!(d.name, "w");
    assert!(d.args.is_empty());
}
