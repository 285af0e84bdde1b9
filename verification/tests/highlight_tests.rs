use oxidized::color::Color;
use oxidized::syntax::{get_node_type_priority, resolve_node_conflicts, HighlightError, NodeMatch, SyntaxHighlighter, SyntaxNode};
use oxidized::theme::{Theme, ThemeConfig, ThemeSelection, UIColors};

/// A tree-sitter node as the library's plain syntax node.
fn to_node(n: tree_sitter::Node) -> SyntaxNode {
    let mut cursor = n.walk();
    let children: Vec<SyntaxNode> = n.children(&mut cursor).map(to_node).collect();
    SyntaxNode { kind: n.kind().to_string(), start: n.start_byte(), end: n.end_byte(), children }
}

fn parse_rust(text: &str) -> SyntaxNode {
    let mut parser = tree_sitter::Parser::new();
    parser.set_language(&tree_sitter_rust::LANGUAGE.into()).unwrap();
    to_node(parser.parse(text, None).unwrap().root_node())
}

fn ui() -> UIColors {
    let c = |s: &str| s.to_string();
    UIColors {
        background: c("#0d1117"),
        status_bg: c("#161b22"),
        status_fg: c("#c9d1d9"),
        status_modified: c("#f85149"),
        line_number: c("#6e7681"),
        line_number_current: c("#c9d1d9"),
        cursor_line_bg: c("#161b22"),
        empty_line: c("#484f58"),
        command_line_bg: c("#0d1117"),
        command_line_fg: c("#c9d1d9"),
        selection_bg: c("#264f78"),
        warning: c("#d29922"),
        error: c("#f85149"),
    }
}

/// A dark theme as the editor's `themes.toml` describes it.
fn dark_themes() -> ThemeConfig {
    let mut ts: Vec<(String, String)> = Vec::new();
    for (k, v) in [
        ("_default", "#c9d1d9"),
        ("line_comment", "#8b949e"),
        ("block_comment", "#8b949e"),
        ("struct", "#ff7b72"),
        ("fn", "#ff7b72"),
        ("let", "#ff7b72"),
        ("field_identifier", "#7ee787"),
        ("primitive_type", "#79c0ff"),
        ("type_identifier", "#f0883e"),
        ("identifier", "#c9d1d9"),
        ("integer_literal", "#79c0ff"),
        ("string_literal", "#a5d6ff"),
        ("{", "#f0883e"),
        ("}", "#f0883e"),
        ("(", "#f0883e"),
        (")", "#f0883e"),
        (":", "#f0883e"),
        (",", "#f0883e"),
        (";", "#f0883e"),
    ] {
        ts.push((k.to_string(), v.to_string()));
    }
    let dark = Theme { name: "Dark".to_string(), description: "GitHub dark".to_string(), ui: ui(), tree_sitter: ts };
    ThemeConfig { theme: ThemeSelection { current: "dark".to_string() }, themes: vec![("dark".to_string(), dark)] }
}

fn highlighter() -> SyntaxHighlighter {
    SyntaxHighlighter::new(dark_themes())
}

fn highlight(h: &SyntaxHighlighter, code: &str) -> Vec<oxidized::syntax::HighlightRange> {
    h.highlight_text("rust", code).unwrap()
}

#[test]
fn parsing_in_the_library_gives_the_tree_tree_sitter_gives() {
    let h = highlighter();
    let code = "struct P { x: i32 } // c\nfn main() { let s = \"a\"; }";
    let direct = h.highlight_parsed("rust", Some(&parse_rust(code))).unwrap();
    let parsed = h.highlight_text("rust", code).unwrap();
    let spans = |v: &Vec<oxidized::syntax::HighlightRange>| {
        v.iter().map(|r| (r.start, r.end, r.style.fg_color.clone())).collect::<Vec<_>>()
    };
    assert_eq!(spans(&direct), spans(&parsed));
    assert!(!parsed.is_empty());
}

#[test]
fn syntax_test_punctuation_highlighting() {
    let highlighter = highlighter();
    let test_code = "fn test() { let x = 5; }";
    let highlights = highlight(&highlighter, test_code);
    let opening_brace = highlights.iter().find(|h| &test_code[h.start..h.end] == "{");
    let closing_brace = highlights.iter().find(|h| &test_code[h.start..h.end] == "}");
    assert!(opening_brace.is_some(), "Opening curly brace should be highlighted");
    assert!(closing_brace.is_some(), "Closing curly brace should be highlighted");
}

#[test]
fn test_doc_comment_highlighting() {
    let highlighter = highlighter();
    let test_code = r#"/// This is a doc comment
//! This is an inner doc comment  
fn test() {
    // Regular comment
    /* Block comment */
    let x = 5;
}"#;
    let highlights = highlight(&highlighter, test_code);
    let doc_comment_highlights: Vec<_> = highlights
        .iter()
        .filter(|h| {
            let text = &test_code[h.start..h.end];
            text.starts_with("/// This is a doc comment") || text.starts_with("//! This is an inner doc comment")
        })
        .collect();
    assert_eq!(doc_comment_highlights.len(), 2, "Should have exactly 2 unified doc comment highlights");
    let regular_comment_highlights: Vec<_> = highlights
        .iter()
        .filter(|h| {
            let text = &test_code[h.start..h.end];
            text.starts_with("// Regular") || text.starts_with("/* Block")
        })
        .collect();
    assert_eq!(regular_comment_highlights.len(), 2, "Should have 2 regular comment highlights");
    let comment_color = "#8b949e";
    let all_comment_highlights: Vec<_> = highlights
        .iter()
        .filter(|h| {
            let text = &test_code[h.start..h.end];
            text.starts_with("///") || text.starts_with("//!") || text.starts_with("// Regular") || text.starts_with("/* Block")
        })
        .collect();
    for comment_highlight in &all_comment_highlights {
        let color = comment_highlight.style.fg_color.as_ref().expect("Comment should have color");
        assert_eq!(color, comment_color, "All comment parts should have unified comment color");
    }
}

#[test]
fn test_doc_comment_color_consistency() {
    let highlighter = highlighter();
    let highlights1 = highlight(&highlighter, "/// This is a doc comment");
    assert_eq!(highlights1.len(), 1, "Outer doc comment should have 1 unified highlight");
    let comment_color = "#8b949e";
    for h in &highlights1 {
        let color = h.style.fg_color.as_ref().expect("Should have a color");
        assert_eq!(color, comment_color, "All parts of outer doc comment should have comment color");
    }
    let highlights2 = highlight(&highlighter, "//! This is an inner doc comment");
    assert_eq!(highlights2.len(), 1, "Inner doc comment should have 1 unified highlight");
    for h in &highlights2 {
        let color = h.style.fg_color.as_ref().expect("Should have a color");
        assert_eq!(color, comment_color, "All parts of inner doc comment should have comment color");
    }
}

#[test]
fn test_large_file_highlighting() {
    let highlighter = highlighter();
    let mut long_code = String::new();
    for i in 1..=200 {
        long_code.push_str(&format!("    println!(\"Line {}\");\n", i));
    }
    long_code = format!("fn main() {{\n{}}}", long_code);
    let highlights = highlight(&highlighter, &long_code);
    assert!(!highlights.is_empty(), "Should have syntax highlights");
    let code_len = long_code.len();
    assert!(highlights.iter().any(|h| h.start > code_len / 2), "Should have highlights in the latter half of the file");
}

#[test]
fn test_struct_field_highlighting() {
    let highlighter = highlighter();
    {
        let theme_mappings = highlighter.get_theme_mappings();
        let has = |k: &str| theme_mappings.iter().any(|(kind, _)| kind == k);
        assert!(has("field_identifier"), "Missing field_identifier mapping");
        assert!(has("primitive_type"), "Missing primitive_type mapping");
        assert!(has("type_identifier"), "Missing type_identifier mapping");
    }
    for test_code in ["struct Point { x: f64, y: f64 }", "struct Person { name: String, age: u32 }"] {
        let highlights = highlight(&highlighter, test_code);
        assert!(!highlights.is_empty());
    }
    let basic_test = "struct Point { x: f64 }";
    let highlights = highlight(&highlighter, basic_test);
    let field_highlights: Vec<_> = highlights.iter().filter(|h| &basic_test[h.start..h.end] == "x").collect();
    assert!(!field_highlights.is_empty(), "Should highlight field names");
}

/// The colored nodes of a tree in the order a stack walk visits them, colored by `color`.
fn collect_matches(root: &SyntaxNode, color: &dyn Fn(&SyntaxNode) -> Option<Color>) -> Vec<NodeMatch> {
    let mut out = Vec::new();
    let mut stack = vec![root];
    while let Some(node) = stack.pop() {
        if let Some(c) = color(node) {
            out.push(NodeMatch { kind: node.kind.clone(), start: node.start, end: node.end, color: c });
        }
        for child in &node.children {
            stack.push(child);
        }
    }
    out
}

#[test]
fn test_node_conflict_resolution() {
    let test_code1 = "struct Point { x: f64 }";
    let tree1 = parse_rust(test_code1);
    let node_matches1 = collect_matches(&tree1, &|n| match n.kind.as_str() {
        "field_identifier" => Some(Color::Green),
        "identifier" => Some(Color::White),
        "primitive_type" => Some(Color::Blue),
        _ => None,
    });
    let resolved1 = resolve_node_conflicts(node_matches1);
    let x_nodes: Vec<_> = resolved1.iter().filter(|m| &test_code1[m.start..m.end] == "x").collect();
    assert_eq!(x_nodes.len(), 1, "Should have exactly one 'x' node after resolution");
    assert_eq!(x_nodes[0].kind, "field_identifier", "Field 'x' should be field_identifier, not identifier");
}

#[test]
fn test_node_priority_system() {
    let test_cases = vec![
        ("field_identifier", 10),
        ("function_identifier", 8),
        ("primitive_type", 7),
        ("type_identifier", 6),
        ("{", 6),
        ("}", 6),
        ("(", 6),
        (")", 6),
        ("[", 6),
        ("]", 6),
        (";", 6),
        (",", 6),
        (":", 6),
        (".", 6),
        ("field_declaration_list", 3),
        ("parameters", 3),
        ("block", 3),
        ("struct_item", 3),
        ("identifier", 1),
        ("unknown_node", 5),
    ];
    for (node_kind, expected_priority) in test_cases {
        assert_eq!(get_node_type_priority(node_kind), expected_priority, "Priority for '{}'", node_kind);
    }
}

#[test]
fn test_overlapping_node_resolution() {
    let test_code = "struct Point { x: f64, y: f64 }";
    let tree = parse_rust(test_code);
    let node_matches = collect_matches(&tree, &|n| match n.kind.as_str() {
        "struct" => Some(Color::Red),
        "field_identifier" => Some(Color::Green),
        "identifier" => Some(Color::White),
        "primitive_type" => Some(Color::Blue),
        "type_identifier" => Some(Color::Cyan),
        "{" | "}" | "," | ":" => Some(Color::Yellow),
        "field_declaration_list" => Some(Color::Magenta),
        _ => None,
    });
    let resolved = resolve_node_conflicts(node_matches);
    let resolved_x: Vec<_> = resolved.iter().filter(|m| &test_code[m.start..m.end] == "x").collect();
    let resolved_f64: Vec<_> = resolved.iter().filter(|m| &test_code[m.start..m.end] == "f64").collect();
    assert!(resolved_x.len() <= 1, "Should have at most one 'x' node after resolution");
    assert!(resolved_f64.len() >= 1, "Should have at least one 'f64' node after resolution");
    if !resolved_x.is_empty() {
        assert_eq!(resolved_x[0].kind, "field_identifier", "Resolved 'x' should be field_identifier");
    }
    assert!(resolved.iter().any(|m| m.kind == "struct"), "Should preserve 'struct' keyword");
}

#[test]
fn test_complex_struct_conflict_resolution() {
    let test_code = r#"struct Point {
    x: f64,
    y: f64,
}

struct Person {
    name: String,
    age: u32,
    active: bool,
}"#;
    let highlighter = highlighter();
    let highlights = highlight(&highlighter, test_code);
    let critical_elements = vec![
        ("struct", "#ff7b72"),
        ("x", "#7ee787"),
        ("y", "#7ee787"),
        ("name", "#7ee787"),
        ("age", "#7ee787"),
        ("active", "#7ee787"),
        ("f64", "#79c0ff"),
        ("bool", "#79c0ff"),
        ("u32", "#79c0ff"),
        ("String", "#f0883e"),
        ("Point", "#f0883e"),
        ("Person", "#f0883e"),
        ("}", "#f0883e"),
        ("{", "#f0883e"),
    ];
    for (text, expected_color) in critical_elements {
        let matching: Vec<_> = highlights.iter().filter(|h| &test_code[h.start..h.end] == text).collect();
        let min_expected = if text == "}" || text == "{" { 2 } else { 1 };
        assert!(matching.len() >= min_expected, "Expected at least {} occurrences of '{}'", min_expected, text);
        assert!(
            matching.iter().any(|h| h.style.fg_color.as_deref() == Some(expected_color)),
            "Expected '{}' to have color {}",
            text,
            expected_color
        );
    }
    assert!(highlights.len() >= 20, "Should have at least 20 highlights, got {}", highlights.len());
}

#[test]
fn test_punctuation_priority_over_containers() {
    let test_code = "struct Point { x: f64 }";
    let tree = parse_rust(test_code);
    let node_matches = collect_matches(&tree, &|n| {
        let color = match n.kind.as_str() {
            "}" => Some(Color::Yellow),
            "field_declaration_list" => Some(Color::Magenta),
            "block" => Some(Color::Cyan),
            _ => None,
        };
        color.filter(|_| test_code[n.start..n.end].contains('}'))
    });
    let resolved = resolve_node_conflicts(node_matches);
    let brace_nodes: Vec<_> = resolved.iter().filter(|m| &test_code[m.start..m.end] == "}").collect();
    if !brace_nodes.is_empty() {
        assert_eq!(brace_nodes[0].kind, "}", "Closing brace should resolve to punctuation token, not container");
    }
}

#[test]
fn test_no_valid_nodes_dropped_during_resolution() {
    let test_code = r#"struct Point {
    x: f64,
    y: f64,
}"#;
    let highlighter = highlighter();
    let highlights = highlight(&highlighter, test_code);
    let essential_texts = vec![
        ("struct", Some("#ff7b72")),
        ("x", Some("#7ee787")),
        ("y", Some("#7ee787")),
        ("f64", Some("#79c0ff")),
        ("}", Some("#f0883e")),
        ("{", Some("#f0883e")),
        (":", Some("#f0883e")),
    ];
    for (essential_text, expected_color) in essential_texts {
        let matching: Vec<_> = highlights.iter().filter(|h| &test_code[h.start..h.end] == essential_text).collect();
        assert!(!matching.is_empty(), "Essential text '{}' was dropped during conflict resolution!", essential_text);
        if let Some(expected) = expected_color {
            assert!(
                matching.iter().any(|h| h.style.fg_color.as_deref() == Some(expected)),
                "Essential text '{}' should have color {}",
                essential_text,
                expected
            );
        }
    }
}

#[test]
fn highlights_come_sorted_by_start() {
    let highlighter = highlighter();
    let code = "fn main() { let a: u32 = 1; // one\n let b = a; }";
    let highlights = highlight(&highlighter, code);
    assert!(!highlights.is_empty());
    for w in highlights.windows(2) {
        assert!(w[0].start <= w[1].start);
    }
    for h in &highlights {
        assert!(h.style.bg_color.is_none() && !h.style.bold && !h.style.italic && !h.style.underline);
    }
}

#[test]
fn unknown_language_and_missing_tree_are_errors() {
    let highlighter = highlighter();
    let tree = parse_rust("fn main() {}");
    assert!(highlighter.highlight_parsed("rust", Some(&tree)).is_ok());
    match highlighter.highlight_text("python", "fn main() {}") {
        Err(e) => {
            assert_eq!(e, HighlightError::NoParser("python".to_string()));
            assert_eq!(e.message(), "No parser for language: python");
        }
        Ok(_) => panic!("python has no parser"),
    }
    match highlighter.highlight_parsed("rust", None) {
        Err(e) => assert_eq!(e.message(), "Failed to parse text"),
        Ok(_) => panic!("no tree was given"),
    }
    assert!(highlighter.has_parser("rust"));
    assert!(!highlighter.has_parser("Rust"));
}

#[test]
fn a_theme_switch_takes_the_new_colors() {
    let mut highlighter = highlighter();
    let mut config = dark_themes();
    let mut light = config.themes[0].1.clone();
    light.name = "Light".to_string();
    light.tree_sitter = vec![("fn".to_string(), "#0000ff".to_string())];
    config.themes.push(("light".to_string(), light));
    assert!(highlighter.update_theme(config.clone(), "light").is_ok());
    let highlights = highlight(&highlighter, "fn main() {}");
    assert_eq!(highlights.len(), 1);
    assert_eq!(highlights[0].style.fg_color.as_deref(), Some("#0000ff"));
    match highlighter.update_theme(config, "solarized") {
        Err(e) => assert_eq!(e.message(), "Theme 'solarized' not found, using current theme"),
        Ok(_) => panic!("there is no such theme"),
    }
    // the configuration's current theme (dark) is used again
    let highlights = highlight(&highlighter, "fn main() {}");
    assert_eq!(highlights[0].style.fg_color.as_deref(), Some("#ff7b72"));
}
