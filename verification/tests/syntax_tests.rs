use oxidized::color::{parse_color, Color};
use oxidized::syntax::{
    build_tree, get_node_type_priority, FlatNode, law_resolved_nodes_are_disjoint, resolve_node_conflicts, HighlightCacheEntry,
    HighlightCacheKey, HighlightRange, HighlightStyle, NodeMatch,
};
use oxidized::theme::ThemeConfig;

#[test]
fn test_highlight_style_creation() {
    let style = HighlightStyle {
        fg_color: Some("#ff0000".to_string()),
        bg_color: Some("#ffffff".to_string()),
        bold: true,
        italic: false,
        underline: true,
    };

    assert_eq!(style.fg_color, Some("#ff0000".to_string()));
    assert_eq!(style.bg_color, Some("#ffffff".to_string()));
    assert_eq!(style.bold, true);
    assert_eq!(style.italic, false);
    assert_eq!(style.underline, true);
}

#[test]
fn test_highlight_style_default() {
    let style = HighlightStyle {
        fg_color: None,
        bg_color: None,
        bold: false,
        italic: false,
        underline: false,
    };

    assert_eq!(style.fg_color, None);
    assert_eq!(style.bg_color, None);
    assert_eq!(style.bold, false);
    assert_eq!(style.italic, false);
    assert_eq!(style.underline, false);
}

#[test]
fn test_highlight_range_creation() {
    let style = HighlightStyle {
        fg_color: Some("#0000ff".to_string()),
        bg_color: None,
        bold: true,
        italic: false,
        underline: false,
    };

    let range = HighlightRange {
        start: 0,
        end: 10,
        style,
    };

    assert_eq!(range.start, 0);
    assert_eq!(range.end, 10);
    assert_eq!(range.style.fg_color, Some("#0000ff".to_string()));
    assert_eq!(range.style.bold, true);
}

#[test]
fn test_highlight_range_ordering() {
    let style1 = HighlightStyle {
        fg_color: Some("#ff0000".to_string()),
        bg_color: None,
        bold: false,
        italic: false,
        underline: false,
    };

    let style2 = HighlightStyle {
        fg_color: Some("#00ff00".to_string()),
        bg_color: None,
        bold: false,
        italic: false,
        underline: false,
    };

    let style3 = HighlightStyle {
        fg_color: Some("#0000ff".to_string()),
        bg_color: None,
        bold: false,
        italic: false,
        underline: false,
    };

    let mut ranges = vec![
        HighlightRange {
            start: 20,
            end: 30,
            style: style3,
        },
        HighlightRange {
            start: 0,
            end: 10,
            style: style1,
        },
        HighlightRange {
            start: 10,
            end: 20,
            style: style2,
        },
    ];

    // Sort ranges by start position
    ranges.sort_by(|a, b| a.start.cmp(&b.start));

    assert_eq!(ranges[0].start, 0);
    assert_eq!(ranges[1].start, 10);
    assert_eq!(ranges[2].start, 20);
}

#[test]
fn test_highlight_style_combinations() {
    let styles = vec![
        HighlightStyle {
            fg_color: Some("#ff0000".to_string()),
            bg_color: Some("#000000".to_string()),
            bold: true,
            italic: true,
            underline: true,
        },
        HighlightStyle {
            fg_color: Some("#00ff00".to_string()),
            bg_color: None,
            bold: false,
            italic: false,
            underline: false,
        },
        HighlightStyle {
            fg_color: None,
            bg_color: None,
            bold: false,
            italic: false,
            underline: false,
        },
    ];

    assert_eq!(styles.len(), 3);
    assert_eq!(styles[0].fg_color, Some("#ff0000".to_string()));
    assert_eq!(styles[0].bold, true);
    assert_eq!(styles[1].bold, false);
    assert_eq!(styles[2].fg_color, None);
}

#[test]
fn style_builders_set_one_flag() {
    let style = HighlightStyle { fg_color: Some("#123456".to_string()), bg_color: None, bold: false, italic: false, underline: true };
    let bold = style.clone().with_bold(true);
    assert!(bold.bold && !bold.italic && bold.underline);
    assert_eq!(bold.fg_color, Some("#123456".to_string()));
    let italic = bold.with_italic(true).with_bold(false);
    assert!(!italic.bold && italic.italic && italic.underline);
}

#[test]
fn node_priorities_follow_the_table() {
    assert_eq!(get_node_type_priority("field_identifier"), 10);
    assert_eq!(get_node_type_priority("function_identifier"), 8);
    assert_eq!(get_node_type_priority("primitive_type"), 7);
    assert_eq!(get_node_type_priority("type_identifier"), 6);
    assert_eq!(get_node_type_priority("{"), 6);
    assert_eq!(get_node_type_priority("."), 6);
    assert_eq!(get_node_type_priority("identifier"), 1);
    assert_eq!(get_node_type_priority("block"), 3);
    assert_eq!(get_node_type_priority("struct_item"), 3);
    assert_eq!(get_node_type_priority("string_literal"), 5);
}

fn node(kind: &str, start: usize, end: usize, color: &str) -> NodeMatch {
    NodeMatch { kind: kind.to_string(), start, end, color: parse_color(color) }
}

fn overlap(a: &NodeMatch, b: &NodeMatch) -> bool {
    a.start < b.end && a.end > b.start
}

#[test]
fn specific_node_replaces_container() {
    // a struct item spanning the field name, then the field name itself
    let resolved = resolve_node_conflicts(vec![node("struct_item", 0, 30, "#111111"), node("field_identifier", 10, 15, "#222222")]);
    assert_eq!(resolved.len(), 1);
    assert_eq!(resolved[0].kind, "field_identifier");
    assert_eq!(resolved[0].color, Color::Rgb { r: 0x22, g: 0x22, b: 0x22 });
}

#[test]
fn less_specific_node_is_dropped() {
    let resolved = resolve_node_conflicts(vec![node("field_identifier", 10, 15, "#222222"), node("identifier", 10, 15, "#333333")]);
    assert_eq!(resolved.len(), 1);
    assert_eq!(resolved[0].kind, "field_identifier");
}

#[test]
fn equal_priority_keeps_the_first() {
    let resolved = resolve_node_conflicts(vec![node("(", 3, 4, "#aaaaaa"), node("type_identifier", 3, 9, "#bbbbbb")]);
    assert_eq!(resolved.len(), 1);
    assert_eq!(resolved[0].kind, "(");
}

#[test]
fn separate_nodes_are_all_kept() {
    let resolved = resolve_node_conflicts(vec![node("identifier", 0, 3, "#1"), node("identifier", 4, 7, "#2"), node("identifier", 8, 9, "#3")]);
    assert_eq!(resolved.len(), 3);
    assert_eq!(resolved[1].start, 4);
}

#[test]
fn blocked_node_still_removes_outranked_ones_before_the_blocker() {
    // the new node outranks the first overlapping node but not the second one
    let resolved = resolve_node_conflicts(vec![
        node("identifier", 0, 4, "#1"),
        node("field_identifier", 6, 9, "#2"),
        node("type_identifier", 2, 8, "#3"),
    ]);
    assert_eq!(resolved.len(), 1);
    assert_eq!(resolved[0].kind, "field_identifier");
}

#[test]
fn resolved_nodes_never_overlap() {
    let _ = law_resolved_nodes_are_disjoint;
    let resolved = resolve_node_conflicts(vec![
        node("block", 0, 40, "#1"),
        node("identifier", 2, 6, "#2"),
        node("{", 0, 1, "#3"),
        node("primitive_type", 5, 9, "#4"),
        node("field_identifier", 20, 25, "#5"),
        node("struct_item", 18, 30, "#6"),
    ]);
    for i in 0..resolved.len() {
        for j in 0..resolved.len() {
            if i != j {
                assert!(!overlap(&resolved[i], &resolved[j]));
            }
        }
    }
}

#[test]
fn cache_entry_keeps_its_highlights() {
    let style = HighlightStyle { fg_color: None, bg_color: None, bold: false, italic: false, underline: false };
    let entry = HighlightCacheEntry::new(vec![HighlightRange { start: 1, end: 4, style }]);
    assert_eq!(entry.highlights().len(), 1);
    assert_eq!(entry.highlights()[0].end, 4);
}

#[test]
fn cache_key_uses_the_current_theme() {
    let themes = ThemeConfig::load(None);
    let key = HighlightCacheKey::new_simple("fn main() {}", "rust", &themes);
    assert_eq!(key.language, "rust");
    assert_eq!(key.theme, "emergency");
    let same = HighlightCacheKey::new_simple("fn main() {}", "rust", &themes);
    assert_eq!(key, same);
}

fn flat(kind: &str, start: usize, end: usize, child_count: usize) -> FlatNode {
    FlatNode { kind: kind.to_string(), start, end, child_count }
}

#[test]
fn build_tree_reads_a_pre_order_list() {
    // a(b(c), d)
    let list = vec![flat("a", 0, 9, 2), flat("b", 0, 4, 1), flat("c", 1, 2, 0), flat("d", 5, 9, 0)];
    let t = build_tree(&list).expect("one tree");
    assert_eq!(t.kind, "a");
    assert_eq!(t.children.len(), 2);
    assert_eq!(t.children[0].kind, "b");
    assert_eq!(t.children[0].children[0].kind, "c");
    assert_eq!((t.children[1].start, t.children[1].end), (5, 9));

    // a child is missing, one node is left over, or the list is empty
    assert!(build_tree(&vec![flat("a", 0, 9, 2), flat("b", 0, 4, 0)]).is_none());
    assert!(build_tree(&vec![flat("a", 0, 9, 0), flat("b", 0, 4, 0)]).is_none());
    assert!(build_tree(&Vec::new()).is_none());
}
