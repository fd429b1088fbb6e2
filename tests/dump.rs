use ast_grep_wasm::dump::{build_debug_tree, dump_ast_nodes, DebugNode, NodeRecord};
use ast_grep_wasm::grep::{GrepError, LanguageSlot};

fn rec(kind: &str, start: (usize, usize), end: (usize, usize), named: bool, n: usize) -> NodeRecord {
    NodeRecord { kind: kind.to_string(), start, end, is_named: named, child_count: n }
}

fn count(n: &DebugNode) -> usize {
    1 + n.children.iter().map(count).sum::<usize>()
}

#[test]
fn build_tree_from_preorder_records() {
    let recs = vec![
        rec("program", (0, 0), (0, 3), true, 1),
        rec("parenthesized", (0, 0), (0, 3), true, 3),
        rec("(", (0, 0), (0, 1), false, 0),
        rec("identifier", (0, 1), (0, 2), true, 0),
        rec(")", (0, 2), (0, 3), false, 0),
    ];
    let t = build_debug_tree(&recs).unwrap();
    assert_eq!(t.kind, "program");
    assert_eq!(t.children.len(), 1);
    let p = &t.children[0];
    assert_eq!(p.kind, "parenthesized");
    assert_eq!(p.start, (0, 0));
    assert_eq!(p.end, (0, 3));
    let kinds: Vec<&str> = p.children.iter().map(|c| c.kind.as_str()).collect();
    assert_eq!(kinds, vec!["(", "identifier", ")"]);
    assert!(!p.children[0].is_named);
    assert!(p.children[1].is_named);
    assert_eq!(count(&t), 5);
}

#[test]
fn build_tree_rejects_short_walk() {
    let recs = vec![rec("program", (0, 0), (0, 1), true, 2), rec("x", (0, 0), (0, 1), true, 0)];
    assert!(build_debug_tree(&recs).is_none());
}

#[test]
fn build_tree_rejects_trailing_records() {
    let recs = vec![rec("a", (0, 0), (0, 1), true, 0), rec("b", (0, 1), (0, 2), true, 0)];
    assert!(build_debug_tree(&recs).is_none());
}

#[test]
fn build_tree_rejects_empty_walk() {
    assert!(build_debug_tree(&vec![]).is_none());
}

#[test]
fn dump_parenthesized_source() {
    let mut slot = LanguageSlot::new();
    slot.install(tree_sitter_typescript::language_tsx().into());
    let t = dump_ast_nodes(&slot, "(a)").unwrap();
    assert_eq!(t.kind, "program");
    assert_eq!(t.start, (0, 0));
    assert_eq!(t.end, (0, 3));
    let stmt = &t.children[0];
    assert_eq!(stmt.kind, "expression_statement");
    let paren = &stmt.children[0];
    assert_eq!(paren.kind, "parenthesized_expression");
    let kinds: Vec<&str> = paren.children.iter().map(|c| c.kind.as_str()).collect();
    assert_eq!(kinds, vec!["(", "identifier", ")"]);
}

#[test]
fn dump_without_language_fails() {
    let slot = LanguageSlot::new();
    assert_eq!(dump_ast_nodes(&slot, "x").err(), Some(GrepError::LanguageNotConfigured));
}
