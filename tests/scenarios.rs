use ast_grep_config::{from_str, SerializableMetaVarMatcher, SerializableRule};
use ast_grep_wasm::grep::{find_nodes, fix_errors, span_records, GrepError, LanguageSlot, MatchSpan};
use std::collections::HashMap;

fn tsx_slot() -> LanguageSlot {
    let mut slot = LanguageSlot::new();
    slot.install(tree_sitter_typescript::language_tsx().into());
    slot
}

fn rule(yaml: &str) -> SerializableRule {
    from_str(yaml).expect("rule yaml")
}

fn constraints(yaml: &str) -> HashMap<String, SerializableMetaVarMatcher> {
    from_str(yaml).expect("constraints yaml")
}

fn records(spans: &Vec<MatchSpan>) -> Vec<Vec<usize>> {
    span_records(spans)
}

#[test]
fn binary_pattern_matches_whole_expression() {
    let slot = tsx_slot();
    let spans = find_nodes(&slot, "a + b", rule("pattern: $X + $Y"), None).unwrap();
    assert_eq!(records(&spans), vec![vec![0, 0, 0, 5]]);
}

#[test]
fn fix_swaps_captured_operands() {
    let slot = tsx_slot();
    let out = fix_errors(
        &slot,
        "a + b",
        rule("pattern: $X + $Y"),
        Some("$Y + $X".to_string()),
        None,
    );
    assert_eq!(out, Ok("b + a".to_string()));
}

#[test]
fn regex_constraint_keeps_numeric_calls() {
    let slot = tsx_slot();
    let spans = find_nodes(
        &slot,
        "f(1); f(2);",
        rule("pattern: f($N)"),
        Some(constraints("N:\n  regex: '^[0-9]+$'")),
    )
    .unwrap();
    assert_eq!(spans.len(), 2);
}

#[test]
fn regex_constraint_rejects_other_captures() {
    let slot = tsx_slot();
    let spans = find_nodes(
        &slot,
        "f(1); f(x);",
        rule("pattern: f($N)"),
        Some(constraints("N:\n  regex: '^[0-9]+$'")),
    )
    .unwrap();
    assert_eq!(spans.len(), 1);
}

#[test]
fn has_inside_all_matches_parenthesized_node() {
    let slot = tsx_slot();
    let spans = find_nodes(
        &slot,
        "(a)",
        rule("all:\n  - kind: parenthesized_expression\n  - has:\n      kind: identifier"),
        None,
    )
    .unwrap();
    assert_eq!(records(&spans), vec![vec![0, 0, 0, 3]]);
}

// A kind that the grammar defines but the source lacks gives no match and
// no error.
#[test]
fn absent_kind_gives_no_match() {
    let slot = tsx_slot();
    let spans = find_nodes(&slot, "x", rule("kind: class_declaration"), None).unwrap();
    assert!(spans.is_empty());
}

#[test]
fn find_is_repeatable() {
    let slot = tsx_slot();
    let first = find_nodes(&slot, "f(1); f(2);", rule("pattern: f($N)"), None).unwrap();
    let second = find_nodes(&slot, "f(1); f(2);", rule("pattern: f($N)"), None).unwrap();
    assert_eq!(records(&first), records(&second));
}

// A kind that the grammar does not define is not an empty search: ast-grep's
// `KindMatcher::try_new` rejects the name while the rule compiles.
#[test]
fn unknown_kind_is_a_rule_error() {
    let slot = tsx_slot();
    let r = find_nodes(&slot, "x", rule("kind: nonexistent"), None);
    assert_eq!(r.err(), Some(GrepError::RuleCompile));
}

#[test]
fn requests_fail_without_language() {
    let slot = LanguageSlot::new();
    assert!(!slot.is_configured());
    let r = find_nodes(&slot, "a + b", rule("pattern: $X + $Y"), None);
    assert_eq!(r.err(), Some(GrepError::LanguageNotConfigured));
    let r = fix_errors(&slot, "a + b", rule("pattern: $X + $Y"), Some("$Y".to_string()), None);
    assert_eq!(r, Err(GrepError::LanguageNotConfigured));
}

#[test]
fn fix_without_template_fails() {
    let slot = tsx_slot();
    let r = fix_errors(&slot, "a + b", rule("pattern: $X + $Y"), None, None);
    assert_eq!(r, Err(GrepError::MissingFixTemplate));
}

#[test]
fn invalid_regex_constraint_fails() {
    let slot = tsx_slot();
    let r = find_nodes(
        &slot,
        "f(1);",
        rule("pattern: f($N)"),
        Some(constraints("N:\n  regex: '('")),
    );
    assert_eq!(r.err(), Some(GrepError::InvalidConstraint));
}

#[test]
fn fix_rewrites_every_call() {
    let slot = tsx_slot();
    let out = fix_errors(
        &slot,
        "f(1); f(2);",
        rule("pattern: f($N)"),
        Some("g($N)".to_string()),
        None,
    );
    assert_eq!(out, Ok("g(1); g(2);".to_string()));
}

#[test]
fn span_record_lists_rows_and_columns() {
    let s = MatchSpan { start: (1, 2), end: (3, 4) };
    assert_eq!(s.to_record(), vec![1, 2, 3, 4]);
}

#[test]
fn all_rejects_conflicting_captures() {
    let slot = tsx_slot();
    let yaml = "all:\n  - pattern: $X + $Y\n  - pattern: $Y + $X";
    let spans = find_nodes(&slot, "a + b", rule(yaml), None).unwrap();
    assert!(spans.is_empty());
    let spans = find_nodes(&slot, "a + a", rule(yaml), None).unwrap();
    assert_eq!(spans.len(), 1);
}

#[test]
fn invalid_fix_template_fails() {
    let slot = tsx_slot();
    let r = fix_errors(&slot, "a + b", rule("pattern: $X + $Y"), Some("a; b".to_string()), None);
    assert_eq!(r, Err(GrepError::InvalidFixTemplate));
}

#[test]
fn nested_matches_rewrite_outermost() {
    let slot = tsx_slot();
    let out = fix_errors(&slot, "f(f(1));", rule("pattern: f($A)"), Some("g($A)".to_string()), None);
    assert_eq!(out, Ok("g(f(1));".to_string()));
}
