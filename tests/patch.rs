use ast_grep_wasm::patch::{accept_edits, apply_edits, rewrite_source, Edit};

fn edit(position: usize, deleted_length: usize, text: &str) -> Edit {
    Edit { position, deleted_length, inserted_text: text.to_string() }
}

#[test]
fn apply_without_edits_is_identity() {
    let src = "let a = 1;\nlet b = 2;";
    assert_eq!(apply_edits(src, &vec![]), src.as_bytes().to_vec());
    assert_eq!(apply_edits("", &vec![]), Vec::<u8>::new());
}

#[test]
fn apply_swaps_operands() {
    let src = "a + b";
    let edits = vec![edit(0, 5, "b + a")];
    assert_eq!(apply_edits(src, &edits), b"b + a".to_vec());
}

#[test]
fn apply_keeps_untouched_spans_between_edits() {
    let src = "f(1); f(2);";
    let edits = vec![edit(2, 1, "10"), edit(8, 1, "20")];
    assert_eq!(apply_edits(src, &edits), b"f(10); f(20);".to_vec());
}

#[test]
fn apply_length_is_source_minus_deleted_plus_inserted() {
    let src = "0123456789";
    let edits = vec![edit(1, 3, "x"), edit(4, 0, "yy"), edit(7, 3, "")];
    let out = apply_edits(src, &edits);
    assert_eq!(out.len(), 10 - (3 + 0 + 3) + (1 + 2 + 0));
    assert_eq!(out, b"0xyy456".to_vec());
}

#[test]
fn apply_edit_at_end_of_source() {
    let src = "abc";
    let edits = vec![edit(3, 0, "!")];
    assert_eq!(apply_edits(src, &edits), b"abc!".to_vec());
}

#[test]
fn accept_keeps_first_of_overlapping() {
    let cands = vec![edit(0, 5, "outer"), edit(1, 2, "inner"), edit(5, 1, "next")];
    let kept = accept_edits(&cands, 6);
    assert_eq!(kept.len(), 2);
    assert_eq!(kept[0].inserted_text, "outer");
    assert_eq!(kept[1].position, 5);
    assert_eq!(kept[1].inserted_text, "next");
}

#[test]
fn accept_drops_out_of_range_and_earlier_edits() {
    let cands = vec![edit(4, 2, "a"), edit(2, 1, "b"), edit(5, 9, "c"), edit(6, 0, "d")];
    let kept = accept_edits(&cands, 8);
    let texts: Vec<&str> = kept.iter().map(|e| e.inserted_text.as_str()).collect();
    assert_eq!(texts, vec!["a", "d"]);
}

#[test]
fn accepted_edits_never_overlap() {
    let cands = vec![
        edit(0, 4, "p"),
        edit(3, 2, "q"),
        edit(4, 2, "r"),
        edit(5, 1, "s"),
        edit(6, 0, "t"),
        edit(6, 1, "u"),
    ];
    let kept = accept_edits(&cands, 7);
    for w in kept.windows(2) {
        assert!(w[0].position + w[0].deleted_length <= w[1].position);
    }
    let texts: Vec<&str> = kept.iter().map(|e| e.inserted_text.as_str()).collect();
    assert_eq!(texts, vec!["p", "r", "t", "u"]);
}

#[test]
fn accept_empty_candidates() {
    assert!(accept_edits(&vec![], 0).is_empty());
}

#[test]
fn rewrite_source_applies_kept_edits_only() {
    let src = "Some(Some(1))";
    let cands = vec![edit(0, 13, "outer"), edit(5, 7, "inner")];
    assert_eq!(rewrite_source(src, &cands), b"outer".to_vec());
}

#[test]
fn rewrite_source_multibyte_text() {
    let src = "é + ü";
    let cands = vec![edit(0, 2, "ü"), edit(5, 2, "é")];
    assert_eq!(String::from_utf8(rewrite_source(src, &cands)).unwrap(), "ü + é");
}
