use cua_core::diff::diff_trees;

#[test]
fn identical_trees_have_no_diff() {
    let t = "[0] AXWindow\n  [1] AXButton\n";
    assert!(diff_trees(t, t).is_empty());
}

#[test]
fn reports_appearing_and_vanishing_lines() {
    let before = "[0] AXWindow\n  [1] AXButton \"Save\"\n";
    let after = "[0] AXWindow\n  [1] AXButton \"Save\"\n  [2] AXMenu \"Options\"\n";
    let d = diff_trees(before, after);
    assert_eq!(d.added, vec!["  [2] AXMenu \"Options\"".to_string()]);
    assert!(d.removed.is_empty());

    let back = diff_trees(after, before);
    assert_eq!(back.removed, vec!["  [2] AXMenu \"Options\"".to_string()]);
    assert!(back.added.is_empty());
}

#[test]
fn repeated_lines_are_counted_not_deduplicated() {
    let before = "  row\n  row\n  row\n";
    let after = "  row\n";
    let d = diff_trees(before, after);
    assert_eq!(d.removed.len(), 2);
    assert!(d.added.is_empty());
}

#[test]
fn a_changed_value_shows_as_one_removal_and_one_addition() {
    let before = "  [3] AXTextArea = \"draft\"\n";
    let after = "  [3] AXTextArea = \"sent\"\n";
    let d = diff_trees(before, after);
    assert_eq!(d.removed.len(), 1);
    assert_eq!(d.added.len(), 1);
}

#[test]
fn a_line_that_moved_is_no_difference() {
    assert!(diff_trees("a\nb\nc\n", "c\na\nb\n").is_empty());
}

#[test]
fn added_lines_keep_the_order_they_appear_in() {
    let d = diff_trees("x\n", "b\nx\na\nb\n");
    assert_eq!(d.added, ["b", "a", "b"]);
    assert!(!d.is_empty());
}

#[test]
fn a_carriage_return_belongs_to_the_line_break() {
    assert!(diff_trees("a\r\nb\r\n", "a\nb\n").is_empty());
}
