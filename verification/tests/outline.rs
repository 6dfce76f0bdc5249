use cua_core::snapshot::{
    is_text_editable, render_tree, should_render, truncate, write_node, AxNode, RenderOptions, WholeFrame,
};

fn node(index: usize, parent: Option<usize>, role: &str, label: Option<&str>) -> AxNode {
    AxNode {
        index,
        depth: 0,
        parent,
        role: role.to_string(),
        subrole: None,
        label: label.map(str::to_string),
        value: None,
        help: None,
        frame: None,
        enabled: true,
        focused: false,
        selected: false,
        actionable: false,
        settable: false,
    }
}

fn actionable(mut n: AxNode) -> AxNode {
    n.actionable = true;
    n
}

/// A control with a frame and no action of its own, which takes a click by its frame.
fn framed(mut n: AxNode) -> AxNode {
    n.frame = Some(WholeFrame {
        x: 0,
        y: 0,
        width: 10,
        height: 10,
    });
    n.actionable = true;
    n
}

#[test]
fn only_actionable_nodes_get_a_handle() {
    let nodes = vec![
        node(0, None, "AXWindow", Some("Inbox")),
        actionable(node(1, Some(0), "AXButton", Some("Compose"))),
    ];
    let out = render_tree(&nodes, RenderOptions::default());
    assert!(out.contains("AXWindow \"Inbox\""));
    assert!(!out.contains("[0]"), "a window is context, not a target");
    assert!(out.contains("[1] AXButton \"Compose\""));
}

#[test]
fn an_actionless_framed_node_gets_a_pid_click_handle() {
    let nodes = vec![
        node(0, None, "AXWindow", Some("Chat")),
        framed(node(1, Some(0), "AXButton", None)),
    ];
    let out = render_tree(&nodes, RenderOptions::default());
    assert!(out.contains("[1] AXButton"), "got {out}");
}

#[test]
fn structural_wrappers_are_dropped_but_children_keep_their_place() {
    let nodes = vec![
        node(0, None, "AXWindow", Some("W")),
        node(1, Some(0), "AXGroup", None),
        actionable(node(2, Some(1), "AXButton", Some("OK"))),
    ];
    let out = render_tree(&nodes, RenderOptions::default());
    assert!(!out.contains("AXGroup"), "empty groups are noise");
    // The button sits one level under the window, not two: dropping the
    // group must not leave a phantom indent step.
    let line = out.lines().find(|l| l.contains("AXButton")).unwrap();
    assert_eq!(line, "  [2] AXButton \"OK\"", "got {line:?}");
}

#[test]
fn output_is_depth_first_even_though_the_walk_was_breadth_first() {
    // BFS order: window, then both toolbars, then their buttons. Printed in
    // that order the indentation would be a lie, so the renderer must
    // regroup each toolbar with its own child.
    let nodes = vec![
        node(0, None, "AXWindow", Some("W")),
        node(1, Some(0), "AXToolbar", Some("top")),
        node(2, Some(0), "AXToolbar", Some("bottom")),
        actionable(node(3, Some(1), "AXButton", Some("in-top"))),
        actionable(node(4, Some(2), "AXButton", Some("in-bottom"))),
    ];
    let out = render_tree(&nodes, RenderOptions::default());
    let lines: Vec<&str> = out.lines().filter(|l| !l.trim().is_empty()).collect();
    assert_eq!(
        lines,
        vec![
            "AXWindow \"W\"",
            "  AXToolbar \"top\"",
            "    [3] AXButton \"in-top\"",
            "  AXToolbar \"bottom\"",
            "    [4] AXButton \"in-bottom\"",
        ],
        "got {out}"
    );
}

#[test]
fn a_truncated_parent_link_does_not_drop_the_subtree() {
    // The walk hit its budget, so node 0's parent (index 9) is not present.
    // It must still be rendered, as a root.
    let mut orphan = actionable(node(0, Some(9), "AXButton", Some("orphan")));
    orphan.parent = Some(9);
    let out = render_tree(&[orphan], RenderOptions::default());
    assert!(out.contains("[0] AXButton \"orphan\""), "got {out}");
}

#[test]
fn settable_alone_does_not_earn_the_editable_flag() {
    // Chromium marks AXValue settable on buttons and groups; tagging those
    // "editable" would invite set_value on a toolbar.
    let mut button = actionable(node(0, None, "AXButton", Some("Reload")));
    button.settable = true;
    let out = render_tree(&[button], RenderOptions::default());
    assert!(!out.contains("editable"), "got {out}");

    let mut field = actionable(node(1, None, "AXTextField", Some("Address")));
    field.settable = true;
    let out = render_tree(&[field], RenderOptions::default());
    assert!(out.contains("(editable)"), "got {out}");
}

/// A window > toolbar > deep container holding `n` leaf buttons.
fn wide_tree(n: usize) -> Vec<AxNode> {
    let mut v = vec![
        node(0, None, "AXWindow", Some("W")),
        node(1, Some(0), "AXToolbar", Some("bar")),
        node(2, Some(1), "AXTable", Some("rows")),
    ];
    for i in 0..n {
        v.push(actionable(node(3 + i, Some(2), "AXRow", Some("row"))));
    }
    v
}

fn skeleton_opts() -> RenderOptions {
    RenderOptions {
        skeleton: true,
        ..RenderOptions::default()
    }
}

#[test]
fn skeleton_collapses_a_big_subtree_into_a_countable_summary() {
    let nodes = wide_tree(40);
    let out = render_tree(&nodes, skeleton_opts());
    assert!(
        out.contains("(+40 elements — pass scope_element_id=2 to expand)"),
        "got {out}"
    );
    // The rows themselves must be gone, not merely reordered.
    assert_eq!(out.matches("AXRow").count(), 0, "got {out}");
}

#[test]
fn a_collapsed_container_names_its_index_even_without_a_handle() {
    // scope_element_id does not require the container to be actionable, so
    // the summary must state the index outright rather than relying on a
    // "[N]" prefix that non-actionable nodes never get.
    let nodes = wide_tree(40);
    assert!(
        !nodes[2].actionable,
        "fixture precondition: the container has no actions"
    );
    let out = render_tree(&nodes, skeleton_opts());
    assert!(!out.contains("[2] AXTable"), "no handle expected: {out}");
    assert!(out.contains("scope_element_id=2"), "got {out}");
}

#[test]
fn a_collapsed_container_that_is_actionable_keeps_its_handle() {
    let mut nodes = wide_tree(40);
    nodes[2] = actionable(nodes[2].clone());
    let out = render_tree(&nodes, skeleton_opts());
    assert!(out.contains("[2] AXTable"), "got {out}");
    assert!(out.contains("scope_element_id=2"), "got {out}");
}

#[test]
fn skeleton_leaves_shallow_structure_alone() {
    // The map must survive: window/toolbar/container are how an agent
    // orients itself, so nothing at or above skeleton_depth collapses.
    let nodes = wide_tree(40);
    let out = render_tree(&nodes, skeleton_opts());
    assert!(out.contains("AXWindow \"W\""), "got {out}");
    assert!(out.contains("AXToolbar \"bar\""), "got {out}");
}

#[test]
fn skeleton_does_not_collapse_a_subtree_too_small_to_be_worth_it() {
    // 4 children < collapse_over (8): a summary line would cost about what
    // the elements cost while being strictly less useful.
    let nodes = wide_tree(4);
    let out = render_tree(&nodes, skeleton_opts());
    assert!(!out.contains("scope_element_id"), "got {out}");
    assert_eq!(out.matches("AXRow").count(), 4, "got {out}");
}

#[test]
fn skeleton_is_off_by_default() {
    let nodes = wide_tree(40);
    let out = render_tree(&nodes, RenderOptions::default());
    assert!(!out.contains("scope_element_id"), "got {out}");
    assert_eq!(out.matches("AXRow").count(), 40);
}

#[test]
fn skeleton_counts_whole_subtrees_not_just_direct_children() {
    // window > group > container > 10 rows, each row holding one button.
    // The container's summary must say 20, not 10.
    let mut nodes = vec![
        node(0, None, "AXWindow", Some("W")),
        node(1, Some(0), "AXToolbar", Some("bar")),
        node(2, Some(1), "AXList", Some("list")),
    ];
    for i in 0..10 {
        nodes.push(actionable(node(3 + i, Some(2), "AXRow", Some("r"))));
    }
    for i in 0..10 {
        nodes.push(actionable(node(13 + i, Some(3 + i), "AXButton", Some("b"))));
    }
    let out = render_tree(&nodes, skeleton_opts());
    assert!(out.contains("(+20 elements"), "got {out}");
}

#[test]
fn skeleton_summary_totals_are_reported_once_at_the_end() {
    let nodes = wide_tree(40);
    let out = render_tree(&nodes, skeleton_opts());
    assert_eq!(
        out.matches("skeleton: 40 elements collapsed").count(),
        1,
        "got {out}"
    );
}

#[test]
fn a_value_that_merely_repeats_the_label_is_not_printed_twice() {
    let mut n = actionable(node(0, None, "AXStaticText", Some("Hello")));
    n.value = Some("Hello".to_string());
    let out = render_tree(&[n], RenderOptions::default());
    assert_eq!(out.matches("Hello").count(), 1, "got {out:?}");
}

#[test]
fn long_values_are_truncated_on_char_boundaries() {
    let mut n = actionable(node(0, None, "AXTextArea", None));
    n.value = Some("한글".repeat(500));
    let out = render_tree(&[n], RenderOptions::default());
    assert!(out.contains('…'));
    // Must not panic and must stay bounded.
    assert!(out.chars().count() < 400, "len was {}", out.chars().count());
}

#[test]
fn newlines_in_a_value_never_break_the_outline() {
    let mut n = actionable(node(0, None, "AXTextArea", None));
    n.value = Some("line one\nline two".to_string());
    let out = render_tree(&[n], RenderOptions::default());
    assert_eq!(out.trim().lines().count(), 1, "got {out:?}");
    assert!(out.contains("\\n"));
}

#[test]
fn every_flag_is_shown_in_its_order() {
    let mut n = actionable(node(7, None, "AXTextField", Some("Name")));
    n.settable = true;
    n.focused = true;
    n.selected = true;
    n.enabled = false;
    let out = render_tree(&[n], RenderOptions::default());
    assert_eq!(
        out,
        "[7] AXTextField \"Name\" (disabled, editable, focused, selected)\n"
    );
}

#[test]
fn a_note_being_edited_is_one_line() {
    let mut n = actionable(node(21, None, "AXTextArea", None));
    n.value = Some("milk\neggs".to_string());
    n.settable = true;
    n.focused = true;
    let mut out = String::new();
    write_node(&mut out, &n, RenderOptions::default());
    assert_eq!(out, r#"[21] AXTextArea = "milk\neggs" (editable, focused)"#);
}

#[test]
fn whatever_elements_say_each_has_one_line() {
    let said = ["a\nb", "\r\n", "tab\t", "\"quoted\"", "back\\slash", "it's", "é\u{2028}\u{85}\n", "\0\n\n"];
    let nodes: Vec<AxNode> = said
        .iter()
        .enumerate()
        .map(|(i, text)| {
            let mut n = actionable(node(i, None, "AXButton", Some(text)));
            n.value = Some(format!("{text}\n"));
            n
        })
        .collect();
    let out = render_tree(&nodes, RenderOptions::default());
    assert_eq!(out.matches('\n').count(), said.len(), "got {out:?}");
    let first = out.lines().next().unwrap();
    assert_eq!(first, r#"[0] AXButton "a\nb" = "a\nb\n""#);
    assert!(out.contains(r#"[1] AXButton "\r\n""#), "got {out}");
    assert!(out.contains(r#"[2] AXButton "tab\t""#), "got {out}");
    assert!(out.contains(r#"[3] AXButton "\"quoted\"""#), "got {out}");
    assert!(out.contains(r#"[5] AXButton "it's" = "it's\n""#), "got {out}");
    assert!(out.contains(r#"[4] AXButton "back\\slash""#), "got {out}");
}

#[test]
fn a_line_break_counts_as_one_character() {
    let mut n = actionable(node(0, None, "AXTextArea", None));
    n.value = Some("\n".repeat(200));
    let out = render_tree(&[n.clone()], RenderOptions::default());
    assert!(!out.contains('…'), "got {out}");
    n.value = Some("\n".repeat(201));
    let out = render_tree(&[n], RenderOptions::default());
    assert_eq!(out.matches("\\n").count(), 200, "got {out}");
    assert!(out.contains("\\n…\""), "got {out}");
}

#[test]
fn frames_are_shown_when_asked_for() {
    let mut n = actionable(node(0, None, "AXButton", Some("Go")));
    n.frame = Some(WholeFrame {
        x: -15,
        y: 239,
        width: 194,
        height: 34,
    });
    let plain = render_tree(&[n.clone()], RenderOptions::default());
    assert!(!plain.contains("194"), "got {plain}");
    let opts = RenderOptions {
        include_frames: true,
        ..RenderOptions::default()
    };
    let out = render_tree(&[n], opts);
    assert!(out.contains("-15,239 194x34"), "got {out}");
}

#[test]
fn a_hidden_wrapper_is_counted_in_the_notes() {
    let nodes = vec![
        node(0, None, "AXWindow", Some("W")),
        node(1, Some(0), "AXGroup", None),
    ];
    let out = render_tree(&nodes, RenderOptions::default());
    assert!(out.contains('1') && out.contains("omitted"), "got {out}");
    let quiet = RenderOptions {
        note_omissions: false,
        ..RenderOptions::default()
    };
    assert_eq!(render_tree(&nodes, quiet), "AXWindow \"W\"\n");
    let noisy = RenderOptions {
        include_noise: true,
        note_omissions: false,
        ..RenderOptions::default()
    };
    assert!(render_tree(&nodes, noisy).contains("AXGroup"));
}

#[test]
fn a_cycle_of_parents_still_ends() {
    let nodes = vec![
        actionable(node(0, Some(1), "AXButton", Some("a"))),
        actionable(node(1, Some(0), "AXButton", Some("b"))),
    ];
    let out = render_tree(&nodes, RenderOptions::default());
    assert!(!out.contains("AXButton"), "neither is a root: {out}");
}

#[test]
fn text_is_cut_after_so_many_characters() {
    assert_eq!(truncate("abc", 3), "abc");
    assert_eq!(truncate("abcd", 3), "abc…");
    assert_eq!(truncate("한글한글", 2), "한글…");
    assert_eq!(truncate("a\nb", 10), "a\nb");
}

#[test]
fn only_text_roles_are_editable() {
    let mut field = node(0, None, "AXSearchField", None);
    assert!(!is_text_editable(&field));
    field.settable = true;
    assert!(is_text_editable(&field));
    let mut button = node(1, None, "AXButton", None);
    button.settable = true;
    assert!(!is_text_editable(&button));
}

#[test]
fn what_says_nothing_and_does_nothing_is_noise() {
    let opts = RenderOptions::default();
    assert!(!should_render(&node(0, None, "AXGroup", None), opts));
    assert!(should_render(&node(0, None, "AXGroup", Some("x")), opts));
    assert!(should_render(&actionable(node(0, None, "AXGroup", None)), opts));
}
