use cua_core::apps::AppInfo;
use cua_core::session::actions::pointer::{plan_window_click, WindowClickFacts, WindowPixel};
use cua_core::session::error::CoreError;
use cua_core::session::find::match_nodes;
use cua_core::session::kinds::{
    ax_verb_for_key, classify_focus, flag_is_on, scroll_tier, Delivery, FocusState, Mechanism,
    Modifiers, MouseOptions, Observed, Presence, ScrollAmount, ScrollDir, ScrollTier,
};
use cua_core::session::observe::{capture_failure_warning, diff_basis};
use cua_core::session::store::{Limits, ProcessKey, Snapshot};
use cua_core::session::target::{Spot, Target};
use cua_core::session::targeting::{
    check_coordinate_generation, describe_location, PointerLocation,
};
use cua_core::session::tokens::{push_token, sorted, tokens_still_present};
use cua_core::session::windows::{
    best_window_match, current_window_for_pid_click, hit_test, live_window_for_pid_click,
    transient_popups, FrameBits, HitFacts, WindowInfo,
};
use cua_core::snapshot::AxNode;

#[derive(Clone, Copy)]
struct Rect {
    x: f64,
    y: f64,
    w: f64,
    h: f64,
}

fn rect(x: f64, y: f64, w: f64, h: f64) -> Rect {
    Rect { x, y, w, h }
}

/// A number that orders floating point numbers as they order themselves.
fn order_key(v: f64) -> i64 {
    let bits = v.to_bits() as i64;
    bits ^ (((bits >> 63) as u64) >> 1) as i64
}

fn holds(f: Rect, x: f64, y: f64) -> bool {
    x >= f.x && y >= f.y && x < f.x + f.w && y < f.y + f.h
}

fn frame_of(w: &WindowInfo) -> Rect {
    rect(
        f64::from_bits(w.frame.x),
        f64::from_bits(w.frame.y),
        f64::from_bits(w.frame.width),
        f64::from_bits(w.frame.height),
    )
}

fn at_layer(id: u32, pid: i32, f: Rect, layer: i64) -> WindowInfo {
    let ordinary = layer == 0;
    let popup = layer == 101 || layer == 200;
    WindowInfo {
        id,
        title: None,
        pid,
        frame: FrameBits {
            x: f.x.to_bits(),
            y: f.y.to_bits(),
            width: f.w.to_bits(),
            height: f.h.to_bits(),
        },
        frame_text: format!("{:.0},{:.0} {:.0}x{:.0}", f.x, f.y, f.w, f.h),
        size_text: format!("{:.0}x{:.0}", f.w, f.h),
        area: order_key(f.w * f.h),
        on_screen: true,
        layer,
        plausible: ordinary,
        addressable: ordinary || popup,
        popup,
    }
}

fn win(id: u32, pid: i32, x: f64, y: f64, w: f64, h: f64) -> WindowInfo {
    at_layer(id, pid, rect(x, y, w, h), 0)
}

fn tnode(index: usize, role: &str, label: Option<&str>, value: Option<&str>, act: bool) -> AxNode {
    AxNode {
        index,
        depth: 0,
        parent: None,
        role: role.to_string(),
        subrole: None,
        label: label.map(str::to_string),
        value: value.map(str::to_string),
        help: None,
        frame: None,
        enabled: true,
        focused: false,
        selected: false,
        actionable: act,
        settable: false,
    }
}

/// What a hit test at a point reads of an element.
fn placed(depth: usize, act: bool, f: Rect, x: f64, y: f64) -> HitFacts {
    HitFacts {
        covers: holds(f, x, y),
        actionable: act,
        area: order_key(f.w * f.h),
        depth,
    }
}

fn post_action_limits() -> Limits {
    Limits {
        max_nodes: 2000,
        max_depth: 60,
        budget_ms: 10_000,
    }
}

fn texts(list: &[&str]) -> Vec<String> {
    list.iter().map(|s| s.to_string()).collect()
}

/// How far two frames lie apart.
fn distance(a: Rect, b: Rect) -> i64 {
    order_key((a.x - b.x).abs() + (a.y - b.y).abs() + (a.w - b.w).abs() + (a.h - b.h).abs())
}

fn best(windows: &[WindowInfo], pid: i32, ax: Option<Rect>) -> Option<WindowInfo> {
    match ax {
        Some(f) => {
            let all: Vec<i64> = windows.iter().map(|w| distance(frame_of(w), f)).collect();
            best_window_match(windows, pid, Some(&all))
        }
        None => best_window_match(windows, pid, None),
    }
}

fn current(windows: &[WindowInfo], wid: u32, pid: i32, x: f64, y: f64) -> Result<WindowInfo, String> {
    let inside: Vec<bool> = windows.iter().map(|w| holds(frame_of(w), x, y)).collect();
    current_window_for_pid_click(windows, &inside, wid, pid, &format!("({x:.0}, {y:.0})"))
}

#[test]
fn a_capture_failure_blames_an_open_menu_only_when_one_is_open() {
    let bare = "screencapture exited with status 1: could not create image from window";
    let no_menu = vec![tnode(0, "AXWindow", Some("Chat"), None, false)];
    assert_eq!(
        capture_failure_warning(bare, &no_menu),
        bare,
        "with no menu open the cause is unknown, and guessing would mislead"
    );

    let with_menu = vec![
        tnode(0, "AXWindow", Some("Chat"), None, false),
        tnode(1, "AXMenu", None, None, true),
    ];
    let explained = capture_failure_warning(bare, &with_menu);
    assert!(explained.starts_with(bare), "the OS text has to survive");
    assert!(explained.contains("menu open"), "got {explained}");
}

/// A snapshot with nothing in it but the properties `diff_basis` judges.
fn basis(scoped: bool, limits: Limits, complete: bool, acted_on: bool) -> Snapshot {
    Snapshot {
        id: 1,
        nodes: Vec::new(),
        window: None,
        process_key: ProcessKey::for_pid(77, None),
        scoped,
        limits,
        complete,
        acted_on,
        popups: Vec::new(),
    }
}

#[test]
fn a_default_whole_window_snapshot_is_a_fair_diff_basis() {
    let usual = post_action_limits();
    assert!(diff_basis(&basis(false, usual, true, false), usual).is_ok());
}

#[test]
fn a_scoped_or_capped_snapshot_is_refused_as_a_diff_basis() {
    let usual = post_action_limits();
    assert!(
        diff_basis(&basis(true, usual, true, false), usual).is_err(),
        "a subtree cannot be subtracted from a whole window"
    );
    let capped = Limits {
        max_nodes: 40,
        ..post_action_limits()
    };
    assert!(
        diff_basis(&basis(false, capped, true, false), usual).is_err(),
        "a 40-node walk of a 300-node window would report 260 nodes as new"
    );
}

#[test]
fn an_unfinished_walk_is_refused_as_a_diff_basis() {
    let usual = post_action_limits();
    assert!(
        diff_basis(&basis(false, usual, false, false), usual).is_err(),
        "nodes the first walk never reached would read as newly appeared"
    );
}

#[test]
fn an_already_acted_on_snapshot_is_refused_as_a_diff_basis() {
    let usual = post_action_limits();
    assert!(
        diff_basis(&basis(false, usual, true, true), usual).is_err(),
        "a diff would blame this action for the previous action's changes too"
    );
}

#[test]
fn hit_test_breaks_an_equal_frame_tie_toward_the_deeper_element() {
    let f = rect(0.0, 0.0, 500.0, 40.0);
    let nodes = vec![placed(3, true, f, 10.0, 10.0), placed(4, true, f, 10.0, 10.0)];
    assert_eq!(
        hit_test(&nodes),
        Some(1),
        "the deeper element is the more specific answer"
    );
}

#[test]
fn a_capture_failure_is_only_blamed_on_a_menu_for_the_window_server_refusal() {
    let with_menu = vec![
        tnode(0, "AXWindow", Some("Chat"), None, false),
        tnode(1, "AXMenu", None, None, true),
    ];
    let unrelated = "screencapture worker timed out after 5s";
    assert_eq!(
        capture_failure_warning(unrelated, &with_menu),
        unrelated,
        "a timeout is not evidence about menus, even with a menu on screen"
    );

    let refusal = "screencapture exited with status 1: could not create image from window";
    assert!(capture_failure_warning(refusal, &with_menu).contains("may be why"));
}

#[test]
fn hit_test_prefers_the_actionable_element_over_the_label_drawn_on_it() {
    let (x, y) = (120.0, 110.0);
    let nodes = vec![
        placed(0, false, rect(0.0, 0.0, 500.0, 400.0), x, y),
        placed(0, true, rect(100.0, 100.0, 80.0, 30.0), x, y),
        placed(0, false, rect(110.0, 105.0, 40.0, 20.0), x, y),
    ];
    let hit = hit_test(&nodes).expect("point is inside all three");
    assert_eq!(hit, 1, "a static label is not a thing you can click");
}

#[test]
fn hit_test_prefers_the_smallest_of_nested_actionable_frames() {
    let nodes = |x: f64, y: f64| {
        vec![
            placed(0, true, rect(0.0, 0.0, 500.0, 50.0), x, y),
            placed(0, true, rect(400.0, 10.0, 40.0, 30.0), x, y),
        ]
    };
    assert_eq!(hit_test(&nodes(410.0, 20.0)), Some(1));
    assert_eq!(hit_test(&nodes(10.0, 20.0)), Some(0));
}

#[test]
fn hit_test_answers_nothing_outside_every_frame() {
    let f = rect(0.0, 0.0, 100.0, 100.0);
    assert!(
        hit_test(&[placed(0, false, f, 500.0, 500.0)]).is_none(),
        "a miss has to be reportable, not silently retargeted at the menu bar"
    );
    assert!(
        hit_test(&[placed(0, false, f, 100.0, 50.0)]).is_none(),
        "the far edge is exclusive, so adjacent frames cannot both claim a point"
    );
}

#[test]
fn pid_click_revalidation_uses_the_live_moved_window_frame() {
    let moved = win(7, 42, -400.0, 50.0, 800.0, 600.0);
    let live = current(&[moved], 7, 42, -200.0, 200.0)
        .expect("same id and pid should survive a move");
    assert_eq!(frame_of(&live).x, -400.0);
    assert_eq!(
        (-200.0 - frame_of(&live).x, 200.0 - frame_of(&live).y),
        (200.0, 150.0),
        "window-local input must use the live frame, not the snapshot frame"
    );
}

#[test]
fn pid_click_revalidation_rejects_a_recycled_window_id() {
    let recycled = win(7, 99, 0.0, 0.0, 800.0, 600.0);
    let err = current(&[recycled], 7, 42, 100.0, 100.0)
        .expect_err("same window id owned by another pid must fail closed");
    assert!(
        err.contains("does not currently belong to pid 42"),
        "got {err}"
    );
}

#[test]
fn pid_click_revalidation_rejects_ax_window_drift() {
    let live = win(7, 42, 0.0, 0.0, 800.0, 600.0);
    let err = current(&[live], 7, 42, 900.0, 100.0)
        .expect_err("a point outside the validated window must not be posted");
    assert!(err.contains("outside the current frame"), "got {err}");
}

#[test]
fn the_keys_offered_as_the_focus_free_alternative_really_are() {
    for key in ["return", "enter", "escape", "esc", "up", "down"] {
        assert!(
            ax_verb_for_key(key).is_some(),
            "{key} is advertised as needing no focus but has no AX verb"
        );
    }
}

#[test]
fn a_token_role_mismatch_names_both_roles() {
    let err = CoreError::TokenRoleMismatch {
        index: 233,
        expected: "AXCell".into(),
        found: "AXButton".into(),
    };
    let msg = err.message();
    assert!(msg.contains("233"), "got {msg}");
    assert!(
        msg.contains("AXCell") && msg.contains("AXButton"),
        "got {msg}"
    );
    assert!(
        msg.contains("get_app_state"),
        "the remedy must be in the message: {msg}"
    );
}

#[test]
fn observed_labels_are_stable_and_three_valued() {
    assert_eq!(Observed::Changed.as_str(), "yes");
    assert_eq!(Observed::Unchanged.as_str(), "no");
    assert_eq!(Observed::Unknown.as_str(), "unknown");
}

#[test]
fn recycled_rows_fail_the_exact_target_check() {
    let expected = texts(&["Alice", "Profile"]);
    let same_row = texts(&["Alice", "Profile", "New preview"]);
    let other_row = texts(&["Bob", "Profile"]);

    assert!(tokens_still_present(&expected, &same_row));
    assert!(!tokens_still_present(&expected, &other_row));
}

#[test]
fn appkit_placeholder_identifiers_are_not_identity() {
    let mut out: Vec<String> = Vec::new();
    push_token(Some("_NS:87".to_string()), &mut out);
    push_token(Some("   ".to_string()), &mut out);
    push_token(None, &mut out);
    push_token(Some("Alice".to_string()), &mut out);
    assert_eq!(sorted(&out), vec!["Alice"]);
}

#[test]
fn find_matches_case_insensitively_across_label_value_and_role() {
    let nodes = vec![
        tnode(0, "AXButton", Some("Send"), None, true),
        tnode(1, "AXTextArea", None, Some("please SEND it"), true),
        tnode(2, "AXSendButton", None, None, true),
        tnode(3, "AXButton", Some("Cancel"), None, true),
    ];
    let hits = match_nodes(&nodes, "send", 10);
    assert_eq!(hits.len(), 3, "got {hits:?}");
    // Label match ranks above value match, which ranks above role match.
    assert!(hits[0].contains("\"Send\""), "got {:?}", hits[0]);
    assert!(hits[1].contains("please SEND it"), "got {:?}", hits[1]);
    assert!(hits[2].contains("AXSendButton"), "got {:?}", hits[2]);
}

#[test]
fn find_puts_actionable_matches_before_context() {
    let nodes = vec![
        tnode(0, "AXStaticText", Some("Save now"), None, false),
        tnode(1, "AXButton", Some("Save"), None, true),
    ];
    let hits = match_nodes(&nodes, "save", 10);
    assert!(
        hits[0].starts_with("[1] "),
        "actionable first, got {hits:?}"
    );
    assert!(hits[1].starts_with("(not actionable)"), "got {hits:?}");
}

#[test]
fn find_respects_the_limit_and_rejects_an_empty_needle() {
    let nodes: Vec<AxNode> = (0..10)
        .map(|i| tnode(i, "AXButton", Some("item"), None, true))
        .collect();
    assert_eq!(match_nodes(&nodes, "item", 3).len(), 3);
    // A zero limit must still return something rather than silently nothing.
    assert_eq!(match_nodes(&nodes, "item", 0).len(), 1);
    assert!(match_nodes(&nodes, "", 5).is_empty());
}

#[test]
fn find_does_not_print_a_value_that_repeats_the_label() {
    let nodes = vec![tnode(0, "AXStaticText", Some("dup"), Some("dup"), true)];
    let hits = match_nodes(&nodes, "dup", 5);
    assert_eq!(hits[0].matches("dup").count(), 1, "got {:?}", hits[0]);
}

#[test]
fn only_intent_like_keys_have_an_ax_verb() {
    assert_eq!(ax_verb_for_key("return"), Some("AXConfirm"));
    assert_eq!(ax_verb_for_key("Enter"), Some("AXConfirm"));
    assert_eq!(ax_verb_for_key(" ESC "), Some("AXCancel"));
    assert_eq!(ax_verb_for_key("up"), Some("AXIncrement"));
    assert_eq!(ax_verb_for_key("down"), Some("AXDecrement"));
    // cua-rs deliberately refuses keys AX cannot address to an element.
    assert_eq!(ax_verb_for_key("cmd+shift+p"), None);
    assert_eq!(ax_verb_for_key("a"), None);
    assert_eq!(ax_verb_for_key("f5"), None);
}

#[test]
fn a_page_request_prefers_accessibility_and_falls_through_when_there_is_none() {
    assert_eq!(
        scroll_tier(ScrollAmount::Pages(1), true),
        ScrollTier::Ax,
        "an element that advertises AXScroll*ByPage should be paged through it"
    );
    assert_eq!(
        scroll_tier(ScrollAmount::Pages(1), false),
        ScrollTier::Wheel,
        "an Electron list advertises nothing, and used to be unscrollable"
    );
}

#[test]
fn a_distance_request_is_always_an_event() {
    assert_eq!(
        scroll_tier(ScrollAmount::Points(120), true),
        ScrollTier::Wheel
    );
    assert_eq!(
        scroll_tier(ScrollAmount::Points(120), false),
        ScrollTier::Wheel
    );
}

#[test]
fn wheel_deltas_point_the_way_the_direction_says() {
    assert_eq!(ScrollDir::Up.wheel_delta(120), (120, 0));
    assert_eq!(ScrollDir::Down.wheel_delta(120), (-120, 0));
    assert_eq!(ScrollDir::Left.wheel_delta(120), (0, 120));
    assert_eq!(ScrollDir::Right.wheel_delta(120), (0, -120));
}

fn held(names: &[&str]) -> Modifiers {
    let mut m = Modifiers::empty();
    for name in names {
        match *name {
            "cmd" => m.command = true,
            "shift" => m.shift = true,
            "alt" => m.alternate = true,
            "ctrl" => m.control = true,
            _ => m.function = true,
        }
    }
    m
}

#[test]
fn mouse_options_parse_the_same_modifier_vocabulary_as_press_key() {
    let m = MouseOptions::parse(Ok("right".into()), Ok(held(&["cmd", "shift"]))).unwrap();
    assert_eq!(m.button, "right");
    assert!(m.modifiers.command);
    assert!(m.modifiers.shift);
    assert_eq!(m.count, 1, "a click count is not part of parsing");

    let d = MouseOptions::parse(Ok("left".into()), Ok(held(&[]))).unwrap();
    assert_eq!(d.button, "left");
    assert!(d.modifiers.is_empty());

    assert!(MouseOptions::parse(Err("mouse3".into()), Ok(held(&[]))).is_err());
    assert!(MouseOptions::parse(Ok("left".into()), Err("cmd+clik".into())).is_err());
}

#[test]
fn a_mouse_option_set_describes_itself_in_the_words_it_was_given() {
    // The result line has to be quotable back into the next call.
    assert_eq!(MouseOptions::default().describe(), "left");
    assert_eq!(
        MouseOptions::parse(Ok("right".into()), Ok(held(&["cmd", "shift"])))
            .unwrap()
            .describe(),
        "cmd+shift right"
    );
    // Canonical order regardless of how the caller wrote it, so two
    // equivalent calls do not produce two different-looking results.
    assert_eq!(
        MouseOptions::parse(Ok("left".into()), Ok(held(&["shift", "cmd"])))
            .unwrap()
            .describe(),
        MouseOptions::parse(Ok("left".into()), Ok(held(&["cmd", "shift"])))
            .unwrap()
            .describe()
    );
}

fn spot(x: f64, y: f64) -> Spot {
    Spot {
        exact: format!("({x}, {y})"),
        rounded: format!("({x:.0}, {y:.0})"),
    }
}

#[test]
fn a_drag_end_names_itself_before_anything_is_resolved() {
    assert_eq!(
        describe_location(&PointerLocation::Element(Target::Index {
            index: 12,
            snapshot_id: None,
            expected_role: None,
        })),
        "element 12"
    );
    assert_eq!(
        describe_location(&PointerLocation::WindowPoint { at: spot(40.4, 12.0) }),
        "window-local (40, 12)"
    );
}

#[test]
fn the_coordinate_guard_passes_when_the_generation_matches_and_fails_when_it_does_not() {
    let info = AppInfo {
        name: "Test".into(),
        bundle_id: None,
        pid: 4242,
        active: false,
        regular: true,
    };
    let mut snapshot = basis(false, post_action_limits(), true, false);
    snapshot.id = 7;
    let current = Some(&snapshot);
    let at = spot(10.0, 10.0).rounded;

    // Not citing a generation is allowed: the common flow reads and acts in
    // one turn, and requiring the id would add a failure mode where there
    // is no risk.
    assert!(check_coordinate_generation(&info, current, None, &at).is_ok());
    assert!(check_coordinate_generation(&info, current, Some(7), &at).is_ok());

    let err = check_coordinate_generation(&info, current, Some(3), &at).unwrap_err();
    match err {
        CoreError::StaleCoordinate { given, current, .. } => {
            assert_eq!((given, current), (3, 7));
        }
        other => panic!("expected StaleCoordinate, got {other:?}"),
    }
    // The message has to say what to do, not just that something is wrong.
    let text = check_coordinate_generation(&info, current, Some(3), &at)
        .unwrap_err()
        .message();
    assert!(
        text.contains("get_app_state") && text.contains("nothing about a stale point looks wrong"),
        "must explain why a coordinate needs this guard at all: {text}"
    );
}

#[test]
fn delivery_labels_are_stable() {
    assert_eq!(Delivery::Ax.as_str(), "ax");
    assert_eq!(Delivery::Pid.as_str(), "pid");
    assert_eq!(Delivery::PidNoElement.as_str(), "pid (no element)");
    assert_eq!(Delivery::PidKey.as_str(), "pid (keyboard)");
}

#[test]
fn focus_is_classified_from_the_read_back_not_from_the_write() {
    assert_eq!(classify_focus(Some(true)), FocusState::Verified);
    assert_eq!(classify_focus(Some(false)), FocusState::Mismatched);
    assert_eq!(classify_focus(None), FocusState::Unverified);
}

#[test]
fn focus_labels_are_stable() {
    assert_eq!(FocusState::Verified.as_str(), "verified");
    assert_eq!(FocusState::Unverified.as_str(), "unverified");
    assert_eq!(FocusState::Mismatched.as_str(), "mismatched");
}

#[test]
fn only_mismatched_focus_is_strict_mode_worthy() {
    let refusable = |state| state == FocusState::Mismatched;
    assert!(refusable(FocusState::Mismatched));
    assert!(!refusable(FocusState::Unverified));
    assert!(!refusable(FocusState::Verified));
}

#[test]
fn mechanism_defaults_to_the_accessibility_write() {
    assert_eq!(Mechanism::default(), Mechanism::Ax);
    assert_eq!(Mechanism::parse("ax"), Ok(Mechanism::Ax));
    assert_eq!(Mechanism::parse("keystrokes"), Ok(Mechanism::Keystrokes));
    // Tolerant about shape, not about spelling.
    assert_eq!(Mechanism::parse("  KeyStrokes "), Ok(Mechanism::Keystrokes));
}

#[test]
fn an_unknown_mechanism_is_an_error_rather_than_the_default() {
    let err = Mechanism::parse("keystroke").expect_err("a near-miss must not be accepted");
    assert!(
        err.contains("keystrokes"),
        "the error names the two valid values: {err}"
    );
    assert!(Mechanism::parse("hid").is_err());
    assert!(Mechanism::parse("").is_err());
}

#[test]
fn mechanism_labels_are_stable() {
    assert_eq!(Mechanism::Ax.as_str(), "ax");
    assert_eq!(Mechanism::Keystrokes.as_str(), "keystrokes");
}

#[test]
fn strict_focus_is_off_unless_the_flag_says_otherwise() {
    assert!(!flag_is_on(None), "unset means off — deliver anyway");
    assert!(!flag_is_on(Some("0")));
    assert!(!flag_is_on(Some("")));
    assert!(!flag_is_on(Some("yes")), "only 1/true, so a typo is off");
    assert!(flag_is_on(Some("1")));
    assert!(flag_is_on(Some("true")));
    assert!(flag_is_on(Some("TRUE")));
}

#[test]
fn capability_switches_share_the_session_flag_vocabulary() {
    assert!(flag_is_on(Some("1")));
    assert!(flag_is_on(Some("TRUE")));
    assert!(!flag_is_on(Some("yes")));
    assert!(!flag_is_on(None));
}

#[test]
fn a_window_local_click_is_re_anchored_to_the_window_that_moved() {
    let live = win(7, 42, 500.0, 300.0, 800.0, 600.0);
    let resolved = live_window_for_pid_click(std::slice::from_ref(&live), 7, 42)
        .expect("the window is present and owned by this pid");
    let (x, y) = (120.0, 40.0);
    let f = frame_of(&resolved);
    let screen = (f.x + x, f.y + y);
    assert_eq!(screen, (620.0, 340.0));
    assert!(current(&[live], 7, 42, screen.0, screen.1).is_ok());
}

#[test]
fn a_window_local_click_past_the_windows_size_is_refused() {
    let info = AppInfo {
        name: "Test".into(),
        bundle_id: None,
        pid: 42,
        active: false,
        regular: true,
    };
    let live = win(7, 42, 500.0, 300.0, 800.0, 600.0);
    let mut snapshot = basis(false, post_action_limits(), true, false);
    snapshot.window = Some(live.clone());
    // 900 points across an 800-point-wide window. Adding the origin makes
    // this a perfectly valid *screen* point that happens to be over the
    // window next door, which is precisely the mistake to refuse.
    let inside = holds(frame_of(&live), 500.0 + 900.0, 300.0 + 40.0);
    let pixel = WindowPixel {
        window_id: 7,
        at: spot(900.0, 40.0).rounded,
        negative: false,
        snapshot_id: None,
    };
    let facts = WindowClickFacts {
        routed: true,
        listed: Ok(vec![live]),
        holds: vec![inside],
    };
    let err = plan_window_click(&info, Some(&snapshot), &pixel, &facts)
        .expect_err("a point past the window's width must not be posted")
        .message();
    assert!(err.contains("500,300 800x600"), "got {err}");
    assert_eq!(
        err,
        "cannot click (900, 40) inside window 7 of `Test`: the window is currently 800x600 points, \
         so (900, 40) falls outside it (frame 500,300 800x600)"
    );
}

#[test]
fn a_window_local_click_will_not_borrow_another_apps_window_id() {
    let other_app = win(7, 99, 0.0, 0.0, 800.0, 600.0);
    let err = live_window_for_pid_click(&[other_app], 7, 42)
        .expect_err("a window owned by another pid must fail closed");
    assert!(
        err.contains("does not currently belong to pid 42"),
        "got {err}"
    );
}

#[test]
fn pid_click_failure_promises_no_pointer_fallback() {
    let msg = CoreError::PidClickUnavailable {
        original: "unsupported action: any of [\"AXPress\", \"AXPick\", \"AXConfirm\"]".into(),
        reason: "SLEventPostToPid unavailable".into(),
    }
    .message();
    assert!(
        msg.contains("AXPress"),
        "must keep the original AX error visible: {msg}"
    );
    assert!(msg.contains("will not fall back to moving"), "got {msg}");
    assert!(
        msg.contains("AXShowMenu"),
        "must point at a background-safe alternative too: {msg}"
    );
}

#[test]
fn an_unsupported_ax_verb_does_not_contradict_itself() {
    let msg = CoreError::KeyVerbUnsupported {
        key: "escape".into(),
        verb: "AXCancel",
        available: r#"["AXPress"]"#.into(),
    }
    .message();
    assert!(msg.contains("AXCancel"), "must name the verb: {msg}");
    assert!(
        msg.contains("[\"AXPress\"]"),
        "must list what the element does accept: {msg}"
    );
    assert!(
        !msg.contains("escape work"),
        "must not claim escape works while refusing escape: {msg}"
    );
}

#[test]
fn refusing_a_chord_explains_the_ax_alternatives() {
    let msg = CoreError::KeyNoAccessibilityEquivalent {
        key: "cmd+shift+p".into(),
    }
    .message();
    assert!(msg.contains("does not synthesize shared HID"), "got {msg}");
    assert!(
        msg.contains("AXShowMenu") && msg.contains("return/enter"),
        "must point at background-safe alternatives: {msg}"
    );
}

#[test]
fn presence_maps_to_the_expected_polarity() {
    assert!(Presence::Appears.wants_present());
    assert!(!Presence::Disappears.wants_present());
}

#[test]
fn window_match_prefers_the_frame_the_ax_tree_reported() {
    let windows = vec![
        win(1, 500, 0.0, 0.0, 400.0, 300.0),
        win(2, 500, 100.0, 100.0, 800.0, 600.0),
    ];
    let got = best(&windows, 500, Some(rect(102.0, 99.0, 800.0, 600.0)));
    assert_eq!(
        got.unwrap().id,
        2,
        "a few points of drift must not flip the match"
    );
}

#[test]
fn window_match_ignores_other_processes() {
    let windows = vec![win(1, 999, 0.0, 0.0, 800.0, 600.0)];
    assert!(
        best(&windows, 500, Some(rect(0.0, 0.0, 800.0, 600.0))).is_none(),
        "an identical frame in another app is never the right window"
    );
}

#[test]
fn identical_frames_prefer_the_window_that_is_on_screen() {
    let mut hidden_tab = win(1, 500, 0.0, 0.0, 800.0, 600.0);
    hidden_tab.on_screen = false;
    let visible_tab = win(2, 500, 0.0, 0.0, 800.0, 600.0);
    let windows = vec![hidden_tab, visible_tab];
    assert_eq!(
        best(&windows, 500, Some(rect(0.0, 0.0, 800.0, 600.0)))
            .unwrap()
            .id,
        2
    );
}

#[test]
fn without_an_ax_frame_the_largest_window_wins() {
    let windows = vec![
        win(1, 7, 0.0, 0.0, 100.0, 100.0),
        win(2, 7, 0.0, 0.0, 1200.0, 800.0),
    ];
    assert_eq!(best(&windows, 7, None).unwrap().id, 2);
}

#[test]
fn overlay_windows_are_never_matched() {
    let overlay = at_layer(1, 7, rect(0.0, 0.0, 800.0, 600.0), 25);
    assert!(best(&[overlay], 7, None).is_none());
}

/// The measured KakaoTalk arrangement: a chat window with its hamburger
/// menu open, plus the app's main window and cua-rs's own overlay.
fn kakao_windows() -> Vec<WindowInfo> {
    let chat = win(43899, 34667, 46.0, 86.0, 924.0, 770.0);
    let main = win(42510, 34667, 273.0, 33.0, 599.0, 771.0);
    let menu = at_layer(44501, 34667, rect(938.0, 599.0, 202.0, 318.0), 101);
    let overlay = at_layer(50000, 34667, rect(0.0, 0.0, 400.0, 400.0), 25);
    let other_app_menu = at_layer(60000, 999, rect(10.0, 10.0, 300.0, 300.0), 101);
    vec![chat, main, menu, overlay, other_app_menu]
}

#[test]
fn an_open_menu_is_reported_and_the_ordinary_windows_are_not() {
    let popups = transient_popups(&kakao_windows(), 34667, None);
    assert_eq!(popups.len(), 1, "got {popups:?}");
    assert_eq!(popups[0].id, 44501);
    assert_eq!(popups[0].layer, 101);
    assert_eq!(f64::from_bits(popups[0].frame.width), 202.0);
    assert_eq!(
        popups[0].appeared, None,
        "with nothing to compare against, whether it just opened is unknown, \
             not false"
    );
}

#[test]
fn the_menu_does_not_become_the_window_the_snapshot_is_of() {
    let matched = best(
        &kakao_windows(),
        34667,
        Some(rect(46.0, 86.0, 924.0, 770.0)),
    )
    .expect("a window");
    assert_eq!(matched.id, 43899);
}

#[test]
fn a_menu_opened_by_the_action_is_marked_as_appeared() {
    let before = vec![42510_u32];
    let popups = transient_popups(&kakao_windows(), 34667, Some(&before));
    assert_eq!(popups[0].appeared, Some(true));

    let before = vec![44501_u32];
    let popups = transient_popups(&kakao_windows(), 34667, Some(&before));
    assert_eq!(
        popups[0].appeared,
        Some(false),
        "a menu that was already up was not opened by this action"
    );
}

#[test]
fn stacked_popups_are_reported_topmost_first() {
    let mut windows = kakao_windows();
    // A submenu: same level, opened later, therefore in front.
    windows.push(at_layer(44900, 34667, rect(1100.0, 640.0, 180.0, 200.0), 101));
    // And a higher-level sheet above both.
    windows.push(at_layer(44100, 34667, rect(400.0, 400.0, 300.0, 300.0), 200));
    let ids: Vec<u32> = transient_popups(&windows, 34667, None)
        .iter()
        .map(|p| p.id)
        .collect();
    assert_eq!(
        ids,
        vec![44100, 44900, 44501],
        "level first, then window number newest-first: the head of the list is \
             the one a coordinate will reach"
    );
}

#[test]
fn a_popup_may_be_stamped_on_an_event_but_the_overlay_and_desktop_may_not() {
    let windows = kakao_windows();
    assert_eq!(
        live_window_for_pid_click(&windows, 44501, 34667)
            .expect("the menu is addressable")
            .id,
        44501
    );
    assert!(
        live_window_for_pid_click(&windows, 50000, 34667).is_err(),
        "cua-rs must never route a click into its own overlay"
    );
    assert!(
        live_window_for_pid_click(&windows, 44501, 999).is_err(),
        "another process's menu is not this app's to click"
    );

    let desktop = at_layer(70000, 34667, rect(0.0, 0.0, 1512.0, 982.0), -2147483623);
    assert!(live_window_for_pid_click(&[desktop], 70000, 34667).is_err());
}

#[test]
fn without_an_ax_frame_a_window_on_screen_beats_a_larger_hidden_one() {
    let mut hidden = win(1, 7, 0.0, 0.0, 1200.0, 800.0);
    hidden.on_screen = false;
    let shown = win(2, 7, 0.0, 0.0, 800.0, 600.0);
    let small = win(3, 7, 0.0, 0.0, 300.0, 200.0);
    let windows = vec![hidden.clone(), small, shown];
    assert_eq!(best(&windows, 7, None).unwrap().id, 2);
    assert_eq!(best(&[hidden], 7, None).unwrap().id, 1, "better than none");
}
