use cua_core::apps::AppInfo;
use cua_core::session::error::CoreError;
use cua_core::session::kinds::{Observed, Presence, WaitOutcome};
use cua_core::session::observe::{
    begin_reading, find, find_needs_read, has_settled, have_same_ids, post_action_options,
    read_state_after, record, rendered_current_tree, settle, tree_options, wait_step,
    window_fingerprint, CapturePlan, ReRead, Reading, WaitStep, Watch, WindowAnswer, WindowAnswers,
    WindowPick,
};
use cua_core::session::store::{Limits, ProcessKey, Snapshot, StateOptions, Store};
use cua_core::session::target::{Spot, Target};
use cua_core::session::targeting::{
    aim, live_snapshot_window, resolve, AimFacts,
};
use cua_core::session::windows::{FrameBits, HitFacts, TransientWindow, WindowInfo};
use cua_core::snapshot::AxNode;

fn info(bundle: &str) -> AppInfo {
    AppInfo {
        name: "Chat".into(),
        bundle_id: Some(bundle.into()),
        pid: 42,
        active: false,
        regular: true,
    }
}

fn limits() -> Limits {
    Limits { max_nodes: 100, max_depth: 10, budget_ms: 10_000 }
}

fn key() -> ProcessKey {
    ProcessKey::for_pid(42, Some(9))
}

fn node(index: usize, role: &str, label: &str) -> AxNode {
    AxNode {
        index,
        depth: 0,
        parent: None,
        role: role.into(),
        subrole: None,
        label: Some(label.into()),
        value: None,
        help: None,
        frame: None,
        enabled: true,
        focused: false,
        selected: false,
        actionable: true,
        settable: false,
    }
}

fn window(id: u32, popup: bool) -> WindowInfo {
    WindowInfo {
        id,
        title: Some("Inbox".into()),
        pid: 42,
        frame: FrameBits { x: 1, y: 2, width: 3, height: 4 },
        frame_text: "10,20 800x600".into(),
        size_text: "800x600".into(),
        area: 480_000,
        on_screen: true,
        layer: if popup { 101 } else { 0 },
        plausible: !popup,
        addressable: true,
        popup,
    }
}

fn snapshot() -> Snapshot {
    Snapshot {
        id: 5,
        nodes: vec![node(0, "AXButton", "Send"), node(1, "AXButton", "Cancel")],
        window: Some(window(7, false)),
        process_key: key(),
        scoped: false,
        limits: limits(),
        complete: true,
        acted_on: false,
        popups: Vec::new(),
    }
}

fn reading(opts: StateOptions) -> Reading {
    begin_reading(info("com.example.chat"), opts, key(), true, false)
}

// -- reading an app -----------------------------------------------------------

#[test]
fn a_forbidden_app_is_read_without_pixels() {
    let opts = StateOptions::usual(limits());
    let r = begin_reading(info("com.apple.keychainaccess"), opts, key(), false, false);
    assert!(!r.opts.include_screenshot);
    assert_eq!(r.warnings.len(), 1);
    let allowed = begin_reading(info("com.apple.keychainaccess"), opts, key(), false, true);
    assert!(allowed.opts.include_screenshot && allowed.warnings.is_empty());
    let quiet = begin_reading(info("com.apple.keychainaccess"), tree_options(limits()), key(), false, false);
    assert!(quiet.warnings.is_empty(), "nobody asked for pixels");
    assert!(reading(opts).opts.include_screenshot);
}

fn said(focused: WindowAnswer, main: WindowAnswer, listed: WindowAnswer) -> WindowAnswers {
    WindowAnswers { focused, main, listed }
}

#[test]
fn the_focused_window_is_read_first() {
    let (there, missing, silent) =
        (WindowAnswer::There, WindowAnswer::Missing, WindowAnswer::NoAnswer);
    let r = reading(StateOptions::usual(limits()));
    let pick = |a, b, c, again| r.choose_window(said(a, b, c), again);
    assert_eq!(pick(there, there, there, false).unwrap(), WindowPick::Focused);
    assert_eq!(pick(missing, there, there, false).unwrap(), WindowPick::Main);
    assert_eq!(pick(silent, missing, there, false).unwrap(), WindowPick::First);
    assert_eq!(pick(silent, missing, missing, false).unwrap(), WindowPick::AskAgain);
    assert!(matches!(
        pick(missing, missing, silent, true),
        Err(CoreError::WindowQueryTimedOut { .. })
    ));
    assert!(matches!(pick(missing, missing, missing, true), Err(CoreError::NoWindow { .. })));
}

#[test]
fn a_scoped_walk_starts_at_an_element_of_the_last_read() {
    let mut opts = StateOptions::usual(limits());
    assert_eq!(reading(opts).choose_root(None).unwrap(), None);
    opts.scope = Some(1);
    let s = snapshot();
    assert_eq!(reading(opts).choose_root(Some(&s)).unwrap(), Some(1));
    assert!(matches!(reading(opts).choose_root(None), Err(CoreError::NoSnapshot { .. })));
    let mut relaunched = snapshot();
    relaunched.process_key = ProcessKey::for_pid(42, Some(10));
    assert!(matches!(
        reading(opts).choose_root(Some(&relaunched)),
        Err(CoreError::ProcessReplaced { .. })
    ));
    opts.scope = Some(2);
    assert!(matches!(
        reading(opts).choose_root(Some(&s)),
        Err(CoreError::BadIndex { index: 2, count: 2 })
    ));
}

#[test]
fn a_walk_is_noted_where_it_is_small_or_not_whole() {
    let mut r = reading(StateOptions::usual(limits()));
    r.note_walk(19, true, "10");
    assert_eq!(r.warnings.len(), 1);
    assert!(r.warnings[0].starts_with("only 19 elements on the first read of this app. Chromium"));

    let mut r = reading(StateOptions::usual(limits()));
    r.first_read = false;
    r.note_walk(19, true, "10");
    assert!(r.warnings.is_empty());
    r.note_walk(100, false, "10");
    assert_eq!(
        r.warnings,
        ["tree truncated at 100 elements; pass a larger max_nodes or narrow the target"]
    );
    r.note_walk(42, false, "10");
    assert!(
        r.warnings[1].starts_with(
            "tree is INCOMPLETE: the walk hit its 10s time budget after 42 elements, so anything"
        ),
        "{}",
        r.warnings[1]
    );
}

#[test]
fn a_list_of_windows_gives_the_window_and_what_is_above_it() {
    let mut r = reading(StateOptions::usual(limits()));
    let (w, up) = r.note_windows(&Ok(vec![window(7, false), window(8, true)]), None);
    assert_eq!((w.unwrap().id, up.len(), up[0].id), (7, 1, 8));
    assert!(r.warnings[0].starts_with("this app has 1 window(s) open above its content"));
    let (w, up) = r.note_windows(&Err("denied".into()), None);
    assert!(w.is_none() && up.is_empty());
    assert_eq!(r.warnings[1], "denied");
}

#[test]
fn a_capture_needs_a_window() {
    let mut r = reading(StateOptions::usual(limits()));
    assert_eq!(
        r.plan_capture(&Some(window(7, false))),
        CapturePlan::Capture { window: 7, max_image_dim: 1400 }
    );
    assert!(r.warnings.is_empty());
    assert_eq!(r.plan_capture(&None), CapturePlan::Skip);
    assert_eq!(r.warnings, ["could not identify a capturable window for this app"]);
    let mut quiet = reading(tree_options(limits()));
    assert_eq!(quiet.plan_capture(&None), CapturePlan::Skip);
    assert!(quiet.warnings.is_empty());
    r.note_capture_failure("timed out", &[node(0, "AXMenu", "m")]);
    assert_eq!(r.warnings[1], "timed out");
}

#[test]
fn a_read_takes_the_place_of_the_one_before() {
    let mut store = Store::default();
    assert!(store.note_read(key()));
    assert!(!store.note_read(key()));
    assert_eq!(store.enabled.len(), 1, "no process is noted twice");
    let nodes = vec![node(0, "AXButton", "Send")];
    let first = record(
        &mut store,
        reading(tree_options(limits())),
        nodes.clone(),
        true,
        Some(window(7, false)),
        Vec::new(),
        None,
    );
    assert_eq!((first.snapshot_id, first.node_count, first.actionable_count), (1, 1, 1));
    assert_eq!(first.window_title.as_deref(), Some("Inbox"));
    assert_eq!(first.window_id, Some(7));
    assert!(first.tree.contains("[0] AXButton \"Send\""));
    assert_eq!(store.overlay_target(42), Some((7, 42)));

    let ax = FrameBits { x: 9, y: 9, width: 9, height: 9 };
    let second = record(
        &mut store,
        reading(tree_options(limits())),
        nodes,
        false,
        None,
        Vec::new(),
        Some(ax),
    );
    assert_eq!((second.snapshot_id, second.window_id), (2, None));
    assert_eq!(second.window_frame, Some(ax));
    assert!(!store.get(42).unwrap().complete);
    assert_eq!(store.overlay_target(42), None);

    // What was cited before the second read is refused now.
    let cite = |id: u64| Target::Index { index: 0, snapshot_id: Some(id), expected_role: None };
    assert!(resolve(&info("x"), store.get(42), key(), &cite(2), &[]).is_ok());
    assert!(matches!(
        resolve(&info("x"), store.get(42), key(), &cite(1), &[]),
        Err(CoreError::StaleSnapshot { index: 0, given: 1, current: 2 })
    ));
}

// -- resolving ----------------------------------------------------------------

fn spot() -> Spot {
    Spot { exact: "(12.5, 40)".into(), rounded: "(12, 40)".into() }
}

fn over(covers: bool) -> HitFacts {
    HitFacts { covers, actionable: true, area: 1, depth: 0 }
}

#[test]
fn a_target_is_resolved_or_refused_for_its_reason() {
    let s = snapshot();
    let at = |t: &Target, hits: &[HitFacts]| resolve(&info("x"), Some(&s), key(), t, hits);
    let index = |i: usize, role: Option<&str>| Target::Index {
        index: i,
        snapshot_id: None,
        expected_role: role.map(str::to_string),
    };
    let (i, name) = at(&index(1, Some("AXButton")), &[]).unwrap();
    assert_eq!((i, name.contains("Cancel")), (1, true));
    assert!(matches!(at(&index(9, None), &[]), Err(CoreError::BadIndex { .. })));
    assert!(matches!(
        at(&index(1, Some("AXCell")), &[]),
        Err(CoreError::TokenRoleMismatch { index: 1, .. })
    ));
    let here = Target::Point { at: spot(), snapshot_id: Some(5) };
    let (i, name) = at(&here, &[over(false), over(true)]).unwrap();
    assert_eq!((i, name.ends_with(" at (12.5, 40)")), (1, true));
    assert!(matches!(
        at(&here, &[over(false), over(false)]),
        Err(CoreError::NoElementAtPoint { .. })
    ));
    let old = Target::Point { at: spot(), snapshot_id: Some(4) };
    assert!(matches!(
        at(&old, &[over(true), over(true)]),
        Err(CoreError::StaleCoordinate { given: 4, current: 5, .. })
    ));
    assert!(matches!(
        resolve(&info("x"), None, key(), &index(0, None), &[]),
        Err(CoreError::NoSnapshot { .. })
    ));
    assert!(matches!(
        resolve(&info("x"), Some(&s), ProcessKey::for_pid(42, None), &index(0, None), &[]),
        Err(CoreError::ProcessReplaced { .. })
    ));
}

#[test]
fn an_index_survives_an_action_and_a_point_does_not() {
    let mut store = Store::default();
    store.put(42, snapshot());
    store.mark_acted(42);
    let hits = [over(true), over(true)];
    let index = Target::Index { index: 0, snapshot_id: Some(5), expected_role: None };
    assert!(resolve(&info("x"), store.get(42), key(), &index, &[]).is_ok());
    let point = Target::Point { at: spot(), snapshot_id: Some(5) };
    assert!(matches!(
        resolve(&info("x"), store.get(42), key(), &point, &hits),
        Err(CoreError::StalePointGeometry { .. })
    ));
    assert!(find_needs_read(store.get(42)));
}

#[test]
fn a_gesture_is_pinned_to_the_live_window_that_was_read() {
    let s = snapshot();
    let listed = Ok(vec![window(7, false), window(9, false)]);
    assert_eq!(live_snapshot_window(&info("x"), Some(&s), &listed).unwrap().id, 7);
    assert!(live_snapshot_window(&info("x"), None, &listed)
        .unwrap_err()
        .contains("no verified window"));
    assert_eq!(
        live_snapshot_window(&info("x"), Some(&s), &Err("denied".into())).unwrap_err(),
        "could not revalidate the window before input: denied"
    );
    assert!(live_snapshot_window(&info("x"), Some(&s), &Ok(vec![window(9, false)]))
        .unwrap_err()
        .contains("does not currently belong to pid 42"));
}

#[test]
fn an_aim_is_an_element_or_a_pixel_inside_the_window() {
    let s = snapshot();
    let live = window(7, false);
    let at = |facts: AimFacts, cited: Option<u64>, inside: bool| {
        aim(&info("x"), Some(&s), &live, facts, cited, "(12, 40)", inside)
    };
    let element = |has_point: bool| AimFacts::Element { resolved: Ok("row".into()), has_point };
    let pixel = |negative: bool| AimFacts::Pixel { local: "(3, 4)".into(), negative };
    let a = at(element(true), None, true).unwrap();
    assert_eq!((a.desc.as_str(), a.from_element), ("row", true));
    assert_eq!(
        at(element(false), None, true).unwrap_err(),
        "row publishes neither AXActivationPoint nor AXFrame, so there is no point to aim at"
    );
    let failed = AimFacts::Element {
        resolved: Err(CoreError::NoSnapshot { app: "Chat".into() }),
        has_point: true,
    };
    assert!(at(failed, None, true).unwrap_err().contains("no snapshot for `Chat` yet"));
    let a = at(pixel(false), Some(5), true).unwrap();
    assert_eq!(a.desc, "window-local (3, 4) — no element, the caller aimed this");
    assert!(!a.from_element);
    assert!(at(pixel(true), None, true).unwrap_err().contains("can be negative"));
    assert!(at(pixel(false), Some(4), true).unwrap_err().contains("snapshot 4"));
    assert!(at(pixel(false), None, false)
        .unwrap_err()
        .starts_with("(12, 40) is outside the current frame of window 7 (10,20 800x600); a gesture"));
}

// -- after an action ----------------------------------------------------------

fn reread(window: Option<u32>, tree: &str) -> Result<ReRead, CoreError> {
    Ok(ReRead { snapshot_id: 6, tree: tree.into(), node_count: 2, window })
}

#[test]
fn the_options_after_an_action_leave_out_prose_and_pixels() {
    let o = post_action_options(limits());
    assert!(!o.include_screenshot && !o.render.note_omissions && o.scope.is_none());
    assert_eq!(o.limits, limits());
    let t = tree_options(limits());
    assert!(!t.include_screenshot && t.render.note_omissions);
}

#[test]
fn a_basis_is_rendered_or_its_absence_explained() {
    let s = snapshot();
    let (tree, w) = rendered_current_tree(true, Some(&s), limits()).unwrap();
    assert_eq!(w, Some(7));
    assert_eq!(tree, "[0] AXButton \"Send\"\n[1] AXButton \"Cancel\"\n");
    assert_eq!(
        rendered_current_tree(false, None, limits()),
        Err("this app could not be resolved before the action")
    );
    assert_eq!(
        rendered_current_tree(true, None, limits()),
        Err("this app had no previous snapshot to diff against")
    );
    let mut scoped = snapshot();
    scoped.scoped = true;
    assert!(rendered_current_tree(true, Some(&scoped), limits()).is_err());
}

#[test]
fn the_same_window_gives_a_difference() {
    let before = Ok(("a\nb\n".to_string(), Some(7)));
    let r = read_state_after(before, reread(Some(7), "a\nc\n"));
    let d = r.diff.unwrap();
    assert_eq!((d.added, d.removed), (vec!["c".to_string()], vec!["b".to_string()]));
    assert_eq!((r.snapshot_id, r.node_count, r.note), (Some(6), 2, None));
}

#[test]
fn other_or_unknown_windows_give_a_reason_instead() {
    let note = |before: Option<u32>, after: Option<u32>| {
        let r = read_state_after(Ok(("a\n".into(), before)), reread(after, "a\n"));
        assert!(r.diff.is_none());
        r.note.unwrap()
    };
    assert!(note(Some(7), Some(8)).starts_with("the window this app is showing is not the one"));
    assert!(note(None, None).starts_with("this app's window could not be identified"));
    assert!(note(Some(7), None).ends_with("call get_app_state to read it"));
    let r = read_state_after(Err("no basis"), reread(Some(7), "a\n"));
    assert_eq!(
        r.note.unwrap(),
        "no basis. The full tree is at the snapshot_id above; call get_app_state to read it"
    );
}

#[test]
fn a_failed_reread_is_reported() {
    let r = read_state_after(
        Ok(("a\n".into(), Some(7))),
        Err(CoreError::NoWindow { app: "Chat".into() }),
    );
    assert_eq!((r.snapshot_id, r.node_count, r.diff.is_none()), (None, 0, true));
    let note = r.note.unwrap();
    assert!(note.starts_with("the action ran, but the window could not be read afterwards"));
    assert!(note.contains("`Chat` has no accessibility window"), "{note}");
}

// -- searching and waiting ----------------------------------------------------

#[test]
fn a_search_answers_from_the_snapshot_it_cites() {
    let s = snapshot();
    assert!(!find_needs_read(Some(&s)) && find_needs_read(None));
    let r = find(&info("x"), Some(&s), "send", 10).unwrap();
    assert_eq!((r.snapshot_id, r.total, r.searched, r.lines.len()), (5, 1, 2, 1));
    assert!(matches!(find(&info("x"), None, "send", 10), Err(CoreError::NoSnapshot { .. })));
}

#[test]
fn a_wait_ends_when_it_is_satisfied_or_out_of_time() {
    let step = |tree: &str, want: Presence, left: u64| wait_step(tree, "Done", want, 3, 6, left, 1000);
    assert_eq!(
        step("All Done", Presence::Appears, 400),
        WaitStep::Done(WaitOutcome { satisfied: true, polls: 3, snapshot_id: 6, elapsed_ms: 600 })
    );
    assert_eq!(step("Busy", Presence::Appears, 400), WaitStep::SleepMs(250));
    assert_eq!(
        step("Busy", Presence::Appears, 0),
        WaitStep::Done(WaitOutcome { satisfied: false, polls: 3, snapshot_id: 6, elapsed_ms: 1000 })
    );
    assert!(matches!(
        step("Busy", Presence::Disappears, 0),
        WaitStep::Done(WaitOutcome { satisfied: true, .. })
    ));
}

// -- settling -----------------------------------------------------------------

#[test]
fn silence_is_not_a_fingerprint() {
    let s = |t: &str| Some(t.to_string());
    assert_eq!(window_fingerprint(&None, &None, &None), None);
    assert_eq!(window_fingerprint(&s(""), &s(""), &None), None);
    assert_eq!(window_fingerprint(&s("Inbox"), &None, &s("To")).as_deref(), Some("Inbox||To"));
}

fn watch(fingerprint: Option<&str>, popups: Option<Vec<u32>>) -> Watch {
    Watch { fingerprint: fingerprint.map(str::to_string), popups }
}

#[test]
fn a_difference_ends_the_settling() {
    let w = watch(Some("a"), None);
    let now = |t: &str| Some(t.to_string());
    assert!(has_settled(&w, &now("b"), 16, 120));
    assert!(!has_settled(&w, &now("a"), 16, 120));
    assert!(!has_settled(&w, &None, 16, 120));
    assert!(has_settled(&w, &None, 120, 120));
    assert!(has_settled(&watch(None, None), &now("a"), 16, 120));
}

#[test]
fn what_moved_is_told_from_both_observations() {
    let windows = [window(7, false), window(8, true)];
    let now = |t: &str| Some(t.to_string());
    let r = settle(watch(Some("a"), None), now("a"), &windows, 42);
    assert_eq!((r.changed, r.popups.len()), (Observed::Unchanged, 1));
    let r = settle(watch(Some("a"), None), now("b"), &windows, 42);
    assert_eq!(r.changed, Observed::Changed);
    let r = settle(watch(Some("a"), None), None, &windows, 42);
    assert_eq!(r.changed, Observed::Unknown);
    let r = settle(watch(Some("a"), Some(vec![8])), now("a"), &windows, 42);
    assert_eq!((r.changed, r.popups[0].appeared), (Observed::Unchanged, Some(false)));
    let r = settle(watch(None, Some(vec![])), None, &windows, 42);
    assert_eq!((r.changed, r.popups[0].appeared), (Observed::Changed, Some(true)));
    let r = settle(watch(Some("a"), Some(vec![8])), now("a"), &[], 42);
    assert_eq!(r.changed, Observed::Changed, "a menu that closed is an event too");
}

#[test]
fn ids_are_compared_without_their_order() {
    assert!(have_same_ids(&vec![1, 2, 2], &vec![2, 1, 2]));
    assert!(!have_same_ids(&vec![1, 2, 2], &vec![1, 1, 2]));
    assert!(!have_same_ids(&vec![], &vec![1]));
}

#[test]
fn a_watch_starts_from_the_last_read() {
    let mut s = snapshot();
    s.popups = vec![TransientWindow {
        id: 8,
        layer: 101,
        frame: FrameBits { x: 0, y: 0, width: 0, height: 0 },
        appeared: None,
    }];
    assert_eq!(Watch::start(None, Some(&s)).popups, Some(vec![8]));
    assert_eq!(Watch::start(None, None).popups, None);
    let fresh = Watch::start(Some("a".into()), None).with_windows(&[window(9, true)], 42);
    assert_eq!((fresh.fingerprint.as_deref(), fresh.popups), (Some("a"), Some(vec![9])));
}
