use cua_core::apps::AppInfo;
use cua_core::menubar::{MenuItem, MenuListing, MenuWalkError};
use cua_core::overlay::{mark, overlay_step, OverlayStep};
use cua_core::session::actions::keyboard::{
    clear_key, enforce_strict_focus, key_route, key_verb_name, press_key, require_route,
    require_verb, KeyRoute,
};
use cua_core::session::actions::menu::{
    menu_bar, perform_action, plan_menu_press, press_menu_bar, require_action, require_enabled,
    LandedRow,
};
use cua_core::session::actions::pointer::{
    after_ax_click, click_in_window, click_route, counterpart, drag, expected_tokens, finish_click,
    hover, pid_click_result, plan_drag, plan_hover, plan_pid_click, plan_window_click,
    window_focus_assist, ActivationFacts, AfterAx, AxAttempt, ClickRoute, DragFacts, FrameMatch,
    PidClickFacts, PidFailure, PlannedDrag, WindowClickFacts, WindowPixel,
};
use cua_core::session::actions::scroll::{
    plan_wheel, scroll, wheel_points, wheel_scroll, PlannedWheel, WheelFacts,
};
use cua_core::session::actions::write::{
    clear_keystroke_focus, clear_keystrokes, select_text, set_value, type_text,
    type_text_as_keystrokes,
};
use cua_core::session::actions::{ax_action, conclude, ActionResult};
use cua_core::session::delivery::{
    keyboard_capability, pointer_capability, scroll_capability, KeyboardStrategy, PointerStrategy,
};
use cua_core::session::error::CoreError;
use cua_core::session::kinds::{
    check_focus, describe_element, Delivery, FocusCheck, FocusState, Modifiers, MouseOptions,
    Observed, ScrollAmount, ScrollDir,
};
use cua_core::session::observe::{PostActionState, Settled};
use cua_core::session::requests::Request;
use cua_core::session::store::{Limits, ProcessKey, Snapshot, Store};
use cua_core::session::target::{Spot, Target};
use cua_core::session::targeting::{PointerAim, PointerLocation};
use cua_core::session::windows::{FrameBits, PointBits, TransientWindow, WindowInfo};
use cua_core::snapshot::AxNode;

fn info() -> AppInfo {
    AppInfo {
        name: "Chat".into(),
        bundle_id: None,
        pid: 42,
        active: false,
        regular: true,
    }
}

fn window(id: u32, pid: i32, popup: bool) -> WindowInfo {
    WindowInfo {
        id,
        title: None,
        pid,
        frame: FrameBits { x: 0, y: 0, width: 0, height: 0 },
        frame_text: "10,20 800x600".into(),
        size_text: "800x600".into(),
        area: 480_000,
        on_screen: true,
        layer: if popup { 101 } else { 0 },
        plausible: !popup,
        addressable: true,
        popup,
    }
}

fn node(index: usize, label: &str) -> AxNode {
    AxNode {
        index,
        depth: 0,
        parent: None,
        role: "AXRow".into(),
        subrole: None,
        label: Some(label.into()),
        value: None,
        help: None,
        frame: None,
        enabled: true,
        focused: false,
        selected: false,
        actionable: true,
        settable: false,
    }
}

fn snapshot(window: Option<WindowInfo>) -> Snapshot {
    Snapshot {
        id: 5,
        nodes: vec![node(0, "Alice"), node(1, "Bob")],
        window,
        process_key: ProcessKey::for_pid(42, Some(9)),
        scoped: false,
        limits: Limits { max_nodes: 100, max_depth: 10, budget_ms: 1000 },
        complete: true,
        acted_on: false,
        popups: Vec::new(),
    }
}

fn index(index: usize) -> Target {
    Target::Index { index, snapshot_id: None, expected_role: None }
}

fn point() -> PointBits {
    PointBits { x: 1, y: 2 }
}

fn settled() -> Settled {
    Settled {
        changed: Observed::Changed,
        popups: vec![TransientWindow {
            id: 8,
            layer: 101,
            frame: FrameBits { x: 0, y: 0, width: 0, height: 0 },
            appeared: Some(true),
        }],
    }
}

fn aim(desc: &str, from_element: bool) -> PointerAim {
    PointerAim { desc: desc.into(), from_element }
}

fn focus(state: FocusState) -> FocusCheck {
    FocusCheck {
        state,
        focus_write_accepted: true,
        focus_write_error: None,
        focused_instead: Some("AXTextField \"Search\"".into()),
    }
}

fn click_facts() -> PidClickFacts {
    PidClickFacts {
        has_point: true,
        routed: true,
        expected: Some((0, vec!["Alice".into()])),
        found: vec!["Alice".into(), "online".into()],
        listed: Ok(vec![window(7, 42, false)]),
        holds: vec![true],
        at: "(12, 40)".into(),
    }
}

fn reason(f: PidFailure) -> String {
    match f {
        PidFailure::Retryable(why) => why,
        PidFailure::Fatal(e) => panic!("fatal: {e:?}"),
    }
}

// -- switches -----------------------------------------------------------------

#[test]
fn switches_choose_the_routes() {
    assert_eq!(pointer_capability(None).strategy, PointerStrategy::PidOnly);
    assert_eq!(pointer_capability(Some("1")).strategy, PointerStrategy::AxFirst);
    let usual = keyboard_capability(None, None);
    assert_eq!((usual.strategy, usual.strict_focus), (KeyboardStrategy::Pid, false));
    let strict = keyboard_capability(Some("true"), Some("1"));
    assert_eq!((strict.strategy, strict.strict_focus), (KeyboardStrategy::AxOnly, true));
    assert!(!scroll_capability(Some("0")).wheel_enabled);
    assert!(scroll_capability(Some("TRUE")).wheel_enabled);
}

// -- clicks -------------------------------------------------------------------

#[test]
fn accessibility_is_tried_first_only_for_a_plain_click() {
    let first = pointer_capability(Some("1"));
    let usual = pointer_capability(None);
    assert_eq!(click_route(usual, &MouseOptions::default()), ClickRoute::Pid);
    assert_eq!(click_route(first, &MouseOptions::default()), ClickRoute::Ax);
    assert_eq!(click_route(first, &MouseOptions::default().with_count(2)), ClickRoute::Pid);
    let right = MouseOptions { button: "right".into(), modifiers: Modifiers::empty(), count: 1 };
    assert_eq!(click_route(first, &right), ClickRoute::Pid);
    let mut held = MouseOptions::default();
    held.modifiers.command = true;
    assert_eq!(click_route(first, &held), ClickRoute::Pid);
}

#[test]
fn a_click_expects_what_its_index_showed() {
    let s = snapshot(None);
    assert_eq!(expected_tokens(&index(1), Some(&s)), Some((1, vec!["Bob".to_string()])));
    assert_eq!(expected_tokens(&index(1), None), None);
    let at = Spot { exact: "(1, 2)".into(), rounded: "(1, 2)".into() };
    assert_eq!(expected_tokens(&Target::Point { at, snapshot_id: None }, Some(&s)), None);
}

#[test]
fn a_click_goes_to_the_window_that_was_read() {
    let s = snapshot(Some(window(7, 42, false)));
    let w = plan_pid_click(&info(), Some(&s), &click_facts()).unwrap();
    assert_eq!(w.id, 7);
}

#[test]
fn a_stale_element_is_fatal() {
    let s = snapshot(Some(window(7, 42, false)));
    let mut facts = click_facts();
    facts.found = vec!["Bob".into()];
    let failure = plan_pid_click(&info(), Some(&s), &facts).unwrap_err();
    for original in [None, Some("no verb".to_string())] {
        let tried: Result<ActionResult, PidFailure> = Err(failure.clone());
        match finish_click(original, tried).unwrap_err() {
            CoreError::TargetChanged { index, expected, found } => {
                assert_eq!(index, 0);
                assert_eq!(expected, "[\"Alice\"]");
                assert_eq!(found, "[\"Bob\"]");
            }
            other => panic!("expected TargetChanged, got {other:?}"),
        }
    }
}

#[test]
fn a_click_that_cannot_be_routed_says_why() {
    let s = snapshot(Some(window(7, 42, false)));
    let mut facts = click_facts();
    facts.has_point = false;
    let why = reason(plan_pid_click(&info(), Some(&s), &facts).unwrap_err());
    assert_eq!(why, "the element publishes neither AXActivationPoint nor AXFrame");

    let mut facts = click_facts();
    facts.routed = false;
    let why = reason(plan_pid_click(&info(), Some(&s), &facts).unwrap_err());
    assert_eq!(why, "SLEventPostToPid is not available on this macOS version");

    let why = reason(plan_pid_click(&info(), Some(&snapshot(None)), &click_facts()).unwrap_err());
    assert!(why.contains("no verified ScreenCaptureKit window id"), "{why}");

    let mut facts = click_facts();
    facts.listed = Err("denied".into());
    facts.holds = Vec::new();
    let why = reason(plan_pid_click(&info(), Some(&s), &facts).unwrap_err());
    assert_eq!(
        why,
        "could not revalidate the target window immediately before input: denied"
    );

    let mut facts = click_facts();
    facts.holds = vec![false];
    let why = reason(plan_pid_click(&info(), Some(&s), &facts).unwrap_err());
    assert_eq!(
        why,
        "target point (12, 40) is outside the current frame of window 7 (10,20 800x600); the AX \
         element and window snapshot drifted apart. Call get_app_state again"
    );
}

#[test]
fn a_click_reports_what_landed() {
    let r = pid_click_result(
        &info(),
        "AXRow \"Alice\"".into(),
        &MouseOptions::default().with_count(2),
        7,
        "(12, 40)",
        point(),
        Ok(settled()),
    )
    .unwrap();
    assert_eq!(r.verb, "SkyLight pid-routed 2-click (left) at (12, 40)");
    assert_eq!(r.target, "AXRow \"Alice\"");
    assert_eq!(r.delivery, Delivery::Pid);
    assert_eq!(r.overlay_target, Some((7, 42)));
    assert_eq!(r.point, Some(point()));
    assert_eq!(r.ui_changed, Observed::Changed);
    assert_eq!(r.popups[0].id, 8);
    assert!(r.state.is_none() && r.focus.is_none());
}

#[test]
fn a_failed_click_is_reported_by_the_route_it_took() {
    let failed = || -> Result<ActionResult, PidFailure> {
        pid_click_result(
            &info(),
            String::new(),
            &MouseOptions::default(),
            7,
            "",
            point(),
            Err("refused".into()),
        )
    };
    match finish_click(None, failed()).unwrap_err() {
        CoreError::PidClickFailed { reason } => assert_eq!(reason, "refused"),
        other => panic!("expected PidClickFailed, got {other:?}"),
    }
    match finish_click(Some("no AXPress".into()), failed()).unwrap_err() {
        CoreError::PidClickUnavailable { original, reason } => {
            assert_eq!((original.as_str(), reason.as_str()), ("no AXPress", "refused"));
        }
        other => panic!("expected PidClickUnavailable, got {other:?}"),
    }
}

#[test]
fn only_a_missing_verb_is_tried_on_the_other_route() {
    assert!(matches!(
        after_ax_click(AxAttempt::Landed("AXPress".into())),
        AfterAx::Report(v) if v == "AXPress"
    ));
    assert!(matches!(
        after_ax_click(AxAttempt::Unsupported("none".into())),
        AfterAx::TryPid(w) if w == "none"
    ));
    assert!(matches!(
        after_ax_click(AxAttempt::Failed("busy".into())),
        AfterAx::Stop(CoreError::Ax(w)) if w == "busy"
    ));
}

fn pixel(window_id: u32) -> WindowPixel {
    WindowPixel { window_id, at: "(3, 4)".into(), negative: false, snapshot_id: Some(5) }
}

fn pixel_facts() -> WindowClickFacts {
    WindowClickFacts {
        routed: true,
        listed: Ok(vec![window(7, 42, false), window(8, 42, true), window(9, 43, true)]),
        holds: vec![true, true, true],
    }
}

fn pixel_refusal(s: Option<&Snapshot>, p: &WindowPixel, f: &WindowClickFacts) -> String {
    match plan_window_click(&info(), s, p, f).unwrap_err() {
        CoreError::WindowClickRefused { reason, .. } => reason,
        other => panic!("expected WindowClickRefused, got {other:?}"),
    }
}

#[test]
fn a_pixel_may_be_clicked_in_the_window_that_was_read_or_a_popup() {
    let s = snapshot(Some(window(7, 42, false)));
    let (w, popup) = plan_window_click(&info(), Some(&s), &pixel(7), &pixel_facts()).unwrap();
    assert_eq!((w.id, popup), (7, false));
    let (w, popup) = plan_window_click(&info(), Some(&s), &pixel(8), &pixel_facts()).unwrap();
    assert_eq!((w.id, popup), (8, true));
}

#[test]
fn a_pixel_is_refused_anywhere_else() {
    let s = snapshot(Some(window(7, 42, false)));
    assert_eq!(
        pixel_refusal(Some(&s), &pixel(9), &pixel_facts()),
        "the last get_app_state of this app read window 7, not 9, and 9 is not a pop-up this app \
         currently has open. Read the window you mean to click first"
    );
    let unread = snapshot(None);
    assert!(pixel_refusal(Some(&unread), &pixel(8), &pixel_facts())
        .starts_with("no verified window has been read"));

    let mut negative = pixel(7);
    negative.negative = true;
    assert!(pixel_refusal(Some(&s), &negative, &pixel_facts()).contains("neither can be negative"));

    let mut facts = pixel_facts();
    facts.routed = false;
    assert!(pixel_refusal(Some(&s), &pixel(7), &facts).contains("moving the real pointer"));

    let mut facts = pixel_facts();
    facts.listed = Err("denied".into());
    assert_eq!(
        pixel_refusal(Some(&s), &pixel(7), &facts),
        "could not revalidate the window before input: denied"
    );

    let mut facts = pixel_facts();
    facts.listed = Ok(Vec::new());
    facts.holds = Vec::new();
    assert!(pixel_refusal(Some(&s), &pixel(7), &facts).contains("does not currently belong"));
}

#[test]
fn a_pixel_from_a_replaced_snapshot_is_refused_first() {
    let s = snapshot(Some(window(7, 42, false)));
    let mut old = pixel(7);
    old.snapshot_id = Some(4);
    assert!(matches!(
        plan_window_click(&info(), Some(&s), &old, &pixel_facts()),
        Err(CoreError::StaleCoordinate { given: 4, current: 5, .. })
    ));
    assert!(matches!(
        plan_window_click(&info(), None, &old, &pixel_facts()),
        Err(CoreError::NoSnapshot { .. })
    ));
}

#[test]
fn a_clicked_pixel_claims_no_element() {
    let mouse = MouseOptions::default();
    let r = click_in_window(&info(), &pixel(8), &mouse, true, point(), Ok(settled())).unwrap();
    assert_eq!(r.verb, "SkyLight pid-routed 1-click (left) at window-local (3, 4)");
    assert_eq!(
        r.target,
        "window 8 of Chat, a pop-up accessibility cannot see into at no element — the caller aimed \
         this"
    );
    assert_eq!(r.delivery, Delivery::PidNoElement);
    let r = click_in_window(&info(), &pixel(7), &mouse, false, point(), Ok(settled())).unwrap();
    assert_eq!(r.target, "window 7 of Chat at no element — the caller aimed this");
    let e = click_in_window(&info(), &pixel(7), &mouse, false, point(), Err("no".into()))
        .unwrap_err();
    assert_eq!(e.message(), "cannot click (3, 4) inside window 7 of `Chat`: no");
}

// -- drags and hovers ---------------------------------------------------------

fn drag_facts() -> DragFacts {
    DragFacts {
        routed: true,
        live: Ok(window(7, 42, false)),
        origin: Ok(aim("AXRow \"Alice\"", true)),
        destination: Ok(aim("window-local (9, 9)", false)),
        same_point: false,
        at: "(1, 1)".into(),
    }
}

fn drag_reason(facts: DragFacts) -> String {
    let (from, to) = (PointerLocation::Element(index(0)), PointerLocation::Element(index(1)));
    match plan_drag(&info(), &from, &to, facts).unwrap_err() {
        CoreError::DragRefused { app, from, to, reason } => {
            assert_eq!((app.as_str(), from.as_str(), to.as_str()), ("Chat", "element 0", "element 1"));
            reason
        }
        other => panic!("expected DragRefused, got {other:?}"),
    }
}

#[test]
fn a_drag_is_refused_for_the_first_thing_that_fails() {
    assert!(drag_reason(DragFacts { routed: false, ..drag_facts() }).contains("real pointer"));
    assert_eq!(drag_reason(DragFacts { live: Err("w".into()), ..drag_facts() }), "w");
    assert_eq!(
        drag_reason(DragFacts {
            origin: Err("o".into()),
            destination: Err("d".into()),
            ..drag_facts()
        }),
        "o"
    );
    assert_eq!(drag_reason(DragFacts { destination: Err("d".into()), ..drag_facts() }), "d");
    assert_eq!(
        drag_reason(DragFacts { same_point: true, ..drag_facts() }),
        "both ends resolve to the same point (1, 1). A drag needs two different points; use click \
         if a press and release in one place is what you meant"
    );
}

#[test]
fn a_drag_that_touches_a_pixel_says_so() {
    let (from, to) = (PointerLocation::Element(index(0)), PointerLocation::Element(index(1)));
    let (w, origin, destination) = plan_drag(&info(), &from, &to, drag_facts()).unwrap();
    let mut plan = PlannedDrag {
        window: w.id,
        origin,
        destination,
        from_text: "(1, 1)".into(),
        to_text: "(9, 9)".into(),
        steps: 12,
        point: point(),
    };
    let mouse = MouseOptions::default();
    let r = drag(&info(), &from, &to, &mouse, &plan, Ok(settled())).unwrap();
    assert_eq!(
        r.verb,
        "SkyLight pid-routed left drag (left) from (1, 1) to (9, 9) through 12 interpolated moves"
    );
    assert_eq!(r.target, "AXRow \"Alice\" → window-local (9, 9)");
    assert_eq!(r.delivery, Delivery::PidNoElement);
    plan.destination.from_element = true;
    let r = drag(&info(), &from, &to, &mouse, &plan, Ok(settled())).unwrap();
    assert_eq!(r.delivery, Delivery::Pid);
    let e = drag(&info(), &from, &to, &mouse, &plan, Err("lost".into())).unwrap_err();
    assert_eq!(e.message(), "cannot drag from element 0 to element 1 in `Chat`: lost");
}

#[test]
fn a_hover_says_that_the_pointer_did_not_move() {
    let (w, a) = plan_hover(&info(), true, Ok(window(7, 42, false)), Ok(aim("row", true))).unwrap();
    let r = hover(&info(), w.id, a, "(5, 6)", point(), Ok(settled())).unwrap();
    assert_eq!(
        r.verb,
        "SkyLight pid-routed mouseMoved to (5, 6) — the real pointer did not move"
    );
    assert_eq!((r.target.as_str(), r.delivery), ("row", Delivery::Pid));
    let r = hover(&info(), 7, aim("px", false), "(5, 6)", point(), Ok(settled())).unwrap();
    assert_eq!(r.delivery, Delivery::PidNoElement);

    let message = |r: Result<(WindowInfo, PointerAim), CoreError>| r.unwrap_err().message();
    assert!(message(plan_hover(&info(), false, Err("w".into()), Err("a".into())))
        .starts_with("cannot deliver a hover (mouseMoved) event to `Chat`: SLEventPostToPid"));
    assert!(message(plan_hover(&info(), true, Err("w".into()), Err("a".into()))).ends_with(": w"));
    assert!(message(plan_hover(&info(), true, Ok(window(7, 42, false)), Err("a".into())))
        .ends_with(": a"));
}

#[test]
fn the_nearest_window_is_the_counterpart() {
    let m = |near: bool, distance: i64| FrameMatch { near, distance };
    assert_eq!(counterpart(&[m(true, 2), m(false, 0), m(true, 1), m(true, 1)]), Some(2));
    assert_eq!(counterpart(&[m(false, 0)]), None);
    assert_eq!(counterpart(&[]), None);
}

#[test]
fn a_window_is_only_pressed_where_it_says_and_owns_the_place() {
    let facts = |inside: bool, pid: Option<i32>, role: Option<&str>| ActivationFacts {
        inside,
        owner_pid: pid,
        owner_role: role.map(str::to_string),
    };
    assert!(window_focus_assist(42, Some(&facts(true, Some(42), Some("AXWindow")))));
    assert!(!window_focus_assist(42, Some(&facts(false, Some(42), Some("AXWindow")))));
    assert!(!window_focus_assist(42, Some(&facts(true, Some(43), Some("AXWindow")))));
    assert!(!window_focus_assist(42, Some(&facts(true, None, Some("AXWindow")))));
    assert!(!window_focus_assist(42, Some(&facts(true, Some(42), Some("AXButton")))));
    assert!(!window_focus_assist(42, Some(&facts(true, Some(42), None))));
    assert!(!window_focus_assist(42, None));
}

// -- keys and text ------------------------------------------------------------

#[test]
fn a_key_takes_the_route_of_its_keyboard() {
    let pid = keyboard_capability(None, None);
    let ax = keyboard_capability(Some("1"), None);
    assert!(matches!(key_route(pid, "cmd+p", Ok(())), Ok(KeyRoute::Pid)));
    match key_route(pid, "cmd+", Err("no key".into())).unwrap_err() {
        CoreError::KeyChordUnparseable { key, reason } => {
            assert_eq!((key.as_str(), reason.as_str()), ("cmd+", "no key"));
        }
        other => panic!("expected KeyChordUnparseable, got {other:?}"),
    }
    assert!(matches!(key_route(ax, "Esc", Ok(())), Ok(KeyRoute::Verb("AXCancel"))));
    assert!(matches!(
        key_route(ax, "cmd+p", Ok(())),
        Err(CoreError::KeyNoAccessibilityEquivalent { .. })
    ));
}

#[test]
fn strict_focus_refuses_only_a_mismatch() {
    let strict = keyboard_capability(None, Some("1"));
    let loose = keyboard_capability(None, None);
    assert!(enforce_strict_focus(loose, &focus(FocusState::Mismatched), "k", "row").is_ok());
    assert!(enforce_strict_focus(strict, &focus(FocusState::Unverified), "k", "row").is_ok());
    assert!(enforce_strict_focus(strict, &focus(FocusState::Verified), "k", "row").is_ok());
    match clear_key(strict, &focus(FocusState::Mismatched), "a", "row").unwrap_err() {
        CoreError::FocusMismatch { what, addressed, focused } => {
            assert_eq!(what, "key `a`");
            assert_eq!(addressed, "row");
            assert_eq!(focused, "AXTextField \"Search\"");
        }
        other => panic!("expected FocusMismatch, got {other:?}"),
    }
    let mut unnamed = focus(FocusState::Mismatched);
    unnamed.focused_instead = None;
    let e = enforce_strict_focus(strict, &unnamed, "k", "row").unwrap_err();
    assert!(e.message().contains("another element"), "{}", e.message());
}

#[test]
fn a_posted_key_reports_its_focus() {
    assert!(require_route(true, "a").is_ok());
    assert!(matches!(require_route(false, "a"), Err(CoreError::PidKeyUnavailable { .. })));
    let r = press_key(Ok(settled()), "a", "row".into(), focus(FocusState::Verified), None, None)
        .unwrap();
    assert_eq!((r.verb.as_str(), r.delivery), ("pid-routed key `a`", Delivery::PidKey));
    assert_eq!(r.focus.unwrap().state, FocusState::Verified);
    let e = press_key(Err("x".into()), "a", "row".into(), focus(FocusState::Verified), None, None)
        .unwrap_err();
    assert!(e.message().starts_with("could not deliver key `a` via the pid-routed route: x"));
}

#[test]
fn a_verb_is_only_performed_where_it_is_offered() {
    let offered = vec!["AXPress".to_string(), "AXCancel".to_string()];
    assert!(require_verb("esc", "AXCancel", &offered).is_ok());
    match require_verb("return", "AXConfirm", &offered).unwrap_err() {
        CoreError::KeyVerbUnsupported { key, verb, available } => {
            assert_eq!((key.as_str(), verb), ("return", "AXConfirm"));
            assert_eq!(available, "[\"AXPress\", \"AXCancel\"]");
        }
        other => panic!("expected KeyVerbUnsupported, got {other:?}"),
    }
    assert_eq!(key_verb_name("AXCancel", "esc"), "AXCancel (for esc)");
}

#[test]
fn writes_name_their_mechanism() {
    let r = set_value(Ok(settled()), "field".into(), Some(point()), Some((7, 42))).unwrap();
    assert_eq!((r.verb.as_str(), r.delivery), ("AXValue=", Delivery::Ax));
    assert_eq!((r.point, r.overlay_target), (Some(point()), Some((7, 42))));
    let r = type_text(Ok(settled()), "inserted", "field".into(), None, None).unwrap();
    assert_eq!(r.verb, "AXSelectedText+ (inserted)");
    assert!(matches!(
        set_value(Err("read-only".into()), "field".into(), None, None),
        Err(CoreError::Ax(e)) if e == "read-only"
    ));
}

#[test]
fn keystrokes_need_something_to_type_and_a_route() {
    match clear_keystrokes("", true).unwrap_err() {
        CoreError::PidKeyUnavailable { key, reason } => {
            assert_eq!(key, "<empty string>");
            assert_eq!(reason, "there is nothing to type");
        }
        other => panic!("expected PidKeyUnavailable, got {other:?}"),
    }
    assert!(clear_keystrokes("hi", true).is_ok());
    assert!(clear_keystrokes("hi", false).is_err());
    let strict = keyboard_capability(None, Some("1"));
    match clear_keystroke_focus(strict, &focus(FocusState::Mismatched), "한글!", "t").unwrap_err() {
        CoreError::FocusMismatch { what, .. } => assert_eq!(what, "3 characters"),
        other => panic!("expected FocusMismatch, got {other:?}"),
    }
    let f = focus(FocusState::Unverified);
    let r = type_text_as_keystrokes(Ok(settled()), "한글!", "t".into(), f, None, None).unwrap();
    assert_eq!(r.verb, "pid-routed keystrokes (3 characters)");
}

#[test]
fn a_selection_claims_nothing_but_its_range() {
    let r = select_text(Ok((4, 11)), "field".into(), None, Some((7, 42))).unwrap();
    assert_eq!(r.verb, "AXSelectedTextRange={offset:4,length:11}");
    assert_eq!(r.ui_changed, Observed::Unknown);
    assert!(r.popups.is_empty());
    assert_eq!(r.overlay_target, Some((7, 42)));
    assert!(select_text(Err("none".into()), "field".into(), None, None).is_err());
}

#[test]
fn focus_is_named_by_what_the_app_reports() {
    let c = check_focus(Err("not settable".into()), Some((false, "AXButton".into())));
    assert_eq!(c.state, FocusState::Mismatched);
    assert!(!c.focus_write_accepted);
    assert_eq!(c.focus_write_error.as_deref(), Some("not settable"));
    assert_eq!(c.focused_instead.as_deref(), Some("AXButton"));
    let c = check_focus(Ok(()), Some((true, "AXButton".into())));
    assert_eq!((c.state, c.focused_instead), (FocusState::Verified, None));
    let c = check_focus(Ok(()), None);
    assert_eq!(c.state, FocusState::Unverified);

    let s = |t: &str| Some(t.to_string());
    assert_eq!(describe_element(s("AXButton"), s("Go"), s("x"), None), "AXButton \"Go\"");
    assert_eq!(describe_element(s("AXButton"), s(""), s("x"), s("y")), "AXButton \"x\"");
    assert_eq!(describe_element(None, None, None, s("a\"b")), "element \"a\\\"b\"");
    assert_eq!(describe_element(None, None, None, None), "element");
}

// -- scrolling ----------------------------------------------------------------

fn wheel_facts() -> WheelFacts {
    WheelFacts {
        advertises: false,
        routed: true,
        has_point: true,
        live: Ok(window(7, 42, false)),
        at: "(5, 6)".into(),
        inside: true,
    }
}

fn wheel_reason(switch: Option<&str>, facts: WheelFacts) -> String {
    match plan_wheel(&info(), scroll_capability(switch), facts).unwrap_err() {
        CoreError::PointerEventRefused { event, reason, .. } => {
            assert_eq!(event, "scroll wheel event");
            reason
        }
        other => panic!("expected PointerEventRefused, got {other:?}"),
    }
}

#[test]
fn a_wheel_event_is_refused_until_it_is_switched_on() {
    let why = wheel_reason(None, wheel_facts());
    assert!(why.contains("instead. Set CUA_WHEEL_SCROLL=1"), "{why}");
    let why = wheel_reason(None, WheelFacts { advertises: true, ..wheel_facts() });
    assert!(why.contains("instead, or ask in pages"), "{why}");
    assert!(why.ends_with("advertise is used. Set CUA_WHEEL_SCROLL=1 to deliver it anyway and re-run the experiment"));
    let on = scroll_capability(Some("1"));
    assert_eq!(plan_wheel(&info(), on, wheel_facts()).unwrap().id, 7);
}

#[test]
fn a_wheel_event_needs_a_point_inside_its_window() {
    let on = Some("1");
    assert!(wheel_reason(on, WheelFacts { routed: false, ..wheel_facts() }).contains("real pointer"));
    assert!(wheel_reason(on, WheelFacts { has_point: false, ..wheel_facts() })
        .starts_with("this element advertises no scroll action, and it publishes neither"));
    assert!(wheel_reason(on, WheelFacts { has_point: false, advertises: true, ..wheel_facts() })
        .contains("a scroll action but the caller asked in points"));
    assert_eq!(wheel_reason(on, WheelFacts { live: Err("gone".into()), ..wheel_facts() }), "gone");
    assert_eq!(
        wheel_reason(on, WheelFacts { inside: false, ..wheel_facts() }),
        "the wheel point (5, 6) is outside the current frame of window 7 (10,20 800x600); the AX \
         element and window snapshot drifted apart. Call get_app_state again"
    );
}

#[test]
fn wheel_points_follow_the_request() {
    assert_eq!(wheel_points(ScrollAmount::Points(120), 900), 120);
    assert_eq!(wheel_points(ScrollAmount::Points(u32::MAX), 900), -1);
    assert_eq!(wheel_points(ScrollAmount::Pages(0), 900), 900);
    assert_eq!(wheel_points(ScrollAmount::Pages(1), 900), 900);
    assert_eq!(wheel_points(ScrollAmount::Pages(3), 180), 540);
}

#[test]
fn a_wheel_event_reports_where_and_how_far() {
    let mut plan = PlannedWheel {
        window: 7,
        dir: ScrollDir::Down,
        points: 540,
        at: "(5, 6)".into(),
        advertises: true,
        point: point(),
    };
    let r = wheel_scroll(&info(), "list".into(), &plan, Ok(settled())).unwrap();
    assert_eq!(r.verb, "SkyLight pid-routed scrollWheel down by 540 points at (5, 6)");
    assert_eq!((r.delivery, r.focus.is_none()), (Delivery::Pid, true));
    plan.advertises = false;
    plan.points = -1;
    let r = wheel_scroll(&info(), "list".into(), &plan, Ok(settled())).unwrap();
    assert_eq!(
        r.verb,
        "SkyLight pid-routed scrollWheel down by -1 points at (5, 6) (this element advertises no \
         AXScroll action)"
    );
    assert!(wheel_scroll(&info(), "list".into(), &plan, Err("no".into())).is_err());
    let r = scroll(Ok(settled()), ScrollDir::Left, "list".into(), None, None).unwrap();
    assert_eq!(r.verb, "AXScrollLeftByPage");
}

// -- menus --------------------------------------------------------------------

fn listing(path: &str, titles: &[&str]) -> MenuListing {
    MenuListing {
        path: path.into(),
        items: titles
            .iter()
            .map(|t| MenuItem {
                title: t.to_string(),
                path: format!("{path} > {t}"),
                enabled: true,
                has_submenu: false,
                shortcut: None,
                mark: None,
            })
            .collect(),
    }
}

fn landed(roles: &[&str], enabled: Option<bool>) -> LandedRow {
    LandedRow {
        child_roles: roles.iter().map(|r| r.to_string()).collect(),
        label: Some("Paste".into()),
        enabled,
    }
}

#[test]
fn a_menu_row_is_judged_by_its_own_title() {
    let found = Ok((listing("Edit > Paste", &["Cut", "Paste"]), Some(landed(&[], Some(true)))));
    let press = plan_menu_press(&info(), 2, found, true).unwrap();
    assert_eq!(press.described, "menu item `Edit > Paste`");
    assert!(press.enabled && press.gate.confirm_destructive);
    assert_eq!(press.gate.verb, "menu_bar");
    let judged = press.gate.labelled_candidate().unwrap();
    assert_eq!((judged.role.as_str(), judged.label.as_deref()), ("AXMenuItem", Some("Paste")));
    assert!(require_enabled(&info(), &press).is_ok());
    let r = press_menu_bar(Ok(settled()), press, Some((7, 42))).unwrap();
    assert_eq!(r.verb, "AXPress on menu item `Edit > Paste`");
    assert_eq!((r.target.as_str(), r.point), ("menu item `Edit > Paste`", None));
}

#[test]
fn a_disabled_row_is_not_pressed() {
    for says in [Some(false), None] {
        let found = Ok((listing("Edit > Paste", &["Paste"]), Some(landed(&[], says))));
        let press = plan_menu_press(&info(), 2, found, false).unwrap();
        let e = require_enabled(&info(), &press).unwrap_err();
        assert!(
            e.message().starts_with("in `Chat`: menu item `Edit > Paste` is disabled right now"),
            "{}",
            e.message()
        );
    }
}

#[test]
fn a_submenu_or_a_missing_row_is_not_pressed() {
    let found = Ok((listing("Edit", &["Cut", "Paste"]), None));
    let e = match plan_menu_press(&info(), 1, found, false) {
        Err(e) => e.message(),
        Ok(_) => panic!("pressed a submenu"),
    };
    assert!(e.contains("Cut") && e.contains("Paste"), "{e}");
    let found = Ok((listing("Edit > Find", &["Next"]), Some(landed(&["AXMenu"], Some(true)))));
    assert!(plan_menu_press(&info(), 2, found, false).is_err());
    let none = Ok((listing("", &[]), Some(landed(&[], None))));
    let e = match plan_menu_press(&info(), 0, none, false) {
        Err(e) => e.message(),
        Ok(_) => panic!("pressed nothing"),
    };
    assert_eq!(e, "in `Chat`: no menu path given; pass one like `Edit > Paste`");
    assert!(plan_menu_press(&info(), 1, Err(MenuWalkError::NoMenuBar), false).is_err());
}

#[test]
fn a_menu_level_or_the_reason_is_handed_on() {
    assert_eq!(menu_bar(&info(), Ok(listing("Edit", &["Cut"]))).unwrap().items.len(), 1);
    let e = menu_bar(&info(), Err(MenuWalkError::NoMenuBar)).unwrap_err();
    assert!(matches!(e, CoreError::MenuPath { .. }));
    assert!(e.message().starts_with("in `Chat`: "), "{}", e.message());
}

#[test]
fn an_action_that_is_not_offered_lists_those_that_are() {
    let offered = vec!["AXPress".to_string()];
    assert!(require_action("AXPress", &offered).is_ok());
    assert_eq!(
        require_action("AXZoom", &offered).unwrap_err(),
        "AXZoom (this element supports [\"AXPress\"])"
    );
    let r = perform_action(Ok(settled()), "AXPress", "row".into(), None, None).unwrap();
    assert_eq!((r.verb.as_str(), r.delivery), ("AXPress", Delivery::Ax));
}

// -- requests and conclusions -------------------------------------------------

#[test]
fn each_request_passes_the_guards_it_needs() {
    let click = Request::Click { target: index(1), confirm_destructive: true };
    let g = click.gate();
    assert_eq!((g.verb, g.confirm_destructive, g.target.is_some()), ("click", true, true));
    let key = Request::PressKey {
        target: index(1),
        key: "cmd+delete".into(),
        confirm_destructive: false,
    };
    let g = key.gate();
    assert_eq!((g.verb, g.key()), ("press_key", Some("cmd+delete")));
    for (request, verb) in [
        (Request::Drag, "drag"),
        (Request::Hover, "hover"),
        (Request::ClickInWindow, "click_in_window"),
    ] {
        let g = request.gate();
        assert_eq!((g.verb, g.target().is_none(), g.confirm_destructive), (verb, true, false));
        assert!(request.flashes());
    }
    for (request, verb) in [
        (Request::SetValue { target: index(0) }, "set_value"),
        (Request::Scroll { target: index(0) }, "scroll"),
        (Request::TypeText { target: index(0) }, "type_text"),
        (Request::SelectText { target: index(0) }, "select_text"),
    ] {
        let g = request.gate();
        assert_eq!((g.verb, g.target().is_some(), g.confirm_destructive), (verb, true, false));
        assert!(!request.flashes());
    }
    let perform = Request::PerformAction { target: index(0), confirm_destructive: false };
    assert_eq!(perform.gate().verb, "perform_secondary_action");
}

#[test]
fn an_action_without_a_reread_marks_its_snapshot() {
    let mut store = Store::default();
    store.put(42, snapshot(None));
    let done = ax_action(Ok(settled()), "AXPress", "row".into(), None, None);
    let r = conclude(&mut store, Some(42), done, None).unwrap();
    assert!(r.state.is_none());
    assert!(store.get(42).unwrap().acted_on);
}

#[test]
fn an_action_with_a_reread_carries_what_it_found() {
    let mut store = Store::default();
    store.put(42, snapshot(None));
    let done = ax_action(Ok(settled()), "AXPress", "row".into(), None, None);
    let state = PostActionState {
        snapshot_id: Some(6),
        diff: None,
        note: Some("n".into()),
        node_count: 2,
    };
    let r = conclude(&mut store, Some(42), done, Some(state)).unwrap();
    assert_eq!(r.state.unwrap().snapshot_id, Some(6));
    assert!(!store.get(42).unwrap().acted_on);
}

#[test]
fn a_failed_action_changes_nothing() {
    let mut store = Store::default();
    store.put(42, snapshot(None));
    let failed = ax_action(Err("x".into()), "AXPress", "row".into(), None, None);
    assert!(conclude(&mut store, Some(42), failed, None).is_err());
    assert!(!store.get(42).unwrap().acted_on);
}

#[test]
fn the_drawn_cursor_is_told_where_to_go() {
    assert_eq!(mark("12.5", "40", true, Some((7, 42))), "click 12.5 40 7 42\n");
    assert_eq!(mark("12.5", "40", false, Some((7, -1))), "move 12.5 40 7 -1\n");
    assert_eq!(mark("12.5", "40", true, None), "hide\n");
}

#[test]
fn a_missing_overlay_is_warned_of_once() {
    assert_eq!(overlay_step(false, false, None), OverlayStep::Start);
    assert_eq!(overlay_step(false, false, Some(false)), OverlayStep::Disable);
    assert_eq!(overlay_step(false, false, Some(true)), OverlayStep::Write);
    assert_eq!(overlay_step(false, true, None), OverlayStep::Write);
    for running in [false, true] {
        for started in [None, Some(false), Some(true)] {
            assert_eq!(overlay_step(true, running, started), OverlayStep::Skip);
        }
    }
}
