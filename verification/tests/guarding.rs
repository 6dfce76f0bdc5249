use cua_core::apps::AppInfo;
use cua_core::safety::gate::{Gate, Surroundings};
use cua_core::safety::policy::{
    allowed_apps, forbidden_targets_allowed, yield_idle_ms, yield_to_human_enabled,
};
use cua_core::safety::refusal::Refused;
use cua_core::safety::runtime::{screen_saver_running, session_locked, HumanWatch, Watch};
use cua_core::session::error::CoreError;
use cua_core::session::requests::Request;
use cua_core::session::store::{Limits, ProcessKey, Snapshot};
use cua_core::session::target::{Spot, Target};
use cua_core::session::targeting::{
    clear_to_act, default_button_of_ancestor, AncestorFacts, DefaultButton,
};
use cua_core::session::tokens::{detect_change, live_tokens, snapshot_tokens, LiveElement};
use cua_core::session::windows::HitFacts;
use cua_core::snapshot::AxNode;

fn info() -> AppInfo {
    AppInfo {
        name: "Chat".into(),
        bundle_id: Some("com.example.chat".into()),
        pid: 42,
        active: true,
        regular: true,
    }
}

fn around() -> Surroundings {
    Surroundings {
        locked: false,
        allow_forbidden: false,
        allowed: None,
        idle_ms: 3000,
        frontmost: Some(42),
    }
}

fn node(index: usize, parent: Option<usize>, role: &str, label: &str) -> AxNode {
    AxNode {
        index,
        depth: 0,
        parent,
        role: role.into(),
        subrole: None,
        label: Some(label.into()),
        value: None,
        help: None,
        frame: None,
        enabled: true,
        focused: false,
        selected: false,
        actionable: true,
        settable: false,
    }
}

fn snapshot() -> Snapshot {
    Snapshot {
        id: 5,
        nodes: vec![
            node(0, None, "AXWindow", "Chat"),
            node(1, Some(0), "AXButton", "Delete chat"),
            node(2, Some(0), "AXButton", "Reply"),
            node(3, Some(0), "AXTextField", "Message"),
        ],
        window: None,
        process_key: ProcessKey::for_pid(42, Some(9)),
        scoped: false,
        limits: Limits { max_nodes: 100, max_depth: 10, budget_ms: 1000 },
        complete: true,
        acted_on: false,
        popups: Vec::new(),
    }
}

fn index(index: usize) -> Target {
    Target::Index { index, snapshot_id: None, expected_role: None }
}

fn click(i: usize, confirm_destructive: bool) -> Gate {
    Request::Click { target: index(i), confirm_destructive }.gate()
}

fn refused(around: &Surroundings, watch: &HumanWatch, gate: &Gate) -> Option<Refused> {
    match clear_to_act(&info(), watch, around, gate, Some(&snapshot()), &[], None) {
        Ok(()) => None,
        Err(CoreError::Refused(r)) => Some(r),
        Err(other) => panic!("expected a refusal, got {other:?}"),
    }
}

#[test]
fn a_harmless_button_is_cleared_and_a_destructive_one_is_not() {
    let watch = HumanWatch::default();
    assert!(refused(&around(), &watch, &click(2, false)).is_none());
    let r = refused(&around(), &watch, &click(1, false)).unwrap();
    assert!(r.message().contains("confirm_destructive"), "{}", r.message());
    assert!(refused(&around(), &watch, &click(1, true)).is_none());
}

#[test]
fn nothing_clears_a_locked_session_or_a_broken_watch() {
    let locked = Surroundings { locked: true, ..around() };
    let gate = click(2, true);
    assert!(matches!(
        refused(&locked, &HumanWatch::default(), &gate),
        Some(Refused::SessionLocked { verb: "click" })
    ));
    let broken = HumanWatch::start(true, Err("no grant".into()));
    assert!(refused(&around(), &broken, &gate).is_some());
}

#[test]
fn a_human_at_work_is_not_interrupted() {
    let busy = HumanWatch { watch: Watch::On { since_ms: Some(100) } };
    let idle = HumanWatch { watch: Watch::On { since_ms: Some(3000) } };
    let gate = click(2, false);
    assert!(refused(&around(), &busy, &gate).is_some());
    assert!(refused(&around(), &idle, &gate).is_none());
    let elsewhere = Surroundings { frontmost: Some(7), ..around() };
    assert!(refused(&elsewhere, &busy, &gate).is_none());
    assert_eq!(busy.since_human_input_ms(), Some(100));
    assert_eq!(HumanWatch::default().since_human_input_ms(), None);
}

#[test]
fn a_scope_narrows_what_may_be_acted_on() {
    let gate = Request::Hover.gate();
    let watch = HumanWatch::default();
    let scoped = |list: &str| Surroundings { allowed: allowed_apps(Some(list)), ..around() };
    assert!(refused(&scoped("com.example.chat"), &watch, &gate).is_none());
    assert!(matches!(
        refused(&scoped("com.example.other"), &watch, &gate),
        Some(Refused::NotInAllowlist { .. })
    ));
    assert!(refused(&scoped(""), &watch, &gate).is_some(), "an empty scope admits nothing");
    assert!(allowed_apps(None).is_none());
}

#[test]
fn return_is_judged_by_the_button_it_presses() {
    let press = |key: &str| {
        Request::PressKey { target: index(3), key: key.into(), confirm_destructive: false }.gate()
    };
    let button = || {
        Some(DefaultButton {
            role: Some("AXButton".into()),
            label: Some("Delete".into()),
            description: "AXButton \"Delete\"".into(),
        })
    };
    let run = |key: &str, b: Option<DefaultButton>| {
        clear_to_act(
            &info(),
            &HumanWatch::default(),
            &around(),
            &press(key),
            Some(&snapshot()),
            &[],
            b,
        )
    };
    assert!(run("return", None).is_ok());
    assert!(run("return", button()).is_err());
    assert!(run("a", button()).is_ok(), "only return presses the default button");
    assert!(run("cmd+delete", None).is_err());
}

#[test]
fn a_point_is_judged_by_what_it_hits() {
    let at = Spot { exact: "(1, 1)".into(), rounded: "(1, 1)".into() };
    let target = Target::Point { at, snapshot_id: None };
    let gate = Request::Click { target, confirm_destructive: false }.gate();
    let hit = |i: usize| -> Vec<HitFacts> {
        (0..4)
            .map(|j| HitFacts { covers: i == j, actionable: true, area: 1, depth: 0 })
            .collect()
    };
    let run = |hits: &[HitFacts]| {
        clear_to_act(
            &info(),
            &HumanWatch::default(),
            &around(),
            &gate,
            Some(&snapshot()),
            hits,
            None,
        )
    };
    assert!(run(&hit(1)).is_err());
    assert!(run(&hit(2)).is_ok());
}

#[test]
fn the_nearest_window_publishes_the_default_button() {
    let a = |role: &str, has_default_button: bool| AncestorFacts {
        role: Some(role.into()),
        has_default_button,
    };
    let chain = [a("AXButton", true), a("AXSheet", true), a("AXWindow", true)];
    assert_eq!(default_button_of_ancestor(&chain), Some(1));
    assert_eq!(default_button_of_ancestor(&[a("AXSheet", false), a("AXWindow", true)]), Some(1));
    assert_eq!(default_button_of_ancestor(&[a("AXGroup", true)]), None);
    let mut far: Vec<AncestorFacts> = (0..32).map(|_| a("AXGroup", false)).collect();
    far.push(a("AXWindow", true));
    assert_eq!(default_button_of_ancestor(&far), None, "only so many ancestors are asked");
}

#[test]
fn a_screen_saver_counts_as_a_lock() {
    let mut saver = info();
    saver.bundle_id = Some("com.apple.screensaver.engine".into());
    assert!(screen_saver_running(&[info(), saver.clone()]));
    assert!(!screen_saver_running(&[info()]));
    assert!(session_locked(None, &[saver]));
    assert!(session_locked(Some(true), &[]));
    assert!(!session_locked(Some(false), &[info()]));
    assert!(!session_locked(None, &[]), "a session that says nothing is unlocked");
}

#[test]
fn switches_read_their_variables() {
    assert!(forbidden_targets_allowed(Some("1")) && !forbidden_targets_allowed(None));
    assert!(yield_to_human_enabled(Some("True")) && !yield_to_human_enabled(Some("")));
    assert_eq!(yield_idle_ms(None), 3000);
    assert_eq!(yield_idle_ms(Some(" 500 ")), 500);
    assert_eq!(yield_idle_ms(Some("1")), 250);
    assert_eq!(yield_idle_ms(Some("99999999")), 60000);
    assert_eq!(yield_idle_ms(Some("soon")), 3000);
}

// -- what an element shows ----------------------------------------------------

fn live(title: &str, children: Vec<LiveElement>) -> LiveElement {
    LiveElement {
        title: Some(title.into()),
        value: None,
        description: None,
        children,
    }
}

#[test]
fn no_text_of_an_element_is_kept_twice() {
    let twice = live(" row ", vec![live("row", vec![live("_NS:12", vec![])]), live("  ", vec![])]);
    assert_eq!(live_tokens(&twice, Some("row".into())), ["row"]);
    let many = live("row", (0..40).map(|i| live(&format!("cell {i}"), vec![])).collect());
    assert_eq!(live_tokens(&many, None).len(), 16);
    let nodes = vec![
        node(0, None, "AXRow", "row"),
        node(1, Some(0), "AXCell", "row"),
        node(2, Some(1), "AXCell", " row"),
    ];
    assert_eq!(snapshot_tokens(&nodes, 0), ["row"]);
}

#[test]
fn a_row_is_known_by_what_is_below_it() {
    let nodes = vec![
        node(0, None, "AXTable", "rows"),
        node(1, Some(0), "AXRow", "row"),
        node(2, Some(1), "AXCell", "Alice"),
        node(3, Some(2), "AXStaticText", "online"),
        node(4, Some(0), "AXRow", "other"),
    ];
    assert_eq!(snapshot_tokens(&nodes, 1), ["row", "Alice", "online"]);
    assert!(snapshot_tokens(&nodes, 9).is_empty());

    let same = live("row", vec![live("Alice", vec![live("online", vec![])])]);
    let found = live_tokens(&same, None);
    assert!(detect_change(1, &snapshot_tokens(&nodes, 1), &found).is_ok());
    let recycled = live("row", vec![live("Bob", vec![live("online", vec![])])]);
    let found = live_tokens(&recycled, Some("label".into()));
    assert_eq!(found, ["row", "label", "Bob", "online"]);
    match detect_change(1, &snapshot_tokens(&nodes, 1), &found).unwrap_err() {
        CoreError::TargetChanged { index, expected, found } => {
            assert_eq!(index, 1);
            assert_eq!(expected, "[\"Alice\"]");
            assert_eq!(found, "[\"Bob\", \"label\", \"online\", \"row\"]");
        }
        other => panic!("expected TargetChanged, got {other:?}"),
    }
}
