use cua_core::apps::{
    app_of, describe, filter_preferring_regular, list_apps, resolve_app, AppInfo, ResolveError,
};

fn app(name: &str, bundle: Option<&str>, regular: bool) -> AppInfo {
    AppInfo {
        name: name.to_string(),
        bundle_id: bundle.map(str::to_string),
        pid: 1,
        active: false,
        regular,
    }
}

fn office() -> Vec<AppInfo> {
    vec![
        app("Notes", Some("com.apple.Notes"), true),
        app("Notes Widget Extension", Some("com.apple.Notes.Widget"), false),
        app("Slack", Some("com.tinyspeck.slackmacgap"), true),
        app("Slack Helper", Some("com.tinyspeck.slackmacgap.helper"), false),
        app("Mail", Some("com.apple.mail"), true),
        app("Mailplane", Some("com.mailplane.app"), true),
        app("Rectangle", Some("com.knollsoft.Rectangle"), false),
        app("nameless", None, true),
    ]
}

fn name_of(query: &str) -> String {
    resolve_app(query, &office()).unwrap().name
}

#[test]
fn regular_apps_beat_helper_processes_in_the_same_tier() {
    let apps = vec![
        app("Slack", Some("com.tinyspeck.slackmacgap"), true),
        app(
            "Slack Helper",
            Some("com.tinyspeck.slackmacgap.helper"),
            false,
        ),
        app(
            "Slack Helper (GPU)",
            Some("com.tinyspeck.slackmacgap.helper.GPU"),
            false,
        ),
    ];
    let hits = filter_preferring_regular(&apps, |a: &AppInfo| {
        a.name.to_lowercase().contains("slack")
    });
    assert_eq!(
        hits.len(),
        1,
        "helpers must not make a plain name ambiguous"
    );
    assert_eq!(hits[0].name, "Slack");
}

#[test]
fn a_menu_bar_only_app_is_still_resolvable_when_alone() {
    let apps = vec![app("Rectangle", Some("com.knollsoft.Rectangle"), false)];
    let hits = filter_preferring_regular(&apps, |a: &AppInfo| a.name == "Rectangle");
    assert_eq!(hits.len(), 1, "an agent-only app must stay reachable");
    assert_eq!(resolve_app("rectangle", &apps).unwrap().name, "Rectangle");
}

#[test]
fn ambiguity_is_reported_not_guessed() {
    let apps = vec![
        app("Notes", Some("com.apple.Notes"), true),
        app("Notes Pro", Some("com.other.NotesPro"), true),
    ];
    let hits = filter_preferring_regular(&apps, |a: &AppInfo| {
        a.name.to_lowercase().contains("notes")
    });
    assert_eq!(hits.len(), 2);
    assert!(describe(&hits).contains("com.apple.Notes"));
}

#[test]
fn an_exact_bundle_identifier_names_its_app() {
    assert_eq!(name_of("com.apple.Notes"), "Notes");
    assert_eq!(name_of("com.tinyspeck.slackmacgap.helper"), "Slack Helper");
}

#[test]
fn an_exact_name_beats_a_longer_one() {
    assert_eq!(name_of("notes"), "Notes");
    assert_eq!(name_of(" MAIL "), "Mail");
}

#[test]
fn a_bundle_path_is_read_by_its_last_component() {
    assert_eq!(name_of("/Applications/Notes.app"), "Notes");
    assert_eq!(name_of("/Applications/Notes.app/"), "Notes");
    assert_eq!(name_of("/Applications/Notes.app.app//"), "Notes");
}

#[test]
fn a_suffix_of_the_bundle_identifier_is_enough() {
    assert_eq!(name_of("slackmacgap"), "Slack");
}

#[test]
fn a_prefix_is_tried_before_a_part() {
    assert_eq!(name_of("Mailp"), "Mailplane");
    assert_eq!(name_of("plane"), "Mailplane");
    assert_eq!(name_of("meless"), "nameless");
}

#[test]
fn two_matches_of_one_tier_are_an_error_that_names_them() {
    let err = resolve_app("mai", &office()).unwrap_err();
    assert_eq!(
        err.message(),
        "`mai` is ambiguous: it matches Mail (com.apple.mail), Mailplane (com.mailplane.app). Use \
         the bundle identifier instead"
    );
    assert!(matches!(err, ResolveError::Ambiguous { .. }));
}

#[test]
fn an_app_without_an_identifier_is_described_by_its_process() {
    assert_eq!(describe(&[app("nameless", None, true)]), "nameless (pid 1)");
}

#[test]
fn nothing_that_matches_is_an_error_too() {
    let err = resolve_app("  Photoshop ", &office()).unwrap_err();
    assert_eq!(
        err.message(),
        "no running app matches `Photoshop`. Call list_apps to see what is running"
    );
    assert!(matches!(err, ResolveError::NotFound { .. }));
}

#[test]
fn the_frontmost_app_is_listed_first() {
    let running = vec![
        app_of(Some("zsh helper".to_string()), None, 11, false, false),
        app_of(Some("beta".to_string()), None, 12, false, true),
        app_of(Some("Alpha".to_string()), None, 13, false, true),
        app_of(Some("Omega".to_string()), None, 14, true, true),
        app_of(Some("kernel".to_string()), None, 0, false, true),
        app_of(None, None, 15, false, false),
    ];
    let names: Vec<String> = list_apps(running).into_iter().map(|a| a.name).collect();
    assert_eq!(names, ["Omega", "Alpha", "beta", "(unnamed)", "zsh helper"]);
}
