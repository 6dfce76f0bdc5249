use cua_core::apps::AppInfo;
use cua_core::safety::destructive::{
    destructive_key, destructive_token, Candidate,
};
use cua_core::safety::gate::Gate;
use cua_core::safety::policy::{
    forbidden_bundle, in_scope, parse_allowlist, truthy, yield_idle_ms, AUTH_PROMPT, CREDENTIALS,
    SECURITY_SURFACE,
};
use cua_core::safety::refusal::Refused;
use cua_core::safety::runtime::{HumanWatch, Watch};
use cua_core::session::target::Target;


fn button(label: &str) -> Candidate {
    Candidate {
        role: "AXButton".to_string(),
        label: Some(label.to_string()),
        description: format!("[1] AXButton {label:?}"),
        ..Candidate::default()
    }
}

fn field(value: &str) -> Candidate {
    Candidate {
        role: "AXTextField".to_string(),
        label: Some("Message".to_string()),
        value: Some(value.to_string()),
        settable: true,
        description: "[2] AXTextField".to_string(),
        ..Candidate::default()
    }
}

#[test]
fn safety_the_blocklist_matches_apples_credential_stores() {
    assert!(forbidden_bundle("com.apple.keychainaccess").is_some());
    assert!(forbidden_bundle("com.apple.Passwords").is_some());
}

#[test]
fn safety_the_blocklist_matches_third_party_password_managers() {
    for id in [
        "com.1password.1password",
        "com.agilebits.onepassword7",
        "com.bitwarden.desktop",
        "com.lastpass.LastPass",
        "org.keepassxc.keepassxc",
        "me.proton.pass.electron",
    ] {
        assert!(forbidden_bundle(id).is_some(), "{id} should be forbidden");
    }
}

#[test]
fn safety_the_blocklist_covers_helper_processes_of_a_blocked_app() {
    assert!(forbidden_bundle("com.1password.1password.helper").is_some());
    assert!(forbidden_bundle("com.apple.keychainaccess.SomeHelper").is_some());
}

#[test]
fn safety_the_blocklist_does_not_match_a_longer_unrelated_identifier() {
    assert!(forbidden_bundle("com.apple.systempreferencesque").is_none());
    assert!(forbidden_bundle("com.apple.keychainaccessorize").is_some());
}

#[test]
fn safety_the_blocklist_matches_security_surfaces_and_login_prompts() {
    assert_eq!(
        forbidden_bundle("com.apple.systempreferences"),
        Some(SECURITY_SURFACE)
    );
    assert_eq!(forbidden_bundle("com.apple.loginwindow"), Some(AUTH_PROMPT));
    assert_eq!(
        forbidden_bundle("com.apple.SecurityAgent"),
        Some(AUTH_PROMPT)
    );
}

#[test]
fn safety_an_unknown_password_manager_is_still_caught_by_its_bundle_id() {
    assert!(forbidden_bundle("com.example.SuperPasswordVault").is_some());
    assert!(forbidden_bundle("net.example.totp-authenticator").is_some());
}

#[test]
fn safety_ordinary_apps_are_not_forbidden() {
    for id in [
        "com.apple.TextEdit",
        "com.apple.Notes",
        "com.kakao.KakaoTalk",
        "com.tinyspeck.slackmacgap",
        "com.google.Chrome",
        "com.apple.Terminal",
    ] {
        assert!(forbidden_bundle(id).is_none(), "{id} should be drivable");
    }
}

#[test]
fn safety_matching_is_case_insensitive_and_ignores_surrounding_space() {
    assert!(forbidden_bundle("  COM.APPLE.KEYCHAINACCESS  ").is_some());
}

#[test]
fn safety_an_app_with_no_bundle_identifier_is_not_matched_by_accident() {
    assert!(forbidden_bundle("").is_none());
    assert!(forbidden_bundle("   ").is_none());
}

#[test]
fn safety_plain_english_destructive_labels_are_caught() {
    for label in [
        "Delete",
        "Delete All",
        "Delete History",
        "Remove Account",
        "Erase All Content and Settings",
        "Discard Changes",
        "Reset",
        "Move to Trash",
        "Empty Trash",
        "Uninstall",
        "Revoke Access",
        "Don't Save",
        "Don’t Save",
        "Clear History",
        "Deleting…",
    ] {
        assert!(
            destructive_token(label).is_some(),
            "{label:?} should need confirmation"
        );
    }
}

#[test]
fn safety_korean_destructive_labels_are_caught() {
    for label in [
        "삭제",
        "모두 삭제",
        "채팅방 나가기",
        "대화 내용 삭제",
        "계정 제거",
        "설정 초기화",
        "휴지통으로 이동",
        "휴지통 비우기",
        "저장 안 함",
        "저장하지 않음",
        "회원 탈퇴",
    ] {
        assert!(
            destructive_token(label).is_some(),
            "{label:?} should need confirmation"
        );
    }
}

#[test]
fn safety_harmless_labels_are_not_caught() {
    for label in [
        "Cancel", "취소", "OK", "확인", "Save", "저장", "Send", "New Note", "Search", "Close",
        "닫기", "Reply", "Settings", "설정",
    ] {
        assert!(
            destructive_token(label).is_none(),
            "{label:?} must not need confirmation"
        );
    }
}

#[test]
fn safety_a_word_that_merely_contains_a_stem_is_not_destructive() {
    assert!(destructive_token("Presets").is_none());
    assert!(destructive_token("Undelete").is_none());
    assert!(destructive_token("Preset Manager").is_none());
}

#[test]
fn safety_punctuation_and_wrapping_do_not_hide_a_destructive_label() {
    assert!(destructive_token("Delete…").is_some());
    assert!(destructive_token("(Delete)").is_some());
    assert!(destructive_token("Delete\n   All Messages").is_some());
    assert!(destructive_token("DELETE ALL").is_some());
}

#[test]
fn safety_an_empty_label_is_not_destructive() {
    assert!(destructive_token("").is_none());
    assert!(destructive_token("   ").is_none());
}

#[test]
fn safety_a_text_fields_own_contents_are_never_classified() {
    let f = field("remind me to delete the old files");
    assert!(destructive_token(&f.classifiable_text()).is_none());
}

#[test]
fn safety_a_buttons_value_is_classified_because_it_is_part_of_what_it_says() {
    let mut c = button("");
    c.label = None;
    c.value = Some("Delete All".to_string());
    assert!(destructive_token(&c.classifiable_text()).is_some());
}

#[test]
fn safety_a_tooltip_counts_as_a_label() {
    let mut c = button("⌫");
    c.help = Some("Move this conversation to the trash".to_string());
    assert!(destructive_token(&c.classifiable_text()).is_some());
}

#[test]
fn safety_command_delete_is_destructive_wherever_it_lands() {
    assert!(destructive_key("cmd+delete", Some(&field("hello"))).is_some());
    assert!(destructive_key("command+backspace", None).is_some());
}

#[test]
fn safety_a_bare_delete_is_editing_in_a_text_field_and_destruction_anywhere_else() {
    assert!(destructive_key("delete", Some(&field("hello"))).is_none());
    assert!(destructive_key("backspace", Some(&field("hello"))).is_none());

    let row = Candidate {
        role: "AXRow".to_string(),
        label: Some("Mom".to_string()),
        description: "[9] AXRow \"Mom\"".to_string(),
        ..Candidate::default()
    };
    assert!(destructive_key("delete", Some(&row)).is_some());
}

#[test]
fn safety_an_unidentifiable_target_makes_a_bare_delete_destructive() {
    assert!(destructive_key("delete", None).is_some());
}

#[test]
fn safety_ordinary_keys_and_chords_are_not_destructive() {
    for key in ["return", "escape", "cmd+s", "cmd+shift+p", "a", "tab", "up"] {
        assert!(
            destructive_key(key, Some(&field("hello"))).is_none(),
            "{key:?} must not need confirmation"
        );
    }
}

#[test]
fn safety_key_classification_ignores_case_and_spacing() {
    assert!(destructive_key("  CMD + Delete ", None).is_some());
}

#[test]
fn safety_only_one_and_true_switch_a_flag_on() {
    assert!(truthy("1"));
    assert!(truthy("true"));
    assert!(truthy("TRUE"));
    assert!(truthy("True"));
    for off in ["0", "false", "", "yes", "on", "2"] {
        assert!(!truthy(off), "{off:?} must stay off");
    }
}

fn app(name: &str, bundle: &str) -> AppInfo {
    AppInfo {
        name: name.to_string(),
        bundle_id: Some(bundle.to_string()),
        pid: 4242,
        active: false,
        regular: true,
    }
}

fn a_gate() -> Gate {
    Gate::at(
        "click",
        &Target::Index {
            index: 1,
            snapshot_id: None,
            expected_role: None,
        },
    )
}

#[test]
fn safety_confirming_clears_the_destructive_gate_and_nothing_else() {
    let confirmed = a_gate().confirmed(true);
    assert!(confirmed.confirm_destructive);
    assert!(!a_gate().confirm_destructive);
}

#[test]
fn safety_a_gate_carries_the_key_for_press_key_and_the_target_for_everything_else() {
    let g = a_gate().with_key("cmd+delete");
    assert_eq!(g.key.as_deref(), Some("cmd+delete"));
    assert!(g.target().is_some());
    assert!(Gate::elementless("click_in_window").target().is_none());
}

#[test]
fn safety_a_forbidden_target_error_names_the_app_and_the_way_out() {
    let text = Refused::ForbiddenTarget {
        verb: "click",
        app: "1Password".to_string(),
        bundle_id: "com.1password.1password".to_string(),
        why: CREDENTIALS,
    }
    .message();
    assert!(text.contains("1Password"));
    assert!(text.contains("com.1password.1password"));
    assert!(text.contains("CUA_ALLOW_FORBIDDEN_TARGETS=1"));
}

#[test]
fn safety_a_confirmation_error_names_the_parameter_that_clears_it() {
    let text = Refused::NeedsConfirmation {
        verb: "click",
        target: "[7] AXButton \"Delete All\"".to_string(),
        matched: "delet".to_string(),
    }
    .message();
    assert!(text.contains("confirm_destructive: true"));
    assert!(text.contains("Delete All"));
}

#[test]
fn safety_a_key_refusal_blames_the_key_and_not_the_control() {
    let text = Refused::NeedsConfirmationForKey {
        key: "cmd+delete".to_string(),
        target: "[9] AXRow \"Mom\"".to_string(),
        matched: "cmd+delete".to_string(),
    }
    .message();
    assert!(text.contains("cmd+delete"));
    assert!(
        !text.contains("destructive control"),
        "a scroll bar is not a destructive control just because Delete was pressed on it"
    );
    assert!(text.contains("confirm_destructive: true"));
}

#[test]
fn safety_a_yield_error_says_how_to_resume() {
    let text = Refused::HumanTookOver {
        verb: "click",
        app: "KakaoTalk".to_string(),
        ago_ms: 120,
        idle_ms: 3_000,
    }
    .message();
    assert!(text.contains("3000ms"));
    assert!(text.contains("CUA_YIELD_TO_HUMAN"));
}

#[test]
fn safety_a_watch_that_was_never_started_never_refuses() {
    let watch = HumanWatch::default();
    assert!(watch.since_human_input_ms().is_none());
    assert!(matches!(watch.watch, Watch::Off));
}

#[test]
fn safety_the_screenshot_refusal_explains_itself_when_it_fires() {
    let a = app("1Password", "com.1password.1password");
    assert!(forbidden_bundle(a.bundle_id.as_deref().unwrap()).is_some());
    let a = app("TextEdit", "com.apple.TextEdit");
    assert!(forbidden_bundle(a.bundle_id.as_deref().unwrap()).is_none());
}

#[test]
fn safety_the_idle_window_is_clamped_into_something_usable() {
    let parse = |v: &str| yield_idle_ms(Some(v));
    assert_eq!(parse("5000"), 5_000);
    assert_eq!(parse("1"), 250);
    assert_eq!(parse("999999"), 60_000);
    assert_eq!(parse("nonsense"), 3_000);
}

#[test]
fn safety_an_allowlist_is_split_trimmed_and_lowercased() {
    assert_eq!(
        parse_allowlist("com.kakao.KakaoTalkMac , com.apple.TextEdit"),
        vec![
            "com.kakao.kakaotalkmac".to_string(),
            "com.apple.textedit".to_string()
        ]
    );
    assert_eq!(
        parse_allowlist("  com.apple.Safari  "),
        vec!["com.apple.safari".to_string()]
    );
}

#[test]
fn safety_a_scope_that_names_nothing_admits_nothing() {
    for raw in ["", "   ", ",,", " , , "] {
        let list = parse_allowlist(raw);
        assert!(list.is_empty(), "{raw:?} should name no app");
        assert!(
            !in_scope(&list, "com.apple.TextEdit"),
            "{raw:?} must not admit anything"
        );
    }
}

#[test]
fn safety_scope_matching_ignores_case_and_surrounding_space() {
    let list = parse_allowlist("com.kakao.KakaoTalkMac");
    assert!(in_scope(&list, "com.kakao.KakaoTalkMac"));
    assert!(in_scope(&list, "com.kakao.kakaotalkmac"));
    assert!(in_scope(&list, "  com.kakao.KakaoTalkMac  "));
    assert!(!in_scope(&list, "com.apple.TextEdit"));
}

#[test]
fn safety_a_scope_entry_never_matches_a_prefix() {
    let one = parse_allowlist("com.apple.Safari");
    assert!(!in_scope(&one, "com.apple.SafariTechnologyPreview"));

    let vendor = parse_allowlist("com.apple");
    assert!(!in_scope(&vendor, "com.apple.Safari"));
    assert!(!in_scope(&vendor, "com.apple.TextEdit"));
}

#[test]
fn safety_the_scope_and_the_forbidden_floor_are_independent() {
    let list = parse_allowlist("com.1password.1password");
    assert!(in_scope(&list, "com.1password.1password"));
    assert!(forbidden_bundle("com.1password.1password").is_some());
}
