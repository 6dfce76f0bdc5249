use cua_core::menubar::walk::{MenuWalk, WalkMove};
use cua_core::menubar::{
    describe, is_menu_row, is_submenu, join, menu_path_steps, menu_shortcut, parent_path,
    MenuWalkError, RowFacts,
};

fn row(title: &str) -> RowFacts {
    RowFacts {
        title: Some(title.to_string()),
        enabled: Some(true),
        has_submenu: false,
        cmd_char: None,
        modifiers: None,
        mark: None,
    }
}

fn titles(list: &[&str]) -> Vec<String> {
    list.iter().map(|s| s.to_string()).collect()
}

#[test]
fn a_path_splits_on_chevrons_and_tolerates_spacing() {
    assert_eq!(menu_path_steps("Edit>Paste"), vec!["Edit", "Paste"]);
    assert_eq!(menu_path_steps(" Edit > Find > Find… "), {
        vec!["Edit", "Find", "Find…"]
    });
    assert!(menu_path_steps("").is_empty());
    assert!(menu_path_steps("  >  ").is_empty());
}

#[test]
fn command_is_the_default_modifier_and_bit_three_removes_it() {
    assert_eq!(menu_shortcut(Some("i"), Some(0)).as_deref(), Some("cmd+i"));
    assert_eq!(menu_shortcut(Some("t"), None).as_deref(), Some("cmd+t"));
    assert_eq!(
        menu_shortcut(Some("f5"), Some(8)).as_deref(),
        Some("f5"),
        "bit 3 means the item has no Command in its shortcut"
    );
}

#[test]
fn the_other_modifier_bits_read_in_press_key_order() {
    assert_eq!(menu_shortcut(Some(","), Some(2)).as_deref(), Some("cmd+alt+,"));
    assert_eq!(menu_shortcut(Some("s"), Some(1)).as_deref(), Some("cmd+shift+s"));
    assert_eq!(menu_shortcut(Some("a"), Some(4)).as_deref(), Some("cmd+ctrl+a"));
    assert_eq!(
        menu_shortcut(Some("z"), Some(1 + 2 + 4)).as_deref(),
        Some("cmd+ctrl+alt+shift+z")
    );
}

#[test]
fn a_shortcut_character_is_reported_in_lower_case() {
    assert_eq!(menu_shortcut(Some("Z"), Some(0)).as_deref(), Some("cmd+z"));
    assert_eq!(
        menu_shortcut(Some("V"), Some(1 + 2)).as_deref(),
        Some("cmd+alt+shift+v")
    );
}

#[test]
fn an_item_with_no_key_equivalent_has_no_shortcut() {
    assert_eq!(menu_shortcut(None, Some(0)), None);
    assert_eq!(menu_shortcut(Some(""), Some(0)), None);
    assert_eq!(menu_shortcut(Some("  "), Some(0)), None);
    assert_eq!(
        menu_shortcut(Some("\u{0}"), Some(0)),
        None,
        "some apps report NUL rather than omitting the attribute"
    );
}

#[test]
fn a_path_is_built_by_joining_and_a_parent_by_dropping_the_last_step() {
    assert_eq!(join("", "Edit"), "Edit");
    assert_eq!(join("Edit", "Find"), "Edit > Find");
    assert_eq!(parent_path("Edit > Find > Find…"), "Edit > Find");
    assert_eq!(parent_path("Edit"), "");
}

#[test]
fn a_walk_error_names_what_was_there_instead() {
    let e = MenuWalkError::NoSuchItem {
        step: "Pastee".into(),
        at: "Edit".into(),
        available: vec!["Cut".into(), String::new(), "Paste".into()],
    };
    let rendered = e.message();
    assert!(rendered.contains("\"Pastee\""), "{rendered}");
    assert!(rendered.contains("`Edit`"), "{rendered}");
    assert!(rendered.contains("\"Paste\""), "{rendered}");
    assert!(
        !rendered.contains("\"\""),
        "separators are not suggestions: {rendered}"
    );
}

#[test]
fn a_top_level_miss_says_the_menu_bar_rather_than_an_empty_name() {
    let e = MenuWalkError::NoSuchItem {
        step: "Edti".into(),
        at: String::new(),
        available: vec!["Edit".into()],
    };
    assert!(e.message().contains("the menu bar"), "{}", e.message());
}

#[test]
fn an_ax_failure_is_not_described_as_an_absent_menu_bar() {
    let e = MenuWalkError::Ax("the accessibility call did not complete".into());
    let rendered = e.message();
    assert!(rendered.contains("did not complete"), "{rendered}");
    assert!(!rendered.contains("publishes no menu bar"), "{rendered}");
    assert!(MenuWalkError::NoMenuBar.message().contains("publishes no menu bar"));
}

#[test]
fn pressing_a_submenu_is_refused_with_its_rows() {
    let e = MenuWalkError::IsSubmenu {
        path: "Edit > Transformations".into(),
        children: vec!["Make Upper Case".into()],
    };
    assert!(e.message().contains("Make Upper Case"), "{}", e.message());
}

#[test]
fn a_walk_descends_until_its_last_step() {
    let mut walk = MenuWalk::new("Edit > Find > Find…");
    assert!(!walk.is_done());
    assert_eq!(walk.find(&titles(&["File", "Edit"])).unwrap(), 1);
    assert_eq!(walk.enter(true), WalkMove::Descend);
    assert_eq!(walk.find(&titles(&["Undo", "", "Find"])).unwrap(), 2);
    assert_eq!(walk.enter(true), WalkMove::Descend);
    assert_eq!(walk.find(&titles(&["Find…", "Find…"])).unwrap(), 0);
    assert_eq!(walk.enter(false), WalkMove::ListLevel);
    assert!(walk.is_done());

    let listing = walk.listing(WalkMove::ListLevel, &vec![row("Find…"), row("Find Next")]);
    assert_eq!(listing.path, "Edit > Find > Find…");
    assert_eq!(listing.items[1].path, "Edit > Find > Find Next");
}

#[test]
fn a_walk_that_ends_on_a_submenu_lists_what_is_below() {
    let mut walk = MenuWalk::new("Edit");
    assert_eq!(walk.find(&titles(&["File", "Edit"])).unwrap(), 1);
    assert_eq!(walk.enter(true), WalkMove::ListSubmenu);
    let listing = walk.listing(WalkMove::ListSubmenu, &vec![row("Paste")]);
    assert_eq!(listing.path, "Edit");
    assert_eq!(listing.items[0].path, "Edit > Paste");
}

#[test]
fn a_missed_step_says_where_and_what_was_there() {
    let mut walk = MenuWalk::new("Edit > Pastee");
    walk.find(&titles(&["Edit"])).unwrap();
    walk.enter(true);
    match walk.find(&titles(&["Cut", "Paste"])).unwrap_err() {
        MenuWalkError::NoSuchItem { step, at, available } => {
            assert_eq!((step.as_str(), at.as_str()), ("Pastee", "Edit"));
            assert_eq!(available, ["Cut", "Paste"]);
        }
        other => panic!("expected NoSuchItem, got {other:?}"),
    }
}

#[test]
fn a_row_is_described_with_what_it_says_of_itself() {
    let facts = RowFacts {
        title: Some("Paste".into()),
        enabled: Some(false),
        has_submenu: false,
        cmd_char: Some("V".into()),
        modifiers: Some(0),
        mark: Some("✓".into()),
    };
    let item = describe(&facts, "Edit");
    assert_eq!(item.title, "Paste");
    assert_eq!(item.path, "Edit > Paste");
    assert!(!item.enabled);
    assert_eq!(item.shortcut.as_deref(), Some("cmd+v"));
    assert_eq!(item.mark.as_deref(), Some("✓"));
}

#[test]
fn rows_and_submenus_are_told_apart_by_their_role() {
    assert!(is_menu_row(Some("AXMenuItem")));
    assert!(!is_menu_row(Some("AXButton")));
    assert!(!is_menu_row(None));
    assert!(is_submenu(Some("AXMenu")));
    assert!(!is_submenu(None));
}
