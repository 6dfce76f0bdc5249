//! Reading and pressing the menu bar, and performing an action by name.
use vstd::prelude::*;
use crate::apps::AppInfo;
use crate::menubar::{MenuItem, MenuListing, MenuWalkError, MenuWalkErrorText};
use crate::safety::destructive::{Candidate, CandidateText};
use crate::safety::gate::Gate;
use crate::session::actions::{action_outcome, ax_action, ax_outcome, ActionResult};
use crate::session::error::{outcome, CoreError, CoreErrorText};
use crate::session::observe::Settled;
use crate::session::tokens::{has_text, list_of, list_text};
use crate::session::windows::PointBits;
use crate::text::{owned, text_of, texts, told};

verus! {

// -- reading -----------------------------------------------------------------------------------

/// The error of a menu path that leads nowhere.
pub open spec fn menu_error(app: Seq<char>, e: MenuWalkErrorText) -> CoreErrorText {
    CoreErrorText::MenuPath { app, reason: e.sentence() }
}

fn menu_path_error(info: &AppInfo, e: &MenuWalkError) -> (r: CoreError)
    ensures
        r@ == menu_error(info.name@, e@),
{
    CoreError::MenuPath { app: owned(info.name.as_str()), reason: e.message() }
}

/// One level of an app's menu bar, or why the path does not lead to one.
pub fn menu_bar(info: &AppInfo, walked: Result<MenuListing, MenuWalkError>) -> (r: Result<
    MenuListing,
    CoreError,
>)
    ensures
        match walked {
            Ok(listing) => r == Ok::<MenuListing, CoreError>(listing),
            Err(e) => r is Err && r->Err_0@ == menu_error(info.name@, e@),
        },
{
    match walked {
        Ok(listing) => Ok(listing),
        Err(e) => Err(menu_path_error(info, &e)),
    }
}

// -- pressing ----------------------------------------------------------------------------------

/// What is known of the row that a path landed on.
pub struct LandedRow {
    /// The roles of its children.
    pub child_roles: Vec<String>,
    pub label: Option<String>,
    /// Whether the app says that it can be chosen, where it says anything.
    pub enabled: Option<bool>,
}

/// Whether a row owns a submenu.
pub open spec fn owns_submenu(roles: Seq<Seq<char>>) -> bool {
    roles.contains("AXMenu"@)
}

/// The titles of the rows of a listing.
pub open spec fn titles_of(items: Seq<MenuItem>) -> Seq<Seq<char>> {
    items.map_values(|i: MenuItem| i.title@)
}

pub const NO_MENU_PATH: &'static str = "no menu path given; pass one like `Edit > Paste`";

/// What speaks against pressing what a path led to.
pub open spec fn press_objection(
    app: Seq<char>,
    steps: nat,
    walked: Result<(MenuListing, Option<LandedRow>), MenuWalkError>,
) -> Option<CoreErrorText> {
    if steps == 0 {
        Some(CoreErrorText::MenuPath { app, reason: NO_MENU_PATH@ })
    } else {
        match walked {
            Err(e) => Some(menu_error(app, e@)),
            Ok((listing, row)) => if row is None || owns_submenu(texts(row->0.child_roles@)) {
                Some(
                    menu_error(
                        app,
                        MenuWalkErrorText::IsSubmenu {
                            path: listing.path@,
                            children: titles_of(listing.items@),
                        },
                    ),
                )
            } else {
                None
            },
        }
    }
}

/// How a menu row reads.
pub open spec fn row_text(path: Seq<char>) -> Seq<char> {
    "menu item `"@ + path + "`"@
}

/// How a menu row is judged: by its own title. A menu bar reaches Quit and Log Out in two steps.
pub open spec fn row_candidate(path: Seq<char>, label: Option<Seq<char>>) -> CandidateText {
    CandidateText {
        role: "AXMenuItem"@,
        label: Some(
            match label {
                Some(l) => l,
                None => Seq::empty(),
            },
        ),
        value: None,
        help: None,
        settable: false,
        caption: None,
        description: row_text(path),
        context: None,
    }
}

/// A menu row that may be pressed once the guards have agreed.
pub struct MenuPress {
    pub gate: Gate,
    /// The path that was walked.
    pub path: String,
    /// How the row reads.
    pub described: String,
    /// Whether the app says that it can be chosen. An app that says nothing has not.
    pub enabled: bool,
}

fn row_name(path: &str) -> (r: String)
    ensures
        r@ == row_text(path@),
{
    let mut out = owned("menu item `");
    out.append(path);
    out.append("`");
    out
}

fn item_titles(items: &Vec<MenuItem>) -> (r: Vec<String>)
    ensures
        texts(r@) == titles_of(items@),
{
    let mut out: Vec<String> = Vec::new();
    let mut i: usize = 0;
    assert(texts(out@) == titles_of(items@).take(0));
    while i < items.len()
        invariant
            i <= items@.len(),
            texts(out@) == titles_of(items@).take(i as int),
        decreases items@.len() - i,
    {
        let title = owned(items[i].title.as_str());
        let ghost longer = texts(out@).push(title@);
        out.push(title);
        assert(texts(out@) == longer);
        assert(longer == titles_of(items@).take(i + 1));
        i += 1;
    }
    assert(titles_of(items@).take(items@.len() as int) == titles_of(items@));
    out
}

/// Decides whether what a path led to may be pressed, and how it is to be judged. A row that owns a
/// submenu is not an action: pressing it would open a menu that nobody can see.
pub fn plan_menu_press(
    info: &AppInfo,
    steps: usize,
    walked: Result<(MenuListing, Option<LandedRow>), MenuWalkError>,
    confirm_destructive: bool,
) -> (r: Result<MenuPress, CoreError>)
    ensures
        match press_objection(info.name@, steps as nat, walked) {
            Some(e) => r is Err && r->Err_0@ == e,
            None => {
                let listing = walked->Ok_0.0;
                let row = walked->Ok_0.1->0;
                &&& r is Ok
                &&& r->Ok_0.path == listing.path
                &&& r->Ok_0.described@ == row_text(listing.path@)
                &&& r->Ok_0.enabled == (row.enabled == Some(true))
                &&& r->Ok_0.gate.verb@ == "menu_bar"@
                &&& r->Ok_0.gate.target is None
                &&& r->Ok_0.gate.key is None
                &&& r->Ok_0.gate.confirm_destructive == confirm_destructive
                &&& r->Ok_0.gate.labelled is Some
                &&& r->Ok_0.gate.labelled->0@ == row_candidate(listing.path@, text_of(row.label))
            },
        },
{
    if steps == 0 {
        return Err(
            CoreError::MenuPath { app: owned(info.name.as_str()), reason: owned(NO_MENU_PATH) },
        );
    }
    let (listing, landed) = match walked {
        Ok(found) => found,
        Err(e) => {
            return Err(menu_path_error(info, &e));
        },
    };
    let row = match landed {
        Some(row) => if has_text(&row.child_roles, "AXMenu") {
            None
        } else {
            Some(row)
        },
        None => None,
    };
    match row {
        None => {
            let children = item_titles(&listing.items);
            let e = MenuWalkError::IsSubmenu { path: listing.path, children };
            Err(menu_path_error(info, &e))
        },
        Some(row) => {
            let described = row_name(listing.path.as_str());
            let label = match row.label {
                Some(l) => l,
                None => String::new(),
            };
            let candidate = Candidate {
                role: owned("AXMenuItem"),
                label: Some(label),
                value: None,
                help: None,
                settable: false,
                caption: None,
                description: row_name(listing.path.as_str()),
                context: None,
            };
            let enabled = match row.enabled {
                Some(on) => on,
                None => false,
            };
            Ok(
                MenuPress {
                    gate: Gate::labelled("menu_bar", candidate).confirmed(confirm_destructive),
                    path: listing.path,
                    described,
                    enabled,
                },
            )
        },
    }
}

/// What is said of a row that is disabled.
pub open spec fn disabled_text(path: Seq<char>) -> Seq<char> {
    row_text(path) + DISABLED@
}

pub const DISABLED: &'static str =
    " is disabled right now, so pressing it would do nothing. A menu bar validates against the \
    app's current focus and selection: click or select what the item acts on first, then read the \
    menu again";

/// Refuses a row that is disabled, saying what enables it. Pressing it would do nothing.
pub fn require_enabled(info: &AppInfo, press: &MenuPress) -> (r: Result<(), CoreError>)
    ensures
        outcome(r) == (if press.enabled {
            Ok::<(), CoreErrorText>(())
        } else {
            Err(
                CoreErrorText::MenuPath {
                    app: info.name@,
                    reason: disabled_text(press.path@),
                },
            )
        }),
{
    if press.enabled {
        return Ok(());
    }
    let mut reason = row_name(press.path.as_str());
    reason.append(DISABLED);
    Err(CoreError::MenuPath { app: owned(info.name.as_str()), reason })
}

/// Reports a menu row that was pressed. There is no point to mark: nothing was drawn.
pub fn press_menu_bar(
    done: Result<Settled, String>,
    press: MenuPress,
    overlay_target: Option<(u32, i32)>,
) -> (r: Result<ActionResult, CoreError>)
    ensures
        action_outcome(r) == ax_outcome(
            done,
            "AXPress on "@ + row_text(press.path@),
            press.described@,
            None,
            overlay_target,
        ),
{
    let mut verb = owned("AXPress on ");
    verb.append(row_name(press.path.as_str()).as_str());
    ax_action(done, verb.as_str(), press.described, None, overlay_target)
}

// -- performing an action by name --------------------------------------------------------------

/// How an action that an element does not take reads: with the ones it does, so that a guessed name
/// can be put right in one step.
pub open spec fn unsupported_action(action: Seq<char>, available: Seq<Seq<char>>) -> Seq<char> {
    action + " (this element supports "@ + list_text(available) + ")"@
}

/// Refuses an action that an element does not take.
pub fn require_action(action: &str, available: &Vec<String>) -> (r: Result<(), String>)
    ensures
        told(r) == (if texts(available@).contains(action@) {
            Ok::<(), Seq<char>>(())
        } else {
            Err(unsupported_action(action@, texts(available@)))
        }),
{
    if has_text(available, action) {
        return Ok(());
    }
    let mut out = owned(action);
    out.append(" (this element supports ");
    out.append(list_of(available).as_str());
    out.append(")");
    Err(out)
}

/// Reports an action performed by name.
pub fn perform_action(
    done: Result<Settled, String>,
    action: &str,
    target: String,
    point: Option<PointBits>,
    overlay_target: Option<(u32, i32)>,
) -> (r: Result<ActionResult, CoreError>)
    ensures
        action_outcome(r) == ax_outcome(done, action@, target@, point, overlay_target),
{
    ax_action(done, action, target, point, overlay_target)
}

// -- laws --------------------------------------------------------------------------------------

/// Only a row that the path landed on, and that owns no submenu, is ever pressed.
pub proof fn law_a_submenu_is_never_pressed(
    app: Seq<char>,
    steps: nat,
    walked: Result<(MenuListing, Option<LandedRow>), MenuWalkError>,
)
    ensures
        press_objection(app, steps, walked) is None <==> steps > 0 && walked is Ok
            && walked->Ok_0.1 is Some && !owns_submenu(
            texts(walked->Ok_0.1->0.child_roles@),
        ),
{
}

} // verus!
