//! The one menu that accessibility describes.
//!
//! An app's menu bar is published in full: every menu, every submenu, every row, each with its key
//! equivalent as data. A walk goes by title, because a menu's positions move with its separators
//! while its titles are what the caller read. Reading a level is native work; what to look for on
//! it, and what the walk comes to, is decided here.
use vstd::prelude::*;
use crate::text::{
    chars_of, debug_quoted, is_control_code, join as join_texts, joined, lowercase, non_empty, owned,
    pieces, quoted, same, slice_of, split, string_of, strip_end, strip_end_of, text_of, texts, trim,
    trimmed, trimmed_each, trimmed_non_empty, CharKind,
};

pub mod laws;
pub mod walk;

verus! {

// -- paths and shortcuts -----------------------------------------------------------------------

/// The steps of a `>`-separated menu path.
pub open spec fn path_steps(path: Seq<char>) -> Seq<Seq<char>> {
    non_empty(trimmed_each(pieces(path, CharKind::Just('>'))))
}

/// Splits a `>`-separated menu path into its steps, ignoring surrounding space.
///
/// Empty for the empty path, so the top level is the natural default.
pub fn menu_path_steps(path: &str) -> (r: Vec<String>)
    ensures
        texts(r@) == path_steps(path@),
{
    let parts = split(path, CharKind::Just('>'));
    trimmed_non_empty(&parts)
}

/// A path with one more step.
pub open spec fn joined_path(path: Seq<char>, step: Seq<char>) -> Seq<char> {
    if path.len() == 0 {
        step
    } else {
        path + " > "@ + step
    }
}

/// What stands before the last occurrence of a character.
pub open spec fn before_last(s: Seq<char>, c: char) -> Option<Seq<char>>
    decreases s.len(),
{
    if s.len() == 0 {
        None
    } else if s.last() == c {
        Some(s.drop_last())
    } else {
        before_last(s.drop_last(), c)
    }
}

/// A path without its last step.
pub open spec fn path_above(path: Seq<char>) -> Seq<char> {
    match before_last(path, '>') {
        Some(head) => strip_end(head, CharKind::Space),
        None => Seq::empty(),
    }
}

/// A path with one more step.
pub fn join(path: &str, step: &str) -> (r: String)
    ensures
        r@ == joined_path(path@, step@),
{
    if path.is_empty() {
        return owned(step);
    }
    let mut out = owned(path);
    out.append(" > ");
    out.append(step);
    out
}

/// A path without its last step.
pub fn parent_path(path: &str) -> (r: String)
    ensures
        r@ == path_above(path@),
{
    let v = chars_of(path);
    let mut to: usize = v.len();
    assert(v@.take(to as int) == path@);
    while to > 0
        invariant
            to <= v@.len(),
            before_last(v@.take(to as int), '>') == before_last(path@, '>'),
        decreases to,
    {
        assert(v@.take(to as int).drop_last() == v@.take(to - 1));
        if v[to - 1] == '>' {
            let head = string_of(&v, 0, to - 1);
            assert(head@ == v@.take(to - 1));
            return strip_end_of(head.as_str(), CharKind::Space);
        }
        to -= 1;
    }
    String::new()
}

/// Whether every character of a text is a control character.
pub open spec fn all_control(s: Seq<char>) -> bool {
    forall|i: int| 0 <= i < s.len() ==> is_control_code(#[trigger] s[i])
}

/// The names of the modifiers in a menu modifier byte. Command is the default there: it is bit 3
/// that turns it off.
pub open spec fn modifier_names(bits: u32) -> Seq<Seq<char>> {
    (if bits & 8 == 0 {
        seq!["cmd"@]
    } else {
        Seq::empty()
    }) + (if bits & 4 != 0 {
        seq!["ctrl"@]
    } else {
        Seq::empty()
    }) + (if bits & 2 != 0 {
        seq!["alt"@]
    } else {
        Seq::empty()
    }) + (if bits & 1 != 0 {
        seq!["shift"@]
    } else {
        Seq::empty()
    })
}

/// A key equivalent the way `press_key` spells one. A menu item without one draws no character, or
/// a control character.
pub open spec fn shortcut(drawn: Option<Seq<char>>, modifiers: Option<u32>) -> Option<Seq<char>> {
    match drawn {
        Some(c) => {
            let key = trimmed(c);
            if key.len() == 0 || all_control(key) {
                None
            } else {
                Some(
                    joined(
                        modifier_names(
                            match modifiers {
                                Some(bits) => bits,
                                None => 0,
                            },
                        ).push(lowercase(key)),
                        "+"@,
                    ),
                )
            }
        },
        None => None,
    }
}

/// Whether every character of a text is a control character.
fn is_all_control(s: &str) -> (r: bool)
    ensures
        r == all_control(s@),
{
    let v = chars_of(s);
    let mut i: usize = 0;
    while i < v.len()
        invariant
            i <= v@.len(),
            v@ == s@,
            forall|j: int| 0 <= j < i ==> is_control_code(#[trigger] v@[j]),
        decreases v@.len() - i,
    {
        if !v[i].is_control() {
            assert(!is_control_code(s@[i as int]));
            return false;
        }
        i += 1;
    }
    true
}

/// Formats a menu item's key equivalent the way `press_key` spells one, or `None` when the item has
/// no shortcut.
///
/// The character is reported in lower case: shift is already carried by the modifiers.
pub fn menu_shortcut(cmd_char: Option<&str>, modifiers: Option<u32>) -> (r: Option<String>)
    ensures
        text_of(r) == shortcut(slice_of(cmd_char), modifiers),
{
    let key = match cmd_char {
        Some(c) => trim(c),
        None => {
            return None;
        },
    };
    if key.as_str().is_empty() || is_all_control(key.as_str()) {
        return None;
    }
    let bits: u32 = match modifiers {
        Some(b) => b,
        None => 0,
    };
    let mut parts: Vec<String> = Vec::new();
    let ghost mut names: Seq<Seq<char>> = Seq::empty();
    if bits & 8 == 0 {
        parts.push(owned("cmd"));
        proof {
            names = names.push("cmd"@);
        }
    }
    if bits & 4 != 0 {
        parts.push(owned("ctrl"));
        proof {
            names = names.push("ctrl"@);
        }
    }
    if bits & 2 != 0 {
        parts.push(owned("alt"));
        proof {
            names = names.push("alt"@);
        }
    }
    if bits & 1 != 0 {
        parts.push(owned("shift"));
        proof {
            names = names.push("shift"@);
        }
    }
    assert(texts(parts@) == names);
    assert(names == modifier_names(bits));
    let lower = key.as_str().to_lowercase();
    let ghost all = names.push(lower@);
    parts.push(lower);
    assert(texts(parts@) == all);
    Some(join_texts(&parts, "+"))
}

// -- rows --------------------------------------------------------------------------------------

/// One row of a menu bar menu.
#[derive(Debug, Clone, PartialEq)]
pub struct MenuItem {
    /// Title as drawn. Empty for a separator, which is kept: a caller who compares the listing with
    /// what they see should find the same rows in the same order.
    pub title: String,
    /// `>`-separated path from the menu bar, ready to be passed back in.
    pub path: String,
    /// Whether the app says that this row can be chosen right now.
    pub enabled: bool,
    pub has_submenu: bool,
    /// The row's key equivalent in the vocabulary of `press_key`.
    pub shortcut: Option<String>,
    /// The mark drawn at the left, by which a toggle's state is read back.
    pub mark: Option<String>,
}

/// The rows at one level of the menu bar, plus the path that named them.
#[derive(Debug, Clone, PartialEq)]
pub struct MenuListing {
    /// The path that was walked, empty for the top level.
    pub path: String,
    pub items: Vec<MenuItem>,
}

/// What accessibility says of one row.
#[derive(Debug, Clone)]
pub struct RowFacts {
    pub title: Option<String>,
    pub enabled: Option<bool>,
    pub has_submenu: bool,
    pub cmd_char: Option<String>,
    pub modifiers: Option<u32>,
    pub mark: Option<String>,
}

/// What a [`MenuItem`] says.
pub struct MenuItemText {
    pub title: Seq<char>,
    pub path: Seq<char>,
    pub enabled: bool,
    pub has_submenu: bool,
    pub shortcut: Option<Seq<char>>,
    pub mark: Option<Seq<char>>,
}

impl View for MenuItem {
    type V = MenuItemText;

    open spec fn view(&self) -> MenuItemText {
        MenuItemText {
            title: self.title@,
            path: self.path@,
            enabled: self.enabled,
            has_submenu: self.has_submenu,
            shortcut: text_of(self.shortcut),
            mark: text_of(self.mark),
        }
    }
}

/// The text, or none at all in place of a missing one.
pub open spec fn text_or_empty(s: Option<String>) -> Seq<char> {
    match s {
        Some(t) => t@,
        None => Seq::empty(),
    }
}

/// How a row at the given path is listed. A row that does not say so is not enabled, and a blank
/// mark is none.
pub open spec fn listed_row(row: RowFacts, path: Seq<char>) -> MenuItemText {
    MenuItemText {
        title: text_or_empty(row.title),
        path: joined_path(path, text_or_empty(row.title)),
        enabled: row.enabled == Some(true),
        has_submenu: row.has_submenu,
        shortcut: shortcut(text_of(row.cmd_char), row.modifiers),
        mark: match row.mark {
            Some(m) => if trimmed(m@).len() > 0 {
                Some(m@)
            } else {
                None
            },
            None => None,
        },
    }
}

/// The views of a list of rows.
pub open spec fn item_texts(items: Seq<MenuItem>) -> Seq<MenuItemText> {
    items.map_values(|i: MenuItem| i@)
}

/// Whether an element of this role is a menu row. Anything else at a level is structure.
pub fn is_menu_row(role: Option<&str>) -> (r: bool)
    ensures
        r == match role {
            Some(x) => x@ == "AXMenuBarItem"@ || x@ == "AXMenuItem"@,
            None => false,
        },
{
    match role {
        Some(x) => same(x, "AXMenuBarItem") || same(x, "AXMenuItem"),
        None => false,
    }
}

/// Whether an element of this role is the submenu that a row owns.
pub fn is_submenu(role: Option<&str>) -> (r: bool)
    ensures
        r == match role {
            Some(x) => x@ == "AXMenu"@,
            None => false,
        },
{
    match role {
        Some(x) => same(x, "AXMenu"),
        None => false,
    }
}

/// Describes one row.
pub fn describe(row: &RowFacts, path: &str) -> (r: MenuItem)
    ensures
        r@ == listed_row(*row, path@),
{
    let title = match &row.title {
        Some(t) => owned(t.as_str()),
        None => String::new(),
    };
    let mark = match &row.mark {
        Some(m) => if trim(m.as_str()).as_str().is_empty() {
            None
        } else {
            Some(owned(m.as_str()))
        },
        None => None,
    };
    let cmd_char = match &row.cmd_char {
        Some(c) => Some(c.as_str()),
        None => None,
    };
    MenuItem {
        path: join(path, title.as_str()),
        enabled: match row.enabled {
            Some(e) => e,
            None => false,
        },
        has_submenu: row.has_submenu,
        shortcut: menu_shortcut(cmd_char, row.modifiers),
        mark,
        title,
    }
}

/// The rows of a level, described.
pub fn rows_of(rows: &Vec<RowFacts>, path: &str) -> (r: Vec<MenuItem>)
    ensures
        item_texts(r@) == rows@.map_values(|row: RowFacts| listed_row(row, path@)),
{
    let ghost all = rows@.map_values(|row: RowFacts| listed_row(row, path@));
    let mut out: Vec<MenuItem> = Vec::new();
    let mut i: usize = 0;
    while i < rows.len()
        invariant
            i <= rows@.len(),
            all == rows@.map_values(|row: RowFacts| listed_row(row, path@)),
            item_texts(out@) == all.take(i as int),
        decreases rows@.len() - i,
    {
        let item = describe(&rows[i], path);
        let ghost longer = item_texts(out@).push(item@);
        out.push(item);
        assert(item_texts(out@) == longer);
        assert(longer == all.take(i + 1));
        i += 1;
    }
    assert(all.take(all.len() as int) == all);
    out
}

// -- what can go wrong -------------------------------------------------------------------------

/// What went wrong walking a path.
#[derive(Debug, Clone, PartialEq)]
pub enum MenuWalkError {
    /// Reading the hierarchy failed. Kept apart from absence, so that a busy app is never described
    /// as one that publishes no menu bar.
    Ax(String),
    /// The app publishes no menu bar at all.
    NoMenuBar,
    /// No row with this title at this level. Carries the titles that are there: a menu path is
    /// nearly always misspelled rather than missing.
    NoSuchItem { step: String, at: String, available: Vec<String> },
    /// The path names a row that owns a submenu, and the caller asked to press it.
    IsSubmenu { path: String, children: Vec<String> },
}

/// What a [`MenuWalkError`] says.
pub enum MenuWalkErrorText {
    Ax(Seq<char>),
    NoMenuBar,
    NoSuchItem { step: Seq<char>, at: Seq<char>, available: Seq<Seq<char>> },
    IsSubmenu { path: Seq<char>, children: Seq<Seq<char>> },
}

impl View for MenuWalkError {
    type V = MenuWalkErrorText;

    open spec fn view(&self) -> MenuWalkErrorText {
        match self {
            MenuWalkError::Ax(e) => MenuWalkErrorText::Ax(e@),
            MenuWalkError::NoMenuBar => MenuWalkErrorText::NoMenuBar,
            MenuWalkError::NoSuchItem { step, at, available } => MenuWalkErrorText::NoSuchItem {
                step: step@,
                at: at@,
                available: texts(available@),
            },
            MenuWalkError::IsSubmenu { path, children } => MenuWalkErrorText::IsSubmenu {
                path: path@,
                children: texts(children@),
            },
        }
    }
}

/// Every text of a list in quotes.
pub open spec fn quoted_each(list: Seq<Seq<char>>) -> Seq<Seq<char>> {
    list.map_values(|t: Seq<char>| debug_quoted(t))
}

/// The titles of a list as suggestions. Separators are none.
pub open spec fn suggestions(titles: Seq<Seq<char>>) -> Seq<char> {
    joined(quoted_each(non_empty(titles)), ", "@)
}

impl MenuWalkErrorText {
    /// The sentence for the agent.
    pub open spec fn sentence(self) -> Seq<char> {
        match self {
            MenuWalkErrorText::Ax(e) => "could not read this app's menu bar: "@ + e,
            MenuWalkErrorText::NoMenuBar => "this app publishes no menu bar"@,
            MenuWalkErrorText::NoSuchItem { step, at, available } => "no menu item titled "@
                + debug_quoted(step) + " in "@ + (if at.len() == 0 {
                "the menu bar"@
            } else {
                "`"@ + at + "`"@
            }) + ". It has: "@ + suggestions(available),
            MenuWalkErrorText::IsSubmenu { path, children } => "`"@ + path
                + "` opens a submenu rather than doing anything; name a row inside it: "@
                + suggestions(children),
        }
    }
}

/// Computes [`suggestions`].
fn suggestions_of(titles: &Vec<String>) -> (r: String)
    ensures
        r@ == suggestions(texts(titles@)),
{
    let ghost all = texts(titles@);
    let mut parts: Vec<String> = Vec::new();
    let mut i: usize = 0;
    assert(texts(parts@) == quoted_each(non_empty(all.take(0))));
    while i < titles.len()
        invariant
            i <= titles@.len(),
            all == texts(titles@),
            texts(parts@) == quoted_each(non_empty(all.take(i as int))),
        decreases titles@.len() - i,
    {
        let ghost kept = non_empty(all.take(i as int));
        assert(all.take(i + 1).drop_last() == all.take(i as int));
        assert(all.take(i + 1).last() == titles@[i as int]@);
        if !titles[i].as_str().is_empty() {
            let q = quoted(titles[i].as_str());
            let ghost longer = texts(parts@).push(q@);
            parts.push(q);
            assert(texts(parts@) == longer);
            assert(longer == quoted_each(kept.push(titles@[i as int]@)));
        }
        i += 1;
    }
    assert(all.take(all.len() as int) == all);
    join_texts(&parts, ", ")
}

impl MenuWalkError {
    /// The sentence for the agent.
    pub fn message(&self) -> (r: String)
        ensures
            r@ == self@.sentence(),
    {
        match self {
            MenuWalkError::Ax(e) => {
                let mut out = owned("could not read this app's menu bar: ");
                out.append(e.as_str());
                out
            },
            MenuWalkError::NoMenuBar => owned("this app publishes no menu bar"),
            MenuWalkError::NoSuchItem { step, at, available } => {
                let mut place = owned("the menu bar");
                if !at.as_str().is_empty() {
                    place = owned("`");
                    place.append(at.as_str());
                    place.append("`");
                }
                let mut out = owned("no menu item titled ");
                out.append(quoted(step.as_str()).as_str());
                out.append(" in ");
                out.append(place.as_str());
                out.append(". It has: ");
                out.append(suggestions_of(available).as_str());
                out
            },
            MenuWalkError::IsSubmenu { path, children } => {
                let mut out = owned("`");
                out.append(path.as_str());
                out.append(
                    "` opens a submenu rather than doing anything; name a row inside it: ",
                );
                out.append(suggestions_of(children).as_str());
                out
            },
        }
    }
}

} // verus!
