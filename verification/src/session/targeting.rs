//! From what the agent named to the element that is meant, and whether acting on it is allowed.
use vstd::prelude::*;
use crate::apps::AppInfo;
use crate::decimal::{decimal, numeral};
use crate::safety::context::{
    caption, caption_text, decision_context, question_at, tree, ContextNode, NodeText,
};
use crate::safety::destructive::{
    confirms_default, default_button_note, key_activates_default_button, Candidate, CandidateText,
};
use crate::safety::gate::{guard, verdict, Gate, Surroundings};
use crate::safety::runtime::HumanWatch;
use crate::session::error::{CoreError, CoreErrorText};
use crate::session::find::{describe_node, node_name};
use crate::session::store::{snapshot_of, snapshot_view, ProcessKey, Snapshot, Store};
use crate::session::target::{Spot, Target};
use crate::session::windows::{
    hit_of, hit_test, live_window, live_window_for_pid_click, HitFacts, WindowInfo,
};
use crate::snapshot::AxNode;
use crate::text::{any_same, copied_text, listed, owned, same, slice_of, text_of, told};

pub mod laws;

verus! {

// -- resolving ---------------------------------------------------------------------------------

/// The element that a target names in a snapshot, with its name for the result; or why there is
/// none. An index is refused where it was taken from another snapshot, is out of range, or has come
/// to mean another kind of thing. A point is refused where it was taken from another snapshot, where
/// an action has run since, or where it covers nothing.
pub open spec fn target_in(
    app: Seq<char>,
    snapshot: Option<Snapshot>,
    current: ProcessKey,
    target: Target,
    hits: Seq<HitFacts>,
) -> Result<(usize, Seq<char>), CoreErrorText> {
    match snapshot {
        None => Err(CoreErrorText::NoSnapshot { app }),
        Some(s) => if s.process_key != current {
            Err(CoreErrorText::ProcessReplaced { app })
        } else {
            match target {
                Target::Index { index, snapshot_id, expected_role } => {
                    if snapshot_id is Some && snapshot_id->0 != s.id {
                        Err(
                            CoreErrorText::StaleSnapshot {
                                index,
                                given: snapshot_id->0,
                                current: s.id,
                            },
                        )
                    } else if index >= s.nodes@.len() {
                        Err(CoreErrorText::BadIndex { index, count: s.nodes.len() })
                    } else if expected_role is Some && expected_role->0@
                        != s.nodes@[index as int].role@ {
                        Err(
                            CoreErrorText::TokenRoleMismatch {
                                index,
                                expected: expected_role->0@,
                                found: s.nodes@[index as int].role@,
                            },
                        )
                    } else {
                        Ok((index, node_name(s.nodes@[index as int])))
                    }
                },
                Target::Point { at, snapshot_id } => {
                    if snapshot_id is Some && snapshot_id->0 != s.id {
                        Err(
                            CoreErrorText::StaleCoordinate {
                                app,
                                given: snapshot_id->0,
                                current: s.id,
                                at: at.rounded@,
                            },
                        )
                    } else if s.acted_on {
                        Err(CoreErrorText::StalePointGeometry { app })
                    } else {
                        match hit_of(hits) {
                            None => Err(CoreErrorText::NoElementAtPoint { app, at: at.exact@ }),
                            Some(i) => Ok(
                                (i, node_name(s.nodes@[i as int]) + " at "@ + at.exact@),
                            ),
                        }
                    }
                },
            }
        },
    }
}

/// Turns a [`Target`] into an element of the snapshot, validating the snapshot's identity.
///
/// `hits` says of each element of the snapshot what a hit test at the target's point reads of it.
/// The snapshot id is checked where the caller supplied one: reading and acting in one turn is the
/// common case and needs none.
pub fn resolve(
    info: &AppInfo,
    snapshot: Option<&Snapshot>,
    current: ProcessKey,
    target: &Target,
    hits: &[HitFacts],
) -> (r: Result<(usize, String), CoreError>)
    requires
        snapshot is Some && target is Point ==> hits@.len() == snapshot->0.nodes@.len(),
    ensures
        match r {
            Ok((i, name)) => target_in(
                info.name@,
                snapshot_view(snapshot),
                current,
                *target,
                hits@,
            ) == Ok::<(usize, Seq<char>), CoreErrorText>((i, name@)) && i
                < snapshot->0.nodes@.len(),
            Err(e) => target_in(info.name@, snapshot_view(snapshot), current, *target, hits@)
                == Err::<(usize, Seq<char>), CoreErrorText>(e@),
        },
{
    let s = match snapshot {
        Some(s) => s,
        None => {
            return Err(CoreError::NoSnapshot { app: owned(info.name.as_str()) });
        },
    };
    if s.process_key != current {
        return Err(CoreError::ProcessReplaced { app: owned(info.name.as_str()) });
    }
    match target {
        Target::Index { index, snapshot_id, expected_role } => {
            if let Some(given) = snapshot_id {
                if *given != s.id {
                    return Err(
                        CoreError::StaleSnapshot { index: *index, given: *given, current: s.id },
                    );
                }
            }
            if *index >= s.nodes.len() {
                return Err(CoreError::BadIndex { index: *index, count: s.nodes.len() });
            }
            let node = &s.nodes[*index];
            if let Some(expected) = expected_role {
                if !same(expected.as_str(), node.role.as_str()) {
                    return Err(
                        CoreError::TokenRoleMismatch {
                            index: *index,
                            expected: owned(expected.as_str()),
                            found: owned(node.role.as_str()),
                        },
                    );
                }
            }
            Ok((*index, describe_node(node)))
        },
        Target::Point { at, snapshot_id } => {
            if let Some(given) = snapshot_id {
                if *given != s.id {
                    return Err(
                        CoreError::StaleCoordinate {
                            app: owned(info.name.as_str()),
                            given: *given,
                            current: s.id,
                            at: owned(at.rounded.as_str()),
                        },
                    );
                }
            }
            if s.acted_on {
                return Err(CoreError::StalePointGeometry { app: owned(info.name.as_str()) });
            }
            match hit_test(hits) {
                None => Err(
                    CoreError::NoElementAtPoint {
                        app: owned(info.name.as_str()),
                        at: owned(at.exact.as_str()),
                    },
                ),
                Some(i) => {
                    let mut name = describe_node(&s.nodes[i]);
                    name.append(" at ");
                    name.append(at.exact.as_str());
                    Ok((i, name))
                },
            }
        },
    }
}

/// What speaks against a window-local coordinate: that it was chosen from a snapshot which the app
/// has since replaced.
pub open spec fn generation_objection(
    app: Seq<char>,
    snapshot: Option<Snapshot>,
    given: Option<u64>,
    at: Seq<char>,
) -> Option<CoreErrorText> {
    match given {
        None => None,
        Some(g) => match snapshot {
            None => Some(CoreErrorText::NoSnapshot { app }),
            Some(s) => if g != s.id {
                Some(CoreErrorText::StaleCoordinate { app, given: g, current: s.id, at })
            } else {
                None
            },
        },
    }
}

/// Refuses a window-local coordinate that was chosen from a snapshot this app has since replaced.
///
/// A window outlives any number of re-reads, and every place in it still exists afterwards: it
/// merely covers something else. The snapshot id is what tells the two apart.
pub fn check_coordinate_generation(
    info: &AppInfo,
    snapshot: Option<&Snapshot>,
    given: Option<u64>,
    at: &str,
) -> (r: Result<(), CoreError>)
    ensures
        match r {
            Ok(_) => generation_objection(info.name@, snapshot_view(snapshot), given, at@) is None,
            Err(e) => generation_objection(info.name@, snapshot_view(snapshot), given, at@) == Some(
                e@,
            ),
        },
{
    let cited: u64 = match given {
        Some(g) => g,
        None => {
            return Ok(());
        },
    };
    match snapshot {
        None => Err(CoreError::NoSnapshot { app: owned(info.name.as_str()) }),
        Some(s) => if cited != s.id {
            Err(
                CoreError::StaleCoordinate {
                    app: owned(info.name.as_str()),
                    given: cited,
                    current: s.id,
                    at: owned(at),
                },
            )
        } else {
            Ok(())
        },
    }
}

// -- windows and points ------------------------------------------------------------------------

/// What is said where no window has been read.
pub const NO_VERIFIED_WINDOW: &'static str =
    "no verified window has been read for this app. Call get_app_state first (and grant Screen \
    Recording, which is what identifies the window)";

/// The window id that a snapshot is of.
pub open spec fn window_of(snapshot: Option<Snapshot>) -> Option<u32> {
    match snapshot {
        Some(s) => match s.window {
            Some(w) => Some(w.id),
            None => None,
        },
        None => None,
    }
}

/// Computes [`window_of`].
pub fn snapshot_window(snapshot: Option<&Snapshot>) -> (r: Option<u32>)
    ensures
        r == window_of(snapshot_view(snapshot)),
{
    match snapshot {
        Some(s) => match &s.window {
            Some(w) => Some(w.id),
            None => None,
        },
        None => None,
    }
}

/// The live window that a gesture on an app is pinned to, which is the one that its last read was
/// of; or why there is none.
pub open spec fn gesture_window(
    snapshot: Option<Snapshot>,
    pid: i32,
    listed: Result<Seq<WindowInfo>, Seq<char>>,
) -> Result<WindowInfo, Seq<char>> {
    match window_of(snapshot) {
        None => Err(NO_VERIFIED_WINDOW@),
        Some(wid) => match listed {
            Err(e) => Err("could not revalidate the window before input: "@ + e),
            Ok(windows) => live_window(windows, wid, pid),
        },
    }
}

/// The view of an enumeration of windows.
pub open spec fn listed_view(listed: Result<Vec<WindowInfo>, String>) -> Result<
    Seq<WindowInfo>,
    Seq<char>,
> {
    match listed {
        Ok(v) => Ok(v@),
        Err(e) => Err(e@),
    }
}

/// The one live window that a pointer gesture may be pinned to, given a fresh enumeration.
pub fn live_snapshot_window(
    info: &AppInfo,
    snapshot: Option<&Snapshot>,
    listed: &Result<Vec<WindowInfo>, String>,
) -> (r: Result<WindowInfo, String>)
    ensures
        told(r) == gesture_window(snapshot_view(snapshot), info.pid, listed_view(*listed)),
{
    let wid: u32 = match snapshot_window(snapshot) {
        Some(id) => id,
        None => {
            return Err(owned(NO_VERIFIED_WINDOW));
        },
    };
    match listed {
        Err(e) => {
            let mut out = owned("could not revalidate the window before input: ");
            out.append(e.as_str());
            Err(out)
        },
        Ok(windows) => live_window_for_pid_click(windows.as_slice(), wid, info.pid),
    }
}

/// Where a pointer event should land, for the actions that accept either an element or a pixel.
#[derive(Debug, Clone)]
pub enum PointerLocation {
    /// Resolved through the snapshot.
    Element(Target),
    /// A point from the top-left corner of the window that the app's last read was of.
    WindowPoint { at: Spot },
}

/// How a location reads before anything has been resolved.
pub open spec fn location_text(loc: PointerLocation) -> Seq<char> {
    match loc {
        PointerLocation::Element(Target::Index { index, .. }) => "element "@ + numeral(
            index as nat,
        ),
        PointerLocation::Element(Target::Point { at, .. }) => "the element at "@ + at.exact@,
        PointerLocation::WindowPoint { at } => "window-local "@ + at.rounded@,
    }
}

/// A pointer location as it reads in an error. An error about a drag has to name both ends, and one
/// of them may be the end that failed to resolve.
pub fn describe_location(loc: &PointerLocation) -> (r: String)
    ensures
        r@ == location_text(*loc),
{
    match loc {
        PointerLocation::Element(target) => match target {
            Target::Index { index, .. } => {
                let mut out = owned("element ");
                out.append(decimal(*index as u64).as_str());
                out
            },
            Target::Point { at, .. } => {
                let mut out = owned("the element at ");
                out.append(at.exact.as_str());
                out
            },
        },
        PointerLocation::WindowPoint { at } => {
            let mut out = owned("window-local ");
            out.append(at.rounded.as_str());
            out
        },
    }
}

/// What is known of a pointer location once its point has been computed.
pub enum AimFacts {
    /// What resolving the element came to, and whether the element has a point at all.
    Element { resolved: Result<String, CoreError>, has_point: bool },
    /// How the window-local point reads, and whether one of its coordinates is negative.
    Pixel { local: String, negative: bool },
}

/// A pointer location resolved against a live window.
#[derive(Debug, Clone)]
pub struct PointerAim {
    /// What to name in the result.
    pub desc: String,
    /// Whether accessibility agreed that something is there.
    pub from_element: bool,
}

/// What a pointer location comes to: how it is named and whether it is an element, or why it cannot
/// be aimed at.
pub open spec fn aimed(
    app: Seq<char>,
    snapshot: Option<Snapshot>,
    live: WindowInfo,
    facts: AimFacts,
    snapshot_id: Option<u64>,
    screen: Seq<char>,
    inside: bool,
) -> Result<(Seq<char>, bool), Seq<char>> {
    let outside = screen + " is outside the current frame of window "@ + numeral(live.id as nat)
        + " ("@ + live.frame_text@
        + "); a gesture cannot cross a window boundary, and cua-rs will not guess which window you \
        meant"@;
    match facts {
        AimFacts::Element { resolved, has_point } => match resolved {
            Err(e) => Err(e@.sentence()),
            Ok(desc) => if !has_point {
                Err(
                    desc@
                        + " publishes neither AXActivationPoint nor AXFrame, so there is no point \
                        to aim at"@,
                )
            } else if !inside {
                Err(outside)
            } else {
                Ok((desc@, true))
            },
        },
        AimFacts::Pixel { local, negative } => match generation_objection(
            app,
            snapshot,
            snapshot_id,
            local@,
        ) {
            Some(e) => Err(e.sentence()),
            None => if negative {
                Err(
                    "window-local coordinates are measured from the window's top-left corner, so \
                    neither of "@ + local@ + " can be negative"@,
                )
            } else if !inside {
                Err(outside)
            } else {
                Ok(("window-local "@ + local@ + " — no element, the caller aimed this"@, false))
            },
        },
    }
}

/// Resolves a pointer location against a live window.
///
/// `screen` is how the point reads on the screen, and `inside` whether it lies in the window.
pub fn aim(
    info: &AppInfo,
    snapshot: Option<&Snapshot>,
    live: &WindowInfo,
    facts: AimFacts,
    snapshot_id: Option<u64>,
    screen: &str,
    inside: bool,
) -> (r: Result<PointerAim, String>)
    ensures
        match r {
            Ok(a) => aimed(
                info.name@,
                snapshot_view(snapshot),
                *live,
                facts,
                snapshot_id,
                screen@,
                inside,
            ) == Ok::<(Seq<char>, bool), Seq<char>>((a.desc@, a.from_element)),
            Err(e) => aimed(
                info.name@,
                snapshot_view(snapshot),
                *live,
                facts,
                snapshot_id,
                screen@,
                inside,
            ) == Err::<(Seq<char>, bool), Seq<char>>(e@),
        },
{
    let (desc, from_element) = match facts {
        AimFacts::Element { resolved, has_point } => match resolved {
            Err(e) => {
                return Err(e.message());
            },
            Ok(desc) => {
                if !has_point {
                    let mut out = owned(desc.as_str());
                    out.append(
                        " publishes neither AXActivationPoint nor AXFrame, so there is no point \
                        to aim at",
                    );
                    return Err(out);
                }
                (desc, true)
            },
        },
        AimFacts::Pixel { local, negative } => {
            match check_coordinate_generation(info, snapshot, snapshot_id, local.as_str()) {
                Err(e) => {
                    return Err(e.message());
                },
                Ok(_) => {},
            }
            if negative {
                let mut out = owned(
                    "window-local coordinates are measured from the window's top-left corner, so \
                    neither of ",
                );
                out.append(local.as_str());
                out.append(" can be negative");
                return Err(out);
            }
            let mut out = owned("window-local ");
            out.append(local.as_str());
            out.append(" — no element, the caller aimed this");
            (out, false)
        },
    };
    if !inside {
        let mut out = owned(screen);
        out.append(" is outside the current frame of window ");
        out.append(decimal(live.id as u64).as_str());
        out.append(" (");
        out.append(live.frame_text.as_str());
        out.append(
            "); a gesture cannot cross a window boundary, and cua-rs will not guess which window you \
        meant",
        );
        return Err(out);
    }
    Ok(PointerAim { desc, from_element })
}

// -- what an action would land on --------------------------------------------------------------

/// A node as the context rules see it.
pub open spec fn projected(n: AxNode) -> NodeText {
    NodeText {
        parent: n.parent,
        role: n.role@,
        subrole: text_of(n.subrole),
        label: text_of(n.label),
        value: text_of(n.value),
        help: text_of(n.help),
        settable: n.settable,
    }
}

/// A snapshot as the context rules see it.
pub open spec fn projection(nodes: Seq<AxNode>) -> Seq<NodeText> {
    nodes.map_values(|n: AxNode| projected(n))
}

/// What a node says of itself and of the question around it.
pub open spec fn node_candidate(nodes: Seq<AxNode>, pos: int) -> CandidateText {
    let n = nodes[pos];
    CandidateText {
        role: n.role@,
        label: text_of(n.label),
        value: text_of(n.value),
        help: text_of(n.help),
        settable: n.settable,
        caption: caption_text(projection(nodes), n.index as int),
        description: node_name(n),
        context: question_at(projection(nodes), n.index as int),
    }
}

/// The default button that a window-like ancestor of an element publishes.
#[derive(Debug, Clone)]
pub struct DefaultButton {
    pub role: Option<String>,
    pub label: Option<String>,
    pub description: String,
}

/// What is judged where a key presses a default button: that button, under the same question.
pub open spec fn substituted(c: CandidateText, button: DefaultButton) -> CandidateText {
    CandidateText {
        role: match button.role {
            Some(r) => r@,
            None => Seq::empty(),
        },
        label: text_of(button.label),
        value: None,
        help: c.help,
        settable: false,
        caption: None,
        description: button.description@ + default_button_note(),
        context: c.context,
    }
}

/// The position that a target names in a snapshot, for judging alone. Whether the target is stale is
/// for the action to refuse.
pub open spec fn judged_position(
    snapshot: Option<Snapshot>,
    target: Target,
    hits: Seq<HitFacts>,
) -> Option<usize> {
    match snapshot {
        None => None,
        Some(s) => match target {
            Target::Index { index, .. } => if index < s.nodes@.len() {
                Some(index)
            } else {
                None
            },
            Target::Point { .. } => hit_of(hits),
        },
    }
}

/// What is judged of an action: the element it is aimed at, or the default button that its key
/// presses instead. Nothing where no element can be found.
pub open spec fn judged(
    snapshot: Option<Snapshot>,
    target: Target,
    hits: Seq<HitFacts>,
    key: Option<Seq<char>>,
    button: Option<DefaultButton>,
) -> Option<CandidateText> {
    match judged_position(snapshot, target, hits) {
        None => None,
        Some(pos) => {
            let aimed_at = node_candidate(snapshot->0.nodes@, pos as int);
            Some(
                if key is Some && confirms_default(key->0) && button is Some {
                    substituted(aimed_at, button->0)
                } else {
                    aimed_at
                },
            )
        },
    }
}

fn str_of<'a>(s: &'a Option<String>) -> (r: Option<&'a str>)
    ensures
        slice_of(r) == text_of(*s),
{
    match s {
        Some(t) => Some(t.as_str()),
        None => None,
    }
}

/// A snapshot as the context rules see it.
pub fn project(nodes: &[AxNode]) -> (r: Vec<ContextNode<'_>>)
    ensures
        tree(r@) == projection(nodes@),
{
    let ghost all = projection(nodes@);
    let mut out: Vec<ContextNode<'_>> = Vec::new();
    let mut i: usize = 0;
    while i < nodes.len()
        invariant
            i <= nodes@.len(),
            all == projection(nodes@),
            tree(out@) == all.take(i as int),
        decreases nodes@.len() - i,
    {
        let n = &nodes[i];
        let node = ContextNode {
            parent: n.parent,
            role: n.role.as_str(),
            subrole: str_of(&n.subrole),
            label: str_of(&n.label),
            value: str_of(&n.value),
            help: str_of(&n.help),
            settable: n.settable,
        };
        assert(node@ == all[i as int]);
        let ghost longer = tree(out@).push(node@);
        out.push(node);
        assert(tree(out@) == longer);
        assert(longer == all.take(i + 1));
        i += 1;
    }
    assert(all.take(all.len() as int) == all);
    out
}

/// The snapshot's own description of the element that an action is aimed at.
///
/// Taken from the snapshot rather than from the live element: what has to be judged is the control
/// the caller chose, which is the one the tree showed them. A return key does not land where it was
/// aimed: inside a dialog it presses the default button, so that is judged in its place.
pub fn safety_candidate(
    snapshot: Option<&Snapshot>,
    target: &Target,
    hits: &[HitFacts],
    key: Option<&str>,
    button: Option<DefaultButton>,
) -> (r: Option<Candidate>)
    requires
        snapshot is Some && target is Point ==> hits@.len() == snapshot->0.nodes@.len(),
    ensures
        match r {
            Some(c) => judged(
                snapshot_view(snapshot),
                *target,
                hits@,
                slice_of(key),
                button,
            ) == Some(c@),
            None => judged(
                snapshot_view(snapshot),
                *target,
                hits@,
                slice_of(key),
                button,
            ) is None,
        },
{
    let s = match snapshot {
        Some(s) => s,
        None => {
            return None;
        },
    };
    let pos: usize = match target {
        Target::Index { index, .. } => {
            if *index >= s.nodes.len() {
                return None;
            }
            *index
        },
        Target::Point { .. } => match hit_test(hits) {
            Some(i) => i,
            None => {
                return None;
            },
        },
    };
    let node = &s.nodes[pos];
    let nodes = project(s.nodes.as_slice());
    let mut candidate = Candidate {
        role: owned(node.role.as_str()),
        label: copied_text(&node.label),
        value: copied_text(&node.value),
        help: copied_text(&node.help),
        settable: node.settable,
        caption: caption(nodes.as_slice(), node.index),
        description: describe_node(node),
        context: decision_context(nodes.as_slice(), node.index),
    };
    assert(candidate@ == node_candidate(s.nodes@, pos as int));
    let presses = match key {
        Some(k) => key_activates_default_button(k),
        None => false,
    };
    if presses {
        if let Some(b) = button {
            let role = match b.role {
                Some(r) => r,
                None => String::new(),
            };
            candidate.substitute_answer(role.as_str(), b.label, b.description);
        }
    }
    Some(candidate)
}

/// Roles that can own a default button.
pub const WINDOW_LIKE: [&'static str; 4] = ["AXSheet", "AXDialog", "AXWindow", "AXPopover"];

/// How many ancestors are asked for a default button.
pub const MAX_ANCESTORS: usize = 32;

/// What is read of an ancestor of an element, the element itself being the first.
#[derive(Debug, Clone)]
pub struct AncestorFacts {
    pub role: Option<String>,
    pub has_default_button: bool,
}

/// Whether an ancestor publishes the default button that a return key presses.
pub open spec fn owns_default_button(a: AncestorFacts) -> bool {
    a.role is Some && listed(WINDOW_LIKE@, a.role->0@) && a.has_default_button
}

/// The first of an element and its ancestors that publishes a default button. A sheet publishes its
/// own, and it comes before the window it is attached to.
pub fn default_button_of_ancestor(chain: &[AncestorFacts]) -> (r: Option<usize>)
    ensures
        match r {
            Some(i) => {
                &&& i < chain@.len()
                &&& i < MAX_ANCESTORS
                &&& owns_default_button(chain@[i as int])
                &&& forall|j: int| 0 <= j < i ==> !owns_default_button(#[trigger] chain@[j])
            },
            None => forall|j: int|
                0 <= j < chain@.len() && j < MAX_ANCESTORS ==> !owns_default_button(
                    #[trigger] chain@[j],
                ),
        },
{
    let mut i: usize = 0;
    while i < chain.len() && i < MAX_ANCESTORS
        invariant
            i <= chain@.len(),
            i <= MAX_ANCESTORS,
            forall|j: int| 0 <= j < i ==> !owns_default_button(#[trigger] chain@[j]),
        decreases chain@.len() - i,
    {
        if let Some(role) = &chain[i].role {
            if any_same(WINDOW_LIKE.as_slice(), role.as_str()) && chain[i].has_default_button {
                return Some(i);
            }
        }
        i += 1;
    }
    None
}

/// Whether an action may run: what is judged is the element the action is aimed at, or the row that
/// an action with a label of its own describes.
pub open spec fn admission(
    info: AppInfo,
    watch: HumanWatch,
    around: Surroundings,
    gate: Gate,
    snapshot: Option<Snapshot>,
    hits: Seq<HitFacts>,
    button: Option<DefaultButton>,
) -> Option<CoreErrorText> {
    let candidate = match gate.target {
        Some(target) => judged(snapshot, target, hits, text_of(gate.key), button),
        None => match gate.labelled {
            Some(c) => Some(c@),
            None => None,
        },
    };
    match verdict(info, watch.watch, around, gate, candidate) {
        Some(r) => Some(CoreErrorText::Refused(r)),
        None => None,
    }
}

/// Runs every guard once, at the one place that every action passes through.
pub fn clear_to_act(
    info: &AppInfo,
    watch: &HumanWatch,
    around: &Surroundings,
    gate: &Gate,
    snapshot: Option<&Snapshot>,
    hits: &[HitFacts],
    button: Option<DefaultButton>,
) -> (r: Result<(), CoreError>)
    requires
        snapshot is Some && gate.target is Some && gate.target->0 is Point ==> hits@.len()
            == snapshot->0.nodes@.len(),
    ensures
        match r {
            Ok(_) => admission(
                *info,
                *watch,
                *around,
                *gate,
                snapshot_view(snapshot),
                hits@,
                button,
            ) is None,
            Err(e) => admission(
                *info,
                *watch,
                *around,
                *gate,
                snapshot_view(snapshot),
                hits@,
                button,
            ) == Some(e@),
        },
{
    let verdict = match &gate.target {
        Some(target) => {
            let candidate = safety_candidate(snapshot, target, hits, gate.key(), button);
            match &candidate {
                Some(c) => guard(info, watch, around, gate, Some(c)),
                None => guard(info, watch, around, gate, None),
            }
        },
        None => guard(info, watch, around, gate, gate.labelled_candidate()),
    };
    match verdict {
        Ok(_) => Ok(()),
        Err(e) => Err(CoreError::Refused(e)),
    }
}

// -- laws --------------------------------------------------------------------------------------

/// An index that cites a snapshot acts only while that snapshot is the current one.
pub proof fn law_a_stale_index_is_never_honoured(
    app: Seq<char>,
    snapshot: Snapshot,
    current: ProcessKey,
    index: usize,
    given: u64,
    expected_role: Option<String>,
    hits: Seq<HitFacts>,
)
    requires
        given != snapshot.id,
    ensures
        target_in(
            app,
            Some(snapshot),
            current,
            (Target::Index { index, snapshot_id: Some(given), expected_role }),
            hits,
        ) is Err,
{
}

/// A point is never resolved against geometry that an action has invalidated, whether it cites a
/// snapshot or not.
pub proof fn law_a_point_is_never_resolved_after_an_action(
    app: Seq<char>,
    snapshot: Snapshot,
    current: ProcessKey,
    at: Spot,
    snapshot_id: Option<u64>,
    hits: Seq<HitFacts>,
)
    requires
        snapshot.acted_on,
    ensures
        target_in(
            app,
            Some(snapshot),
            current,
            (Target::Point { at, snapshot_id }),
            hits,
        ) is Err,
{
}

/// An index survives an action: it names the element rather than the place.
pub proof fn law_an_index_survives_an_action(
    app: Seq<char>,
    snapshot: Snapshot,
    current: ProcessKey,
    target: Target,
    hits: Seq<HitFacts>,
)
    requires
        target is Index,
    ensures
        target_in(app, Some((Snapshot { acted_on: true, ..snapshot })), current, target, hits)
            == target_in(app, Some(snapshot), current, target, hits),
{
}

/// No handle of a process crosses its relaunch.
pub proof fn law_no_handle_crosses_a_relaunch(
    app: Seq<char>,
    snapshot: Snapshot,
    current: ProcessKey,
    target: Target,
    hits: Seq<HitFacts>,
)
    requires
        snapshot.process_key != current,
    ensures
        target_in(app, Some(snapshot), current, target, hits) == Err::<
            (usize, Seq<char>),
            CoreErrorText,
        >(CoreErrorText::ProcessReplaced { app }),
{
}

/// A read makes every handle from before it an error: once a process has been read again, a target
/// that cites any snapshot it had before is refused, whether it is an index or a point.
pub proof fn law_a_read_makes_older_handles_an_error(
    before: Store,
    after: Store,
    pid: i32,
    taken: Snapshot,
    app: Seq<char>,
    current: ProcessKey,
    target: Target,
    hits: Seq<HitFacts>,
)
    requires
        before.wf(),
        before.snapshots@.dom().contains(pid),
        after.read_from(before, pid, taken),
        match target {
            Target::Index { snapshot_id, .. } => snapshot_id == Some(before.snapshots@[pid].id),
            Target::Point { snapshot_id, .. } => snapshot_id == Some(before.snapshots@[pid].id),
        },
    ensures
        target_in(app, snapshot_of(after.snapshots@, pid), current, target, hits) is Err,
{
}

/// After an action that was not followed by a read, nothing answers from the geometry it may have
/// changed: no point is resolved.
pub proof fn law_no_point_survives_an_action(
    before: Store,
    after: Store,
    pid: i32,
    app: Seq<char>,
    current: ProcessKey,
    at: Spot,
    snapshot_id: Option<u64>,
    hits: Seq<HitFacts>,
)
    requires
        after.acted_from(before, pid),
    ensures
        target_in(
            app,
            snapshot_of(after.snapshots@, pid),
            current,
            (Target::Point { at, snapshot_id }),
            hits,
        ) is Err,
{
}

} // verus!
