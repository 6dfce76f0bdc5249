//! What each action decides before anything is posted, and what it reports afterwards.
use vstd::prelude::*;
use crate::session::error::{CoreError, CoreErrorText};
use crate::session::kinds::{Delivery, FocusCheck, FocusCheckText, Observed};
use crate::session::observe::{PostActionState, Settled};
use crate::session::store::Store;
use crate::session::windows::{PointBits, TransientWindow};
use crate::text::owned;

pub mod keyboard;
pub mod laws;
pub mod menu;
pub mod pointer;
pub mod scroll;
pub mod write;

verus! {

/// Said where the quiet route to a process does not exist.
pub const NO_ROUTE: &'static str = "SLEventPostToPid is not available on this macOS version";

/// Said where the quiet route does not exist and the pointer would have to move instead.
pub const NO_QUIET_ROUTE: &'static str =
    "SLEventPostToPid is not available on this macOS version, and cua-rs will not fall back to \
    moving the real pointer";

/// The outcome of an action, in enough detail to be auditable.
#[derive(Debug, Clone)]
pub struct ActionResult {
    /// What actually landed, for example `AXPress`.
    pub verb: String,
    /// Role and label of what was acted on.
    pub target: String,
    /// Whether the target's window changed in a way that could be observed.
    pub ui_changed: Observed,
    /// Transient UI that the app has up now that the action has run, topmost first.
    pub popups: Vec<TransientWindow>,
    /// Which mechanism carried the action.
    pub delivery: Delivery,
    /// Where the action landed on the screen, where that is known.
    pub point: Option<PointBits>,
    /// The window and the process that the drawn cursor is pinned to.
    pub overlay_target: Option<(u32, i32)>,
    /// What the window looked like after the action, when the caller asked.
    pub state: Option<PostActionState>,
    /// Whether the addressed element held keyboard focus, on the routes where the question means
    /// something.
    pub focus: Option<FocusCheck>,
}

/// What an [`ActionResult`] says.
pub struct ActionText {
    pub verb: Seq<char>,
    pub target: Seq<char>,
    pub ui_changed: Observed,
    pub popups: Seq<TransientWindow>,
    pub delivery: Delivery,
    pub point: Option<PointBits>,
    pub overlay_target: Option<(u32, i32)>,
    pub state: Option<PostActionState>,
    pub focus: Option<FocusCheckText>,
}

impl View for ActionResult {
    type V = ActionText;

    open spec fn view(&self) -> ActionText {
        ActionText {
            verb: self.verb@,
            target: self.target@,
            ui_changed: self.ui_changed,
            popups: self.popups@,
            delivery: self.delivery,
            point: self.point,
            overlay_target: self.overlay_target,
            state: self.state,
            focus: match self.focus {
                Some(f) => Some(f@),
                None => None,
            },
        }
    }
}

/// The result of an action that one route carried: what landed on what, and what it changed.
pub open spec fn landed(
    verb: Seq<char>,
    target: Seq<char>,
    settled: Settled,
    delivery: Delivery,
    point: Option<PointBits>,
    overlay_target: Option<(u32, i32)>,
) -> ActionText {
    ActionText {
        verb,
        target,
        ui_changed: settled.changed,
        popups: settled.popups@,
        delivery,
        point,
        overlay_target,
        state: None,
        focus: None,
    }
}

/// What an outcome of an action says.
pub open spec fn action_outcome(r: Result<ActionResult, CoreError>) -> Result<
    ActionText,
    CoreErrorText,
> {
    match r {
        Ok(a) => Ok(a@),
        Err(e) => Err(e@),
    }
}

impl ActionResult {
    /// An action that one route carried.
    pub fn carried(
        verb: String,
        target: String,
        settled: Settled,
        delivery: Delivery,
        point: Option<PointBits>,
        overlay_target: Option<(u32, i32)>,
    ) -> (r: Self)
        ensures
            r@ == landed(verb@, target@, settled, delivery, point, overlay_target),
    {
        ActionResult {
            verb,
            target,
            ui_changed: settled.changed,
            popups: settled.popups,
            delivery,
            point,
            overlay_target,
            state: None,
            focus: None,
        }
    }

    /// An action that went through accessibility, with the point that the drawn cursor should mark.
    pub fn ax_at(verb: &str, target: String, settled: Settled, point: Option<PointBits>) -> (r: Self)
        ensures
            r@ == landed(verb@, target@, settled, Delivery::Ax, point, None),
    {
        Self::carried(owned(verb), target, settled, Delivery::Ax, point, None)
    }

    /// The same result, with the window that the drawn cursor is pinned to.
    pub fn with_overlay_target(self, target: Option<(u32, i32)>) -> (r: Self)
        ensures
            r@ == (ActionText { overlay_target: target, ..self@ }),
    {
        ActionResult { overlay_target: target, ..self }
    }

    /// The same result, with what was known of the focus.
    pub fn with_focus(self, focus: FocusCheck) -> (r: Self)
        ensures
            r@ == (ActionText { focus: Some(focus@), ..self@ }),
    {
        ActionResult { focus: Some(focus), ..self }
    }
}

/// What accessibility itself said, as an error.
pub open spec fn ax_outcome(
    done: Result<Settled, String>,
    verb: Seq<char>,
    target: Seq<char>,
    point: Option<PointBits>,
    overlay_target: Option<(u32, i32)>,
) -> Result<ActionText, CoreErrorText> {
    match done {
        Ok(settled) => Ok(landed(verb, target, settled, Delivery::Ax, point, overlay_target)),
        Err(e) => Err(CoreErrorText::Ax(e@)),
    }
}

/// Reports an action that went through accessibility: what it changed, or what accessibility said.
pub fn ax_action(
    done: Result<Settled, String>,
    verb: &str,
    target: String,
    point: Option<PointBits>,
    overlay_target: Option<(u32, i32)>,
) -> (r: Result<ActionResult, CoreError>)
    ensures
        action_outcome(r) == ax_outcome(done, verb@, target@, point, overlay_target),
{
    match done {
        Ok(settled) => Ok(
            ActionResult::ax_at(verb, target, settled, point).with_overlay_target(overlay_target),
        ),
        Err(e) => Err(CoreError::Ax(e)),
    }
}

/// Ends an action that has run. Either the window was read again, and the result carries what that
/// found; or it was not, and the stored snapshot still describes the window as it was before, which
/// anything answering from it has to know. A failed action leaves both alone.
///
/// `pid` is the app's process, where it can still be resolved.
pub fn conclude(
    store: &mut Store,
    pid: Option<i32>,
    result: Result<ActionResult, CoreError>,
    reread: Option<PostActionState>,
) -> (r: Result<ActionResult, CoreError>)
    ensures
        match result {
            Err(e) => *final(store) == *old(store) && r == Err::<ActionResult, CoreError>(e),
            Ok(a) => {
                &&& r is Ok
                &&& match reread {
                    Some(state) => {
                        &&& *final(store) == *old(store)
                        &&& r->Ok_0@ == (ActionText { state: Some(state), ..a@ })
                    },
                    None => {
                        &&& r->Ok_0 == a
                        &&& match pid {
                            Some(p) => final(store).acted_from(*old(store), p),
                            None => *final(store) == *old(store),
                        }
                    },
                }
            },
        },
{
    match result {
        Err(e) => Err(e),
        Ok(a) => match reread {
            Some(state) => Ok(ActionResult { state: Some(state), ..a }),
            None => {
                match pid {
                    Some(p) => {
                        store.mark_acted(p);
                    },
                    None => {},
                }
                Ok(a)
            },
        },
    }
}

} // verus!
