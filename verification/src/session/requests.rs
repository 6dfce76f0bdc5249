//! The actions that a caller can ask for, and which guards each of them passes through.
use vstd::prelude::*;
use crate::apps::AppInfo;
use crate::safety::gate::{standing_objection, verdict, Gate, Surroundings};
use crate::safety::runtime::Watch;
use crate::session::target::Target;
use crate::text::text_of;

verus! {

/// An action on an app, as far as the guards are concerned. Pressing a menu row is not among them:
/// its row is only known once the menu has been walked.
#[derive(Debug, Clone)]
pub enum Request {
    Click { target: Target, confirm_destructive: bool },
    Drag,
    Hover,
    ClickInWindow,
    SetValue { target: Target },
    Scroll { target: Target },
    TypeText { target: Target },
    SelectText { target: Target },
    PressKey { target: Target, key: String, confirm_destructive: bool },
    PerformAction { target: Target, confirm_destructive: bool },
}

impl Request {
    /// The name of the tool, as it reads in a refusal.
    pub open spec fn verb(self) -> Seq<char> {
        match self {
            Request::Click { .. } => "click"@,
            Request::Drag => "drag"@,
            Request::Hover => "hover"@,
            Request::ClickInWindow => "click_in_window"@,
            Request::SetValue { .. } => "set_value"@,
            Request::Scroll { .. } => "scroll"@,
            Request::TypeText { .. } => "type_text"@,
            Request::SelectText { .. } => "select_text"@,
            Request::PressKey { .. } => "press_key"@,
            Request::PerformAction { .. } => "perform_secondary_action"@,
        }
    }

    /// The element whose label is judged. A drag, a hover and a click on a pixel press no element:
    /// what a drag does lies in where it is dropped, which no label describes.
    pub open spec fn judged_target(self) -> Option<Target> {
        match self {
            Request::Click { target, .. } => Some(target),
            Request::SetValue { target } => Some(target),
            Request::Scroll { target } => Some(target),
            Request::TypeText { target } => Some(target),
            Request::SelectText { target } => Some(target),
            Request::PressKey { target, .. } => Some(target),
            Request::PerformAction { target, .. } => Some(target),
            Request::Drag => None,
            Request::Hover => None,
            Request::ClickInWindow => None,
        }
    }

    /// Whether the caller has confirmed a destructive action. Only the actions that press
    /// something can be confirmed.
    pub open spec fn is_confirmed(self) -> bool {
        match self {
            Request::Click { confirm_destructive, .. } => confirm_destructive,
            Request::PressKey { confirm_destructive, .. } => confirm_destructive,
            Request::PerformAction { confirm_destructive, .. } => confirm_destructive,
            _ => false,
        }
    }

    /// The key that is judged beside the element.
    pub open spec fn judged_key(self) -> Option<Seq<char>> {
        match self {
            Request::PressKey { key, .. } => Some(key@),
            _ => None,
        }
    }

    /// What an action has to pass.
    pub fn gate(&self) -> (r: Gate)
        ensures
            r.verb@ == self.verb(),
            r.target == self.judged_target(),
            r.confirm_destructive == self.is_confirmed(),
            text_of(r.key) == self.judged_key(),
            r.labelled is None,
    {
        match self {
            Request::Click { target, confirm_destructive } => Gate::at("click", target).confirmed(
                *confirm_destructive,
            ),
            Request::Drag => Gate::elementless("drag"),
            Request::Hover => Gate::elementless("hover"),
            Request::ClickInWindow => Gate::elementless("click_in_window"),
            Request::SetValue { target } => Gate::at("set_value", target),
            Request::Scroll { target } => Gate::at("scroll", target),
            Request::TypeText { target } => Gate::at("type_text", target),
            Request::SelectText { target } => Gate::at("select_text", target),
            Request::PressKey { target, key, confirm_destructive } => Gate::at(
                "press_key",
                target,
            ).with_key(key.as_str()).confirmed(*confirm_destructive),
            Request::PerformAction { target, confirm_destructive } => Gate::at(
                "perform_secondary_action",
                target,
            ).confirmed(*confirm_destructive),
        }
    }

    /// Whether the drawn cursor flashes a click ring where the action landed.
    pub fn flashes(&self) -> (r: bool)
        ensures
            r == (self is Click || self is Drag || self is Hover || self is ClickInWindow),
    {
        matches!(
            self,
            Request::Click { .. } | Request::Drag | Request::Hover | Request::ClickInWindow
        )
    }
}

/// A gesture with no element behind it still passes the session, the app and the human guards, and
/// nothing but those.
pub proof fn law_a_gesture_without_an_element_is_still_guarded(
    app: AppInfo,
    watch: Watch,
    around: Surroundings,
    request: Request,
    gate: Gate,
)
    requires
        request.judged_target() is None,
        gate.verb@ == request.verb(),
        gate.target == request.judged_target(),
        gate.confirm_destructive == request.is_confirmed(),
        text_of(gate.key) == request.judged_key(),
    ensures
        verdict(app, watch, around, gate, None) == standing_objection(
            app,
            watch,
            request.verb(),
            around,
        ),
{
}

/// A request is judged by the element it is aimed at, whatever it does there; a drag, a hover and a
/// click on a pixel are aimed at none. A key counts besides, and is the only one that does.
pub proof fn law_a_request_is_judged_by_what_it_is_aimed_at(
    target: Target,
    key: String,
    confirmed: bool,
)
    ensures
        ({
            let aimed = seq![
                Request::Click { target, confirm_destructive: confirmed },
                Request::SetValue { target },
                Request::Scroll { target },
                Request::TypeText { target },
                Request::SelectText { target },
                Request::PressKey { target, key, confirm_destructive: confirmed },
                Request::PerformAction { target, confirm_destructive: confirmed },
            ];
            forall|i: int|
                0 <= i < aimed.len() ==> (#[trigger] aimed[i]).judged_target() == Some(target) && (
                aimed[i].judged_key() is Some <==> aimed[i] is PressKey)
        }),
        ({
            let elementless = seq![Request::Drag, Request::Hover, Request::ClickInWindow];
            forall|i: int|
                0 <= i < elementless.len() ==> {
                    &&& (#[trigger] elementless[i]).judged_target() is None
                    &&& elementless[i].judged_key() is None
                    &&& !elementless[i].is_confirmed()
                }
        }),
        (Request::PressKey { target, key, confirm_destructive: confirmed }).judged_key() == Some(
            key@,
        ),
{
}

/// A confirmation is the caller's own, and only a click, a key and an action by name take one: no
/// other request passes for confirmed.
pub proof fn law_only_what_presses_can_be_confirmed(request: Request)
    ensures
        request.is_confirmed() ==> request is Click || request is PressKey || request is PerformAction,
        request is Click ==> request.is_confirmed() == request->Click_confirm_destructive,
        request is PressKey ==> request.is_confirmed() == request->PressKey_confirm_destructive,
        request is PerformAction ==> request.is_confirmed()
            == request->PerformAction_confirm_destructive,
{
}

} // verus!
