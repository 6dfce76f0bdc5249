//! Writing and selecting text.
use vstd::prelude::*;
use crate::decimal::{decimal, numeral, signed_decimal, signed_numeral};
use crate::session::actions::keyboard::{
    enforce_strict_focus, focus_objection, keys_posted, posted_keys, require_route,
};
use crate::session::actions::{
    action_outcome, ax_action, ax_outcome, ActionResult, ActionText, NO_ROUTE,
};
use crate::session::delivery::KeyboardCapability;
use crate::session::error::{outcome, CoreError, CoreErrorText};
use crate::session::kinds::{Delivery, FocusCheck, Observed};
use crate::session::observe::Settled;
use crate::session::windows::{PointBits, TransientWindow};
use crate::text::owned;

verus! {

/// Reports the replacement of an element's value: one write, addressed at the element.
pub fn set_value(
    wrote: Result<Settled, String>,
    target: String,
    point: Option<PointBits>,
    overlay_target: Option<(u32, i32)>,
) -> (r: Result<ActionResult, CoreError>)
    ensures
        action_outcome(r) == ax_outcome(wrote, "AXValue="@, target@, point, overlay_target),
{
    ax_action(wrote, "AXValue=", target, point, overlay_target)
}

/// Reports text that was appended through accessibility, naming how. "Typed" would imply
/// keystrokes.
pub fn type_text(
    wrote: Result<Settled, String>,
    how: &str,
    target: String,
    point: Option<PointBits>,
    overlay_target: Option<(u32, i32)>,
) -> (r: Result<ActionResult, CoreError>)
    ensures
        action_outcome(r) == ax_outcome(
            wrote,
            "AXSelectedText+ ("@ + how@ + ")"@,
            target@,
            point,
            overlay_target,
        ),
{
    let mut verb = owned("AXSelectedText+ (");
    verb.append(how);
    verb.append(")");
    ax_action(wrote, verb.as_str(), target, point, overlay_target)
}

/// Refuses keystrokes where there is nothing to type, or no quiet route to type on.
pub fn clear_keystrokes(text: &str, routed: bool) -> (r: Result<(), CoreError>)
    ensures
        outcome(r) == (if text@.len() == 0 {
            Err::<(), CoreErrorText>(
                CoreErrorText::PidKeyUnavailable {
                    key: "<empty string>"@,
                    reason: "there is nothing to type"@,
                },
            )
        } else if !routed {
            Err(CoreErrorText::PidKeyUnavailable { key: text@, reason: NO_ROUTE@ })
        } else {
            Ok(())
        }),
{
    if text.is_empty() {
        return Err(
            CoreError::PidKeyUnavailable {
                key: owned("<empty string>"),
                reason: owned("there is nothing to type"),
            },
        );
    }
    require_route(routed, text)
}

/// Refuses keystrokes where strict focus is on and the app names a different element as focused. A
/// miss would be repeated once per character.
pub fn clear_keystroke_focus(
    capability: KeyboardCapability,
    focus: &FocusCheck,
    text: &str,
    addressed: &str,
) -> (r: Result<(), CoreError>)
    ensures
        match r {
            Ok(_) => focus_objection(
                capability.strict_focus,
                focus@,
                numeral(text@.len()) + " characters"@,
                addressed@,
            ) is None,
            Err(e) => focus_objection(
                capability.strict_focus,
                focus@,
                numeral(text@.len()) + " characters"@,
                addressed@,
            ) == Some(e@),
        },
{
    let mut what = decimal(text.unicode_len() as u64);
    what.append(" characters");
    enforce_strict_focus(capability, focus, what.as_str(), addressed)
}

/// Reports text that was typed as key events posted to the process, one per character.
pub fn type_text_as_keystrokes(
    posted: Result<Settled, String>,
    text: &str,
    target: String,
    focus: FocusCheck,
    point: Option<PointBits>,
    overlay_target: Option<(u32, i32)>,
) -> (r: Result<ActionResult, CoreError>)
    ensures
        action_outcome(r) == posted_keys(
            posted,
            text@,
            "pid-routed keystrokes ("@ + numeral(text@.len()) + " characters)"@,
            target@,
            focus@,
            point,
            overlay_target,
        ),
{
    let mut verb = owned("pid-routed keystrokes (");
    verb.append(decimal(text.unicode_len() as u64).as_str());
    verb.append(" characters)");
    keys_posted(posted, text, verb, target, focus, point, overlay_target)
}

/// How a selection reads.
pub open spec fn selection_verb(offset: int, length: int) -> Seq<char> {
    "AXSelectedTextRange={offset:"@ + signed_numeral(offset) + ",length:"@ + signed_numeral(length)
        + "}"@
}

/// Reports a selection. It changes no window state that could be observed, so nothing is claimed
/// either way: the range is the evidence that it worked.
pub fn select_text(
    selected: Result<(i64, i64), String>,
    target: String,
    point: Option<PointBits>,
    overlay_target: Option<(u32, i32)>,
) -> (r: Result<ActionResult, CoreError>)
    ensures
        match selected {
            Err(e) => r is Err && r->Err_0@ == CoreErrorText::Ax(e@),
            Ok((offset, length)) => {
                &&& r is Ok
                &&& r->Ok_0@ == (ActionText {
                    verb: selection_verb(offset as int, length as int),
                    target: target@,
                    ui_changed: Observed::Unknown,
                    popups: Seq::<TransientWindow>::empty(),
                    delivery: Delivery::Ax,
                    point,
                    overlay_target,
                    state: None,
                    focus: None,
                })
            },
        },
{
    let (offset, length): (i64, i64) = match selected {
        Ok(range) => range,
        Err(e) => {
            return Err(CoreError::Ax(e));
        },
    };
    let mut verb = owned("AXSelectedTextRange={offset:");
    verb.append(signed_decimal(offset).as_str());
    verb.append(",length:");
    verb.append(signed_decimal(length).as_str());
    verb.append("}");
    let settled = Settled { changed: Observed::Unknown, popups: Vec::new() };
    Ok(
        ActionResult::ax_at(verb.as_str(), target, settled, point).with_overlay_target(
            overlay_target,
        ),
    )
}

} // verus!
