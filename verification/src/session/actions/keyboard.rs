//! Pressing keys.
use vstd::prelude::*;
use crate::session::actions::{action_outcome, landed, ActionResult, ActionText, NO_ROUTE};
use crate::session::delivery::{KeyboardCapability, KeyboardStrategy};
use crate::session::error::{outcome, CoreError, CoreErrorText};
use crate::session::kinds::{
    ax_verb_for_key, verb_for_key, Delivery, FocusCheck, FocusCheckText, FocusState,
};
use crate::session::observe::Settled;
use crate::session::tokens::{has_text, list_of, list_text};
use crate::session::windows::PointBits;
use crate::text::{owned, texts};

verus! {

/// What strict focus says of a send: it is refused where the app names another element as focused,
/// and only there. An app that names none has said nothing.
pub open spec fn focus_objection(
    strict: bool,
    focus: FocusCheckText,
    what: Seq<char>,
    addressed: Seq<char>,
) -> Option<CoreErrorText> {
    if strict && focus.state == FocusState::Mismatched {
        Some(
            CoreErrorText::FocusMismatch {
                what,
                addressed,
                focused: match focus.focused_instead {
                    Some(name) => name,
                    None => "another element"@,
                },
            },
        )
    } else {
        None
    }
}

/// Refuses a send where strict focus is on and the app names a different element as focused.
/// Nothing has been posted at this point.
pub fn enforce_strict_focus(
    capability: KeyboardCapability,
    focus: &FocusCheck,
    what: &str,
    addressed: &str,
) -> (r: Result<(), CoreError>)
    ensures
        match r {
            Ok(_) => focus_objection(capability.strict_focus, focus@, what@, addressed@) is None,
            Err(e) => focus_objection(capability.strict_focus, focus@, what@, addressed@) == Some(
                e@,
            ),
        },
{
    if capability.strict_focus && focus.state == FocusState::Mismatched {
        let focused = match &focus.focused_instead {
            Some(name) => owned(name.as_str()),
            None => owned("another element"),
        };
        return Err(
            CoreError::FocusMismatch { what: owned(what), addressed: owned(addressed), focused },
        );
    }
    Ok(())
}

/// Which route a key takes.
#[derive(Debug, Clone, Copy)]
pub enum KeyRoute {
    /// A key event posted to the process.
    Pid,
    /// An accessibility verb.
    Verb(&'static str),
}

/// What a [`KeyRoute`] says.
pub enum KeyRouteText {
    Pid,
    Verb(Seq<char>),
}

impl View for KeyRoute {
    type V = KeyRouteText;

    open spec fn view(&self) -> KeyRouteText {
        match self {
            KeyRoute::Pid => KeyRouteText::Pid,
            KeyRoute::Verb(v) => KeyRouteText::Verb(v@),
        }
    }
}

/// Which route a key takes, or why it takes none. What a key cannot express is reported before
/// anything else is looked at.
pub open spec fn route_of_key(
    strategy: KeyboardStrategy,
    key: Seq<char>,
    chord: Result<(), Seq<char>>,
) -> Result<KeyRouteText, CoreErrorText> {
    match strategy {
        KeyboardStrategy::Pid => match chord {
            Ok(_) => Ok(KeyRouteText::Pid),
            Err(reason) => Err(CoreErrorText::KeyChordUnparseable { key, reason }),
        },
        KeyboardStrategy::AxOnly => match verb_for_key(key) {
            Some(verb) => Ok(KeyRouteText::Verb(verb)),
            None => Err(CoreErrorText::KeyNoAccessibilityEquivalent { key }),
        },
    }
}

/// Chooses the route of a key, given what parsing it as a chord came to.
pub fn key_route(capability: KeyboardCapability, key: &str, chord: Result<(), String>) -> (r: Result<
    KeyRoute,
    CoreError,
>)
    ensures
        match r {
            Ok(route) => route_of_key(
                capability.strategy,
                key@,
                match chord {
                    Ok(_) => Ok(()),
                    Err(e) => Err(e@),
                },
            ) == Ok::<KeyRouteText, CoreErrorText>(route@),
            Err(e) => route_of_key(
                capability.strategy,
                key@,
                match chord {
                    Ok(_) => Ok(()),
                    Err(e) => Err(e@),
                },
            ) == Err::<KeyRouteText, CoreErrorText>(e@),
        },
{
    match capability.strategy {
        KeyboardStrategy::Pid => match chord {
            Ok(_) => Ok(KeyRoute::Pid),
            Err(reason) => Err(CoreError::KeyChordUnparseable { key: owned(key), reason }),
        },
        KeyboardStrategy::AxOnly => match ax_verb_for_key(key) {
            Some(verb) => Ok(KeyRoute::Verb(verb)),
            None => Err(CoreError::KeyNoAccessibilityEquivalent { key: owned(key) }),
        },
    }
}

/// Refuses keys where the quiet route does not exist.
pub fn require_route(routed: bool, key: &str) -> (r: Result<(), CoreError>)
    ensures
        outcome(r) == (if routed {
            Ok::<(), CoreErrorText>(())
        } else {
            Err(CoreErrorText::PidKeyUnavailable { key: key@, reason: NO_ROUTE@ })
        }),
{
    if routed {
        Ok(())
    } else {
        Err(CoreError::PidKeyUnavailable { key: owned(key), reason: owned(NO_ROUTE) })
    }
}

/// What posting keys to a process came to.
pub open spec fn posted_keys(
    posted: Result<Settled, String>,
    key: Seq<char>,
    verb: Seq<char>,
    target: Seq<char>,
    focus: FocusCheckText,
    point: Option<PointBits>,
    overlay_target: Option<(u32, i32)>,
) -> Result<ActionText, CoreErrorText> {
    match posted {
        Ok(settled) => Ok(
            ActionText {
                focus: Some(focus),
                ..landed(verb, target, settled, Delivery::PidKey, point, overlay_target)
            },
        ),
        Err(e) => Err(CoreErrorText::PidKeyUnavailable { key, reason: e@ }),
    }
}

/// Reports keys posted to a process: what they changed and where the focus was, or why posting
/// failed.
pub fn keys_posted(
    posted: Result<Settled, String>,
    key: &str,
    verb: String,
    target: String,
    focus: FocusCheck,
    point: Option<PointBits>,
    overlay_target: Option<(u32, i32)>,
) -> (r: Result<ActionResult, CoreError>)
    ensures
        action_outcome(r) == posted_keys(
            posted,
            key@,
            verb@,
            target@,
            focus@,
            point,
            overlay_target,
        ),
{
    match posted {
        Ok(settled) => Ok(
            ActionResult::carried(
                verb,
                target,
                settled,
                Delivery::PidKey,
                point,
                overlay_target,
            ).with_focus(focus),
        ),
        Err(e) => Err(CoreError::PidKeyUnavailable { key: owned(key), reason: e }),
    }
}

/// How a key reads in a refusal and in a result.
pub open spec fn key_words(before: Seq<char>, key: Seq<char>) -> Seq<char> {
    before + key + "`"@
}

fn key_wording(before: &str, key: &str) -> (r: String)
    ensures
        r@ == key_words(before@, key@),
{
    let mut out = owned(before);
    out.append(key);
    out.append("`");
    out
}

/// Clears a key for posting, once the element has been primed and the focus read back.
pub fn clear_key(
    capability: KeyboardCapability,
    focus: &FocusCheck,
    key: &str,
    addressed: &str,
) -> (r: Result<(), CoreError>)
    ensures
        match r {
            Ok(_) => focus_objection(
                capability.strict_focus,
                focus@,
                key_words("key `"@, key@),
                addressed@,
            ) is None,
            Err(e) => focus_objection(
                capability.strict_focus,
                focus@,
                key_words("key `"@, key@),
                addressed@,
            ) == Some(e@),
        },
{
    enforce_strict_focus(capability, focus, key_wording("key `", key).as_str(), addressed)
}

/// Reports a key posted to a process.
pub fn press_key(
    posted: Result<Settled, String>,
    key: &str,
    target: String,
    focus: FocusCheck,
    point: Option<PointBits>,
    overlay_target: Option<(u32, i32)>,
) -> (r: Result<ActionResult, CoreError>)
    ensures
        action_outcome(r) == posted_keys(
            posted,
            key@,
            key_words("pid-routed key `"@, key@),
            target@,
            focus@,
            point,
            overlay_target,
        ),
{
    let verb = key_wording("pid-routed key `", key);
    keys_posted(posted, key, verb, target, focus, point, overlay_target)
}

/// What speaks against a key's verb: that this element does not take it.
pub open spec fn verb_objection(
    key: Seq<char>,
    verb: Seq<char>,
    available: Seq<Seq<char>>,
) -> Option<CoreErrorText> {
    if available.contains(verb) {
        None
    } else {
        Some(
            CoreErrorText::KeyVerbUnsupported { key, verb, available: list_text(available) },
        )
    }
}

/// Refuses a key whose verb this element does not take, naming those it does.
pub fn require_verb(key: &str, verb: &'static str, available: &Vec<String>) -> (r: Result<
    (),
    CoreError,
>)
    ensures
        match r {
            Ok(_) => verb_objection(key@, verb@, texts(available@)) is None,
            Err(e) => verb_objection(key@, verb@, texts(available@)) == Some(e@),
        },
{
    if has_text(available, verb) {
        Ok(())
    } else {
        Err(
            CoreError::KeyVerbUnsupported {
                key: owned(key),
                verb,
                available: list_of(available),
            },
        )
    }
}

/// How a key that went through accessibility reads.
pub open spec fn verb_words(verb: Seq<char>, key: Seq<char>) -> Seq<char> {
    verb + " (for "@ + key + ")"@
}

/// Computes [`verb_words`].
pub fn key_verb_name(verb: &str, key: &str) -> (r: String)
    ensures
        r@ == verb_words(verb@, key@),
{
    let mut out = owned(verb);
    out.append(" (for ");
    out.append(key);
    out.append(")");
    out
}

// -- laws --------------------------------------------------------------------------------------

/// Strict focus refuses only where the app names another element; silence still delivers. Without
/// it nothing is refused on account of focus.
pub proof fn law_strict_focus_refuses_only_a_mismatch(
    strict: bool,
    focus: FocusCheckText,
    what: Seq<char>,
    addressed: Seq<char>,
)
    ensures
        focus_objection(strict, focus, what, addressed) is Some <==> strict && focus.state
            == FocusState::Mismatched,
{
}

/// Posted keys always say where the focus was, and are labelled as keys.
pub proof fn law_posted_keys_report_their_focus(
    settled: Settled,
    key: Seq<char>,
    verb: Seq<char>,
    target: Seq<char>,
    focus: FocusCheckText,
    point: Option<PointBits>,
    overlay_target: Option<(u32, i32)>,
)
    ensures
        ({
            let r = posted_keys(
                Ok(settled),
                key,
                verb,
                target,
                focus,
                point,
                overlay_target,
            );
            r is Ok && r->Ok_0.focus == Some(focus) && r->Ok_0.delivery == Delivery::PidKey
        }),
{
}

} // verus!
