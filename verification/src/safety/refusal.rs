//! Why an action was refused before it was attempted.
use vstd::prelude::*;
use crate::decimal::{decimal, numeral, signed_decimal, signed_numeral};
use crate::text::{debug_quoted, owned, quoted};

pub mod laws;

verus! {

/// Why an action was refused before it was attempted.
///
/// Every variant names what was refused and what the caller can do about it. An error that an agent
/// cannot act on just becomes a retry loop.
#[derive(Debug, Clone)]
pub enum Refused {
    /// The app holds credentials or guards the system, and nobody may drive it.
    ForbiddenTarget { verb: &'static str, app: String, bundle_id: String, why: &'static str },
    /// The session is locked or its screen saver is running.
    SessionLocked { verb: &'static str },
    /// The app is outside the scope that the human granted when they started the server.
    NotInAllowlist { verb: &'static str, app: String, bundle_id: String, allowed: String },
    /// The run is scoped and the target presents no bundle identifier at all, so it cannot be
    /// compared to the scope. That fails closed.
    UnidentifiableUnderAllowlist { verb: &'static str, app: String, pid: i32, allowed: String },
    /// The control reads as destructive.
    NeedsConfirmation { verb: &'static str, target: String, matched: String },
    /// The control is terse and the question around it is destructive.
    NeedsConfirmationInContext {
        verb: &'static str,
        target: String,
        context: String,
        question: String,
        matched: String,
    },
    /// The key removes something, whatever it lands on.
    NeedsConfirmationForKey { key: String, target: String, matched: String },
    /// The human is using the app.
    HumanTookOver { verb: &'static str, app: String, ago_ms: u64, idle_ms: u64 },
    /// Yielding to the human was asked for and cannot be provided.
    YieldWatchUnavailable { verb: &'static str, reason: String },
}

/// What a [`Refused`] says.
pub enum RefusedText {
    ForbiddenTarget { verb: Seq<char>, app: Seq<char>, bundle_id: Seq<char>, why: Seq<char> },
    SessionLocked { verb: Seq<char> },
    NotInAllowlist { verb: Seq<char>, app: Seq<char>, bundle_id: Seq<char>, allowed: Seq<char> },
    UnidentifiableUnderAllowlist {
        verb: Seq<char>,
        app: Seq<char>,
        pid: i32,
        allowed: Seq<char>,
    },
    NeedsConfirmation { verb: Seq<char>, target: Seq<char>, matched: Seq<char> },
    NeedsConfirmationInContext {
        verb: Seq<char>,
        target: Seq<char>,
        context: Seq<char>,
        question: Seq<char>,
        matched: Seq<char>,
    },
    NeedsConfirmationForKey { key: Seq<char>, target: Seq<char>, matched: Seq<char> },
    HumanTookOver { verb: Seq<char>, app: Seq<char>, ago_ms: u64, idle_ms: u64 },
    YieldWatchUnavailable { verb: Seq<char>, reason: Seq<char> },
}

impl View for Refused {
    type V = RefusedText;

    open spec fn view(&self) -> RefusedText {
        match self {
            Refused::ForbiddenTarget { verb, app, bundle_id, why } => RefusedText::ForbiddenTarget {
                verb: verb@,
                app: app@,
                bundle_id: bundle_id@,
                why: why@,
            },
            Refused::SessionLocked { verb } => RefusedText::SessionLocked { verb: verb@ },
            Refused::NotInAllowlist { verb, app, bundle_id, allowed } => {
                RefusedText::NotInAllowlist {
                    verb: verb@,
                    app: app@,
                    bundle_id: bundle_id@,
                    allowed: allowed@,
                }
            },
            Refused::UnidentifiableUnderAllowlist { verb, app, pid, allowed } => {
                RefusedText::UnidentifiableUnderAllowlist {
                    verb: verb@,
                    app: app@,
                    pid: *pid,
                    allowed: allowed@,
                }
            },
            Refused::NeedsConfirmation { verb, target, matched } => {
                RefusedText::NeedsConfirmation { verb: verb@, target: target@, matched: matched@ }
            },
            Refused::NeedsConfirmationInContext { verb, target, context, question, matched } => {
                RefusedText::NeedsConfirmationInContext {
                    verb: verb@,
                    target: target@,
                    context: context@,
                    question: question@,
                    matched: matched@,
                }
            },
            Refused::NeedsConfirmationForKey { key, target, matched } => {
                RefusedText::NeedsConfirmationForKey {
                    key: key@,
                    target: target@,
                    matched: matched@,
                }
            },
            Refused::HumanTookOver { verb, app, ago_ms, idle_ms } => RefusedText::HumanTookOver {
                verb: verb@,
                app: app@,
                ago_ms: *ago_ms,
                idle_ms: *idle_ms,
            },
            Refused::YieldWatchUnavailable { verb, reason } => {
                RefusedText::YieldWatchUnavailable { verb: verb@, reason: reason@ }
            },
        }
    }
}

impl RefusedText {
    /// The sentence for the agent.
    pub open spec fn sentence(self) -> Seq<char> {
        match self {
            RefusedText::ForbiddenTarget { verb, app, bundle_id, why } => {
                "refusing to "@ + verb + " in `"@ + app + "` ("@ + bundle_id
                    + "): cua-rs treats this app as a forbidden target because it "@ + why
                    + ". A synthesized event here can expose or destroy a credential, and nothing in cua-rs \
                    can tell the safe control from the unsafe one reliably enough to risk it. Reading is \
                    still allowed (get_app_state, find, list_apps), except for screenshots. To act on it \
                    anyway, set CUA_ALLOW_FORBIDDEN_TARGETS=1 in the environment of the process that \
                    launches cua-rs and restart the server"@
            },
            RefusedText::SessionLocked { verb } => {
                "refusing to "@ + verb
                    + ": this login session is locked or its screen saver is running. cua-rs will not \
                    deliver input to a session no human is watching — the window that would receive it \
                    cannot be seen, and neither can the result. Reads still work. Unlock the session and \
                    retry"@
            },
            RefusedText::NotInAllowlist { verb, app, bundle_id, allowed } => {
                "refusing to "@ + verb + " in `"@ + app + "` ("@ + bundle_id
                    + "): this cua-rs run is scoped to CUA_ALLOWED_APPS="@ + allowed + ", and `"@
                    + bundle_id
                    + "` is not in it. Reading is still allowed (get_app_state, find, list_apps) — the \
                    scope limits what may be *acted on*. Only the human who launched the server can \
                    widen it: add the bundle identifier to CUA_ALLOWED_APPS and restart. list_apps \
                    prints the identifier for every running app"@
            },
            RefusedText::UnidentifiableUnderAllowlist { verb, app, pid, allowed } => {
                "refusing to "@ + verb + " in `"@ + app + "` (pid "@
                    + signed_numeral(pid as int)
                    + "): this cua-rs run is scoped to CUA_ALLOWED_APPS="@ + allowed
                    + ", and this process publishes no bundle identifier, so it cannot be matched against \
                    that scope. Scoping fails closed rather than admitting what it cannot name. Reading \
                    is still allowed. Unset CUA_ALLOWED_APPS to drive unbundled processes"@
            },
            RefusedText::NeedsConfirmation { verb, target, matched } => {
                "refusing to "@ + verb + " "@ + target
                    + ": this reads as a destructive control (matched "@ + debug_quoted(matched)
                    + "). Pass confirm_destructive: true on this same call to proceed — that is the whole \
                    gate, and it exists so the decision is visible in the transcript rather than made \
                    silently by the server. cua-rs deliberately over-reports here: if this is a false \
                    positive, confirming is the correct answer and costs one round trip"@
            },
            RefusedText::NeedsConfirmationInContext { verb, target, context, question, matched } => {
                "refusing to "@ + verb + " "@ + target + ": it answers a decision context ("@
                    + context + ") whose own text reads as a destructive question — "@
                    + debug_quoted(question) + " (matched "@ + debug_quoted(matched)
                    + "). The answer is terse but the question is not, and cua-rs classifies the decision \
                    rather than the wording of the button. Pass confirm_destructive: true on this same \
                    call to proceed. An answer that names its own harmlessness (Cancel, No, Keep, Save, \
                    취소, 저장 …) is never refused here, so backing out of this dialog — or saving instead \
                    of discarding — needs no confirmation"@
            },
            RefusedText::NeedsConfirmationForKey { key, target, matched } => {
                "refusing to press "@ + debug_quoted(key) + " on "@ + target
                    + ": this key removes something here (matched "@ + debug_quoted(matched)
                    + ") — a modified Delete is Move to Trash in most apps, and a bare Delete outside a \
                    text field acts on whatever is selected. Pass confirm_destructive: true on this same \
                    call to proceed"@
            },
            RefusedText::HumanTookOver { verb, app, ago_ms, idle_ms } => {
                "refusing to "@ + verb + " in `"@ + app
                    + "`: the human took over. Real input arrived "@ + numeral(ago_ms as nat)
                    + "ms ago while `"@ + app
                    + "` was the frontmost app, and CUA_YIELD_TO_HUMAN=1 tells cua-rs to stand down rather \
                    than compete for the window somebody is using. Retry once they have left it alone \
                    for "@
                    + numeral(idle_ms as nat)
                    + "ms, drive a different app, or unset CUA_YIELD_TO_HUMAN"@
            },
            RefusedText::YieldWatchUnavailable { verb, reason } => {
                "refusing to "@ + verb
                    + ": CUA_YIELD_TO_HUMAN=1 asks cua-rs to stop when the human starts using the app it is \
                    driving, but the listen-only input tap that would notice could not be created ("@
                    + reason
                    + "), so it cannot tell. This fails closed on purpose. Grant Accessibility to the \
                    process that launched cua-rs, or unset CUA_YIELD_TO_HUMAN"@
            },
        }
    }
}

impl Refused {
    /// The sentence for the agent.
    pub fn message(&self) -> (r: String)
        ensures
            r@ == self@.sentence(),
    {
        match self {
            Refused::ForbiddenTarget { verb, app, bundle_id, why } => {
                let mut out = owned("refusing to ");
                out.append(verb);
                out.append(" in `");
                out.append(app.as_str());
                out.append("` (");
                out.append(bundle_id.as_str());
                out.append("): cua-rs treats this app as a forbidden target because it ");
                out.append(why);
                out.append(
                    ". A synthesized event here can expose or destroy a credential, and nothing in cua-rs \
                        can tell the safe control from the unsafe one reliably enough to risk it. Reading is \
                        still allowed (get_app_state, find, list_apps), except for screenshots. To act on it \
                        anyway, set CUA_ALLOW_FORBIDDEN_TARGETS=1 in the environment of the process that \
                        launches cua-rs and restart the server",
                );
                out
            },
            Refused::SessionLocked { verb } => {
                let mut out = owned("refusing to ");
                out.append(verb);
                out.append(
                    ": this login session is locked or its screen saver is running. cua-rs will not \
                        deliver input to a session no human is watching — the window that would receive it \
                        cannot be seen, and neither can the result. Reads still work. Unlock the session and \
                        retry",
                );
                out
            },
            Refused::NotInAllowlist { verb, app, bundle_id, allowed } => {
                let mut out = owned("refusing to ");
                out.append(verb);
                out.append(" in `");
                out.append(app.as_str());
                out.append("` (");
                out.append(bundle_id.as_str());
                out.append("): this cua-rs run is scoped to CUA_ALLOWED_APPS=");
                out.append(allowed.as_str());
                out.append(", and `");
                out.append(bundle_id.as_str());
                out.append(
                    "` is not in it. Reading is still allowed (get_app_state, find, list_apps) — the \
                        scope limits what may be *acted on*. Only the human who launched the server can \
                        widen it: add the bundle identifier to CUA_ALLOWED_APPS and restart. list_apps \
                        prints the identifier for every running app",
                );
                out
            },
            Refused::UnidentifiableUnderAllowlist { verb, app, pid, allowed } => {
                let mut out = owned("refusing to ");
                out.append(verb);
                out.append(" in `");
                out.append(app.as_str());
                out.append("` (pid ");
                out.append(signed_decimal(*pid as i64).as_str());
                out.append("): this cua-rs run is scoped to CUA_ALLOWED_APPS=");
                out.append(allowed.as_str());
                out.append(
                    ", and this process publishes no bundle identifier, so it cannot be matched against \
                        that scope. Scoping fails closed rather than admitting what it cannot name. Reading \
                        is still allowed. Unset CUA_ALLOWED_APPS to drive unbundled processes",
                );
                out
            },
            Refused::NeedsConfirmation { verb, target, matched } => {
                let mut out = owned("refusing to ");
                out.append(verb);
                out.append(" ");
                out.append(target.as_str());
                out.append(": this reads as a destructive control (matched ");
                out.append(quoted(matched.as_str()).as_str());
                out.append(
                    "). Pass confirm_destructive: true on this same call to proceed — that is the whole \
                        gate, and it exists so the decision is visible in the transcript rather than made \
                        silently by the server. cua-rs deliberately over-reports here: if this is a false \
                        positive, confirming is the correct answer and costs one round trip",
                );
                out
            },
            Refused::NeedsConfirmationInContext { verb, target, context, question, matched } => {
                let mut out = owned("refusing to ");
                out.append(verb);
                out.append(" ");
                out.append(target.as_str());
                out.append(": it answers a decision context (");
                out.append(context.as_str());
                out.append(") whose own text reads as a destructive question — ");
                out.append(quoted(question.as_str()).as_str());
                out.append(" (matched ");
                out.append(quoted(matched.as_str()).as_str());
                out.append(
                    "). The answer is terse but the question is not, and cua-rs classifies the decision \
                        rather than the wording of the button. Pass confirm_destructive: true on this same \
                        call to proceed. An answer that names its own harmlessness (Cancel, No, Keep, Save, \
                        취소, 저장 …) is never refused here, so backing out of this dialog — or saving instead \
                        of discarding — needs no confirmation",
                );
                out
            },
            Refused::NeedsConfirmationForKey { key, target, matched } => {
                let mut out = owned("refusing to press ");
                out.append(quoted(key.as_str()).as_str());
                out.append(" on ");
                out.append(target.as_str());
                out.append(": this key removes something here (matched ");
                out.append(quoted(matched.as_str()).as_str());
                out.append(
                    ") — a modified Delete is Move to Trash in most apps, and a bare Delete outside a \
                        text field acts on whatever is selected. Pass confirm_destructive: true on this same \
                        call to proceed",
                );
                out
            },
            Refused::HumanTookOver { verb, app, ago_ms, idle_ms } => {
                let mut out = owned("refusing to ");
                out.append(verb);
                out.append(" in `");
                out.append(app.as_str());
                out.append("`: the human took over. Real input arrived ");
                out.append(decimal(*ago_ms as u64).as_str());
                out.append("ms ago while `");
                out.append(app.as_str());
                out.append(
                    "` was the frontmost app, and CUA_YIELD_TO_HUMAN=1 tells cua-rs to stand down rather \
                        than compete for the window somebody is using. Retry once they have left it alone \
                        for ",
                );
                out.append(decimal(*idle_ms as u64).as_str());
                out.append("ms, drive a different app, or unset CUA_YIELD_TO_HUMAN");
                out
            },
            Refused::YieldWatchUnavailable { verb, reason } => {
                let mut out = owned("refusing to ");
                out.append(verb);
                out.append(
                    ": CUA_YIELD_TO_HUMAN=1 asks cua-rs to stop when the human starts using the app it is \
                        driving, but the listen-only input tap that would notice could not be created (",
                );
                out.append(reason.as_str());
                out.append(
                    "), so it cannot tell. This fails closed on purpose. Grant Accessibility to the \
                        process that launched cua-rs, or unset CUA_YIELD_TO_HUMAN",
                );
                out
            },
        }
    }
}

} // verus!
