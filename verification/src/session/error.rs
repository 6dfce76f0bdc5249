//! What can go wrong.
use vstd::prelude::*;
use crate::apps::{ResolveError, ResolveErrorText};
use crate::decimal::{decimal, numeral};
use crate::safety::refusal::{Refused, RefusedText};
use crate::text::owned;

pub mod laws;

verus! {

/// Why a request failed.
#[derive(Debug, Clone)]
pub enum CoreError {
    /// The app could not be named.
    Resolve(ResolveError),
    /// Accessibility failed; the text is its own.
    Ax(String),
    /// Capturing a window failed; the text is the capturer's own.
    Capture(String),
    /// A guard declined to let this action happen. The message always names the way out.
    Refused(Refused),
    /// The agent acted on an index from a snapshot that has since been replaced. Honoring it would
    /// act on the wrong thing.
    StaleSnapshot { index: usize, given: u64, current: u64 },
    /// Nothing has been read of the app yet.
    NoSnapshot { app: String },
    /// The app was relaunched since the snapshot.
    ProcessReplaced { app: String },
    /// The snapshot has no such element.
    BadIndex { index: usize, count: usize },
    /// Accessibility answered, and there is no window.
    NoWindow { app: String },
    /// Accessibility did not answer at all, twice in a row. The window may well be there.
    WindowQueryTimedOut { app: String },
    /// The key has no equivalent that could be addressed to an element.
    KeyNoAccessibilityEquivalent { key: String },
    /// The key has a verb, but this particular element does not accept it.
    KeyVerbUnsupported { key: String, verb: &'static str, available: String },
    /// The key is no chord that the keyboard parser understands.
    KeyChordUnparseable { key: String, reason: String },
    /// The chord could not be delivered to the process.
    PidKeyUnavailable { key: String, reason: String },
    /// Strict focus refused to deliver, because the app names a different element as focused.
    FocusMismatch { what: String, addressed: String, focused: String },
    /// Accessibility has no verb for the click, and the quiet route is not available either.
    PidClickUnavailable { original: String, reason: String },
    /// The click could not be delivered. Accessibility was not tried.
    PidClickFailed { reason: String },
    /// The live element no longer holds the text of the snapshot: a list may recycle one handle for
    /// another row.
    TargetChanged { index: usize, expected: String, found: String },
    /// A token named a role that the element at its index no longer has.
    TokenRoleMismatch { index: usize, expected: String, found: String },
    /// A coordinate was resolved against a snapshot that an action has already invalidated.
    StalePointGeometry { app: String },
    /// A coordinate cited a snapshot that is no longer the current one. Nothing about a stale point
    /// looks wrong, so it has to be refused on the generation number.
    StaleCoordinate { app: String, given: u64, current: u64, at: String },
    /// A coordinate landed on nothing in the app's current snapshot.
    NoElementAtPoint { app: String, at: String },
    /// A click without an element could not be delivered.
    WindowClickRefused { app: String, wid: u32, at: String, reason: String },
    /// A drag could not be delivered.
    DragRefused { app: String, from: String, to: String, reason: String },
    /// A hover or a wheel event could not be delivered.
    PointerEventRefused { app: String, event: &'static str, reason: String },
    /// A menu bar path did not lead anywhere pressable.
    MenuPath { app: String, reason: String },
    /// The native worker thread died.
    WorkerGone,
    /// A native call panicked. The worker remains alive.
    NativePanic,
}

/// What a [`CoreError`] says.
pub enum CoreErrorText {
    Resolve(ResolveErrorText),
    Ax(Seq<char>),
    Capture(Seq<char>),
    Refused(RefusedText),
    StaleSnapshot { index: usize, given: u64, current: u64 },
    NoSnapshot { app: Seq<char> },
    ProcessReplaced { app: Seq<char> },
    BadIndex { index: usize, count: usize },
    NoWindow { app: Seq<char> },
    WindowQueryTimedOut { app: Seq<char> },
    KeyNoAccessibilityEquivalent { key: Seq<char> },
    KeyVerbUnsupported { key: Seq<char>, verb: Seq<char>, available: Seq<char> },
    KeyChordUnparseable { key: Seq<char>, reason: Seq<char> },
    PidKeyUnavailable { key: Seq<char>, reason: Seq<char> },
    FocusMismatch { what: Seq<char>, addressed: Seq<char>, focused: Seq<char> },
    PidClickUnavailable { original: Seq<char>, reason: Seq<char> },
    PidClickFailed { reason: Seq<char> },
    TargetChanged { index: usize, expected: Seq<char>, found: Seq<char> },
    TokenRoleMismatch { index: usize, expected: Seq<char>, found: Seq<char> },
    StalePointGeometry { app: Seq<char> },
    StaleCoordinate { app: Seq<char>, given: u64, current: u64, at: Seq<char> },
    NoElementAtPoint { app: Seq<char>, at: Seq<char> },
    WindowClickRefused { app: Seq<char>, wid: u32, at: Seq<char>, reason: Seq<char> },
    DragRefused { app: Seq<char>, from: Seq<char>, to: Seq<char>, reason: Seq<char> },
    PointerEventRefused { app: Seq<char>, event: Seq<char>, reason: Seq<char> },
    MenuPath { app: Seq<char>, reason: Seq<char> },
    WorkerGone,
    NativePanic,
}

impl View for CoreError {
    type V = CoreErrorText;

    open spec fn view(&self) -> CoreErrorText {
        match self {
            CoreError::Resolve(e) => CoreErrorText::Resolve(e@),
            CoreError::Ax(e) => CoreErrorText::Ax(e@),
            CoreError::Capture(e) => CoreErrorText::Capture(e@),
            CoreError::Refused(e) => CoreErrorText::Refused(e@),
            CoreError::StaleSnapshot { index, given, current } => CoreErrorText::StaleSnapshot {
                index: *index,
                given: *given,
                current: *current,
            },
            CoreError::NoSnapshot { app } => CoreErrorText::NoSnapshot {
                app: app@,
            },
            CoreError::ProcessReplaced { app } => CoreErrorText::ProcessReplaced {
                app: app@,
            },
            CoreError::BadIndex { index, count } => CoreErrorText::BadIndex {
                index: *index,
                count: *count,
            },
            CoreError::NoWindow { app } => CoreErrorText::NoWindow {
                app: app@,
            },
            CoreError::WindowQueryTimedOut { app } => CoreErrorText::WindowQueryTimedOut {
                app: app@,
            },
            CoreError::KeyNoAccessibilityEquivalent { key } => CoreErrorText::KeyNoAccessibilityEquivalent {
                key: key@,
            },
            CoreError::KeyVerbUnsupported { key, verb, available } => CoreErrorText::KeyVerbUnsupported {
                key: key@,
                verb: verb@,
                available: available@,
            },
            CoreError::KeyChordUnparseable { key, reason } => CoreErrorText::KeyChordUnparseable {
                key: key@,
                reason: reason@,
            },
            CoreError::PidKeyUnavailable { key, reason } => CoreErrorText::PidKeyUnavailable {
                key: key@,
                reason: reason@,
            },
            CoreError::FocusMismatch { what, addressed, focused } => CoreErrorText::FocusMismatch {
                what: what@,
                addressed: addressed@,
                focused: focused@,
            },
            CoreError::PidClickUnavailable { original, reason } => CoreErrorText::PidClickUnavailable {
                original: original@,
                reason: reason@,
            },
            CoreError::PidClickFailed { reason } => CoreErrorText::PidClickFailed {
                reason: reason@,
            },
            CoreError::TargetChanged { index, expected, found } => CoreErrorText::TargetChanged {
                index: *index,
                expected: expected@,
                found: found@,
            },
            CoreError::TokenRoleMismatch { index, expected, found } => CoreErrorText::TokenRoleMismatch {
                index: *index,
                expected: expected@,
                found: found@,
            },
            CoreError::StalePointGeometry { app } => CoreErrorText::StalePointGeometry {
                app: app@,
            },
            CoreError::StaleCoordinate { app, given, current, at } => CoreErrorText::StaleCoordinate {
                app: app@,
                given: *given,
                current: *current,
                at: at@,
            },
            CoreError::NoElementAtPoint { app, at } => CoreErrorText::NoElementAtPoint {
                app: app@,
                at: at@,
            },
            CoreError::WindowClickRefused { app, wid, at, reason } => CoreErrorText::WindowClickRefused {
                app: app@,
                wid: *wid,
                at: at@,
                reason: reason@,
            },
            CoreError::DragRefused { app, from, to, reason } => CoreErrorText::DragRefused {
                app: app@,
                from: from@,
                to: to@,
                reason: reason@,
            },
            CoreError::PointerEventRefused { app, event, reason } => CoreErrorText::PointerEventRefused {
                app: app@,
                event: event@,
                reason: reason@,
            },
            CoreError::MenuPath { app, reason } => CoreErrorText::MenuPath {
                app: app@,
                reason: reason@,
            },
            CoreError::WorkerGone => CoreErrorText::WorkerGone,
            CoreError::NativePanic => CoreErrorText::NativePanic,
        }
    }
}

/// An outcome with what its error says in place of the error.
pub open spec fn outcome<T>(r: Result<T, CoreError>) -> Result<T, CoreErrorText> {
    match r {
        Ok(v) => Ok(v),
        Err(e) => Err(e@),
    }
}

impl CoreErrorText {
    /// The sentence for the agent.
    pub open spec fn sentence(self) -> Seq<char> {
        match self {
            CoreErrorText::Resolve(e) => e.sentence(),
            CoreErrorText::Ax(e) => e,
            CoreErrorText::Capture(e) => e,
            CoreErrorText::Refused(e) => e.sentence(),
            CoreErrorText::StaleSnapshot { index, given, current } => {
                "element_index "@ + numeral(index as nat) + " refers to snapshot "@
                    + numeral(given as nat) + ", but the current snapshot for this app is "@
                    + numeral(current as nat) + ". Call get_app_state again and use a fresh index"@
            },
            CoreErrorText::NoSnapshot { app } => {
                "no snapshot for `"@ + app + "` yet. Call get_app_state first"@
            },
            CoreErrorText::ProcessReplaced { app } => {
                "the process behind `"@ + app
                    + "` changed since this snapshot was taken. Call get_app_state again; cached native \
                    element handles cannot cross an app relaunch"@
            },
            CoreErrorText::BadIndex { index, count } => {
                "element_index "@ + numeral(index as nat)
                    + " is out of range (the snapshot has "@ + numeral(count as nat) + " elements)"@
            },
            CoreErrorText::NoWindow { app } => {
                "`"@ + app
                    + "` has no accessibility window that cua-rs can drive right now. Verify Accessibility \
                    is granted to the process that launched cua-rs, then retry after the app has \
                    finished opening. Call check_permissions and list_apps to distinguish a permission \
                    or process-discovery problem"@
            },
            CoreErrorText::WindowQueryTimedOut { app } => {
                "`"@ + app
                    + "`'s accessibility bridge did not answer in time (kAXErrorCannotComplete on its \
                    window attributes, twice). This does not mean the app has no window — apps built on \
                    non-native UI toolkits (Qt: KakaoTalk, Telegram) are measured to time out on this \
                    call while a window is genuinely on screen. Wait a moment and call get_app_state \
                    again rather than trying to open a new window first"@
            },
            CoreErrorText::KeyNoAccessibilityEquivalent { key } => {
                "`"@ + key
                    + "` has no accessibility equivalent. cua-rs does not synthesize shared HID keyboard \
                    input because it would steal keyboard focus. Background-safe alternatives: \
                    return/enter and escape on an element that accepts AXConfirm/AXCancel, \
                    perform_secondary_action with AXShowMenu for a context menu, or clicking the menu \
                    item directly"@
            },
            CoreErrorText::KeyVerbUnsupported { key, verb, available } => {
                "`"@ + key + "` maps to the accessibility verb "@ + verb
                    + ", but this element does not accept it (it supports "@ + available + "). "@
                    + verb
                    + " usually lives on the window or the dialog's default button, not on an inner control \
                    — target that instead"@
            },
            CoreErrorText::KeyChordUnparseable { key, reason } => {
                "`"@ + key + "` is not a chord cua-rs's keyboard parser understands ("@ + reason
                    + "). Set CUA_KEY_AX_ONLY=1 to fall back to the old AX-verb-only path \
                    (return/escape/up/down only) instead"@
            },
            CoreErrorText::PidKeyUnavailable { key, reason } => {
                "could not deliver key `"@ + key + "` via the pid-routed route: "@ + reason
                    + ". cua-rs's default keyboard path does not fall back to accessibility (see \
                    CUA_KEY_AX_ONLY to opt into the old AX-verb-only path)"@
            },
            CoreErrorText::FocusMismatch { what, addressed, focused } => {
                "refused to send `"@ + what + "`: this app reports "@ + focused
                    + " as its focused element, not "@ + addressed
                    + ", and a pid-routed keystroke goes to whatever the process's own first responder is — \
                    so it would have landed there instead. Unset CUA_KEY_STRICT_FOCUS to send it anyway, \
                    or click the element first"@
            },
            CoreErrorText::PidClickUnavailable { original, reason } => {
                original
                    + ". This element advertises no AXPress/AXPick/AXConfirm, and the quiet SkyLight \
                    pid-routed click is unavailable: "@
                    + reason
                    + ". cua-rs will not fall back to moving the real pointer. perform_secondary_action \
                    with AXShowMenu may reach the same control another way"@
            },
            CoreErrorText::PidClickFailed { reason } => {
                "could not deliver this click via the pid-routed SkyLight route: "@ + reason
                    + ". cua-rs's default click path does not fall back to accessibility (see CUA_AX_FIRST \
                    to opt into the old AXPress-then-pid order)"@
            },
            CoreErrorText::TargetChanged { index, expected, found } => {
                "element_index "@ + numeral(index as nat)
                    + " no longer shows what it did when the snapshot was taken (it read "@
                    + expected + ", it now reads "@ + found
                    + "). Call get_app_state again and re-pick"@
            },
            CoreErrorText::TokenRoleMismatch { index, expected, found } => {
                "element_token points at index "@ + numeral(index as nat) + ", which was a "@
                    + expected + " when the token was issued and is a "@ + found
                    + " now. Call get_app_state again and take a fresh token"@
            },
            CoreErrorText::StalePointGeometry { app } => {
                "an action has run on `"@ + app
                    + "` since its last read, so the coordinates in this call would be resolved against \
                    stale geometry. Call get_app_state again, or address the element by element_index, \
                    which survives an action because it names the element rather than the place"@
            },
            CoreErrorText::StaleCoordinate { app, given, current, at } => {
                at + " was chosen from snapshot "@ + numeral(given as nat) + " of `"@ + app
                    + "`, but its current snapshot is "@ + numeral(current as nat)
                    + ". A coordinate is only meaningful against the window state it was read from, and \
                    nothing about a stale point looks wrong — call get_app_state again and re-pick the \
                    point from the fresh screenshot"@
            },
            CoreErrorText::NoElementAtPoint { app, at } => {
                "no element of `"@ + app + "` covers "@ + at
                    + " in its current snapshot. Coordinates are resolved against the snapshot's geometry, \
                    so the point has to be inside the window get_app_state read; call it again and click \
                    the element_index you want"@
            },
            CoreErrorText::WindowClickRefused { app, wid, at, reason } => {
                "cannot click "@ + at + " inside window "@ + numeral(wid as nat) + " of `"@
                    + app + "`: "@ + reason
            },
            CoreErrorText::DragRefused { app, from, to, reason } => {
                "cannot drag from "@ + from + " to "@ + to + " in `"@ + app + "`: "@ + reason
            },
            CoreErrorText::PointerEventRefused { app, event, reason } => {
                "cannot deliver a "@ + event + " to `"@ + app + "`: "@ + reason
            },
            CoreErrorText::MenuPath { app, reason } => {
                "in `"@ + app + "`: "@ + reason
            },
            CoreErrorText::WorkerGone => {
                "the native worker thread is gone"@
            },
            CoreErrorText::NativePanic => {
                "a native macOS operation panicked while handling this request; the cua-rs server is \
                    still running, so retry the call once. If it repeats, restart cua-rs and include the \
                    server stderr log"@
            },
        }
    }
}

impl CoreError {
    /// The sentence for the agent.
    pub fn message(&self) -> (r: String)
        ensures
            r@ == self@.sentence(),
    {
        match self {
            CoreError::Resolve(e) => e.message(),
            CoreError::Ax(e) => owned(e.as_str()),
            CoreError::Capture(e) => owned(e.as_str()),
            CoreError::Refused(e) => e.message(),
            CoreError::StaleSnapshot { index, given, current } => {
                let mut out = owned("element_index ");
                out.append(decimal(*index as u64).as_str());
                out.append(" refers to snapshot ");
                out.append(decimal(*given as u64).as_str());
                out.append(", but the current snapshot for this app is ");
                out.append(decimal(*current as u64).as_str());
                out.append(". Call get_app_state again and use a fresh index");
                out
            },
            CoreError::NoSnapshot { app } => {
                let mut out = owned("no snapshot for `");
                out.append(app.as_str());
                out.append("` yet. Call get_app_state first");
                out
            },
            CoreError::ProcessReplaced { app } => {
                let mut out = owned("the process behind `");
                out.append(app.as_str());
                out.append(
                    "` changed since this snapshot was taken. Call get_app_state again; cached native \
                        element handles cannot cross an app relaunch",
                );
                out
            },
            CoreError::BadIndex { index, count } => {
                let mut out = owned("element_index ");
                out.append(decimal(*index as u64).as_str());
                out.append(" is out of range (the snapshot has ");
                out.append(decimal(*count as u64).as_str());
                out.append(" elements)");
                out
            },
            CoreError::NoWindow { app } => {
                let mut out = owned("`");
                out.append(app.as_str());
                out.append(
                    "` has no accessibility window that cua-rs can drive right now. Verify Accessibility \
                        is granted to the process that launched cua-rs, then retry after the app has \
                        finished opening. Call check_permissions and list_apps to distinguish a permission \
                        or process-discovery problem",
                );
                out
            },
            CoreError::WindowQueryTimedOut { app } => {
                let mut out = owned("`");
                out.append(app.as_str());
                out.append(
                    "`'s accessibility bridge did not answer in time (kAXErrorCannotComplete on its \
                        window attributes, twice). This does not mean the app has no window — apps built on \
                        non-native UI toolkits (Qt: KakaoTalk, Telegram) are measured to time out on this \
                        call while a window is genuinely on screen. Wait a moment and call get_app_state \
                        again rather than trying to open a new window first",
                );
                out
            },
            CoreError::KeyNoAccessibilityEquivalent { key } => {
                let mut out = owned("`");
                out.append(key.as_str());
                out.append(
                    "` has no accessibility equivalent. cua-rs does not synthesize shared HID keyboard \
                        input because it would steal keyboard focus. Background-safe alternatives: \
                        return/enter and escape on an element that accepts AXConfirm/AXCancel, \
                        perform_secondary_action with AXShowMenu for a context menu, or clicking the menu \
                        item directly",
                );
                out
            },
            CoreError::KeyVerbUnsupported { key, verb, available } => {
                let mut out = owned("`");
                out.append(key.as_str());
                out.append("` maps to the accessibility verb ");
                out.append(verb);
                out.append(", but this element does not accept it (it supports ");
                out.append(available.as_str());
                out.append("). ");
                out.append(verb);
                out.append(
                    " usually lives on the window or the dialog's default button, not on an inner control \
                        — target that instead",
                );
                out
            },
            CoreError::KeyChordUnparseable { key, reason } => {
                let mut out = owned("`");
                out.append(key.as_str());
                out.append("` is not a chord cua-rs's keyboard parser understands (");
                out.append(reason.as_str());
                out.append(
                    "). Set CUA_KEY_AX_ONLY=1 to fall back to the old AX-verb-only path \
                        (return/escape/up/down only) instead",
                );
                out
            },
            CoreError::PidKeyUnavailable { key, reason } => {
                let mut out = owned("could not deliver key `");
                out.append(key.as_str());
                out.append("` via the pid-routed route: ");
                out.append(reason.as_str());
                out.append(
                    ". cua-rs's default keyboard path does not fall back to accessibility (see \
                        CUA_KEY_AX_ONLY to opt into the old AX-verb-only path)",
                );
                out
            },
            CoreError::FocusMismatch { what, addressed, focused } => {
                let mut out = owned("refused to send `");
                out.append(what.as_str());
                out.append("`: this app reports ");
                out.append(focused.as_str());
                out.append(" as its focused element, not ");
                out.append(addressed.as_str());
                out.append(
                    ", and a pid-routed keystroke goes to whatever the process's own first responder is — \
                        so it would have landed there instead. Unset CUA_KEY_STRICT_FOCUS to send it anyway, \
                        or click the element first",
                );
                out
            },
            CoreError::PidClickUnavailable { original, reason } => {
                let mut out = owned(original.as_str());
                out.append(
                    ". This element advertises no AXPress/AXPick/AXConfirm, and the quiet SkyLight \
                        pid-routed click is unavailable: ",
                );
                out.append(reason.as_str());
                out.append(
                    ". cua-rs will not fall back to moving the real pointer. perform_secondary_action \
                        with AXShowMenu may reach the same control another way",
                );
                out
            },
            CoreError::PidClickFailed { reason } => {
                let mut out = owned("could not deliver this click via the pid-routed SkyLight route: ");
                out.append(reason.as_str());
                out.append(
                    ". cua-rs's default click path does not fall back to accessibility (see CUA_AX_FIRST \
                        to opt into the old AXPress-then-pid order)",
                );
                out
            },
            CoreError::TargetChanged { index, expected, found } => {
                let mut out = owned("element_index ");
                out.append(decimal(*index as u64).as_str());
                out.append(" no longer shows what it did when the snapshot was taken (it read ");
                out.append(expected.as_str());
                out.append(", it now reads ");
                out.append(found.as_str());
                out.append("). Call get_app_state again and re-pick");
                out
            },
            CoreError::TokenRoleMismatch { index, expected, found } => {
                let mut out = owned("element_token points at index ");
                out.append(decimal(*index as u64).as_str());
                out.append(", which was a ");
                out.append(expected.as_str());
                out.append(" when the token was issued and is a ");
                out.append(found.as_str());
                out.append(" now. Call get_app_state again and take a fresh token");
                out
            },
            CoreError::StalePointGeometry { app } => {
                let mut out = owned("an action has run on `");
                out.append(app.as_str());
                out.append(
                    "` since its last read, so the coordinates in this call would be resolved against \
                        stale geometry. Call get_app_state again, or address the element by element_index, \
                        which survives an action because it names the element rather than the place",
                );
                out
            },
            CoreError::StaleCoordinate { app, given, current, at } => {
                let mut out = owned(at.as_str());
                out.append(" was chosen from snapshot ");
                out.append(decimal(*given as u64).as_str());
                out.append(" of `");
                out.append(app.as_str());
                out.append("`, but its current snapshot is ");
                out.append(decimal(*current as u64).as_str());
                out.append(
                    ". A coordinate is only meaningful against the window state it was read from, and \
                        nothing about a stale point looks wrong — call get_app_state again and re-pick the \
                        point from the fresh screenshot",
                );
                out
            },
            CoreError::NoElementAtPoint { app, at } => {
                let mut out = owned("no element of `");
                out.append(app.as_str());
                out.append("` covers ");
                out.append(at.as_str());
                out.append(
                    " in its current snapshot. Coordinates are resolved against the snapshot's geometry, \
                        so the point has to be inside the window get_app_state read; call it again and click \
                        the element_index you want",
                );
                out
            },
            CoreError::WindowClickRefused { app, wid, at, reason } => {
                let mut out = owned("cannot click ");
                out.append(at.as_str());
                out.append(" inside window ");
                out.append(decimal(*wid as u64).as_str());
                out.append(" of `");
                out.append(app.as_str());
                out.append("`: ");
                out.append(reason.as_str());
                out
            },
            CoreError::DragRefused { app, from, to, reason } => {
                let mut out = owned("cannot drag from ");
                out.append(from.as_str());
                out.append(" to ");
                out.append(to.as_str());
                out.append(" in `");
                out.append(app.as_str());
                out.append("`: ");
                out.append(reason.as_str());
                out
            },
            CoreError::PointerEventRefused { app, event, reason } => {
                let mut out = owned("cannot deliver a ");
                out.append(event);
                out.append(" to `");
                out.append(app.as_str());
                out.append("`: ");
                out.append(reason.as_str());
                out
            },
            CoreError::MenuPath { app, reason } => {
                let mut out = owned("in `");
                out.append(app.as_str());
                out.append("`: ");
                out.append(reason.as_str());
                out
            },
            CoreError::WorkerGone => {
                let mut out = owned("the native worker thread is gone");
                out
            },
            CoreError::NativePanic => {
                let mut out = owned(
                    "a native macOS operation panicked while handling this request; the cua-rs server is \
                        still running, so retry the call once. If it repeats, restart cua-rs and include the \
                        server stderr log",
                );
                out
            },
        }
    }
}

} // verus!
