//! What an error tells the agent.
use vstd::prelude::*;
use crate::apps::ResolveErrorText;
use crate::decimal::numeral;
use crate::safety::refusal::RefusedText;
use crate::session::error::CoreErrorText;
use crate::text::has_part;
use crate::text::laws::{law_a_longer_text_holds_what_it_held, law_neighbours_stand_together};

verus! {

/// A reason that comes from elsewhere is passed on as it came.
pub proof fn law_a_reason_is_passed_on_as_it_came(
    e: Seq<char>,
    refused: RefusedText,
    unresolved: ResolveErrorText,
)
    ensures
        CoreErrorText::Ax(e).sentence() == e,
        CoreErrorText::Capture(e).sentence() == e,
        CoreErrorText::Refused(refused).sentence() == refused.sentence(),
        CoreErrorText::Resolve(unresolved).sentence() == unresolved.sentence(),
{
}

/// A handle that no longer holds is told with both sides: what it cites and what is current, what
/// it was and what it is.
pub proof fn law_a_stale_handle_is_told_with_both_sides(
    index: usize,
    given: u64,
    current: u64,
    count: usize,
    app: Seq<char>,
    at: Seq<char>,
    expected: Seq<char>,
    found: Seq<char>,
)
    ensures
        ({
            let e = (CoreErrorText::StaleSnapshot { index, given, current }).sentence();
            &&& has_part(e, "element_index "@ + numeral(index as nat))
            &&& has_part(e, " refers to snapshot "@ + numeral(given as nat))
            &&& has_part(
                e,
                ", but the current snapshot for this app is "@ + numeral(current as nat),
            )
        }),
        ({
            let e = (CoreErrorText::BadIndex { index, count }).sentence();
            &&& has_part(e, "element_index "@ + numeral(index as nat))
            &&& has_part(e, " is out of range (the snapshot has "@ + numeral(count as nat))
        }),
        ({
            let e = (CoreErrorText::StaleCoordinate { app, given, current, at }).sentence();
            &&& has_part(e, at)
            &&& has_part(e, " was chosen from snapshot "@ + numeral(given as nat))
            &&& has_part(e, " of `"@ + app)
            &&& has_part(e, "`, but its current snapshot is "@ + numeral(current as nat))
        }),
        ({
            let e = (CoreErrorText::TargetChanged { index, expected, found }).sentence();
            &&& has_part(e, "element_index "@ + numeral(index as nat))
            &&& has_part(
                e,
                " no longer shows what it did when the snapshot was taken (it read "@ + expected,
            )
            &&& has_part(e, ", it now reads "@ + found)
        }),
        ({
            let e = (CoreErrorText::TokenRoleMismatch { index, expected, found }).sentence();
            &&& has_part(e, "element_token points at index "@ + numeral(index as nat))
            &&& has_part(e, ", which was a "@ + expected)
            &&& has_part(e, " when the token was issued and is a "@ + found)
        }),
{
    broadcast use law_a_longer_text_holds_what_it_held, law_neighbours_stand_together;

    let none = Seq::<char>::empty();
    let n = numeral(index as nat);
    assert(none + "element_index "@ + n =~= "element_index "@ + n);
    assert(none + "element_token points at index "@ + n =~= "element_token points at index "@ + n);
    assert(none + at =~= at);
    assert(has_part(none + at, at));
}

/// What is missing is told by the name of the app it is missing from.
pub proof fn law_what_is_missing_is_told_with_its_app(app: Seq<char>, at: Seq<char>)
    ensures
        has_part((CoreErrorText::NoSnapshot { app }).sentence(), "no snapshot for `"@ + app),
        has_part((CoreErrorText::ProcessReplaced { app }).sentence(), "the process behind `"@ + app),
        has_part((CoreErrorText::NoWindow { app }).sentence(), "`"@ + app),
        has_part((CoreErrorText::WindowQueryTimedOut { app }).sentence(), "`"@ + app),
        has_part(
            (CoreErrorText::StalePointGeometry { app }).sentence(),
            "an action has run on `"@ + app,
        ),
        has_part((CoreErrorText::NoElementAtPoint { app, at }).sentence(), "no element of `"@ + app),
        has_part((CoreErrorText::NoElementAtPoint { app, at }).sentence(), "` covers "@ + at),
{
    broadcast use law_a_longer_text_holds_what_it_held, law_neighbours_stand_together;

    let none = Seq::<char>::empty();
    assert(none + "no snapshot for `"@ + app =~= "no snapshot for `"@ + app);
    assert(none + "the process behind `"@ + app =~= "the process behind `"@ + app);
    assert(none + "`"@ + app =~= "`"@ + app);
    assert(none + "an action has run on `"@ + app =~= "an action has run on `"@ + app);
    assert(none + "no element of `"@ + app =~= "no element of `"@ + app);
}

/// A key that was not sent is told with what stood in the way.
pub proof fn law_an_unsent_key_is_told_with_its_reason(
    key: Seq<char>,
    verb: Seq<char>,
    reason: Seq<char>,
    addressed: Seq<char>,
)
    ensures
        has_part((CoreErrorText::KeyNoAccessibilityEquivalent { key }).sentence(), "`"@ + key),
        ({
            let e = (CoreErrorText::KeyVerbUnsupported { key, verb, available: reason }).sentence();
            &&& has_part(e, "`"@ + key)
            &&& has_part(e, "` maps to the accessibility verb "@ + verb)
            &&& has_part(e, ", but this element does not accept it (it supports "@ + reason)
        }),
        ({
            let e = (CoreErrorText::KeyChordUnparseable { key, reason }).sentence();
            &&& has_part(e, "`"@ + key)
            &&& has_part(
                e,
                "` is not a chord cua-rs's keyboard parser understands ("@ + reason,
            )
        }),
        ({
            let e = (CoreErrorText::PidKeyUnavailable { key, reason }).sentence();
            &&& has_part(e, "could not deliver key `"@ + key)
            &&& has_part(e, "` via the pid-routed route: "@ + reason)
        }),
        ({
            let e = (CoreErrorText::FocusMismatch {
                what: key,
                addressed,
                focused: reason,
            }).sentence();
            &&& has_part(e, "refused to send `"@ + key)
            &&& has_part(e, "`: this app reports "@ + reason)
            &&& has_part(e, " as its focused element, not "@ + addressed)
        }),
{
    broadcast use law_a_longer_text_holds_what_it_held, law_neighbours_stand_together;

    let none = Seq::<char>::empty();
    assert(none + "`"@ + key =~= "`"@ + key);
    assert(none + "could not deliver key `"@ + key =~= "could not deliver key `"@ + key);
    assert(none + "refused to send `"@ + key =~= "refused to send `"@ + key);
}

/// A gesture that was not made is told with where it was aimed and what stood in the way.
pub proof fn law_an_unmade_gesture_is_told_with_its_reason(
    app: Seq<char>,
    wid: u32,
    from: Seq<char>,
    to: Seq<char>,
    event: Seq<char>,
    reason: Seq<char>,
)
    ensures
        ({
            let e = (CoreErrorText::WindowClickRefused { app, wid, at: from, reason }).sentence();
            &&& has_part(e, "cannot click "@ + from)
            &&& has_part(e, " inside window "@ + numeral(wid as nat))
            &&& has_part(e, " of `"@ + app)
            &&& has_part(e, "`: "@ + reason)
        }),
        ({
            let e = (CoreErrorText::DragRefused { app, from, to, reason }).sentence();
            &&& has_part(e, "cannot drag from "@ + from)
            &&& has_part(e, " to "@ + to)
            &&& has_part(e, " in `"@ + app)
            &&& has_part(e, "`: "@ + reason)
        }),
        ({
            let e = (CoreErrorText::PointerEventRefused { app, event, reason }).sentence();
            &&& has_part(e, "cannot deliver a "@ + event)
            &&& has_part(e, " to `"@ + app)
            &&& has_part(e, "`: "@ + reason)
        }),
        ({
            let e = (CoreErrorText::MenuPath { app, reason }).sentence();
            &&& has_part(e, "in `"@ + app)
            &&& has_part(e, "`: "@ + reason)
        }),
        ({
            let e = (CoreErrorText::PidClickUnavailable { original: event, reason }).sentence();
            &&& has_part(e, event)
            &&& has_part(e, reason)
        }),
        has_part((CoreErrorText::PidClickFailed { reason }).sentence(), reason),
{
    broadcast use law_a_longer_text_holds_what_it_held, law_neighbours_stand_together;

    let none = Seq::<char>::empty();
    assert(none + "cannot click "@ + from =~= "cannot click "@ + from);
    assert(none + "cannot drag from "@ + from =~= "cannot drag from "@ + from);
    assert(none + "cannot deliver a "@ + event =~= "cannot deliver a "@ + event);
    assert(none + "in `"@ + app =~= "in `"@ + app);
    assert(none + event =~= event);
    assert(has_part(none + event, event));
}

} // verus!
