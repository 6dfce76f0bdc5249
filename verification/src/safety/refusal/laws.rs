//! What a refusal tells the agent.
use vstd::prelude::*;
use crate::decimal::{numeral, signed_numeral};
use crate::safety::refusal::RefusedText;
use crate::text::{debug_quoted, has_part};
use crate::text::laws::{law_a_longer_text_holds_what_it_held, law_neighbours_stand_together};

verus! {

/// A refusal for the sake of the app names the action, the app and its identifier, and says what it
/// was refused for: what the app holds, or the scope that does not name it.
pub proof fn law_a_refused_app_is_named(
    verb: Seq<char>,
    app: Seq<char>,
    id: Seq<char>,
    why: Seq<char>,
    pid: i32,
)
    ensures
        ({
            let r = RefusedText::ForbiddenTarget { verb, app, bundle_id: id, why };
            &&& has_part(r.sentence(), "refusing to "@ + verb)
            &&& has_part(r.sentence(), " in `"@ + app)
            &&& has_part(r.sentence(), "` ("@ + id)
            &&& has_part(
                r.sentence(),
                "): cua-rs treats this app as a forbidden target because it "@ + why,
            )
        }),
        ({
            let r = RefusedText::NotInAllowlist { verb, app, bundle_id: id, allowed: why };
            &&& has_part(r.sentence(), "refusing to "@ + verb)
            &&& has_part(r.sentence(), " in `"@ + app)
            &&& has_part(r.sentence(), "` ("@ + id)
            &&& has_part(r.sentence(), "): this cua-rs run is scoped to CUA_ALLOWED_APPS="@ + why)
        }),
        ({
            let r = RefusedText::UnidentifiableUnderAllowlist { verb, app, pid, allowed: why };
            &&& has_part(r.sentence(), "refusing to "@ + verb)
            &&& has_part(r.sentence(), " in `"@ + app)
            &&& has_part(r.sentence(), "` (pid "@ + signed_numeral(pid as int))
            &&& has_part(r.sentence(), "): this cua-rs run is scoped to CUA_ALLOWED_APPS="@ + why)
        }),
{
    broadcast use law_a_longer_text_holds_what_it_held, law_neighbours_stand_together;

    let none = Seq::<char>::empty();
    assert(none + "refusing to "@ + verb =~= "refusing to "@ + verb);
}

/// A refusal for the sake of what would be destroyed names the action, what it was aimed at and
/// what convicted it, and the question where the question did.
pub proof fn law_a_refused_act_is_named(
    verb: Seq<char>,
    target: Seq<char>,
    kind: Seq<char>,
    question: Seq<char>,
    matched: Seq<char>,
)
    ensures
        ({
            let r = RefusedText::NeedsConfirmation { verb, target, matched };
            &&& has_part(r.sentence(), "refusing to "@ + verb)
            &&& has_part(r.sentence(), " "@ + target)
            &&& has_part(
                r.sentence(),
                ": this reads as a destructive control (matched "@ + debug_quoted(matched),
            )
        }),
        ({
            let r = RefusedText::NeedsConfirmationInContext {
                verb,
                target,
                context: kind,
                question,
                matched,
            };
            &&& has_part(r.sentence(), "refusing to "@ + verb)
            &&& has_part(r.sentence(), " "@ + target)
            &&& has_part(r.sentence(), ": it answers a decision context ("@ + kind)
            &&& has_part(
                r.sentence(),
                ") whose own text reads as a destructive question — "@ + debug_quoted(question),
            )
            &&& has_part(r.sentence(), " (matched "@ + debug_quoted(matched))
        }),
        ({
            let r = RefusedText::NeedsConfirmationForKey { key: verb, target, matched };
            &&& has_part(r.sentence(), "refusing to press "@ + debug_quoted(verb))
            &&& has_part(r.sentence(), " on "@ + target)
            &&& has_part(
                r.sentence(),
                ": this key removes something here (matched "@ + debug_quoted(matched),
            )
        }),
{
    broadcast use law_a_longer_text_holds_what_it_held, law_neighbours_stand_together;

    let none = Seq::<char>::empty();
    assert(none + "refusing to "@ + verb =~= "refusing to "@ + verb);
    assert(none + "refusing to press "@ + debug_quoted(verb) =~= "refusing to press "@
        + debug_quoted(verb));
}

/// A refusal for the sake of the human or the session names the action, the app, and both times or
/// the reason.
pub proof fn law_a_refusal_for_the_human_is_named(
    verb: Seq<char>,
    app: Seq<char>,
    ago_ms: u64,
    idle_ms: u64,
    reason: Seq<char>,
)
    ensures
        has_part((RefusedText::SessionLocked { verb }).sentence(), "refusing to "@ + verb),
        ({
            let r = RefusedText::HumanTookOver { verb, app, ago_ms, idle_ms };
            &&& has_part(r.sentence(), "refusing to "@ + verb)
            &&& has_part(r.sentence(), " in `"@ + app)
            &&& has_part(
                r.sentence(),
                "`: the human took over. Real input arrived "@ + numeral(ago_ms as nat),
            )
            &&& has_part(r.sentence(), "ms ago while `"@ + app)
            &&& has_part(r.sentence(), numeral(idle_ms as nat))
        }),
        ({
            let r = RefusedText::YieldWatchUnavailable { verb, reason };
            &&& has_part(r.sentence(), "refusing to "@ + verb)
            &&& has_part(r.sentence(), reason)
        }),
{
    broadcast use law_a_longer_text_holds_what_it_held, law_neighbours_stand_together;

    let none = Seq::<char>::empty();
    assert(none + "refusing to "@ + verb =~= "refusing to "@ + verb);
}

} // verus!
