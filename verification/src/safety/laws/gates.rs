//! When an action runs, and which reason is told where it does not.
use vstd::prelude::*;
use crate::apps::AppInfo;
use crate::safety::destructive::{
    key_against, question_against, readable_text, token_of, CandidateText,
};
use crate::safety::gate::{verdict, Gate, Surroundings};
use crate::safety::policy::{admits, forbidden_reason, scope_view, scope_wording};
use crate::safety::refusal::RefusedText;
use crate::safety::runtime::{is_screen_saver, saver_runs, Watch};
use crate::text::same_but_case;
use crate::text::laws::law_joining_separates_neighbours;

verus! {

/// Whether the app is one that is never acted on, and the blocklist is in force.
pub open spec fn is_blocked(app: AppInfo, around: Surroundings) -> bool {
    !around.allow_forbidden && app.bundle_id is Some && forbidden_reason(app.bundle_id->0@) is Some
}

/// Whether the run is scoped and the app is not known to be inside the scope.
pub open spec fn is_out_of_scope(app: AppInfo, around: Surroundings) -> bool {
    around.allowed is Some && (app.bundle_id is None || !admits(
        scope_view(around.allowed)->0,
        app.bundle_id->0@,
    ))
}

/// Whether the human is working in the app, or nobody can tell.
pub open spec fn is_held_up(app: AppInfo, watch: Watch, around: Surroundings) -> bool {
    ||| watch is Broken
    ||| watch is On && watch->since_ms is Some && watch->since_ms->0 < around.idle_ms
        && around.frontmost is Some && around.frontmost->0 == app.pid
}

/// Whether what the action lands on, or the key it presses, destroys something.
pub open spec fn is_destructive(gate: Gate, candidate: Option<CandidateText>) -> bool {
    ||| gate.key is Some && key_against(gate.key->0@, candidate) is Some
    ||| candidate is Some && token_of(readable_text(candidate->0)) is Some
    ||| candidate is Some && question_against(candidate->0) is Some
}

/// An action runs exactly where the session is open, the app is not blocked and inside the scope,
/// the human is elsewhere or idle, and what it does is either not destructive or confirmed.
pub proof fn law_an_action_runs_where_nothing_speaks_against_it(
    app: AppInfo,
    watch: Watch,
    around: Surroundings,
    gate: Gate,
    candidate: Option<CandidateText>,
)
    ensures
        verdict(app, watch, around, gate, candidate) is None <==> {
            &&& !around.locked
            &&& !is_blocked(app, around)
            &&& !is_out_of_scope(app, around)
            &&& !is_held_up(app, watch, around)
            &&& gate.confirm_destructive || !is_destructive(gate, candidate)
        },
{
}

/// Of several reasons the most fundamental one is told: the lock before the blocklist, that before
/// the scope, that before the human, and all of these before what could be confirmed. Each names
/// the action and what it was about.
pub proof fn law_the_most_fundamental_reason_is_told(
    app: AppInfo,
    watch: Watch,
    around: Surroundings,
    gate: Gate,
    candidate: Option<CandidateText>,
)
    ensures
        ({
            let r = verdict(app, watch, around, gate, candidate);
            let blocked = is_blocked(app, around);
            let outside = is_out_of_scope(app, around);
            let held = is_held_up(app, watch, around);
            &&& around.locked ==> r == Some(RefusedText::SessionLocked { verb: gate.verb@ })
            &&& !around.locked && blocked ==> r == Some(
                RefusedText::ForbiddenTarget {
                    verb: gate.verb@,
                    app: app.name@,
                    bundle_id: app.bundle_id->0@,
                    why: forbidden_reason(app.bundle_id->0@)->0,
                },
            )
            &&& !around.locked && !blocked && outside && app.bundle_id is Some ==> {
                &&& r is Some
                &&& r->0 is NotInAllowlist
                &&& r->0->NotInAllowlist_verb == gate.verb@
                &&& r->0->NotInAllowlist_app == app.name@
                &&& r->0->NotInAllowlist_bundle_id == app.bundle_id->0@
            }
            &&& !around.locked && outside && app.bundle_id is None ==> {
                &&& r is Some
                &&& r->0 is UnidentifiableUnderAllowlist
                &&& r->0->UnidentifiableUnderAllowlist_verb == gate.verb@
                &&& r->0->UnidentifiableUnderAllowlist_app == app.name@
                &&& r->0->UnidentifiableUnderAllowlist_pid == app.pid
            }
            &&& !around.locked && !blocked && !outside && held && watch is On ==> r == Some(
                RefusedText::HumanTookOver {
                    verb: gate.verb@,
                    app: app.name@,
                    ago_ms: watch->since_ms->0,
                    idle_ms: around.idle_ms,
                },
            )
            &&& !around.locked && !blocked && !outside && watch is Broken ==> r == Some(
                RefusedText::YieldWatchUnavailable { verb: gate.verb@, reason: watch->reason@ },
            )
        }),
{
}

/// Where nothing else speaks against it, an unconfirmed action is refused for the key it presses
/// before anything else, then for what the element says, then for the question it answers. Each
/// refusal names the element and what convicted it.
pub proof fn law_what_has_to_be_confirmed_is_named(
    app: AppInfo,
    watch: Watch,
    around: Surroundings,
    gate: Gate,
    c: CandidateText,
)
    requires
        !around.locked,
        !is_blocked(app, around),
        !is_out_of_scope(app, around),
        !is_held_up(app, watch, around),
        !gate.confirm_destructive,
    ensures
        ({
            let r = verdict(app, watch, around, gate, Some(c));
            let by_key = gate.key is Some && key_against(gate.key->0@, Some(c)) is Some;
            let by_text = token_of(readable_text(c)) is Some;
            let by_question = question_against(c) is Some;
            let (context, matched) = question_against(c)->0;
            &&& by_key ==> r == Some(
                RefusedText::NeedsConfirmationForKey {
                    key: gate.key->0@,
                    target: c.description,
                    matched: key_against(gate.key->0@, Some(c))->0,
                },
            )
            &&& !by_key && by_text ==> r == Some(
                RefusedText::NeedsConfirmation {
                    verb: gate.verb@,
                    target: c.description,
                    matched: token_of(readable_text(c))->0,
                },
            )
            &&& !by_key && !by_text && by_question ==> r == Some(
                RefusedText::NeedsConfirmationInContext {
                    verb: gate.verb@,
                    target: c.description,
                    context: context.kind,
                    question: context.question,
                    matched,
                },
            )
        }),
{
}

/// The screen saver is known by its identifier, in either case, wherever in the list it stands.
pub proof fn law_the_screen_saver_is_known_by_its_identifier(apps: Seq<AppInfo>)
    ensures
        saver_runs(apps) <==> exists|i: int|
            0 <= i < apps.len() && (#[trigger] apps[i]).bundle_id is Some && same_but_case(
                apps[i].bundle_id->0@,
                "com.apple.ScreenSaver.Engine"@,
            ),
{
    if saver_runs(apps) {
        let i = choose|i: int| 0 <= i < apps.len() && is_screen_saver(#[trigger] apps[i]);
        assert(apps[i].bundle_id is Some);
    }
    if exists|i: int|
        0 <= i < apps.len() && (#[trigger] apps[i]).bundle_id is Some && same_but_case(
            apps[i].bundle_id->0@,
            "com.apple.ScreenSaver.Engine"@,
        ) {
        let i = choose|i: int|
            0 <= i < apps.len() && (#[trigger] apps[i]).bundle_id is Some && same_but_case(
                apps[i].bundle_id->0@,
                "com.apple.ScreenSaver.Engine"@,
            );
        assert(is_screen_saver(apps[i]));
    }
}

/// A scope reads back as its names, with commas between.
pub proof fn law_a_scope_reads_back_as_its_names(a: Seq<Seq<char>>, b: Seq<Seq<char>>)
    requires
        a.len() > 0,
        b.len() > 0,
    ensures
        scope_wording(None).len() == 0,
        a.len() == 1 ==> scope_wording(Some(a)) == a[0],
        scope_wording(Some(a + b)) == scope_wording(Some(a)) + ","@ + scope_wording(Some(b)),
{
    law_joining_separates_neighbours(a, b, a[0], ","@);
}

} // verus!
