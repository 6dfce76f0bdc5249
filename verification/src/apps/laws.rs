//! What holds of finding apps.
use vstd::prelude::*;
use crate::apps::{
    answers_to, drivable, resolution, selected, tier_hits, AppInfo, ResolveErrorText, TIERS,
};
use crate::order::{law_ranked_sorts, ranked};
use crate::text::text_of;

verus! {

/// Whether an app stands in a list at a place that is marked.
spec fn is_marked(apps: Seq<AppInfo>, keep: Seq<bool>, a: AppInfo) -> bool {
    exists|i: int| 0 <= i < apps.len() && keep[i] && #[trigger] apps[i] == a
}

/// What is selected from a list are exactly the apps that are marked.
proof fn lemma_selected_are_marked(apps: Seq<AppInfo>, keep: Seq<bool>)
    requires
        keep.len() == apps.len(),
    ensures
        forall|k: int|
            0 <= k < selected(apps, keep).len() ==> is_marked(
                apps,
                keep,
                #[trigger] selected(apps, keep)[k],
            ),
        forall|i: int|
            0 <= i < apps.len() && keep[i] ==> selected(apps, keep).contains(#[trigger] apps[i]),
        selected(apps, keep).len() <= apps.len(),
    decreases apps.len(),
{
    if apps.len() > 0 {
        let last = apps.len() - 1;
        let rest = apps.drop_last();
        let marks = keep.take(last);
        lemma_selected_are_marked(rest, marks);
        let before = selected(rest, marks);
        let all = selected(apps, keep);
        assert forall|k: int| 0 <= k < all.len() implies is_marked(
            apps,
            keep,
            #[trigger] all[k],
        ) by {
            if k < before.len() {
                assert(is_marked(rest, marks, before[k]));
                let i = choose|i: int|
                    0 <= i < rest.len() && marks[i] && #[trigger] rest[i] == before[k];
                assert(apps[i] == rest[i] && keep[i] == marks[i] && all[k] == before[k]);
            } else {
                assert(apps[last] == all[k]);
            }
        }
        assert forall|i: int| 0 <= i < apps.len() && keep[i] implies all.contains(
            #[trigger] apps[i],
        ) by {
            if i < last {
                assert(rest[i] == apps[i] && marks[i] == keep[i]);
                let k = choose|k: int| 0 <= k < before.len() && before[k] == rest[i];
                assert(all[k] == before[k]);
            } else {
                assert(all[all.len() - 1] == apps[last]);
            }
        }
    }
}

/// The apps that answer to a query in some way are running, do answer, and leave out every helper
/// as soon as one of them has a Dock icon.
pub proof fn law_matches_answer_and_prefer_real_apps(
    apps: Seq<AppInfo>,
    query: Seq<char>,
    tier: nat,
)
    ensures
        forall|k: int|
            0 <= k < tier_hits(apps, query, tier).len() ==> apps.contains(
                #[trigger] tier_hits(apps, query, tier)[k],
            ) && answers_to(tier_hits(apps, query, tier)[k], query, tier),
        (exists|i: int|
            0 <= i < apps.len() && (#[trigger] apps[i]).regular && answers_to(
                apps[i],
                query,
                tier,
            )) ==> forall|k: int|
            0 <= k < tier_hits(apps, query, tier).len() ==> (#[trigger] tier_hits(
                apps,
                query,
                tier,
            )[k]).regular,
        tier_hits(apps, query, tier).len() == 0 <==> forall|i: int|
            0 <= i < apps.len() ==> !answers_to(#[trigger] apps[i], query, tier),
{
    let keep = apps.map_values(|a: AppInfo| answers_to(a, query, tier));
    let matched = selected(apps, keep);
    let marks = matched.map_values(|a: AppInfo| a.regular);
    let hits = tier_hits(apps, query, tier);
    lemma_selected_are_marked(apps, keep);
    lemma_selected_are_marked(matched, marks);
    assert forall|k: int| 0 <= k < hits.len() implies apps.contains(#[trigger] hits[k])
        && answers_to(hits[k], query, tier) by {
        if hits != matched {
            assert(is_marked(matched, marks, hits[k]));
        }
        assert(matched.contains(hits[k]));
        let j = choose|j: int| 0 <= j < matched.len() && matched[j] == hits[k];
        assert(is_marked(apps, keep, matched[j]));
    }
    if exists|i: int|
        0 <= i < apps.len() && (#[trigger] apps[i]).regular && answers_to(apps[i], query, tier) {
        let i = choose|i: int|
            0 <= i < apps.len() && (#[trigger] apps[i]).regular && answers_to(
                apps[i],
                query,
                tier,
            );
        assert(keep[i]);
        let j = choose|j: int| 0 <= j < matched.len() && matched[j] == apps[i];
        assert(matched[j].regular);
        assert(hits == selected(matched, marks));
        assert forall|k: int| 0 <= k < hits.len() implies (#[trigger] hits[k]).regular by {
            assert(is_marked(matched, marks, hits[k]));
        }
    }
    assert(hits.len() == 0 ==> matched.len() == 0) by {
        if matched.len() > 0 && hits != matched {
            let j = choose|j: int| 0 <= j < matched.len() && (#[trigger] matched[j]).regular;
            assert(marks[j]);
            assert(hits.contains(matched[j]));
        }
    }
    if hits.len() == 0 {
        assert forall|i: int| 0 <= i < apps.len() implies !answers_to(
            #[trigger] apps[i],
            query,
            tier,
        ) by {
            if keep[i] {
                assert(matched.contains(apps[i]));
            }
        }
    } else {
        assert(answers_to(hits[0], query, tier));
        let i = choose|i: int| 0 <= i < apps.len() && apps[i] == hits[0];
        assert(answers_to(apps[i], query, tier));
    }
}

/// A query comes to a running app or to an error, never to anything else.
pub proof fn law_what_is_resolved_is_running(apps: Seq<AppInfo>, query: Seq<char>, tier: nat)
    ensures
        resolution(apps, query, tier) is Ok ==> apps.contains(resolution(apps, query, tier)->Ok_0),
    decreases TIERS - tier,
{
    if tier < TIERS {
        law_matches_answer_and_prefer_real_apps(apps, query, tier);
        if tier_hits(apps, query, tier).len() == 0 {
            law_what_is_resolved_is_running(apps, query, tier + 1);
        }
    }
}

/// The most specific way in which anything answers decides. One match of it is the answer, however
/// many apps a fuzzier way would find; two are an error and never a guess.
pub proof fn law_the_most_precise_match_decides(apps: Seq<AppInfo>, query: Seq<char>, tier: nat)
    requires
        tier < TIERS,
        tier_hits(apps, query, tier).len() > 0,
        forall|t: nat| t < tier ==> #[trigger] tier_hits(apps, query, t).len() == 0,
    ensures
        tier_hits(apps, query, tier).len() == 1 ==> resolution(apps, query, 0) == Ok::<
            AppInfo,
            ResolveErrorText,
        >(tier_hits(apps, query, tier)[0]),
        tier_hits(apps, query, tier).len() > 1 ==> resolution(apps, query, 0) is Err
            && resolution(apps, query, 0)->Err_0 is Ambiguous,
{
    lemma_skip_empty_tiers(apps, query, 0, tier);
}

pub proof fn lemma_skip_empty_tiers(apps: Seq<AppInfo>, query: Seq<char>, from: nat, to: nat)
    requires
        from <= to < TIERS,
        forall|t: nat| t < to ==> #[trigger] tier_hits(apps, query, t).len() == 0,
    ensures
        resolution(apps, query, from) == resolution(apps, query, to),
    decreases to - from,
{
    if from < to {
        assert(tier_hits(apps, query, from).len() == 0);
        lemma_skip_empty_tiers(apps, query, from + 1, to);
    }
}

/// Nothing answers in any way, if and only if the query is reported as not found.
pub proof fn law_not_found_means_nothing_answers(apps: Seq<AppInfo>, query: Seq<char>, tier: nat)
    requires
        tier <= TIERS,
    ensures
        (resolution(apps, query, tier) is Err && resolution(apps, query, tier)->Err_0 is NotFound)
            <==> forall|t: nat, i: int|
            tier <= t < TIERS && 0 <= i < apps.len() ==> !#[trigger] answers_to(
                apps[i],
                query,
                t,
            ),
    decreases TIERS - tier,
{
    if tier < TIERS {
        law_matches_answer_and_prefer_real_apps(apps, query, tier);
        let hits = tier_hits(apps, query, tier);
        if hits.len() == 0 {
            law_not_found_means_nothing_answers(apps, query, tier + 1);
        } else {
            let i = choose|i: int| 0 <= i < apps.len() && apps[i] == hits[0];
            assert(answers_to(apps[i], query, tier));
        }
    }
}

/// An exact bundle identifier that one app has names that app, whatever else is running.
pub proof fn law_a_bundle_identifier_is_exact(apps: Seq<AppInfo>, query: Seq<char>, i: int)
    requires
        0 <= i < apps.len(),
        text_of(apps[i].bundle_id) == Some(query),
        forall|j: int| 0 <= j < apps.len() && j != i ==> text_of((#[trigger] apps[j]).bundle_id)
            != Some(query),
    ensures
        resolution(apps, query, 0) == Ok::<AppInfo, ResolveErrorText>(apps[i]),
{
    let keep = apps.map_values(|a: AppInfo| answers_to(a, query, 0));
    lemma_one_selected(apps, keep, i);
    let one = selected(apps, keep);
    if apps[i].regular {
        assert(one[0].regular);
        lemma_one_selected(one, one.map_values(|a: AppInfo| a.regular), 0);
    }
    assert(tier_hits(apps, query, 0) == seq![apps[i]]);
}

proof fn lemma_one_selected(apps: Seq<AppInfo>, keep: Seq<bool>, i: int)
    requires
        keep.len() == apps.len(),
        0 <= i < apps.len(),
        keep[i],
        forall|j: int| 0 <= j < apps.len() && j != i ==> !#[trigger] keep[j],
    ensures
        selected(apps, keep) == seq![apps[i]],
    decreases apps.len(),
{
    let last = apps.len() - 1;
    let rest = apps.drop_last();
    let marks = keep.take(last);
    if i == last {
        lemma_none_selected(rest, marks);
    } else {
        assert(forall|j: int| 0 <= j < rest.len() ==> marks[j] == keep[j]);
        lemma_one_selected(rest, marks, i);
        assert(!keep[last]);
    }
}

proof fn lemma_none_selected(apps: Seq<AppInfo>, keep: Seq<bool>)
    requires
        keep.len() == apps.len(),
        forall|j: int| 0 <= j < apps.len() ==> !#[trigger] keep[j],
    ensures
        selected(apps, keep) == Seq::<AppInfo>::empty(),
    decreases apps.len(),
{
    if apps.len() > 0 {
        assert(!keep[apps.len() - 1]);
        lemma_none_selected(apps.drop_last(), keep.take(apps.len() - 1));
    }
}

/// What is listed are exactly the running apps with a GUI presence.
pub proof fn law_every_listed_app_can_be_driven(running: Seq<AppInfo>)
    ensures
        ranked(drivable(running)).to_multiset() == drivable(running).to_multiset(),
        forall|k: int|
            0 <= k < drivable(running).len() ==> (#[trigger] drivable(running)[k]).pid > 0
                && running.contains(drivable(running)[k]),
        forall|i: int|
            0 <= i < running.len() && (#[trigger] running[i]).pid > 0 ==> drivable(
                running,
            ).contains(running[i]),
{
    let keep = running.map_values(|a: AppInfo| a.pid > 0);
    law_ranked_sorts(drivable(running));
    lemma_selected_are_marked(running, keep);
    assert forall|k: int| 0 <= k < drivable(running).len() implies (#[trigger] drivable(
        running,
    )[k]).pid > 0 && running.contains(drivable(running)[k]) by {
        assert(is_marked(running, keep, drivable(running)[k]));
    }
    assert forall|i: int| 0 <= i < running.len() && (#[trigger] running[i]).pid > 0 implies drivable(
        running,
    ).contains(running[i]) by {
        assert(keep[i]);
    }
}

} // verus!
