//! Which apps are listed, in which order, and how several of them read.
use vstd::prelude::*;
use crate::apps::{
    answers_to, app_label, app_labels, drivable, resolution, selected, tier_hits, AppInfo,
    ResolveErrorText,
};
use crate::order::{law_ranked_sorts, ranked, text_before, Ranked};
use crate::text::{has_part, lowercase};
use crate::text::laws::{
    law_a_longer_text_holds_what_it_held, law_joining_separates_neighbours,
    law_neighbours_stand_together,
};

verus! {

proof fn lemma_selected_is_filtered(
    apps: Seq<AppInfo>,
    keep: Seq<bool>,
    wanted: spec_fn(AppInfo) -> bool,
)
    requires
        keep.len() == apps.len(),
        forall|i: int| 0 <= i < apps.len() ==> #[trigger] keep[i] == wanted(apps[i]),
    ensures
        selected(apps, keep) == apps.filter(wanted),
    decreases apps.len(),
{
    reveal(Seq::filter);
    if apps.len() > 0 {
        let front = apps.drop_last();
        let kept = keep.take(apps.len() - 1);
        assert forall|i: int| 0 <= i < front.len() implies #[trigger] kept[i] == wanted(front[i]) by {
            assert(kept[i] == keep[i]);
        }
        lemma_selected_is_filtered(front, kept, wanted);
        assert(keep[apps.len() - 1] == wanted(apps.last()));
    } else {
        assert(apps.filter(wanted) =~= Seq::<AppInfo>::empty());
    }
}

/// Every app with a process of its own is listed, once for each time it runs, and no other.
pub proof fn law_every_running_app_is_listed(running: Seq<AppInfo>)
    ensures
        ranked(drivable(running)).to_multiset() =~= running.filter(
            |a: AppInfo| a.pid > 0,
        ).to_multiset(),
{
    let wanted = |a: AppInfo| a.pid > 0;
    lemma_selected_is_filtered(running, running.map_values(wanted), wanted);
    law_ranked_sorts(drivable(running));
}

/// What is in front is listed before what is not, a real app before a background helper, and then
/// by name without regard to case.
pub proof fn law_the_frontmost_app_is_listed_first(running: Seq<AppInfo>, i: int, j: int)
    requires
        0 <= i < j < ranked(drivable(running)).len(),
    ensures
        ({
            let a = ranked(drivable(running))[i];
            let b = ranked(drivable(running))[j];
            ||| a.active && !b.active
            ||| a.active == b.active && a.regular && !b.regular
            ||| a.active == b.active && a.regular == b.regular && !text_before(
                lowercase(b.name@),
                lowercase(a.name@),
            )
        }),
{
    law_ranked_sorts(drivable(running));
    let all = ranked(drivable(running));
    assert(!all[j].before(all[i]));
}

/// Several apps read one after the other, with commas between.
pub proof fn law_matches_read_one_after_the_other(a: Seq<AppInfo>, b: Seq<AppInfo>)
    requires
        a.len() > 0,
        b.len() > 0,
    ensures
        app_labels(a + b) == app_labels(a) + ", "@ + app_labels(b),
{
    let f = |x: AppInfo| app_label(x);
    law_joining_separates_neighbours(a.map_values(f), b.map_values(f), Seq::empty(), ", "@);
    assert((a + b).map_values(f) =~= a.map_values(f) + b.map_values(f));
}

/// Where a query names several apps in the first way that any answers, the error lists them: the
/// real ones among them, or all where none is.
pub proof fn law_an_ambiguous_query_lists_its_matches(
    apps: Seq<AppInfo>,
    query: Seq<char>,
    tier: nat,
)
    requires
        tier < 6,
        tier_hits(apps, query, tier).len() > 1,
    ensures
        ({
            let answering = apps.filter(|a: AppInfo| answers_to(a, query, tier));
            let proper = answering.filter(|a: AppInfo| a.regular);
            resolution(apps, query, tier) == Err::<AppInfo, ResolveErrorText>(
                ResolveErrorText::Ambiguous {
                    query,
                    matches: app_labels(
                        if proper.len() > 0 {
                            proper
                        } else {
                            answering
                        },
                    ),
                },
            )
        }),
{
    let wanted = |a: AppInfo| answers_to(a, query, tier);
    lemma_selected_is_filtered(apps, apps.map_values(wanted), wanted);
    let answering = apps.filter(wanted);
    let proper = |a: AppInfo| a.regular;
    lemma_selected_is_filtered(answering, answering.map_values(proper), proper);
    lemma_some_kept(answering);
}

proof fn lemma_some_kept(apps: Seq<AppInfo>)
    ensures
        apps.filter(|a: AppInfo| a.regular).len() > 0 <==> exists|i: int|
            0 <= i < apps.len() && (#[trigger] apps[i]).regular,
    decreases apps.len(),
{
    reveal(Seq::filter);
    if apps.len() > 0 {
        let front = apps.drop_last();
        lemma_some_kept(front);
        assert(forall|i: int| 0 <= i < front.len() ==> front[i] == apps[i]);
        if apps.last().regular {
            assert(apps[apps.len() - 1].regular);
        }
        if exists|i: int| 0 <= i < front.len() && (#[trigger] front[i]).regular {
            let i = choose|i: int| 0 <= i < front.len() && (#[trigger] front[i]).regular;
            assert(apps[i].regular);
        }
        if exists|i: int| 0 <= i < apps.len() && (#[trigger] apps[i]).regular {
            let i = choose|i: int| 0 <= i < apps.len() && (#[trigger] apps[i]).regular;
            if i < front.len() {
                assert(front[i].regular);
            }
        }
    }
}

/// A query that could not be resolved is told with the query, and with its matches where there were
/// several.
pub proof fn law_an_unresolved_query_is_told(query: Seq<char>, matches: Seq<char>)
    ensures
        has_part(
            (ResolveErrorText::NotFound { query }).sentence(),
            "no running app matches `"@ + query,
        ),
        has_part((ResolveErrorText::Ambiguous { query, matches }).sentence(), "`"@ + query),
        has_part(
            (ResolveErrorText::Ambiguous { query, matches }).sentence(),
            "` is ambiguous: it matches "@ + matches,
        ),
{
    broadcast use law_a_longer_text_holds_what_it_held, law_neighbours_stand_together;

    let none = Seq::<char>::empty();
    assert(none + "no running app matches `"@ + query =~= "no running app matches `"@ + query);
    assert(has_part(none + "no running app matches `"@ + query, "no running app matches `"@ + query));
    assert(none + "`"@ + query =~= "`"@ + query);
    assert(has_part(none + "`"@ + query, "`"@ + query));
}

} // verus!
