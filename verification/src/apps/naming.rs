//! How an app is named by a query, said in terms of the texts alone.
use vstd::prelude::*;
use crate::apps::{
    answers_to, any_regular, app_label, app_labels, basename, resolution, selected, tier_hits,
    without_suffixes, AppInfo, ResolveErrorText, TIERS,
};
use crate::apps::laws::{law_matches_answer_and_prefer_real_apps, lemma_skip_empty_tiers};
use crate::decimal::signed_numeral;
use crate::text::{has_part, has_suffix, joined, lowercase, pieces, strip_end, text_of, CharKind};
use crate::text::laws::{
    law_a_part_is_found, law_a_part_stands_at_an_end, law_a_part_stands_somewhere,
};
use crate::text::lemmas::{lemma_one_piece, lemma_pieces_concat};

verus! {

/// Whether a query is a name or an identifier rather than a path to an app.
pub open spec fn is_plain(query: Seq<char>) -> bool {
    &&& forall|i: int| 0 <= i < query.len() ==> #[trigger] query[i] != '/'
    &&& forall|before: Seq<char>| query != #[trigger] (before + ".app"@)
}

/// Whether a query names an app in the given way, from the most specific to the least: by its
/// bundle identifier, by its name, by the last component of its bundle identifier, by how its name
/// begins, by any part of its name. Only the first of them is held to case.
pub open spec fn is_named(a: AppInfo, query: Seq<char>, way: nat) -> bool {
    let name = lowercase(a.name@);
    let want = lowercase(query);
    if way == 0 {
        a.bundle_id is Some && a.bundle_id->0@ == query
    } else if way == 1 {
        name == want
    } else if way == 2 {
        a.bundle_id is Some && exists|before: Seq<char>|
            lowercase(a.bundle_id->0@) == #[trigger] (before + ("."@ + want))
    } else if way == 3 {
        exists|after: Seq<char>| name == #[trigger] (want + after)
    } else {
        exists|before: Seq<char>, after: Seq<char>| name == #[trigger] (before + want + after)
    }
}

/// Whether no app of a list is named in any way before the given one.
pub open spec fn is_first_way(apps: Seq<AppInfo>, query: Seq<char>, way: nat) -> bool {
    forall|w: nat, j: int|
        w < way && 0 <= j < apps.len() ==> !#[trigger] is_named(apps[j], query, w)
}

/// Which step of a search a way of naming is looked for in.
spec fn step_of(way: nat) -> nat {
    if way < 2 {
        way
    } else {
        way + 1
    }
}

proof fn lemma_plain_base(query: Seq<char>)
    requires
        is_plain(query),
    ensures
        basename(query) == query,
{
    let k = CharKind::Just('/');
    if query.len() > 0 {
        assert(query[query.len() - 1] != '/');
    }
    assert(strip_end(query, k) == query);
    assert forall|i: int| 0 <= i < query.len() implies !k.has(#[trigger] query[i]) by {}
    lemma_one_piece(query, k);
    law_a_part_stands_at_an_end(query, ".app"@);
    assert(!has_suffix(query, ".app"@));
}

proof fn lemma_named_answers(a: AppInfo, query: Seq<char>, way: nat)
    requires
        is_plain(query),
        way < 5,
    ensures
        is_named(a, query, way) == answers_to(a, query, step_of(way)),
        way == 1 ==> answers_to(a, query, 2) == answers_to(a, query, 1),
{
    lemma_plain_base(query);
    law_a_part_stands_at_an_end(lowercase(a.name@), lowercase(query));
    law_a_part_stands_somewhere(lowercase(a.name@), lowercase(query));
    if a.bundle_id is Some {
        law_a_part_stands_at_an_end(lowercase(a.bundle_id->0@), "."@ + lowercase(query));
    }
}

proof fn lemma_earlier_steps_are_empty(apps: Seq<AppInfo>, query: Seq<char>, way: nat)
    requires
        is_plain(query),
        way < 5,
        is_first_way(apps, query, way),
    ensures
        resolution(apps, query, 0) == resolution(apps, query, step_of(way)),
{
    assert forall|t: nat| t < step_of(way) implies #[trigger] tier_hits(apps, query, t).len()
        == 0 by {
        assert forall|j: int| 0 <= j < apps.len() implies !answers_to(
            #[trigger] apps[j],
            query,
            t,
        ) by {
            let w: nat = if t < 2 {
                t
            } else {
                (t - 1) as nat
            };
            assert(!is_named(apps[j], query, w));
            lemma_named_answers(apps[j], query, w);
        }
        law_matches_answer_and_prefer_real_apps(apps, query, t);
    }
    lemma_skip_empty_tiers(apps, query, 0, step_of(way));
}

proof fn lemma_selected_places(apps: Seq<AppInfo>, keep: Seq<bool>) -> (at: Seq<int>)
    requires
        keep.len() == apps.len(),
    ensures
        at.len() == selected(apps, keep).len(),
        forall|k: int|
            0 <= k < at.len() ==> 0 <= #[trigger] at[k] < apps.len() && keep[at[k]] && selected(
                apps,
                keep,
            )[k] == apps[at[k]],
        forall|k: int, l: int| 0 <= k < l < at.len() ==> #[trigger] at[k] < #[trigger] at[l],
        forall|i: int| 0 <= i < apps.len() && #[trigger] keep[i] ==> at.contains(i),
    decreases apps.len(),
{
    if apps.len() == 0 {
        Seq::empty()
    } else {
        let last = apps.len() - 1;
        let marks = keep.take(last);
        let before = lemma_selected_places(apps.drop_last(), marks);
        if keep[last] {
            let at = before.push(last);
            assert forall|i: int| 0 <= i < apps.len() && #[trigger] keep[i] implies at.contains(
                i,
            ) by {
                if i < last {
                    assert(marks[i]);
                    let k = choose|k: int| 0 <= k < before.len() && before[k] == i;
                    assert(at[k] == i);
                } else {
                    assert(at[before.len() as int] == i);
                }
            }
            at
        } else {
            assert forall|i: int| 0 <= i < apps.len() && #[trigger] keep[i] implies before.contains(
                i,
            ) by {
                assert(marks[i]);
            }
            before
        }
    }
}

/// Where the hits of a step stand in the list of apps: at the places of those that answer, without
/// the helpers as soon as a real app is among them.
proof fn lemma_hit_places(apps: Seq<AppInfo>, query: Seq<char>, tier: nat) -> (at: Seq<int>)
    ensures
        at.len() == tier_hits(apps, query, tier).len(),
        forall|k: int|
            0 <= k < at.len() ==> 0 <= #[trigger] at[k] < apps.len() && answers_to(
                apps[at[k]],
                query,
                tier,
            ) && tier_hits(apps, query, tier)[k] == apps[at[k]],
        forall|k: int, l: int| 0 <= k < l < at.len() ==> #[trigger] at[k] < #[trigger] at[l],
        forall|i: int|
            0 <= i < apps.len() && answers_to(#[trigger] apps[i], query, tier) && apps[i].regular
                ==> at.contains(i),
        (exists|i: int|
            0 <= i < apps.len() && (#[trigger] apps[i]).regular && answers_to(
                apps[i],
                query,
                tier,
            )) ==> forall|k: int| 0 <= k < at.len() ==> apps[#[trigger] at[k]].regular,
        (forall|i: int|
            0 <= i < apps.len() && answers_to(#[trigger] apps[i], query, tier)
                ==> !apps[i].regular) ==> forall|i: int|
            0 <= i < apps.len() && answers_to(#[trigger] apps[i], query, tier) ==> at.contains(i),
{
    let keep = apps.map_values(|a: AppInfo| answers_to(a, query, tier));
    let matched = selected(apps, keep);
    let marks = matched.map_values(|a: AppInfo| a.regular);
    let places = lemma_selected_places(apps, keep);
    if any_regular(matched) {
        let inner = lemma_selected_places(matched, marks);
        let at = inner.map_values(|k: int| places[k]);
        let i0 = choose|i: int| 0 <= i < matched.len() && (#[trigger] matched[i]).regular;
        assert(apps[places[i0]].regular && answers_to(apps[places[i0]], query, tier));
        assert forall|i: int|
            0 <= i < apps.len() && answers_to(#[trigger] apps[i], query, tier)
                && apps[i].regular implies at.contains(i) by {
            assert(keep[i]);
            let k = choose|k: int| 0 <= k < places.len() && places[k] == i;
            assert(marks[k]);
            let l = choose|l: int| 0 <= l < inner.len() && inner[l] == k;
            assert(at[l] == i);
        }
        assert forall|k: int| 0 <= k < at.len() implies apps[#[trigger] at[k]].regular by {
            assert(marks[inner[k]]);
            assert(matched[inner[k]] == apps[places[inner[k]]]);
        }
        at
    } else {
        assert forall|i: int|
            0 <= i < apps.len() && answers_to(#[trigger] apps[i], query, tier) implies
            places.contains(i) && !apps[i].regular by {
            assert(keep[i]);
            let k = choose|k: int| 0 <= k < places.len() && places[k] == i;
            assert(!matched[k].regular);
        }
        places
    }
}

/// The first way in which a query names any app decides, and one app that it names in that way is
/// the answer, whatever other apps a fuzzier way would name. A helper that is named in the same way
/// does not stand against an app with a Dock icon.
pub proof fn law_the_first_way_that_names_an_app_decides(
    apps: Seq<AppInfo>,
    query: Seq<char>,
    way: nat,
    i: int,
)
    requires
        is_plain(query),
        way < 5,
        0 <= i < apps.len(),
        is_named(apps[i], query, way),
        is_first_way(apps, query, way),
        forall|j: int|
            0 <= j < apps.len() && j != i && is_named(#[trigger] apps[j], query, way)
                ==> apps[i].regular && !apps[j].regular,
    ensures
        resolution(apps, query, 0) == Ok::<AppInfo, ResolveErrorText>(apps[i]),
{
    let tier = step_of(way);
    lemma_earlier_steps_are_empty(apps, query, way);
    assert forall|j: int| 0 <= j < apps.len() implies is_named(#[trigger] apps[j], query, way)
        == answers_to(apps[j], query, tier) by {
        lemma_named_answers(apps[j], query, way);
    }
    let hits = tier_hits(apps, query, tier);
    let at = lemma_hit_places(apps, query, tier);
    assert(answers_to(apps[i], query, tier));
    assert(at.contains(i)) by {
        if !apps[i].regular {
            assert forall|j: int|
                0 <= j < apps.len() && answers_to(
                    #[trigger] apps[j],
                    query,
                    tier,
                ) implies !apps[j].regular by {
                assert(is_named(apps[j], query, way));
            }
        }
    }
    let k = choose|k: int| 0 <= k < at.len() && at[k] == i;
    assert(at.len() == 1) by {
        if at.len() > 1 {
            let l: int = if k == 0 {
                1
            } else {
                0
            };
            assert(at[l] != at[k]);
            assert(answers_to(apps[at[l]], query, tier));
            assert(is_named(apps[at[l]], query, way));
            assert(!apps[at[l]].regular && apps[at[k]].regular);
        }
    }
    assert(hits[0] == apps[at[0]]);
}

/// Two apps that a query names in the first way that names any, neither of them a helper, are an
/// error that names the query and both of them, and never a guess.
pub proof fn law_two_apps_of_one_name_are_never_guessed_between(
    apps: Seq<AppInfo>,
    query: Seq<char>,
    way: nat,
    i: int,
    j: int,
)
    requires
        is_plain(query),
        way < 5,
        0 <= i < j < apps.len(),
        apps[i].regular,
        apps[j].regular,
        is_named(apps[i], query, way),
        is_named(apps[j], query, way),
        is_first_way(apps, query, way),
    ensures
        resolution(apps, query, 0) is Err,
        resolution(apps, query, 0)->Err_0 matches ResolveErrorText::Ambiguous {
            query: asked,
            matches: found,
        } && asked == query && has_part(found, apps[i].name@) && has_part(found, apps[j].name@),
{
    let tier = step_of(way);
    lemma_earlier_steps_are_empty(apps, query, way);
    lemma_named_answers(apps[i], query, way);
    lemma_named_answers(apps[j], query, way);
    let hits = tier_hits(apps, query, tier);
    let at = lemma_hit_places(apps, query, tier);
    assert(answers_to(apps[i], query, tier) && answers_to(apps[j], query, tier));
    let k = choose|k: int| 0 <= k < at.len() && at[k] == i;
    let l = choose|l: int| 0 <= l < at.len() && at[l] == j;
    lemma_label_is_listed(hits, k);
    lemma_label_is_listed(hits, l);
}

proof fn lemma_label_is_listed(apps: Seq<AppInfo>, k: int)
    requires
        0 <= k < apps.len(),
    ensures
        has_part(app_labels(apps), apps[k].name@),
{
    let labels = apps.map_values(|a: AppInfo| app_label(a));
    lemma_joined_holds(labels, ", "@, k);
    let (before, after) = choose|before: Seq<char>, after: Seq<char>|
        joined(labels, ", "@) == #[trigger] (before + labels[k] + after);
    let a = apps[k];
    let tail = match a.bundle_id {
        Some(b) => " ("@ + b@ + ")"@,
        None => " (pid "@ + signed_numeral(a.pid as int) + ")"@,
    };
    assert(labels[k] =~= a.name@ + tail);
    assert(before + labels[k] + after =~= before + a.name@ + (tail + after));
    law_a_part_is_found(before, a.name@, tail + after);
}

proof fn lemma_joined_holds(list: Seq<Seq<char>>, sep: Seq<char>, k: int)
    requires
        0 <= k < list.len(),
    ensures
        exists|before: Seq<char>, after: Seq<char>|
            joined(list, sep) == #[trigger] (before + list[k] + after),
    decreases list.len(),
{
    let none = Seq::<char>::empty();
    if list.len() == 1 {
        assert(joined(list, sep) =~= none + list[k] + none);
    } else if k == list.len() - 1 {
        let before = joined(list.drop_last(), sep) + sep;
        assert(joined(list, sep) =~= before + list[k] + none);
    } else {
        let rest = list.drop_last();
        lemma_joined_holds(rest, sep, k);
        let (before, after) = choose|before: Seq<char>, after: Seq<char>|
            joined(rest, sep) == #[trigger] (before + rest[k] + after);
        assert(joined(list, sep) =~= before + list[k] + (after + sep + list.last()));
    }
}

/// A query that names no app in any way is not found, and the error repeats the query.
pub proof fn law_an_unknown_name_is_not_found(apps: Seq<AppInfo>, query: Seq<char>)
    requires
        is_plain(query),
        is_first_way(apps, query, 5),
    ensures
        resolution(apps, query, 0) == Err::<AppInfo, ResolveErrorText>(
            ResolveErrorText::NotFound { query },
        ),
{
    assert(is_first_way(apps, query, 4));
    lemma_earlier_steps_are_empty(apps, query, 4);
    assert forall|j: int| 0 <= j < apps.len() implies !answers_to(#[trigger] apps[j], query, 5) by {
        assert(!is_named(apps[j], query, 4));
        lemma_named_answers(apps[j], query, 4);
    }
    law_matches_answer_and_prefer_real_apps(apps, query, 5);
    assert(resolution(apps, query, 6) == Err::<AppInfo, ResolveErrorText>(
        ResolveErrorText::NotFound { query },
    ));
}

/// The base name of a path to an app is what stands between the last slash and `.app`, whatever
/// slashes follow; of a path without `.app` it is what stands behind the last slash.
pub proof fn law_a_path_is_known_by_its_last_component(
    folder: Seq<char>,
    name: Seq<char>,
    slashes: Seq<char>,
)
    requires
        name.len() > 0,
        is_plain(name),
        forall|i: int| 0 <= i < slashes.len() ==> #[trigger] slashes[i] == '/',
    ensures
        basename(folder + "/"@ + name + ".app"@ + slashes) == name,
        basename(folder + "/"@ + name + slashes) == name,
        basename(name + ".app"@ + slashes) == name,
{
    reveal_strlit("/");
    reveal_strlit(".app");
    let bundle = name + ".app"@;
    assert forall|i: int| 0 <= i < bundle.len() implies #[trigger] bundle[i] != '/' by {
        if i < name.len() {
            assert(bundle[i] == name[i]);
        }
    }
    lemma_base_of(folder, bundle, slashes);
    lemma_base_of(folder, name, slashes);
    lemma_base_alone(bundle, slashes);
    assert(folder + "/"@ + name + ".app"@ + slashes =~= folder + "/"@ + bundle + slashes);
    law_a_part_stands_at_an_end(name, ".app"@);
    assert(bundle.skip(name.len() as int) =~= ".app"@);
    assert(bundle.take(name.len() as int) =~= name);
    reveal_with_fuel(without_suffixes, 2);
    assert(without_suffixes(name, ".app"@) == name);
    assert(without_suffixes(bundle, ".app"@) == name);
}

proof fn lemma_slashes_go(s: Seq<char>, slashes: Seq<char>)
    requires
        s.len() > 0,
        s.last() != '/',
        forall|i: int| 0 <= i < slashes.len() ==> #[trigger] slashes[i] == '/',
    ensures
        strip_end(s + slashes, CharKind::Just('/')) == s,
    decreases slashes.len(),
{
    if slashes.len() == 0 {
        assert(s + slashes =~= s);
    } else {
        assert((s + slashes).last() == slashes.last());
        assert((s + slashes).drop_last() =~= s + slashes.drop_last());
        lemma_slashes_go(s, slashes.drop_last());
    }
}

proof fn lemma_base_alone(last: Seq<char>, slashes: Seq<char>)
    requires
        last.len() > 0,
        forall|i: int| 0 <= i < last.len() ==> #[trigger] last[i] != '/',
        forall|i: int| 0 <= i < slashes.len() ==> #[trigger] slashes[i] == '/',
    ensures
        basename(last + slashes) == without_suffixes(last, ".app"@),
{
    let k = CharKind::Just('/');
    assert(last[last.len() - 1] != '/');
    lemma_slashes_go(last, slashes);
    assert forall|i: int| 0 <= i < last.len() implies !k.has(#[trigger] last[i]) by {}
    lemma_one_piece(last, k);
}

proof fn lemma_base_of(folder: Seq<char>, last: Seq<char>, slashes: Seq<char>)
    requires
        last.len() > 0,
        forall|i: int| 0 <= i < last.len() ==> #[trigger] last[i] != '/',
        forall|i: int| 0 <= i < slashes.len() ==> #[trigger] slashes[i] == '/',
    ensures
        basename(folder + "/"@ + last + slashes) == without_suffixes(last, ".app"@),
{
    reveal_strlit("/");
    let k = CharKind::Just('/');
    let path = folder + "/"@ + last;
    assert(path.last() == last[last.len() - 1]);
    lemma_slashes_go(path, slashes);
    assert(path =~= folder.push('/') + last);
    lemma_pieces_concat(folder, '/', last, k);
    assert forall|i: int| 0 <= i < last.len() implies !k.has(#[trigger] last[i]) by {}
    lemma_one_piece(last, k);
    assert(pieces(path, k).last() == last);
}

/// A path names what its base name names: where no app is called by the whole path, the two come to
/// the same app, or both to none.
pub proof fn law_a_path_names_what_its_base_name_names(
    apps: Seq<AppInfo>,
    path: Seq<char>,
    name: Seq<char>,
)
    requires
        is_plain(name),
        basename(path) == name,
        forall|j: int|
            0 <= j < apps.len() ==> text_of((#[trigger] apps[j]).bundle_id) != Some(path)
                && text_of(apps[j].bundle_id) != Some(name) && lowercase(apps[j].name@)
                != lowercase(path),
    ensures
        resolution(apps, path, 0) is Ok <==> resolution(apps, name, 0) is Ok,
        resolution(apps, path, 0) is Ok ==> resolution(apps, path, 0) == resolution(apps, name, 0),
{
    lemma_plain_base(name);
    law_matches_answer_and_prefer_real_apps(apps, path, 0);
    law_matches_answer_and_prefer_real_apps(apps, path, 1);
    law_matches_answer_and_prefer_real_apps(apps, name, 0);
    assert forall|j: int| 0 <= j < apps.len() implies !answers_to(#[trigger] apps[j], path, 0)
        && !answers_to(apps[j], path, 1) && !answers_to(apps[j], name, 0) by {}
    assert(resolution(apps, path, 0) == resolution(apps, path, 1));
    assert(resolution(apps, path, 1) == resolution(apps, path, 2));
    assert(resolution(apps, name, 0) == resolution(apps, name, 1));
    lemma_same_keep(apps, name, 1, name, 2);
    lemma_same_from(apps, path, name, 2);
    if tier_hits(apps, name, 1).len() > 0 {
        assert(tier_hits(apps, name, 1) == tier_hits(apps, name, 2));
    }
}

proof fn lemma_same_keep(apps: Seq<AppInfo>, a: Seq<char>, s: nat, b: Seq<char>, t: nat)
    requires
        forall|x: AppInfo| #[trigger] answers_to(x, a, s) == answers_to(x, b, t),
    ensures
        tier_hits(apps, a, s) == tier_hits(apps, b, t),
{
    assert(apps.map_values(|x: AppInfo| answers_to(x, a, s)) =~= apps.map_values(
        |x: AppInfo| answers_to(x, b, t),
    ));
}

proof fn lemma_same_from(apps: Seq<AppInfo>, a: Seq<char>, b: Seq<char>, tier: nat)
    requires
        basename(a) == basename(b),
        tier >= 2,
    ensures
        resolution(apps, a, tier) is Ok <==> resolution(apps, b, tier) is Ok,
        resolution(apps, a, tier) is Ok ==> resolution(apps, a, tier) == resolution(apps, b, tier),
    decreases TIERS - tier,
{
    if tier < TIERS {
        lemma_same_keep(apps, a, tier, b, tier);
        lemma_same_from(apps, a, b, tier + 1);
    }
}

/// How apps read in an error: each by its name and, in brackets, its bundle identifier, or its
/// process where it has none.
pub proof fn law_a_match_reads_as_name_and_identifier(a: AppInfo)
    ensures
        a.bundle_id is Some ==> app_labels(seq![a]) == a.name@ + " ("@ + a.bundle_id->0@ + ")"@,
        a.bundle_id is None ==> app_labels(seq![a]) == a.name@ + " (pid "@ + signed_numeral(
            a.pid as int,
        ) + ")"@,
{
    assert(seq![a].map_values(|x: AppInfo| app_label(x)) =~= seq![app_label(a)]);
}

} // verus!
