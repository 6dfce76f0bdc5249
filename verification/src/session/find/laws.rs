//! What a search finds, and in which order.
use vstd::prelude::*;
use crate::decimal::numeral;
use crate::order::{law_ranked_sorts, ranked, Ranked};
use crate::session::find::{
    best_matches, lemma_ranked_from, match_line, match_lines, match_rank, node_name,
    scored_below, Scored,
};
use crate::snapshot::AxNode;
use crate::text::{debug_quoted, lowercase, text_of};
use crate::text::laws::law_a_part_stands_somewhere;

verus! {

/// Whether a text holds another one, without regard to case: it is made of something, the other
/// text, and something more.
pub open spec fn holds(text: Seq<char>, needle: Seq<char>) -> bool {
    exists|before: Seq<char>, after: Seq<char>|
        lowercase(text) == #[trigger] (before + lowercase(needle) + after)
}

pub open spec fn label_holds(n: AxNode, needle: Seq<char>) -> bool {
    n.label is Some && holds(n.label->0@, needle)
}

pub open spec fn value_holds(n: AxNode, needle: Seq<char>) -> bool {
    n.value is Some && holds(n.value->0@, needle)
}

/// Whether an element is what a search for the needle is after: its label, its value or its role
/// holds the needle.
pub open spec fn is_sought(n: AxNode, needle: Seq<char>) -> bool {
    label_holds(n, needle) || value_holds(n, needle) || holds(n.role@, needle)
}

proof fn lemma_rank_tells(n: AxNode, needle: Seq<char>)
    ensures
        match_rank(n, lowercase(needle)) is Some <==> is_sought(n, needle),
        match_rank(n, lowercase(needle)) is Some ==> match_rank(n, lowercase(needle))->0 == (
        if label_holds(n, needle) {
            0int
        } else if value_holds(n, needle) {
            1
        } else {
            2
        }) + (if n.actionable {
            0int
        } else {
            3
        }),
{
    let want = lowercase(needle);
    if n.label is Some {
        law_a_part_stands_somewhere(lowercase(n.label->0@), want);
    }
    if n.value is Some {
        law_a_part_stands_somewhere(lowercase(n.value->0@), want);
    }
    law_a_part_stands_somewhere(lowercase(n.role@), want);
}

/// The places of the matches, one for each element that is sought.
proof fn lemma_scored_places(nodes: Seq<AxNode>, needle: Seq<char>, upto: nat)
    requires
        upto <= nodes.len() <= usize::MAX,
    ensures
        forall|k: int|
            0 <= k < scored_below(nodes, lowercase(needle), upto).len() ==> {
                let s = #[trigger] scored_below(nodes, lowercase(needle), upto)[k];
                &&& s.pos < upto
                &&& is_sought(nodes[s.pos as int], needle)
                &&& s.index == nodes[s.pos as int].index
                &&& s.rank == match_rank(nodes[s.pos as int], lowercase(needle))->0
            },
        forall|i: int|
            0 <= i < upto && is_sought(#[trigger] nodes[i], needle) ==> exists|k: int|
                0 <= k < scored_below(nodes, lowercase(needle), upto).len() && (
                #[trigger] scored_below(nodes, lowercase(needle), upto)[k]).pos == i,
        forall|k: int, l: int|
            0 <= k < l < scored_below(nodes, lowercase(needle), upto).len() ==> (
            #[trigger] scored_below(nodes, lowercase(needle), upto)[k]).pos < (
            #[trigger] scored_below(nodes, lowercase(needle), upto)[l]).pos,
    decreases upto,
{
    let want = lowercase(needle);
    if upto > 0 {
        lemma_scored_places(nodes, needle, (upto - 1) as nat);
        lemma_rank_tells(nodes[upto - 1], needle);
        let earlier = scored_below(nodes, want, (upto - 1) as nat);
        let now = scored_below(nodes, want, upto);
        assert forall|k: int| 0 <= k < now.len() implies {
            let s = #[trigger] now[k];
            &&& s.pos < upto
            &&& is_sought(nodes[s.pos as int], needle)
            &&& s.index == nodes[s.pos as int].index
            &&& s.rank == match_rank(nodes[s.pos as int], want)->0
        } by {
            if k < earlier.len() {
                assert(now[k] == earlier[k]);
            }
        }
        assert forall|i: int| 0 <= i < upto && is_sought(#[trigger] nodes[i], needle) implies exists|
            k: int,
        | 0 <= k < now.len() && (#[trigger] now[k]).pos == i by {
            if i < upto - 1 {
                let k = choose|k: int| 0 <= k < earlier.len() && (#[trigger] earlier[k]).pos == i;
                assert(now[k].pos == i);
            } else {
                assert(now[earlier.len() as int].pos == i);
            }
        }
        assert forall|k: int, l: int| 0 <= k < l < now.len() implies (#[trigger] now[k]).pos < (
        #[trigger] now[l]).pos by {
            assert(now[k] == earlier[k]);
            if l < earlier.len() {
                assert(now[l] == earlier[l]);
            }
        }
    }
}

proof fn lemma_scored_count(nodes: Seq<AxNode>, needle: Seq<char>, upto: nat)
    requires
        upto <= nodes.len() <= usize::MAX,
    ensures
        scored_below(nodes, lowercase(needle), upto).len() == nodes.take(upto as int).filter(
            |n: AxNode| is_sought(n, needle),
        ).len(),
        scored_below(nodes, lowercase(needle), upto).len() <= upto,
    decreases upto,
{
    reveal(Seq::filter);
    if upto > 0 {
        lemma_scored_count(nodes, needle, (upto - 1) as nat);
        lemma_rank_tells(nodes[upto - 1], needle);
        assert(nodes.take(upto as int).drop_last() =~= nodes.take(upto - 1));
        assert(nodes.take(upto as int).last() == nodes[upto - 1]);
    } else {
        assert(nodes.take(0) =~= Seq::<AxNode>::empty());
    }
}

/// A search finds everything that it is after and nothing else: with room for all elements, it
/// lists as many lines as there are elements whose label, value or role holds the needle, the line
/// of each of them is listed, and every line listed is that of one of them. With less room it lists
/// as many as fit.
pub proof fn law_a_search_is_complete(nodes: Seq<AxNode>, needle: Seq<char>, limit: nat)
    requires
        lowercase(needle).len() > 0,
        limit > 0,
        nodes.len() <= usize::MAX,
    ensures
        ({
            let found = match_lines(nodes, needle, limit);
            let sought = nodes.filter(|n: AxNode| is_sought(n, needle)).len();
            &&& found.len() == if sought <= limit {
                sought
            } else {
                limit
            }
            &&& forall|k: int|
                0 <= k < found.len() ==> exists|i: int|
                    0 <= i < nodes.len() && is_sought(#[trigger] nodes[i], needle)
                        && #[trigger] found[k] == match_line(nodes[i])
            &&& limit >= nodes.len() ==> forall|i: int|
                0 <= i < nodes.len() && is_sought(#[trigger] nodes[i], needle) ==> found.contains(
                    match_line(nodes[i]),
                )
        }),
{
    let want = lowercase(needle);
    let scored = scored_below(nodes, want, nodes.len());
    let all = ranked(scored);
    let found = match_lines(nodes, needle, limit);
    let best = best_matches(nodes, want, limit);
    law_ranked_sorts(scored);
    lemma_scored_places(nodes, needle, nodes.len());
    lemma_scored_count(nodes, needle, nodes.len());
    assert(nodes.take(nodes.len() as int) =~= nodes);
    assert forall|k: int| 0 <= k < found.len() implies exists|i: int|
        0 <= i < nodes.len() && is_sought(#[trigger] nodes[i], needle)
            && #[trigger] found[k] == match_line(nodes[i]) by {
        lemma_ranked_from(scored, k);
        let j = choose|j: int| 0 <= j < scored.len() && scored[j] == all[k];
        let i = scored[j].pos as int;
        assert(best[k] == all[k]);
        assert(is_sought(nodes[i], needle) && found[k] == match_line(nodes[i]));
    }
    if limit >= nodes.len() {
        assert(best =~= all);
        assert forall|i: int|
            0 <= i < nodes.len() && is_sought(#[trigger] nodes[i], needle) implies found.contains(
            match_line(nodes[i]),
        ) by {
            let j = choose|j: int| 0 <= j < scored.len() && (#[trigger] scored[j]).pos == i;
            lemma_ranked_keeps(scored, j);
            let k = choose|k: int| 0 <= k < all.len() && all[k] == scored[j];
            assert(found[k] == match_line(nodes[i]));
        }
    }
}

proof fn lemma_ranked_keeps(list: Seq<Scored>, j: int)
    requires
        0 <= j < list.len(),
    ensures
        ranked(list).contains(list[j]),
{
    broadcast use vstd::seq_lib::group_to_multiset_ensures;

    law_ranked_sorts(list);
    assert(list.to_multiset().count(list[j]) > 0);
    assert(ranked(list).to_multiset().count(list[j]) > 0);
}

/// How good a match is: by the label, or else by the value, or else by the role; and anything that
/// takes an action is better than anything that does not.
pub open spec fn goodness(n: AxNode, needle: Seq<char>) -> int {
    (if label_holds(n, needle) {
        0int
    } else if value_holds(n, needle) {
        1
    } else {
        2
    }) + (if n.actionable {
        0int
    } else {
        3
    })
}

/// The best matches come first, and matches that are equally good in document order.
pub proof fn law_better_matches_come_first(
    nodes: Seq<AxNode>,
    needle: Seq<char>,
    limit: nat,
    a: int,
    b: int,
)
    requires
        nodes.len() <= usize::MAX,
        0 <= a < b < best_matches(nodes, lowercase(needle), limit).len(),
    ensures
        ({
            let best = best_matches(nodes, lowercase(needle), limit);
            let first = nodes[best[a].pos as int];
            let second = nodes[best[b].pos as int];
            &&& goodness(first, needle) <= goodness(second, needle)
            &&& goodness(first, needle) == goodness(second, needle) ==> first.index
                <= second.index
        }),
{
    let want = lowercase(needle);
    let scored = scored_below(nodes, want, nodes.len());
    let all = ranked(scored);
    law_ranked_sorts(scored);
    lemma_scored_places(nodes, needle, nodes.len());
    lemma_ranked_from(scored, a);
    lemma_ranked_from(scored, b);
    let i = choose|i: int| 0 <= i < scored.len() && scored[i] == all[a];
    let j = choose|j: int| 0 <= j < scored.len() && scored[j] == all[b];
    lemma_rank_tells(nodes[scored[i].pos as int], needle);
    lemma_rank_tells(nodes[scored[j].pos as int], needle);
    assert(!all[b].before(all[a]));
}

/// No element is left out for a worse one: what a search with less room lists is how a search with
/// more room begins.
pub proof fn law_less_room_keeps_the_best(
    nodes: Seq<AxNode>,
    needle: Seq<char>,
    limit: nat,
    more: nat,
    k: int,
)
    requires
        0 < limit <= more,
        0 <= k < match_lines(nodes, needle, limit).len(),
    ensures
        k < match_lines(nodes, needle, more).len(),
        match_lines(nodes, needle, limit)[k] == match_lines(nodes, needle, more)[k],
{
    law_ranked_sorts(scored_below(nodes, lowercase(needle), nodes.len()));
}

/// A search for nothing finds nothing, and a search without room still lists the best match.
pub proof fn law_a_search_for_nothing_finds_nothing(
    nodes: Seq<AxNode>,
    needle: Seq<char>,
    limit: nat,
)
    ensures
        lowercase(needle).len() == 0 ==> match_lines(nodes, needle, limit).len() == 0,
        match_lines(nodes, needle, 0) == match_lines(nodes, needle, 1),
{
}

/// The line of a match: its handle, or that it has none; its role, its label and, unless it repeats
/// the label, the first eighty characters of its value, quoted; and whether it is disabled.
pub proof fn law_a_match_line_tells_the_element(n: AxNode)
    ensures
        ({
            let handle = if n.actionable {
                "["@ + numeral(n.index as nat) + "] "@
            } else {
                "(not actionable) "@
            };
            let label = if n.label is Some {
                " "@ + debug_quoted(n.label->0@)
            } else {
                Seq::<char>::empty()
            };
            let value = if n.value is None || text_of(n.value) == text_of(n.label) {
                Seq::<char>::empty()
            } else if n.value->0@.len() <= 80 {
                " = "@ + debug_quoted(n.value->0@)
            } else {
                " = "@ + debug_quoted(n.value->0@.take(80))
            };
            let state = if !n.enabled {
                " (disabled)"@
            } else {
                Seq::<char>::empty()
            };
            match_line(n) == handle + n.role@ + label + value + state
        }),
{
}

/// An element is named by its index, its role, and what it says: its label, or else its value.
pub proof fn law_an_element_is_named_by_what_it_says(n: AxNode)
    ensures
        ({
            let start = "["@ + numeral(n.index as nat) + "] "@ + n.role@;
            &&& n.label is Some ==> node_name(n) == start + " "@ + debug_quoted(n.label->0@)
            &&& n.label is None && n.value is Some ==> node_name(n) == start + " = "@
                + debug_quoted(n.value->0@)
            &&& n.label is None && n.value is None ==> node_name(n) == start
        }),
{
}

} // verus!
