//! Which texts are recorded of an element, and which of them count as gone.
use vstd::prelude::*;
use crate::menubar::quoted_each;
use crate::order::alphabetical;
use crate::session::error::CoreErrorText;
use crate::session::tokens::{
    change_of, hangs_below, level_tokens, list_text, live_tokens_below, missing_below,
    next_frontier, recorded_tokens, shown_tokens, tokens_below, with_node, with_token,
    LiveElement, MAX_TOKENS, TOKEN_LEVELS,
};
use crate::snapshot::AxNode;
use crate::text::{debug_quoted, joined, text_of, trimmed};
use crate::text::laws::{law_a_part_stands_at_an_end, law_joining_separates_neighbours};

verus! {

// -- one text ----------------------------------------------------------------------------------

/// Whether a text, once trimmed, identifies something: there is more to it than space, and it is no
/// placeholder of AppKit's.
pub open spec fn identifies(text: Option<Seq<char>>) -> bool {
    &&& text is Some
    &&& trimmed(text->0).len() > 0
    &&& !(exists|rest: Seq<char>| trimmed(text->0) == #[trigger] ("_NS:"@ + rest))
}

/// A list takes a text up exactly where the text identifies something and there is room. It is
/// taken trimmed, at the end, and never twice.
pub proof fn law_a_text_is_taken_up_once(list: Seq<Seq<char>>, text: Option<Seq<char>>)
    ensures
        !identifies(text) ==> with_token(list, text) == list,
        identifies(text) && list.contains(trimmed(text->0)) ==> with_token(list, text) == list,
        identifies(text) && !list.contains(trimmed(text->0)) && list.len() < 16 ==> with_token(
            list,
            text,
        ) == list + seq![trimmed(text->0)],
        list.len() >= 16 ==> with_token(list, text) == list,
{
    if text is Some {
        law_a_part_stands_at_an_end(trimmed(text->0), "_NS:"@);
        assert(list.push(trimmed(text->0)) =~= list + seq![trimmed(text->0)]);
    }
}

proof fn lemma_taken(list: Seq<Seq<char>>, text: Option<Seq<char>>)
    ensures
        list.len() <= with_token(list, text).len() <= list.len() + 1,
        forall|t: Seq<char>| #[trigger] with_token(list, text).contains(t) <==> list.contains(t) || (
        identifies(text) && t == trimmed(text->0) && list.len() < MAX_TOKENS),
{
    law_a_text_is_taken_up_once(list, text);
    let now = with_token(list, text);
    assert forall|t: Seq<char>| #[trigger] now.contains(t) <==> list.contains(t) || (identifies(text)
        && t == trimmed(text->0) && list.len() < MAX_TOKENS) by {
        if now != list {
            assert(now == list + seq![trimmed(text->0)]);
            if list.contains(t) {
                let i = choose|i: int| 0 <= i < list.len() && list[i] == t;
                assert(now[i] == t);
            }
            assert(now[list.len() as int] == trimmed(text->0));
            if now.contains(t) && t != trimmed(text->0) {
                let i = choose|i: int| 0 <= i < now.len() && now[i] == t;
                assert(list[i] == t);
            }
        }
    }
}

// -- the texts of a snapshot -------------------------------------------------------------------

/// Whether a text is the label or the value of a node, trimmed, and identifies something.
pub open spec fn is_text_of(n: AxNode, t: Seq<char>) -> bool {
    ||| identifies(text_of(n.label)) && t == trimmed(text_of(n.label)->0)
    ||| identifies(text_of(n.value)) && t == trimmed(text_of(n.value)->0)
}

/// Whether a node stands exactly so many levels below one of the given positions.
pub open spec fn stands_below(
    nodes: Seq<AxNode>,
    frontier: Seq<usize>,
    i: int,
    levels: nat,
) -> bool
    decreases levels,
{
    if levels == 0 {
        exists|k: int| 0 <= k < frontier.len() && #[trigger] frontier[k] == i
    } else {
        &&& 0 <= i < nodes.len()
        &&& nodes[i].parent is Some
        &&& stands_below(nodes, frontier, nodes[i].parent->0 as int, (levels - 1) as nat)
    }
}

proof fn lemma_node_taken(list: Seq<Seq<char>>, n: AxNode)
    ensures
        list.len() <= with_node(list, n).len(),
        forall|t: Seq<char>|
            {
                &&& list.contains(t) ==> #[trigger] with_node(list, n).contains(t)
                &&& with_node(list, n).contains(t) ==> list.contains(t) || is_text_of(n, t)
                &&& with_node(list, n).len() < MAX_TOKENS && is_text_of(n, t) ==> with_node(
                    list,
                    n,
                ).contains(t)
            },
{
    lemma_taken(list, text_of(n.label));
    let one = with_token(list, text_of(n.label));
    lemma_taken(one, text_of(n.value));
    assert forall|t: Seq<char>|
        {
            &&& list.contains(t) ==> #[trigger] with_node(list, n).contains(t)
            &&& with_node(list, n).contains(t) ==> list.contains(t) || is_text_of(n, t)
            &&& with_node(list, n).len() < MAX_TOKENS && is_text_of(n, t) ==> with_node(
                list,
                n,
            ).contains(t)
        } by {
        assert(one.contains(t) <==> list.contains(t) || (identifies(text_of(n.label)) && t == trimmed(
            text_of(n.label)->0,
        ) && list.len() < MAX_TOKENS));
    }
}

proof fn lemma_level(nodes: Seq<AxNode>, frontier: Seq<usize>, list: Seq<Seq<char>>, upto: nat)
    requires
        upto <= nodes.len(),
    ensures
        ({
            let all = level_tokens(nodes, frontier, list, upto);
            &&& list.len() <= all.len()
            &&& forall|t: Seq<char>| list.contains(t) ==> #[trigger] all.contains(t)
            &&& forall|t: Seq<char>| #[trigger]
                all.contains(t) ==> list.contains(t) || exists|i: int|
                    0 <= i < upto && hangs_below(#[trigger] nodes[i], frontier) && is_text_of(
                        nodes[i],
                        t,
                    )
            &&& forall|i: int, t: Seq<char>|
                #![trigger nodes[i], all.contains(t)]
                0 <= i < upto && hangs_below(nodes[i], frontier) && is_text_of(nodes[i], t)
                    && all.len() < MAX_TOKENS ==> all.contains(t)
        }),
    decreases upto,
{
    if upto > 0 {
        let n = nodes[upto - 1];
        lemma_level(nodes, frontier, list, (upto - 1) as nat);
        let before = level_tokens(nodes, frontier, list, (upto - 1) as nat);
        let all = level_tokens(nodes, frontier, list, upto);
        if hangs_below(n, frontier) {
            lemma_node_taken(before, n);
            assert forall|t: Seq<char>| #[trigger] all.contains(t) implies list.contains(t)
                || exists|i: int|
                0 <= i < upto && hangs_below(#[trigger] nodes[i], frontier) && is_text_of(
                    nodes[i],
                    t,
                ) by {
                if before.contains(t) {
                    if !list.contains(t) {
                        let i = choose|i: int|
                            0 <= i < upto - 1 && hangs_below(#[trigger] nodes[i], frontier)
                                && is_text_of(nodes[i], t);
                        assert(hangs_below(nodes[i], frontier));
                    }
                } else {
                    assert(hangs_below(nodes[upto - 1], frontier));
                }
            }
            assert forall|i: int, t: Seq<char>|
                #![trigger nodes[i], all.contains(t)]
                0 <= i < upto && hangs_below(nodes[i], frontier) && is_text_of(nodes[i], t)
                    && all.len() < MAX_TOKENS implies all.contains(t) by {
                if i < upto - 1 {
                    assert(before.contains(t));
                }
            }
        }
    }
}

proof fn lemma_next(nodes: Seq<AxNode>, frontier: Seq<usize>, upto: nat)
    requires
        upto <= nodes.len() <= usize::MAX,
    ensures
        forall|i: usize| #[trigger]
            next_frontier(nodes, frontier, upto).contains(i) <==> i < upto && hangs_below(
                nodes[i as int],
                frontier,
            ),
    decreases upto,
{
    if upto > 0 {
        lemma_next(nodes, frontier, (upto - 1) as nat);
        let before = next_frontier(nodes, frontier, (upto - 1) as nat);
        let now = next_frontier(nodes, frontier, upto);
        assert forall|i: usize| #[trigger] now.contains(i) <==> i < upto && hangs_below(
            nodes[i as int],
            frontier,
        ) by {
            if now != before {
                assert(now == before.push((upto - 1) as usize));
                assert(now[before.len() as int] == upto - 1);
                if before.contains(i) {
                    let k = choose|k: int| 0 <= k < before.len() && before[k] == i;
                    assert(now[k] == i);
                }
                if now.contains(i) && i != upto - 1 {
                    let k = choose|k: int| 0 <= k < now.len() && now[k] == i;
                    assert(before[k] == i);
                }
            }
        }
    }
}

proof fn lemma_one_level_further(
    nodes: Seq<AxNode>,
    frontier: Seq<usize>,
    i: int,
    levels: nat,
)
    requires
        nodes.len() <= usize::MAX,
    ensures
        stands_below(nodes, next_frontier(nodes, frontier, nodes.len()), i, levels)
            <==> stands_below(nodes, frontier, i, levels + 1),
    decreases levels,
{
    let next = next_frontier(nodes, frontier, nodes.len());
    lemma_next(nodes, frontier, nodes.len());
    if levels == 0 {
        if stands_below(nodes, next, i, 0) {
            let k = choose|k: int| 0 <= k < next.len() && #[trigger] next[k] == i;
            assert(next.contains(next[k]));
            assert(hangs_below(nodes[i], frontier));
            let p = nodes[i].parent->0;
            let j = choose|j: int| 0 <= j < frontier.len() && frontier[j] == p;
            assert(frontier[j] == p as int);
            assert(stands_below(nodes, frontier, p as int, 0));
        }
        if stands_below(nodes, frontier, i, 1) {
            let p = nodes[i].parent->0;
            assert(stands_below(nodes, frontier, p as int, 0));
            let j = choose|j: int| 0 <= j < frontier.len() && #[trigger] frontier[j] == p as int;
            assert(frontier[j] == p);
            assert(frontier.contains(p));
            assert(next.contains(i as usize));
            let k = choose|k: int| 0 <= k < next.len() && next[k] == i as usize;
            assert(next[k] == i);
        }
    } else if 0 <= i < nodes.len() && nodes[i].parent is Some {
        lemma_one_level_further(nodes, frontier, nodes[i].parent->0 as int, (levels - 1) as nat);
    }
}

proof fn lemma_first_level(nodes: Seq<AxNode>, frontier: Seq<usize>, i: int)
    requires
        0 <= i < nodes.len(),
    ensures
        stands_below(nodes, frontier, i, 1) <==> hangs_below(nodes[i], frontier),
{
    if nodes[i].parent is Some {
        let p = nodes[i].parent->0;
        if frontier.contains(p) {
            let j = choose|j: int| 0 <= j < frontier.len() && frontier[j] == p;
            assert(frontier[j] == p as int);
        }
        if stands_below(nodes, frontier, p as int, 0) {
            let j = choose|j: int| 0 <= j < frontier.len() && #[trigger] frontier[j] == p as int;
            assert(frontier[j] == p);
        }
        assert(stands_below(nodes, frontier, i, 1) == stands_below(nodes, frontier, p as int, 0));
    }
}

proof fn lemma_levels(
    nodes: Seq<AxNode>,
    frontier: Seq<usize>,
    list: Seq<Seq<char>>,
    levels: nat,
)
    requires
        nodes.len() <= usize::MAX,
    ensures
        ({
            let all = tokens_below(nodes, frontier, list, levels);
            &&& list.len() <= all.len()
            &&& forall|t: Seq<char>| list.contains(t) ==> #[trigger] all.contains(t)
            &&& forall|t: Seq<char>| #[trigger]
                all.contains(t) ==> list.contains(t) || exists|i: int, k: nat|
                    0 < k <= levels && 0 <= i < nodes.len() && #[trigger] stands_below(
                        nodes,
                        frontier,
                        i,
                        k,
                    ) && is_text_of(nodes[i], t)
            &&& forall|i: int, k: nat, t: Seq<char>|
                #![trigger stands_below(nodes, frontier, i, k), all.contains(t)]
                0 < k <= levels && 0 <= i < nodes.len() && stands_below(nodes, frontier, i, k)
                    && is_text_of(nodes[i], t) && all.len() < MAX_TOKENS ==> all.contains(t)
        }),
    decreases levels,
{
    if levels > 0 {
        let next = next_frontier(nodes, frontier, nodes.len());
        let one = level_tokens(nodes, frontier, list, nodes.len());
        let all = tokens_below(nodes, frontier, list, levels);
        lemma_level(nodes, frontier, list, nodes.len());
        lemma_levels(nodes, next, one, (levels - 1) as nat);
        assert(all == tokens_below(nodes, next, one, (levels - 1) as nat));
        assert forall|t: Seq<char>| #[trigger] all.contains(t) implies list.contains(t)
            || exists|i: int, k: nat|
            0 < k <= levels && 0 <= i < nodes.len() && #[trigger] stands_below(
                nodes,
                frontier,
                i,
                k,
            ) && is_text_of(nodes[i], t) by {
            if one.contains(t) {
                if !list.contains(t) {
                    let i = choose|i: int|
                        0 <= i < nodes.len() && hangs_below(#[trigger] nodes[i], frontier)
                            && is_text_of(nodes[i], t);
                    lemma_first_level(nodes, frontier, i);
                    assert(stands_below(nodes, frontier, i, 1));
                }
            } else {
                let (i, k) = choose|i: int, k: nat|
                    0 < k <= levels - 1 && 0 <= i < nodes.len() && #[trigger] stands_below(
                        nodes,
                        next,
                        i,
                        k,
                    ) && is_text_of(nodes[i], t);
                lemma_one_level_further(nodes, frontier, i, k);
                assert(stands_below(nodes, frontier, i, k + 1));
            }
        }
        assert forall|i: int, k: nat, t: Seq<char>|
            #![trigger stands_below(nodes, frontier, i, k), all.contains(t)]
            0 < k <= levels && 0 <= i < nodes.len() && stands_below(nodes, frontier, i, k)
                && is_text_of(nodes[i], t) && all.len() < MAX_TOKENS implies all.contains(t) by {
            if k == 1 {
                lemma_first_level(nodes, frontier, i);
                assert(hangs_below(nodes[i], frontier));
                assert(one.contains(t));
            } else {
                lemma_one_level_further(nodes, frontier, i, (k - 1) as nat);
                assert(stands_below(nodes, next, i, (k - 1) as nat));
            }
        }
    }
}

/// The texts recorded of an element are its own and those of what stands up to three levels below
/// it: none comes from anywhere else, and while there is room for another, none of them is missing.
pub proof fn law_the_texts_below_an_element_are_recorded(
    nodes: Seq<AxNode>,
    index: usize,
    t: Seq<char>,
)
    requires
        index < nodes.len() <= usize::MAX,
    ensures
        ({
            let all = recorded_tokens(nodes, index);
            let theirs = exists|i: int, k: nat|
                k <= 3 && 0 <= i < nodes.len() && #[trigger] stands_below(
                    nodes,
                    seq![index],
                    i,
                    k,
                ) && is_text_of(nodes[i], t);
            &&& all.contains(t) ==> theirs
            &&& theirs && all.len() < 16 ==> all.contains(t)
        }),
{
    let none = Seq::<Seq<char>>::empty();
    let n = nodes[index as int];
    let own = with_node(none, n);
    let frontier = seq![index];
    lemma_node_taken(none, n);
    lemma_levels(nodes, frontier, own, TOKEN_LEVELS as nat);
    let all = recorded_tokens(nodes, index);
    assert(frontier[0] == index as int);
    assert(stands_below(nodes, frontier, index as int, 0));
    if all.contains(t) {
        if own.contains(t) {
            assert(!none.contains(t));
            assert(is_text_of(n, t));
        }
    }
    let theirs = exists|i: int, k: nat|
        k <= 3 && 0 <= i < nodes.len() && #[trigger] stands_below(nodes, seq![index], i, k)
            && is_text_of(nodes[i], t);
    if theirs && all.len() < 16 {
        let (i, k) = choose|i: int, k: nat|
            k <= 3 && 0 <= i < nodes.len() && #[trigger] stands_below(nodes, seq![index], i, k)
                && is_text_of(nodes[i], t);
        if k == 0 {
            let j = choose|j: int| 0 <= j < frontier.len() && #[trigger] frontier[j] == i;
            assert(i == index);
            assert(own.contains(t));
            assert(all.contains(t));
        } else {
            assert(all.contains(t));
        }
    }
}

// -- the texts of a live element ---------------------------------------------------------------

/// Whether a text is the title, the value or the description of one of the elements, or of what is
/// below them down to so many levels.
pub open spec fn is_shown(children: Seq<LiveElement>, t: Seq<char>, levels: nat) -> bool
    decreases levels,
{
    levels > 0 && exists|i: int|
        0 <= i < children.len() && {
            let c = #[trigger] children[i];
            ||| identifies(text_of(c.title)) && t == trimmed(text_of(c.title)->0)
            ||| identifies(text_of(c.value)) && t == trimmed(text_of(c.value)->0)
            ||| identifies(text_of(c.description)) && t == trimmed(text_of(c.description)->0)
            ||| is_shown(c.children@, t, (levels - 1) as nat)
        }
}

proof fn lemma_three_taken(
    list: Seq<Seq<char>>,
    a: Option<Seq<char>>,
    b: Option<Seq<char>>,
    c: Option<Seq<char>>,
    t: Seq<char>,
)
    ensures
        ({
            let all = with_token(with_token(with_token(list, a), b), c);
            let own = (identifies(a) && t == trimmed(a->0)) || (identifies(b) && t == trimmed(b->0))
                || (identifies(c) && t == trimmed(c->0));
            &&& list.len() <= all.len()
            &&& list.contains(t) ==> all.contains(t)
            &&& all.contains(t) ==> list.contains(t) || own
            &&& own && all.len() < MAX_TOKENS ==> all.contains(t)
        }),
{
    lemma_taken(list, a);
    let one = with_token(list, a);
    lemma_taken(one, b);
    let two = with_token(one, b);
    lemma_taken(two, c);
    assert(one.contains(t) || !one.contains(t));
    assert(two.contains(t) || !two.contains(t));
}

proof fn lemma_live(children: Seq<LiveElement>, list: Seq<Seq<char>>, levels: nat, t: Seq<char>)
    ensures
        ({
            let all = live_tokens_below(children, list, levels);
            &&& list.len() <= all.len()
            &&& list.contains(t) ==> all.contains(t)
            &&& all.contains(t) ==> list.contains(t) || is_shown(children, t, levels)
            &&& is_shown(children, t, levels) && all.len() < MAX_TOKENS ==> all.contains(t)
        }),
    decreases levels, children.len(),
{
    if levels > 0 && children.len() > 0 {
        let front = children.drop_last();
        let child = children.last();
        lemma_live(front, list, levels, t);
        let earlier = live_tokens_below(front, list, levels);
        lemma_three_taken(
            earlier,
            text_of(child.title),
            text_of(child.value),
            text_of(child.description),
            t,
        );
        let own = with_token(
            with_token(with_token(earlier, text_of(child.title)), text_of(child.value)),
            text_of(child.description),
        );
        lemma_live(child.children@, own, (levels - 1) as nat, t);
        assert(children[children.len() - 1] == child);
        if is_shown(front, t, levels) {
            let i = choose|i: int|
                0 <= i < front.len() && {
                    let c = #[trigger] front[i];
                    ||| identifies(text_of(c.title)) && t == trimmed(text_of(c.title)->0)
                    ||| identifies(text_of(c.value)) && t == trimmed(text_of(c.value)->0)
                    ||| identifies(text_of(c.description)) && t == trimmed(
                        text_of(c.description)->0,
                    )
                    ||| is_shown(c.children@, t, (levels - 1) as nat)
                };
            assert(children[i] == front[i]);
            assert(is_shown(children, t, levels));
        }
        if is_shown(children, t, levels) {
            let i = choose|i: int|
                0 <= i < children.len() && {
                    let c = #[trigger] children[i];
                    ||| identifies(text_of(c.title)) && t == trimmed(text_of(c.title)->0)
                    ||| identifies(text_of(c.value)) && t == trimmed(text_of(c.value)->0)
                    ||| identifies(text_of(c.description)) && t == trimmed(
                        text_of(c.description)->0,
                    )
                    ||| is_shown(c.children@, t, (levels - 1) as nat)
                };
            if i < front.len() {
                assert(front[i] == children[i]);
                assert(is_shown(front, t, levels));
            }
        }
    }
}

/// The texts that a live element shows are its title, its value and its label, and the texts of
/// what is up to three levels below it: none comes from anywhere else, and while there is room for
/// another, none of them is missing.
pub proof fn law_the_texts_below_a_live_element_are_shown(
    el: LiveElement,
    label: Option<Seq<char>>,
    t: Seq<char>,
)
    ensures
        ({
            let all = shown_tokens(el, label);
            let theirs = {
                ||| identifies(text_of(el.title)) && t == trimmed(text_of(el.title)->0)
                ||| identifies(text_of(el.value)) && t == trimmed(text_of(el.value)->0)
                ||| identifies(label) && t == trimmed(label->0)
                ||| is_shown(el.children@, t, 3)
            };
            &&& all.contains(t) ==> theirs
            &&& theirs && all.len() < 16 ==> all.contains(t)
        }),
{
    let none = Seq::<Seq<char>>::empty();
    lemma_three_taken(none, text_of(el.title), text_of(el.value), label, t);
    let own = with_token(
        with_token(with_token(none, text_of(el.title)), text_of(el.value)),
        label,
    );
    lemma_live(el.children@, own, 3, t);
    assert(!none.contains(t));
}

// -- what is gone ------------------------------------------------------------------------------

proof fn lemma_missing(expected: Seq<Seq<char>>, found: Seq<Seq<char>>, upto: nat)
    requires
        upto <= expected.len(),
    ensures
        missing_below(expected, found, upto) == expected.take(upto as int).filter(
            |t: Seq<char>| !found.contains(t),
        ),
    decreases upto,
{
    reveal(Seq::filter);
    if upto > 0 {
        lemma_missing(expected, found, (upto - 1) as nat);
        assert(expected.take(upto as int).drop_last() =~= expected.take(upto - 1));
        assert(expected.take(upto as int).last() == expected[upto - 1]);
    } else {
        assert(expected.take(0).filter(|t: Seq<char>| !found.contains(t)) =~= Seq::<
            Seq<char>,
        >::empty());
    }
}

/// An element counts as changed exactly where one of its recorded texts is not shown any more. What
/// is told are those texts, and what is shown instead, each list in alphabetical order.
pub proof fn law_a_change_tells_what_is_gone(
    index: usize,
    expected: Seq<Seq<char>>,
    found: Seq<Seq<char>>,
)
    ensures
        change_of(index, expected, found) is None <==> forall|t: Seq<char>|
            expected.contains(t) ==> #[trigger] found.contains(t),
        change_of(index, expected, found) is Some ==> change_of(index, expected, found) == Some(
            CoreErrorText::TargetChanged {
                index,
                expected: list_text(
                    alphabetical(expected.filter(|t: Seq<char>| !found.contains(t))),
                ),
                found: list_text(alphabetical(found)),
            },
        ),
{
    lemma_missing(expected, found, expected.len());
    assert(expected.take(expected.len() as int) =~= expected);
    if forall|t: Seq<char>| expected.contains(t) ==> #[trigger] found.contains(t) {
        assert forall|i: int| 0 <= i < expected.len() implies found.contains(#[trigger] expected[i]) by {
            assert(expected.contains(expected[i]));
        }
    }
    if change_of(index, expected, found) is None {
        assert forall|t: Seq<char>| expected.contains(t) implies #[trigger] found.contains(t) by {
            let i = choose|i: int| 0 <= i < expected.len() && expected[i] == t;
            assert(found.contains(expected[i]));
        }
    }
}

/// A list of texts is told in square brackets, each text in quotes, with commas between.
pub proof fn law_a_list_is_told_in_brackets(
    a: Seq<Seq<char>>,
    b: Seq<Seq<char>>,
    one: Seq<char>,
)
    ensures
        list_text(Seq::empty()) == "["@ + "]"@,
        list_text(seq![one]) == "["@ + debug_quoted(one) + "]"@,
        a.len() > 0 && b.len() > 0 ==> exists|x: Seq<char>, y: Seq<char>|
            {
                &&& list_text(a) == "["@ + x + "]"@
                &&& list_text(b) == "["@ + y + "]"@
                &&& list_text(a + b) == #[trigger] ("["@ + x + ", "@ + y + "]"@)
            },
{
    let none = Seq::<Seq<char>>::empty();
    assert(quoted_each(none) =~= none);
    assert("["@ + Seq::<char>::empty() + "]"@ =~= "["@ + "]"@);
    assert(quoted_each(seq![one]) =~= seq![debug_quoted(one)]);
    if a.len() > 0 && b.len() > 0 {
        assert(quoted_each(a + b) =~= quoted_each(a) + quoted_each(b));
        law_joining_separates_neighbours(quoted_each(a), quoted_each(b), one, ", "@);
        let x = joined(quoted_each(a), ", "@);
        let y = joined(quoted_each(b), ", "@);
        assert(list_text(a + b) =~= "["@ + x + ", "@ + y + "]"@);
    }
}

} // verus!
