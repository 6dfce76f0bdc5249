//! What a question depends on, and nothing else does.
use vstd::prelude::*;
use crate::safety::context::{
    context_kind, displayed_text, forest_prose, is_prose, is_pruned, lemma_nearest_in_range, links,
    nearest_context, own_text, prose, question_at, search_depth, subtree_prose, NodeText,
};
use crate::tree::{children_below, children_of, is_child, lemma_children_in_range};

verus! {

/// Whether the search for prose looks at what hangs below a node.
pub open spec fn is_searched(n: NodeText) -> bool {
    !is_pruned(n) && !is_prose(n)
}

/// Whether the search for prose below `root` comes to a node in so many steps down.
pub open spec fn is_reached_in(nodes: Seq<NodeText>, root: int, i: int, steps: nat) -> bool
    decreases steps,
{
    &&& steps > 0
    &&& 0 <= i < nodes.len()
    &&& nodes[i].parent is Some
    &&& nodes[i].parent->0 != i
    &&& {
        let up = nodes[i].parent->0 as int;
        ||| up == root
        ||| up < nodes.len() && is_searched(nodes[up]) && is_reached_in(
            nodes,
            root,
            up,
            (steps - 1) as nat,
        )
    }
}

/// Whether the search for prose below `root` comes to a node.
pub open spec fn is_reached(nodes: Seq<NodeText>, root: int, i: int) -> bool {
    exists|steps: nat| is_reached_in(nodes, root, i, steps)
}

/// Whether two nodes are alike to the search for prose: they hang in one place, both are left out
/// or neither is, and what they display is the same where they display prose.
pub open spec fn are_alike(a: NodeText, b: NodeText) -> bool {
    &&& a.parent == b.parent
    &&& is_pruned(a) == is_pruned(b)
    &&& !is_pruned(a) ==> is_prose(a) == is_prose(b)
    &&& !is_pruned(a) && is_prose(a) ==> displayed_text(a) == displayed_text(b)
}

/// Whether two lists of nodes are alike wherever the search for prose below `root` comes to, in the
/// one or in the other. Elsewhere they may differ in everything.
pub open spec fn are_alike_below(a: Seq<NodeText>, b: Seq<NodeText>, root: int) -> bool {
    &&& a.len() == b.len()
    &&& forall|i: int|
        #![trigger is_reached(a, root, i)]
        #![trigger is_reached(b, root, i)]
        0 <= i < a.len() && (is_reached(a, root, i) || is_reached(b, root, i)) ==> are_alike(
            a[i],
            b[i],
        )
}

/// Whether the search looks below a position: at the root, and where it has come to a node that is
/// searched.
spec fn is_open(nodes: Seq<NodeText>, root: int, p: int) -> bool {
    p == root || (is_reached(nodes, root, p) && is_searched(nodes[p]))
}

proof fn lemma_child_is_reached(nodes: Seq<NodeText>, root: int, p: int, i: int)
    requires
        0 <= p < nodes.len(),
        0 <= i < nodes.len(),
        is_open(nodes, root, p),
        is_child(links(nodes), i, p),
    ensures
        is_reached(nodes, root, i),
{
    assert(links(nodes)[i] == nodes[i].parent);
    if p == root {
        assert(is_reached_in(nodes, root, i, 1));
    } else {
        let steps = choose|steps: nat| is_reached_in(nodes, root, p, steps);
        assert(is_reached_in(nodes, root, i, steps + 1));
    }
}

proof fn lemma_same_children(a: Seq<NodeText>, b: Seq<NodeText>, root: int, p: int, upto: nat)
    requires
        are_alike_below(a, b, root),
        0 <= p < a.len() <= usize::MAX,
        upto <= a.len(),
        is_open(a, root, p),
        is_open(b, root, p),
    ensures
        children_below(links(a), p, upto) == children_below(links(b), p, upto),
        forall|j: int|
            0 <= j < children_below(links(a), p, upto).len() ==> is_reached(
                a,
                root,
                #[trigger] children_below(links(a), p, upto)[j] as int,
            ) && is_reached(b, root, children_below(links(a), p, upto)[j] as int),
    decreases upto,
{
    if upto > 0 {
        let i = upto - 1;
        lemma_same_children(a, b, root, p, (upto - 1) as nat);
        assert(links(a)[i] == a[i].parent);
        assert(links(b)[i] == b[i].parent);
        if is_child(links(a), i, p) {
            lemma_child_is_reached(a, root, p, i);
        }
        if is_child(links(b), i, p) {
            lemma_child_is_reached(b, root, p, i);
        }
        assert(is_child(links(a), i, p) == is_child(links(b), i, p));
        let before = children_below(links(a), p, (upto - 1) as nat);
        let now = children_below(links(a), p, upto);
        assert forall|j: int| 0 <= j < now.len() implies is_reached(
            a,
            root,
            #[trigger] now[j] as int,
        ) && is_reached(b, root, now[j] as int) by {
            if j < before.len() {
                assert(now[j] == before[j]);
            } else {
                assert(is_child(links(a), i, p) && is_child(links(b), i, p));
                lemma_child_is_reached(a, root, p, i);
                lemma_child_is_reached(b, root, p, i);
                assert(now[j] == i as usize);
            }
        }
    }
}

proof fn lemma_alike_subtree(a: Seq<NodeText>, b: Seq<NodeText>, root: int, i: int, depth: nat)
    requires
        are_alike_below(a, b, root),
        0 <= i < a.len() <= usize::MAX,
        is_reached(a, root, i),
        is_reached(b, root, i),
    ensures
        subtree_prose(a, i, depth) == subtree_prose(b, i, depth),
    decreases depth, 0nat,
{
    assert(are_alike(a[i], b[i]));
    if depth > 0 && is_searched(a[i]) {
        lemma_same_children(a, b, root, i, a.len());
        assert(links(a).len() == a.len() && links(b).len() == b.len());
        lemma_children_in_range(links(a), i, a.len());
        lemma_alike_forest(a, b, root, children_of(links(a), i), (depth - 1) as nat);
    }
}

proof fn lemma_alike_forest(
    a: Seq<NodeText>,
    b: Seq<NodeText>,
    root: int,
    list: Seq<usize>,
    depth: nat,
)
    requires
        are_alike_below(a, b, root),
        a.len() <= usize::MAX,
        forall|j: int|
            0 <= j < list.len() ==> (#[trigger] list[j]) < a.len() && is_reached(
                a,
                root,
                list[j] as int,
            ) && is_reached(b, root, list[j] as int),
    ensures
        forest_prose(a, list, depth) == forest_prose(b, list, depth),
    decreases depth, list.len() + 1,
{
    if list.len() > 0 {
        lemma_alike_subtree(a, b, root, list[0] as int, depth);
        assert forall|j: int| 0 <= j < list.drop_first().len() implies (
        #[trigger] list.drop_first()[j]) < a.len() && is_reached(
            a,
            root,
            list.drop_first()[j] as int,
        ) && is_reached(b, root, list.drop_first()[j] as int) by {
            assert(list.drop_first()[j] == list[j + 1]);
        }
        lemma_alike_forest(a, b, root, list.drop_first(), depth);
    }
}

/// The prose of a root is made of its own words, where they are asked for, and of the prose that
/// the search comes to below it. Nothing else matters: no other node, no answer, no content.
pub proof fn law_only_prose_below_the_root_is_read(
    a: Seq<NodeText>,
    b: Seq<NodeText>,
    root: int,
    include_root: bool,
)
    requires
        0 <= root < a.len() <= usize::MAX,
        are_alike_below(a, b, root),
        include_root ==> own_text(a[root]) == own_text(b[root]),
    ensures
        prose(a, root, include_root) == prose(b, root, include_root),
{
    lemma_same_children(a, b, root, root, a.len());
    assert(links(a).len() == a.len() && links(b).len() == b.len());
    lemma_children_in_range(links(a), root, a.len());
    lemma_alike_forest(a, b, root, children_of(links(a), root), search_depth(a));
}

/// The question that an element answers depends on which element asks, on that element's own words
/// and kind, and on the prose that the search comes to below it. Two trees that agree in these put
/// the same question, whatever else they hold.
pub proof fn law_nothing_else_makes_a_question(a: Seq<NodeText>, b: Seq<NodeText>, target: int)
    requires
        a.len() == b.len() <= usize::MAX,
        nearest_context(a, target) == nearest_context(b, target),
        nearest_context(a, target) matches Some(root) ==> {
            &&& context_kind(a[root as int]) == context_kind(b[root as int])
            &&& own_text(a[root as int]) == own_text(b[root as int])
            &&& are_alike_below(a, b, root as int)
        },
    ensures
        question_at(a, target) == question_at(b, target),
{
    if let Some(root) = nearest_context(a, target) {
        lemma_nearest_in_range(a, a[target].parent, a.len());
        law_only_prose_below_the_root_is_read(a, b, root as int, true);
    }
}

} // verus!
