//! What a question and a caption say.
use vstd::prelude::*;
use crate::safety::context::{
    as_list, caption_text, displayed_text, first_parts, fixed_value, forest_prose, is_prose,
    is_pruned, links, nearest_context, own_text, prose, prose_parts, question_at, search_depth,
    spoken, subtree_prose, NodeText, CAPTIONED_ROLES,
};
use crate::safety::laws::lists::{is_among, lemma_listed_but_case, views};
use crate::safety::laws::questions::is_reached_in;
use crate::text::{has_part, is_white_space, joined, occurs_at, trimmed};
use crate::text::laws::{law_a_part_is_found, law_trimming_takes_the_outer_white_space};
use crate::tree::children_of;
use crate::tree::laws::law_children_are_those_that_name_the_parent;

verus! {

/// Whether a text is there and there is more to it than space.
pub open spec fn says_something(part: Option<Seq<char>>) -> bool {
    part is Some && exists|i: int|
        0 <= i < part->0.len() && !is_white_space(#[trigger] part->0[i])
}

proof fn lemma_spoken(part: Option<Seq<char>>)
    ensures
        spoken(part) is Some <==> says_something(part),
        spoken(part) is Some ==> spoken(part)->0 == trimmed(part->0),
{
    if part is Some {
        let m = part->0;
        law_trimming_takes_the_outer_white_space(m);
        let (before, after) = choose|before: Seq<char>, after: Seq<char>|
            {
                &&& m == #[trigger] (before + trimmed(m) + after)
                &&& forall|i: int| 0 <= i < before.len() ==> is_white_space(#[trigger] before[i])
                &&& forall|i: int| 0 <= i < after.len() ==> is_white_space(#[trigger] after[i])
            };
        if trimmed(m).len() > 0 {
            assert(m[before.len() as int] == trimmed(m)[0]);
        } else {
            assert forall|i: int| 0 <= i < m.len() implies is_white_space(#[trigger] m[i]) by {
                if i < before.len() {
                    assert(m[i] == before[i]);
                } else {
                    assert(m[i] == after[i - before.len()]);
                }
            }
        }
    }
}

/// What asks a question says its label, its help and its value, in that order and trimmed, each of
/// them where there is anything to it; the value only where it is not the user's to write.
pub proof fn law_what_asks_says_its_label_its_help_and_its_value(n: NodeText)
    ensures
        ({
            let none = Seq::<Seq<char>>::empty();
            let label = if says_something(n.label) { seq![trimmed(n.label->0)] } else { none };
            let help = if says_something(n.help) { seq![trimmed(n.help->0)] } else { none };
            let value = if says_something(n.value) && !n.settable {
                seq![trimmed(n.value->0)]
            } else {
                none
            };
            own_text(n) == label + help + value
        }),
{
    lemma_spoken(n.label);
    lemma_spoken(n.help);
    lemma_spoken(n.value);
    lemma_spoken(fixed_value(n));
}

/// A piece of static text displays its value, where there is anything to it and the user cannot
/// write it; else its label.
pub proof fn law_static_text_displays_its_value_before_its_label(n: NodeText)
    ensures
        says_something(n.value) && !n.settable ==> displayed_text(n) == Some(trimmed(n.value->0)),
        !(says_something(n.value) && !n.settable) && says_something(n.label) ==> displayed_text(n)
            == Some(trimmed(n.label->0)),
        !(says_something(n.value) && !n.settable) && !says_something(n.label) ==> displayed_text(
            n,
        ) is None,
{
    lemma_spoken(n.label);
    lemma_spoken(n.value);
    lemma_spoken(fixed_value(n));
}

// -- every sentence is read --------------------------------------------------------------------

proof fn lemma_part_of_forest(
    nodes: Seq<NodeText>,
    list: Seq<usize>,
    depth: nat,
    k: int,
    t: Seq<char>,
)
    requires
        0 <= k < list.len(),
        subtree_prose(nodes, list[k] as int, depth).contains(t),
    ensures
        forest_prose(nodes, list, depth).contains(t),
    decreases list.len(),
{
    let first = subtree_prose(nodes, list[0] as int, depth);
    let rest = forest_prose(nodes, list.drop_first(), depth);
    if k == 0 {
        let i = choose|i: int| 0 <= i < first.len() && first[i] == t;
        assert((first + rest)[i] == t);
    } else {
        assert(list.drop_first()[k - 1] == list[k]);
        lemma_part_of_forest(nodes, list.drop_first(), depth, k - 1, t);
        let i = choose|i: int| 0 <= i < rest.len() && rest[i] == t;
        assert((first + rest)[first.len() + i] == t);
    }
}

proof fn lemma_deeper_subtree(nodes: Seq<NodeText>, index: int, depth: nat, t: Seq<char>)
    requires
        subtree_prose(nodes, index, depth).contains(t),
    ensures
        subtree_prose(nodes, index, depth + 1).contains(t),
    decreases depth, 0nat,
{
    if depth > 0 && !is_pruned(nodes[index]) && !is_prose(nodes[index]) {
        lemma_deeper_forest(nodes, children_of(links(nodes), index), (depth - 1) as nat, t);
    }
}

proof fn lemma_deeper_forest(nodes: Seq<NodeText>, list: Seq<usize>, depth: nat, t: Seq<char>)
    requires
        forest_prose(nodes, list, depth).contains(t),
    ensures
        forest_prose(nodes, list, depth + 1).contains(t),
    decreases depth, list.len() + 1,
{
    if list.len() > 0 {
        let first = subtree_prose(nodes, list[0] as int, depth);
        let rest = forest_prose(nodes, list.drop_first(), depth);
        let i = choose|i: int| 0 <= i < (first + rest).len() && (first + rest)[i] == t;
        let more = subtree_prose(nodes, list[0] as int, depth + 1);
        let others = forest_prose(nodes, list.drop_first(), depth + 1);
        if i < first.len() {
            assert(first[i] == t);
            lemma_deeper_subtree(nodes, list[0] as int, depth, t);
            let j = choose|j: int| 0 <= j < more.len() && more[j] == t;
            assert((more + others)[j] == t);
        } else {
            assert(rest[i - first.len()] == t);
            lemma_deeper_forest(nodes, list.drop_first(), depth, t);
            let j = choose|j: int| 0 <= j < others.len() && others[j] == t;
            assert((more + others)[more.len() + j] == t);
        }
    }
}

proof fn lemma_much_deeper(
    nodes: Seq<NodeText>,
    list: Seq<usize>,
    depth: nat,
    more: nat,
    t: Seq<char>,
)
    requires
        forest_prose(nodes, list, depth).contains(t),
        depth <= more,
    ensures
        forest_prose(nodes, list, more).contains(t),
    decreases more - depth,
{
    if depth < more {
        lemma_deeper_forest(nodes, list, depth, t);
        lemma_much_deeper(nodes, list, depth + 1, more, t);
    }
}

proof fn lemma_reached_is_read(
    nodes: Seq<NodeText>,
    root: int,
    i: int,
    steps: nat,
    depth: nat,
    t: Seq<char>,
)
    requires
        0 <= root < nodes.len() <= usize::MAX,
        is_reached_in(nodes, root, i, steps),
        subtree_prose(nodes, i, depth).contains(t),
    ensures
        forest_prose(nodes, children_of(links(nodes), root), (depth + steps - 1) as nat).contains(t),
    decreases steps,
{
    let up = nodes[i].parent->0;
    let list = children_of(links(nodes), up as int);
    law_children_are_those_that_name_the_parent(links(nodes), up);
    assert(links(nodes)[i] == Some(up));
    assert(list.contains(i as usize));
    let k = choose|k: int| 0 <= k < list.len() && list[k] == i as usize;
    lemma_part_of_forest(nodes, list, depth, k, t);
    if up == root {
        lemma_much_deeper(nodes, list, depth, (depth + steps - 1) as nat, t);
    } else {
        assert(subtree_prose(nodes, up as int, depth + 1) == forest_prose(nodes, list, depth));
        lemma_reached_is_read(nodes, root, up as int, (steps - 1) as nat, depth + 1, t);
    }
}

proof fn lemma_joined_holds(list: Seq<Seq<char>>, sep: Seq<char>, i: int)
    requires
        0 <= i < list.len(),
    ensures
        has_part(joined(list, sep), list[i]),
    decreases list.len(),
{
    let none = Seq::<char>::empty();
    if list.len() == 1 {
        law_a_part_is_found(none, list[0], none);
        assert(none + list[0] + none =~= list[0]);
    } else {
        let front = joined(list.drop_last(), sep);
        if i == list.len() - 1 {
            law_a_part_is_found(front + sep, list[i], none);
            assert(front + sep + list[i] + none =~= front + sep + list.last());
        } else {
            lemma_joined_holds(list.drop_last(), sep, i);
            let at = choose|at: int| occurs_at(front, list[i], at);
            let whole = front + sep + list.last();
            assert(whole.subrange(at, at + list[i].len()) =~= front.subrange(
                at,
                at + list[i].len(),
            ));
            assert(occurs_at(whole, list[i], at));
        }
    }
}

/// Every sentence that the search comes to is read: a piece of static text, reached from the root
/// through nothing that is left out, is in the prose of the root, unless that is full already.
pub proof fn law_every_sentence_of_a_question_is_read(
    nodes: Seq<NodeText>,
    root: int,
    include_root: bool,
    i: int,
    steps: nat,
)
    requires
        0 <= root < nodes.len() <= usize::MAX,
        is_reached_in(nodes, root, i, steps),
        steps <= nodes.len(),
        is_prose(nodes[i]),
        !is_pruned(nodes[i]),
        displayed_text(nodes[i]) is Some,
        prose_parts(nodes, root, include_root).len() < 24,
    ensures
        prose_parts(nodes, root, include_root).contains(displayed_text(nodes[i])->0),
        has_part(prose(nodes, root, include_root), displayed_text(nodes[i])->0),
{
    let t = displayed_text(nodes[i])->0;
    let one = subtree_prose(nodes, i, 1);
    assert(one == as_list(displayed_text(nodes[i])));
    assert(one[0] == t);
    lemma_reached_is_read(nodes, root, i, steps, 1, t);
    assert(search_depth(nodes) >= nodes.len()) by (nonlinear_arith)
        requires
            search_depth(nodes) == 25 * nodes.len(),
    ;
    let list = children_of(links(nodes), root);
    lemma_much_deeper(nodes, list, steps, search_depth(nodes), t);
    let below = forest_prose(nodes, list, search_depth(nodes));
    let own = if include_root {
        own_text(nodes[root])
    } else {
        Seq::empty()
    };
    let all = own + below;
    assert(prose_parts(nodes, root, include_root) == all);
    let k = choose|k: int| 0 <= k < below.len() && below[k] == t;
    assert(all[own.len() + k] == t);
    lemma_joined_holds(all, " "@, own.len() + k);
}

/// What the asking element says of itself comes first in its question.
pub proof fn law_a_question_begins_with_what_asks_it(nodes: Seq<NodeText>, root: int, k: int)
    requires
        0 <= root < nodes.len(),
        0 <= k < own_text(nodes[root]).len(),
    ensures
        k < prose_parts(nodes, root, true).len(),
        prose_parts(nodes, root, true)[k] == own_text(nodes[root])[k],
        has_part(prose(nodes, root, true), own_text(nodes[root])[k]),
{
    law_what_asks_says_its_label_its_help_and_its_value(nodes[root]);
    lemma_joined_holds(prose_parts(nodes, root, true), " "@, k);
}

// -- questions and captions --------------------------------------------------------------------

/// A control answers a question exactly where an ancestor asks one and there is anything to what it
/// says. The question is that ancestor's prose, and its kind is the ancestor's role, with the
/// subrole in brackets where there is one.
pub proof fn law_a_question_is_what_its_asker_says(nodes: Seq<NodeText>, target: int)
    ensures
        question_at(nodes, target) is Some <==> nearest_context(nodes, target) is Some
            && says_something(Some(prose(nodes, nearest_context(nodes, target)->0 as int, true))),
        question_at(nodes, target) is Some ==> {
            let asker = nodes[nearest_context(nodes, target)->0 as int];
            let q = question_at(nodes, target)->0;
            &&& q.question == prose(nodes, nearest_context(nodes, target)->0 as int, true)
            &&& asker.subrole is None || asker.subrole->0.len() == 0 ==> q.kind == asker.role
            &&& asker.subrole is Some && asker.subrole->0.len() > 0 ==> q.kind == asker.role + "["@
                + asker.subrole->0 + "]"@
        },
{
    if nearest_context(nodes, target) is Some {
        lemma_spoken(Some(prose(nodes, nearest_context(nodes, target)->0 as int, true)));
    }
}

/// A control is captioned by what its children say exactly where it is of a role that is drawn with
/// a caption, its own label says nothing, and its children say something.
pub proof fn law_a_silent_control_is_captioned_by_its_children(nodes: Seq<NodeText>, target: int)
    requires
        0 <= target < nodes.len(),
    ensures
        caption_text(nodes, target) is Some <==> {
            &&& is_among(nodes[target].role, views(CAPTIONED_ROLES@))
            &&& !says_something(nodes[target].label)
            &&& says_something(Some(prose(nodes, target, false)))
        },
        caption_text(nodes, target) is Some ==> caption_text(nodes, target)->0 == prose(
            nodes,
            target,
            false,
        ),
{
    lemma_spoken(nodes[target].label);
    lemma_spoken(Some(prose(nodes, target, false)));
    lemma_listed_but_case(CAPTIONED_ROLES@, nodes[target].role);
}

/// At most so many pieces are kept of a question, and they are its first ones.
pub proof fn law_the_first_pieces_are_kept(parts: Seq<Seq<char>>, i: int)
    requires
        0 <= i < parts.len(),
    ensures
        i < 24 ==> i < first_parts(parts).len() && first_parts(parts)[i] == parts[i],
        first_parts(parts).len() <= 24,
{
}

} // verus!
