//! What an outline promises.
use vstd::prelude::*;
use crate::decimal::numeral;
use crate::snapshot::{
    child_indent, cut, descendants, forest_outline, is_collapsed, is_shown, node_line, node_links,
    outline, sizes_below, subtree_outline, subtree_size, AxNode, Outline,
    RenderOptions,
};
use crate::text::has_prefix;
use crate::tree::{
    children_below, children_of, is_child, is_root, lemma_children_in_range, parents_come_first,
    roots_below, roots_of,
};

verus! {

// -- lines -------------------------------------------------------------------------------------

/// The line of an element begins with its handle exactly where the element takes an action. Without
/// one it begins with the role.
pub proof fn law_only_what_takes_an_action_has_a_handle(n: AxNode, opts: RenderOptions)
    ensures
        n.actionable ==> has_prefix(
            node_line(n, opts),
            "["@ + numeral(n.index as nat) + "] "@ + n.role@,
        ),
        !n.actionable ==> has_prefix(node_line(n, opts), n.role@),
{
    let line = node_line(n, opts);
    if n.actionable {
        let start = "["@ + numeral(n.index as nat) + "] "@ + n.role@;
        assert(line.take(start.len() as int) == start);
    } else {
        assert(line.take(n.role@.len() as int) == n.role@);
    }
}

/// A text that is shown stays within its bound, the ellipsis apart, and one within its bound is
/// shown whole.
pub proof fn law_shown_text_is_short(s: Seq<char>, max: nat)
    ensures
        cut(s, max).len() <= max + 1,
        s.len() <= max ==> cut(s, max) == s,
{
    reveal_strlit("…");
}

// -- places ------------------------------------------------------------------------------------

/// Dropping a wrapper leaves no trace: its children are drawn at the wrapper's own level.
pub proof fn law_children_of_a_hidden_element_keep_its_place(
    nodes: Seq<AxNode>,
    opts: RenderOptions,
    pos: int,
    indent: nat,
    depth: nat,
)
    requires
        depth > 0,
        !is_shown(nodes[pos], opts),
    ensures
        subtree_outline(nodes, opts, pos, indent, depth).text == forest_outline(
            nodes,
            opts,
            children_of(node_links(nodes), pos),
            indent,
            (depth - 1) as nat,
        ).text,
{
    let kids = forest_outline(
        nodes,
        opts,
        children_of(node_links(nodes), pos),
        indent,
        (depth - 1) as nat,
    );
    assert(Seq::<char>::empty() + kids.text == kids.text);
}

/// An element whose parent was cut off is a root: no subtree is dropped for it.
pub proof fn law_an_orphan_is_a_root(nodes: Seq<AxNode>, pos: int)
    requires
        0 <= pos < nodes.len() <= usize::MAX,
        nodes[pos].parent is None || nodes[pos].parent->0 >= nodes.len(),
    ensures
        roots_of(node_links(nodes)).contains(pos as usize),
{
    lemma_root_is_listed(node_links(nodes), pos, nodes.len());
}

proof fn lemma_root_is_listed(parents: Seq<Option<usize>>, pos: int, upto: nat)
    requires
        0 <= pos < upto <= parents.len() <= usize::MAX,
        is_root(parents, pos),
    ensures
        roots_below(parents, upto).contains(pos as usize),
    decreases upto,
{
    let now = roots_below(parents, upto);
    let before = roots_below(parents, (upto - 1) as nat);
    if pos == upto - 1 {
        assert(now[now.len() - 1] == pos as usize);
    } else {
        lemma_root_is_listed(parents, pos, (upto - 1) as nat);
        let at = choose|k: int| 0 <= k < before.len() && before[k] == pos as usize;
        assert(now[at] == pos as usize);
    }
}

// -- counts ------------------------------------------------------------------------------------

/// The sizes of the elements from `from` up to `upto` whose parent is not among those from `from`.
spec fn top_sizes(parents: Seq<Option<usize>>, from: int, upto: nat) -> nat
    decreases upto,
{
    if upto == 0 || upto <= from || upto > parents.len() {
        0
    } else {
        let i = upto - 1;
        top_sizes(parents, from, (upto - 1) as nat) + if is_root(parents, i) || parents[i]->0
            < from {
            subtree_size(parents, i)
        } else {
            0
        }
    }
}

proof fn lemma_sizes_push(parents: Seq<Option<usize>>, list: Seq<usize>, c: usize, pos: int)
    ensures
        sizes_below(parents, list.push(c), pos) == sizes_below(parents, list, pos) + if pos < c
            < parents.len() {
            subtree_size(parents, c as int)
        } else {
            1
        },
{
    assert(list.push(c).drop_last() == list);
}

/// Moving the start by one trades the element there for its children.
proof fn lemma_top_sizes_step(parents: Seq<Option<usize>>, from: int, upto: nat)
    requires
        parents_come_first(parents),
        0 <= from < upto <= parents.len() <= usize::MAX,
    ensures
        top_sizes(parents, from, upto) + sizes_below(
            parents,
            children_below(parents, from, upto),
            from,
        ) == subtree_size(parents, from) + top_sizes(parents, from + 1, upto),
    decreases upto,
{
    let i = upto - 1;
    let before = children_below(parents, from, (upto - 1) as nat);
    if i > from {
        lemma_top_sizes_step(parents, from, (upto - 1) as nat);
        if is_child(parents, i, from) {
            lemma_sizes_push(parents, before, i as usize, from);
        }
    } else {
        lemma_no_children_yet(parents, from, from as nat);
        assert(top_sizes(parents, from, (upto - 1) as nat) == 0);
    }
}

proof fn lemma_no_children_yet(parents: Seq<Option<usize>>, parent: int, upto: nat)
    requires
        parents_come_first(parents),
        0 <= parent < parents.len(),
        upto <= parent,
    ensures
        children_below(parents, parent, upto) == Seq::<usize>::empty(),
    decreases upto,
{
    if upto > 0 {
        lemma_no_children_yet(parents, parent, (upto - 1) as nat);
        assert(parents[upto - 1] is Some ==> parents[upto - 1]->0 != parent);
    }
}

proof fn lemma_top_sizes_count(parents: Seq<Option<usize>>, from: int)
    requires
        parents_come_first(parents),
        0 <= from <= parents.len() <= usize::MAX,
    ensures
        top_sizes(parents, from, parents.len()) == parents.len() - from,
    decreases parents.len() - from,
{
    if from < parents.len() {
        lemma_top_sizes_count(parents, from + 1);
        lemma_top_sizes_step(parents, from, parents.len());
    }
}

proof fn lemma_top_sizes_hold(parents: Seq<Option<usize>>, from: int, upto: nat)
    requires
        0 <= from < upto <= parents.len(),
        parents_come_first(parents),
    ensures
        top_sizes(parents, from, upto) >= subtree_size(parents, from),
    decreases upto,
{
    if upto - 1 > from {
        lemma_top_sizes_hold(parents, from, (upto - 1) as nat);
    } else {
        assert(parents[from] is Some && parents[from]->0 < parents.len() ==> parents[from]->0
            <= from);
    }
}

/// No subtree counts more elements than stand from its root on.
proof fn lemma_size_bounded(parents: Seq<Option<usize>>, pos: int)
    requires
        parents_come_first(parents),
        0 <= pos < parents.len() <= usize::MAX,
    ensures
        subtree_size(parents, pos) <= parents.len() - pos,
{
    lemma_top_sizes_count(parents, pos);
    lemma_top_sizes_hold(parents, pos, parents.len());
}

/// The sizes of the subtrees of a list.
spec fn sizes_of(parents: Seq<Option<usize>>, list: Seq<usize>) -> nat
    decreases list.len(),
{
    if list.len() == 0 {
        0
    } else {
        subtree_size(parents, list[0] as int) + sizes_of(parents, list.drop_first())
    }
}

proof fn lemma_sizes_of_push(parents: Seq<Option<usize>>, list: Seq<usize>, c: usize)
    ensures
        sizes_of(parents, list.push(c)) == sizes_of(parents, list) + subtree_size(
            parents,
            c as int,
        ),
    decreases list.len(),
{
    if list.len() == 0 {
        assert(list.push(c).drop_first() == list);
    } else {
        lemma_sizes_of_push(parents, list.drop_first(), c);
        assert(list.push(c).drop_first() == list.drop_first().push(c));
    }
}

proof fn lemma_sizes_agree(parents: Seq<Option<usize>>, list: Seq<usize>, pos: int)
    requires
        forall|i: int| 0 <= i < list.len() ==> pos < (#[trigger] list[i]) < parents.len(),
    ensures
        sizes_of(parents, list) == sizes_below(parents, list, pos),
    decreases list.len(),
{
    if list.len() > 0 {
        lemma_sizes_agree(parents, list.drop_last(), pos);
        lemma_sizes_of_push(parents, list.drop_last(), list.last());
        assert(list.drop_last().push(list.last()) == list);
    }
}

proof fn lemma_roots_count(parents: Seq<Option<usize>>, upto: nat)
    requires
        upto <= parents.len() <= usize::MAX,
        parents_come_first(parents),
    ensures
        sizes_of(parents, roots_below(parents, upto)) == top_sizes(parents, 0, upto),
        forall|i: int|
            0 <= i < roots_below(parents, upto).len() ==> (#[trigger] roots_below(parents, upto)[i])
                < parents.len(),
    decreases upto,
{
    if upto > 0 {
        lemma_roots_count(parents, (upto - 1) as nat);
        let before = roots_below(parents, (upto - 1) as nat);
        let now = roots_below(parents, upto);
        if is_root(parents, upto - 1) {
            lemma_sizes_of_push(parents, before, (upto - 1) as usize);
        }
        assert forall|i: int| 0 <= i < now.len() implies #[trigger] now[i] < parents.len() by {
            if i < before.len() {
                assert(now[i] == before[i]);
            }
        }
    }
}

/// How many elements an outline accounts for.
pub open spec fn accounted(o: Outline) -> nat {
    o.shown + o.skipped + o.collapsed
}

proof fn lemma_subtree_accounts(
    nodes: Seq<AxNode>,
    opts: RenderOptions,
    pos: int,
    indent: nat,
    depth: nat,
)
    requires
        parents_come_first(node_links(nodes)),
        0 <= pos < nodes.len() <= usize::MAX,
        depth + pos >= nodes.len(),
    ensures
        accounted(subtree_outline(nodes, opts, pos, indent, depth)) == subtree_size(
            node_links(nodes),
            pos,
        ),
    decreases depth, 0nat,
{
    let parents = node_links(nodes);
    lemma_size_bounded(parents, pos);
    if !is_collapsed(nodes, opts, pos, indent) {
        lemma_children_in_range(parents, pos, parents.len());
        lemma_forest_accounts(
            nodes,
            opts,
            children_of(parents, pos),
            child_indent(nodes[pos], opts, indent),
            (depth - 1) as nat,
        );
        lemma_sizes_agree(parents, children_of(parents, pos), pos);
    }
}

proof fn lemma_forest_accounts(
    nodes: Seq<AxNode>,
    opts: RenderOptions,
    list: Seq<usize>,
    indent: nat,
    depth: nat,
)
    requires
        parents_come_first(node_links(nodes)),
        nodes.len() <= usize::MAX,
        forall|i: int|
            0 <= i < list.len() ==> (#[trigger] list[i]) < nodes.len() && depth + list[i]
                >= nodes.len(),
    ensures
        accounted(forest_outline(nodes, opts, list, indent, depth)) == sizes_of(
            node_links(nodes),
            list,
        ),
    decreases depth, list.len() + 1,
{
    if list.len() > 0 {
        lemma_subtree_accounts(nodes, opts, list[0] as int, indent, depth);
        lemma_forest_accounts(nodes, opts, list.drop_first(), indent, depth);
    }
}

/// Nothing is lost: of a walk that lists parents before their children, every element has a line,
/// or is counted as omitted, or is counted as collapsed, and each is counted once.
pub proof fn law_every_element_is_accounted_for(nodes: Seq<AxNode>, opts: RenderOptions)
    requires
        parents_come_first(node_links(nodes)),
        nodes.len() <= usize::MAX,
    ensures
        accounted(outline(nodes, opts)) == nodes.len(),
{
    let parents = node_links(nodes);
    lemma_roots_count(parents, parents.len());
    lemma_top_sizes_count(parents, 0);
    lemma_forest_accounts(nodes, opts, roots_of(parents), 0, nodes.len());
}

proof fn lemma_nothing_collapsed(
    nodes: Seq<AxNode>,
    opts: RenderOptions,
    list: Seq<usize>,
    indent: nat,
    depth: nat,
)
    requires
        !opts.skeleton,
    ensures
        forest_outline(nodes, opts, list, indent, depth).collapsed == 0,
    decreases depth, list.len(),
{
    if list.len() > 0 {
        lemma_nothing_collapsed(nodes, opts, list.drop_first(), indent, depth);
        if depth > 0 {
            let pos = list[0] as int;
            lemma_nothing_collapsed(
                nodes,
                opts,
                children_of(node_links(nodes), pos),
                child_indent(nodes[pos], opts, indent),
                (depth - 1) as nat,
            );
        }
        assert(subtree_outline(nodes, opts, list[0] as int, indent, depth).collapsed == 0);
    }
}

/// Unless a skeleton is asked for, nothing is collapsed.
pub proof fn law_only_a_skeleton_collapses(nodes: Seq<AxNode>, opts: RenderOptions)
    requires
        !opts.skeleton,
    ensures
        outline(nodes, opts).collapsed == 0,
{
    lemma_nothing_collapsed(nodes, opts, roots_of(node_links(nodes)), 0, nodes.len());
}

/// Shallow structure and small subtrees are left alone: nothing collapses above the skeleton depth,
/// nor with no more descendants than the threshold.
pub proof fn law_the_map_survives_a_skeleton(
    nodes: Seq<AxNode>,
    opts: RenderOptions,
    pos: int,
    indent: nat,
)
    requires
        indent < opts.skeleton_depth || descendants(node_links(nodes), pos) <= opts.collapse_over,
    ensures
        !is_collapsed(nodes, opts, pos, indent),
{
}

} // verus!
