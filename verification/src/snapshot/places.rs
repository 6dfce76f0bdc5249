//! Where the elements stand in an outline: every one of them, at its own level.
use vstd::prelude::*;
use crate::snapshot::{
    forest_outline, frame_text, handle_text, indent_text, is_shown, label_text, node_line,
    node_links, outline, rendering, state_text, subtree_outline, value_text, without_prefixes,
    AxNode, RenderOptions,
};
use crate::text::{has_part, has_prefix};
use crate::text::laws::{law_a_part_is_found, law_a_part_stands_somewhere};
use crate::tree::{children_of, is_root, parents_come_first, roots_of};
use crate::tree::laws::{
    law_children_are_those_that_name_the_parent, law_roots_are_those_without_a_parent,
};

verus! {

/// How many of the elements above an element have a line.
pub open spec fn shown_above(nodes: Seq<AxNode>, opts: RenderOptions, pos: int) -> nat
    decreases pos,
{
    if 0 <= pos < nodes.len() && !is_root(node_links(nodes), pos) && nodes[pos].parent->0 < pos {
        let up = nodes[pos].parent->0 as int;
        shown_above(nodes, opts, up) + if is_shown(nodes[up], opts) {
            1nat
        } else {
            0
        }
    } else {
        0
    }
}

/// How many elements there are above an element.
spec fn count_above(nodes: Seq<AxNode>, pos: int) -> nat
    decreases pos,
{
    if 0 <= pos < nodes.len() && !is_root(node_links(nodes), pos) && nodes[pos].parent->0 < pos {
        count_above(nodes, nodes[pos].parent->0 as int) + 1
    } else {
        0
    }
}

proof fn lemma_count_above(nodes: Seq<AxNode>, pos: int)
    requires
        0 <= pos < nodes.len(),
    ensures
        count_above(nodes, pos) <= pos,
    decreases pos,
{
    if !is_root(node_links(nodes), pos) && nodes[pos].parent->0 < pos {
        lemma_count_above(nodes, nodes[pos].parent->0 as int);
    }
}

proof fn lemma_part_of_part(whole: Seq<char>, middle: Seq<char>, part: Seq<char>)
    requires
        has_part(whole, middle),
        has_part(middle, part),
    ensures
        has_part(whole, part),
{
    law_a_part_stands_somewhere(whole, middle);
    law_a_part_stands_somewhere(middle, part);
    let (a, b) = choose|a: Seq<char>, b: Seq<char>| whole == #[trigger] (a + middle + b);
    let (c, d) = choose|c: Seq<char>, d: Seq<char>| middle == #[trigger] (c + part + d);
    law_a_part_is_found(a + c, part, d + b);
    assert(whole =~= (a + c) + part + (d + b));
}

proof fn lemma_subtree_in_forest(
    nodes: Seq<AxNode>,
    opts: RenderOptions,
    list: Seq<usize>,
    indent: nat,
    depth: nat,
    k: int,
)
    requires
        0 <= k < list.len(),
    ensures
        has_part(
            forest_outline(nodes, opts, list, indent, depth).text,
            subtree_outline(nodes, opts, list[k] as int, indent, depth).text,
        ),
    decreases list.len(),
{
    let whole = forest_outline(nodes, opts, list, indent, depth).text;
    let first = subtree_outline(nodes, opts, list[0] as int, indent, depth).text;
    let rest = forest_outline(nodes, opts, list.drop_first(), indent, depth).text;
    let none = Seq::<char>::empty();
    assert(whole == first + rest);
    if k == 0 {
        law_a_part_is_found(none, first, rest);
        assert(none + first + rest =~= whole);
    } else {
        assert(list.drop_first()[k - 1] == list[k]);
        lemma_subtree_in_forest(nodes, opts, list.drop_first(), indent, depth, k - 1);
        law_a_part_is_found(first, rest, none);
        assert(first + rest + none =~= whole);
        lemma_part_of_part(
            whole,
            rest,
            subtree_outline(nodes, opts, list[k] as int, indent, depth).text,
        );
    }
}

proof fn lemma_subtree_in_outline(nodes: Seq<AxNode>, opts: RenderOptions, pos: int)
    requires
        parents_come_first(node_links(nodes)),
        !opts.skeleton,
        0 <= pos < nodes.len() <= usize::MAX,
    ensures
        has_part(
            outline(nodes, opts).text,
            subtree_outline(
                nodes,
                opts,
                pos,
                shown_above(nodes, opts, pos),
                (nodes.len() - count_above(nodes, pos)) as nat,
            ).text,
        ),
    decreases pos,
{
    let links = node_links(nodes);
    assert(links[pos] == nodes[pos].parent);
    if is_root(links, pos) {
        law_roots_are_those_without_a_parent(links);
        let list = roots_of(links);
        assert(list.contains(pos as usize));
        let k = choose|k: int| 0 <= k < list.len() && list[k] == pos as usize;
        lemma_subtree_in_forest(nodes, opts, list, 0, nodes.len(), k);
    } else {
        let up = nodes[pos].parent->0;
        assert(up < pos);
        lemma_subtree_in_outline(nodes, opts, up as int);
        lemma_count_above(nodes, up as int);
        let indent = shown_above(nodes, opts, up as int);
        let depth = (nodes.len() - count_above(nodes, up as int)) as nat;
        let list = children_of(links, up as int);
        law_children_are_those_that_name_the_parent(links, up);
        assert(list.contains(pos as usize));
        let k = choose|k: int| 0 <= k < list.len() && list[k] == pos as usize;
        let inner = shown_above(nodes, opts, pos);
        let below = forest_outline(nodes, opts, list, inner, (depth - 1) as nat).text;
        lemma_subtree_in_forest(nodes, opts, list, inner, (depth - 1) as nat, k);
        let whole = subtree_outline(nodes, opts, up as int, indent, depth).text;
        let none = Seq::<char>::empty();
        let own = if is_shown(nodes[up as int], opts) {
            (indent_text(indent) + node_line(nodes[up as int], opts)).push('\n')
        } else {
            none
        };
        assert(whole == own + below);
        law_a_part_is_found(own, below, none);
        assert(own + below + none =~= whole);
        let mine = subtree_outline(nodes, opts, pos, inner, (depth - 1) as nat).text;
        lemma_part_of_part(whole, below, mine);
        lemma_part_of_part(outline(nodes, opts).text, whole, mine);
    }
}

/// Unless a skeleton is asked for, every element that is shown has its own line in what is
/// rendered, indented by two spaces for each element above it that is shown, wherever in the tree
/// it stands.
pub proof fn law_every_shown_element_has_its_line(
    nodes: Seq<AxNode>,
    opts: RenderOptions,
    pos: int,
)
    requires
        parents_come_first(node_links(nodes)),
        !opts.skeleton,
        0 <= pos < nodes.len() <= usize::MAX,
        is_shown(nodes[pos], opts),
    ensures
        has_part(
            rendering(nodes, opts),
            (indent_text(shown_above(nodes, opts, pos)) + node_line(nodes[pos], opts)).push('\n'),
        ),
{
    lemma_subtree_in_outline(nodes, opts, pos);
    lemma_count_above(nodes, pos);
    let indent = shown_above(nodes, opts, pos);
    let depth = (nodes.len() - count_above(nodes, pos)) as nat;
    let own = (indent_text(indent) + node_line(nodes[pos], opts)).push('\n');
    let below = forest_outline(
        nodes,
        opts,
        children_of(node_links(nodes), pos),
        indent + 1,
        (depth - 1) as nat,
    ).text;
    let mine = subtree_outline(nodes, opts, pos, indent, depth).text;
    let none = Seq::<char>::empty();
    let text = outline(nodes, opts).text;
    assert(mine == own + below);
    law_a_part_is_found(none, own, below);
    assert(none + own + below =~= mine);
    lemma_part_of_part(text, mine, own);
    let whole = rendering(nodes, opts);
    let after = whole.skip(text.len() as int);
    law_a_part_is_found(none, text, after);
    assert(none + text + after =~= whole);
    lemma_part_of_part(whole, text, own);
}

/// A subrole is told without the prefix that subroles have: with the prefix and without it, an
/// element reads the same, and a subrole that begins with anything else is told whole.
pub proof fn law_a_subrole_is_told_without_its_prefix(
    plain: AxNode,
    prefixed: AxNode,
    opts: RenderOptions,
)
    requires
        plain.subrole is Some,
        prefixed.subrole is Some,
        prefixed.subrole->0@ == "AX"@ + plain.subrole->0@,
        prefixed == (AxNode { subrole: prefixed.subrole, ..plain }),
    ensures
        plain.settable || node_line(prefixed, opts) == node_line(plain, opts),
        !has_prefix(plain.subrole->0@, "AX"@) ==> has_part(
            node_line(plain, opts),
            plain.role@ + ":"@ + plain.subrole->0@,
        ),
{
    reveal_strlit("AX");
    let s = plain.subrole->0@;
    let t = prefixed.subrole->0@;
    assert(t.take(2) =~= "AX"@);
    assert(t.skip(2) =~= s);
    assert(without_prefixes(t, "AX"@) == without_prefixes(s, "AX"@));
    let line = node_line(plain, opts);
    let start = handle_text(plain);
    let middle = plain.role@ + ":"@ + s;
    let rest = label_text(plain) + value_text(plain)
        + state_text(plain) + frame_text(plain, opts);
    if !has_prefix(s, "AX"@) {
        law_a_part_is_found(start, middle, rest);
        assert(line =~= start + middle + rest);
    }
}

} // verus!
