//! What the lines of an outline say of the elements, in terms of the elements alone.
use vstd::prelude::*;
use crate::decimal::{numeral, signed_numeral};
use crate::snapshot::{
    cut, descendants, forest_outline, indent_text, is_collapsed, is_shown, node_line,
    node_links, outline, rendering, state_text, state_words, subtree_outline, takes_text,
    without_prefixes, AxNode, RenderOptions, STRUCTURAL_ROLES, TEXT_ROLES,
};
use crate::text::{debug_quoted, has_prefix, joined, listed, text_of};
use crate::text::laws::law_a_part_stands_somewhere;
use crate::tree::children_of;

verus! {

// -- the state of an element -------------------------------------------------------------------

/// The same element with nothing to say of its state.
pub open spec fn at_rest(n: AxNode) -> AxNode {
    AxNode { enabled: true, focused: false, selected: false, settable: false, ..n }
}

/// Whether an element is one that text can be written into: its value can be written, and its role
/// or its subrole is one of a text element.
pub open spec fn is_written_into(n: AxNode) -> bool {
    n.settable && {
        ||| n.role@ == "AXTextField"@
        ||| n.role@ == "AXTextArea"@
        ||| n.role@ == "AXSearchField"@
        ||| n.role@ == "AXComboBox"@
        ||| n.role@ == "AXStaticText"@
        ||| n.subrole is Some && exists|before: Seq<char>, after: Seq<char>|
            n.subrole->0@ == #[trigger] (before + "Text"@ + after)
        ||| n.subrole is Some && exists|before: Seq<char>, after: Seq<char>|
            n.subrole->0@ == #[trigger] (before + "SearchField"@ + after)
    }
}

proof fn lemma_takes_text(n: AxNode)
    ensures
        takes_text(n) == is_written_into(n),
{
    assert(TEXT_ROLES@[0]@ == "AXTextField"@);
    assert(TEXT_ROLES@[1]@ == "AXTextArea"@);
    assert(TEXT_ROLES@[2]@ == "AXSearchField"@);
    assert(TEXT_ROLES@[3]@ == "AXComboBox"@);
    assert(TEXT_ROLES@[4]@ == "AXStaticText"@);
    if listed(TEXT_ROLES@, n.role@) {
        let i = choose|i: int| 0 <= i < TEXT_ROLES@.len() && (#[trigger] TEXT_ROLES@[i])@ == n.role@;
        assert(i == 0 || i == 1 || i == 2 || i == 3 || i == 4);
    }
    if n.subrole is Some {
        law_a_part_stands_somewhere(n.subrole->0@, "Text"@);
        law_a_part_stands_somewhere(n.subrole->0@, "SearchField"@);
    }
}

/// The words behind a line tell the state of the element, each of them exactly where it holds, and
/// whatever else the element is: `disabled` where it is not enabled, `editable` where text can be
/// written into it, `focused` and `selected` where it is. They stand in this order, between one
/// pair of brackets, behind what the line says of the element at rest; without any there are no
/// brackets.
pub proof fn law_a_line_tells_the_state(n: AxNode, opts: RenderOptions)
    requires
        !opts.include_frames || n.frame is None,
    ensures
        exists|words: Seq<Seq<char>>|
            {
                &&& #[trigger] words.contains("disabled"@) <==> !n.enabled
                &&& words.contains("editable"@) <==> is_written_into(n)
                &&& words.contains("focused"@) <==> n.focused
                &&& words.contains("selected"@) <==> n.selected
                &&& words.no_duplicates()
                &&& forall|i: int|
                    0 <= i < words.len() ==> #[trigger] words[i] == "disabled"@ || words[i]
                        == "editable"@ || words[i] == "focused"@ || words[i] == "selected"@
                &&& !n.enabled ==> words[0] == "disabled"@
                &&& n.selected ==> words.last() == "selected"@
                &&& is_written_into(n) && n.focused ==> exists|i: int|
                    0 <= i < words.len() - 1 && #[trigger] words[i] == "editable"@ && words[i + 1]
                        == "focused"@
                &&& words.len() == 0 ==> node_line(n, opts) == node_line(at_rest(n), opts)
                &&& words.len() > 0 ==> node_line(n, opts) == node_line(at_rest(n), opts) + " ("@
                    + joined(words, ", "@) + ")"@
            },
{
    let words = state_words(n);
    lemma_takes_text(n);
    lemma_takes_text(at_rest(n));
    lemma_words_differ();
    lemma_word_list(n);
    assert(state_words(at_rest(n)) =~= Seq::<Seq<char>>::empty());
    let none = Seq::<char>::empty();
    let line = node_line(n, opts);
    let rest = node_line(at_rest(n), opts);
    assert(state_text(at_rest(n)) == none);
    assert(words.len() == 0 ==> line == rest);
    if words.len() > 0 {
        assert(line =~= rest + " ("@ + joined(words, ", "@) + ")"@);
    }
    if takes_text(n) && n.focused {
        let i: int = if n.enabled {
            0
        } else {
            1
        };
        assert(words[i] == "editable"@ && words[i + 1] == "focused"@);
    }
    assert(words.contains("disabled"@) <==> !n.enabled);
}

proof fn lemma_words_differ()
    ensures
        "disabled"@ != "editable"@,
        "disabled"@ != "focused"@,
        "disabled"@ != "selected"@,
        "editable"@ != "focused"@,
        "editable"@ != "selected"@,
        "focused"@ != "selected"@,
{
    reveal_strlit("disabled");
    reveal_strlit("editable");
    reveal_strlit("focused");
    reveal_strlit("selected");
    assert("disabled"@[0] == 'd' && "editable"@[0] == 'e' && "focused"@[0] == 'f' && "selected"@[0]
        == 's');
}

proof fn lemma_word_list(n: AxNode)
    ensures
        ({
            let words = state_words(n);
            &&& words.contains("disabled"@) <==> !n.enabled
            &&& words.contains("editable"@) <==> takes_text(n)
            &&& words.contains("focused"@) <==> n.focused
            &&& words.contains("selected"@) <==> n.selected
            &&& words.no_duplicates()
            &&& forall|i: int|
                0 <= i < words.len() ==> #[trigger] words[i] == "disabled"@ || words[i]
                    == "editable"@ || words[i] == "focused"@ || words[i] == "selected"@
        }),
{
    lemma_words_differ();
    let words = state_words(n);
    let a: int = if n.enabled {
        0
    } else {
        1
    };
    let b: int = if takes_text(n) {
        a + 1
    } else {
        a
    };
    let c: int = if n.focused {
        b + 1
    } else {
        b
    };
    let d: int = if n.selected {
        c + 1
    } else {
        c
    };
    assert(words.len() == d);
    assert(!n.enabled ==> words[0] == "disabled"@);
    assert(takes_text(n) ==> words[a] == "editable"@);
    assert(n.focused ==> words[b] == "focused"@);
    assert(n.selected ==> words[c] == "selected"@);
    assert forall|i: int| 0 <= i < words.len() implies #[trigger] words[i] == "disabled"@
        || words[i] == "editable"@ || words[i] == "focused"@ || words[i] == "selected"@ by {
        assert(i == 0 || i == 1 || i == 2 || i == 3);
    }
}

/// The state is told apart from everything else: of two elements that are otherwise the same and
/// differ in whether they are enabled, focused or selected, the lines differ.
pub proof fn law_elements_in_different_states_have_different_lines(
    n: AxNode,
    enabled: bool,
    focused: bool,
    selected: bool,
    opts: RenderOptions,
)
    requires
        !opts.include_frames || n.frame is None,
        enabled != n.enabled || focused != n.focused || selected != n.selected,
    ensures
        node_line(n, opts) != node_line(AxNode { enabled, focused, selected, ..n }, opts),
{
    let m = AxNode { enabled, focused, selected, ..n };
    let rest = node_line(at_rest(n), opts);
    assert(at_rest(m) == at_rest(n));
    assert(state_words(at_rest(n)) =~= Seq::<Seq<char>>::empty());
    let a = state_text(n);
    let b = state_text(m);
    assert(node_line(n, opts) =~= rest + a);
    assert(node_line(m, opts) =~= rest + b);
    lemma_states_differ(n, enabled, focused, selected);
    if node_line(n, opts) == node_line(m, opts) {
        assert(a =~= (rest + a).skip(rest.len() as int));
        assert(b =~= (rest + b).skip(rest.len() as int));
    }
}

proof fn lemma_states_differ(n: AxNode, enabled: bool, focused: bool, selected: bool)
    requires
        enabled != n.enabled || focused != n.focused || selected != n.selected,
    ensures
        state_text(n) != state_text(AxNode { enabled, focused, selected, ..n }),
{
    let m = AxNode { enabled, focused, selected, ..n };
    assert(takes_text(m) == takes_text(n));
    reveal_strlit("disabled");
    reveal_strlit("editable");
    reveal_strlit("focused");
    reveal_strlit("selected");
    reveal_strlit(", ");
    reveal_strlit(" (");
    reveal_strlit(")");
    lemma_state_shape(n);
    lemma_state_shape(m);
    let a = state_text(n);
    let b = state_text(m);
    if a == b {
        assert(a.len() == b.len());
    }
}

/// How long the state of an element reads, and how it begins: enough to tell any two states apart.
proof fn lemma_state_shape(n: AxNode)
    ensures
        ({
            let s = state_text(n);
            let count = (if n.enabled {
                0int
            } else {
                1
            }) + (if takes_text(n) {
                1int
            } else {
                0
            }) + (if n.focused {
                1int
            } else {
                0
            }) + (if n.selected {
                1int
            } else {
                0
            });
            let letters = (if n.enabled {
                0int
            } else {
                8
            }) + (if takes_text(n) {
                8int
            } else {
                0
            }) + (if n.focused {
                7int
            } else {
                0
            }) + (if n.selected {
                8int
            } else {
                0
            });
            &&& count == 0 ==> s.len() == 0
            &&& count > 0 ==> s.len() == 3 + letters + 2 * (count - 1)
            &&& count > 0 ==> s[2] == (if !n.enabled {
                'd'
            } else if takes_text(n) {
                'e'
            } else if n.focused {
                'f'
            } else {
                's'
            })
            &&& count > 1 && !n.enabled && takes_text(n) ==> s[12] == 'e'
            &&& count > 1 && !n.enabled && !takes_text(n) && n.focused ==> s[12] == 'f'
            &&& count > 1 && !n.enabled && !takes_text(n) && !n.focused ==> s[12] == 's'
            &&& count > 1 && n.enabled && takes_text(n) && n.focused ==> s[12] == 'f'
            &&& count > 1 && n.enabled && takes_text(n) && !n.focused ==> s[12] == 's'
        }),
{
    reveal_strlit("disabled");
    reveal_strlit("editable");
    reveal_strlit("focused");
    reveal_strlit("selected");
    reveal_strlit(", ");
    reveal_strlit(" (");
    reveal_strlit(")");
    reveal_with_fuel(joined, 5);
    let none = Seq::<Seq<char>>::empty();
    let d = "disabled"@;
    let e = "editable"@;
    let f = "focused"@;
    let s = "selected"@;
    let words = state_words(n);
    let shape = (!n.enabled, takes_text(n), n.focused, n.selected);
    if shape == (false, false, false, false) {
        assert(words =~= none);
    } else if shape == (true, false, false, false) {
        assert(words =~= seq![d]);
    } else if shape == (false, true, false, false) {
        assert(words =~= seq![e]);
    } else if shape == (false, false, true, false) {
        assert(words =~= seq![f]);
    } else if shape == (false, false, false, true) {
        assert(words =~= seq![s]);
    } else if shape == (true, true, false, false) {
        assert(words =~= seq![d, e]);
        assert(words.drop_last() =~= seq![d]);
    } else if shape == (true, false, true, false) {
        assert(words =~= seq![d, f]);
        assert(words.drop_last() =~= seq![d]);
    } else if shape == (true, false, false, true) {
        assert(words =~= seq![d, s]);
        assert(words.drop_last() =~= seq![d]);
    } else if shape == (false, true, true, false) {
        assert(words =~= seq![e, f]);
        assert(words.drop_last() =~= seq![e]);
    } else if shape == (false, true, false, true) {
        assert(words =~= seq![e, s]);
        assert(words.drop_last() =~= seq![e]);
    } else if shape == (false, false, true, true) {
        assert(words =~= seq![f, s]);
        assert(words.drop_last() =~= seq![f]);
    } else if shape == (true, true, true, false) {
        assert(words =~= seq![d, e, f]);
        assert(words.drop_last() =~= seq![d, e]);
        assert(words.drop_last().drop_last() =~= seq![d]);
    } else if shape == (true, true, false, true) {
        assert(words =~= seq![d, e, s]);
        assert(words.drop_last() =~= seq![d, e]);
        assert(words.drop_last().drop_last() =~= seq![d]);
    } else if shape == (true, false, true, true) {
        assert(words =~= seq![d, f, s]);
        assert(words.drop_last() =~= seq![d, f]);
        assert(words.drop_last().drop_last() =~= seq![d]);
    } else if shape == (false, true, true, true) {
        assert(words =~= seq![e, f, s]);
        assert(words.drop_last() =~= seq![e, f]);
        assert(words.drop_last().drop_last() =~= seq![e]);
    } else {
        assert(words =~= seq![d, e, f, s]);
        assert(words.drop_last() =~= seq![d, e, f]);
        assert(words.drop_last().drop_last() =~= seq![d, e]);
        assert(words.drop_last().drop_last().drop_last() =~= seq![d]);
    }
}

// -- the rest of a line ------------------------------------------------------------------------

/// The line of an element at rest: the number by which it is addressed where it takes an action,
/// its role, its subrole behind a colon without the prefix that every subrole has, its label, and
/// its value unless it repeats the label. Label and value are quoted, and cut behind 120 and 200
/// characters.
pub proof fn law_a_line_names_the_element(n: AxNode, opts: RenderOptions, bare: Seq<char>)
    requires
        !opts.include_frames || n.frame is None,
        n.subrole is Some ==> n.subrole->0@ == "AX"@ + bare && !has_prefix(bare, "AX"@),
    ensures
        ({
            let handle = if n.actionable {
                "["@ + numeral(n.index as nat) + "] "@
            } else {
                Seq::<char>::empty()
            };
            let kind = if n.subrole is Some {
                ":"@ + bare
            } else {
                Seq::<char>::empty()
            };
            let label = if n.label is None {
                Seq::<char>::empty()
            } else if n.label->0@.len() <= 120 {
                " "@ + debug_quoted(n.label->0@)
            } else {
                " "@ + debug_quoted(n.label->0@.take(120) + "…"@)
            };
            let value = if n.value is None || text_of(n.label) == text_of(n.value) {
                Seq::<char>::empty()
            } else if n.value->0@.len() <= 200 {
                " = "@ + debug_quoted(n.value->0@)
            } else {
                " = "@ + debug_quoted(n.value->0@.take(200) + "…"@)
            };
            node_line(at_rest(n), opts) == handle + n.role@ + kind + label + value
        }),
{
    let m = at_rest(n);
    lemma_takes_text(m);
    assert(state_words(m) =~= Seq::<Seq<char>>::empty());
    assert(state_text(m) =~= Seq::<char>::empty());
    if n.subrole is Some {
        reveal_strlit("AX");
        let sub = n.subrole->0@;
        reveal_with_fuel(without_prefixes, 2);
        assert(sub.take(2) =~= "AX"@);
        assert(sub.skip(2) =~= bare);
        assert(without_prefixes(sub, "AX"@) == bare);
    }
    let line = node_line(m, opts);
    assert(line =~= line);
}

/// The geometry of an element stands behind everything else of its line, in whole points, exactly
/// where it is asked for and known.
pub proof fn law_a_frame_is_shown_where_it_is_asked_for(n: AxNode, opts: RenderOptions)
    ensures
        ({
            let without = node_line(n, RenderOptions { include_frames: false, ..opts });
            &&& opts.include_frames && n.frame is Some ==> node_line(n, opts) == without + " @"@
                + signed_numeral(n.frame->0.x as int) + ","@ + signed_numeral(n.frame->0.y as int)
                + " "@ + signed_numeral(n.frame->0.width as int) + "x"@ + signed_numeral(
                n.frame->0.height as int,
            )
            &&& !opts.include_frames || n.frame is None ==> node_line(n, opts) == without
        }),
{
    let without = node_line(n, RenderOptions { include_frames: false, ..opts });
    if opts.include_frames && n.frame is Some {
        let f = n.frame->0;
        assert(node_line(n, opts) =~= without + " @"@ + signed_numeral(f.x as int) + ","@
            + signed_numeral(f.y as int) + " "@ + signed_numeral(f.width as int) + "x"@
            + signed_numeral(f.height as int));
    }
}

/// What has no line is layout that says nothing and takes no action, and nothing else.
pub proof fn law_only_silent_layout_is_hidden(n: AxNode, opts: RenderOptions)
    ensures
        !is_shown(n, opts) <==> {
            &&& !opts.include_noise
            &&& !n.actionable
            &&& n.label is None
            &&& n.value is None
            &&& {
                ||| n.role@ == "AXGroup"@
                ||| n.role@ == "AXSplitGroup"@
                ||| n.role@ == "AXScrollArea"@
                ||| n.role@ == "AXLayoutArea"@
                ||| n.role@ == "AXLayoutItem"@
                ||| n.role@ == "AXUnknown"@
                ||| n.role@ == "AXSplitter"@
            }
        },
{
    let list = STRUCTURAL_ROLES@;
    assert(list[0]@ == "AXGroup"@);
    assert(list[1]@ == "AXSplitGroup"@);
    assert(list[2]@ == "AXScrollArea"@);
    assert(list[3]@ == "AXLayoutArea"@);
    assert(list[4]@ == "AXLayoutItem"@);
    assert(list[5]@ == "AXUnknown"@);
    assert(list[6]@ == "AXSplitter"@);
    if listed(list, n.role@) {
        let i = choose|i: int| 0 <= i < list.len() && (#[trigger] list[i])@ == n.role@;
        assert(i == 0 || i == 1 || i == 2 || i == 3 || i == 4 || i == 5 || i == 6);
        reveal_strlit("AXWindow");
        reveal_strlit("AXGroup");
        reveal_strlit("AXSplitGroup");
        reveal_strlit("AXScrollArea");
        reveal_strlit("AXLayoutArea");
        reveal_strlit("AXLayoutItem");
        reveal_strlit("AXUnknown");
        reveal_strlit("AXSplitter");
        assert("AXWindow"@[2] == 'W');
        assert(list[i]@[2] != 'W');
    }
}

// -- the shape of an outline -------------------------------------------------------------------

/// Two spaces for each level, and nothing else.
pub proof fn law_each_level_is_two_spaces(levels: nat)
    ensures
        indent_text(levels).len() == 2 * levels,
        forall|i: int| 0 <= i < indent_text(levels).len() ==> #[trigger] indent_text(levels)[i]
            == ' ',
    decreases levels,
{
    reveal_strlit("  ");
    if levels > 0 {
        law_each_level_is_two_spaces((levels - 1) as nat);
    }
}

proof fn lemma_forest_concat(
    nodes: Seq<AxNode>,
    opts: RenderOptions,
    a: Seq<usize>,
    b: Seq<usize>,
    indent: nat,
    depth: nat,
)
    ensures
        forest_outline(nodes, opts, a + b, indent, depth).text == forest_outline(
            nodes,
            opts,
            a,
            indent,
            depth,
        ).text + forest_outline(nodes, opts, b, indent, depth).text,
    decreases a.len(),
{
    if a.len() == 0 {
        assert(a + b =~= b);
        let text = forest_outline(nodes, opts, b, indent, depth).text;
        assert(Seq::<char>::empty() + text =~= text);
    } else {
        lemma_forest_concat(nodes, opts, a.drop_first(), b, indent, depth);
        assert((a + b).drop_first() =~= a.drop_first() + b);
        assert((a + b)[0] == a[0]);
        let first = subtree_outline(nodes, opts, a[0] as int, indent, depth).text;
        let x = forest_outline(nodes, opts, a.drop_first(), indent, depth).text;
        let y = forest_outline(nodes, opts, b, indent, depth).text;
        assert(first + (x + y) =~= first + x + y);
    }
}

/// An outline is depth-first: the elements of a list come one subtree after the other, an element
/// that is shown comes before what hangs below it, and what hangs below it is drawn one level
/// deeper.
pub proof fn law_an_outline_is_depth_first(
    nodes: Seq<AxNode>,
    opts: RenderOptions,
    pos: int,
    a: Seq<usize>,
    b: Seq<usize>,
    indent: nat,
    depth: nat,
)
    ensures
        forest_outline(nodes, opts, a + b, indent, depth).text == forest_outline(
            nodes,
            opts,
            a,
            indent,
            depth,
        ).text + forest_outline(nodes, opts, b, indent, depth).text,
        depth > 0 && is_shown(nodes[pos], opts) && !opts.skeleton ==> subtree_outline(
            nodes,
            opts,
            pos,
            indent,
            depth,
        ).text == (indent_text(indent) + node_line(nodes[pos], opts)).push('\n') + forest_outline(
            nodes,
            opts,
            children_of(node_links(nodes), pos),
            indent + 1,
            (depth - 1) as nat,
        ).text,
        depth > 0 && !is_shown(nodes[pos], opts) ==> subtree_outline(
            nodes,
            opts,
            pos,
            indent,
            depth,
        ).text == forest_outline(
            nodes,
            opts,
            children_of(node_links(nodes), pos),
            indent,
            (depth - 1) as nat,
        ).text,
{
    lemma_forest_concat(nodes, opts, a, b, indent, depth);
    if depth > 0 && !is_shown(nodes[pos], opts) {
        let below = forest_outline(
            nodes,
            opts,
            children_of(node_links(nodes), pos),
            indent,
            (depth - 1) as nat,
        ).text;
        assert(Seq::<char>::empty() + below =~= below);
    }
}

/// A subtree is collapsed exactly where a skeleton is asked for, the element is shown at the given
/// level or deeper, and more hangs below it than the threshold. Its line then says how many
/// elements were left out and how to see them, and nothing of them follows.
pub proof fn law_a_collapsed_line_says_what_it_hides(
    nodes: Seq<AxNode>,
    opts: RenderOptions,
    pos: int,
    indent: nat,
    depth: nat,
)
    requires
        depth > 0,
    ensures
        ({
            let below = descendants(node_links(nodes), pos);
            let hides = opts.skeleton && is_shown(nodes[pos], opts) && indent
                >= opts.skeleton_depth && below > opts.collapse_over;
            &&& is_collapsed(nodes, opts, pos, indent) <==> hides
            &&& hides ==> subtree_outline(nodes, opts, pos, indent, depth).text == (indent_text(
                indent,
            ) + node_line(nodes[pos], opts) + "  (+"@ + numeral(below)
                + " elements — pass scope_element_id="@ + numeral(nodes[pos].index as nat)
                + " to expand)"@).push('\n')
        }),
{
    let below = descendants(node_links(nodes), pos);
    if is_collapsed(nodes, opts, pos, indent) {
        assert(subtree_outline(nodes, opts, pos, indent, depth).text =~= (indent_text(indent)
            + node_line(nodes[pos], opts) + "  (+"@ + numeral(below)
            + " elements — pass scope_element_id="@ + numeral(nodes[pos].index as nat)
            + " to expand)"@).push('\n'));
    }
}

/// The notes behind an outline say how many elements it leaves out, exactly where it leaves any out
/// and notes are asked for; the outline itself is the same with them and without.
pub proof fn law_omissions_are_told(nodes: Seq<AxNode>, opts: RenderOptions)
    requires
        outline(nodes, opts).skipped <= u64::MAX,
        outline(nodes, opts).collapsed <= u64::MAX,
    ensures
        ({
            let o = outline(nodes, opts);
            let folded = if o.collapsed == 0 {
                Seq::<char>::empty()
            } else {
                "\n(skeleton: "@ + numeral(o.collapsed)
                    + " elements collapsed into their containers; pass scope_element_id=N to expand \
                    one, or skeleton=false for everything)\n"@
            };
            let dropped = if o.skipped == 0 {
                Seq::<char>::empty()
            } else {
                "\n("@ + numeral(o.skipped) + " structural or empty elements omitted)\n"@
            };
            &&& !opts.note_omissions ==> rendering(nodes, opts) == o.text
            &&& opts.note_omissions ==> rendering(nodes, opts) == o.text + (folded + dropped)
        }),
{
}

/// What is cut is cut behind the bound and marked with an ellipsis; what is within the bound stays
/// as it is.
pub proof fn law_a_long_text_is_cut_at_its_bound(s: Seq<char>, max: nat)
    ensures
        s.len() <= max ==> cut(s, max) == s,
        s.len() > max ==> cut(s, max) == s.take(max as int) + "…"@,
{
}

} // verus!
