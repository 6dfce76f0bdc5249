//! Turning an accessibility tree into something worth spending tokens on.
use vstd::prelude::*;
use crate::decimal::{decimal, numeral, signed_decimal, signed_numeral};
use crate::snapshot::lines::{
    is_named_on_one_line, lemma_breaks_add, lemma_line_has_no_break, lemma_no_breaks,
    lemma_own_breaks, line_breaks,
};
use crate::text::{
    any_same, chars_of, contains, debug_quoted, has_part, has_prefix, join, joined, listed, owned,
    quoted, same, starts_with, string_of, text_of, texts,
};
use crate::tree::{
    child_lists, children_of, lemma_children_in_range, lemma_roots_in_range, roots_of,
};

pub mod laws;
pub mod lines;
pub mod meaning;
pub mod places;

verus! {

/// Roles that carry no information for an agent. Their children are kept; only the wrapper's own
/// line is dropped.
pub const STRUCTURAL_ROLES: [&'static str; 7] = [
    "AXGroup",
    "AXSplitGroup",
    "AXScrollArea",
    "AXLayoutArea",
    "AXLayoutItem",
    "AXUnknown",
    "AXSplitter",
];

/// Roles whose value is text that a caller can write.
pub const TEXT_ROLES: [&'static str; 5] = [
    "AXTextField",
    "AXTextArea",
    "AXSearchField",
    "AXComboBox",
    "AXStaticText",
];

/// How many characters of a label and of a value a line shows.
pub const LABEL_CHARS: usize = 120;

pub const VALUE_CHARS: usize = 200;

/// A rectangle in whole points.
#[derive(Debug, Clone, Copy)]
pub struct WholeFrame {
    pub x: i64,
    pub y: i64,
    pub width: i64,
    pub height: i64,
}

/// One element of a tree walk.
#[derive(Debug, Clone)]
pub struct AxNode {
    pub index: usize,
    pub depth: usize,
    pub parent: Option<usize>,
    pub role: String,
    pub subrole: Option<String>,
    pub label: Option<String>,
    pub value: Option<String>,
    pub help: Option<String>,
    /// Position and size, cut to whole points.
    pub frame: Option<WholeFrame>,
    pub enabled: bool,
    pub focused: bool,
    pub selected: bool,
    /// Whether the element takes an action, by its own account or by its frame.
    pub actionable: bool,
    pub settable: bool,
}

/// Knobs for [`render_tree`].
#[derive(Debug, Clone, Copy)]
pub struct RenderOptions {
    /// Show elements that have no action, no label and no value.
    pub include_noise: bool,
    /// Append frame geometry to every line.
    pub include_frames: bool,
    /// Print the trailing notes on what was left out.
    pub note_omissions: bool,
    /// Summarize large deep subtrees by their size instead of expanding them.
    pub skeleton: bool,
    /// Indent level below which nothing is collapsed.
    pub skeleton_depth: usize,
    /// Descendant count that a subtree must exceed to be worth collapsing.
    pub collapse_over: usize,
}

impl Default for RenderOptions {
    fn default() -> (r: Self)
        ensures
            r == (RenderOptions {
                include_noise: false,
                include_frames: false,
                note_omissions: true,
                skeleton: false,
                skeleton_depth: 2,
                collapse_over: 8,
            }),
    {
        RenderOptions {
            include_noise: false,
            include_frames: false,
            note_omissions: true,
            skeleton: false,
            skeleton_depth: 2,
            collapse_over: 8,
        }
    }
}

// -- one line ----------------------------------------------------------------------------------

/// A text cut behind `max` characters, with an ellipsis in place of the rest.
pub open spec fn cut(s: Seq<char>, max: nat) -> Seq<char> {
    if s.len() <= max {
        s
    } else {
        s.take(max as int) + "…"@
    }
}

/// A text without the given prefix, however often it stands there.
pub open spec fn without_prefixes(s: Seq<char>, prefix: Seq<char>) -> Seq<char>
    decreases s.len(),
{
    if prefix.len() > 0 && has_prefix(s, prefix) {
        without_prefixes(s.skip(prefix.len() as int), prefix)
    } else {
        s
    }
}

/// Whether `editable` is worth printing: the value can be written, and the role is one where
/// writing text is meaningful.
pub open spec fn takes_text(n: AxNode) -> bool {
    n.settable && (listed(TEXT_ROLES@, n.role@) || (n.subrole is Some && (has_part(
        n.subrole->0@,
        "Text"@,
    ) || has_part(n.subrole->0@, "SearchField"@))))
}

/// Whether an element gets a line of its own.
pub open spec fn is_shown(n: AxNode, opts: RenderOptions) -> bool {
    ||| opts.include_noise
    ||| n.actionable
    ||| n.label is Some
    ||| n.value is Some
    ||| n.role@ == "AXWindow"@
    ||| !listed(STRUCTURAL_ROLES@, n.role@)
}

/// What a line says of an element's state.
pub open spec fn state_words(n: AxNode) -> Seq<Seq<char>> {
    (if n.enabled {
        Seq::empty()
    } else {
        seq!["disabled"@]
    }) + (if takes_text(n) {
        seq!["editable"@]
    } else {
        Seq::empty()
    }) + (if n.focused {
        seq!["focused"@]
    } else {
        Seq::empty()
    }) + (if n.selected {
        seq!["selected"@]
    } else {
        Seq::empty()
    })
}

/// The number by which an element that takes an action is addressed.
pub open spec fn handle_text(n: AxNode) -> Seq<char> {
    if n.actionable {
        "["@ + numeral(n.index as nat) + "] "@
    } else {
        Seq::empty()
    }
}

/// The part of a line that distinguishes a close button from a plain one.
pub open spec fn subrole_text(n: AxNode) -> Seq<char> {
    match n.subrole {
        Some(s) => ":"@ + without_prefixes(s@, "AX"@),
        None => Seq::empty(),
    }
}

pub open spec fn label_text(n: AxNode) -> Seq<char> {
    match n.label {
        Some(l) => " "@ + debug_quoted(cut(l@, LABEL_CHARS as nat)),
        None => Seq::empty(),
    }
}

/// The value of an element, unless it merely repeats the label.
pub open spec fn value_text(n: AxNode) -> Seq<char> {
    match n.value {
        Some(v) => if text_of(n.label) == Some(v@) {
            Seq::empty()
        } else {
            " = "@ + debug_quoted(cut(v@, VALUE_CHARS as nat))
        },
        None => Seq::empty(),
    }
}

pub open spec fn state_text(n: AxNode) -> Seq<char> {
    if state_words(n).len() == 0 {
        Seq::empty()
    } else {
        " ("@ + joined(state_words(n), ", "@) + ")"@
    }
}

pub open spec fn frame_text(n: AxNode, opts: RenderOptions) -> Seq<char> {
    match n.frame {
        Some(f) => if opts.include_frames {
            " @"@ + signed_numeral(f.x as int) + ","@ + signed_numeral(f.y as int) + " "@
                + signed_numeral(f.width as int) + "x"@ + signed_numeral(f.height as int)
        } else {
            Seq::empty()
        },
        None => Seq::empty(),
    }
}

/// The line of an element, without its indent.
pub open spec fn node_line(n: AxNode, opts: RenderOptions) -> Seq<char> {
    handle_text(n) + n.role@ + subrole_text(n) + label_text(n) + value_text(n) + state_text(n)
        + frame_text(n, opts)
}

/// Computes [`takes_text`].
pub fn is_text_editable(node: &AxNode) -> (r: bool)
    ensures
        r == takes_text(*node),
{
    if !node.settable {
        return false;
    }
    if any_same(TEXT_ROLES.as_slice(), node.role.as_str()) {
        return true;
    }
    match &node.subrole {
        Some(s) => contains(s.as_str(), "Text") || contains(s.as_str(), "SearchField"),
        None => false,
    }
}

/// Computes [`is_shown`].
pub fn should_render(node: &AxNode, opts: RenderOptions) -> (r: bool)
    ensures
        r == is_shown(*node, opts),
{
    opts.include_noise || node.actionable || node.label.is_some() || node.value.is_some() || same(
        node.role.as_str(),
        "AXWindow",
    ) || !any_same(STRUCTURAL_ROLES.as_slice(), node.role.as_str())
}

/// Cuts a text to `max` characters.
pub fn truncate(s: &str, max: usize) -> (r: String)
    ensures
        r@ == cut(s@, max as nat),
{
    let v = chars_of(s);
    if v.len() <= max {
        return owned(s);
    }
    let mut short = string_of(&v, 0, max);
    assert(v@.subrange(0, max as int) == v@.take(max as int));
    short.append("…");
    short
}

/// Computes [`without_prefixes`].
fn drop_prefixes(s: &str, prefix: &str) -> (r: String)
    ensures
        r@ == without_prefixes(s@, prefix@),
    decreases s@.len(),
{
    let n: usize = prefix.unicode_len();
    if n > 0 && starts_with(s, prefix) {
        let v = chars_of(s);
        let shorter = string_of(&v, n, v.len());
        assert(shorter@ == s@.skip(n as int));
        drop_prefixes(shorter.as_str(), prefix)
    } else {
        owned(s)
    }
}

/// Computes [`state_words`].
fn state_words_of(node: &AxNode) -> (r: Vec<String>)
    ensures
        texts(r@) == state_words(*node),
{
    let mut words: Vec<String> = Vec::new();
    let ghost mut all: Seq<Seq<char>> = Seq::empty();
    if !node.enabled {
        words.push(owned("disabled"));
        proof {
            all = all.push("disabled"@);
        }
    }
    if is_text_editable(node) {
        words.push(owned("editable"));
        proof {
            all = all.push("editable"@);
        }
    }
    if node.focused {
        words.push(owned("focused"));
        proof {
            all = all.push("focused"@);
        }
    }
    if node.selected {
        words.push(owned("selected"));
        proof {
            all = all.push("selected"@);
        }
    }
    assert(texts(words@) == all);
    assert(all == state_words(*node));
    words
}

fn handle_of(node: &AxNode) -> (r: String)
    ensures
        r@ == handle_text(*node),
{
    if !node.actionable {
        return String::new();
    }
    let mut out = owned("[");
    out.append(decimal(node.index as u64).as_str());
    out.append("] ");
    out
}

fn subrole_of(node: &AxNode) -> (r: String)
    ensures
        r@ == subrole_text(*node),
{
    match &node.subrole {
        Some(sub) => {
            let mut out = owned(":");
            out.append(drop_prefixes(sub.as_str(), "AX").as_str());
            out
        },
        None => String::new(),
    }
}

proof fn lemma_quoted_has_no_break(before: Seq<char>, said: Seq<char>)
    requires
        !before.contains('\n'),
        !said.contains('\n'),
    ensures
        line_breaks(before + said) == 0,
{
    let whole = before + said;
    assert forall|i: int| 0 <= i < whole.len() implies #[trigger] whole[i] != '\n' by {
        if i < before.len() {
            assert(before.contains(before[i]));
        } else {
            assert(said.contains(said[i - before.len()]));
        }
    }
    lemma_no_breaks(whole);
}

fn label_of(node: &AxNode) -> (r: String)
    ensures
        r@ == label_text(*node),
        line_breaks(r@) == 0,
{
    match &node.label {
        Some(label) => {
            let mut out = owned(" ");
            let said = quoted(truncate(label.as_str(), LABEL_CHARS).as_str());
            proof {
                reveal_strlit(" ");
                lemma_quoted_has_no_break(" "@, said@);
            }
            out.append(said.as_str());
            out
        },
        None => String::new(),
    }
}

fn value_of(node: &AxNode) -> (r: String)
    ensures
        r@ == value_text(*node),
        line_breaks(r@) == 0,
{
    match &node.value {
        Some(value) => {
            let repeats = match &node.label {
                Some(label) => same(label.as_str(), value.as_str()),
                None => false,
            };
            if repeats {
                return String::new();
            }
            let mut out = owned(" = ");
            let said = quoted(truncate(value.as_str(), VALUE_CHARS).as_str());
            proof {
                reveal_strlit(" = ");
                lemma_quoted_has_no_break(" = "@, said@);
            }
            out.append(said.as_str());
            out
        },
        None => String::new(),
    }
}

fn state_of(node: &AxNode) -> (r: String)
    ensures
        r@ == state_text(*node),
{
    let words = state_words_of(node);
    assert(texts(words@).len() == words@.len());
    if words.len() == 0 {
        return String::new();
    }
    let mut out = owned(" (");
    out.append(join(&words, ", ").as_str());
    out.append(")");
    out
}

fn frame_of(node: &AxNode, opts: RenderOptions) -> (r: String)
    ensures
        r@ == frame_text(*node, opts),
{
    match &node.frame {
        Some(f) => {
            if !opts.include_frames {
                return String::new();
            }
            let mut out = owned(" @");
            out.append(signed_decimal(f.x).as_str());
            out.append(",");
            out.append(signed_decimal(f.y).as_str());
            out.append(" ");
            out.append(signed_decimal(f.width).as_str());
            out.append("x");
            out.append(signed_decimal(f.height).as_str());
            out
        },
        None => String::new(),
    }
}

/// Appends the line of an element, without its indent.
///
/// Whatever the element says, it stays on that line.
pub fn write_node(out: &mut String, node: &AxNode, opts: RenderOptions)
    ensures
        final(out)@ == old(out)@ + node_line(*node, opts),
        is_named_on_one_line(*node) ==> line_breaks(node_line(*node, opts)) == 0,
{
    let label = label_of(node);
    let value = value_of(node);
    proof {
        if is_named_on_one_line(*node) {
            lemma_line_has_no_break(*node, opts);
        }
    }
    let mut line = handle_of(node);
    line.append(node.role.as_str());
    line.append(subrole_of(node).as_str());
    line.append(label.as_str());
    line.append(value.as_str());
    line.append(state_of(node).as_str());
    line.append(frame_of(node, opts).as_str());
    out.append(line.as_str());
}

// -- the outline -------------------------------------------------------------------------------

/// The parent links of a list of elements.
pub open spec fn node_links(nodes: Seq<AxNode>) -> Seq<Option<usize>> {
    nodes.map_values(|n: AxNode| n.parent)
}

/// A count as far as a machine word holds it.
pub open spec fn capped(n: nat) -> nat {
    if n <= u64::MAX {
        n
    } else {
        u64::MAX as nat
    }
}

/// How many elements a subtree counts. A walk lists parents before their children; a child that is
/// listed before its parent counts for itself alone.
pub open spec fn subtree_size(parents: Seq<Option<usize>>, pos: int) -> nat
    decreases parents.len() - pos, 1nat, 0nat,
{
    if 0 <= pos < parents.len() {
        1 + sizes_below(parents, children_of(parents, pos), pos)
    } else {
        1
    }
}

/// How many elements the subtrees of a list count, seen from their parent at `pos`.
pub open spec fn sizes_below(parents: Seq<Option<usize>>, list: Seq<usize>, pos: int) -> nat
    decreases parents.len() - pos, 0nat, list.len(),
{
    if list.len() == 0 {
        0
    } else {
        sizes_below(parents, list.drop_last(), pos) + if pos < list.last() < parents.len() {
            subtree_size(parents, list.last() as int)
        } else {
            1
        }
    }
}

/// How many elements hang below a position.
pub open spec fn descendants(parents: Seq<Option<usize>>, pos: int) -> nat {
    (capped(subtree_size(parents, pos)) - 1) as nat
}

/// What rendering comes to: the lines, how many elements have one, how many got none, and how many
/// were collapsed into the line of another.
pub struct Outline {
    pub text: Seq<char>,
    pub shown: nat,
    pub skipped: nat,
    pub collapsed: nat,
}

/// Two outlines, one behind the other.
pub open spec fn followed_by(a: Outline, b: Outline) -> Outline {
    Outline {
        text: a.text + b.text,
        shown: a.shown + b.shown,
        skipped: a.skipped + b.skipped,
        collapsed: a.collapsed + b.collapsed,
    }
}

pub open spec fn no_outline() -> Outline {
    Outline { text: Seq::empty(), shown: 0, skipped: 0, collapsed: 0 }
}

/// The white space before a line.
pub open spec fn indent_text(levels: nat) -> Seq<char>
    decreases levels,
{
    if levels == 0 {
        Seq::empty()
    } else {
        indent_text((levels - 1) as nat) + "  "@
    }
}

/// Whether the subtree at `pos` is summarized instead of expanded.
pub open spec fn is_collapsed(
    nodes: Seq<AxNode>,
    opts: RenderOptions,
    pos: int,
    indent: nat,
) -> bool {
    &&& opts.skeleton
    &&& is_shown(nodes[pos], opts)
    &&& indent >= opts.skeleton_depth
    &&& descendants(node_links(nodes), pos) > opts.collapse_over
}

/// The summary behind a collapsed line. It names the index outright, because an element without an
/// action has no handle.
pub open spec fn summary_text(count: nat, index: nat) -> Seq<char> {
    "  (+"@ + numeral(count) + " elements — pass scope_element_id="@ + numeral(index)
        + " to expand)"@
}

/// What an element itself adds to the outline.
pub open spec fn own_outline(
    nodes: Seq<AxNode>,
    opts: RenderOptions,
    pos: int,
    indent: nat,
) -> Outline {
    let n = nodes[pos];
    if !is_shown(n, opts) {
        Outline { text: Seq::empty(), shown: 0, skipped: 1, collapsed: 0 }
    } else if is_collapsed(nodes, opts, pos, indent) {
        Outline {
            text: (indent_text(indent) + node_line(n, opts) + summary_text(
                descendants(node_links(nodes), pos),
                n.index as nat,
            )).push('\n'),
            shown: 1,
            skipped: 0,
            collapsed: descendants(node_links(nodes), pos),
        }
    } else {
        Outline {
            text: (indent_text(indent) + node_line(n, opts)).push('\n'),
            shown: 1,
            skipped: 0,
            collapsed: 0,
        }
    }
}

/// The level at which the children of an element are drawn: dropping a wrapper leaves no step.
pub open spec fn child_indent(n: AxNode, opts: RenderOptions, indent: nat) -> nat {
    if is_shown(n, opts) {
        indent + 1
    } else {
        indent
    }
}

/// The outline of the subtree at `pos`, down to `depth` levels.
pub open spec fn subtree_outline(
    nodes: Seq<AxNode>,
    opts: RenderOptions,
    pos: int,
    indent: nat,
    depth: nat,
) -> Outline
    decreases depth, 0nat,
{
    if depth == 0 {
        no_outline()
    } else if is_collapsed(nodes, opts, pos, indent) {
        own_outline(nodes, opts, pos, indent)
    } else {
        followed_by(
            own_outline(nodes, opts, pos, indent),
            forest_outline(
                nodes,
                opts,
                children_of(node_links(nodes), pos),
                child_indent(nodes[pos], opts, indent),
                (depth - 1) as nat,
            ),
        )
    }
}

/// The outline of several subtrees, one after the other.
pub open spec fn forest_outline(
    nodes: Seq<AxNode>,
    opts: RenderOptions,
    list: Seq<usize>,
    indent: nat,
    depth: nat,
) -> Outline
    decreases depth, list.len() + 1,
{
    if list.len() == 0 {
        no_outline()
    } else {
        followed_by(
            subtree_outline(nodes, opts, list[0] as int, indent, depth),
            forest_outline(nodes, opts, list.drop_first(), indent, depth),
        )
    }
}

/// The outline of a whole list: every root and what hangs below it. No path is longer than the
/// list, so as many levels see everything.
pub open spec fn outline(nodes: Seq<AxNode>, opts: RenderOptions) -> Outline {
    forest_outline(nodes, opts, roots_of(node_links(nodes)), 0, nodes.len())
}

/// The notes on what an outline leaves out.
pub open spec fn omission_notes(o: Outline) -> Seq<char> {
    (if o.collapsed > 0 {
        "\n(skeleton: "@ + numeral(capped(o.collapsed))
            + " elements collapsed into their containers; pass scope_element_id=N to expand one, \
             or skeleton=false for everything)\n"@
    } else {
        Seq::empty()
    }) + (if o.skipped > 0 {
        "\n("@ + numeral(capped(o.skipped)) + " structural or empty elements omitted)\n"@
    } else {
        Seq::empty()
    })
}

/// The outline as text.
pub open spec fn rendering(nodes: Seq<AxNode>, opts: RenderOptions) -> Seq<char> {
    let o = outline(nodes, opts);
    if opts.note_omissions {
        o.text + omission_notes(o)
    } else {
        o.text
    }
}

/// How many elements rendering may still have to look at below `pos`.
spec fn subtree_weight(parents: Seq<Option<usize>>, pos: int, depth: nat) -> nat
    decreases depth, 0nat,
{
    if depth == 0 {
        1
    } else {
        1 + forest_weight(parents, children_of(parents, pos), (depth - 1) as nat)
    }
}

spec fn forest_weight(parents: Seq<Option<usize>>, list: Seq<usize>, depth: nat) -> nat
    decreases depth, list.len() + 1,
{
    if list.len() == 0 {
        0
    } else {
        subtree_weight(parents, list[0] as int, depth) + forest_weight(
            parents,
            list.drop_first(),
            depth,
        )
    }
}

/// The outline of the subtrees on a stack, the topmost first. An entry holds a position, its indent
/// and the levels left below it.
spec fn stack_outline(
    nodes: Seq<AxNode>,
    opts: RenderOptions,
    stack: Seq<(usize, usize, usize)>,
) -> Outline
    decreases stack.len(),
{
    if stack.len() == 0 {
        no_outline()
    } else {
        let top = stack.last();
        followed_by(
            subtree_outline(nodes, opts, top.0 as int, top.1 as nat, top.2 as nat),
            stack_outline(nodes, opts, stack.drop_last()),
        )
    }
}

spec fn stack_weight(parents: Seq<Option<usize>>, stack: Seq<(usize, usize, usize)>) -> nat
    decreases stack.len(),
{
    if stack.len() == 0 {
        0
    } else {
        subtree_weight(parents, stack.last().0 as int, stack.last().2 as nat) + stack_weight(
            parents,
            stack.drop_last(),
        )
    }
}

/// Whether every entry of a stack is a position of the list whose indent still fits.
spec fn on_list(n: nat, stack: Seq<(usize, usize, usize)>) -> bool {
    forall|i: int|
        0 <= i < stack.len() ==> (#[trigger] stack[i]).0 < n && stack[i].1 + stack[i].2 <= n
}

proof fn lemma_followed_by(a: Outline, b: Outline, c: Outline)
    ensures
        followed_by(followed_by(a, b), c) == followed_by(a, followed_by(b, c)),
        followed_by(no_outline(), a) == a,
{
    assert(a.text + b.text + c.text == a.text + (b.text + c.text));
    assert(Seq::<char>::empty() + a.text == a.text);
}

/// Adds two counts, as far as a machine word holds them.
fn capped_sum(a: u64, b: u64) -> (r: u64)
    ensures
        r == capped(a as nat + b as nat),
{
    if a > u64::MAX - b {
        u64::MAX
    } else {
        a + b
    }
}

/// The parent link of every element.
fn links_of(nodes: &[AxNode]) -> (r: Vec<Option<usize>>)
    ensures
        r@ == node_links(nodes@),
{
    let mut out: Vec<Option<usize>> = Vec::new();
    let mut i: usize = 0;
    while i < nodes.len()
        invariant
            i <= nodes@.len(),
            out@ == node_links(nodes@).take(i as int),
        decreases nodes@.len() - i,
    {
        out.push(nodes[i].parent);
        i += 1;
    }
    assert(node_links(nodes@).take(nodes@.len() as int) == node_links(nodes@));
    out
}

/// The size of every subtree, as far as a machine word holds it.
fn subtree_sizes(parents: &Vec<Option<usize>>, children: &Vec<Vec<usize>>) -> (r: Vec<u64>)
    requires
        children@.len() == parents@.len(),
        forall|p: int|
            0 <= p < children@.len() ==> (#[trigger] children@[p])@ == children_of(parents@, p),
    ensures
        r@.len() == parents@.len(),
        forall|p: int|
            0 <= p < r@.len() ==> (#[trigger] r@[p]) == capped(subtree_size(parents@, p)),
{
    let n: usize = parents.len();
    let mut sizes: Vec<u64> = Vec::new();
    let mut k: usize = 0;
    while k < n
        invariant
            k <= n,
            sizes@.len() == k,
            forall|p: int| 0 <= p < k ==> (#[trigger] sizes@[p]) == 1,
        decreases n - k,
    {
        sizes.push(1);
        k += 1;
    }
    let mut pos: usize = n;
    while pos > 0
        invariant
            pos <= n,
            n == parents@.len(),
            children@.len() == n,
            sizes@.len() == n,
            forall|p: int|
                0 <= p < n ==> (#[trigger] children@[p])@ == children_of(parents@, p),
            forall|p: int| 0 <= p < pos ==> (#[trigger] sizes@[p]) == 1,
            forall|p: int|
                pos <= p < n ==> (#[trigger] sizes@[p]) == capped(subtree_size(parents@, p)),
        decreases pos,
    {
        pos -= 1;
        let ghost kids = children_of(parents@, pos as int);
        proof {
            lemma_children_in_range(parents@, pos as int, parents@.len());
            assert(children@[pos as int]@ == kids);
        }
        let mut total: u64 = 1;
        let mut j: usize = 0;
        while j < children[pos].len()
            invariant
                pos < n,
                n == parents@.len(),
                children@.len() == n,
                children@[pos as int]@ == kids,
                j <= kids.len(),
                sizes@.len() == n,
                forall|i: int| 0 <= i < kids.len() ==> #[trigger] kids[i] < n,
                forall|p: int| 0 <= p < pos + 1 ==> (#[trigger] sizes@[p]) == 1,
                forall|p: int|
                    pos < p < n ==> (#[trigger] sizes@[p]) == capped(subtree_size(parents@, p)),
                total == capped(1 + sizes_below(parents@, kids.take(j as int), pos as int)),
            decreases kids.len() - j,
        {
            let child: usize = children[pos][j];
            assert(child == kids[j as int]);
            assert(kids.take(j + 1).drop_last() == kids.take(j as int));
            total = capped_sum(total, sizes[child]);
            j += 1;
        }
        assert(kids.take(kids.len() as int) == kids);
        sizes[pos] = total;
    }
    sizes
}

/// Puts the subtrees of a list on the stack, the first of them topmost.
fn push_list(
    nodes: &[AxNode],
    opts: RenderOptions,
    list: &Vec<usize>,
    indent: usize,
    level: usize,
    stack: &mut Vec<(usize, usize, usize)>,
)
    requires
        forall|i: int| 0 <= i < list@.len() ==> #[trigger] list@[i] < nodes@.len(),
        on_list(nodes@.len(), old(stack)@),
        indent + level <= nodes@.len(),
    ensures
        on_list(nodes@.len(), final(stack)@),
        stack_outline(nodes@, opts, final(stack)@) == followed_by(
            forest_outline(nodes@, opts, list@, indent as nat, level as nat),
            stack_outline(nodes@, opts, old(stack)@),
        ),
        stack_weight(node_links(nodes@), final(stack)@) == forest_weight(
            node_links(nodes@),
            list@,
            level as nat,
        ) + stack_weight(node_links(nodes@), old(stack)@),
{
    let mut j: usize = list.len();
    let ghost before = stack_outline(nodes@, opts, old(stack)@);
    assert(list@.skip(list@.len() as int) == Seq::<usize>::empty());
    proof {
        lemma_followed_by(before, before, before);
    }
    while j > 0
        invariant
            j <= list@.len(),
            forall|i: int| 0 <= i < list@.len() ==> #[trigger] list@[i] < nodes@.len(),
            on_list(nodes@.len(), stack@),
            indent + level <= nodes@.len(),
            before == stack_outline(nodes@, opts, old(stack)@),
            stack_outline(nodes@, opts, stack@) == followed_by(
                forest_outline(nodes@, opts, list@.skip(j as int), indent as nat, level as nat),
                before,
            ),
            stack_weight(node_links(nodes@), stack@) == forest_weight(
                node_links(nodes@),
                list@.skip(j as int),
                level as nat,
            ) + stack_weight(node_links(nodes@), old(stack)@),
        decreases j,
    {
        j -= 1;
        let ghost was = stack@;
        stack.push((list[j], indent, level));
        assert(stack@.drop_last() == was);
        let ghost rest = list@.skip(j as int);
        assert(rest.drop_first() == list@.skip(j + 1));
        assert(rest[0] == list@[j as int]);
        proof {
            lemma_followed_by(
                subtree_outline(nodes@, opts, rest[0] as int, indent as nat, level as nat),
                forest_outline(nodes@, opts, rest.drop_first(), indent as nat, level as nat),
                before,
            );
        }
    }
    assert(list@.skip(0) == list@);
}

/// Computes [`indent_text`].
fn indent_of(levels: usize) -> (r: String)
    ensures
        r@ == indent_text(levels as nat),
{
    let mut out = String::new();
    let mut i: usize = 0;
    while i < levels
        invariant
            i <= levels,
            out@ == indent_text(i as nat),
        decreases levels - i,
    {
        out.append("  ");
        i += 1;
    }
    out
}

/// Renders a list of elements as an indented outline.
///
/// The bracketed number of a line is the element's index, and the only handle an agent ever needs.
/// Lines without one are context: there to show structure, not to be acted on. The walk may have
/// been breadth-first; the outline is depth-first, because only then does its indentation read.
/// Whatever the elements say, the outline has one line for each that is shown.
pub fn render_tree(nodes: &[AxNode], opts: RenderOptions) -> (r: String)
    ensures
        r@ == rendering(nodes@, opts),
        (forall|i: int| 0 <= i < nodes@.len() ==> is_named_on_one_line(#[trigger] nodes@[i]))
            ==> line_breaks(outline(nodes@, opts).text) == outline(nodes@, opts).shown,
{
    let ghost named = forall|i: int|
        0 <= i < nodes@.len() ==> is_named_on_one_line(#[trigger] nodes@[i]);
    let n: usize = nodes.len();
    let parents = links_of(nodes);
    let ghost links = node_links(nodes@);
    let (children, roots) = child_lists(&parents);
    let sizes = subtree_sizes(&parents, &children);
    let ghost whole = outline(nodes@, opts);

    let mut out = String::new();
    let mut skipped: u64 = 0;
    let mut collapsed: u64 = 0;
    let ghost mut done = no_outline();
    let mut stack: Vec<(usize, usize, usize)> = Vec::new();
    proof {
        lemma_roots_in_range(links, links.len());
    }
    push_list(nodes, opts, &roots, 0, n, &mut stack);
    proof {
        let rest = stack_outline(nodes@, opts, stack@);
        assert(whole.text + Seq::<char>::empty() == whole.text);
        assert(rest == whole);
        lemma_followed_by(rest, rest, rest);
    }
    while stack.len() > 0
        invariant
            n == nodes@.len(),
            links == node_links(nodes@),
            children@.len() == n,
            sizes@.len() == n,
            forall|p: int| 0 <= p < n ==> (#[trigger] children@[p])@ == children_of(links, p),
            forall|p: int| 0 <= p < n ==> (#[trigger] sizes@[p]) == capped(subtree_size(links, p)),
            on_list(n as nat, stack@),
            followed_by(done, stack_outline(nodes@, opts, stack@)) == whole,
            out@ == done.text,
            skipped == capped(done.skipped),
            collapsed == capped(done.collapsed),
            named ==> forall|i: int|
                0 <= i < nodes@.len() ==> is_named_on_one_line(#[trigger] nodes@[i]),
            named ==> line_breaks(done.text) == done.shown,
        decreases stack_weight(links, stack@),
    {
        let ghost before = stack@;
        let (pos, indent, level): (usize, usize, usize) = stack[stack.len() - 1];
        stack.pop();
        assert(stack@ == before.drop_last());
        assert(before.last() == (pos, indent, level));
        assert(before[before.len() - 1].0 < n);
        assert(on_list(n as nat, stack@));
        let ghost rest = stack_outline(nodes@, opts, stack@);
        if level == 0 {
            proof {
                lemma_followed_by(rest, rest, rest);
            }
            continue;
        }
        let node = &nodes[pos];
        let shown = should_render(node, opts);
        let below: u64 = sizes[pos] - 1;
        let collapse = opts.skeleton && shown && indent >= opts.skeleton_depth && below
            > opts.collapse_over as u64;
        let ghost own = own_outline(nodes@, opts, pos as int, indent as nat);
        if shown {
            let mut line = indent_of(indent);
            write_node(&mut line, node, opts);
            if collapse {
                let mut summary = owned("  (+");
                summary.append(decimal(below).as_str());
                summary.append(" elements — pass scope_element_id=");
                summary.append(decimal(node.index as u64).as_str());
                summary.append(" to expand)");
                line.append(summary.as_str());
                collapsed = capped_sum(collapsed, below);
            }
            line.push('\n');
            assert(line@ == own.text);
            out.append(line.as_str());
        } else {
            skipped = capped_sum(skipped, 1);
            assert(own.text == Seq::<char>::empty());
            assert(out@ == done.text + own.text);
        }
        let ghost was = done;
        proof {
            if named {
                lemma_own_breaks(nodes@, opts, pos as int, indent as nat);
            }
            lemma_breaks_add(was.text, own.text);
            done = followed_by(was, own);
        }
        if !collapse {
            let step: usize = if shown {
                indent + 1
            } else {
                indent
            };
            proof {
                lemma_children_in_range(links, pos as int, links.len());
                assert(children@[pos as int]@ == children_of(links, pos as int));
                let kids = forest_outline(
                    nodes@,
                    opts,
                    children_of(links, pos as int),
                    step as nat,
                    (level - 1) as nat,
                );
                lemma_followed_by(was, own, followed_by(kids, rest));
                lemma_followed_by(own, kids, rest);
            }
            push_list(nodes, opts, &children[pos], step, level - 1, &mut stack);
        } else {
            proof {
                lemma_followed_by(was, own, rest);
            }
        }
    }
    assert(done.text + Seq::<char>::empty() == done.text);
    assert(done == whole);

    if opts.note_omissions {
        let mut notes = String::new();
        if collapsed > 0 {
            let mut note = owned("\n(skeleton: ");
            note.append(decimal(collapsed).as_str());
            note.append(
                " elements collapsed into their containers; pass scope_element_id=N to expand one, \
             or skeleton=false for everything)\n",
            );
            notes = note;
        }
        if skipped > 0 {
            let mut note = owned("\n(");
            note.append(decimal(skipped).as_str());
            note.append(" structural or empty elements omitted)\n");
            notes.append(note.as_str());
        }
        assert(notes@ == omission_notes(whole));
        out.append(notes.as_str());
    }
    out
}

} // verus!
