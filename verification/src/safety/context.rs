//! The question a dialog is asking.
//!
//! An alert holds the verb and its buttons hold one word each, so a rule that reads only the
//! control about to be pressed cannot see the most common destructive arrangement there is. The
//! rules here find the nearest enclosing element that exists to ask a question and read its prose:
//! never its answers, never the user's own content.
use vstd::prelude::*;
use crate::text::{
    any_eq_ignore_case, join, joined, listed_but_case, owned, slice_of, text_of, texts, trim,
    trimmed,
};
use crate::tree::{child_lists, children_of, lemma_children_in_range};

verus! {

/// Roles that exist to ask a question.
pub const DECISION_ROLES: [&'static str; 3] = ["AXSheet", "AXDialog", "AXAlert"];

/// Subroles that mark an otherwise ordinary window as a question.
pub const DECISION_SUBROLES: [&'static str; 3] = ["AXDialog", "AXSystemDialog", "AXAlertDialog"];

/// Where the upward search gives up: at an ordinary window the target is in content.
pub const CONTEXT_BOUNDARY_ROLES: [&'static str; 3] = ["AXWindow", "AXApplication", "AXSystemWide"];

/// Roles whose text is the user's own material rather than the dialog's prose.
pub const CONTENT_CONTAINER_ROLES: [&'static str; 11] = [
    "AXScrollArea",
    "AXTable",
    "AXOutline",
    "AXList",
    "AXBrowser",
    "AXGrid",
    "AXRow",
    "AXCell",
    "AXWebArea",
    "AXDocument",
    "AXTextArea",
];

/// Roles that are answers to the question, not part of it.
pub const ANSWER_ROLES: [&'static str; 15] = [
    "AXButton",
    "AXCheckBox",
    "AXRadioButton",
    "AXPopUpButton",
    "AXMenuButton",
    "AXMenuItem",
    "AXLink",
    "AXDisclosureTriangle",
    "AXTab",
    "AXSlider",
    "AXIncrementor",
    "AXStepper",
    "AXTextField",
    "AXComboBox",
    "AXSearchField",
];

/// Roles whose text is read as part of the question.
pub const QUESTION_ROLES: [&'static str; 2] = ["AXStaticText", "AXHeading"];

/// Roles whose caption may be a child element instead of an attribute.
pub const CAPTIONED_ROLES: [&'static str; 10] = [
    "AXButton",
    "AXCheckBox",
    "AXRadioButton",
    "AXPopUpButton",
    "AXMenuButton",
    "AXMenuItem",
    "AXLink",
    "AXTab",
    "AXDisclosureTriangle",
    "AXToolbarButton",
];

/// How many pieces of text one question may be assembled from.
pub const MAX_QUESTION_PARTS: usize = 24;

/// The question the nearest enclosing decision context is asking.
#[derive(Debug, Clone, PartialEq, Eq)]
pub struct DecisionContext {
    /// How the context renders, `AXSheet` or `AXWindow[AXDialog]`, for the error message.
    pub kind: String,
    /// The context's own title and description plus its static text, in tree order.
    pub question: String,
}

/// What a [`DecisionContext`] says.
pub struct ContextText {
    pub kind: Seq<char>,
    pub question: Seq<char>,
}

impl View for DecisionContext {
    type V = ContextText;

    open spec fn view(&self) -> ContextText {
        ContextText { kind: self.kind@, question: self.question@ }
    }
}

/// One snapshot node, as the context rules see it.
#[derive(Debug, Clone, Copy)]
pub struct ContextNode<'a> {
    pub parent: Option<usize>,
    pub role: &'a str,
    pub subrole: Option<&'a str>,
    pub label: Option<&'a str>,
    pub value: Option<&'a str>,
    pub help: Option<&'a str>,
    pub settable: bool,
}

/// What a [`ContextNode`] says.
pub struct NodeText {
    pub parent: Option<usize>,
    pub role: Seq<char>,
    pub subrole: Option<Seq<char>>,
    pub label: Option<Seq<char>>,
    pub value: Option<Seq<char>>,
    pub help: Option<Seq<char>>,
    pub settable: bool,
}

impl<'a> View for ContextNode<'a> {
    type V = NodeText;

    open spec fn view(&self) -> NodeText {
        NodeText {
            parent: self.parent,
            role: self.role@,
            subrole: slice_of(self.subrole),
            label: slice_of(self.label),
            value: slice_of(self.value),
            help: slice_of(self.help),
            settable: self.settable,
        }
    }
}

impl<'a> Default for ContextNode<'a> {
    fn default() -> (r: Self)
        ensures
            r.parent is None,
            r.role@ == ""@,
            r.subrole is None,
            r.label is None,
            r.value is None,
            r.help is None,
            !r.settable,
    {
        ContextNode {
            parent: None,
            role: "",
            subrole: None,
            label: None,
            value: None,
            help: None,
            settable: false,
        }
    }
}

/// What a list of nodes says.
pub open spec fn tree(nodes: Seq<ContextNode<'_>>) -> Seq<NodeText> {
    nodes.map_values(|n: ContextNode<'_>| n@)
}

// -- which element asks ------------------------------------------------------------------------

/// Whether a node exists to ask a question rather than to lay one out.
pub open spec fn asks(n: NodeText) -> bool {
    ||| listed_but_case(DECISION_ROLES@, n.role)
    ||| n.subrole is Some && listed_but_case(DECISION_SUBROLES@, n.subrole->0)
}

/// Whether the upward search ends at a node without having found a question.
pub open spec fn bounds_search(n: NodeText) -> bool {
    listed_but_case(CONTEXT_BOUNDARY_ROLES@, n.role)
}

/// The first node that asks a question on the way up from `from`, within `steps` nodes and before
/// any that bounds the search.
pub open spec fn first_asking(nodes: Seq<NodeText>, from: Option<usize>, steps: nat) -> Option<
    usize,
>
    decreases steps,
{
    if steps == 0 || from is None || from->0 >= nodes.len() {
        None
    } else if asks(nodes[from->0 as int]) {
        from
    } else if bounds_search(nodes[from->0 as int]) {
        None
    } else {
        first_asking(nodes, nodes[from->0 as int].parent, (steps - 1) as nat)
    }
}

/// The nearest enclosing decision context of `target`. No path of distinct nodes is longer than the
/// node count, so that many steps see every ancestor.
pub open spec fn nearest_context(nodes: Seq<NodeText>, target: int) -> Option<usize> {
    if 0 <= target < nodes.len() {
        first_asking(nodes, nodes[target].parent, nodes.len())
    } else {
        None
    }
}

/// Computes [`asks`].
pub fn is_decision_context(node: &ContextNode<'_>) -> (r: bool)
    ensures
        r == asks(node@),
{
    if any_eq_ignore_case(DECISION_ROLES.as_slice(), node.role) {
        return true;
    }
    match node.subrole {
        Some(s) => any_eq_ignore_case(DECISION_SUBROLES.as_slice(), s),
        None => false,
    }
}

/// Computes [`nearest_context`].
pub fn nearest_decision_context(nodes: &[ContextNode<'_>], target: usize) -> (r: Option<usize>)
    ensures
        r == nearest_context(tree(nodes@), target as int),
{
    if target >= nodes.len() {
        return None;
    }
    let ghost all = tree(nodes@);
    let mut current: Option<usize> = nodes[target].parent;
    let mut steps: usize = nodes.len();
    while steps > 0
        invariant
            all == tree(nodes@),
            target < nodes@.len(),
            first_asking(all, current, steps as nat) == nearest_context(all, target as int),
        decreases steps,
    {
        let index: usize = match current {
            Some(i) => i,
            None => {
                return None;
            },
        };
        if index >= nodes.len() {
            return None;
        }
        assert(all[index as int] == nodes@[index as int]@);
        if is_decision_context(&nodes[index]) {
            return Some(index);
        }
        if any_eq_ignore_case(CONTEXT_BOUNDARY_ROLES.as_slice(), nodes[index].role) {
            return None;
        }
        current = nodes[index].parent;
        steps -= 1;
    }
    None
}

// -- what it says ------------------------------------------------------------------------------

/// A text with the white space at its ends removed, where anything is left.
pub open spec fn spoken(part: Option<Seq<char>>) -> Option<Seq<char>> {
    match part {
        Some(p) => if trimmed(p).len() > 0 {
            Some(trimmed(p))
        } else {
            None
        },
        None => None,
    }
}

/// A list of the one text, or of none.
pub open spec fn as_list(part: Option<Seq<char>>) -> Seq<Seq<char>> {
    match part {
        Some(p) => seq![p],
        None => Seq::empty(),
    }
}

/// The value of a node, unless it is the user's to write.
pub open spec fn fixed_value(n: NodeText) -> Option<Seq<char>> {
    if n.settable {
        None
    } else {
        n.value
    }
}

/// The text a decision context itself contributes: its title, its help, and its value where that is
/// not the user's to write.
pub open spec fn own_text(n: NodeText) -> Seq<Seq<char>> {
    as_list(spoken(n.label)) + as_list(spoken(n.help)) + as_list(spoken(fixed_value(n)))
}

/// The sentence a piece of static text displays: its value, or else its label.
pub open spec fn displayed_text(n: NodeText) -> Option<Seq<char>> {
    match spoken(fixed_value(n)) {
        Some(v) => Some(v),
        None => spoken(n.label),
    }
}

/// Computes [`spoken`].
fn speak(part: Option<&str>) -> (r: Option<String>)
    ensures
        text_of(r) == spoken(slice_of(part)),
{
    match part {
        Some(p) => {
            let t = trim(p);
            if t.as_str().is_empty() {
                None
            } else {
                Some(t)
            }
        },
        None => None,
    }
}

/// Computes [`own_text`].
pub fn own_text_of(node: &ContextNode<'_>) -> (r: Vec<String>)
    ensures
        texts(r@) == own_text(node@),
{
    let mut parts: Vec<String> = Vec::new();
    let ghost mut said: Seq<Seq<char>> = Seq::empty();
    if let Some(t) = speak(node.label) {
        proof {
            said = said.push(t@);
        }
        parts.push(t);
    }
    if let Some(t) = speak(node.help) {
        proof {
            said = said.push(t@);
        }
        parts.push(t);
    }
    if !node.settable {
        if let Some(t) = speak(node.value) {
            proof {
                said = said.push(t@);
            }
            parts.push(t);
        }
    }
    assert(texts(parts@) == said);
    assert(said == own_text(node@));
    parts
}

/// Computes [`displayed_text`].
pub fn displayed_text_of(node: &ContextNode<'_>) -> (r: Option<String>)
    ensures
        text_of(r) == displayed_text(node@),
{
    if !node.settable {
        if let Some(t) = speak(node.value) {
            return Some(t);
        }
    }
    speak(node.label)
}

// -- prose -------------------------------------------------------------------------------------

/// Whether the search for prose leaves a node and everything below it out.
pub open spec fn is_pruned(n: NodeText) -> bool {
    ||| asks(n)
    ||| listed_but_case(CONTENT_CONTAINER_ROLES@, n.role)
    ||| listed_but_case(ANSWER_ROLES@, n.role)
}

/// Whether a node's displayed text is prose.
pub open spec fn is_prose(n: NodeText) -> bool {
    listed_but_case(QUESTION_ROLES@, n.role)
}

/// The parent links of a list of nodes.
pub open spec fn links(nodes: Seq<NodeText>) -> Seq<Option<usize>> {
    nodes.map_values(|n: NodeText| n.parent)
}

/// The prose of the subtree at `index`, in tree order, down to `depth` levels: nothing below an
/// answer, below content or below another question; a piece of static text says what it displays;
/// anything else says what its children say.
pub open spec fn subtree_prose(nodes: Seq<NodeText>, index: int, depth: nat) -> Seq<Seq<char>>
    decreases depth, 0nat,
{
    if depth == 0 || is_pruned(nodes[index]) {
        Seq::empty()
    } else if is_prose(nodes[index]) {
        as_list(displayed_text(nodes[index]))
    } else {
        forest_prose(nodes, children_of(links(nodes), index), (depth - 1) as nat)
    }
}

/// The prose of several subtrees, one after the other.
pub open spec fn forest_prose(nodes: Seq<NodeText>, list: Seq<usize>, depth: nat) -> Seq<Seq<char>>
    decreases depth, list.len() + 1,
{
    if list.len() == 0 {
        Seq::empty()
    } else {
        subtree_prose(nodes, list[0] as int, depth) + forest_prose(nodes, list.drop_first(), depth)
    }
}

/// How deep the search for prose goes. The nodes of a tree lie on paths no longer than the node
/// count. Only a cycle of parent links goes on, and one that says anything at all fills a question
/// before the last level.
pub open spec fn search_depth(nodes: Seq<NodeText>) -> nat {
    (MAX_QUESTION_PARTS + 1) as nat * nodes.len()
}

/// As many texts of a list as one question may hold.
pub open spec fn first_parts(parts: Seq<Seq<char>>) -> Seq<Seq<char>> {
    if parts.len() <= MAX_QUESTION_PARTS {
        parts
    } else {
        parts.take(MAX_QUESTION_PARTS as int)
    }
}

/// The pieces of prose inside `root`, behind what the root says of itself where it is asked.
pub open spec fn prose_parts(nodes: Seq<NodeText>, root: int, include_root: bool) -> Seq<Seq<char>> {
    let own = if include_root {
        own_text(nodes[root])
    } else {
        Seq::empty()
    };
    first_parts(own + forest_prose(nodes, children_of(links(nodes), root), search_depth(nodes)))
}

/// The prose inside `root` as one text.
pub open spec fn prose(nodes: Seq<NodeText>, root: int, include_root: bool) -> Seq<char> {
    joined(prose_parts(nodes, root, include_root), " "@)
}

/// How many nodes the search may still have to look at below `index`.
spec fn subtree_weight(nodes: Seq<NodeText>, index: int, depth: nat) -> nat
    decreases depth, 0nat,
{
    if depth == 0 {
        1
    } else {
        1 + forest_weight(nodes, children_of(links(nodes), index), (depth - 1) as nat)
    }
}

spec fn forest_weight(nodes: Seq<NodeText>, list: Seq<usize>, depth: nat) -> nat
    decreases depth, list.len() + 1,
{
    if list.len() == 0 {
        0
    } else {
        subtree_weight(nodes, list[0] as int, depth) + forest_weight(
            nodes,
            list.drop_first(),
            depth,
        )
    }
}

/// The prose of the subtrees on a stack, the topmost first.
spec fn stack_prose(nodes: Seq<NodeText>, stack: Seq<(usize, u128)>) -> Seq<Seq<char>>
    decreases stack.len(),
{
    if stack.len() == 0 {
        Seq::empty()
    } else {
        subtree_prose(nodes, stack.last().0 as int, stack.last().1 as nat) + stack_prose(
            nodes,
            stack.drop_last(),
        )
    }
}

spec fn stack_weight(nodes: Seq<NodeText>, stack: Seq<(usize, u128)>) -> nat
    decreases stack.len(),
{
    if stack.len() == 0 {
        0
    } else {
        subtree_weight(nodes, stack.last().0 as int, stack.last().1 as nat) + stack_weight(
            nodes,
            stack.drop_last(),
        )
    }
}

spec fn on_tree(nodes: Seq<NodeText>, stack: Seq<(usize, u128)>) -> bool {
    forall|i: int| 0 <= i < stack.len() ==> (#[trigger] stack[i]).0 < nodes.len()
}

/// The parent link of every node.
fn links_of(nodes: &[ContextNode<'_>]) -> (r: Vec<Option<usize>>)
    ensures
        r@ == links(tree(nodes@)),
{
    let mut out: Vec<Option<usize>> = Vec::new();
    let mut i: usize = 0;
    while i < nodes.len()
        invariant
            i <= nodes@.len(),
            out@ == links(tree(nodes@)).take(i as int),
        decreases nodes@.len() - i,
    {
        out.push(nodes[i].parent);
        i += 1;
    }
    assert(links(tree(nodes@)).take(nodes@.len() as int) == links(tree(nodes@)));
    out
}

/// Computes [`prose`].
pub fn prose_in(nodes: &[ContextNode<'_>], root: usize, include_root: bool) -> (r: String)
    requires
        root < nodes@.len(),
    ensures
        r@ == prose(tree(nodes@), root as int, include_root),
{
    let ghost all = tree(nodes@);
    let ghost wanted = prose_parts(all, root as int, include_root);
    let (children, _) = child_lists(&links_of(nodes));
    let n: usize = nodes.len();
    assert((MAX_QUESTION_PARTS as u128 + 1) * (n as u128) <= 25 * usize::MAX) by (nonlinear_arith)
        requires
            MAX_QUESTION_PARTS == 24,
            n <= usize::MAX,
    ;
    let depth: u128 = (MAX_QUESTION_PARTS as u128 + 1) * n as u128;

    assert(all[root as int] == nodes@[root as int]@);
    let mut parts: Vec<String> = if include_root {
        own_text_of(&nodes[root])
    } else {
        Vec::new()
    };
    let ghost own = texts(parts@);
    let mut stack: Vec<(usize, u128)> = Vec::new();
    push_children(nodes, &children, root, depth, &mut stack);
    assert(texts(parts@) + stack_prose(all, stack@) == own + forest_prose(
        all,
        children_of(links(all), root as int),
        search_depth(all),
    ));
    while stack.len() > 0
        invariant
            n == nodes@.len(),
            all == tree(nodes@),
            children@.len() == n,
            forall|p: int|
                0 <= p < children@.len() ==> (#[trigger] children@[p])@ == children_of(links(all), p),
            on_tree(all, stack@),
            parts@.len() <= MAX_QUESTION_PARTS,
            first_parts(texts(parts@) + stack_prose(all, stack@)) == wanted,
        ensures
            texts(parts@) == wanted,
        decreases stack_weight(all, stack@),
    {
        let ghost before = stack@;
        let (index, level): (usize, u128) = stack[stack.len() - 1];
        stack.pop();
        assert(stack@ == before.drop_last());
        assert(before.last() == (index, level));
        if parts.len() >= MAX_QUESTION_PARTS {
            assert(first_parts(texts(parts@) + stack_prose(all, before)) == texts(parts@));
            break;
        }
        assert(all[index as int] == nodes@[index as int]@);
        assert(on_tree(all, stack@));
        let node = &nodes[index];
        if level == 0 || is_decision_context(node) || any_eq_ignore_case(
            CONTENT_CONTAINER_ROLES.as_slice(),
            node.role,
        ) || any_eq_ignore_case(ANSWER_ROLES.as_slice(), node.role) {
            assert(texts(parts@) + stack_prose(all, before) == texts(parts@) + stack_prose(
                all,
                stack@,
            ));
            continue;
        }
        if any_eq_ignore_case(QUESTION_ROLES.as_slice(), node.role) {
            let ghost had = texts(parts@);
            let ghost said = as_list(displayed_text(node@));
            if let Some(t) = displayed_text_of(node) {
                parts.push(t);
            }
            assert(texts(parts@) == had + said);
            assert(had + (said + stack_prose(all, stack@)) == had + said + stack_prose(
                all,
                stack@,
            ));
            continue;
        }
        push_children(nodes, &children, index, level - 1, &mut stack);
    }
    proof {
        assert(texts(parts@) == wanted);
    }
    join(&parts, " ")
}

/// Puts the children of `index` on the stack, the first of them topmost.
fn push_children(
    nodes: &[ContextNode<'_>],
    children: &Vec<Vec<usize>>,
    index: usize,
    level: u128,
    stack: &mut Vec<(usize, u128)>,
)
    requires
        index < nodes@.len(),
        children@.len() == nodes@.len(),
        forall|p: int|
            0 <= p < children@.len() ==> (#[trigger] children@[p])@ == children_of(
                links(tree(nodes@)),
                p,
            ),
        on_tree(tree(nodes@), old(stack)@),
    ensures
        on_tree(tree(nodes@), final(stack)@),
        stack_prose(tree(nodes@), final(stack)@) == forest_prose(
            tree(nodes@),
            children_of(links(tree(nodes@)), index as int),
            level as nat,
        ) + stack_prose(tree(nodes@), old(stack)@),
        stack_weight(tree(nodes@), final(stack)@) == forest_weight(
            tree(nodes@),
            children_of(links(tree(nodes@)), index as int),
            level as nat,
        ) + stack_weight(tree(nodes@), old(stack)@),
{
    let ghost all = tree(nodes@);
    let ghost kids = children_of(links(all), index as int);
    let n: usize = nodes.len();
    proof {
        lemma_children_in_range(links(all), index as int, all.len());
    }
    let mut j: usize = children[index].len();
    assert(kids.skip(kids.len() as int) == Seq::<usize>::empty());
    while j > 0
        invariant
            n == nodes@.len(),
            all == tree(nodes@),
            index < children@.len(),
            children@[index as int]@ == kids,
            j <= kids.len(),
            forall|i: int| 0 <= i < kids.len() ==> #[trigger] kids[i] < all.len(),
            on_tree(all, stack@),
            stack_prose(all, stack@) == forest_prose(all, kids.skip(j as int), level as nat)
                + stack_prose(all, old(stack)@),
            stack_weight(all, stack@) == forest_weight(all, kids.skip(j as int), level as nat)
                + stack_weight(all, old(stack)@),
        decreases j,
    {
        j -= 1;
        let ghost was = stack@;
        let child: usize = children[index][j];
        stack.push((child, level));
        assert(stack@.drop_last() == was);
        let ghost rest = kids.skip(j as int);
        assert(rest.drop_first() == kids.skip(j + 1));
        assert(rest[0] == child);
        assert(stack_prose(all, stack@) == forest_prose(all, rest, level as nat) + stack_prose(
            all,
            old(stack)@,
        ));
    }
    assert(kids.skip(0) == kids);
}

// -- captions and questions --------------------------------------------------------------------

/// What the control at `target` says in its children, where it is button-shaped, has no label that
/// says anything, and its children do.
pub open spec fn caption_text(nodes: Seq<NodeText>, target: int) -> Option<Seq<char>> {
    if 0 <= target < nodes.len() && listed_but_case(CAPTIONED_ROLES@, nodes[target].role) && spoken(
        nodes[target].label,
    ) is None && trimmed(prose(nodes, target, false)).len() > 0 {
        Some(prose(nodes, target, false))
    } else {
        None
    }
}

/// How a decision context renders.
pub open spec fn context_kind(n: NodeText) -> Seq<char> {
    match n.subrole {
        Some(s) => if s.len() > 0 {
            n.role + "["@ + s + "]"@
        } else {
            n.role
        },
        None => n.role,
    }
}

/// The question that the element at `target` is being asked to answer.
pub open spec fn question_at(nodes: Seq<NodeText>, target: int) -> Option<ContextText> {
    match nearest_context(nodes, target) {
        Some(index) => {
            let question = prose(nodes, index as int, true);
            if trimmed(question).len() > 0 {
                Some(ContextText { kind: context_kind(nodes[index as int]), question })
            } else {
                None
            }
        },
        None => None,
    }
}

/// What the control at `target` says, when it says it in a child.
///
/// `None` for anything that is not button-shaped, and for a button that carries its caption in an
/// attribute, its label.
pub fn caption(nodes: &[ContextNode<'_>], target: usize) -> (r: Option<String>)
    ensures
        text_of(r) == caption_text(tree(nodes@), target as int),
{
    if target >= nodes.len() {
        return None;
    }
    assert(tree(nodes@)[target as int] == nodes@[target as int]@);
    if !any_eq_ignore_case(CAPTIONED_ROLES.as_slice(), nodes[target].role) {
        return None;
    }
    if speak(nodes[target].label).is_some() {
        return None;
    }
    let text = prose_in(nodes, target, false);
    if trim(text.as_str()).as_str().is_empty() {
        None
    } else {
        Some(text)
    }
}

/// The question the element at `target` is being asked to answer, if any.
pub fn decision_context(nodes: &[ContextNode<'_>], target: usize) -> (r: Option<DecisionContext>)
    ensures
        match r {
            Some(c) => question_at(tree(nodes@), target as int) == Some(c@),
            None => question_at(tree(nodes@), target as int) is None,
        },
{
    let index: usize = match nearest_decision_context(nodes, target) {
        Some(i) => i,
        None => {
            return None;
        },
    };
    proof {
        lemma_nearest_in_range(tree(nodes@), tree(nodes@)[target as int].parent, nodes@.len());
    }
    let question = prose_in(nodes, index, true);
    if trim(question.as_str()).as_str().is_empty() {
        return None;
    }
    let node = &nodes[index];
    assert(tree(nodes@)[index as int] == node@);
    let mut kind = owned(node.role);
    if let Some(subrole) = node.subrole {
        if !subrole.is_empty() {
            kind.append("[");
            kind.append(subrole);
            kind.append("]");
        }
    }
    Some(DecisionContext { kind, question })
}

/// The search for a question ends at a node of the list that asks one.
pub proof fn lemma_nearest_in_range(nodes: Seq<NodeText>, from: Option<usize>, steps: nat)
    ensures
        first_asking(nodes, from, steps) matches Some(i) ==> i < nodes.len() && asks(
            nodes[i as int],
        ),
    decreases steps,
{
    if steps > 0 && from is Some && from->0 < nodes.len() {
        lemma_nearest_in_range(nodes, nodes[from->0 as int].parent, (steps - 1) as nat);
    }
}

} // verus!
