//! Telling whether an element still shows what it did.
//!
//! A list view can recycle one handle for another row. The texts of an element and of what is a few
//! levels below it, as the snapshot recorded them, must still be there when it is pressed.
use vstd::prelude::*;
use crate::menubar::quoted_each;
use crate::order::{alphabetical, sort_texts};
use crate::session::error::{CoreError, CoreErrorText};
use crate::snapshot::AxNode;
use crate::text::{
    copied_text, has_prefix, join, joined, owned, quoted, same, starts_with, text_of, texts, trim,
    trimmed,
};

pub mod laws;

verus! {

/// How many texts are kept of one element.
pub const MAX_TOKENS: usize = 16;

/// How many levels below an element its texts are taken from.
pub const TOKEN_LEVELS: usize = 3;

/// Whether a trimmed text identifies anything. The placeholders that AppKit makes up do not.
pub open spec fn is_token(text: Seq<char>) -> bool {
    text.len() > 0 && !has_prefix(text, "_NS:"@)
}

/// A list of texts with one more, unless it identifies nothing, is there already, or the list is
/// full.
pub open spec fn with_token(list: Seq<Seq<char>>, text: Option<Seq<char>>) -> Seq<Seq<char>> {
    match text {
        Some(t) => if is_token(trimmed(t)) && list.len() < MAX_TOKENS && !list.contains(
            trimmed(t),
        ) {
            list.push(trimmed(t))
        } else {
            list
        },
        None => list,
    }
}

/// Whether a list holds texts that identify something, none of them twice, and no more than are
/// kept of one element.
pub open spec fn is_token_set(list: Seq<Seq<char>>) -> bool {
    &&& list.no_duplicates()
    &&& list.len() <= MAX_TOKENS
    &&& forall|i: int| 0 <= i < list.len() ==> is_token(#[trigger] list[i])
}

/// Whether a text is in a list.
pub fn has_text(list: &Vec<String>, want: &str) -> (r: bool)
    ensures
        r == texts(list@).contains(want@),
{
    let ghost all = texts(list@);
    let mut i: usize = 0;
    while i < list.len()
        invariant
            i <= list@.len(),
            all == texts(list@),
            forall|j: int| 0 <= j < i ==> all[j] != want@,
        decreases list@.len() - i,
    {
        assert(all[i as int] == list@[i as int]@);
        if same(list[i].as_str(), want) {
            return true;
        }
        i += 1;
    }
    false
}

/// Adds a text to a list, unless it identifies nothing, is there already, or the list is full.
pub fn push_token(text: Option<String>, out: &mut Vec<String>)
    ensures
        texts(final(out)@) == with_token(texts(old(out)@), text_of(text)),
        is_token_set(texts(old(out)@)) ==> is_token_set(texts(final(out)@)),
{
    if let Some(raw) = text {
        let t = trim(raw.as_str());
        if !t.as_str().is_empty() && !starts_with(t.as_str(), "_NS:") && out.len() < MAX_TOKENS
            && !has_text(out, t.as_str()) {
            let ghost longer = texts(out@).push(t@);
            out.push(t);
            assert(texts(out@) == longer);
        }
    }
}

/// Whether every expected text is among those found.
pub open spec fn all_present(expected: Seq<Seq<char>>, found: Seq<Seq<char>>) -> bool {
    forall|i: int| 0 <= i < expected.len() ==> found.contains(#[trigger] expected[i])
}

/// Whether every expected text is among those found.
pub fn tokens_still_present(expected: &Vec<String>, found: &Vec<String>) -> (r: bool)
    ensures
        r == all_present(texts(expected@), texts(found@)),
{
    let ghost all = texts(expected@);
    let mut i: usize = 0;
    while i < expected.len()
        invariant
            i <= expected@.len(),
            all == texts(expected@),
            forall|j: int| 0 <= j < i ==> texts(found@).contains(#[trigger] all[j]),
        decreases expected@.len() - i,
    {
        assert(all[i as int] == expected@[i as int]@);
        if !has_text(found, expected[i].as_str()) {
            return false;
        }
        i += 1;
    }
    true
}

/// The texts of a list in their order.
pub fn sorted(list: &Vec<String>) -> (r: Vec<String>)
    ensures
        texts(r@) == alphabetical(texts(list@)),
{
    sort_texts(list)
}

/// The texts of the first `upto` that are not found.
pub open spec fn missing_below(
    expected: Seq<Seq<char>>,
    found: Seq<Seq<char>>,
    upto: nat,
) -> Seq<Seq<char>>
    decreases upto,
{
    if upto == 0 {
        Seq::empty()
    } else {
        let earlier = missing_below(expected, found, (upto - 1) as nat);
        if found.contains(expected[upto - 1]) {
            earlier
        } else {
            earlier.push(expected[upto - 1])
        }
    }
}

/// The expected texts that are not found.
fn missing_of(expected: &Vec<String>, found: &Vec<String>) -> (r: Vec<String>)
    ensures
        texts(r@) == missing_below(texts(expected@), texts(found@), expected@.len()),
{
    let ghost all = texts(expected@);
    let mut out: Vec<String> = Vec::new();
    let mut i: usize = 0;
    while i < expected.len()
        invariant
            i <= expected@.len(),
            all == texts(expected@),
            texts(out@) == missing_below(all, texts(found@), i as nat),
        decreases expected@.len() - i,
    {
        assert(all[i as int] == expected@[i as int]@);
        if !has_text(found, expected[i].as_str()) {
            let t = owned(expected[i].as_str());
            let ghost longer = texts(out@).push(t@);
            out.push(t);
            assert(texts(out@) == longer);
        }
        i += 1;
    }
    out
}

/// A list of texts the way `{:?}` prints one.
pub open spec fn list_text(list: Seq<Seq<char>>) -> Seq<char> {
    "["@ + joined(quoted_each(list), ", "@) + "]"@
}

/// Computes [`list_text`].
pub fn list_of(list: &Vec<String>) -> (r: String)
    ensures
        r@ == list_text(texts(list@)),
{
    let ghost all = texts(list@);
    let mut parts: Vec<String> = Vec::new();
    let mut i: usize = 0;
    assert(texts(parts@) == quoted_each(all.take(0)));
    while i < list.len()
        invariant
            i <= list@.len(),
            all == texts(list@),
            texts(parts@) == quoted_each(all.take(i as int)),
        decreases list@.len() - i,
    {
        let q = quoted(list[i].as_str());
        let ghost longer = texts(parts@).push(q@);
        parts.push(q);
        assert(texts(parts@) == longer);
        assert(longer == quoted_each(all.take(i + 1)));
        i += 1;
    }
    assert(all.take(all.len() as int) == all);
    let mut out = owned("[");
    out.append(join(&parts, ", ").as_str());
    out.append("]");
    out
}

/// The error for an element that no longer shows what it did. Where the snapshot recorded nothing,
/// nothing can be missing.
pub open spec fn change_of(
    index: usize,
    expected: Seq<Seq<char>>,
    found: Seq<Seq<char>>,
) -> Option<CoreErrorText> {
    if all_present(expected, found) {
        None
    } else {
        Some(
            CoreErrorText::TargetChanged {
                index,
                expected: list_text(
                    alphabetical(missing_below(expected, found, expected.len())),
                ),
                found: list_text(alphabetical(found)),
            },
        )
    }
}

/// Refuses an element that no longer shows what it did when the snapshot was taken.
pub fn detect_change(index: usize, expected: &Vec<String>, found: &Vec<String>) -> (r: Result<
    (),
    CoreError,
>)
    ensures
        match r {
            Ok(_) => change_of(index, texts(expected@), texts(found@)) is None,
            Err(e) => change_of(index, texts(expected@), texts(found@)) == Some(e@),
        },
{
    if tokens_still_present(expected, found) {
        return Ok(());
    }
    let gone = sorted(&missing_of(expected, found));
    Err(
        CoreError::TargetChanged {
            index,
            expected: list_of(&gone),
            found: list_of(&sorted(found)),
        },
    )
}

// -- the texts of a snapshot -------------------------------------------------------------------

/// A list with the texts of a node: its label, then its value.
pub open spec fn with_node(list: Seq<Seq<char>>, n: AxNode) -> Seq<Seq<char>> {
    with_token(with_token(list, text_of(n.label)), text_of(n.value))
}

/// Whether the parent of a node is among the given positions.
pub open spec fn hangs_below(n: AxNode, frontier: Seq<usize>) -> bool {
    n.parent is Some && frontier.contains(n.parent->0)
}

/// The texts of the first `upto` nodes that hang below the frontier, added to a list.
pub open spec fn level_tokens(
    nodes: Seq<AxNode>,
    frontier: Seq<usize>,
    list: Seq<Seq<char>>,
    upto: nat,
) -> Seq<Seq<char>>
    decreases upto,
{
    if upto == 0 {
        list
    } else {
        let earlier = level_tokens(nodes, frontier, list, (upto - 1) as nat);
        if hangs_below(nodes[upto - 1], frontier) {
            with_node(earlier, nodes[upto - 1])
        } else {
            earlier
        }
    }
}

/// Which of the first `upto` nodes hang below the frontier.
pub open spec fn next_frontier(nodes: Seq<AxNode>, frontier: Seq<usize>, upto: nat) -> Seq<usize>
    decreases upto,
{
    if upto == 0 {
        Seq::empty()
    } else {
        let earlier = next_frontier(nodes, frontier, (upto - 1) as nat);
        if hangs_below(nodes[upto - 1], frontier) {
            earlier.push((upto - 1) as usize)
        } else {
            earlier
        }
    }
}

/// The texts of a number of levels below the frontier, added to a list.
pub open spec fn tokens_below(
    nodes: Seq<AxNode>,
    frontier: Seq<usize>,
    list: Seq<Seq<char>>,
    levels: nat,
) -> Seq<Seq<char>>
    decreases levels,
{
    if levels == 0 {
        list
    } else {
        tokens_below(
            nodes,
            next_frontier(nodes, frontier, nodes.len()),
            level_tokens(nodes, frontier, list, nodes.len()),
            (levels - 1) as nat,
        )
    }
}

/// The texts that a snapshot recorded of an element and of what is below it.
pub open spec fn recorded_tokens(nodes: Seq<AxNode>, index: usize) -> Seq<Seq<char>> {
    tokens_below(
        nodes,
        seq![index],
        if index < nodes.len() {
            with_node(Seq::empty(), nodes[index as int])
        } else {
            Seq::empty()
        },
        TOKEN_LEVELS as nat,
    )
}

fn has_position(list: &Vec<usize>, want: usize) -> (r: bool)
    ensures
        r == list@.contains(want),
{
    let mut i: usize = 0;
    while i < list.len()
        invariant
            i <= list@.len(),
            forall|j: int| 0 <= j < i ==> list@[j] != want,
        decreases list@.len() - i,
    {
        if list[i] == want {
            assert(list@[i as int] == want);
            return true;
        }
        i += 1;
    }
    false
}

/// The texts that the snapshot recorded of the element at `index` and of what is below it.
pub fn snapshot_tokens(nodes: &[AxNode], index: usize) -> (r: Vec<String>)
    ensures
        texts(r@) == recorded_tokens(nodes@, index),
        is_token_set(texts(r@)),
{
    let mut out: Vec<String> = Vec::new();
    let mut frontier: Vec<usize> = Vec::new();
    frontier.push(index);
    assert(frontier@ == seq![index]);
    assert(texts(out@) == Seq::<Seq<char>>::empty());
    if index < nodes.len() {
        push_token(copied_text(&nodes[index].label), &mut out);
        push_token(copied_text(&nodes[index].value), &mut out);
    }
    let mut levels: usize = TOKEN_LEVELS;
    while levels > 0
        invariant
            tokens_below(nodes@, frontier@, texts(out@), levels as nat) == recorded_tokens(
                nodes@,
                index,
            ),
            is_token_set(texts(out@)),
        decreases levels,
    {
        let ghost start = texts(out@);
        let mut next: Vec<usize> = Vec::new();
        let mut i: usize = 0;
        while i < nodes.len()
            invariant
                i <= nodes@.len(),
                texts(out@) == level_tokens(nodes@, frontier@, start, i as nat),
                is_token_set(texts(out@)),
                next@ == next_frontier(nodes@, frontier@, i as nat),
            decreases nodes@.len() - i,
        {
            let below = match nodes[i].parent {
                Some(p) => has_position(&frontier, p),
                None => false,
            };
            if below {
                push_token(copied_text(&nodes[i].label), &mut out);
                push_token(copied_text(&nodes[i].value), &mut out);
                next.push(i);
            }
            i += 1;
        }
        frontier = next;
        levels -= 1;
    }
    out
}

// -- the texts of a live element ---------------------------------------------------------------

/// What a live element says, a few levels deep.
#[derive(Debug)]
pub struct LiveElement {
    pub title: Option<String>,
    pub value: Option<String>,
    pub description: Option<String>,
    pub children: Vec<LiveElement>,
}

/// The texts of a list of live elements and of what is below them, added to a list.
pub open spec fn live_tokens_below(
    children: Seq<LiveElement>,
    list: Seq<Seq<char>>,
    levels: nat,
) -> Seq<Seq<char>>
    decreases levels, children.len(),
{
    if levels == 0 || children.len() == 0 {
        list
    } else {
        let earlier = live_tokens_below(children.drop_last(), list, levels);
        let child = children.last();
        let own = with_token(
            with_token(with_token(earlier, text_of(child.title)), text_of(child.value)),
            text_of(child.description),
        );
        live_tokens_below(child.children@, own, (levels - 1) as nat)
    }
}

/// The texts that a live element shows now. Its label is what the snapshot would have called it.
pub open spec fn shown_tokens(el: LiveElement, label: Option<Seq<char>>) -> Seq<Seq<char>> {
    live_tokens_below(
        el.children@,
        with_token(
            with_token(with_token(Seq::empty(), text_of(el.title)), text_of(el.value)),
            label,
        ),
        TOKEN_LEVELS as nat,
    )
}

fn push_live(children: &Vec<LiveElement>, levels: usize, out: &mut Vec<String>)
    ensures
        texts(final(out)@) == live_tokens_below(children@, texts(old(out)@), levels as nat),
        is_token_set(texts(old(out)@)) ==> is_token_set(texts(final(out)@)),
    decreases levels,
{
    if levels == 0 {
        return;
    }
    let ghost start = texts(out@);
    let mut i: usize = 0;
    assert(children@.take(0).len() == 0);
    while i < children.len()
        invariant
            i <= children@.len(),
            levels > 0,
            texts(out@) == live_tokens_below(children@.take(i as int), start, levels as nat),
            is_token_set(start) ==> is_token_set(texts(out@)),
        decreases children@.len() - i,
    {
        let child = &children[i];
        assert(children@.take(i + 1).drop_last() == children@.take(i as int));
        push_token(copied_text(&child.title), out);
        push_token(copied_text(&child.value), out);
        push_token(copied_text(&child.description), out);
        push_live(&child.children, levels - 1, out);
        i += 1;
    }
    assert(children@.take(children@.len() as int) == children@);
}

/// The texts that a live element and what is below it show now.
pub fn live_tokens(el: &LiveElement, label: Option<String>) -> (r: Vec<String>)
    ensures
        texts(r@) == shown_tokens(*el, text_of(label)),
        is_token_set(texts(r@)),
{
    let mut out: Vec<String> = Vec::new();
    assert(texts(out@) == Seq::<Seq<char>>::empty());
    push_token(copied_text(&el.title), &mut out);
    push_token(copied_text(&el.value), &mut out);
    push_token(label, &mut out);
    push_live(&el.children, TOKEN_LEVELS, &mut out);
    out
}

// -- laws --------------------------------------------------------------------------------------

/// An element that shows everything it did, and perhaps more, has not changed.
pub proof fn law_more_text_is_no_change(
    index: usize,
    expected: Seq<Seq<char>>,
    found: Seq<Seq<char>>,
    more: Seq<Seq<char>>,
)
    requires
        change_of(index, expected, found) is None,
    ensures
        change_of(index, expected, found + more) is None,
{
    assert forall|i: int| 0 <= i < expected.len() implies (found + more).contains(
        #[trigger] expected[i],
    ) by {
        let j = choose|j: int| 0 <= j < found.len() && found[j] == expected[i];
        assert((found + more)[j] == expected[i]);
    }
}

/// One recorded text that is gone refuses the element, however much of the rest is still there.
pub proof fn law_one_missing_text_is_a_change(
    index: usize,
    expected: Seq<Seq<char>>,
    found: Seq<Seq<char>>,
    i: int,
)
    requires
        0 <= i < expected.len(),
        !found.contains(expected[i]),
    ensures
        change_of(index, expected, found) is Some,
{
}

} // verus!
