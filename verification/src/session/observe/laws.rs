//! What a read, a wait and a look after an action tell, in terms of what is there.
use vstd::prelude::*;
use crate::apps::AppInfo;
use crate::decimal::numeral;
use crate::safety::policy::forbidden_reason;
use crate::session::error::CoreErrorText;
use crate::session::kinds::{Observed, Presence, WaitOutcome};
use crate::session::observe::{
    actionable_below, basis, capture_of, capture_warning, comparable, fingerprint, id_count,
    ids_of, no_diff_note, observed, picked_window, plain_render, reading_options, same_ids,
    step_after, unobserved_note, walk_notes, CapturePlan, Reading, WaitStep, WindowAnswer,
    WindowAnswers, WindowPick,
};
use crate::session::store::{Limits, Snapshot, StateOptions};
use crate::session::windows::{TransientWindow, WindowInfo};
use crate::session::windows::laws::law_popups_are_counted_and_ordered;
use crate::snapshot::AxNode;
use crate::text::has_part;
use crate::text::laws::{
    law_a_longer_text_holds_what_it_held, law_a_part_is_found, law_a_part_stands_somewhere,
};

verus! {

// -- waiting -----------------------------------------------------------------------------------

/// A poll sees what is on screen, wherever in the tree it stands: a wait for a text to appear ends
/// as satisfied on every tree that holds it, and says when; a wait for it to disappear goes on, or
/// ends unsatisfied where the time is up.
pub proof fn law_a_poll_sees_what_is_there(
    before: Seq<char>,
    needle: Seq<char>,
    after: Seq<char>,
    polls: u32,
    snapshot_id: u64,
    remaining_ms: u64,
    timeout_ms: u64,
)
    ensures
        step_after(
            before + needle + after,
            needle,
            Presence::Appears,
            polls,
            snapshot_id,
            remaining_ms,
            timeout_ms,
        ) == WaitStep::Done(
            WaitOutcome {
                satisfied: true,
                polls,
                snapshot_id,
                elapsed_ms: if remaining_ms < timeout_ms {
                    (timeout_ms - remaining_ms) as u64
                } else {
                    0
                },
            },
        ),
        step_after(
            before + needle + after,
            needle,
            Presence::Disappears,
            polls,
            snapshot_id,
            remaining_ms,
            timeout_ms,
        ) == if remaining_ms > 0 {
            WaitStep::SleepMs(250)
        } else {
            WaitStep::Done(
                WaitOutcome { satisfied: false, polls, snapshot_id, elapsed_ms: timeout_ms },
            )
        },
{
    law_a_part_is_found(before, needle, after);
}

/// A poll sees nothing that is not there: on a tree in which the text stands nowhere, a wait for it
/// to disappear ends as satisfied, and a wait for it to appear goes on, or ends unsatisfied where
/// the time is up.
pub proof fn law_a_poll_sees_nothing_that_is_not_there(
    tree: Seq<char>,
    needle: Seq<char>,
    polls: u32,
    snapshot_id: u64,
    remaining_ms: u64,
    timeout_ms: u64,
)
    requires
        forall|before: Seq<char>, after: Seq<char>| tree != #[trigger] (before + needle + after),
    ensures
        step_after(
            tree,
            needle,
            Presence::Disappears,
            polls,
            snapshot_id,
            remaining_ms,
            timeout_ms,
        ) == WaitStep::Done(
            WaitOutcome {
                satisfied: true,
                polls,
                snapshot_id,
                elapsed_ms: if remaining_ms < timeout_ms {
                    (timeout_ms - remaining_ms) as u64
                } else {
                    0
                },
            },
        ),
        step_after(
            tree,
            needle,
            Presence::Appears,
            polls,
            snapshot_id,
            remaining_ms,
            timeout_ms,
        ) == if remaining_ms > 0 {
            WaitStep::SleepMs(250)
        } else {
            WaitStep::Done(
                WaitOutcome { satisfied: false, polls, snapshot_id, elapsed_ms: timeout_ms },
            )
        },
{
    law_a_part_stands_somewhere(tree, needle);
}

// -- reading -----------------------------------------------------------------------------------

/// The focused window is read wherever there is one, the main one only where there is none, the
/// first one only where there is neither. An app is said to have no window only where it answered
/// every question and has none, and to be silent only on being asked again.
pub proof fn law_the_focused_window_is_preferred(
    app: Seq<char>,
    said: WindowAnswers,
    asked_before: bool,
)
    ensures
        ({
            let r = picked_window(app, said, asked_before);
            let there = WindowAnswer::There;
            let missing = WindowAnswer::Missing;
            &&& r == Ok::<WindowPick, CoreErrorText>(WindowPick::Focused) <==> said.focused
                == there
            &&& r == Ok::<WindowPick, CoreErrorText>(WindowPick::Main) <==> said.focused != there
                && said.main == there
            &&& r == Ok::<WindowPick, CoreErrorText>(WindowPick::First) <==> said.focused != there
                && said.main != there && said.listed == there
            &&& r == Err::<WindowPick, CoreErrorText>(CoreErrorText::NoWindow { app })
                <==> said.focused == missing && said.main == missing && said.listed == missing
            &&& r == Err::<WindowPick, CoreErrorText>(CoreErrorText::WindowQueryTimedOut { app })
                ==> asked_before
            &&& r == Ok::<WindowPick, CoreErrorText>(WindowPick::AskAgain) ==> !asked_before
            &&& r is Err ==> r->Err_0 == (CoreErrorText::NoWindow { app }) || r->Err_0 == (
            CoreErrorText::WindowQueryTimedOut { app })
        }),
{
}

/// A capture is of the window that was read and at the size that was asked for, and there is one
/// exactly where pixels are wanted and the window is known.
pub proof fn law_what_is_captured_is_what_was_read(opts: StateOptions, window: Option<WindowInfo>)
    ensures
        opts.include_screenshot && window is Some ==> capture_of(opts, window) == (
        CapturePlan::Capture { window: window->0.id, max_image_dim: opts.max_image_dim }),
        !opts.include_screenshot || window is None ==> capture_of(opts, window)
            == CapturePlan::Skip,
{
}

/// A failed capture is told as it came. An open menu is offered as the cause exactly where the
/// window server refused, wherever in its words it says so, and the snapshot holds a menu.
pub proof fn law_a_capture_failure_is_told_as_it_came(
    before: Seq<char>,
    after: Seq<char>,
    other: Seq<char>,
    nodes: Seq<AxNode>,
)
    ensures
        ({
            let refusal = "could not create image from window"@;
            let err = before + refusal + after;
            let menu = exists|i: int|
                0 <= i < nodes.len() && (#[trigger] nodes[i]).role@ == "AXMenu"@;
            &&& !menu ==> capture_warning(err, nodes) == err && capture_warning(other, nodes)
                == other
            &&& menu ==> exists|more: Seq<char>|
                more.len() > 0 && #[trigger] (err + more) == capture_warning(err, nodes)
            &&& (forall|a: Seq<char>, b: Seq<char>| other != #[trigger] (a + refusal + b))
                ==> capture_warning(other, nodes) == other
        }),
{
    let refusal = "could not create image from window"@;
    law_a_part_is_found(before, refusal, after);
    law_a_part_stands_somewhere(other, refusal);
    let err = before + refusal + after;
    reveal_strlit(". This app has a menu open, which may be why: the same window has been seen to capture once \
    its menu closed. The tree above is current either way; if you need pixels, dismiss the menu \
    (press_key `escape` on the AXMenu) and read again");
    if exists|i: int| 0 <= i < nodes.len() && (#[trigger] nodes[i]).role@ == "AXMenu"@ {
        let more = capture_warning(err, nodes).skip(err.len() as int);
        assert(err + more =~= capture_warning(err, nodes));
    }
}

/// An incomplete tree always says so, and a complete one never does. A tree that reached its cap
/// names the cap; one that ran out of time names its budget and how far it came; a first read that
/// found less than twenty elements says how many.
pub proof fn law_an_incomplete_tree_says_so(
    count: nat,
    first_read: bool,
    max_nodes: nat,
    complete: bool,
    budget: Seq<char>,
)
    ensures
        ({
            let notes = walk_notes(count, first_read, max_nodes, complete, budget);
            let small = first_read && count < 20;
            let cut = count >= max_nodes;
            let late = !cut && !complete;
            &&& notes.len() == (if small {
                1int
            } else {
                0
            }) + (if cut || late {
                1int
            } else {
                0
            })
            &&& small ==> exists|rest: Seq<char>|
                notes[0] == #[trigger] ("only "@ + numeral(count) + rest)
            &&& cut ==> notes.last() == "tree truncated at "@ + numeral(max_nodes)
                + " elements; pass a larger max_nodes or narrow the target"@
            &&& late ==> exists|rest: Seq<char>|
                notes.last() == #[trigger] ("tree is INCOMPLETE: the walk hit its "@ + budget
                    + "s time budget after "@ + numeral(count) + rest)
        }),
{
    let notes = walk_notes(count, first_read, max_nodes, complete, budget);
    if first_read && count < 20 {
        let start = "only "@ + numeral(count);
        assert(notes[0] == start + notes[0].skip(start.len() as int));
    }
    if count < max_nodes && !complete {
        let start = "tree is INCOMPLETE: the walk hit its "@ + budget + "s time budget after "@
            + numeral(count);
        assert(notes.last() == start + notes.last().skip(start.len() as int));
    }
}

/// The count of what takes an action counts exactly the elements that do.
pub proof fn law_every_actionable_element_is_counted(nodes: Seq<AxNode>)
    ensures
        actionable_below(nodes, nodes.len()) == nodes.filter(|n: AxNode| n.actionable).len(),
{
    lemma_actionable(nodes, nodes.len());
    assert(nodes.take(nodes.len() as int) =~= nodes);
}

proof fn lemma_actionable(nodes: Seq<AxNode>, upto: nat)
    requires
        upto <= nodes.len(),
    ensures
        actionable_below(nodes, upto) == nodes.take(upto as int).filter(
            |n: AxNode| n.actionable,
        ).len(),
    decreases upto,
{
    reveal(Seq::filter);
    if upto > 0 {
        lemma_actionable(nodes, (upto - 1) as nat);
        assert(nodes.take(upto as int).drop_last() =~= nodes.take(upto - 1));
        assert(nodes.take(upto as int).last() == nodes[upto - 1]);
    } else {
        assert(nodes.take(0) =~= Seq::<AxNode>::empty());
    }
}

// -- what an action changed --------------------------------------------------------------------

/// A re-read is compared with the tree of the same window and with nothing else: the tree comes
/// back as it was, and a reason that was given before stays the reason.
pub proof fn law_a_re_read_is_compared_with_its_own_window(
    tree: Seq<char>,
    before: Option<u32>,
    after: Option<u32>,
    why: Seq<char>,
)
    ensures
        before is Some && before == after ==> comparable(Ok((tree, before)), after) == Ok::<
            Seq<char>,
            Seq<char>,
        >(tree),
        before is None || before != after ==> comparable(Ok((tree, before)), after) is Err,
        comparable(Err(why), after) == Err::<Seq<char>, Seq<char>>(why),
{
}

/// A basis is the outline of the snapshot itself and the window it was of.
pub proof fn law_a_basis_is_the_snapshot_as_it_was(
    found: bool,
    snapshot: Option<Snapshot>,
    usual: Limits,
)
    ensures
        basis(found, snapshot, usual) is Ok ==> found && snapshot is Some && basis(
            found,
            snapshot,
            usual,
        )->Ok_0.1 == (match snapshot->0.window {
            Some(w) => Some(w.id),
            None => None,
        }),
        basis(found, snapshot, usual) is Ok <==> found && snapshot is Some
            && !snapshot->0.scoped && snapshot->0.limits == usual && snapshot->0.complete
            && !snapshot->0.acted_on,
{
}

/// Counting an id is counting it in the list as a multiset.
proof fn lemma_id_count(ids: Seq<u32>, id: u32)
    ensures
        id_count(ids, id) == ids.to_multiset().count(id),
    decreases ids.len(),
{
    broadcast use vstd::seq_lib::group_to_multiset_ensures;

    if ids.len() > 0 {
        lemma_id_count(ids.drop_last(), id);
        assert(ids.drop_last().push(ids.last()) =~= ids);
    } else {
        assert(ids =~= Seq::<u32>::empty());
    }
}

/// Two lists of pop-ups are the same exactly where they hold the same ids, each as often, in
/// whatever order.
pub proof fn law_popups_are_the_same_in_any_order(a: Seq<u32>, b: Seq<u32>)
    ensures
        same_ids(a, b) <==> a.to_multiset() == b.to_multiset(),
{
    assert forall|id: u32| true implies #[trigger] id_count(a, id) == a.to_multiset().count(id)
        && id_count(b, id) == b.to_multiset().count(id) by {
        lemma_id_count(a, id);
        lemma_id_count(b, id);
    }
    if same_ids(a, b) {
        assert forall|id: u32| a.to_multiset().count(id) == b.to_multiset().count(id) by {
            assert(id_count(a, id) == id_count(b, id));
        }
        assert(a.to_multiset() =~= b.to_multiset());
    }
}

/// What an action changed is told by what could be compared: a pop-up that came or went is a
/// change; without one, the two fingerprints decide where both were read; and where they were not,
/// nothing is known.
pub proof fn law_a_change_is_what_can_be_seen_to_differ(
    before: Option<Seq<char>>,
    seen: Option<Seq<u32>>,
    after: Option<Seq<char>>,
    up: Seq<TransientWindow>,
)
    ensures
        ({
            let now = up.map_values(|p: TransientWindow| p.id);
            let moved = seen is Some && seen->0.to_multiset() != now.to_multiset();
            let r = observed(before, seen, after, up);
            &&& r == Observed::Changed <==> moved || (before is Some && after is Some && before->0
                != after->0)
            &&& r == Observed::Unchanged <==> !moved && before is Some && after is Some
                && before->0 == after->0
            &&& r == Observed::Unknown <==> !moved && (before is None || after is None)
        }),
{
    if seen is Some {
        law_popups_are_the_same_in_any_order(seen->0, ids_of(up));
    }
    assert(ids_of(up) =~= up.map_values(|p: TransientWindow| p.id));
}

/// A fingerprint moves with each of its parts: where the title of the window, the role or the title
/// of the focused element differs and the other two do not, the fingerprints differ. There is none
/// exactly where the app said nothing.
pub proof fn law_a_fingerprint_moves_with_each_part(
    window: Seq<char>,
    role: Seq<char>,
    title: Seq<char>,
    other: Seq<char>,
)
    ensures
        window != other ==> fingerprint(Some(window), Some(role), Some(title)) != fingerprint(
            Some(other),
            Some(role),
            Some(title),
        ),
        role != other ==> fingerprint(Some(window), Some(role), Some(title)) != fingerprint(
            Some(window),
            Some(other),
            Some(title),
        ),
        title != other ==> fingerprint(Some(window), Some(role), Some(title)) != fingerprint(
            Some(window),
            Some(role),
            Some(other),
        ),
        fingerprint(Some(window), Some(role), Some(title)) is None <==> window.len() == 0
            && role.len() == 0 && title.len() == 0,
        fingerprint(None, Some(role), Some(title)) == fingerprint(
            Some(Seq::empty()),
            Some(role),
            Some(title),
        ),
        fingerprint(Some(window), None, None) == fingerprint(
            Some(window),
            Some(Seq::empty()),
            Some(Seq::empty()),
        ),
{
    reveal_strlit("|");
    reveal_strlit("||");
    let bar = "|"@;
    let text = window + bar + role + bar + title;
    let a = other + bar + role + bar + title;
    let b = window + bar + other + bar + title;
    let c = window + bar + role + bar + other;
    let tail = bar + role + bar + title;
    assert(text =~= window + tail && a =~= other + tail);
    lemma_ends_cancel(Seq::empty(), window, other, tail);
    lemma_ends_cancel(window + bar, role, other, bar + title);
    lemma_ends_cancel(window + bar + role + bar, title, other, Seq::empty());
    assert(Seq::<char>::empty() + window + tail =~= text);
    assert(Seq::<char>::empty() + other + tail =~= a);
    assert(window + bar + role + (bar + title) =~= text);
    assert(window + bar + other + (bar + title) =~= b);
    assert(window + bar + role + bar + title + Seq::<char>::empty() =~= text);
    assert(window + bar + role + bar + other + Seq::<char>::empty() =~= c);
    if text == "||"@ {
        assert(text.len() == 2);
    }
    if window.len() == 0 && role.len() == 0 && title.len() == 0 {
        assert(text =~= "||"@);
    }
}

proof fn lemma_ends_cancel(start: Seq<char>, x: Seq<char>, y: Seq<char>, end: Seq<char>)
    ensures
        start + x + end == start + y + end ==> x == y,
{
    let a = start + x + end;
    let b = start + y + end;
    if a == b {
        assert(a.len() == b.len());
        assert forall|i: int| 0 <= i < x.len() implies x[i] == y[i] by {
            assert(a[start.len() + i] == x[i]);
            assert(b[start.len() + i] == y[i]);
        }
        assert(x =~= y);
    }
}

// -- notes -------------------------------------------------------------------------------------

/// A walk starts where it is asked to exactly where it is asked for nothing in particular, or for
/// an element of the current snapshot of the same process.
pub proof fn law_a_walk_starts_at_an_element_that_is_there(
    reading: Reading,
    snapshot: Option<Snapshot>,
)
    ensures
        ({
            let e = reading.root_objection(snapshot);
            let scope = reading.opts.scope;
            let app = reading.info.name@;
            &&& e is None <==> scope is None || {
                &&& snapshot is Some
                &&& snapshot->0.process_key == reading.key
                &&& scope->0 < snapshot->0.nodes@.len()
            }
            &&& scope is Some && snapshot is None ==> e == Some(CoreErrorText::NoSnapshot { app })
            &&& scope is Some && snapshot is Some && snapshot->0.process_key != reading.key ==> e
                == Some(CoreErrorText::ProcessReplaced { app })
            &&& e is Some && snapshot is Some && snapshot->0.process_key == reading.key ==> e == Some(
                CoreErrorText::BadIndex { index: scope->0, count: snapshot->0.nodes.len() },
            )
        }),
{
}

/// An enumeration of windows is noted exactly where it failed, by its reason, or where the app has
/// pop-ups up, by their number.
pub proof fn law_popups_are_noted_by_their_number(
    reading: Reading,
    windows: Seq<WindowInfo>,
    reason: Seq<char>,
)
    ensures
        reading.window_notes(Err(reason)) == seq![reason],
        ({
            let count = windows.filter(
                |w: WindowInfo| w.pid == reading.info.pid && w.popup,
            ).len();
            let notes = reading.window_notes(Ok(windows));
            &&& count == 0 ==> notes.len() == 0
            &&& count > 0 ==> notes.len() == 1 && has_part(
                notes[0],
                "this app has "@ + numeral(count),
            )
        }),
{
    broadcast use law_a_longer_text_holds_what_it_held;

    law_popups_are_counted_and_ordered(windows, reading.info.pid, None);
    let count = windows.filter(|w: WindowInfo| w.pid == reading.info.pid && w.popup).len();
    let said = "this app has "@ + numeral(count);
    assert(Seq::<char>::empty() + said =~= said);
    assert(has_part(Seq::<char>::empty() + said, said));
}

/// What could not be read or compared after an action is noted with the reason.
pub proof fn law_what_could_not_be_compared_is_noted(e: CoreErrorText, why: Seq<char>)
    ensures
        has_part(unobserved_note(e), e.sentence()),
        has_part(no_diff_note(why), why),
{
    broadcast use law_a_longer_text_holds_what_it_held;

    assert(Seq::<char>::empty() + why =~= why);
    assert(has_part(Seq::<char>::empty() + why, why));
}

/// A read goes by the options that were asked for, in all but one thing: pixels are taken exactly
/// where they were asked for and the app is not one whose pixels are withheld.
pub proof fn law_a_read_goes_by_what_was_asked(
    info: AppInfo,
    opts: StateOptions,
    allow_forbidden: bool,
)
    ensures
        ({
            let r = reading_options(info, opts, allow_forbidden);
            &&& r.include_screenshot <==> opts.include_screenshot && (allow_forbidden
                || info.bundle_id is None || forbidden_reason(info.bundle_id->0@) is None)
            &&& r.limits == opts.limits
            &&& r.render == opts.render
            &&& r.max_image_dim == opts.max_image_dim
            &&& r.scope == opts.scope
        }),
{
}

/// What is read after an action is rendered plainly: without frames, without layout, without notes
/// on omissions, and not as a skeleton.
pub proof fn law_a_read_after_an_action_is_rendered_plainly()
    ensures
        !plain_render().include_noise,
        !plain_render().include_frames,
        !plain_render().note_omissions,
        !plain_render().skeleton,
{
}

} // verus!
