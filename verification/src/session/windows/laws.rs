//! Which windows are told of, which one is picked, and which element a point names.
use vstd::prelude::*;
use crate::decimal::{numeral, signed_numeral};
use crate::order::{law_ranked_sorts, Ranked};
use crate::session::windows::{
    current_window, first_live_below, hit_of, is_best_match, is_candidate, is_hit,
    law_the_hit_is_unique, live_window, popup_id_list, popups, popups_below, HitFacts,
    TransientWindow, WindowInfo,
};
use crate::text::has_part;
use crate::text::laws::law_a_part_is_found;

verus! {

// -- transient windows -------------------------------------------------------------------------

spec fn as_popup(w: WindowInfo, seen: Option<Seq<u32>>) -> TransientWindow {
    TransientWindow {
        id: w.id,
        layer: w.layer,
        frame: w.frame,
        appeared: match seen {
            Some(ids) => Some(!ids.contains(w.id)),
            None => None,
        },
    }
}

proof fn lemma_popups_below(
    windows: Seq<WindowInfo>,
    pid: i32,
    seen: Option<Seq<u32>>,
    upto: nat,
)
    requires
        upto <= windows.len(),
    ensures
        popups_below(windows, pid, seen, upto) == windows.take(upto as int).filter(
            |w: WindowInfo| w.pid == pid && w.popup,
        ).map_values(|w: WindowInfo| as_popup(w, seen)),
    decreases upto,
{
    reveal(Seq::filter);
    let mine = |w: WindowInfo| w.pid == pid && w.popup;
    if upto > 0 {
        lemma_popups_below(windows, pid, seen, (upto - 1) as nat);
        let all = windows.take(upto as int);
        assert(all.drop_last() =~= windows.take(upto - 1));
        assert(all.last() == windows[upto - 1]);
        let earlier = windows.take(upto - 1).filter(mine);
        assert(earlier.push(all.last()).map_values(|w: WindowInfo| as_popup(w, seen))
            =~= earlier.map_values(|w: WindowInfo| as_popup(w, seen)).push(
            as_popup(all.last(), seen),
        ));
    } else {
        assert(windows.take(0).filter(mine) =~= Seq::<WindowInfo>::empty());
        assert(popups_below(windows, pid, seen, upto) =~= windows.take(0).filter(mine).map_values(
            |w: WindowInfo| as_popup(w, seen),
        ));
    }
}

proof fn lemma_filter_keeps(windows: Seq<WindowInfo>, pid: i32, i: int)
    requires
        0 <= i < windows.len(),
        windows[i].pid == pid,
        windows[i].popup,
    ensures
        windows.filter(|w: WindowInfo| w.pid == pid && w.popup).contains(windows[i]),
    decreases windows.len(),
{
    reveal(Seq::filter);
    let mine = |w: WindowInfo| w.pid == pid && w.popup;
    let front = windows.drop_last();
    if i < front.len() {
        lemma_filter_keeps(front, pid, i);
        let at = choose|at: int|
            0 <= at < front.filter(mine).len() && front.filter(mine)[at] == windows[i];
        assert(windows.filter(mine)[at] == windows[i]);
    } else {
        assert(windows.filter(mine).last() == windows[i]);
    }
}

/// Every pop-up of the process is told of, with its level and its frame, one for each, the topmost
/// first and of one level the newest. It is told to have appeared exactly where somebody looked
/// before and did not see it.
pub proof fn law_every_popup_is_told_of(
    windows: Seq<WindowInfo>,
    pid: i32,
    seen: Option<Seq<u32>>,
    i: int,
)
    requires
        0 <= i < windows.len(),
        windows[i].pid == pid,
        windows[i].popup,
    ensures
        exists|k: int|
            {
                &&& 0 <= k < popups(windows, pid, seen).len()
                &&& (#[trigger] popups(windows, pid, seen)[k]).id == windows[i].id
                &&& popups(windows, pid, seen)[k].layer == windows[i].layer
                &&& popups(windows, pid, seen)[k].frame == windows[i].frame
                &&& popups(windows, pid, seen)[k].appeared is Some <==> seen is Some
                &&& seen is Some ==> (popups(windows, pid, seen)[k].appeared->0
                    <==> !seen->0.contains(windows[i].id))
            },
{
    broadcast use vstd::seq_lib::group_to_multiset_ensures;

    let listed = popups_below(windows, pid, seen, windows.len());
    let mine = windows.filter(|w: WindowInfo| w.pid == pid && w.popup);
    lemma_popups_below(windows, pid, seen, windows.len());
    assert(windows.take(windows.len() as int) =~= windows);
    lemma_filter_keeps(windows, pid, i);
    let at = choose|at: int| 0 <= at < mine.len() && mine[at] == windows[i];
    assert(listed[at] == as_popup(windows[i], seen));
    assert(listed.contains(listed[at]));
    law_ranked_sorts(listed);
    let all = popups(windows, pid, seen);
    assert(listed.to_multiset().count(listed[at]) > 0);
    assert(all.to_multiset().count(listed[at]) > 0);
    assert(all.contains(listed[at]));
    let k = choose|k: int| 0 <= k < all.len() && all[k] == listed[at];
    assert(popups(windows, pid, seen)[k].id == windows[i].id);
}

/// As many pop-ups are told of as the process has, and their order is by level, then by age.
pub proof fn law_popups_are_counted_and_ordered(
    windows: Seq<WindowInfo>,
    pid: i32,
    seen: Option<Seq<u32>>,
)
    ensures
        popups(windows, pid, seen).len() == windows.filter(
            |w: WindowInfo| w.pid == pid && w.popup,
        ).len(),
        popup_id_list(windows, pid) == windows.filter(
            |w: WindowInfo| w.pid == pid && w.popup,
        ).map_values(|w: WindowInfo| w.id),
        forall|a: int, b: int|
            #![trigger popups(windows, pid, seen)[a], popups(windows, pid, seen)[b]]
            0 <= a < b < popups(windows, pid, seen).len() ==> {
                ||| popups(windows, pid, seen)[a].layer > popups(windows, pid, seen)[b].layer
                ||| popups(windows, pid, seen)[a].layer == popups(windows, pid, seen)[b].layer
                    && popups(windows, pid, seen)[a].id >= popups(windows, pid, seen)[b].id
            },
{
    broadcast use vstd::seq_lib::group_to_multiset_ensures;

    let listed = popups_below(windows, pid, seen, windows.len());
    lemma_popups_below(windows, pid, seen, windows.len());
    lemma_popups_below(windows, pid, None, windows.len());
    assert(windows.take(windows.len() as int) =~= windows);
    law_ranked_sorts(listed);
    let all = popups(windows, pid, seen);
    assert(all.len() == all.to_multiset().len());
    assert(listed.len() == listed.to_multiset().len());
    assert forall|a: int, b: int|
        #![trigger all[a], all[b]]
        0 <= a < b < all.len() implies {
        ||| all[a].layer > all[b].layer
        ||| all[a].layer == all[b].layer && all[a].id >= all[b].id
    } by {
        assert(!all[b].before(all[a]));
    }
    assert(popup_id_list(windows, pid) =~= windows.filter(
        |w: WindowInfo| w.pid == pid && w.popup,
    ).map_values(|w: WindowInfo| w.id));
}

// -- the window a snapshot is of ---------------------------------------------------------------

/// With an accessibility frame to go by, a snapshot is of the plausible window of the process whose
/// frame is nearest to it; of equally near ones, of one that is on screen; and then of the first.
pub proof fn law_a_snapshot_is_of_the_nearest_window(
    windows: Seq<WindowInfo>,
    pid: i32,
    distances: Seq<i64>,
    i: int,
)
    requires
        distances.len() == windows.len(),
        0 <= i < windows.len(),
    ensures
        is_best_match(windows, pid, Some(distances), i) <==> {
            &&& windows[i].pid == pid
            &&& windows[i].plausible
            &&& forall|j: int|
                0 <= j < windows.len() && (#[trigger] windows[j]).pid == pid && windows[j].plausible
                    ==> {
                    ||| distances[i] < distances[j]
                    ||| distances[i] == distances[j] && windows[i].on_screen
                        && !windows[j].on_screen
                    ||| distances[i] == distances[j] && windows[i].on_screen == windows[j].on_screen
                        && i <= j
                }
        },
{
}

/// Without such a frame a snapshot is of an ordinary window of the process: of one that is on
/// screen rather than one that is not, then of the largest, and then of the first.
pub proof fn law_without_a_frame_the_largest_window_is_taken(
    windows: Seq<WindowInfo>,
    pid: i32,
    i: int,
)
    requires
        0 <= i < windows.len(),
    ensures
        is_best_match(windows, pid, None, i) <==> {
            &&& windows[i].pid == pid
            &&& windows[i].plausible
            &&& windows[i].layer == 0
            &&& forall|j: int|
                0 <= j < windows.len() && (#[trigger] windows[j]).pid == pid && windows[j].plausible
                    && windows[j].layer == 0 ==> {
                    ||| windows[i].on_screen && !windows[j].on_screen
                    ||| windows[i].on_screen == windows[j].on_screen && windows[i].area
                        > windows[j].area
                    ||| windows[i].on_screen == windows[j].on_screen && windows[i].area
                        == windows[j].area && i <= j
                }
        },
{
}

/// A window can be told apart from what it is not: of another process, or not plausible, it is
/// never a candidate, and above or below the ordinary level only where there is a frame to go by.
pub proof fn law_only_windows_of_the_process_are_candidates(w: WindowInfo, pid: i32, framed: bool)
    ensures
        w.pid != pid ==> !is_candidate(w, pid, framed),
        !w.plausible ==> !is_candidate(w, pid, framed),
        w.layer != 0 && !framed ==> !is_candidate(w, pid, framed),
        w.pid == pid && w.plausible && w.layer == 0 ==> is_candidate(w, pid, framed),
        w.pid == pid && w.plausible ==> is_candidate(w, pid, true),
{
}

// -- the window an event may carry -------------------------------------------------------------

proof fn lemma_first_live_at(windows: Seq<WindowInfo>, wid: u32, pid: i32, i: int, upto: nat)
    requires
        0 <= i < upto <= windows.len(),
        windows[i].id == wid && windows[i].pid == pid && windows[i].addressable,
        forall|j: int|
            0 <= j < i ==> !((#[trigger] windows[j]).id == wid && windows[j].pid == pid
                && windows[j].addressable),
    ensures
        first_live_below(windows, wid, pid, upto) == Some(i),
    decreases upto,
{
    if i + 1 < upto {
        lemma_first_live_at(windows, wid, pid, i, (upto - 1) as nat);
    } else {
        lemma_none_live(windows, wid, pid, i as nat);
    }
}

proof fn lemma_none_live(windows: Seq<WindowInfo>, wid: u32, pid: i32, upto: nat)
    requires
        upto <= windows.len(),
        forall|j: int|
            0 <= j < upto ==> !((#[trigger] windows[j]).id == wid && windows[j].pid == pid
                && windows[j].addressable),
    ensures
        first_live_below(windows, wid, pid, upto) is None,
    decreases upto,
{
    if upto > 0 {
        lemma_none_live(windows, wid, pid, (upto - 1) as nat);
    }
}

/// The first window under the id, of the process, that may be addressed is the one an event
/// carries; and where the point has to lie in it, the same one exactly where the point does.
pub proof fn law_the_live_window_is_found(
    windows: Seq<WindowInfo>,
    holds: Seq<bool>,
    wid: u32,
    pid: i32,
    at: Seq<char>,
    i: int,
)
    requires
        holds.len() == windows.len(),
        0 <= i < windows.len(),
        windows[i].id == wid,
        windows[i].pid == pid,
        windows[i].addressable,
        forall|j: int|
            0 <= j < i ==> !((#[trigger] windows[j]).id == wid && windows[j].pid == pid
                && windows[j].addressable),
    ensures
        live_window(windows, wid, pid) == Ok::<WindowInfo, Seq<char>>(windows[i]),
        holds[i] ==> current_window(windows, holds, wid, pid, at) == Ok::<WindowInfo, Seq<char>>(
            windows[i],
        ),
        !holds[i] ==> {
            let r = current_window(windows, holds, wid, pid, at);
            &&& r is Err
            &&& has_part(r->Err_0, at)
            &&& has_part(r->Err_0, numeral(wid as nat))
            &&& has_part(r->Err_0, windows[i].frame_text@)
        },
{
    lemma_first_live_at(windows, wid, pid, i, windows.len());
    if !holds[i] {
        let r = current_window(windows, holds, wid, pid, at);
        let a = "target point "@;
        let b = " is outside the current frame of window "@;
        let n = numeral(wid as nat);
        let f = windows[i].frame_text@;
        let e = "); the AX element and window snapshot drifted apart. Call get_app_state again"@;
        law_a_part_is_found(a, at, b + n + " ("@ + f + e);
        assert(r->Err_0 =~= a + at + (b + n + " ("@ + f + e));
        law_a_part_is_found(a + at + b, n, " ("@ + f + e);
        assert(r->Err_0 =~= a + at + b + n + (" ("@ + f + e));
        law_a_part_is_found(a + at + b + n + " ("@, f, e);
    }
}

/// Where no window is under the id, of the process and addressable, nothing is stamped with one,
/// and what is said names both.
pub proof fn law_a_window_that_is_gone_is_not_stamped(
    windows: Seq<WindowInfo>,
    holds: Seq<bool>,
    wid: u32,
    pid: i32,
    at: Seq<char>,
)
    requires
        forall|j: int|
            0 <= j < windows.len() ==> !((#[trigger] windows[j]).id == wid && windows[j].pid == pid
                && windows[j].addressable),
    ensures
        live_window(windows, wid, pid) is Err,
        current_window(windows, holds, wid, pid, at) == live_window(windows, wid, pid),
        has_part(live_window(windows, wid, pid)->Err_0, numeral(wid as nat)),
        has_part(live_window(windows, wid, pid)->Err_0, signed_numeral(pid as int)),
{
    lemma_none_live(windows, wid, pid, windows.len());
    let said = live_window(windows, wid, pid)->Err_0;
    let a = "window "@;
    let b = " does not currently belong to pid "@;
    let n = numeral(wid as nat);
    let p = signed_numeral(pid as int);
    let e = "; it was closed, replaced, its id was recycled, or it is not an ordinary application \
        window. Call get_app_state again and use the window_id it reports"@;
    law_a_part_is_found(a, n, b + p + e);
    assert(said =~= a + n + (b + p + e));
    law_a_part_is_found(a + n + b, p, e);
}

// -- the element at a point --------------------------------------------------------------------

/// A point names an element that covers it: one that takes an action rather than one that does not,
/// then the one with the smallest frame, then the deepest, then the first.
pub proof fn law_a_point_names_the_most_specific_element(nodes: Seq<HitFacts>, i: int)
    requires
        nodes.len() <= usize::MAX,
        0 <= i < nodes.len(),
        nodes[i].covers,
        forall|j: int|
            0 <= j < nodes.len() && (#[trigger] nodes[j]).covers ==> {
                ||| nodes[i].actionable && !nodes[j].actionable
                ||| nodes[i].actionable == nodes[j].actionable && nodes[i].area < nodes[j].area
                ||| nodes[i].actionable == nodes[j].actionable && nodes[i].area == nodes[j].area
                    && nodes[i].depth > nodes[j].depth
                ||| nodes[i].actionable == nodes[j].actionable && nodes[i].area == nodes[j].area
                    && nodes[i].depth == nodes[j].depth && i <= j
            },
    ensures
        hit_of(nodes) == Some(i as usize),
{
    assert(is_hit(nodes, i));
    law_the_hit_is_unique(nodes, i, choose|k: int| is_hit(nodes, k));
}

/// The element that a point names covers the point.
pub proof fn law_a_point_names_only_what_covers_it(nodes: Seq<HitFacts>, i: int)
    requires
        nodes.len() <= usize::MAX,
        hit_of(nodes) == Some(i as usize),
        0 <= i < nodes.len(),
    ensures
        nodes[i].covers,
{
    let k = choose|k: int| is_hit(nodes, k);
    assert(is_hit(nodes, k));
}

} // verus!
