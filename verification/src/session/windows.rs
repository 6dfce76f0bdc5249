//! Windows: which one a snapshot is of, which one an event may carry, and what pops up above them.
use vstd::prelude::*;
use crate::decimal::{decimal, numeral, signed_decimal, signed_numeral};
use crate::order::{law_ranked_sorts, ranked, sort, Ranked};
use crate::text::{owned, told};

pub mod laws;

verus! {

/// A rectangle, as the bit patterns of its four floating point numbers. It is only carried.
#[derive(Debug, Clone, Copy, PartialEq, Eq, Structural)]
pub struct FrameBits {
    pub x: u64,
    pub y: u64,
    pub width: u64,
    pub height: u64,
}

/// A point, as the bit patterns of its two floating point numbers. It is only carried.
#[derive(Debug, Clone, Copy, PartialEq, Eq, Structural)]
pub struct PointBits {
    pub x: u64,
    pub y: u64,
}

/// One window, as the window server lists it.
#[derive(Debug, Clone)]
pub struct WindowInfo {
    pub id: u32,
    pub title: Option<String>,
    pub pid: i32,
    pub frame: FrameBits,
    /// How the frame reads in whole points, as in `500,300 800x600`.
    pub frame_text: String,
    /// How the size reads in whole points, as in `800x600`.
    pub size_text: String,
    /// A number that orders windows by area.
    pub area: i64,
    pub on_screen: bool,
    pub layer: i64,
    /// Whether a snapshot may be of this window.
    pub plausible: bool,
    /// Whether an event may be stamped with this window.
    pub addressable: bool,
    /// Whether this is transient UI: a menu, a context menu, a popover.
    pub popup: bool,
}

impl WindowInfo {
    /// An equal window.
    pub fn copied(&self) -> (r: WindowInfo)
        ensures
            r == *self,
    {
        WindowInfo {
            id: self.id,
            title: match &self.title {
                Some(t) => Some(t.clone()),
                None => None,
            },
            pid: self.pid,
            frame: self.frame,
            frame_text: self.frame_text.clone(),
            size_text: self.size_text.clone(),
            area: self.area,
            on_screen: self.on_screen,
            layer: self.layer,
            plausible: self.plausible,
            addressable: self.addressable,
            popup: self.popup,
        }
    }
}

// -- transient windows -------------------------------------------------------------------------

/// A window of the target app that sits above ordinary content. It has a place and nothing else:
/// accessibility does not describe it.
#[derive(Debug, Clone, Copy, PartialEq, Eq, Structural)]
pub struct TransientWindow {
    pub id: u32,
    pub layer: i64,
    pub frame: FrameBits,
    /// Whether this window was absent the last time anyone looked. `None` means that nobody did.
    pub appeared: Option<bool>,
}

impl Ranked for TransientWindow {
    /// The topmost first: by level, then the newest.
    open spec fn before(self, other: TransientWindow) -> bool {
        self.layer > other.layer || (self.layer == other.layer && self.id > other.id)
    }

    fn is_before(&self, other: &TransientWindow) -> (r: bool) {
        self.layer > other.layer || (self.layer == other.layer && self.id > other.id)
    }

    proof fn before_orders(a: TransientWindow, b: TransientWindow, c: TransientWindow) {
    }
}

/// Whether a window is transient UI of a process.
pub open spec fn is_popup_of(w: WindowInfo, pid: i32) -> bool {
    w.pid == pid && w.popup
}

/// The transient UI of a process among the first `upto` windows, in their order.
pub open spec fn popups_below(
    windows: Seq<WindowInfo>,
    pid: i32,
    seen: Option<Seq<u32>>,
    upto: nat,
) -> Seq<TransientWindow>
    decreases upto,
{
    if upto == 0 {
        Seq::empty()
    } else {
        let earlier = popups_below(windows, pid, seen, (upto - 1) as nat);
        let w = windows[upto - 1];
        if is_popup_of(w, pid) {
            earlier.push(
                TransientWindow {
                    id: w.id,
                    layer: w.layer,
                    frame: w.frame,
                    appeared: match seen {
                        Some(ids) => Some(!ids.contains(w.id)),
                        None => None,
                    },
                },
            )
        } else {
            earlier
        }
    }
}

/// The transient UI of a process, the topmost first.
pub open spec fn popups(
    windows: Seq<WindowInfo>,
    pid: i32,
    seen: Option<Seq<u32>>,
) -> Seq<TransientWindow> {
    ranked(popups_below(windows, pid, seen, windows.len()))
}

/// The window ids of the transient UI of a process, in the order of the list.
pub open spec fn popup_id_list(windows: Seq<WindowInfo>, pid: i32) -> Seq<u32> {
    popups_below(windows, pid, None, windows.len()).map_values(|p: TransientWindow| p.id)
}

/// The view of an optional list of ids.
pub open spec fn ids_view(ids: Option<&Vec<u32>>) -> Option<Seq<u32>> {
    match ids {
        Some(v) => Some(v@),
        None => None,
    }
}

/// Whether an id is in a list.
pub fn has_id(ids: &Vec<u32>, id: u32) -> (r: bool)
    ensures
        r == ids@.contains(id),
{
    let mut i: usize = 0;
    while i < ids.len()
        invariant
            i <= ids@.len(),
            forall|j: int| 0 <= j < i ==> ids@[j] != id,
        decreases ids@.len() - i,
    {
        if ids[i] == id {
            assert(ids@[i as int] == id);
            return true;
        }
        i += 1;
    }
    false
}

/// Window ids of the transient UI one process currently has up.
pub fn popup_ids(windows: &[WindowInfo], pid: i32) -> (r: Vec<u32>)
    ensures
        r@ == popup_id_list(windows@, pid),
{
    let mut out: Vec<u32> = Vec::new();
    let mut i: usize = 0;
    assert(out@ == popups_below(windows@, pid, None, 0).map_values(|p: TransientWindow| p.id));
    while i < windows.len()
        invariant
            i <= windows@.len(),
            out@ == popups_below(windows@, pid, None, i as nat).map_values(
                |p: TransientWindow| p.id,
            ),
        decreases windows@.len() - i,
    {
        if windows[i].pid == pid && windows[i].popup {
            out.push(windows[i].id);
        }
        i += 1;
    }
    out
}

/// The transient UI one process currently has up, topmost first.
///
/// A caller looking at a stack of menus has to know which one is in front, because that is the one
/// a coordinate will reach. `before` holds the ids seen the last time anyone looked.
pub fn transient_popups(windows: &[WindowInfo], pid: i32, before: Option<&Vec<u32>>) -> (r: Vec<
    TransientWindow,
>)
    ensures
        r@ == popups(windows@, pid, ids_view(before)),
{
    let mut out: Vec<TransientWindow> = Vec::new();
    let mut i: usize = 0;
    while i < windows.len()
        invariant
            i <= windows@.len(),
            out@ == popups_below(windows@, pid, ids_view(before), i as nat),
        decreases windows@.len() - i,
    {
        let w = &windows[i];
        if w.pid == pid && w.popup {
            let appeared = match before {
                Some(ids) => Some(!has_id(ids, w.id)),
                None => None,
            };
            out.push(TransientWindow { id: w.id, layer: w.layer, frame: w.frame, appeared });
        }
        i += 1;
    }
    sort(out)
}

// -- the window a snapshot is of ---------------------------------------------------------------

/// Whether a window can be the one that a snapshot of a process is of. Without an accessibility
/// frame to compare with, only ordinary windows are considered: a menu picked here would have its
/// number stamped onto clicks meant for content.
pub open spec fn is_candidate(w: WindowInfo, pid: i32, framed: bool) -> bool {
    w.pid == pid && w.plausible && (framed || w.layer == 0)
}

/// Whether one window is a strictly better match than another: closer to the accessibility frame,
/// and on screen where they are equally close. Without such a frame the largest window on screen is
/// the best guess: on screen first, then larger.
pub open spec fn is_better(
    windows: Seq<WindowInfo>,
    distances: Option<Seq<i64>>,
    i: int,
    j: int,
) -> bool {
    match distances {
        Some(d) => d[i] < d[j] || (d[i] == d[j] && windows[i].on_screen && !windows[j].on_screen),
        None => (windows[i].on_screen && !windows[j].on_screen) || (windows[i].on_screen
            == windows[j].on_screen && windows[i].area > windows[j].area),
    }
}

/// Whether a window is the best match: no candidate is better, and none before it is as good.
pub open spec fn is_best_match(
    windows: Seq<WindowInfo>,
    pid: i32,
    distances: Option<Seq<i64>>,
    i: int,
) -> bool {
    &&& 0 <= i < windows.len()
    &&& is_candidate(windows[i], pid, distances is Some)
    &&& forall|j: int|
        0 <= j < windows.len() && is_candidate(#[trigger] windows[j], pid, distances is Some)
            ==> !is_better(windows, distances, j, i) && (j < i ==> is_better(
            windows,
            distances,
            i,
            j,
        ))
}

/// The view of optional distances.
pub open spec fn distances_view(d: Option<&Vec<i64>>) -> Option<Seq<i64>> {
    match d {
        Some(v) => Some(v@),
        None => None,
    }
}

/// Picks the window that corresponds to an accessibility window.
///
/// `distances` holds, for each window, a number that orders the windows by how far their frame is
/// from the accessibility frame, where there is one.
pub fn best_window_match(
    windows: &[WindowInfo],
    pid: i32,
    distances: Option<&Vec<i64>>,
) -> (r: Option<WindowInfo>)
    requires
        distances is Some ==> distances->0@.len() == windows@.len(),
    ensures
        match r {
            Some(w) => exists|i: int|
                is_best_match(windows@, pid, distances_view(distances), i) && windows@[i] == w,
            None => forall|i: int|
                0 <= i < windows@.len() ==> !is_candidate(
                    #[trigger] windows@[i],
                    pid,
                    distances is Some,
                ),
        },
{
    let ghost far = distances_view(distances);
    let mut best: Option<usize> = None;
    let mut i: usize = 0;
    while i < windows.len()
        invariant
            i <= windows@.len(),
            far == distances_view(distances),
            distances is Some ==> distances->0@.len() == windows@.len(),
            match best {
                Some(b) => {
                    &&& b < i
                    &&& is_candidate(windows@[b as int], pid, distances is Some)
                    &&& forall|j: int|
                        0 <= j < i && is_candidate(#[trigger] windows@[j], pid, distances is Some)
                            ==> !is_better(windows@, far, j, b as int) && (j < b ==> is_better(
                            windows@,
                            far,
                            b as int,
                            j,
                        ))
                },
                None => forall|j: int|
                    0 <= j < i ==> !is_candidate(#[trigger] windows@[j], pid, distances is Some),
            },
        decreases windows@.len() - i,
    {
        let w = &windows[i];
        if w.pid == pid && w.plausible && (distances.is_some() || w.layer == 0) {
            let better = match best {
                Some(b) => match distances {
                    Some(d) => d[i] < d[b] || (d[i] == d[b] && w.on_screen
                        && !windows[b].on_screen),
                    None => (w.on_screen && !windows[b].on_screen) || (w.on_screen
                        == windows[b].on_screen && w.area > windows[b].area),
                },
                None => true,
            };
            if better {
                best = Some(i);
            }
        }
        i += 1;
    }
    match best {
        Some(b) => {
            assert(is_best_match(windows@, pid, far, b as int));
            Some(windows[b].copied())
        },
        None => None,
    }
}

// -- the window an event may carry -------------------------------------------------------------

/// Whether a window is the live one of an id and a process that an event may be stamped with.
pub open spec fn is_live(w: WindowInfo, wid: u32, pid: i32) -> bool {
    w.id == wid && w.pid == pid && w.addressable
}

/// The position of the first live window among the first `upto`.
pub open spec fn first_live_below(
    windows: Seq<WindowInfo>,
    wid: u32,
    pid: i32,
    upto: nat,
) -> Option<int>
    decreases upto,
{
    if upto == 0 {
        None
    } else {
        match first_live_below(windows, wid, pid, (upto - 1) as nat) {
            Some(i) => Some(i),
            None => if is_live(windows[upto - 1], wid, pid) {
                Some(upto - 1)
            } else {
                None
            },
        }
    }
}

/// The position of the first live window.
pub open spec fn first_live(windows: Seq<WindowInfo>, wid: u32, pid: i32) -> Option<int> {
    first_live_below(windows, wid, pid, windows.len())
}

proof fn lemma_first_live_stays(windows: Seq<WindowInfo>, wid: u32, pid: i32, i: nat, upto: nat)
    requires
        i < upto,
        first_live_below(windows, wid, pid, i) is None,
        is_live(windows[i as int], wid, pid),
    ensures
        first_live_below(windows, wid, pid, upto) == Some(i as int),
    decreases upto,
{
    if i + 1 < upto {
        lemma_first_live_stays(windows, wid, pid, i, (upto - 1) as nat);
    }
}

/// What is said of a window that is not there.
pub open spec fn not_live_text(wid: u32, pid: i32) -> Seq<char> {
    "window "@ + numeral(wid as nat) + " does not currently belong to pid "@ + signed_numeral(
        pid as int,
    )
        + "; it was closed, replaced, its id was recycled, or it is not an ordinary application \
        window. Call get_app_state again and use the window_id it reports"@
}

/// The position of the one live window that an event may be stamped with.
///
/// Matching by id and process rejects both a closed window and a recycled id. A pop-up may be
/// addressed, the desktop, the menu bar and anything too small to hold a control may not.
pub fn live_window_index(windows: &[WindowInfo], wid: u32, pid: i32) -> (r: Result<usize, String>)
    ensures
        match r {
            Ok(i) => i < windows@.len() && first_live(windows@, wid, pid) == Some(i as int),
            Err(e) => first_live(windows@, wid, pid) is None && e@ == not_live_text(wid, pid),
        },
{
    let mut i: usize = 0;
    while i < windows.len()
        invariant
            i <= windows@.len(),
            first_live_below(windows@, wid, pid, i as nat) is None,
        decreases windows@.len() - i,
    {
        if windows[i].id == wid && windows[i].pid == pid && windows[i].addressable {
            proof {
                lemma_first_live_stays(windows@, wid, pid, i as nat, windows@.len());
            }
            return Ok(i);
        }
        i += 1;
    }
    let mut out = owned("window ");
    out.append(decimal(wid as u64).as_str());
    out.append(" does not currently belong to pid ");
    out.append(signed_decimal(pid as i64).as_str());
    out.append(
        "; it was closed, replaced, its id was recycled, or it is not an ordinary application \
        window. Call get_app_state again and use the window_id it reports",
    );
    Err(out)
}

/// The one live window that an event may be stamped with, or why there is none.
pub open spec fn live_window(windows: Seq<WindowInfo>, wid: u32, pid: i32) -> Result<
    WindowInfo,
    Seq<char>,
> {
    match first_live(windows, wid, pid) {
        Some(i) => Ok(windows[i]),
        None => Err(not_live_text(wid, pid)),
    }
}

/// Finds the one live window that an event may be stamped with.
pub fn live_window_for_pid_click(windows: &[WindowInfo], wid: u32, pid: i32) -> (r: Result<
    WindowInfo,
    String,
>)
    ensures
        told(r) == live_window(windows@, wid, pid),
{
    match live_window_index(windows, wid, pid) {
        Ok(i) => Ok(windows[i].copied()),
        Err(e) => Err(e),
    }
}

/// What is said of a target point outside its window.
pub open spec fn drifted_text(at: Seq<char>, w: WindowInfo) -> Seq<char> {
    "target point "@ + at + " is outside the current frame of window "@ + numeral(w.id as nat)
        + " ("@ + w.frame_text@
        + "); the AX element and window snapshot drifted apart. Call get_app_state again"@
}

/// The live window that holds a target point, or why there is none.
pub open spec fn current_window(
    windows: Seq<WindowInfo>,
    holds: Seq<bool>,
    wid: u32,
    pid: i32,
    at: Seq<char>,
) -> Result<WindowInfo, Seq<char>> {
    match first_live(windows, wid, pid) {
        None => Err(not_live_text(wid, pid)),
        Some(i) => if holds[i] {
            Ok(windows[i])
        } else {
            Err(drifted_text(at, windows[i]))
        },
    }
}

/// Revalidates the snapshot's window at the last possible point before input is delivered.
///
/// `holds` says of each live window whether the target point lies inside it. Where the point has
/// left the window, the element and the captured window have drifted apart and only a fresh
/// snapshot recovers.
pub fn current_window_for_pid_click(
    windows: &[WindowInfo],
    holds: &[bool],
    snapshot_wid: u32,
    pid: i32,
    at: &str,
) -> (r: Result<WindowInfo, String>)
    requires
        holds@.len() == windows@.len(),
    ensures
        told(r) == current_window(windows@, holds@, snapshot_wid, pid, at@),
{
    let i: usize = match live_window_index(windows, snapshot_wid, pid) {
        Ok(i) => i,
        Err(e) => {
            return Err(e);
        },
    };
    let w = &windows[i];
    if !holds[i] {
        let mut out = owned("target point ");
        out.append(at);
        out.append(" is outside the current frame of window ");
        out.append(decimal(w.id as u64).as_str());
        out.append(" (");
        out.append(w.frame_text.as_str());
        out.append(
            "); the AX element and window snapshot drifted apart. Call get_app_state again",
        );
        return Err(out);
    }
    Ok(w.copied())
}

// -- the element at a point --------------------------------------------------------------------

/// What a hit test reads of an element.
#[derive(Debug, Clone, Copy, PartialEq, Eq, Structural)]
pub struct HitFacts {
    /// Whether the element's frame covers the point.
    pub covers: bool,
    pub actionable: bool,
    /// A number that orders elements by the area of their frame.
    pub area: i64,
    pub depth: usize,
}

/// Whether one element is a strictly better hit than another: actionable before context, then the
/// smaller frame, then the deeper element.
pub open spec fn is_better_hit(a: HitFacts, b: HitFacts) -> bool {
    if a.actionable != b.actionable {
        a.actionable
    } else if a.area != b.area {
        a.area < b.area
    } else {
        a.depth > b.depth
    }
}

/// Whether an element is the one that a point names: it covers the point, no other that does is
/// better, and none before it is as good.
pub open spec fn is_hit(nodes: Seq<HitFacts>, i: int) -> bool {
    &&& 0 <= i < nodes.len()
    &&& nodes[i].covers
    &&& forall|j: int|
        0 <= j < nodes.len() && (#[trigger] nodes[j]).covers ==> !is_better_hit(nodes[j], nodes[i])
            && (j < i ==> is_better_hit(nodes[i], nodes[j]))
}

/// The element that a point names, where any covers it.
pub open spec fn hit_of(nodes: Seq<HitFacts>) -> Option<usize> {
    if exists|i: int| is_hit(nodes, i) {
        Some((choose|i: int| is_hit(nodes, i)) as usize)
    } else {
        None
    }
}

/// Picks the element that a coordinate names, from a snapshot's frames.
///
/// A coordinate means "press whatever is here", and the label drawn on top of a button is not a
/// thing that can be pressed. Among equals the smallest frame wins: overlapping frames are almost
/// always ancestor and descendant, and the descendant is the specific answer.
pub fn hit_test(nodes: &[HitFacts]) -> (r: Option<usize>)
    ensures
        r == hit_of(nodes@),
        match r {
            Some(i) => is_hit(nodes@, i as int),
            None => forall|i: int| 0 <= i < nodes@.len() ==> !(#[trigger] nodes@[i]).covers,
        },
{
    let mut best: Option<usize> = None;
    let mut i: usize = 0;
    while i < nodes.len()
        invariant
            i <= nodes@.len(),
            match best {
                Some(b) => {
                    &&& b < i
                    &&& nodes@[b as int].covers
                    &&& forall|j: int|
                        0 <= j < i && (#[trigger] nodes@[j]).covers ==> !is_better_hit(
                            nodes@[j],
                            nodes@[b as int],
                        ) && (j < b ==> is_better_hit(nodes@[b as int], nodes@[j]))
                },
                None => forall|j: int| 0 <= j < i ==> !(#[trigger] nodes@[j]).covers,
            },
        decreases nodes@.len() - i,
    {
        let n = nodes[i];
        if n.covers {
            let better = match best {
                Some(b) => {
                    let m = nodes[b];
                    if n.actionable != m.actionable {
                        n.actionable
                    } else if n.area != m.area {
                        n.area < m.area
                    } else {
                        n.depth > m.depth
                    }
                },
                None => true,
            };
            if better {
                best = Some(i);
            }
        }
        i += 1;
    }
    proof {
        if let Some(b) = best {
            assert(is_hit(nodes@, b as int));
            law_the_hit_is_unique(nodes@, b as int, choose|i: int| is_hit(nodes@, i));
        }
    }
    best
}

// -- laws --------------------------------------------------------------------------------------

proof fn lemma_popups_below_are_popups(
    windows: Seq<WindowInfo>,
    pid: i32,
    seen: Option<Seq<u32>>,
    upto: nat,
    k: int,
)
    requires
        upto <= windows.len(),
        0 <= k < popups_below(windows, pid, seen, upto).len(),
    ensures
        exists|i: int|
            0 <= i < upto && is_popup_of(#[trigger] windows[i], pid) && popups_below(
                windows,
                pid,
                seen,
                upto,
            )[k].id == windows[i].id,
    decreases upto,
{
    if upto > 0 {
        let earlier = popups_below(windows, pid, seen, (upto - 1) as nat);
        if k < earlier.len() {
            lemma_popups_below_are_popups(windows, pid, seen, (upto - 1) as nat, k);
        } else {
            assert(is_popup_of(windows[upto - 1], pid));
        }
    }
}

/// Pop-ups are listed topmost first, and only those of the process.
pub proof fn law_popups_are_listed_topmost_first(
    windows: Seq<WindowInfo>,
    pid: i32,
    seen: Option<Seq<u32>>,
)
    ensures
        forall|a: int, b: int|
            0 <= a < b < popups(windows, pid, seen).len() ==> !(#[trigger] popups(
                windows,
                pid,
                seen,
            )[b]).before(#[trigger] popups(windows, pid, seen)[a]),
        forall|k: int|
            0 <= k < popups(windows, pid, seen).len() ==> exists|i: int|
                0 <= i < windows.len() && is_popup_of(#[trigger] windows[i], pid) && (
                #[trigger] popups(windows, pid, seen)[k]).id == windows[i].id,
{
    broadcast use vstd::seq_lib::group_to_multiset_ensures;

    let listed = popups_below(windows, pid, seen, windows.len());
    let all = popups(windows, pid, seen);
    law_ranked_sorts(listed);
    assert forall|k: int| 0 <= k < all.len() implies exists|i: int|
        0 <= i < windows.len() && is_popup_of(#[trigger] windows[i], pid) && (
        #[trigger] all[k]).id == windows[i].id by {
        assert(all.to_multiset().count(all[k]) > 0);
        assert(listed.to_multiset().count(all[k]) > 0);
        assert(listed.contains(all[k]));
        let j = choose|j: int| 0 <= j < listed.len() && listed[j] == all[k];
        lemma_popups_below_are_popups(windows, pid, seen, windows.len(), j);
    }
}

/// At most one window is the best match, so that the choice is settled.
pub proof fn law_the_best_match_is_unique(
    windows: Seq<WindowInfo>,
    pid: i32,
    distances: Option<Seq<i64>>,
    i: int,
    j: int,
)
    requires
        is_best_match(windows, pid, distances, i),
        is_best_match(windows, pid, distances, j),
    ensures
        i == j,
{
    assert(is_candidate(windows[i], pid, distances is Some));
    assert(is_candidate(windows[j], pid, distances is Some));
}

/// At most one element is hit.
pub proof fn law_the_hit_is_unique(nodes: Seq<HitFacts>, i: int, j: int)
    requires
        is_hit(nodes, i),
        is_hit(nodes, j),
    ensures
        i == j,
{
    assert(nodes[i].covers);
    assert(nodes[j].covers);
}

/// A label is never hit where something that takes an action covers the same point.
pub proof fn law_what_takes_an_action_is_hit_first(nodes: Seq<HitFacts>, i: int, j: int)
    requires
        is_hit(nodes, i),
        0 <= j < nodes.len(),
        nodes[j].covers,
        nodes[j].actionable,
    ensures
        nodes[i].actionable,
{
}

/// An event is only ever stamped with a window that is in the fresh enumeration under its id, still
/// belongs to the process and may be addressed.
pub proof fn law_an_event_carries_a_live_window(windows: Seq<WindowInfo>, wid: u32, pid: i32)
    ensures
        live_window(windows, wid, pid) is Ok ==> windows.contains(
            live_window(windows, wid, pid)->Ok_0,
        ) && is_live(live_window(windows, wid, pid)->Ok_0, wid, pid),
        live_window(windows, wid, pid) is Err <==> (forall|i: int|
            0 <= i < windows.len() ==> !is_live(#[trigger] windows[i], wid, pid)),
{
    lemma_first_live(windows, wid, pid, windows.len());
}

proof fn lemma_first_live(windows: Seq<WindowInfo>, wid: u32, pid: i32, upto: nat)
    requires
        upto <= windows.len(),
    ensures
        match first_live_below(windows, wid, pid, upto) {
            Some(i) => 0 <= i < upto && is_live(windows[i], wid, pid),
            None => forall|i: int| 0 <= i < upto ==> !is_live(#[trigger] windows[i], wid, pid),
        },
    decreases upto,
{
    if upto > 0 {
        lemma_first_live(windows, wid, pid, (upto - 1) as nat);
    }
}

} // verus!
