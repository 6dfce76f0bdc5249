//! The latest snapshot of each app.
use std::collections::HashMap;
use vstd::prelude::*;
use vstd::std_specs::hash::group_hash_axioms;
use crate::session::windows::{TransientWindow, WindowInfo};
use crate::snapshot::{AxNode, RenderOptions};

verus! {

broadcast use group_hash_axioms;

/// A process incarnation, not just a process identifier: those are recycled.
#[derive(Debug, Clone, Copy, PartialEq, Eq, Structural)]
pub struct ProcessKey {
    pub pid: i32,
    /// When the process started, or zero when that could not be read. A zero makes the key degrade
    /// to the process identifier alone.
    pub start_time: u64,
}

impl ProcessKey {
    /// The key of a process, given its start time where it could be read.
    pub fn for_pid(pid: i32, start_time: Option<u64>) -> (r: Self)
        ensures
            r.pid == pid,
            r.start_time == match start_time {
                Some(t) => t,
                None => 0,
            },
    {
        ProcessKey {
            pid,
            start_time: match start_time {
                Some(t) => t,
                None => 0,
            },
        }
    }
}

/// The caps a walk runs under.
#[derive(Debug, Clone, Copy, PartialEq, Eq, Structural)]
pub struct Limits {
    pub max_nodes: usize,
    pub max_depth: usize,
    pub budget_ms: u64,
}

/// Options for one read of an app.
#[derive(Debug, Clone, Copy)]
pub struct StateOptions {
    pub limits: Limits,
    pub render: RenderOptions,
    /// Capture pixels as well as the tree.
    pub include_screenshot: bool,
    /// Longest screenshot edge in pixels, zero for native.
    pub max_image_dim: u32,
    /// Walk from this element of the current snapshot instead of from the window.
    pub scope: Option<usize>,
}

impl StateOptions {
    /// The options of an ordinary read, given the usual caps.
    pub fn usual(limits: Limits) -> (r: Self)
        ensures
            r.limits == limits,
            r.render == (RenderOptions {
                include_noise: false,
                include_frames: false,
                note_omissions: true,
                skeleton: false,
                skeleton_depth: 2,
                collapse_over: 8,
            }),
            r.include_screenshot,
            r.max_image_dim == 1400,
            r.scope is None,
    {
        StateOptions {
            limits,
            render: RenderOptions::default(),
            include_screenshot: true,
            max_image_dim: 1400,
            scope: None,
        }
    }
}

/// One tree walk of one window.
#[derive(Debug, Clone)]
pub struct Snapshot {
    pub id: u64,
    pub nodes: Vec<AxNode>,
    pub window: Option<WindowInfo>,
    /// The process that every native handle of this walk belongs to.
    pub process_key: ProcessKey,
    /// Whether this walk started from an element rather than from the window.
    pub scoped: bool,
    /// Caps this walk ran under.
    pub limits: Limits,
    /// Whether the walk finished, rather than stopping at a cap or at the time budget.
    pub complete: bool,
    /// An action has run since this walk, and nothing has re-read the window.
    pub acted_on: bool,
    /// Transient UI the app had up when the walk was taken.
    pub popups: Vec<TransientWindow>,
}

/// What is known of the apps that have been read: the latest snapshot of each process, exactly one,
/// and which processes have been asked for a rich tree.
pub struct Store {
    pub snapshots: HashMap<i32, Snapshot>,
    pub enabled: Vec<ProcessKey>,
    /// The id of the next snapshot. Ids are shared by all apps, so that one is never ambiguous.
    pub next_id: u64,
}

/// The snapshot of a process in a map of snapshots.
pub open spec fn snapshot_of(map: Map<i32, Snapshot>, pid: i32) -> Option<Snapshot> {
    if map.dom().contains(pid) {
        Some(map[pid])
    } else {
        None
    }
}

/// The id after an id. Past the last one they start over.
pub open spec fn next_after(id: u64) -> u64 {
    if id == u64::MAX {
        0
    } else {
        (id + 1) as u64
    }
}

/// A snapshot behind a reference.
pub open spec fn snapshot_view(s: Option<&Snapshot>) -> Option<Snapshot> {
    match s {
        Some(x) => Some(*x),
        None => None,
    }
}

impl Default for Store {
    fn default() -> (r: Self)
        ensures
            r.snapshots@ == Map::<i32, Snapshot>::empty(),
            r.enabled@.len() == 0,
            r.next_id == 1,
            r.wf(),
    {
        Store { snapshots: HashMap::new(), enabled: Vec::new(), next_id: 1 }
    }
}

impl Store {
    /// Whether every snapshot is older than the next id, so that a fresh id is new, and no process
    /// is noted twice as having been read.
    pub open spec fn wf(self) -> bool {
        &&& forall|pid: i32|
            self.snapshots@.dom().contains(pid) ==> (#[trigger] self.snapshots@[pid]).id
                < self.next_id
        &&& self.enabled@.no_duplicates()
    }

    /// Whether this is a store in which a process has been read since, with this snapshot, and
    /// nothing else has changed but the next id.
    pub open spec fn read_from(self, before: Store, pid: i32, taken: Snapshot) -> bool {
        &&& taken.id == before.next_id
        &&& self.snapshots@ == before.snapshots@.insert(pid, taken)
        &&& self.enabled == before.enabled
        &&& self.next_id == next_after(before.next_id)
    }

    /// Whether this is a store in which an action has run on a process since, and nothing else has
    /// changed.
    pub open spec fn acted_from(self, before: Store, pid: i32) -> bool {
        &&& self.snapshots@ == match snapshot_of(before.snapshots@, pid) {
            Some(s) => before.snapshots@.insert(pid, (Snapshot { acted_on: true, ..s })),
            None => before.snapshots@,
        }
        &&& self.enabled == before.enabled
        &&& self.next_id == before.next_id
    }

    /// The latest snapshot of a process.
    pub fn get(&self, pid: i32) -> (r: Option<&Snapshot>)
        ensures
            snapshot_view(r) == snapshot_of(self.snapshots@, pid),
    {
        self.snapshots.get(&pid)
    }

    /// Keeps a snapshot in place of the one before.
    pub fn put(&mut self, pid: i32, snapshot: Snapshot)
        ensures
            final(self).snapshots@ == old(self).snapshots@.insert(pid, snapshot),
            final(self).enabled == old(self).enabled,
            final(self).next_id == old(self).next_id,
            old(self).wf() && snapshot.id < old(self).next_id ==> final(self).wf(),
    {
        self.snapshots.insert(pid, snapshot);
    }

    /// A new snapshot id.
    pub fn fresh_id(&mut self) -> (r: u64)
        ensures
            r == old(self).next_id,
            final(self).next_id == next_after(old(self).next_id),
            final(self).snapshots == old(self).snapshots,
            final(self).enabled == old(self).enabled,
            old(self).wf() && old(self).next_id < u64::MAX ==> final(self).wf(),
    {
        let id: u64 = self.next_id;
        self.next_id = if id == u64::MAX {
            0
        } else {
            id + 1
        };
        id
    }

    /// Notes that a process is about to be read, and says whether that is the first time in its
    /// life. Asking an app for a rich tree is expensive, so it happens once.
    pub fn note_read(&mut self, key: ProcessKey) -> (r: bool)
        ensures
            r == !old(self).enabled@.contains(key),
            final(self).enabled@ == (if r {
                old(self).enabled@.push(key)
            } else {
                old(self).enabled@
            }),
            final(self).snapshots == old(self).snapshots,
            final(self).next_id == old(self).next_id,
            old(self).wf() ==> final(self).wf(),
    {
        let mut i: usize = 0;
        while i < self.enabled.len()
            invariant
                i <= self.enabled@.len(),
                *self == *old(self),
                forall|j: int| 0 <= j < i ==> self.enabled@[j] != key,
            decreases self.enabled@.len() - i,
        {
            if self.enabled[i] == key {
                assert(self.enabled@[i as int] == key);
                return false;
            }
            i += 1;
        }
        self.enabled.push(key);
        true
    }

    /// Notes that an action has run on a process without a re-read, so that what answers from its
    /// snapshot knows.
    pub fn mark_acted(&mut self, pid: i32)
        ensures
            final(self).acted_from(*old(self), pid),
            old(self).wf() ==> final(self).wf(),
    {
        let ghost before = self.snapshots@;
        match self.snapshots.remove(&pid) {
            Some(snapshot) => {
                let marked = Snapshot { acted_on: true, ..snapshot };
                self.snapshots.insert(pid, marked);
                assert(before.remove(pid).insert(pid, marked) == before.insert(pid, marked));
            },
            None => {
                assert(before.remove(pid) == before);
            },
        }
    }

    /// Where the drawn cursor is pinned: the window that the last read of a process was of.
    pub fn overlay_target(&self, pid: i32) -> (r: Option<(u32, i32)>)
        ensures
            r == match snapshot_of(self.snapshots@, pid) {
                Some(s) => match s.window {
                    Some(w) => Some((w.id, pid)),
                    None => None,
                },
                None => None,
            },
    {
        match self.get(pid) {
            Some(s) => match &s.window {
                Some(w) => Some((w.id, pid)),
                None => None,
            },
            None => None,
        }
    }
}

/// Keeping a snapshot of one process leaves every other process's alone, and is what is found next.
pub proof fn law_a_snapshot_is_found_until_it_is_replaced(
    map: Map<i32, Snapshot>,
    pid: i32,
    snapshot: Snapshot,
    other: i32,
)
    ensures
        snapshot_of(map.insert(pid, snapshot), pid) == Some(snapshot),
        other != pid ==> snapshot_of(map.insert(pid, snapshot), other) == snapshot_of(map, other),
{
}

/// Reading keeps every snapshot older than the next id, for as long as ids do not start over, and
/// notes no process twice.
pub proof fn law_ids_stay_fresh_over_a_read(
    before: Store,
    after: Store,
    pid: i32,
    taken: Snapshot,
)
    requires
        before.wf(),
        before.next_id < u64::MAX,
        after.read_from(before, pid, taken),
    ensures
        after.wf(),
{
}

/// Acting keeps every snapshot older than the next id, and notes no process twice.
pub proof fn law_ids_stay_fresh_over_an_action(before: Store, after: Store, pid: i32)
    requires
        before.wf(),
        after.acted_from(before, pid),
    ensures
        after.wf(),
{
    assert forall|p: i32| after.snapshots@.dom().contains(p) implies (
    #[trigger] after.snapshots@[p]).id < after.next_id by {
        assert(before.snapshots@.dom().contains(p));
        assert(before.snapshots@[p].id < before.next_id);
    }
}

/// An action marks the snapshot of its own process, and changes nothing else: neither what that
/// snapshot says, nor any other process's, nor which ids come next.
pub proof fn law_an_action_marks_its_own_snapshot_alone(
    before: Store,
    after: Store,
    pid: i32,
    other: i32,
)
    requires
        after.acted_from(before, pid),
    ensures
        ({
            let then = snapshot_of(before.snapshots@, pid);
            let now = snapshot_of(after.snapshots@, pid);
            &&& now is Some <==> then is Some
            &&& now is Some ==> {
                &&& now->0.acted_on
                &&& now->0.id == then->0.id
                &&& now->0.nodes == then->0.nodes
                &&& now->0.window == then->0.window
                &&& now->0.process_key == then->0.process_key
                &&& now->0.scoped == then->0.scoped
                &&& now->0.limits == then->0.limits
                &&& now->0.complete == then->0.complete
                &&& now->0.popups == then->0.popups
            }
        }),
        other != pid ==> snapshot_of(after.snapshots@, other) == snapshot_of(
            before.snapshots@,
            other,
        ),
        after.next_id == before.next_id,
        after.enabled == before.enabled,
{
}

/// A read replaces the snapshot of its own process, under an id that no process has had, and leaves
/// every other process's alone.
pub proof fn law_a_read_replaces_its_own_snapshot_alone(
    before: Store,
    after: Store,
    pid: i32,
    taken: Snapshot,
    other: i32,
)
    requires
        before.wf(),
        after.read_from(before, pid, taken),
    ensures
        snapshot_of(after.snapshots@, pid) == Some(taken),
        other != pid ==> snapshot_of(after.snapshots@, other) == snapshot_of(
            before.snapshots@,
            other,
        ),
        snapshot_of(before.snapshots@, other) is Some ==> snapshot_of(
            before.snapshots@,
            other,
        )->0.id < taken.id,
        before.next_id < u64::MAX ==> after.next_id == taken.id + 1,
{
}

} // verus!
