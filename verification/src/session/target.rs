//! How an agent addresses an element.
use vstd::prelude::*;

verus! {

/// How a point reads. Coordinates are floating point numbers, which the caller keeps; what is
/// decided here needs only their wording.
#[derive(Debug, Clone)]
pub struct Spot {
    /// The coordinates in full, as in `(12.5, 40)`.
    pub exact: String,
    /// The coordinates in whole points, as in `(12, 40)`.
    pub rounded: String,
}

/// How the agent addressed an element.
#[derive(Debug, Clone)]
pub enum Target {
    /// By snapshot index, optionally pinned to the snapshot it came from and to the role that index
    /// had when the snapshot was taken.
    Index { index: usize, snapshot_id: Option<u64>, expected_role: Option<String> },
    /// By screen point, found in the snapshot's own geometry and never by moving the pointer.
    Point { at: Spot, snapshot_id: Option<u64> },
}

impl Target {
    /// An equal target.
    pub fn copied(&self) -> (r: Target)
        ensures
            r == *self,
    {
        match self {
            Target::Index { index, snapshot_id, expected_role } => Target::Index {
                index: *index,
                snapshot_id: *snapshot_id,
                expected_role: match expected_role {
                    Some(role) => Some(role.clone()),
                    None => None,
                },
            },
            Target::Point { at, snapshot_id } => Target::Point {
                at: Spot { exact: at.exact.clone(), rounded: at.rounded.clone() },
                snapshot_id: *snapshot_id,
            },
        }
    }
}

} // verus!
