//! Snapshots, the actions that refer back to them, and what an action reports.
use vstd::prelude::*;

pub mod actions;
pub mod delivery;
pub mod error;
pub mod find;
pub mod kinds;
pub mod observe;
pub mod requests;
pub mod store;
pub mod target;
pub mod targeting;
pub mod tokens;
pub mod windows;

verus! {

} // verus!
