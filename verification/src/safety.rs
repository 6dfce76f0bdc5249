//! The gates between a tool call and a synthesized event.
//!
//! Everything else in this crate answers whether a control can be reached. This module answers
//! whether it should be. Session-wide conditions come first, then app-wide ones, then the element:
//! see [`gate::guard`] for the order and for the whole decision.
use vstd::prelude::*;

pub mod context;
pub mod destructive;
pub mod gate;
pub mod laws;
pub mod policy;
pub mod refusal;
pub mod runtime;

verus! {

} // verus!
