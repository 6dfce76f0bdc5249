//! The policy layer between a language model and the native accessibility, capture and input calls
//! of a desktop: verified decisions, from plain facts to plain answers.
//!
//! - [`apps::resolve_app`] turns whatever string a model produced into exactly one running app, or
//!   an error, never a guess.
//! - [`snapshot::render_tree`] spends tokens only on elements worth seeing, and
//!   [`diff::diff_trees`] says what an action changed.
//! - [`safety`] decides which apps, elements and keys an action may touch at all.
//! - [`session`] ties every action to the snapshot it refers to. A snapshot is one tree walk of one
//!   window, numbered, and a stale reference to one is an error instead of a mis-click.
//!
//! Nothing here reads the environment, the clock or the screen: what those say comes in as
//! arguments, and what to do about it goes out as values.
use vstd::prelude::*;

pub mod apps;
pub mod decimal;
pub mod diff;
pub mod menubar;
pub mod order;
pub mod overlay;
pub mod safety;
pub mod session;
pub mod snapshot;
pub mod text;
pub mod tree;

pub use apps::{list_apps, resolve_app, AppInfo, ResolveError};
pub use diff::{diff_trees, TreeDiff};
pub use session::actions::pointer::WindowPixel;
pub use session::actions::ActionResult;
pub use session::error::CoreError;
pub use session::kinds::{
    Delivery, FindResult, FocusCheck, FocusState, Mechanism, Modifiers, MouseOptions, Observed,
    Permissions, Presence, ScrollAmount, ScrollDir, WaitOutcome,
};
pub use session::observe::{AppState, PostActionState};
pub use session::store::{Limits, StateOptions};
pub use session::target::Target;
pub use session::targeting::PointerLocation;
pub use snapshot::{render_tree, RenderOptions};

verus! {

} // verus!
