//! Which route input takes, by the switches that the environment sets.
//!
//! The three families stay separate: the order of the routes of a pointer, whether focus is enforced
//! on a keyboard, and whether a wheel event is sent at all are different contracts.
use vstd::prelude::*;
use crate::safety::policy::switch_set;
use crate::session::kinds::flag_is_on;

verus! {

/// How a click is delivered.
#[derive(Debug, Clone, Copy, PartialEq, Eq, Structural)]
pub enum PointerStrategy {
    PidOnly,
    /// Accessibility first, and the process only where accessibility has no verb.
    AxFirst,
}

#[derive(Debug, Clone, Copy, PartialEq, Eq, Structural)]
pub struct PointerCapability {
    pub strategy: PointerStrategy,
}

/// How a key is delivered.
#[derive(Debug, Clone, Copy, PartialEq, Eq, Structural)]
pub enum KeyboardStrategy {
    Pid,
    AxOnly,
}

#[derive(Debug, Clone, Copy, PartialEq, Eq, Structural)]
pub struct KeyboardCapability {
    pub strategy: KeyboardStrategy,
    /// Whether keys are refused where the app names another element as focused.
    pub strict_focus: bool,
}

#[derive(Debug, Clone, Copy, PartialEq, Eq, Structural)]
pub struct ScrollCapability {
    /// Whether wheel events are sent, though they are measured not to scroll.
    pub wheel_enabled: bool,
}

/// How clicks are delivered, given the value of `CUA_AX_FIRST`.
pub fn pointer_capability(ax_first: Option<&str>) -> (r: PointerCapability)
    ensures
        r.strategy == (if switch_set(ax_first) {
            PointerStrategy::AxFirst
        } else {
            PointerStrategy::PidOnly
        }),
{
    PointerCapability {
        strategy: if flag_is_on(ax_first) {
            PointerStrategy::AxFirst
        } else {
            PointerStrategy::PidOnly
        },
    }
}

/// How keys are delivered, given the values of `CUA_KEY_AX_ONLY` and `CUA_KEY_STRICT_FOCUS`.
pub fn keyboard_capability(ax_only: Option<&str>, strict_focus: Option<&str>) -> (r:
    KeyboardCapability)
    ensures
        r.strategy == (if switch_set(ax_only) {
            KeyboardStrategy::AxOnly
        } else {
            KeyboardStrategy::Pid
        }),
        r.strict_focus == switch_set(strict_focus),
{
    KeyboardCapability {
        strategy: if flag_is_on(ax_only) {
            KeyboardStrategy::AxOnly
        } else {
            KeyboardStrategy::Pid
        },
        strict_focus: flag_is_on(strict_focus),
    }
}

/// Whether wheel events are sent, given the value of `CUA_WHEEL_SCROLL`.
pub fn scroll_capability(wheel: Option<&str>) -> (r: ScrollCapability)
    ensures
        r.wheel_enabled == switch_set(wheel),
{
    ScrollCapability { wheel_enabled: flag_is_on(wheel) }
}

} // verus!
