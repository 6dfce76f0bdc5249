//! Locked sessions and yielding to the human.
use vstd::prelude::*;
use crate::apps::AppInfo;
use crate::text::{eq_ignore_case, same_but_case};

verus! {

/// The bundle identifier of the screen saver, which is an app of its own.
pub const SCREEN_SAVER: &'static str = "com.apple.ScreenSaver.Engine";

/// Whether an app is the screen saver.
pub open spec fn is_screen_saver(a: AppInfo) -> bool {
    a.bundle_id is Some && same_but_case(a.bundle_id->0@, SCREEN_SAVER@)
}

/// Whether the screen saver is among the running apps.
pub open spec fn saver_runs(apps: Seq<AppInfo>) -> bool {
    exists|i: int| 0 <= i < apps.len() && is_screen_saver(#[trigger] apps[i])
}

/// Whether macOS's screen saver is running.
///
/// It is not the same condition as a lock, but it means the same thing here: whatever the human
/// would have seen the action do, they are not seeing it.
pub fn screen_saver_running(apps: &[AppInfo]) -> (r: bool)
    ensures
        r == saver_runs(apps@),
{
    let mut i: usize = 0;
    while i < apps.len()
        invariant
            i <= apps@.len(),
            forall|j: int| 0 <= j < i ==> !is_screen_saver(#[trigger] apps@[j]),
        decreases apps@.len() - i,
    {
        if let Some(b) = &apps[i].bundle_id {
            if eq_ignore_case(b.as_str(), SCREEN_SAVER) {
                assert(is_screen_saver(apps@[i as int]));
                return true;
            }
        }
        i += 1;
    }
    false
}

/// Whether this login session is locked or showing its screen saver, given what the window server
/// says of the lock. No answer means unlocked: a process without a window-server session has no
/// screen that could be locked.
pub fn session_locked(screen_is_locked: Option<bool>, apps: &[AppInfo]) -> (r: bool)
    ensures
        r == (screen_is_locked == Some(true) || saver_runs(apps@)),
{
    match screen_is_locked {
        Some(locked) => locked || screen_saver_running(apps),
        None => screen_saver_running(apps),
    }
}

/// What the listen-only input tap turned out to be.
#[derive(Debug, Clone)]
pub enum Watch {
    /// Yielding was not asked for. Nothing is ever refused for it.
    Off,
    /// The tap is up. It says how long ago the human last gave input, where they did at all.
    On { since_ms: Option<u64> },
    /// Yielding was asked for and the tap could not be created. Every action is refused: a yield
    /// guard that cannot see would promise a property it does not provide.
    Broken { reason: String },
}

/// Whether to watch real input, and what a refusal says when it fires.
#[derive(Debug, Clone)]
pub struct HumanWatch {
    pub watch: Watch,
}

impl Default for HumanWatch {
    fn default() -> (r: Self)
        ensures
            r.watch is Off,
    {
        HumanWatch { watch: Watch::Off }
    }
}

impl HumanWatch {
    /// The watch to keep, given whether yielding was asked for and what starting the tap came to.
    pub fn start(enabled: bool, tap: Result<(), String>) -> (r: Self)
        ensures
            !enabled ==> r.watch is Off,
            enabled && tap is Ok ==> r.watch == (Watch::On { since_ms: None }),
            enabled && tap is Err ==> r.watch is Broken && r.watch->reason@ == tap->Err_0@,
    {
        if !enabled {
            return HumanWatch { watch: Watch::Off };
        }
        match tap {
            Ok(_) => HumanWatch { watch: Watch::On { since_ms: None } },
            Err(reason) => HumanWatch { watch: Watch::Broken { reason } },
        }
    }

    /// Milliseconds since the last human input, while the watch is up.
    pub fn since_human_input_ms(&self) -> (r: Option<u64>)
        ensures
            r == match self.watch {
                Watch::On { since_ms } => since_ms,
                _ => None,
            },
    {
        match &self.watch {
            Watch::On { since_ms } => *since_ms,
            _ => None,
        }
    }
}

} // verus!
