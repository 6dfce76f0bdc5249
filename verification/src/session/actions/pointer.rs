//! Clicks, drags and hovers.
use vstd::prelude::*;
use crate::apps::AppInfo;
use crate::decimal::{decimal, numeral};
use crate::session::actions::{
    action_outcome, landed, ActionResult, ActionText, NO_QUIET_ROUTE, NO_ROUTE,
};
use crate::session::delivery::{PointerCapability, PointerStrategy};
use crate::session::error::{outcome, CoreError, CoreErrorText};
use crate::session::kinds::{Delivery, MouseOptions};
use crate::session::observe::Settled;
use crate::session::store::{snapshot_view, Snapshot};
use crate::session::target::Target;
use crate::session::targeting::{
    check_coordinate_generation, generation_objection, location_text, snapshot_window, window_of,
    describe_location, PointerAim, PointerLocation,
};
use crate::session::tokens::{change_of, detect_change, recorded_tokens, snapshot_tokens};
use crate::session::windows::{
    current_window, current_window_for_pid_click, first_live, is_popup_of, live_window_index,
    not_live_text, PointBits, WindowInfo,
};
use crate::text::{owned, same, text_of, texts, told};

verus! {

// -- clicking an element -----------------------------------------------------------------------

/// Which route a click takes first.
#[derive(Debug, Clone, Copy, PartialEq, Eq, Structural)]
pub enum ClickRoute {
    Ax,
    Pid,
}

/// Chooses the route of a click. Accessibility has no notion of a count, a button or a held
/// modifier, so it is only ever tried for an ordinary single click, and only where it is switched
/// to the front.
pub fn click_route(capability: PointerCapability, mouse: &MouseOptions) -> (r: ClickRoute)
    ensures
        r == (if capability.strategy == PointerStrategy::AxFirst && mouse.plain() {
            ClickRoute::Ax
        } else {
            ClickRoute::Pid
        }),
{
    if capability.strategy == PointerStrategy::AxFirst && mouse.is_plain() {
        ClickRoute::Ax
    } else {
        ClickRoute::Pid
    }
}

/// What the element is expected to show still: for an index, the texts that the snapshot recorded;
/// for a point, which was resolved a moment ago, nothing.
pub open spec fn expected_at(target: Target, snapshot: Option<Snapshot>) -> Option<
    (usize, Seq<Seq<char>>),
> {
    match target {
        Target::Index { index, .. } => match snapshot {
            Some(s) => Some((index, recorded_tokens(s.nodes@, index))),
            None => None,
        },
        Target::Point { .. } => None,
    }
}

/// The view of what an element is expected to show.
pub open spec fn expected_view(e: Option<(usize, Vec<String>)>) -> Option<(usize, Seq<Seq<char>>)> {
    match e {
        Some((index, list)) => Some((index, texts(list@))),
        None => None,
    }
}

/// Computes [`expected_at`].
pub fn expected_tokens(target: &Target, snapshot: Option<&Snapshot>) -> (r: Option<
    (usize, Vec<String>),
>)
    ensures
        expected_view(r) == expected_at(*target, snapshot_view(snapshot)),
{
    match target {
        Target::Index { index, .. } => match snapshot {
            Some(s) => Some((*index, snapshot_tokens(s.nodes.as_slice(), *index))),
            None => None,
        },
        Target::Point { .. } => None,
    }
}

/// Why the quiet route of a click did not press anything.
#[derive(Debug, Clone)]
pub enum PidFailure {
    /// The route could not run, but the element has not been shown to have changed.
    Retryable(String),
    /// Pressing anything now would act on an element that the caller no longer means.
    Fatal(CoreError),
}

/// What a [`PidFailure`] says.
pub enum PidFailureText {
    Retryable(Seq<char>),
    Fatal(CoreErrorText),
}

impl View for PidFailure {
    type V = PidFailureText;

    open spec fn view(&self) -> PidFailureText {
        match self {
            PidFailure::Retryable(reason) => PidFailureText::Retryable(reason@),
            PidFailure::Fatal(e) => PidFailureText::Fatal(e@),
        }
    }
}

/// An outcome of the quiet route, with what its failure says.
pub open spec fn pid_outcome<T>(r: Result<T, PidFailure>) -> Result<T, PidFailureText> {
    match r {
        Ok(v) => Ok(v),
        Err(e) => Err(e@),
    }
}

/// Said where an element has no point to click.
pub const NO_POINT: &'static str = "the element publishes neither AXActivationPoint nor AXFrame";

/// Said where the last read did not identify its window.
pub const NO_WINDOW_ID: &'static str =
    "the snapshot has no verified ScreenCaptureKit window id; enable Screen Recording and take a \
    fresh snapshot";

/// What is known right before a click is posted to a process.
pub struct PidClickFacts {
    /// Whether the element has a point at all.
    pub has_point: bool,
    /// Whether the quiet route exists on this machine.
    pub routed: bool,
    /// What the element is expected to show still.
    pub expected: Option<(usize, Vec<String>)>,
    /// What it shows.
    pub found: Vec<String>,
    /// The windows, enumerated a moment ago.
    pub listed: Result<Vec<WindowInfo>, String>,
    /// Of each of them, whether the point lies inside.
    pub holds: Vec<bool>,
    /// How the point reads.
    pub at: String,
}

/// What speaks for the element having changed identity since the snapshot.
pub open spec fn staleness(expected: Option<(usize, Seq<Seq<char>>)>, found: Seq<Seq<char>>) -> Option<
    CoreErrorText,
> {
    match expected {
        Some((index, tokens)) => change_of(index, tokens, found),
        None => None,
    }
}

/// The window that a click on an element is posted to, or why it is not posted. Staleness is found
/// before any window is looked for, and is the one failure that nothing may be tried after.
pub open spec fn click_window(
    pid: i32,
    snapshot: Option<Snapshot>,
    facts: PidClickFacts,
) -> Result<WindowInfo, PidFailureText> {
    if !facts.has_point {
        Err(PidFailureText::Retryable(NO_POINT@))
    } else if !facts.routed {
        Err(PidFailureText::Retryable(NO_ROUTE@))
    } else {
        match staleness(expected_view(facts.expected), texts(facts.found@)) {
            Some(e) => Err(PidFailureText::Fatal(e)),
            None => match window_of(snapshot) {
                None => Err(PidFailureText::Retryable(NO_WINDOW_ID@)),
                Some(wid) => match facts.listed {
                    Err(e) => Err(
                        PidFailureText::Retryable(
                            "could not revalidate the target window immediately before input: "@
                                + e@,
                        ),
                    ),
                    Ok(windows) => match current_window(
                        windows@,
                        facts.holds@,
                        wid,
                        pid,
                        facts.at@,
                    ) {
                        Ok(w) => Ok(w),
                        Err(why) => Err(PidFailureText::Retryable(why)),
                    },
                },
            },
        }
    }
}

/// Decides whether a click on an element is posted, and to which window.
pub fn plan_pid_click(
    info: &AppInfo,
    snapshot: Option<&Snapshot>,
    facts: &PidClickFacts,
) -> (r: Result<WindowInfo, PidFailure>)
    requires
        facts.listed is Ok ==> facts.holds@.len() == facts.listed->Ok_0@.len(),
    ensures
        pid_outcome(r) == click_window(info.pid, snapshot_view(snapshot), *facts),
{
    if !facts.has_point {
        return Err(PidFailure::Retryable(owned(NO_POINT)));
    }
    if !facts.routed {
        return Err(PidFailure::Retryable(owned(NO_ROUTE)));
    }
    if let Some((index, expected)) = &facts.expected {
        match detect_change(*index, expected, &facts.found) {
            Ok(_) => {},
            Err(e) => {
                return Err(PidFailure::Fatal(e));
            },
        }
    }
    let wid: u32 = match snapshot_window(snapshot) {
        Some(id) => id,
        None => {
            return Err(PidFailure::Retryable(owned(NO_WINDOW_ID)));
        },
    };
    match &facts.listed {
        Err(e) => {
            let mut why = owned(
                "could not revalidate the target window immediately before input: ",
            );
            why.append(e.as_str());
            Err(PidFailure::Retryable(why))
        },
        Ok(windows) => match current_window_for_pid_click(
            windows.as_slice(),
            facts.holds.as_slice(),
            wid,
            info.pid,
            facts.at.as_str(),
        ) {
            Ok(w) => Ok(w),
            Err(why) => Err(PidFailure::Retryable(why)),
        },
    }
}

/// How a click posted to a process reads.
pub open spec fn click_verb(mouse: MouseOptions, place: Seq<char>) -> Seq<char> {
    "SkyLight pid-routed "@ + numeral(mouse.count as nat) + "-click ("@ + mouse.wording() + ") at "@
        + place
}

fn click_verb_of(mouse: &MouseOptions, place: &str) -> (r: String)
    ensures
        r@ == click_verb(*mouse, place@),
{
    let mut out = owned("SkyLight pid-routed ");
    out.append(decimal(mouse.count as u64).as_str());
    out.append("-click (");
    out.append(mouse.describe().as_str());
    out.append(") at ");
    out.append(place);
    out
}

/// Reports a click on an element that was posted to its process: what it changed, or why posting
/// failed, in which case nothing was pressed.
pub fn pid_click_result(
    info: &AppInfo,
    desc: String,
    mouse: &MouseOptions,
    window: u32,
    at: &str,
    point: PointBits,
    posted: Result<Settled, String>,
) -> (r: Result<ActionResult, PidFailure>)
    ensures
        match posted {
            Ok(settled) => r is Ok && r->Ok_0@ == landed(
                click_verb(*mouse, at@),
                desc@,
                settled,
                Delivery::Pid,
                Some(point),
                Some((window, info.pid)),
            ),
            Err(e) => r is Err && r->Err_0@ == PidFailureText::Retryable(e@),
        },
{
    match posted {
        Err(e) => Err(PidFailure::Retryable(e)),
        Ok(settled) => Ok(
            ActionResult::carried(
                click_verb_of(mouse, at),
                desc,
                settled,
                Delivery::Pid,
                Some(point),
                Some((window, info.pid)),
            ),
        ),
    }
}

/// What trying accessibility first came to.
#[derive(Debug, Clone)]
pub enum AxAttempt {
    /// It landed, with this verb.
    Landed(String),
    /// The element has no verb for it; the text is accessibility's own.
    Unsupported(String),
    Failed(String),
}

/// What to do after accessibility was tried first.
#[derive(Debug, Clone)]
pub enum AfterAx {
    /// Report this verb.
    Report(String),
    /// Take the quiet route, remembering why.
    TryPid(String),
    Stop(CoreError),
}

/// Decides what follows an attempt through accessibility. Only an element that has no verb at all
/// is tried again on the other route.
pub fn after_ax_click(attempt: AxAttempt) -> (r: AfterAx)
    ensures
        match attempt {
            AxAttempt::Landed(verb) => r == AfterAx::Report(verb),
            AxAttempt::Unsupported(why) => r == AfterAx::TryPid(why),
            AxAttempt::Failed(why) => r is Stop && r->Stop_0@ == CoreErrorText::Ax(why@),
        },
{
    match attempt {
        AxAttempt::Landed(verb) => AfterAx::Report(verb),
        AxAttempt::Unsupported(why) => AfterAx::TryPid(why),
        AxAttempt::Failed(why) => AfterAx::Stop(CoreError::Ax(why)),
    }
}

/// The error of a click whose quiet route failed, given what accessibility had said where it was
/// tried first.
pub open spec fn click_error(original: Option<Seq<char>>, failure: PidFailureText) -> CoreErrorText {
    match failure {
        PidFailureText::Fatal(e) => e,
        PidFailureText::Retryable(reason) => match original {
            Some(o) => CoreErrorText::PidClickUnavailable { original: o, reason },
            None => CoreErrorText::PidClickFailed { reason },
        },
    }
}

/// Ends a click whose quiet route was tried, with what accessibility had said where it was tried
/// first. A failure is reported; nothing is retried.
pub fn finish_click(original: Option<String>, tried: Result<ActionResult, PidFailure>) -> (r: Result<
    ActionResult,
    CoreError,
>)
    ensures
        match tried {
            Ok(a) => r == Ok::<ActionResult, CoreError>(a),
            Err(f) => r is Err && r->Err_0@ == click_error(text_of(original), f@),
        },
{
    match tried {
        Ok(a) => Ok(a),
        Err(PidFailure::Fatal(e)) => Err(e),
        Err(PidFailure::Retryable(reason)) => match original {
            Some(o) => Err(CoreError::PidClickUnavailable { original: o, reason }),
            None => Err(CoreError::PidClickFailed { reason }),
        },
    }
}

// -- clicking a pixel --------------------------------------------------------------------------

/// A pixel in a window that the caller has read, with the snapshot that it was chosen from. The
/// parts travel together because they are one claim.
#[derive(Debug, Clone)]
pub struct WindowPixel {
    /// The window that the app's most recent read reported.
    pub window_id: u32,
    /// How the point reads, measured from the window's top-left corner.
    pub at: String,
    /// Whether one of its coordinates is negative.
    pub negative: bool,
    /// The snapshot that the pixel was chosen from, when the caller says.
    pub snapshot_id: Option<u64>,
}

/// What is known right before a click on a pixel is posted.
pub struct WindowClickFacts {
    pub routed: bool,
    pub listed: Result<Vec<WindowInfo>, String>,
    /// Of each window, whether the point lies inside once it is measured from that window's corner.
    pub holds: Vec<bool>,
}

pub const NEGATIVE_PIXEL: &'static str =
    "coordinates are window-local and measured from the window's top-left corner, so neither can \
    be negative";

pub const UNREAD_WINDOW: &'static str =
    "no verified window has been read for this app. Call get_app_state first and pass the window_id \
    it reports";

/// Whether a window is among the pop-ups that an app has up.
pub open spec fn is_up(windows: Seq<WindowInfo>, wid: u32, pid: i32) -> bool {
    exists|i: int|
        0 <= i < windows.len() && (#[trigger] windows[i]).id == wid && is_popup_of(windows[i], pid)
}

/// What is said where the caller aims at a window that was not read.
pub open spec fn other_window_text(seen: u32, wid: u32) -> Seq<char> {
    "the last get_app_state of this app read window "@ + numeral(seen as nat) + ", not "@ + numeral(
        wid as nat,
    ) + ", and "@ + numeral(wid as nat)
        + " is not a pop-up this app currently has open. Read the window you mean to click first"@
}

/// What is said where a pixel lies outside its window.
pub open spec fn outside_window_text(w: WindowInfo, at: Seq<char>) -> Seq<char> {
    "the window is currently "@ + w.size_text@ + " points, so "@ + at
        + " falls outside it (frame "@ + w.frame_text@ + ")"@
}

/// The window that a click on a pixel is posted to and whether it is a pop-up, or what speaks
/// against it.
pub open spec fn pixel_window(
    pid: i32,
    seen: Option<u32>,
    pixel: WindowPixel,
    facts: WindowClickFacts,
) -> Result<(WindowInfo, bool), Seq<char>> {
    let wid = pixel.window_id;
    if !facts.routed {
        Err(NO_QUIET_ROUTE@)
    } else if pixel.negative {
        Err(NEGATIVE_PIXEL@)
    } else {
        match facts.listed {
            Err(e) => Err("could not revalidate the window before input: "@ + e@),
            Ok(windows) => if seen is None {
                Err(UNREAD_WINDOW@)
            } else if seen->0 != wid && !is_up(windows@, wid, pid) {
                Err(other_window_text(seen->0, wid))
            } else {
                match first_live(windows@, wid, pid) {
                    None => Err(not_live_text(wid, pid)),
                    Some(i) => if facts.holds@[i] {
                        Ok((windows@[i], is_up(windows@, wid, pid)))
                    } else {
                        Err(outside_window_text(windows@[i], pixel.at@))
                    },
                }
            },
        }
    }
}

/// Where a click on a pixel goes, or the error. The generation of the pixel is looked at first.
pub open spec fn pixel_plan(
    info: AppInfo,
    snapshot: Option<Snapshot>,
    pixel: WindowPixel,
    facts: WindowClickFacts,
) -> Result<(WindowInfo, bool), CoreErrorText> {
    match generation_objection(info.name@, snapshot, pixel.snapshot_id, pixel.at@) {
        Some(e) => Err(e),
        None => match pixel_window(info.pid, window_of(snapshot), pixel, facts) {
            Ok(w) => Ok(w),
            Err(reason) => Err(
                CoreErrorText::WindowClickRefused {
                    app: info.name@,
                    wid: pixel.window_id,
                    at: pixel.at@,
                    reason,
                },
            ),
        },
    }
}

fn has_popup(windows: &[WindowInfo], wid: u32, pid: i32) -> (r: bool)
    ensures
        r == is_up(windows@, wid, pid),
{
    let mut i: usize = 0;
    while i < windows.len()
        invariant
            i <= windows@.len(),
            forall|j: int|
                0 <= j < i ==> !((#[trigger] windows@[j]).id == wid && is_popup_of(windows@[j], pid)),
        decreases windows@.len() - i,
    {
        if windows[i].id == wid && windows[i].pid == pid && windows[i].popup {
            assert(windows@[i as int].id == wid);
            return true;
        }
        i += 1;
    }
    false
}

fn window_for_pixel(
    pid: i32,
    seen: Option<u32>,
    pixel: &WindowPixel,
    facts: &WindowClickFacts,
) -> (r: Result<(WindowInfo, bool), String>)
    requires
        facts.listed is Ok ==> facts.holds@.len() == facts.listed->Ok_0@.len(),
    ensures
        told(r) == pixel_window(pid, seen, *pixel, *facts),
{
    let wid: u32 = pixel.window_id;
    if !facts.routed {
        return Err(owned(NO_QUIET_ROUTE));
    }
    if pixel.negative {
        return Err(owned(NEGATIVE_PIXEL));
    }
    let windows = match &facts.listed {
        Ok(w) => w,
        Err(e) => {
            let mut why = owned("could not revalidate the window before input: ");
            why.append(e.as_str());
            return Err(why);
        },
    };
    let popup = has_popup(windows.as_slice(), wid, pid);
    match seen {
        None => {
            return Err(owned(UNREAD_WINDOW));
        },
        Some(id) => {
            if id != wid && !popup {
                let mut why = owned("the last get_app_state of this app read window ");
                why.append(decimal(id as u64).as_str());
                why.append(", not ");
                why.append(decimal(wid as u64).as_str());
                why.append(", and ");
                why.append(decimal(wid as u64).as_str());
                why.append(
                    " is not a pop-up this app currently has open. Read the window you mean to click first",
                );
                return Err(why);
            }
        },
    }
    let i: usize = match live_window_index(windows.as_slice(), wid, pid) {
        Ok(i) => i,
        Err(why) => {
            return Err(why);
        },
    };
    if !facts.holds[i] {
        let mut why = owned("the window is currently ");
        why.append(windows[i].size_text.as_str());
        why.append(" points, so ");
        why.append(pixel.at.as_str());
        why.append(" falls outside it (frame ");
        why.append(windows[i].frame_text.as_str());
        why.append(")");
        return Err(why);
    }
    Ok((windows[i].copied(), popup))
}

/// Decides whether a click on a pixel is posted, and to which window.
///
/// Without an element the window id is the whole of the addressing, so the caller must have read
/// that window; or the window is a live pop-up of an app that was read, which no tree describes.
pub fn plan_window_click(
    info: &AppInfo,
    snapshot: Option<&Snapshot>,
    pixel: &WindowPixel,
    facts: &WindowClickFacts,
) -> (r: Result<(WindowInfo, bool), CoreError>)
    requires
        facts.listed is Ok ==> facts.holds@.len() == facts.listed->Ok_0@.len(),
    ensures
        outcome(r) == pixel_plan(*info, snapshot_view(snapshot), *pixel, *facts),
{
    match check_coordinate_generation(info, snapshot, pixel.snapshot_id, pixel.at.as_str()) {
        Err(e) => {
            return Err(e);
        },
        Ok(_) => {},
    }
    match window_for_pixel(info.pid, snapshot_window(snapshot), pixel, facts) {
        Ok(w) => Ok(w),
        Err(reason) => Err(refused_pixel(info, pixel, reason)),
    }
}

fn refused_pixel(info: &AppInfo, pixel: &WindowPixel, reason: String) -> (r: CoreError)
    ensures
        r@ == (CoreErrorText::WindowClickRefused {
            app: info.name@,
            wid: pixel.window_id,
            at: pixel.at@,
            reason: reason@,
        }),
{
    CoreError::WindowClickRefused {
        app: owned(info.name.as_str()),
        wid: pixel.window_id,
        at: owned(pixel.at.as_str()),
        reason,
    }
}

/// How the target of a click on a pixel reads.
pub open spec fn pixel_target(wid: u32, app: Seq<char>, popup: bool) -> Seq<char> {
    "window "@ + numeral(wid as nat) + " of "@ + app + (if popup {
        ", a pop-up accessibility cannot see into"@
    } else {
        ""@
    }) + " at no element — the caller aimed this"@
}

/// Reports a click on a pixel: what it changed, or why posting failed. It never claims an element.
pub fn click_in_window(
    info: &AppInfo,
    pixel: &WindowPixel,
    mouse: &MouseOptions,
    popup: bool,
    point: PointBits,
    posted: Result<Settled, String>,
) -> (r: Result<ActionResult, CoreError>)
    ensures
        action_outcome(r) == match posted {
            Ok(settled) => Ok::<ActionText, CoreErrorText>(
                landed(
                    click_verb(*mouse, "window-local "@ + pixel.at@),
                    pixel_target(pixel.window_id, info.name@, popup),
                    settled,
                    Delivery::PidNoElement,
                    Some(point),
                    Some((pixel.window_id, info.pid)),
                ),
            ),
            Err(e) => Err(
                CoreErrorText::WindowClickRefused {
                    app: info.name@,
                    wid: pixel.window_id,
                    at: pixel.at@,
                    reason: e@,
                },
            ),
        },
{
    let settled = match posted {
        Ok(s) => s,
        Err(e) => {
            return Err(refused_pixel(info, pixel, e));
        },
    };
    let mut place = owned("window-local ");
    place.append(pixel.at.as_str());
    let mut target = owned("window ");
    target.append(decimal(pixel.window_id as u64).as_str());
    target.append(" of ");
    target.append(info.name.as_str());
    target.append(
        if popup {
            ", a pop-up accessibility cannot see into"
        } else {
            ""
        },
    );
    target.append(" at no element — the caller aimed this");
    Ok(
        ActionResult::carried(
            click_verb_of(mouse, place.as_str()),
            target,
            settled,
            Delivery::PidNoElement,
            Some(point),
            Some((pixel.window_id, info.pid)),
        ),
    )
}

// -- dragging and hovering ---------------------------------------------------------------------

/// What the two ends of a drag came to.
pub struct DragFacts {
    pub routed: bool,
    /// The live window that the gesture is pinned to.
    pub live: Result<WindowInfo, String>,
    /// Where it starts and where it ends.
    pub origin: Result<PointerAim, String>,
    pub destination: Result<PointerAim, String>,
    /// Whether the two ends are the same point, and how the first one reads.
    pub same_point: bool,
    pub at: String,
}

/// What is said of a drag onto its own origin.
pub open spec fn same_point_text(at: Seq<char>) -> Seq<char> {
    "both ends resolve to the same point "@ + at
        + ". A drag needs two different points; use click if a press and release in one place is \
        what you meant"@
}

/// What speaks against a drag, where anything does.
pub open spec fn drag_objection(facts: DragFacts) -> Option<Seq<char>> {
    if !facts.routed {
        Some(NO_QUIET_ROUTE@)
    } else {
        match (facts.live, facts.origin, facts.destination) {
            (Err(why), _, _) => Some(why@),
            (Ok(_), Err(why), _) => Some(why@),
            (Ok(_), Ok(_), Err(why)) => Some(why@),
            (Ok(_), Ok(_), Ok(_)) => if facts.same_point {
                Some(same_point_text(facts.at@))
            } else {
                None
            },
        }
    }
}

/// The error of a drag that is not delivered.
pub open spec fn drag_error(
    app: Seq<char>,
    from: PointerLocation,
    to: PointerLocation,
    reason: Seq<char>,
) -> CoreErrorText {
    CoreErrorText::DragRefused { app, from: location_text(from), to: location_text(to), reason }
}

fn refused_drag(info: &AppInfo, from: &PointerLocation, to: &PointerLocation, reason: String) -> (r:
    CoreError)
    ensures
        r@ == drag_error(info.name@, *from, *to, reason@),
{
    CoreError::DragRefused {
        app: owned(info.name.as_str()),
        from: describe_location(from),
        to: describe_location(to),
        reason,
    }
}

/// Decides whether a drag is delivered. Both ends have to lie in one live window, because every
/// event of one gesture carries the same window; and they have to differ, because a drag onto its
/// own origin is a click with extra steps.
pub fn plan_drag(
    info: &AppInfo,
    from: &PointerLocation,
    to: &PointerLocation,
    facts: DragFacts,
) -> (r: Result<(WindowInfo, PointerAim, PointerAim), CoreError>)
    ensures
        match drag_objection(facts) {
            Some(reason) => r is Err && r->Err_0@ == drag_error(info.name@, *from, *to, reason),
            None => r == Ok::<(WindowInfo, PointerAim, PointerAim), CoreError>(
                (facts.live->Ok_0, facts.origin->Ok_0, facts.destination->Ok_0),
            ),
        },
{
    if !facts.routed {
        return Err(refused_drag(info, from, to, owned(NO_QUIET_ROUTE)));
    }
    let live = match facts.live {
        Ok(w) => w,
        Err(why) => {
            return Err(refused_drag(info, from, to, why));
        },
    };
    let origin = match facts.origin {
        Ok(a) => a,
        Err(why) => {
            return Err(refused_drag(info, from, to, why));
        },
    };
    let destination = match facts.destination {
        Ok(a) => a,
        Err(why) => {
            return Err(refused_drag(info, from, to, why));
        },
    };
    if facts.same_point {
        let mut why = owned("both ends resolve to the same point ");
        why.append(facts.at.as_str());
        why.append(
            ". A drag needs two different points; use click if a press and release in one place is \
        what you meant",
        );
        return Err(refused_drag(info, from, to, why));
    }
    Ok((live, origin, destination))
}

/// Which delivery a gesture reports: one that touched a raw pixel claims no element.
pub open spec fn gesture_delivery(verified: bool) -> Delivery {
    if verified {
        Delivery::Pid
    } else {
        Delivery::PidNoElement
    }
}

/// How a drag reads.
pub open spec fn drag_verb(
    mouse: MouseOptions,
    from: Seq<char>,
    to: Seq<char>,
    steps: nat,
) -> Seq<char> {
    "SkyLight pid-routed "@ + mouse.button@ + " drag ("@ + mouse.wording() + ") from "@ + from
        + " to "@ + to + " through "@ + numeral(steps) + " interpolated moves"@
}

/// A drag that was planned, with how its ends read on the screen and the number of moves between.
pub struct PlannedDrag {
    pub window: u32,
    pub origin: PointerAim,
    pub destination: PointerAim,
    pub from_text: String,
    pub to_text: String,
    pub steps: usize,
    /// Where it ends.
    pub point: PointBits,
}

/// Reports a drag: what it changed, or why posting failed. Where either end is a raw pixel, nothing
/// verified that there was anything at that end, and the result says so.
pub fn drag(
    info: &AppInfo,
    from: &PointerLocation,
    to: &PointerLocation,
    mouse: &MouseOptions,
    plan: &PlannedDrag,
    posted: Result<Settled, String>,
) -> (r: Result<ActionResult, CoreError>)
    ensures
        action_outcome(r) == match posted {
            Ok(settled) => Ok::<ActionText, CoreErrorText>(
                landed(
                    drag_verb(*mouse, plan.from_text@, plan.to_text@, plan.steps as nat),
                    plan.origin.desc@ + " → "@ + plan.destination.desc@,
                    settled,
                    gesture_delivery(plan.origin.from_element && plan.destination.from_element),
                    Some(plan.point),
                    Some((plan.window, info.pid)),
                ),
            ),
            Err(e) => Err(drag_error(info.name@, *from, *to, e@)),
        },
{
    let settled = match posted {
        Ok(s) => s,
        Err(e) => {
            return Err(refused_drag(info, from, to, e));
        },
    };
    let mut verb = owned("SkyLight pid-routed ");
    verb.append(mouse.button.as_str());
    verb.append(" drag (");
    verb.append(mouse.describe().as_str());
    verb.append(") from ");
    verb.append(plan.from_text.as_str());
    verb.append(" to ");
    verb.append(plan.to_text.as_str());
    verb.append(" through ");
    verb.append(decimal(plan.steps as u64).as_str());
    verb.append(" interpolated moves");
    let mut target = owned(plan.origin.desc.as_str());
    target.append(" → ");
    target.append(plan.destination.desc.as_str());
    let delivery = if plan.origin.from_element && plan.destination.from_element {
        Delivery::Pid
    } else {
        Delivery::PidNoElement
    };
    Ok(
        ActionResult::carried(
            verb,
            target,
            settled,
            delivery,
            Some(plan.point),
            Some((plan.window, info.pid)),
        ),
    )
}

/// What a hover is called in an error.
pub const HOVER_EVENT: &'static str = "hover (mouseMoved) event";

/// The error of a hover that is not delivered.
pub open spec fn hover_error(app: Seq<char>, reason: Seq<char>) -> CoreErrorText {
    CoreErrorText::PointerEventRefused { app, event: HOVER_EVENT@, reason }
}

fn refused_hover(info: &AppInfo, reason: String) -> (r: CoreError)
    ensures
        r@ == hover_error(info.name@, reason@),
{
    CoreError::PointerEventRefused {
        app: owned(info.name.as_str()),
        event: HOVER_EVENT,
        reason,
    }
}

/// Decides whether a hover is delivered, given the live window and where in it the hover aims.
pub fn plan_hover(
    info: &AppInfo,
    routed: bool,
    live: Result<WindowInfo, String>,
    aim: Result<PointerAim, String>,
) -> (r: Result<(WindowInfo, PointerAim), CoreError>)
    ensures
        outcome(r) == (if !routed {
            Err::<(WindowInfo, PointerAim), CoreErrorText>(
                hover_error(info.name@, NO_QUIET_ROUTE@),
            )
        } else {
            match (live, aim) {
                (Err(why), _) => Err(hover_error(info.name@, why@)),
                (Ok(_), Err(why)) => Err(hover_error(info.name@, why@)),
                (Ok(w), Ok(a)) => Ok((w, a)),
            }
        }),
{
    if !routed {
        return Err(refused_hover(info, owned(NO_QUIET_ROUTE)));
    }
    let window = match live {
        Ok(w) => w,
        Err(why) => {
            return Err(refused_hover(info, why));
        },
    };
    match aim {
        Ok(a) => Ok((window, a)),
        Err(why) => Err(refused_hover(info, why)),
    }
}

/// Reports a hover: what it changed, or why posting failed.
pub fn hover(
    info: &AppInfo,
    window: u32,
    aim: PointerAim,
    at: &str,
    point: PointBits,
    posted: Result<Settled, String>,
) -> (r: Result<ActionResult, CoreError>)
    ensures
        action_outcome(r) == match posted {
            Ok(settled) => Ok::<ActionText, CoreErrorText>(
                landed(
                    "SkyLight pid-routed mouseMoved to "@ + at@
                        + " — the real pointer did not move"@,
                    aim.desc@,
                    settled,
                    gesture_delivery(aim.from_element),
                    Some(point),
                    Some((window, info.pid)),
                ),
            ),
            Err(e) => Err(hover_error(info.name@, e@)),
        },
{
    let settled = match posted {
        Ok(s) => s,
        Err(e) => {
            return Err(refused_hover(info, e));
        },
    };
    let mut verb = owned("SkyLight pid-routed mouseMoved to ");
    verb.append(at);
    verb.append(" — the real pointer did not move");
    let delivery = if aim.from_element {
        Delivery::Pid
    } else {
        Delivery::PidNoElement
    };
    Ok(
        ActionResult::carried(
            verb,
            aim.desc,
            settled,
            delivery,
            Some(point),
            Some((window, info.pid)),
        ),
    )
}

// -- making a window key -----------------------------------------------------------------------

/// How far a window of accessibility lies from a window of the window server.
#[derive(Debug, Clone, Copy, PartialEq, Eq, Structural)]
pub struct FrameMatch {
    /// Whether the two frames are near enough to be one window's.
    pub near: bool,
    /// A number that orders frames by their distance.
    pub distance: i64,
}

/// Whether a window of accessibility is the one that corresponds to a live window: the nearest that
/// is near enough, and the first of those.
pub open spec fn is_counterpart(windows: Seq<FrameMatch>, i: int) -> bool {
    &&& 0 <= i < windows.len()
    &&& windows[i].near
    &&& forall|j: int|
        0 <= j < windows.len() && (#[trigger] windows[j]).near ==> windows[i].distance
            <= windows[j].distance && (j < i ==> windows[i].distance < windows[j].distance)
}

/// Finds the window of accessibility that corresponds to a live window.
pub fn counterpart(windows: &[FrameMatch]) -> (r: Option<usize>)
    ensures
        match r {
            Some(i) => is_counterpart(windows@, i as int),
            None => forall|i: int| 0 <= i < windows@.len() ==> !(#[trigger] windows@[i]).near,
        },
{
    let mut best: Option<usize> = None;
    let mut i: usize = 0;
    while i < windows.len()
        invariant
            i <= windows@.len(),
            match best {
                Some(b) => b < i && is_counterpart(windows@.take(i as int), b as int),
                None => forall|j: int| 0 <= j < i ==> !(#[trigger] windows@[j]).near,
            },
        decreases windows@.len() - i,
    {
        let ghost seen = windows@.take(i as int);
        let ghost more = windows@.take(i + 1);
        assert(forall|j: int| 0 <= j < i ==> #[trigger] more[j] == seen[j]);
        assert(more[i as int] == windows@[i as int]);
        if windows[i].near {
            let closer = match best {
                Some(b) => windows[i].distance < windows[b].distance,
                None => true,
            };
            if closer {
                best = Some(i);
            }
        }
        i += 1;
    }
    assert(windows@.take(windows@.len() as int) == windows@);
    best
}

/// What is known of the point that a window publishes for activating it.
pub struct ActivationFacts {
    /// Whether the point lies inside the live window.
    pub inside: bool,
    /// The process and the role of what is at that point right now.
    pub owner_pid: Option<i32>,
    pub owner_role: Option<String>,
}

/// Whether a window may be clicked in order to make it key: it publishes a point for that, inside
/// its own live frame, and what is there right now is a window of this very process. A guessed
/// point could be the close button.
pub fn window_focus_assist(pid: i32, point: Option<&ActivationFacts>) -> (r: bool)
    ensures
        r == match point {
            Some(p) => p.inside && p.owner_pid == Some(pid) && text_of(p.owner_role) == Some(
                "AXWindow"@,
            ),
            None => false,
        },
{
    match point {
        None => false,
        Some(p) => {
            let own = match p.owner_pid {
                Some(owner) => owner == pid,
                None => false,
            };
            let window = match &p.owner_role {
                Some(role) => same(role.as_str(), "AXWindow"),
                None => false,
            };
            p.inside && own && window
        },
    }
}

// -- laws --------------------------------------------------------------------------------------

/// A stale element is never pressed, on any route: where what the snapshot recorded is no longer
/// shown, no window is chosen, and the click ends with that finding whether or not accessibility was
/// tried first.
pub proof fn law_a_stale_element_is_never_pressed(
    pid: i32,
    snapshot: Option<Snapshot>,
    facts: PidClickFacts,
    original: Option<Seq<char>>,
)
    requires
        facts.has_point,
        facts.routed,
        staleness(expected_view(facts.expected), texts(facts.found@)) is Some,
    ensures
        click_window(pid, snapshot, facts) is Err,
        click_error(original, click_window(pid, snapshot, facts)->Err_0) == staleness(
            expected_view(facts.expected),
            texts(facts.found@),
        )->0,
        click_error(original, click_window(pid, snapshot, facts)->Err_0) is TargetChanged,
{
}

/// A click on an element is posted to no window but the live one that the last read was of, and only
/// while that holds the point.
pub proof fn law_a_click_stays_in_the_window_that_was_read(
    pid: i32,
    snapshot: Option<Snapshot>,
    facts: PidClickFacts,
)
    requires
        click_window(pid, snapshot, facts) is Ok,
    ensures
        window_of(snapshot) is Some,
        facts.listed is Ok,
        ({
            let at = first_live(facts.listed->Ok_0@, window_of(snapshot)->0, pid);
            &&& at is Some
            &&& facts.holds@[at->0]
            &&& click_window(pid, snapshot, facts)->Ok_0 == facts.listed->Ok_0@[at->0]
        }),
{
}

/// A pixel is only clicked in a window that was read, or in a live pop-up of an app that was read,
/// and never with a coordinate from a snapshot that has been replaced.
pub proof fn law_a_pixel_needs_a_window_that_was_read(
    info: AppInfo,
    snapshot: Option<Snapshot>,
    pixel: WindowPixel,
    facts: WindowClickFacts,
)
    requires
        pixel_plan(info, snapshot, pixel, facts) is Ok,
    ensures
        window_of(snapshot) is Some,
        window_of(snapshot)->0 == pixel.window_id || is_up(
            facts.listed->Ok_0@,
            pixel.window_id,
            info.pid,
        ),
        !pixel.negative,
        pixel.snapshot_id is Some ==> snapshot is Some && pixel.snapshot_id->0 == snapshot->0.id,
{
}

/// A drag is delivered only between two different points of one live window.
pub proof fn law_a_drag_needs_two_points_of_one_window(facts: DragFacts)
    ensures
        drag_objection(facts) is None <==> facts.routed && facts.live is Ok && facts.origin is Ok
            && facts.destination is Ok && !facts.same_point,
{
}

/// Two windows of accessibility are never both the counterpart of one live window.
pub proof fn law_the_counterpart_is_unique(windows: Seq<FrameMatch>, i: int, j: int)
    requires
        is_counterpart(windows, i),
        is_counterpart(windows, j),
    ensures
        i == j,
{
}

} // verus!
