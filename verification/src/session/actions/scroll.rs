//! Scrolling.
use vstd::prelude::*;
use crate::apps::AppInfo;
use crate::decimal::{decimal, numeral, signed_decimal, signed_numeral};
use crate::session::actions::{
    action_outcome, ax_action, ax_outcome, landed, ActionResult, ActionText, NO_QUIET_ROUTE,
};
use crate::session::delivery::ScrollCapability;
use crate::session::error::{outcome, CoreError, CoreErrorText};
use crate::session::kinds::{page_count, Delivery, ScrollAmount, ScrollDir};
use crate::session::observe::Settled;
use crate::session::windows::{PointBits, WindowInfo};
use crate::text::owned;

verus! {

/// Reports a scroll that went through the element's own page action.
pub fn scroll(
    done: Result<Settled, String>,
    dir: ScrollDir,
    target: String,
    point: Option<PointBits>,
    overlay_target: Option<(u32, i32)>,
) -> (r: Result<ActionResult, CoreError>)
    ensures
        action_outcome(r) == ax_outcome(done, dir.page_verb(), target@, point, overlay_target),
{
    ax_action(done, dir.verb(), target, point, overlay_target)
}

/// What a wheel event is called in an error.
pub const WHEEL_EVENT: &'static str = "scroll wheel event";

pub const WHEEL_SCROLLS_NOTHING: &'static str =
    "cua-rs refuses this rather than pretending: a pid-routed scrollWheel event is delivered and \
    scrolls nothing. Measured against the window's own pixels on a native AXScrollArea and on \
    Chromium web content, in both pixel and line units, while a pid-routed `pagedown` keystroke \
    scrolled the same window in the same run — so the scroll event is what fails, not the routing. \
    Use press_key with `pagedown`, `pageup`, `down` or `up` on this element instead";

pub const ASK_IN_PAGES: &'static str =
    ", or ask in pages rather than points so the accessibility scroll action this element does \
    advertise is used";

pub const DELIVER_ANYWAY: &'static str =
    ". Set CUA_WHEEL_SCROLL=1 to deliver it anyway and re-run the experiment";

/// What is said where wheel events are switched off.
pub open spec fn wheel_off_text(advertises: bool) -> Seq<char> {
    WHEEL_SCROLLS_NOTHING@ + (if advertises {
        ASK_IN_PAGES@
    } else {
        ""@
    }) + DELIVER_ANYWAY@
}

/// What is said where there is nothing to aim at.
pub open spec fn no_wheel_point_text(advertises: bool) -> Seq<char> {
    "this element advertises "@ + (if advertises {
        "a scroll action but the caller asked in points"@
    } else {
        "no scroll action"@
    })
        + ", and it publishes neither AXActivationPoint nor AXFrame, so there is no point to aim a \
        wheel event at"@
}

/// What is said where the wheel point lies outside the window.
pub open spec fn wheel_outside_text(at: Seq<char>, w: WindowInfo) -> Seq<char> {
    "the wheel point "@ + at + " is outside the current frame of window "@ + numeral(w.id as nat)
        + " ("@ + w.frame_text@
        + "); the AX element and window snapshot drifted apart. Call get_app_state again"@
}

/// What is known right before a wheel event is posted.
pub struct WheelFacts {
    /// Whether the element advertises a scroll action.
    pub advertises: bool,
    pub routed: bool,
    /// Whether the element has a point of its own.
    pub has_point: bool,
    /// The live window that the event is pinned to.
    pub live: Result<WindowInfo, String>,
    /// How the point reads that the wheel is aimed at, and whether it lies in the window.
    pub at: String,
    pub inside: bool,
}

/// The window that a wheel event is posted to, or what speaks against it.
pub open spec fn wheel_window(enabled: bool, facts: WheelFacts) -> Result<WindowInfo, Seq<char>> {
    if !enabled {
        Err(wheel_off_text(facts.advertises))
    } else if !facts.routed {
        Err(NO_QUIET_ROUTE@)
    } else if !facts.has_point {
        Err(no_wheel_point_text(facts.advertises))
    } else {
        match facts.live {
            Err(why) => Err(why@),
            Ok(w) => if facts.inside {
                Ok(w)
            } else {
                Err(wheel_outside_text(facts.at@, w))
            },
        }
    }
}

/// The error of a wheel event that is not delivered.
pub open spec fn wheel_error(app: Seq<char>, reason: Seq<char>) -> CoreErrorText {
    CoreErrorText::PointerEventRefused { app, event: WHEEL_EVENT@, reason }
}

fn refused_wheel(info: &AppInfo, reason: String) -> (r: CoreError)
    ensures
        r@ == wheel_error(info.name@, reason@),
{
    CoreError::PointerEventRefused { app: owned(info.name.as_str()), event: WHEEL_EVENT, reason }
}

/// Decides whether a wheel event is posted, and to which window. Off by default: the event is
/// measured to scroll nothing, and a refusal that names another way gets the caller further than a
/// delivery that does nothing.
pub fn plan_wheel(info: &AppInfo, capability: ScrollCapability, facts: WheelFacts) -> (r: Result<
    WindowInfo,
    CoreError,
>)
    ensures
        outcome(r) == match wheel_window(capability.wheel_enabled, facts) {
            Ok(w) => Ok::<WindowInfo, CoreErrorText>(w),
            Err(reason) => Err(wheel_error(info.name@, reason)),
        },
{
    if !capability.wheel_enabled {
        let mut why = owned(WHEEL_SCROLLS_NOTHING);
        why.append(
            if facts.advertises {
                ASK_IN_PAGES
            } else {
                ""
            },
        );
        why.append(DELIVER_ANYWAY);
        return Err(refused_wheel(info, why));
    }
    if !facts.routed {
        return Err(refused_wheel(info, owned(NO_QUIET_ROUTE)));
    }
    if !facts.has_point {
        let mut why = owned("this element advertises ");
        why.append(
            if facts.advertises {
                "a scroll action but the caller asked in points"
            } else {
                "no scroll action"
            },
        );
        why.append(
            ", and it publishes neither AXActivationPoint nor AXFrame, so there is no point to aim a \
        wheel event at",
        );
        return Err(refused_wheel(info, why));
    }
    let live = match facts.live {
        Ok(w) => w,
        Err(why) => {
            return Err(refused_wheel(info, why));
        },
    };
    if !facts.inside {
        let mut why = owned("the wheel point ");
        why.append(facts.at.as_str());
        why.append(" is outside the current frame of window ");
        why.append(decimal(live.id as u64).as_str());
        why.append(" (");
        why.append(live.frame_text.as_str());
        why.append(
            "); the AX element and window snapshot drifted apart. Call get_app_state again",
        );
        return Err(refused_wheel(info, why));
    }
    Ok(live)
}

/// A number taken as a signed one of the same width: from half the range on it comes out negative.
pub open spec fn as_signed(n: u32) -> int {
    if n <= i32::MAX {
        n as int
    } else {
        n - 0x1_0000_0000
    }
}

/// How many points a request scrolls by, given how many points one page of the element is worth.
pub open spec fn points_of(amount: ScrollAmount, page: int) -> int {
    match amount {
        ScrollAmount::Points(p) => as_signed(p),
        ScrollAmount::Pages(pages) => page * as_signed(
            if pages == 0 {
                1
            } else {
                pages
            },
        ),
    }
}

fn signed(n: u32) -> (r: i32)
    ensures
        r == as_signed(n),
{
    assert(n <= 0x7fff_ffff ==> n as i32 == n) by (bit_vector);
    assert(n > 0x7fff_ffff ==> n as i32 == n - 0x1_0000_0000) by (bit_vector);
    n as i32
}

/// Computes [`points_of`].
pub fn wheel_points(amount: ScrollAmount, page: i32) -> (r: i32)
    requires
        i32::MIN <= points_of(amount, page as int) <= i32::MAX,
    ensures
        r == points_of(amount, page as int),
{
    match amount {
        ScrollAmount::Points(p) => signed(p),
        ScrollAmount::Pages(pages) => page * signed(page_count(pages)),
    }
}

/// How a wheel event reads.
pub open spec fn wheel_verb(
    dir: ScrollDir,
    points: int,
    at: Seq<char>,
    advertises: bool,
) -> Seq<char> {
    "SkyLight pid-routed scrollWheel "@ + dir.label() + " by "@ + signed_numeral(points)
        + " points at "@ + at + (if advertises {
        ""@
    } else {
        " (this element advertises no AXScroll action)"@
    })
}

/// A wheel event that was planned.
pub struct PlannedWheel {
    pub window: u32,
    pub dir: ScrollDir,
    pub points: i32,
    pub at: String,
    pub advertises: bool,
    pub point: PointBits,
}

/// Reports a wheel event: what it changed, or why posting failed. It is addressed at a point, so
/// there is no focus to report.
pub fn wheel_scroll(
    info: &AppInfo,
    target: String,
    plan: &PlannedWheel,
    posted: Result<Settled, String>,
) -> (r: Result<ActionResult, CoreError>)
    ensures
        action_outcome(r) == match posted {
            Ok(settled) => Ok::<ActionText, CoreErrorText>(
                landed(
                    wheel_verb(plan.dir, plan.points as int, plan.at@, plan.advertises),
                    target@,
                    settled,
                    Delivery::Pid,
                    Some(plan.point),
                    Some((plan.window, info.pid)),
                ),
            ),
            Err(e) => Err(wheel_error(info.name@, e@)),
        },
{
    let settled = match posted {
        Ok(s) => s,
        Err(e) => {
            return Err(refused_wheel(info, e));
        },
    };
    let mut verb = owned("SkyLight pid-routed scrollWheel ");
    verb.append(plan.dir.as_str());
    verb.append(" by ");
    verb.append(signed_decimal(plan.points as i64).as_str());
    verb.append(" points at ");
    verb.append(plan.at.as_str());
    verb.append(
        if plan.advertises {
            ""
        } else {
            " (this element advertises no AXScroll action)"
        },
    );
    Ok(
        ActionResult::carried(
            verb,
            target,
            settled,
            Delivery::Pid,
            Some(plan.point),
            Some((plan.window, info.pid)),
        ),
    )
}

// -- laws --------------------------------------------------------------------------------------

/// While wheel events are switched off none is delivered, whatever else holds.
pub proof fn law_no_wheel_event_without_the_switch(facts: WheelFacts)
    ensures
        wheel_window(false, facts) is Err,
{
}

/// Zero pages scroll as far as one.
pub proof fn law_zero_pages_are_one(page: int)
    ensures
        points_of(ScrollAmount::Pages(0), page) == points_of(ScrollAmount::Pages(1), page),
        points_of(ScrollAmount::Pages(1), page) == page,
{
    assert(page * 1 == page) by (nonlinear_arith);
}

} // verus!
