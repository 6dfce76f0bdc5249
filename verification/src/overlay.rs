//! What is told to the process that draws where the agent is acting.
use vstd::prelude::*;
use crate::decimal::{decimal, numeral, signed_decimal, signed_numeral};
use crate::text::{joined, owned};

verus! {

/// What comes next when the drawn cursor is to be moved.
#[derive(Debug, Clone, Copy, PartialEq, Eq, Structural)]
pub enum OverlayStep {
    /// Nothing: the cursor is not drawn in this run.
    Skip,
    /// Start the process that draws, and ask again.
    Start,
    /// Hand the line to the process.
    Write,
    /// Warn that the process could not be started, and draw nothing from now on.
    Disable,
}

/// What comes next, given whether drawing has been disabled, whether the process runs, and what
/// starting it came to where that has been tried.
pub open spec fn next_step(disabled: bool, running: bool, started: Option<bool>) -> OverlayStep {
    if disabled {
        OverlayStep::Skip
    } else if running || started == Some(true) {
        OverlayStep::Write
    } else if started is None {
        OverlayStep::Start
    } else {
        OverlayStep::Disable
    }
}

/// Decides what comes next when the drawn cursor is to be moved.
///
/// An agent that cannot draw a cursor still acts: a process that is missing or does not start is
/// warned of once, and the cursor is not drawn.
pub fn overlay_step(disabled: bool, running: bool, started: Option<bool>) -> (r: OverlayStep)
    ensures
        r == next_step(disabled, running, started),
{
    if disabled {
        return OverlayStep::Skip;
    }
    if running {
        return OverlayStep::Write;
    }
    match started {
        Some(true) => OverlayStep::Write,
        Some(false) => OverlayStep::Disable,
        None => OverlayStep::Start,
    }
}

/// Once drawing is disabled there is no further warning, no further start and no further line.
pub proof fn law_a_disabled_overlay_stays_silent(running: bool, started: Option<bool>)
    ensures
        next_step(true, running, started) == OverlayStep::Skip,
{
}

/// The line for the drawn cursor: where to move, whether to flash, and the window and process that
/// it is pinned to. Without a window to pin it to it is hidden rather than shown over everything.
pub open spec fn mark_line(
    x: Seq<char>,
    y: Seq<char>,
    clicking: bool,
    target: Option<(u32, i32)>,
) -> Seq<char> {
    match target {
        Some((window, pid)) => (if clicking {
            "click"@
        } else {
            "move"@
        }) + " "@ + x + " "@ + y + " "@ + numeral(window as nat) + " "@ + signed_numeral(pid as int)
            + "\n"@,
        None => "hide\n"@,
    }
}

/// Writes the line for the drawn cursor, given how the coordinates read.
pub fn mark(x: &str, y: &str, clicking: bool, target: Option<(u32, i32)>) -> (r: String)
    ensures
        r@ == mark_line(x@, y@, clicking, target),
{
    match target {
        None => owned("hide\n"),
        Some((window, pid)) => {
            let mut out = owned(
                if clicking {
                    "click"
                } else {
                    "move"
                },
            );
            out.append(" ");
            out.append(x);
            out.append(" ");
            out.append(y);
            out.append(" ");
            out.append(decimal(window as u64).as_str());
            out.append(" ");
            out.append(signed_decimal(pid as i64).as_str());
            out.append("\n");
            out
        },
    }
}

/// A line is written exactly where there is a process to write it to. The process is started once:
/// where that has not been tried, and it does not run. Drawing is given up exactly where starting
/// was tried and failed.
pub proof fn law_the_overlay_is_started_once(disabled: bool, running: bool, started: Option<bool>)
    ensures
        next_step(disabled, running, started) == OverlayStep::Write <==> !disabled && (running || (
        started is Some && started->0)),
        next_step(disabled, running, started) == OverlayStep::Start <==> !disabled && !running
            && started is None,
        next_step(disabled, running, started) == OverlayStep::Disable <==> !disabled && !running
            && started is Some && !started->0,
{
}

/// A mark is one line that says whether to flash, where, and which window and process it is pinned
/// to, with a space between each; and a mark without a window hides the cursor, whatever else it is
/// given.
pub proof fn law_a_mark_is_one_line_of_its_parts(
    x: Seq<char>,
    y: Seq<char>,
    clicking: bool,
    window: u32,
    pid: i32,
)
    ensures
        ({
            let words = seq![
                if clicking {
                    "click"@
                } else {
                    "move"@
                },
                x,
                y,
                numeral(window as nat),
                signed_numeral(pid as int),
            ];
            mark_line(x, y, clicking, Some((window, pid))) == joined(words, " "@) + "\n"@
        }),
        mark_line(x, y, clicking, None) == "hide\n"@,
{
    let first = if clicking {
        "click"@
    } else {
        "move"@
    };
    let n = numeral(window as nat);
    let p = signed_numeral(pid as int);
    let words = seq![first, x, y, n, p];
    reveal_with_fuel(joined, 6);
    assert(words.drop_last() =~= seq![first, x, y, n]);
    assert(seq![first, x, y, n].drop_last() =~= seq![first, x, y]);
    assert(seq![first, x, y].drop_last() =~= seq![first, x]);
    assert(seq![first, x].drop_last() =~= seq![first]);
    assert(joined(seq![first, x], " "@) =~= first + " "@ + x);
    assert(mark_line(x, y, clicking, Some((window, pid))) =~= joined(words, " "@) + "\n"@);
}

} // verus!
