//! What each action comes to: when it goes out, what its report says, and what is told where it
//! does not.
use vstd::prelude::*;
use crate::apps::AppInfo;
use crate::decimal::{numeral, signed_numeral};
use crate::menubar::{MenuListing, MenuWalkError};
use crate::session::actions::{ax_outcome, ActionText, NO_QUIET_ROUTE};
use crate::session::actions::keyboard::{
    focus_objection, key_words, posted_keys, route_of_key, verb_objection, verb_words,
    KeyRouteText,
};
use crate::session::actions::menu::{
    disabled_text, press_objection, row_candidate, row_text, unsupported_action, LandedRow,
};
use crate::session::actions::pointer::{
    click_error, click_verb, click_window, drag_error, drag_objection, drag_verb, expected_at,
    gesture_delivery, hover_error, is_counterpart, is_up, other_window_text,
    outside_window_text, pixel_plan, pixel_target, DragFacts, FrameMatch, PidClickFacts,
    PidFailureText, WindowClickFacts, WindowPixel,
};
use crate::session::actions::scroll::{
    as_signed, no_wheel_point_text, points_of, wheel_error, wheel_off_text, wheel_outside_text,
    wheel_verb, wheel_window, WheelFacts, ASK_IN_PAGES, DELIVER_ANYWAY, WHEEL_SCROLLS_NOTHING,
};
use crate::session::actions::write::selection_verb;
use crate::session::delivery::KeyboardStrategy;
use crate::session::error::CoreErrorText;
use crate::session::kinds::{
    verb_for_key, Delivery, FocusCheckText, FocusState, MouseOptions, ScrollAmount, ScrollDir,
};
use crate::session::observe::Settled;
use crate::session::store::Snapshot;
use crate::session::target::{Spot, Target};
use crate::session::targeting::{location_text, window_of, PointerLocation};
use crate::session::tokens::{all_present, list_text, recorded_tokens};
use crate::session::windows::{
    first_live, law_an_event_carries_a_live_window, PointBits, WindowInfo,
};
use crate::text::{has_part, texts};
use crate::text::laws::{law_a_longer_text_holds_what_it_held, law_neighbours_stand_together};

verus! {

// -- reports -----------------------------------------------------------------------------------

/// An action that accessibility carried reports the verb, the target, what changed and the pop-ups
/// that are up, and says that accessibility carried it. One that accessibility refused reports what
/// accessibility said.
pub proof fn law_an_action_reports_what_it_did(
    settled: Settled,
    e: String,
    verb: Seq<char>,
    target: Seq<char>,
    point: Option<PointBits>,
    overlay: Option<(u32, i32)>,
)
    ensures
        ({
            let r = ax_outcome(Ok(settled), verb, target, point, overlay);
            &&& r is Ok
            &&& r->Ok_0.verb == verb
            &&& r->Ok_0.target == target
            &&& r->Ok_0.ui_changed == settled.changed
            &&& r->Ok_0.popups == settled.popups@
            &&& r->Ok_0.delivery == Delivery::Ax
            &&& r->Ok_0.point == point
            &&& r->Ok_0.overlay_target == overlay
            &&& r->Ok_0.state is None
            &&& r->Ok_0.focus is None
        }),
        ax_outcome(Err(e), verb, target, point, overlay) == Err::<ActionText, CoreErrorText>(
            CoreErrorText::Ax(e@),
        ),
{
}

/// Posted keys report what any action does and the focus besides; where they could not be posted,
/// the key and the reason.
pub proof fn law_posted_keys_report_what_they_did(
    settled: Settled,
    e: String,
    key: Seq<char>,
    verb: Seq<char>,
    target: Seq<char>,
    focus: FocusCheckText,
    point: Option<PointBits>,
    overlay: Option<(u32, i32)>,
)
    ensures
        ({
            let r = posted_keys(Ok(settled), key, verb, target, focus, point, overlay);
            let plain = ax_outcome(Ok(settled), verb, target, point, overlay);
            &&& r is Ok
            &&& r->Ok_0 == (ActionText {
                delivery: Delivery::PidKey,
                focus: Some(focus),
                ..plain->Ok_0
            })
        }),
        posted_keys(Err(e), key, verb, target, focus, point, overlay) == Err::<
            ActionText,
            CoreErrorText,
        >(CoreErrorText::PidKeyUnavailable { key, reason: e@ }),
{
}

// -- keys --------------------------------------------------------------------------------------

/// A key goes to the process exactly where it reads as a chord; where only accessibility may be
/// used, it goes out as the verb that it stands for, and a key that stands for none is refused
/// whether or not it reads as a chord.
pub proof fn law_a_key_takes_the_route_it_can(key: Seq<char>, chord: Result<(), Seq<char>>)
    ensures
        ({
            let r = route_of_key(KeyboardStrategy::Pid, key, chord);
            &&& r is Ok <==> chord is Ok
            &&& r is Ok ==> r->Ok_0 is Pid
            &&& r is Err ==> r->Err_0 == (CoreErrorText::KeyChordUnparseable {
                key,
                reason: chord->Err_0,
            })
        }),
        ({
            let r = route_of_key(KeyboardStrategy::AxOnly, key, chord);
            &&& r is Ok <==> verb_for_key(key) is Some
            &&& r is Ok ==> r->Ok_0 == KeyRouteText::Verb(verb_for_key(key)->0)
            &&& r is Err ==> r->Err_0 == (CoreErrorText::KeyNoAccessibilityEquivalent { key })
        }),
{
}

/// Where strict focus refuses a key, it says what was being sent, where to, and which element the
/// app names instead.
pub proof fn law_a_focus_refusal_names_both_elements(
    focus: FocusCheckText,
    what: Seq<char>,
    addressed: Seq<char>,
)
    requires
        focus.state == FocusState::Mismatched,
    ensures
        ({
            let r = focus_objection(true, focus, what, addressed);
            &&& r is Some
            &&& r->0 is FocusMismatch
            &&& r->0->FocusMismatch_what == what
            &&& r->0->addressed == addressed
            &&& focus.focused_instead is Some ==> r->0->focused == focus.focused_instead->0
        }),
{
}

/// A verb is refused exactly where the element does not take it, and what is said lists those that
/// it takes.
pub proof fn law_a_verb_needs_an_element_that_takes_it(
    key: Seq<char>,
    verb: Seq<char>,
    available: Seq<Seq<char>>,
)
    ensures
        verb_objection(key, verb, available) is None <==> exists|i: int|
            0 <= i < available.len() && #[trigger] available[i] == verb,
        verb_objection(key, verb, available) is Some ==> verb_objection(key, verb, available)
            == Some(
            CoreErrorText::KeyVerbUnsupported { key, verb, available: list_text(available) },
        ),
        has_part(unsupported_action(verb, available), verb),
        has_part(unsupported_action(verb, available), list_text(available)),
{
    broadcast use law_a_longer_text_holds_what_it_held;

    let none = Seq::<char>::empty();
    assert(none + verb =~= verb);
    assert(has_part(none + verb, verb));
}

/// The words for a key hold the key, and those for a verb both.
pub proof fn law_a_key_is_named_as_it_was_given(before: Seq<char>, verb: Seq<char>, key: Seq<char>)
    ensures
        has_part(key_words(before, key), before + key),
        has_part(verb_words(verb, key), verb),
        has_part(verb_words(verb, key), " (for "@ + key),
{
    broadcast use law_a_longer_text_holds_what_it_held, law_neighbours_stand_together;

    let none = Seq::<char>::empty();
    assert(none + before + key =~= before + key);
    assert(has_part(none + before + key, before + key));
    assert(none + verb =~= verb);
    assert(has_part(none + verb, verb));
}

// -- menu rows ---------------------------------------------------------------------------------

/// A menu row is pressed exactly where a path was given, it led to a row and the row opens no
/// submenu.
pub proof fn law_a_row_is_pressed_where_it_does_something(
    app: Seq<char>,
    steps: nat,
    walked: Result<(MenuListing, Option<LandedRow>), MenuWalkError>,
)
    ensures
        press_objection(app, steps, walked) is None <==> {
            &&& steps > 0
            &&& walked is Ok
            &&& match walked {
                Ok((_, row)) => row is Some && !texts(row->0.child_roles@).contains("AXMenu"@),
                Err(_) => false,
            }
        },
        steps > 0 && walked is Err ==> press_objection(app, steps, walked) == Some(
            CoreErrorText::MenuPath { app, reason: walked->Err_0@.sentence() },
        ),
        press_objection(app, steps, walked) is Some ==> {
            let e = press_objection(app, steps, walked)->0;
            e is MenuPath && e->MenuPath_app == app
        },
{
}

/// A menu row is judged by its title alone, as a menu item that stands under no question, and told
/// by its path.
pub proof fn law_a_row_is_judged_by_its_title(path: Seq<char>, title: Seq<char>)
    ensures
        ({
            let c = row_candidate(path, Some(title));
            &&& c.role == "AXMenuItem"@
            &&& c.label == Some(title)
            &&& c.value is None
            &&& c.help is None
            &&& c.caption is None
            &&& c.context is None
            &&& !c.settable
            &&& has_part(c.description, path)
        }),
        has_part(row_text(path), path),
        has_part(disabled_text(path), path),
{
    broadcast use law_a_longer_text_holds_what_it_held;

    assert(has_part("menu item `"@ + path, path));
    assert(has_part(row_text(path), path));
}

// -- clicks ------------------------------------------------------------------------------------

/// An index is held to what the snapshot recorded of the element; a point, which was resolved a
/// moment ago, to nothing.
pub proof fn law_an_index_is_held_to_what_was_recorded(
    s: Snapshot,
    index: usize,
    cited: Option<u64>,
    role: Option<String>,
    at: Spot,
)
    ensures
        expected_at(Target::Index { index, snapshot_id: cited, expected_role: role }, Some(s))
            == Some((index, recorded_tokens(s.nodes@, index))),
        expected_at(Target::Point { at, snapshot_id: cited }, Some(s)) is None,
{
}

/// A click on an element goes out exactly where the element has a point, there is a quiet route,
/// the element still shows what was recorded of it, and the window that was read is live and holds
/// the point. It goes to that window.
pub proof fn law_a_click_goes_out_where_everything_still_holds(
    pid: i32,
    snapshot: Option<Snapshot>,
    facts: PidClickFacts,
)
    requires
        facts.listed is Ok ==> facts.holds@.len() == facts.listed->Ok_0@.len(),
    ensures
        ({
            let r = click_window(pid, snapshot, facts);
            let shown = match facts.expected {
                Some((_, recorded)) => all_present(texts(recorded@), texts(facts.found@)),
                None => true,
            };
            let live = first_live(facts.listed->Ok_0@, window_of(snapshot)->0, pid);
            &&& r is Ok <==> {
                &&& facts.has_point
                &&& facts.routed
                &&& shown
                &&& snapshot is Some && snapshot->0.window is Some
                &&& facts.listed is Ok
                &&& live is Some && facts.holds@[live->0]
            }
            &&& r is Ok ==> {
                &&& r->Ok_0.id == snapshot->0.window->0.id
                &&& r->Ok_0.pid == pid
                &&& r->Ok_0.addressable
            }
            &&& r is Err && r->Err_0 is Fatal <==> facts.has_point && facts.routed && !shown
        }),
{
    if snapshot is Some && snapshot->0.window is Some && facts.listed is Ok {
        law_an_event_carries_a_live_window(facts.listed->Ok_0@, snapshot->0.window->0.id, pid);
    }
}

/// A click that was not made is told with its reason, and with what accessibility had said where
/// that was tried first; a change of the element is told as it is.
pub proof fn law_an_unmade_click_is_told_with_its_reason(
    original: Seq<char>,
    reason: Seq<char>,
    change: CoreErrorText,
)
    ensures
        click_error(None, PidFailureText::Retryable(reason)) == (CoreErrorText::PidClickFailed {
            reason,
        }),
        click_error(Some(original), PidFailureText::Retryable(reason)) == (
        CoreErrorText::PidClickUnavailable { original, reason }),
        click_error(None, PidFailureText::Fatal(change)) == change,
        click_error(Some(original), PidFailureText::Fatal(change)) == change,
{
}

/// A click reads with its count, its button and its place.
pub proof fn law_a_click_reads_with_its_count_and_place(mouse: MouseOptions, place: Seq<char>)
    ensures
        has_part(click_verb(mouse, place), numeral(mouse.count as nat) + "-click ("@),
        has_part(click_verb(mouse, place), "-click ("@ + mouse.wording()),
        has_part(click_verb(mouse, place), ") at "@ + place),
{
    broadcast use law_a_longer_text_holds_what_it_held, law_neighbours_stand_together;

}

/// A pixel is clicked exactly where its coordinates hold, there is a quiet route, neither
/// coordinate is negative, the app has been read, and its window is the one that was read or a
/// pop-up that is up, live, and holds the pixel. It is clicked in that very window.
pub proof fn law_a_pixel_is_clicked_where_everything_still_holds(
    info: AppInfo,
    snapshot: Option<Snapshot>,
    pixel: WindowPixel,
    facts: WindowClickFacts,
)
    requires
        facts.listed is Ok ==> facts.holds@.len() == facts.listed->Ok_0@.len(),
    ensures
        ({
            let r = pixel_plan(info, snapshot, pixel, facts);
            let windows = facts.listed->Ok_0@;
            let popup = exists|i: int|
                0 <= i < windows.len() && (#[trigger] windows[i]).id == pixel.window_id
                    && windows[i].pid == info.pid && windows[i].popup;
            let live = first_live(windows, pixel.window_id, info.pid);
            &&& r is Ok <==> {
                &&& pixel.snapshot_id is None || (snapshot is Some && snapshot->0.id
                    == pixel.snapshot_id->0)
                &&& facts.routed
                &&& !pixel.negative
                &&& facts.listed is Ok
                &&& snapshot is Some && snapshot->0.window is Some
                &&& snapshot->0.window->0.id == pixel.window_id || popup
                &&& live is Some && facts.holds@[live->0]
            }
            &&& r is Ok ==> {
                let (w, up) = r->Ok_0;
                &&& w.id == pixel.window_id
                &&& w.pid == info.pid
                &&& w.addressable
                &&& up == popup
            }
        }),
{
    if facts.listed is Ok {
        let windows = facts.listed->Ok_0@;
        law_an_event_carries_a_live_window(windows, pixel.window_id, info.pid);
        let popup = exists|i: int|
            0 <= i < windows.len() && (#[trigger] windows[i]).id == pixel.window_id
                && windows[i].pid == info.pid && windows[i].popup;
        assert(is_up(windows, pixel.window_id, info.pid) == popup);
    }
}

/// A click on a pixel is told with the window and the app, and says so where the window is a
/// pop-up.
pub proof fn law_a_clicked_pixel_is_told_with_its_window(wid: u32, app: Seq<char>, popup: bool)
    ensures
        has_part(pixel_target(wid, app, popup), "window "@ + numeral(wid as nat)),
        has_part(pixel_target(wid, app, popup), " of "@ + app),
        popup ==> has_part(
            pixel_target(wid, app, popup),
            ", a pop-up accessibility cannot see into"@,
        ),
        pixel_target(wid, app, true) != pixel_target(wid, app, false),
{
    broadcast use law_a_longer_text_holds_what_it_held, law_neighbours_stand_together;

    let n = numeral(wid as nat);
    assert(Seq::<char>::empty() + "window "@ + n =~= "window "@ + n);
    assert(has_part(Seq::<char>::empty() + "window "@ + n, "window "@ + n));
    reveal_strlit(", a pop-up accessibility cannot see into");
    reveal_strlit("");
    assert(pixel_target(wid, app, true).len() > pixel_target(wid, app, false).len());
}

// -- gestures ----------------------------------------------------------------------------------

/// Of what speaks against a drag the first is told: the route, the window, the start, the end.
pub proof fn law_a_refused_drag_is_told_the_first_reason(facts: DragFacts)
    ensures
        !facts.routed ==> drag_objection(facts) == Some(NO_QUIET_ROUTE@),
        facts.routed && facts.live is Err ==> drag_objection(facts) == Some(facts.live->Err_0@),
        facts.routed && facts.live is Ok && facts.origin is Err ==> drag_objection(facts) == Some(
            facts.origin->Err_0@,
        ),
        facts.routed && facts.live is Ok && facts.origin is Ok && facts.destination is Err
            ==> drag_objection(facts) == Some(facts.destination->Err_0@),
        facts.routed && facts.live is Ok && facts.origin is Ok && facts.destination is Ok
            && facts.same_point ==> drag_objection(facts) is Some && has_part(
            drag_objection(facts)->0,
            facts.at@,
        ),
{
    broadcast use law_a_longer_text_holds_what_it_held;

    assert(has_part("both ends resolve to the same point "@ + facts.at@, facts.at@));
}

/// A drag reads with its button, its start, its end and the number of moves between; a refused one
/// names both ends as the caller gave them.
pub proof fn law_a_drag_is_told_with_both_ends(
    mouse: MouseOptions,
    from: Seq<char>,
    to: Seq<char>,
    steps: nat,
    app: Seq<char>,
    start: PointerLocation,
    end: PointerLocation,
    reason: Seq<char>,
)
    ensures
        has_part(drag_verb(mouse, from, to, steps), mouse.button@ + " drag ("@),
        has_part(drag_verb(mouse, from, to, steps), ") from "@ + from),
        has_part(drag_verb(mouse, from, to, steps), " to "@ + to),
        has_part(drag_verb(mouse, from, to, steps), " through "@ + numeral(steps)),
        drag_error(app, start, end, reason) == (CoreErrorText::DragRefused {
            app,
            from: location_text(start),
            to: location_text(end),
            reason,
        }),
{
    broadcast use law_a_longer_text_holds_what_it_held, law_neighbours_stand_together;

}

/// A gesture claims an element only where one was found at every point that it touched.
pub proof fn law_a_raw_pixel_claims_no_element(verified: bool)
    ensures
        gesture_delivery(verified) == Delivery::Pid <==> verified,
        gesture_delivery(verified) == Delivery::PidNoElement <==> !verified,
{
}

/// The counterpart of a live window is near enough, no other that is near enough is nearer, and
/// wherever any is near enough there is one.
pub proof fn law_the_nearest_window_is_the_counterpart(windows: Seq<FrameMatch>)
    ensures
        (exists|i: int| is_counterpart(windows, i)) <==> exists|i: int|
            0 <= i < windows.len() && (#[trigger] windows[i]).near,
        forall|i: int, j: int|
            #[trigger] is_counterpart(windows, i) && 0 <= j < windows.len() && (
            #[trigger] windows[j]).near ==> windows[i].near && windows[i].distance
                <= windows[j].distance,
    decreases windows.len(),
{
    if windows.len() > 0 {
        let front = windows.drop_last();
        let last = windows.last();
        law_the_nearest_window_is_the_counterpart(front);
        assert(forall|j: int| 0 <= j < front.len() ==> front[j] == windows[j]);
        if exists|i: int| is_counterpart(front, i) {
            let b = choose|i: int| is_counterpart(front, i);
            assert(front[b].near);
            if last.near && last.distance < front[b].distance {
                assert forall|j: int|
                    0 <= j < windows.len() && (#[trigger] windows[j]).near implies last.distance
                    <= windows[j].distance && (j < windows.len() - 1 ==> last.distance
                    < windows[j].distance) by {
                    if j < front.len() {
                        assert(front[j].near);
                    }
                }
                assert(is_counterpart(windows, windows.len() - 1));
            } else {
                assert forall|j: int|
                    0 <= j < windows.len() && (
                    #[trigger] windows[j]).near implies windows[b].distance <= windows[j].distance
                    && (j < b ==> windows[b].distance < windows[j].distance) by {
                    if j < front.len() {
                        assert(front[j].near);
                    }
                }
                assert(is_counterpart(windows, b));
            }
        } else if last.near {
            assert forall|j: int| 0 <= j < front.len() implies !(#[trigger] windows[j]).near by {
                assert(front[j] == windows[j]);
            }
            assert(is_counterpart(windows, windows.len() - 1));
        } else {
            assert forall|j: int| 0 <= j < windows.len() implies !(#[trigger] windows[j]).near by {
                if j < front.len() {
                    assert(front[j] == windows[j]);
                }
            }
        }
    }
}

// -- scrolling and selecting -------------------------------------------------------------------

/// A wheel event goes out exactly where it is switched on, there is a quiet route, the element has
/// a point, the window is live and the point lies in it. It goes to that window.
pub proof fn law_a_wheel_turns_where_everything_holds(enabled: bool, facts: WheelFacts)
    ensures
        wheel_window(enabled, facts) is Ok <==> {
            &&& enabled
            &&& facts.routed
            &&& facts.has_point
            &&& facts.live is Ok
            &&& facts.inside
        },
        wheel_window(enabled, facts) is Ok ==> wheel_window(enabled, facts)->Ok_0
            == facts.live->Ok_0,
        enabled && facts.routed && facts.has_point && facts.live is Err ==> wheel_window(
            enabled,
            facts,
        )->Err_0 == facts.live->Err_0@,
        enabled && facts.routed && facts.has_point && facts.live is Ok && !facts.inside
            ==> has_part(wheel_window(enabled, facts)->Err_0, facts.at@),
{
    broadcast use law_a_longer_text_holds_what_it_held;

    assert(has_part("the wheel point "@ + facts.at@, facts.at@));
}

/// Points are scrolled as they are given, pages by what a page of the element is worth; no pages
/// count as one, and one page more is one page's worth more.
pub proof fn law_pages_are_worth_what_one_page_is(page: int, pages: u32, points: u32)
    requires
        points <= i32::MAX,
        pages < i32::MAX,
    ensures
        points_of(ScrollAmount::Points(points), page) == points,
        points_of(ScrollAmount::Pages(0), page) == page,
        points_of(ScrollAmount::Pages(1), page) == page,
        pages > 0 ==> points_of(ScrollAmount::Pages((pages + 1) as u32), page) == points_of(
            ScrollAmount::Pages(pages),
            page,
        ) + page,
{
    assert(page * (pages + 1) == page * pages + page) by (nonlinear_arith);
    assert(page * 1 == page) by (nonlinear_arith);
}

/// Taken as signed, a number stays what it is up to the largest signed one, and is a whole range
/// less beyond.
pub proof fn law_a_signed_number_keeps_its_bits(n: u32)
    ensures
        i32::MIN <= as_signed(n) <= i32::MAX,
        (as_signed(n) - n) % 0x1_0000_0000 == 0,
{
}

/// A wheel event reads with its direction, its amount and its place, and says so where the element
/// advertises no scrolling; a selection reads with where it starts and how long it is.
pub proof fn law_a_wheel_is_told_with_its_direction(
    dir: ScrollDir,
    points: int,
    at: Seq<char>,
    advertises: bool,
    offset: int,
    length: int,
)
    ensures
        has_part(wheel_verb(dir, points, at, advertises), dir.label()),
        has_part(wheel_verb(dir, points, at, advertises), " by "@ + signed_numeral(points)),
        has_part(wheel_verb(dir, points, at, advertises), " points at "@ + at),
        !advertises ==> has_part(
            wheel_verb(dir, points, at, advertises),
            " (this element advertises no AXScroll action)"@,
        ),
        wheel_verb(dir, points, at, true) != wheel_verb(dir, points, at, false),
        has_part(
            selection_verb(offset, length),
            "AXSelectedTextRange={offset:"@ + signed_numeral(offset),
        ),
        has_part(selection_verb(offset, length), ",length:"@ + signed_numeral(length)),
{
    broadcast use law_a_longer_text_holds_what_it_held, law_neighbours_stand_together;

    reveal_strlit(" (this element advertises no AXScroll action)");
    reveal_strlit("");
    assert(wheel_verb(dir, points, at, true).len() < wheel_verb(dir, points, at, false).len());
    let none = Seq::<char>::empty();
    let head = "AXSelectedTextRange={offset:"@;
    assert(none + head + signed_numeral(offset) =~= head + signed_numeral(offset));
    assert(has_part(none + head + signed_numeral(offset), head + signed_numeral(offset)));
}

/// A wheel event or a hover that is not delivered names the app and the reason.
pub proof fn law_an_undelivered_event_names_its_app(app: Seq<char>, reason: Seq<char>)
    ensures
        wheel_error(app, reason) is PointerEventRefused,
        wheel_error(app, reason)->PointerEventRefused_app == app,
        wheel_error(app, reason)->PointerEventRefused_reason == reason,
        hover_error(app, reason) is PointerEventRefused,
        hover_error(app, reason)->PointerEventRefused_app == app,
        hover_error(app, reason)->PointerEventRefused_reason == reason,
        wheel_error(app, reason) != hover_error(app, reason),
{
    reveal_strlit("hover (mouseMoved) event");
    reveal_strlit("scroll wheel event");
    let a = wheel_error(app, reason)->event;
    let b = hover_error(app, reason)->event;
    assert(b.len() == 24);
    assert(a != b);
}

/// A point that has left its window, and a window that was not read, are told with the numbers of
/// the windows and the size or the frame.
pub proof fn law_a_missed_window_is_told_with_its_number(
    at: Seq<char>,
    w: WindowInfo,
    seen: u32,
    wid: u32,
)
    ensures
        has_part(wheel_outside_text(at, w), "the wheel point "@ + at),
        has_part(
            wheel_outside_text(at, w),
            " is outside the current frame of window "@ + numeral(w.id as nat),
        ),
        has_part(wheel_outside_text(at, w), " ("@ + w.frame_text@),
        has_part(outside_window_text(w, at), "the window is currently "@ + w.size_text@),
        has_part(outside_window_text(w, at), " points, so "@ + at),
        has_part(outside_window_text(w, at), " falls outside it (frame "@ + w.frame_text@),
        has_part(
            other_window_text(seen, wid),
            "the last get_app_state of this app read window "@ + numeral(seen as nat),
        ),
        has_part(other_window_text(seen, wid), ", not "@ + numeral(wid as nat)),
{
    broadcast use law_a_longer_text_holds_what_it_held, law_neighbours_stand_together;

    let none = Seq::<char>::empty();
    let a = "the wheel point "@;
    let b = "the window is currently "@;
    let c = "the last get_app_state of this app read window "@;
    assert(none + a + at =~= a + at);
    assert(has_part(none + a + at, a + at));
    assert(none + b + w.size_text@ =~= b + w.size_text@);
    assert(has_part(none + b + w.size_text@, b + w.size_text@));
    assert(none + c + numeral(seen as nat) =~= c + numeral(seen as nat));
    assert(has_part(none + c + numeral(seen as nat), c + numeral(seen as nat)));
}

/// What is said of a wheel depends on whether the element advertises a scroll action: where it
/// does, the caller is pointed to asking in pages.
pub proof fn law_an_advertised_scroll_is_pointed_to()
    ensures
        has_part(wheel_off_text(true), ASK_IN_PAGES@),
        wheel_off_text(false) == WHEEL_SCROLLS_NOTHING@ + DELIVER_ANYWAY@,
        has_part(no_wheel_point_text(true), "a scroll action but the caller asked in points"@),
        has_part(no_wheel_point_text(false), "no scroll action"@),
{
    broadcast use law_a_longer_text_holds_what_it_held;

    reveal_strlit("");
    assert(wheel_off_text(false) =~= WHEEL_SCROLLS_NOTHING@ + DELIVER_ANYWAY@);
}

} // verus!
