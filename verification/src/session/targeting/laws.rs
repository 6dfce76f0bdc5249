//! When a target is honoured, and what is judged of it.
use vstd::prelude::*;
use crate::apps::AppInfo;
use crate::decimal::numeral;
use crate::safety::context::{caption_text, question_at};
use crate::safety::destructive::{confirms_default, default_button_note};
use crate::safety::gate::{verdict, Gate, Surroundings};
use crate::safety::runtime::HumanWatch;
use crate::session::error::CoreErrorText;
use crate::session::find::node_name;
use crate::session::store::{ProcessKey, Snapshot};
use crate::session::target::{Spot, Target};
use crate::session::targeting::{
    admission, aimed, generation_objection, gesture_window, judged, location_text,
    owns_default_button, projection, target_in, AimFacts, AncestorFacts, DefaultButton,
    PointerLocation, WINDOW_LIKE,
};
use crate::session::windows::{
    is_better_hit, is_hit, law_an_event_carries_a_live_window, HitFacts, WindowInfo,
};
use crate::text::{has_part, text_of};
use crate::text::laws::law_a_part_is_found;

verus! {

// -- resolving ---------------------------------------------------------------------------------

/// An index is honoured exactly where the process is still the one that was read, the snapshot it
/// cites, if any, is the current one, the snapshot has that many elements and the element has the
/// role it is expected to have, if any. It then names that very element.
pub proof fn law_an_index_is_honoured_while_it_holds(
    app: Seq<char>,
    s: Snapshot,
    current: ProcessKey,
    index: usize,
    cited: Option<u64>,
    role: Option<String>,
    hits: Seq<HitFacts>,
)
    ensures
        ({
            let r = target_in(
                app,
                Some(s),
                current,
                Target::Index { index, snapshot_id: cited, expected_role: role },
                hits,
            );
            &&& r is Ok <==> {
                &&& s.process_key == current
                &&& cited is None || cited->0 == s.id
                &&& index < s.nodes@.len()
                &&& role is None || role->0@ == s.nodes@[index as int].role@
            }
            &&& r is Ok ==> r->Ok_0 == (index, node_name(s.nodes@[index as int]))
        }),
{
}

/// A refused index is told the first thing that speaks against it: another process, another
/// snapshot, an index out of range, another role.
pub proof fn law_a_refused_index_is_told_why(
    app: Seq<char>,
    s: Snapshot,
    index: usize,
    cited: Option<u64>,
    role: Option<String>,
    hits: Seq<HitFacts>,
)
    ensures
        ({
            let r = target_in(
                app,
                Some(s),
                s.process_key,
                Target::Index { index, snapshot_id: cited, expected_role: role },
                hits,
            );
            let stale = cited is Some && cited->0 != s.id;
            let beyond = index >= s.nodes@.len();
            &&& stale ==> r == Err::<(usize, Seq<char>), CoreErrorText>(
                CoreErrorText::StaleSnapshot { index, given: cited->0, current: s.id },
            )
            &&& !stale && beyond ==> r == Err::<(usize, Seq<char>), CoreErrorText>(
                CoreErrorText::BadIndex { index, count: s.nodes.len() },
            )
            &&& !stale && !beyond && r is Err ==> r->Err_0 == (CoreErrorText::TokenRoleMismatch {
                index,
                expected: role->0@,
                found: s.nodes@[index as int].role@,
            })
        }),
{
}

/// A point is honoured exactly where the process is still the one that was read, the snapshot it
/// cites, if any, is the current one, nothing has been done to the app since, and some element
/// covers the point. The element it names covers it, and its name says where the point was.
pub proof fn law_a_point_is_honoured_while_the_geometry_holds(
    app: Seq<char>,
    s: Snapshot,
    current: ProcessKey,
    at: Spot,
    cited: Option<u64>,
    hits: Seq<HitFacts>,
)
    requires
        hits.len() == s.nodes@.len(),
    ensures
        ({
            let r = target_in(
                app,
                Some(s),
                current,
                Target::Point { at, snapshot_id: cited },
                hits,
            );
            &&& r is Ok <==> {
                &&& s.process_key == current
                &&& cited is None || cited->0 == s.id
                &&& !s.acted_on
                &&& exists|i: int| 0 <= i < hits.len() && (#[trigger] hits[i]).covers
            }
            &&& r is Ok ==> {
                let i = r->Ok_0.0 as int;
                &&& 0 <= i < hits.len()
                &&& hits[i].covers
                &&& r->Ok_0.1 == node_name(s.nodes@[i]) + " at "@ + at.exact@
            }
        }),
{
    lemma_covered_is_hit(hits, hits.len());
    if exists|i: int| is_hit(hits, i) {
        let i = choose|i: int| is_hit(hits, i);
        assert(hits[i].covers);
        assert(s.nodes.len() == s.nodes@.len());
    }
    if exists|i: int| 0 <= i < hits.len() && (#[trigger] hits[i]).covers {
        assert(hits.take(hits.len() as int) =~= hits);
    }
}

proof fn lemma_covered_is_hit(hits: Seq<HitFacts>, upto: nat)
    requires
        upto <= hits.len(),
    ensures
        (exists|i: int| 0 <= i < upto && (#[trigger] hits[i]).covers) ==> exists|i: int|
            is_hit(hits.take(upto as int), i),
    decreases upto,
{
    if upto > 0 {
        lemma_covered_is_hit(hits, (upto - 1) as nat);
        let now = hits.take(upto as int);
        let before = hits.take(upto - 1);
        assert(forall|j: int| 0 <= j < before.len() ==> before[j] == now[j]);
        let new = upto - 1;
        if exists|i: int| is_hit(before, i) {
            let b = choose|i: int| is_hit(before, i);
            assert(before[b].covers);
            if now[new].covers && is_better_hit(now[new], now[b]) {
                assert forall|j: int| 0 <= j < now.len() && (#[trigger] now[j]).covers implies
                    !is_better_hit(now[j], now[new]) && (j < new
                    ==> is_better_hit(now[new], now[j])) by {
                    if j < new {
                        assert(before[j].covers);
                    }
                }
                assert(is_hit(now, new));
            } else {
                assert forall|j: int| 0 <= j < now.len() && (#[trigger] now[j]).covers implies
                    !is_better_hit(now[j], now[b]) && (j < b
                    ==> is_better_hit(now[b], now[j])) by {
                    if j < new {
                        assert(before[j].covers);
                    }
                }
                assert(is_hit(now, b));
            }
        } else if now[new].covers {
            assert forall|j: int| 0 <= j < new implies !(#[trigger] now[j]).covers by {
                assert(now[j] == hits[j]);
            }
            assert(is_hit(now, new));
        } else if exists|i: int| 0 <= i < upto && (#[trigger] hits[i]).covers {
            let i = choose|i: int| 0 <= i < upto && (#[trigger] hits[i]).covers;
            assert(now[new] == hits[new]);
        }
    }
}

/// A window-local coordinate passes exactly where it cites nothing, or the snapshot that is
/// current.
pub proof fn law_a_coordinate_holds_for_its_own_snapshot(
    app: Seq<char>,
    snapshot: Option<Snapshot>,
    given: Option<u64>,
    at: Seq<char>,
)
    ensures
        generation_objection(app, snapshot, given, at) is None <==> given is None || (snapshot is Some
            && snapshot->0.id == given->0),
        given is Some && snapshot is Some && snapshot->0.id != given->0 ==> generation_objection(
            app,
            snapshot,
            given,
            at,
        ) == Some(
            CoreErrorText::StaleCoordinate { app, given: given->0, current: snapshot->0.id, at },
        ),
{
}

// -- windows and points ------------------------------------------------------------------------

/// A gesture is pinned to the window that the last read was of, while that window is listed under
/// its id, still belongs to the process and may be addressed; and to no other.
pub proof fn law_a_gesture_keeps_to_the_window_that_was_read(
    snapshot: Option<Snapshot>,
    pid: i32,
    windows: Seq<WindowInfo>,
)
    ensures
        ({
            let r = gesture_window(snapshot, pid, Ok(windows));
            let known = snapshot is Some && snapshot->0.window is Some;
            &&& r is Ok ==> known && windows.contains(r->Ok_0) && r->Ok_0.id
                == snapshot->0.window->0.id && r->Ok_0.pid == pid && r->Ok_0.addressable
            &&& !known ==> r is Err
            &&& known && (exists|i: int|
                0 <= i < windows.len() && (#[trigger] windows[i]).id == snapshot->0.window->0.id
                    && windows[i].pid == pid && windows[i].addressable) ==> r is Ok
        }),
{
    if snapshot is Some && snapshot->0.window is Some {
        law_an_event_carries_a_live_window(windows, snapshot->0.window->0.id, pid);
    }
}

/// A list of windows that could not be had is told with its reason, and no gesture goes out.
pub proof fn law_no_gesture_without_a_fresh_list(
    snapshot: Option<Snapshot>,
    pid: i32,
    e: Seq<char>,
)
    ensures
        gesture_window(snapshot, pid, Err(e)) is Err,
        snapshot is Some && snapshot->0.window is Some ==> has_part(
            gesture_window(snapshot, pid, Err(e))->Err_0,
            e,
        ),
{
    let a = "could not revalidate the window before input: "@;
    law_a_part_is_found(a, e, Seq::empty());
    assert(a + e =~= a + e + Seq::<char>::empty());
}

/// A location is named by the index or the coordinates that the caller gave.
pub proof fn law_a_location_is_named_as_it_was_given(
    index: usize,
    at: Spot,
    cited: Option<u64>,
    role: Option<String>,
)
    ensures
        has_part(
            location_text(
                PointerLocation::Element(
                    Target::Index { index, snapshot_id: cited, expected_role: role },
                ),
            ),
            numeral(index as nat),
        ),
        has_part(
            location_text(PointerLocation::Element(Target::Point { at, snapshot_id: cited })),
            at.exact@,
        ),
        has_part(location_text(PointerLocation::WindowPoint { at }), at.rounded@),
{
    let none = Seq::<char>::empty();
    law_a_part_is_found("element "@, numeral(index as nat), none);
    assert("element "@ + numeral(index as nat) + none =~= "element "@ + numeral(index as nat));
    law_a_part_is_found("the element at "@, at.exact@, none);
    assert("the element at "@ + at.exact@ + none =~= "the element at "@ + at.exact@);
    law_a_part_is_found("window-local "@, at.rounded@, none);
    assert("window-local "@ + at.rounded@ + none =~= "window-local "@ + at.rounded@);
}

/// An element is aimed at exactly where it was resolved, has a point and that point lies in the
/// window; a pixel exactly where its coordinates hold, are not negative and lie in the window. The
/// aim says which of the two it is.
pub proof fn law_an_aim_stays_inside_its_window(
    app: Seq<char>,
    snapshot: Option<Snapshot>,
    live: WindowInfo,
    facts: AimFacts,
    cited: Option<u64>,
    screen: Seq<char>,
    inside: bool,
)
    ensures
        ({
            let r = aimed(app, snapshot, live, facts, cited, screen, inside);
            &&& r is Ok ==> inside
            &&& r is Ok ==> (r->Ok_0.1 <==> facts is Element)
            &&& facts is Element ==> (r is Ok <==> {
                &&& inside
                &&& facts->Element_resolved is Ok
                &&& facts->Element_has_point
            })
            &&& facts is Element && r is Ok ==> r->Ok_0.0 == facts->Element_resolved->Ok_0@
            &&& facts is Pixel ==> (r is Ok <==> {
                &&& inside
                &&& !facts->Pixel_negative
                &&& cited is None || (snapshot is Some && snapshot->0.id == cited->0)
            })
            &&& facts is Pixel && r is Ok ==> has_part(r->Ok_0.0, facts->Pixel_local@)
            &&& facts is Element && facts->Element_resolved is Err ==> r == Err::<
                (Seq<char>, bool),
                Seq<char>,
            >(facts->Element_resolved->Err_0@.sentence())
        }),
{
    if facts is Pixel {
        law_a_part_is_found(
            "window-local "@,
            facts->Pixel_local@,
            " — no element, the caller aimed this"@,
        );
    }
}

// -- what an action would land on --------------------------------------------------------------

/// What is judged of an index is the element it names, with its own texts and the caption and the
/// question around it, unless a key presses the default button instead.
pub proof fn law_what_is_named_is_what_is_judged(
    s: Snapshot,
    index: usize,
    cited: Option<u64>,
    role: Option<String>,
    hits: Seq<HitFacts>,
    key: Option<Seq<char>>,
    button: Option<DefaultButton>,
)
    requires
        key is None || !confirms_default(key->0) || button is None,
    ensures
        ({
            let target = Target::Index { index, snapshot_id: cited, expected_role: role };
            let c = judged(Some(s), target, hits, key, button);
            let n = s.nodes@[index as int];
            &&& c is Some <==> index < s.nodes@.len()
            &&& c is Some ==> {
                &&& c->0.role == n.role@
                &&& c->0.label == text_of(n.label)
                &&& c->0.value == text_of(n.value)
                &&& c->0.help == text_of(n.help)
                &&& c->0.settable == n.settable
                &&& c->0.description == node_name(n)
                &&& c->0.caption == caption_text(projection(s.nodes@), n.index as int)
                &&& c->0.context == question_at(projection(s.nodes@), n.index as int)
            }
        }),
{
}

/// Every element is shown to the rules whole: none is left out, and its role, its texts and its
/// parent are its own.
pub proof fn law_the_rules_see_every_element(s: Snapshot, i: int)
    requires
        0 <= i < s.nodes@.len(),
    ensures
        projection(s.nodes@).len() == s.nodes@.len(),
        projection(s.nodes@)[i].parent == s.nodes@[i].parent,
        projection(s.nodes@)[i].role == s.nodes@[i].role@,
        projection(s.nodes@)[i].subrole == text_of(s.nodes@[i].subrole),
        projection(s.nodes@)[i].label == text_of(s.nodes@[i].label),
        projection(s.nodes@)[i].value == text_of(s.nodes@[i].value),
        projection(s.nodes@)[i].help == text_of(s.nodes@[i].help),
        projection(s.nodes@)[i].settable == s.nodes@[i].settable,
{
}

/// What is judged of a point is an element that covers it; where none does, nothing.
pub proof fn law_a_point_is_judged_by_what_covers_it(
    s: Snapshot,
    at: Spot,
    cited: Option<u64>,
    hits: Seq<HitFacts>,
)
    requires
        hits.len() == s.nodes@.len(),
    ensures
        ({
            let c = judged(Some(s), Target::Point { at, snapshot_id: cited }, hits, None, None);
            &&& c is Some <==> exists|i: int| 0 <= i < hits.len() && (#[trigger] hits[i]).covers
            &&& c is Some ==> exists|i: int|
                {
                    &&& 0 <= i < hits.len()
                    &&& (#[trigger] hits[i]).covers
                    &&& c->0.label == text_of(s.nodes@[i].label)
                    &&& c->0.role == s.nodes@[i].role@
                    &&& c->0.description == node_name(s.nodes@[i])
                }
        }),
{
    lemma_covered_is_hit(hits, hits.len());
    assert(hits.take(hits.len() as int) =~= hits);
    assert(s.nodes.len() == s.nodes@.len());
    if exists|i: int| is_hit(hits, i) {
        let i = choose|i: int| is_hit(hits, i);
        assert(hits[i].covers);
    }
}

/// A key that presses the default button is judged by that button, under the question that stands
/// around the element; the element's own label, value and caption no longer count.
pub proof fn law_a_default_button_is_judged_in_place_of_the_element(
    s: Snapshot,
    target: Target,
    hits: Seq<HitFacts>,
    key: Seq<char>,
    button: DefaultButton,
)
    requires
        confirms_default(key),
    ensures
        ({
            let plain = judged(Some(s), target, hits, None, None);
            let c = judged(Some(s), target, hits, Some(key), Some(button));
            &&& c is Some <==> plain is Some
            &&& c is Some ==> {
                &&& c->0.label == text_of(button.label)
                &&& button.role is Some ==> c->0.role == button.role->0@
                &&& button.role is None ==> c->0.role.len() == 0
                &&& c->0.value is None
                &&& c->0.caption is None
                &&& !c->0.settable
                &&& c->0.context == plain->0.context
                &&& c->0.help == plain->0.help
                &&& has_part(c->0.description, button.description@)
            }
        }),
{
    let none = Seq::<char>::empty();
    let note = default_button_note();
    law_a_part_is_found(none, button.description@, note);
    assert(none + button.description@ + note =~= button.description@ + note);
}

/// A default button is owned by a sheet, a dialog, a window or a popover that publishes one, and by
/// nothing else.
pub proof fn law_windows_own_default_buttons(a: AncestorFacts)
    ensures
        owns_default_button(a) <==> a.has_default_button && a.role is Some && seq![
            "AXSheet"@,
            "AXDialog"@,
            "AXWindow"@,
            "AXPopover"@,
        ].contains(a.role->0@),
{
    let all = seq!["AXSheet"@, "AXDialog"@, "AXWindow"@, "AXPopover"@];
    assert(all[0] == "AXSheet"@ && all[1] == "AXDialog"@ && all[2] == "AXWindow"@ && all[3]
        == "AXPopover"@);
    assert(WINDOW_LIKE@.len() == 4);
    assert(WINDOW_LIKE@[0]@ == "AXSheet"@ && WINDOW_LIKE@[1]@ == "AXDialog"@ && WINDOW_LIKE@[2]@
        == "AXWindow"@ && WINDOW_LIKE@[3]@ == "AXPopover"@);
}

/// An action on an element is judged by that element, whatever label comes along with it; one
/// without an element by its label; and one without either by nothing but the app.
pub proof fn law_an_element_is_judged_before_a_label(
    info: AppInfo,
    watch: HumanWatch,
    around: Surroundings,
    gate: Gate,
    snapshot: Option<Snapshot>,
    hits: Seq<HitFacts>,
    button: Option<DefaultButton>,
)
    ensures
        ({
            let r = admission(info, watch, around, gate, snapshot, hits, button);
            let against = if gate.target is Some {
                verdict(
                    info,
                    watch.watch,
                    around,
                    gate,
                    judged(snapshot, gate.target->0, hits, text_of(gate.key), button),
                )
            } else if gate.labelled is Some {
                verdict(info, watch.watch, around, gate, Some(gate.labelled->0@))
            } else {
                verdict(info, watch.watch, around, gate, None)
            };
            &&& r is None <==> against is None
            &&& r is Some ==> r == Some(CoreErrorText::Refused(against->0))
        }),
{
}

} // verus!
