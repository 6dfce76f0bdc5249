//! What the words for states, directions, buttons and keys promise.
use vstd::prelude::*;
use crate::session::kinds::{
    element_name, focus_verdict, named_mechanism, verb_for_key, Delivery, FocusState, Mechanism,
    Modifiers, MouseOptions, Observed, ScrollDir,
};
use crate::text::{ascii_lower, debug_quoted, joined, lowercase, same_but_case, trimmed};

verus! {

// -- words for states --------------------------------------------------------------------------

/// A mechanism is named by its own label, in either case and with space around it, and by no other
/// text.
pub proof fn law_a_mechanism_is_read_as_it_is_written(text: Seq<char>, m: Mechanism)
    ensures
        named_mechanism(text) == Some(m) <==> same_but_case(trimmed(text), m.label()),
        m == Mechanism::Ax ==> m.label() == "ax"@,
        m == Mechanism::Keystrokes ==> m.label() == "keystrokes"@,
{
    reveal_strlit("ax");
    reveal_strlit("keystrokes");
    assert(ascii_lower("ax"@) =~= "ax"@);
    assert(ascii_lower("keystrokes"@) =~= "keystrokes"@);
}

/// What was observed is told in a word of its own.
pub proof fn law_each_observation_has_its_word(a: Observed, b: Observed)
    ensures
        a.label() == b.label() ==> a == b,
{
    reveal_strlit("yes");
    reveal_strlit("no");
    reveal_strlit("unknown");
    assert("yes"@.len() != "no"@.len());
    assert("yes"@.len() != "unknown"@.len());
    assert("no"@.len() != "unknown"@.len());
}

/// Each way of reaching an app has a word of its own.
pub proof fn law_each_delivery_has_its_word(a: Delivery, b: Delivery)
    ensures
        a.label() == b.label() ==> a == b,
{
    reveal_strlit("ax");
    reveal_strlit("pid");
    reveal_strlit("pid (no element)");
    reveal_strlit("pid (keyboard)");
    assert("ax"@.len() != "pid"@.len());
    assert("ax"@.len() != "pid (no element)"@.len());
    assert("ax"@.len() != "pid (keyboard)"@.len());
    assert("pid"@.len() != "pid (no element)"@.len());
    assert("pid"@.len() != "pid (keyboard)"@.len());
    assert("pid (no element)"@.len() != "pid (keyboard)"@.len());
}

/// Each focus state has a word of its own.
pub proof fn law_each_focus_state_has_its_word(a: FocusState, b: FocusState)
    ensures
        a.label() == b.label() ==> a == b,
{
    reveal_strlit("verified");
    reveal_strlit("unverified");
    reveal_strlit("mismatched");
    assert("verified"@.len() != "unverified"@.len());
    assert("verified"@.len() != "mismatched"@.len());
    assert("unverified"@[0] != "mismatched"@[0]);
}

/// Each direction has a word of its own.
pub proof fn law_each_direction_has_its_word(a: ScrollDir, b: ScrollDir)
    ensures
        a.label() == b.label() ==> a == b,
{
    reveal_strlit("up");
    reveal_strlit("down");
    reveal_strlit("left");
    reveal_strlit("right");
    assert("up"@.len() != "down"@.len());
    assert("up"@.len() != "left"@.len());
    assert("up"@.len() != "right"@.len());
    assert("down"@[0] != "left"@[0]);
    assert("down"@.len() != "right"@.len());
    assert("left"@.len() != "right"@.len());
}

/// The action that scrolls by a page names the direction, with a capital: it is the direction's
/// word but for case, between the same two words each time.
pub proof fn law_a_page_verb_names_its_direction(dir: ScrollDir)
    ensures
        exists|word: Seq<char>|
            dir.page_verb() == #[trigger] ("AXScroll"@ + word + "ByPage"@) && ascii_lower(word)
                == dir.label(),
{
    reveal_strlit("AXScroll");
    reveal_strlit("ByPage");
    reveal_strlit("up");
    reveal_strlit("down");
    reveal_strlit("left");
    reveal_strlit("right");
    reveal_strlit("AXScrollUpByPage");
    reveal_strlit("AXScrollDownByPage");
    reveal_strlit("AXScrollLeftByPage");
    reveal_strlit("AXScrollRightByPage");
    let word = match dir {
        ScrollDir::Up => seq!['U', 'p'],
        ScrollDir::Down => seq!['D', 'o', 'w', 'n'],
        ScrollDir::Left => seq!['L', 'e', 'f', 't'],
        ScrollDir::Right => seq!['R', 'i', 'g', 'h', 't'],
    };
    assert(dir.page_verb() =~= "AXScroll"@ + word + "ByPage"@);
    assert(ascii_lower(word) =~= dir.label());
}

/// A wheel turns along one axis only, by the whole amount: up and down vertically, left and right
/// horizontally, towards the start with a positive sign.
pub proof fn law_a_wheel_turns_along_one_axis(dir: ScrollDir, amount: int)
    requires
        amount > 0,
    ensures
        dir.delta(amount).0 != 0 <==> dir == ScrollDir::Up || dir == ScrollDir::Down,
        dir.delta(amount).1 != 0 <==> dir == ScrollDir::Left || dir == ScrollDir::Right,
        dir.delta(amount).0 > 0 <==> dir == ScrollDir::Up,
        dir.delta(amount).1 > 0 <==> dir == ScrollDir::Left,
        dir.delta(amount).0 * dir.delta(amount).0 + dir.delta(amount).1 * dir.delta(amount).1
            == amount * amount,
{
    assert((-amount) * (-amount) == amount * amount) by (nonlinear_arith);
}

/// Focus counts as verified only where the app names the addressed element, and as mismatched only
/// where it names another: an app that names none gives no evidence either way.
pub proof fn law_silence_about_focus_is_no_evidence(answer: Option<bool>)
    ensures
        focus_verdict(answer) == FocusState::Unverified <==> answer is None,
        focus_verdict(answer) == FocusState::Verified <==> answer is Some && answer->0,
        focus_verdict(answer) == FocusState::Mismatched <==> answer is Some && !answer->0,
{
}

/// An element reads as its role and the first of its title, its description and its placeholder
/// that says anything; as its role alone where none does; and as an element where it has no role.
pub proof fn law_an_element_reads_as_the_first_text_that_says_anything(
    role: Option<Seq<char>>,
    texts: Seq<Option<Seq<char>>>,
    first: int,
)
    requires
        texts.len() == 3,
        0 <= first <= 3,
        forall|i: int| 0 <= i < first ==> (#[trigger] texts[i] is None || texts[i]->0.len() == 0),
        first < 3 ==> texts[first] is Some && texts[first]->0.len() > 0,
    ensures
        ({
            let name = element_name(role, texts[0], texts[1], texts[2]);
            let kind = if role is Some {
                role->0
            } else {
                "element"@
            };
            &&& first < 3 ==> name == kind + " "@ + debug_quoted(texts[first]->0)
            &&& first == 3 ==> name == kind
        }),
{
    assert(first > 0 ==> (texts[0] is None || texts[0]->0.len() == 0));
    assert(first > 1 ==> (texts[1] is None || texts[1]->0.len() == 0));
    assert(first > 2 ==> (texts[2] is None || texts[2]->0.len() == 0));
}

// -- pointer options ---------------------------------------------------------------------------

/// The names of the modifiers held are exactly those of the keys that are down, each once, and
/// always in the same order.
pub proof fn law_modifiers_are_named_as_they_are_held(held: Modifiers)
    ensures
        held.names().contains("cmd"@) <==> held.command,
        held.names().contains("shift"@) <==> held.shift,
        held.names().contains("alt"@) <==> held.alternate,
        held.names().contains("ctrl"@) <==> held.control,
        held.names().contains("fn"@) <==> held.function,
        held.names().no_duplicates(),
        forall|i: int, j: int|
            #![trigger held.names()[i], held.names()[j]]
            0 <= i < j < held.names().len() ==> {
                let order = seq!["cmd"@, "shift"@, "alt"@, "ctrl"@, "fn"@];
                order.index_of(held.names()[i]) < order.index_of(held.names()[j])
            },
        forall|i: int|
            0 <= i < held.names().len() ==> seq!["cmd"@, "shift"@, "alt"@, "ctrl"@, "fn"@].contains(
                #[trigger] held.names()[i],
            ),
{
    reveal_strlit("cmd");
    reveal_strlit("shift");
    reveal_strlit("alt");
    reveal_strlit("ctrl");
    reveal_strlit("fn");
    assert("cmd"@[0] != "alt"@[0]);
    let names = held.names();
    let order = seq!["cmd"@, "shift"@, "alt"@, "ctrl"@, "fn"@];
    assert(order[0] == "cmd"@ && order[1] == "shift"@ && order[2] == "alt"@ && order[3] == "ctrl"@
        && order[4] == "fn"@);
    assert("cmd"@.len() == 3 && "shift"@.len() == 5 && "alt"@.len() == 3 && "ctrl"@.len() == 4
        && "fn"@.len() == 2);
    assert forall|i: int, j: int| 0 <= i < 5 && 0 <= j < 5 && i != j implies #[trigger] order[i]
        != #[trigger] order[j] by {
        if order[i] == order[j] {
            assert(order[i].len() == order[j].len());
            assert(order[i][0] == order[j][0]);
        }
    }
    assert forall|k: int| 0 <= k < 5 implies #[trigger] order.index_of(order[k]) == k by {
        assert(order.contains(order[k]));
    }
    let a: int = if held.command { 1 } else { 0 };
    let b: int = a + if held.shift { 1int } else { 0 };
    let c: int = b + if held.alternate { 1int } else { 0 };
    let d: int = c + if held.control { 1int } else { 0 };
    let e: int = d + if held.function { 1int } else { 0 };
    assert(names.len() == e);
    assert(held.command ==> names[0] == "cmd"@);
    assert(held.shift ==> names[a] == "shift"@);
    assert(held.alternate ==> names[b] == "alt"@);
    assert(held.control ==> names[c] == "ctrl"@);
    assert(held.function ==> names[d] == "fn"@);
    assert forall|i: int| 0 <= i < names.len() implies {
        &&& order.contains(#[trigger] names[i])
        &&& i < a ==> order.index_of(names[i]) == 0 && held.command
        &&& a <= i < b ==> order.index_of(names[i]) == 1 && held.shift
        &&& b <= i < c ==> order.index_of(names[i]) == 2 && held.alternate
        &&& c <= i < d ==> order.index_of(names[i]) == 3 && held.control
        &&& d <= i < e ==> order.index_of(names[i]) == 4 && held.function
    } by {
        assert(order.index_of(order[0]) == 0 && order.index_of(order[1]) == 1 && order.index_of(
            order[2],
        ) == 2 && order.index_of(order[3]) == 3 && order.index_of(order[4]) == 4);
    }
}

/// Pointer options read as the button, after the modifiers where any is held.
pub proof fn law_pointer_options_end_in_the_button(options: MouseOptions)
    ensures
        ({
            let m = options.modifiers;
            let any = m.command || m.shift || m.alternate || m.control || m.function;
            &&& !any ==> options.wording() == options.button@
            &&& any ==> options.wording() == joined(m.names(), "+"@) + " "@ + options.button@
        }),
{
}

/// Only one unmodified click of the left button is what an accessibility action can stand in for: a
/// second click, another button or a key held along with it each makes a difference.
pub proof fn law_only_one_left_click_alone_is_plain(options: MouseOptions)
    ensures
        options.count > 1 ==> !options.plain(),
        options.button@ != "left"@ ==> !options.plain(),
        options.modifiers.command ==> !options.plain(),
        options.modifiers.shift ==> !options.plain(),
        options.modifiers.alternate ==> !options.plain(),
        options.modifiers.control ==> !options.plain(),
        options.modifiers.function ==> !options.plain(),
        options.count <= 1 && options.button@ == "left"@ && options.modifiers.names().len() == 0
            ==> options.plain(),
{
    let m = options.modifiers;
    law_modifiers_are_named_as_they_are_held(m);
    if m.names().len() == 0 {
        assert(!m.names().contains("cmd"@) && !m.names().contains("shift"@)
            && !m.names().contains("alt"@) && !m.names().contains("ctrl"@)
            && !m.names().contains("fn"@));
    }
}

// -- keys --------------------------------------------------------------------------------------

/// A key stands for an accessibility action by its name alone, whatever its case and the space
/// around it: return and enter confirm, escape cancels, the vertical arrows step, and no other key
/// has one.
pub proof fn law_a_key_acts_by_its_name(key: Seq<char>, verb: Seq<char>)
    ensures
        verb_for_key(key) == Some(verb) <==> {
            let name = lowercase(trimmed(key));
            ||| verb == "AXConfirm"@ && seq!["return"@, "enter"@].contains(name)
            ||| verb == "AXCancel"@ && seq!["escape"@, "esc"@].contains(name)
            ||| verb == "AXIncrement"@ && name == "up"@
            ||| verb == "AXDecrement"@ && name == "down"@
        },
{
    let name = lowercase(trimmed(key));
    reveal_strlit("return");
    reveal_strlit("enter");
    reveal_strlit("escape");
    reveal_strlit("esc");
    reveal_strlit("up");
    reveal_strlit("down");
    assert("return"@.len() == 6 && "enter"@.len() == 5 && "escape"@.len() == 6 && "esc"@.len() == 3
        && "up"@.len() == 2 && "down"@.len() == 4);
    assert("return"@[0] == 'r' && "escape"@[0] == 'e');
    let confirm = seq!["return"@, "enter"@];
    let cancel = seq!["escape"@, "esc"@];
    assert(confirm[0] == "return"@ && confirm[1] == "enter"@);
    assert(cancel[0] == "escape"@ && cancel[1] == "esc"@);
}

} // verus!
