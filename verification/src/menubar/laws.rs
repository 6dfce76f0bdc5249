//! What a menu path, a row of a menu and an answer about one come to.
use vstd::prelude::*;
use crate::menubar::{
    all_control, before_last, listed_row, modifier_names, path_steps, quoted_each, shortcut,
    suggestions, MenuWalkErrorText, RowFacts,
};
use crate::menubar::walk::{is_step, law_a_joined_path_has_one_more_step, move_after, WalkMove};
use crate::text::{
    debug_quoted, has_part, is_control_code, is_white_space, joined, lowercase, non_empty,
    pieces, text_of, trimmed, trimmed_each, CharKind,
};
use crate::text::laws::{
    law_a_part_is_found, law_joining_separates_neighbours,
    law_trimming_takes_the_outer_white_space,
};
use crate::text::lemmas::{
    lemma_non_empty_concat, lemma_non_empty_keeps, lemma_non_empty_kept, lemma_non_empty_one,
    lemma_one_piece, lemma_pieces_concat, lemma_trimmed_each_concat,
};

verus! {

// -- paths -------------------------------------------------------------------------------------

/// A path is read from left to right: the steps on one side of a `>` are followed by those on the
/// other.
pub proof fn law_a_path_is_read_from_left_to_right(a: Seq<char>, b: Seq<char>)
    ensures
        path_steps(a + seq!['>'] + b) == path_steps(a) + path_steps(b),
{
    let k = CharKind::Just('>');
    assert(a + seq!['>'] + b =~= a.push('>') + b);
    lemma_pieces_concat(a, '>', b, k);
    lemma_trimmed_each_concat(pieces(a, k), pieces(b, k));
    lemma_non_empty_concat(trimmed_each(pieces(a, k)), trimmed_each(pieces(b, k)));
}

/// A path without a `>` is one step, without the space around it; a blank one is the menu bar.
pub proof fn law_a_title_is_one_step(title: Seq<char>)
    requires
        !title.contains('>'),
    ensures
        trimmed(title).len() > 0 ==> path_steps(title) == seq![trimmed(title)],
        trimmed(title).len() == 0 ==> path_steps(title).len() == 0,
{
    let k = CharKind::Just('>');
    assert forall|i: int| 0 <= i < title.len() implies !k.has(#[trigger] title[i]) by {
        assert(title.contains(title[i]));
    }
    lemma_one_piece(title, k);
    assert(trimmed_each(seq![title]) =~= seq![trimmed(title)]);
    lemma_non_empty_one(trimmed(title));
}

/// What stands before the last of a character is found exactly where the character occurs, and
/// behind it there is no other.
pub proof fn law_the_last_separator_is_the_last(s: Seq<char>, c: char)
    ensures
        before_last(s, c) is Some <==> s.contains(c),
        before_last(s, c) is Some ==> exists|tail: Seq<char>|
            s == #[trigger] (before_last(s, c)->0 + seq![c] + tail) && !tail.contains(c),
    decreases s.len(),
{
    if s.len() > 0 {
        let front = s.drop_last();
        law_the_last_separator_is_the_last(front, c);
        assert(s =~= front.push(s.last()));
        if s.last() == c {
            let none = Seq::<char>::empty();
            assert(s =~= front + seq![c] + none);
            assert(s[s.len() - 1] == c);
        } else {
            if front.contains(c) {
                let i = choose|i: int| 0 <= i < front.len() && front[i] == c;
                assert(s[i] == c);
                let tail = choose|tail: Seq<char>|
                    front == #[trigger] (before_last(front, c)->0 + seq![c] + tail)
                        && !tail.contains(c);
                let longer = tail.push(s.last());
                assert(s =~= before_last(s, c)->0 + seq![c] + longer);
                if longer.contains(c) {
                    let j = choose|j: int| 0 <= j < longer.len() && longer[j] == c;
                    assert(tail[j] == c);
                }
            }
            if s.contains(c) {
                let i = choose|i: int| 0 <= i < s.len() && s[i] == c;
                assert(front[i] == c);
            }
        }
    }
}

// -- rows --------------------------------------------------------------------------------------

spec fn held(on: bool, name: Seq<char>) -> Seq<char> {
    if on {
        name + "+"@
    } else {
        Seq::empty()
    }
}

spec fn named(on: bool, name: Seq<char>) -> Seq<Seq<char>> {
    if on {
        seq![name]
    } else {
        Seq::empty()
    }
}

proof fn lemma_name_before(on: bool, name: Seq<char>, rest: Seq<Seq<char>>, text: Seq<char>)
    requires
        rest.len() > 0,
        joined(rest, "+"@) == text,
    ensures
        joined(named(on, name) + rest, "+"@) == held(on, name) + text,
        (named(on, name) + rest).len() > 0,
{
    if on {
        law_joining_separates_neighbours(seq![name], rest, name, "+"@);
    } else {
        assert(named(on, name) + rest =~= rest);
        assert(held(on, name) + text =~= text);
    }
}

proof fn lemma_names_joined(
    command: bool,
    control: bool,
    alternate: bool,
    shift: bool,
    bits: u32,
    key: Seq<char>,
)
    requires
        (bits & 8 == 0) == command,
        (bits & 4 != 0) == control,
        (bits & 2 != 0) == alternate,
        (bits & 1 != 0) == shift,
    ensures
        joined(modifier_names(bits).push(key), "+"@) == held(command, "cmd"@) + held(
            control,
            "ctrl"@,
        ) + held(alternate, "alt"@) + held(shift, "shift"@) + key,
{
    let a = named(command, "cmd"@);
    let b = named(control, "ctrl"@);
    let c = named(alternate, "alt"@);
    let d = named(shift, "shift"@);
    let one = seq![key];
    let x = held(command, "cmd"@);
    let y = held(control, "ctrl"@);
    let z = held(alternate, "alt"@);
    let w = held(shift, "shift"@);
    assert(modifier_names(bits) == a + b + c + d);
    assert((a + b + c + d).push(key) =~= a + (b + (c + (d + one))));
    assert(joined(one, "+"@) == key);
    lemma_name_before(shift, "shift"@, one, key);
    lemma_name_before(alternate, "alt"@, d + one, w + key);
    lemma_name_before(control, "ctrl"@, c + (d + one), z + (w + key));
    lemma_name_before(command, "cmd"@, b + (c + (d + one)), y + (z + (w + key)));
    lemma_regrouped(x, y, z, w, key);
}

proof fn lemma_regrouped(x: Seq<char>, y: Seq<char>, z: Seq<char>, w: Seq<char>, key: Seq<char>)
    ensures
        x + (y + (z + (w + key))) == x + y + z + w + key,
{
    assert(x + (y + (z + (w + key))) =~= x + y + z + w + key);
}

/// A shortcut is spelled with each modifier that is held, always in the same order, and then the
/// key in lower case. Command is held unless the app says otherwise; the others only where it says
/// so. Whatever else a modifier byte holds is of no account.
pub proof fn law_a_shortcut_spells_what_is_held(
    drawn: Seq<char>,
    command: bool,
    control: bool,
    alternate: bool,
    shift: bool,
    rest: u32,
)
    requires
        rest < 0x1000,
        trimmed(drawn).len() > 0,
        exists|i: int|
            0 <= i < trimmed(drawn).len() && !is_control_code(#[trigger] trimmed(drawn)[i]),
    ensures
        ({
            let bits = (rest * 16 + (if command { 0int } else { 8 }) + (if control { 4int } else { 0 })
                + (if alternate { 2int } else { 0 }) + (if shift { 1int } else { 0 })) as u32;
            let none = Seq::<char>::empty();
            shortcut(Some(drawn), Some(bits)) == Some(
                (if command { "cmd"@ + "+"@ } else { none })
                    + (if control { "ctrl"@ + "+"@ } else { none })
                    + (if alternate { "alt"@ + "+"@ } else { none })
                    + (if shift { "shift"@ + "+"@ } else { none }) + lowercase(trimmed(drawn)),
            )
        }),
{
    let bits = (rest * 16 + (if command { 0int } else { 8 }) + (if control { 4int } else { 0 })
        + (if alternate { 2int } else { 0 }) + (if shift { 1int } else { 0 })) as u32;
    let a: u32 = if command { 0 } else { 8 };
    let b: u32 = if control { 4 } else { 0 };
    let c: u32 = if alternate { 2 } else { 0 };
    let d: u32 = if shift { 1 } else { 0 };
    assert(bits == rest * 16 + a + b + c + d);
    assert(bits & 8 == a && bits & 4 == b && bits & 2 == c && bits & 1 == d) by (bit_vector)
        requires
            bits == rest * 16 + a + b + c + d,
            rest < 0x1000,
            a == 0 || a == 8,
            b == 0 || b == 4,
            c == 0 || c == 2,
            d == 0 || d == 1,
    ;
    assert(!all_control(trimmed(drawn)));
    lemma_names_joined(command, control, alternate, shift, bits, lowercase(trimmed(drawn)));
}

/// An app that says nothing of the modifiers means command alone.
pub proof fn law_command_is_held_by_default(drawn: Option<Seq<char>>)
    ensures
        shortcut(drawn, None) == shortcut(drawn, Some(0)),
        shortcut(drawn, None) is Some ==> shortcut(drawn, None)->0 == "cmd"@ + "+"@ + lowercase(
            trimmed(drawn->0),
        ),
{
    let bits: u32 = 0;
    assert(bits & 8 == 0 && bits & 4 == 0 && bits & 2 == 0 && bits & 1 == 0) by (bit_vector)
        requires
            bits == 0,
    ;
    if drawn is Some {
        lemma_names_joined(true, false, false, false, 0, lowercase(trimmed(drawn->0)));
        assert(held(true, "cmd"@) + held(false, "ctrl"@) + held(false, "alt"@) + held(
            false,
            "shift"@,
        ) + lowercase(trimmed(drawn->0)) =~= "cmd"@ + "+"@ + lowercase(trimmed(drawn->0)));
    }
}

/// A row has a shortcut exactly where something is drawn for it that is neither space nor a control
/// character, whatever its modifiers.
pub proof fn law_a_shortcut_needs_a_key(drawn: Option<Seq<char>>, modifiers: Option<u32>)
    ensures
        shortcut(drawn, modifiers) is Some <==> drawn is Some && exists|i: int|
            0 <= i < trimmed(drawn->0).len() && !is_control_code(#[trigger] trimmed(drawn->0)[i]),
{
}

/// A row is listed as the app describes it: its title, whether it can be chosen, whether it opens a
/// submenu and its mark, where there is more to the mark than space. Its path is that of its level
/// with its title as one more step, so it can be handed back.
pub proof fn law_a_row_is_listed_as_it_is(row: RowFacts, path: Seq<char>)
    ensures
        row.title is Some ==> listed_row(row, path).title == row.title->0@,
        row.title is None ==> listed_row(row, path).title.len() == 0,
        listed_row(row, path).enabled <==> row.enabled is Some && row.enabled->0,
        listed_row(row, path).has_submenu == row.has_submenu,
        listed_row(row, path).shortcut == shortcut(text_of(row.cmd_char), row.modifiers),
        listed_row(row, path).mark is Some <==> row.mark is Some && exists|i: int|
            0 <= i < row.mark->0@.len() && !is_white_space(#[trigger] row.mark->0@[i]),
        listed_row(row, path).mark is Some ==> listed_row(row, path).mark == Some(row.mark->0@),
        row.title is Some && is_step(row.title->0@) ==> path_steps(listed_row(row, path).path)
            == path_steps(path) + seq![row.title->0@],
{
    if row.title is Some && is_step(row.title->0@) {
        law_a_joined_path_has_one_more_step(path, row.title->0@);
        assert(path_steps(path).push(row.title->0@) =~= path_steps(path) + seq![row.title->0@]);
    }
    if row.mark is Some {
        let m = row.mark->0@;
        law_trimming_takes_the_outer_white_space(m);
        let (before, after) = choose|before: Seq<char>, after: Seq<char>|
            {
                &&& m == #[trigger] (before + trimmed(m) + after)
                &&& forall|i: int| 0 <= i < before.len() ==> is_white_space(#[trigger] before[i])
                &&& forall|i: int| 0 <= i < after.len() ==> is_white_space(#[trigger] after[i])
            };
        if trimmed(m).len() > 0 {
            assert(m[before.len() as int] == trimmed(m)[0]);
        } else {
            assert forall|i: int| 0 <= i < m.len() implies is_white_space(#[trigger] m[i]) by {
                if i < before.len() {
                    assert(m[i] == before[i]);
                } else {
                    assert(m[i] == after[i - before.len()]);
                }
            }
        }
    }
}

// -- the walk ----------------------------------------------------------------------------------

/// A walk goes down exactly where there is a submenu to go down to and a step left to take there.
/// On its last step it lists the submenu, and on a row without one the level it stands on.
pub proof fn law_a_walk_goes_down_while_it_can(has_submenu: bool, last: bool)
    ensures
        (move_after(has_submenu, last) == WalkMove::Descend) == (has_submenu && !last),
        (move_after(has_submenu, last) == WalkMove::ListSubmenu) == (has_submenu && last),
        (move_after(has_submenu, last) == WalkMove::ListLevel) == !has_submenu,
{
}

/// Suggestions are the titles in quotes, in their order, with commas between; a separator, which
/// has no title, is not suggested.
pub proof fn law_suggestions_are_the_titles(titles: Seq<Seq<char>>, title: Seq<char>)
    ensures
        suggestions(Seq::empty()).len() == 0,
        title.len() == 0 ==> suggestions(titles.push(title)) == suggestions(titles),
        title.len() > 0 && (forall|i: int|
            0 <= i < titles.len() ==> (#[trigger] titles[i]).len() == 0) ==> suggestions(
            titles.push(title),
        ) == debug_quoted(title),
        title.len() > 0 && (exists|i: int|
            0 <= i < titles.len() && (#[trigger] titles[i]).len() > 0) ==> suggestions(
            titles.push(title),
        ) == suggestions(titles) + ", "@ + debug_quoted(title),
{
    let kept = non_empty(titles);
    assert(titles.push(title).drop_last() == titles);
    assert(quoted_each(Seq::<Seq<char>>::empty()) =~= Seq::<Seq<char>>::empty());
    assert(non_empty(Seq::<Seq<char>>::empty()) =~= Seq::<Seq<char>>::empty());
    if title.len() > 0 {
        assert(quoted_each(kept.push(title)) =~= quoted_each(kept).push(debug_quoted(title)));
        assert(quoted_each(kept).push(debug_quoted(title)).drop_last() =~= quoted_each(kept));
        if exists|i: int| 0 <= i < titles.len() && (#[trigger] titles[i]).len() > 0 {
            let i = choose|i: int| 0 <= i < titles.len() && (#[trigger] titles[i]).len() > 0;
            lemma_non_empty_keeps(titles, i);
            assert(kept.len() > 0);
        } else if kept.len() > 0 {
            lemma_non_empty_kept(titles, 0);
            let j = choose|j: int| 0 <= j < titles.len() && titles[j] == kept[0];
            assert(titles[j].len() == 0);
        }
    }
}

/// A walk that found no such row says which title it looked for and where, and ends in what could
/// have been named instead. One that ended on a submenu names its path and the rows in it.
pub proof fn law_a_failed_walk_says_what_could_be_named(
    step: Seq<char>,
    at: Seq<char>,
    titles: Seq<Seq<char>>,
)
    ensures
        ({
            let said = (MenuWalkErrorText::NoSuchItem { step, at, available: titles }).sentence();
            exists|before: Seq<char>, after: Seq<char>|
                {
                    &&& said == #[trigger] (before + debug_quoted(step) + after) + suggestions(titles)
                    &&& at.len() > 0 ==> has_part(after, "`"@ + at + "`"@)
                    &&& at.len() == 0 ==> has_part(after, "the menu bar"@)
                }
        }),
        ({
            let said = (MenuWalkErrorText::IsSubmenu { path: at, children: titles }).sentence();
            exists|between: Seq<char>|
                said == #[trigger] ("`"@ + at + "`"@ + between) + suggestions(titles)
        }),
{
    let said = (MenuWalkErrorText::NoSuchItem { step, at, available: titles }).sentence();
    let place = if at.len() == 0 {
        "the menu bar"@
    } else {
        "`"@ + at + "`"@
    };
    let before = "no menu item titled "@;
    let after = " in "@ + place + ". It has: "@;
    law_a_part_is_found(" in "@, place, ". It has: "@);
    assert(said =~= (before + debug_quoted(step) + after) + suggestions(titles));
    let other = (MenuWalkErrorText::IsSubmenu { path: at, children: titles }).sentence();
    let whole = "` opens a submenu rather than doing anything; name a row inside it: "@;
    reveal_strlit("`");
    reveal_strlit("` opens a submenu rather than doing anything; name a row inside it: ");
    let between = whole.skip(1);
    assert(whole =~= "`"@ + between);
    assert(other =~= ("`"@ + at + "`"@ + between) + suggestions(titles));
}

} // verus!
