//! What convicts a control, and what switches and scopes mean.
use vstd::prelude::*;
use crate::apps::AppInfo;
use crate::decimal::{numeral, parsed_u64};
use crate::decimal::laws::{law_a_numeral_stands_for_its_number, law_reading_undoes_writing};
use crate::safety::context::as_list;
use crate::safety::destructive::{
    normalized, promises_harmlessness, question_against, readable_text, token_of, CandidateText,
    TEXT_ENTRY_ROLES,
};
use crate::safety::laws::labels::law_further_text_never_hides_a_destructive_label;
use crate::safety::laws::lists::views;
use crate::safety::policy::{
    admits, forbidden_reason, idle_time, scope_name, scope_names, screenshot_notice, switch_set,
    switches_on,
};
use crate::text::{
    is_white_space, joined, listed, lowercase, pieces, same_but_case, trimmed, words, CharKind,
};
use crate::text::laws::law_case_is_the_only_difference;
use crate::text::lemmas::{
    lemma_non_empty_concat, lemma_non_empty_keeps, lemma_non_empty_kept, lemma_non_empty_one,
    lemma_one_piece, lemma_pieces_concat, lemma_trimmed_ignores_space,
};

verus! {

// -- what a control says -----------------------------------------------------------------------

proof fn lemma_any_part_convicts(parts: Seq<Seq<char>>, k: int)
    requires
        0 <= k < parts.len(),
        token_of(parts[k]) is Some,
    ensures
        token_of(joined(parts, " "@)) is Some,
    decreases parts.len(),
{
    if parts.len() > 1 {
        let rest = parts.drop_last();
        let last = parts.last();
        if k == parts.len() - 1 {
            law_further_text_never_hides_a_destructive_label(last, joined(rest, " "@));
        } else {
            assert(rest[k] == parts[k]);
            lemma_any_part_convicts(rest, k);
            law_further_text_never_hides_a_destructive_label(joined(rest, " "@), last);
        }
    }
}

/// Whatever of a control reads as destructive convicts it: its label, its caption, its help, and
/// its value where that is not the user's to write. None of them hides another.
pub proof fn law_any_text_of_a_control_convicts_it(c: CandidateText, text: Seq<char>)
    requires
        token_of(text) is Some,
        c.label == Some(text) || c.caption == Some(text) || c.help == Some(text) || (c.value == Some(
            text,
        ) && !c.settable),
    ensures
        token_of(readable_text(c)) is Some,
{
    let parts = as_list(c.label) + as_list(c.caption) + as_list(c.help) + (if c.settable {
        Seq::empty()
    } else {
        as_list(c.value)
    });
    let a = as_list(c.label).len() as int;
    let b = a + as_list(c.caption).len();
    let d = b + as_list(c.help).len();
    let k = if c.label == Some(text) {
        0
    } else if c.caption == Some(text) {
        a
    } else if c.help == Some(text) {
        b
    } else {
        d
    };
    assert(parts[k] == text);
    lemma_any_part_convicts(parts, k);
}

/// A control with nothing to say is not destructive for what it says.
pub proof fn law_a_silent_control_is_not_convicted(c: CandidateText)
    requires
        c.label is None,
        c.caption is None,
        c.help is None,
        c.value is None || c.settable,
    ensures
        readable_text(c).len() == 0,
        token_of(readable_text(c)) is None,
{
    let text = readable_text(c);
    assert(text =~= Seq::<char>::empty());
    assert(pieces(text, CharKind::Space) =~= seq![Seq::<char>::empty()]);
    lemma_non_empty_one(Seq::empty());
    assert(words(text) =~= Seq::<Seq<char>>::empty());
    assert(normalized(text) =~= Seq::<char>::empty());
}

/// The question around a control is held against it exactly where nobody types into the control,
/// what it answers with is not harmless, and the question reads as destructive. What it answers
/// with is its label, or its caption where the label says nothing.
pub proof fn law_a_question_is_held_against_its_answers(c: CandidateText)
    ensures
        ({
            let answer = if c.label is Some && trimmed(c.label->0).len() > 0 {
                c.label
            } else {
                c.caption
            };
            let typed = c.settable || views(TEXT_ENTRY_ROLES@).contains(c.role);
            let held = !typed && !(answer is Some && promises_harmlessness(answer->0))
                && c.context is Some && token_of(c.context->0.question) is Some;
            &&& question_against(c) is Some <==> held
            &&& held ==> question_against(c) == Some(
                (c.context->0, token_of(c.context->0.question)->0),
            )
        }),
{
    let list = TEXT_ENTRY_ROLES@;
    if listed(list, c.role) {
        let i = choose|i: int| 0 <= i < list.len() && (#[trigger] list[i])@ == c.role;
        assert(views(list)[i] == c.role);
    }
    if views(list).contains(c.role) {
        let i = choose|i: int| 0 <= i < views(list).len() && views(list)[i] == c.role;
        assert(list[i]@ == c.role);
    }
}

proof fn lemma_words_of_joined(list: Seq<Seq<char>>)
    requires
        forall|i: int| 0 <= i < list.len() ==> (#[trigger] list[i]).len() > 0,
        forall|i: int, j: int|
            0 <= i < list.len() && 0 <= j < list[i].len() ==> !is_white_space(
                #[trigger] list[i][j],
            ),
    ensures
        words(joined(list, " "@)) == list,
    decreases list.len(),
{
    reveal_strlit(" ");
    let k = CharKind::Space;
    if list.len() == 0 {
        let none = Seq::<char>::empty();
        assert(joined(list, " "@) =~= none);
        assert(pieces(none, k) =~= seq![none]);
        lemma_non_empty_one(none);
        assert(words(joined(list, " "@)) =~= list);
    } else {
        let last = list.last();
        assert forall|j: int| 0 <= j < last.len() implies !k.has(#[trigger] last[j]) by {
            assert(!is_white_space(list[list.len() - 1][j]));
        }
        lemma_one_piece(last, k);
        lemma_non_empty_one(last);
        assert(list[list.len() - 1].len() > 0);
        if list.len() == 1 {
            assert(list =~= seq![last]);
        } else {
            let rest = list.drop_last();
            assert forall|i: int| 0 <= i < rest.len() implies (#[trigger] rest[i]).len() > 0 by {
                assert(rest[i] == list[i]);
            }
            assert forall|i: int, j: int|
                0 <= i < rest.len() && 0 <= j < rest[i].len() implies !is_white_space(
                #[trigger] rest[i][j],
            ) by {
                assert(rest[i] == list[i]);
                assert(!is_white_space(list[i][j]));
            }
            lemma_words_of_joined(rest);
            let head = joined(rest, " "@);
            assert(joined(list, " "@) =~= head.push(' ') + last);
            lemma_pieces_concat(head, ' ', last, k);
            lemma_non_empty_concat(pieces(head, k), pieces(last, k));
            assert(list =~= rest + seq![last]);
        }
    }
}

/// Reading a label keeps every word of it, in order, with one space between, and changes nothing
/// but the case: a label that is spaced that way is read as its lower case.
pub proof fn law_a_label_keeps_its_words(list: Seq<Seq<char>>)
    requires
        forall|i: int| 0 <= i < list.len() ==> (#[trigger] list[i]).len() > 0,
        forall|i: int, j: int|
            0 <= i < list.len() && 0 <= j < list[i].len() ==> !is_white_space(
                #[trigger] list[i][j],
            ),
    ensures
        normalized(joined(list, " "@)) == lowercase(joined(list, " "@)),
{
    lemma_words_of_joined(list);
}

// -- switches and scopes -----------------------------------------------------------------------

/// A switch is on where its value is the digit one or the word `true`, each of its letters in
/// either case, and nowhere else.
pub proof fn law_a_switch_is_on_for_one_and_true(value: Seq<char>)
    ensures
        switches_on(value) <==> value == seq!['1'] || (value.len() == 4 && (value[0] == 't'
            || value[0] == 'T') && (value[1] == 'r' || value[1] == 'R') && (value[2] == 'u'
            || value[2] == 'U') && (value[3] == 'e' || value[3] == 'E')),
{
    reveal_strlit("1");
    reveal_strlit("true");
    let word = "true"@;
    law_case_is_the_only_difference(value, word);
    assert("1"@ =~= seq!['1']);
    if same_but_case(value, word) {
        assert(value[0] == word[0] || value[0] == 'T');
        assert(value[1] == word[1] || value[1] == 'R');
        assert(value[2] == word[2] || value[2] == 'U');
        assert(value[3] == word[3] || value[3] == 'E');
    }
    if value.len() == 4 && (value[0] == 't' || value[0] == 'T') && (value[1] == 'r' || value[1]
        == 'R') && (value[2] == 'u' || value[2] == 'U') && (value[3] == 'e' || value[3] == 'E') {
        assert forall|i: int| 0 <= i < value.len() implies {
            ||| #[trigger] value[i] == word[i]
            ||| 'A' <= value[i] <= 'Z' && word[i] as u32 == value[i] as u32 + 32
            ||| 'A' <= word[i] <= 'Z' && value[i] as u32 == word[i] as u32 + 32
        } by {
            assert(i == 0 || i == 1 || i == 2 || i == 3);
        }
    }
}

/// A switch that is not set is off.
pub proof fn law_a_switch_that_is_not_set_is_off(value: &str)
    ensures
        !switch_set(None),
        switch_set(Some(value)) == switches_on(value@),
{
}

/// The idle time is the number that is written, with or without space around it, brought into its
/// limits; anything that is no number leaves it at three seconds.
pub proof fn law_the_idle_time_is_what_is_written(
    value: &str,
    before: Seq<char>,
    n: u64,
    after: Seq<char>,
)
    requires
        forall|i: int| 0 <= i < before.len() ==> is_white_space(#[trigger] before[i]),
        forall|i: int| 0 <= i < after.len() ==> is_white_space(#[trigger] after[i]),
    ensures
        value@ == before + numeral(n as nat) + after ==> idle_time(Some(value)) == (if n < 250 {
            250u64
        } else if n > 60_000 {
            60_000u64
        } else {
            n
        }),
        parsed_u64(trimmed(value@)) is None ==> idle_time(Some(value)) == 3_000,
        idle_time(None) == 3_000,
{
    let s = numeral(n as nat);
    lemma_trimmed_ignores_space(before, s, after);
    law_reading_undoes_writing(n);
    law_a_numeral_stands_for_its_number(n as nat);
    assert('0' <= s[0] <= '9');
    assert('0' <= s[s.len() - 1] <= '9');
    assert(trimmed(s) == s);
}

/// A scope admits exactly what it names: an app is in scope where one of the names between the
/// commas is its identifier, but for case and the space around them. Nothing admits an app that has
/// no name left.
pub proof fn law_a_scope_admits_exactly_what_it_names(raw: Seq<char>, id: Seq<char>)
    ensures
        admits(scope_names(raw), id) <==> trimmed(id).len() > 0 && exists|i: int|
            0 <= i < pieces(raw, CharKind::Just(',')).len() && same_but_case(
                trimmed(#[trigger] pieces(raw, CharKind::Just(','))[i]),
                trimmed(id),
            ),
{
    let parts = pieces(raw, CharKind::Just(','));
    let named = parts.map_values(|p: Seq<char>| scope_name(p));
    let want = scope_name(id);
    assert(want.len() == trimmed(id).len());
    if admits(scope_names(raw), id) {
        let k = choose|k: int| 0 <= k < scope_names(raw).len() && scope_names(raw)[k] == want;
        lemma_non_empty_kept(named, k);
        let i = choose|i: int| 0 <= i < named.len() && named[i] == want;
        assert(same_but_case(trimmed(parts[i]), trimmed(id)));
    }
    if trimmed(id).len() > 0 && exists|i: int|
        0 <= i < parts.len() && same_but_case(trimmed(#[trigger] parts[i]), trimmed(id)) {
        let i = choose|i: int|
            0 <= i < parts.len() && same_but_case(trimmed(#[trigger] parts[i]), trimmed(id));
        assert(named[i] == want);
        lemma_non_empty_keeps(named, i);
    }
}

/// A screenshot is withheld exactly where the blocklist is heeded and the app is on it, and the
/// notice names the app, its identifier and the reason.
pub proof fn law_a_withheld_screenshot_says_why(app: AppInfo, allow_forbidden: bool)
    ensures
        ({
            let why = if app.bundle_id is Some {
                forbidden_reason(app.bundle_id->0@)
            } else {
                None
            };
            let r = screenshot_notice(app, allow_forbidden);
            &&& r is Some <==> !allow_forbidden && why is Some
            &&& why is Some ==> {
                let start = "screenshot withheld: `"@ + app.name@ + "` ("@ + app.bundle_id->0@
                    + ") "@ + why->0;
                r is Some ==> r->0.take(start.len() as int) == start
            }
        }),
{
    let r = screenshot_notice(app, allow_forbidden);
    if app.bundle_id is Some && forbidden_reason(app.bundle_id->0@) is Some && r is Some {
        let start = "screenshot withheld: `"@ + app.name@ + "` ("@ + app.bundle_id->0@ + ") "@
            + forbidden_reason(app.bundle_id->0@)->0;
        assert(r->0.take(start.len() as int) =~= start);
    }
}

} // verus!
