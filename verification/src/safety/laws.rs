//! What the gates promise as a whole.
use vstd::prelude::*;
use vstd::utf8::is_ascii_chars;
use crate::apps::AppInfo;
use crate::safety::context::{
    asks, bounds_search, displayed_text, first_asking, forest_prose, is_prose, is_pruned, links,
    nearest_context, own_text, prose, prose_parts, search_depth, subtree_prose, NodeText,
    MAX_QUESTION_PARTS,
};
use crate::safety::destructive::{
    chord_keys, first_part_in, first_prefix_of, first_stem, key_against, key_name, normalized,
    promises_harmlessness, question_against, readable_text, stem_of, takes_typing, token_of, wording,
    CandidateText, DELETE_KEYS, DESTRUCTIVE_KOREAN, DESTRUCTIVE_PHRASES, DESTRUCTIVE_STEMS,
};
use crate::safety::gate::{
    forbidden_objection, human_objection, standing_objection, verdict, Gate, Surroundings,
};
use crate::safety::laws::questions::{are_alike, law_only_prose_below_the_root_is_read};
use crate::safety::policy::{
    admits, covered_by, forbidden_reason, scope_name, scope_names, scope_view, screenshot_notice,
};
use crate::safety::refusal::RefusedText;
use crate::safety::runtime::Watch;
use crate::text::{
    ascii_lower, ascii_lower_char, has_part, has_prefix, is_white_space, joined, listed, lowercase,
    non_empty, pieces, same_but_case, strip_end, strip_start, trimmed, words, CharKind,
};
use crate::text::lemmas::{lemma_non_empty_keeps, lemma_trimmed_ignores_space};
use crate::text::lower::{all_ascii, lemma_ascii_pieces, lemma_lower_joined, lower_each};
use crate::tree::{children_of, lemma_children_in_range, parents_come_first};

pub mod convictions;
pub mod gates;
pub mod labels;
pub mod lists;
pub mod questions;
pub mod wording;

verus! {

// -- the guard ---------------------------------------------------------------------------------

/// Confirming clears the destructive gate and nothing else: a confirmed action is refused exactly
/// for the standing reasons, whatever the key and the element.
pub proof fn law_confirming_clears_only_the_destructive_gate(
    app: AppInfo,
    watch: Watch,
    around: Surroundings,
    gate: Gate,
    candidate: Option<CandidateText>,
)
    requires
        gate.confirm_destructive,
    ensures
        verdict(app, watch, around, gate, candidate) == standing_objection(
            app,
            watch,
            gate.verb@,
            around,
        ),
{
}

/// An action without confirmation passes only where the same action passes with it.
pub proof fn law_confirming_never_adds_a_refusal(
    app: AppInfo,
    watch: Watch,
    around: Surroundings,
    gate: Gate,
    candidate: Option<CandidateText>,
)
    ensures
        verdict(app, watch, around, gate, candidate) is None ==> verdict(
            app,
            watch,
            around,
            (Gate { confirm_destructive: true, ..gate }),
            candidate,
        ) is None,
{
}

/// A control that reads as destructive, or that answers a destructive question, is not acted on
/// without confirmation; and a key that removes something is not pressed without it.
pub proof fn law_what_is_destructive_needs_confirmation(
    app: AppInfo,
    watch: Watch,
    around: Surroundings,
    gate: Gate,
    candidate: Option<CandidateText>,
)
    requires
        !gate.confirm_destructive,
        ({
            ||| candidate is Some && token_of(readable_text(candidate->0)) is Some
            ||| candidate is Some && question_against(candidate->0) is Some
            ||| gate.key is Some && key_against(gate.key->0@, candidate) is Some
        }),
    ensures
        verdict(app, watch, around, gate, candidate) is Some,
{
}

/// Nothing is delivered to a locked session, and that is the reason given.
pub proof fn law_a_locked_session_refuses_everything(
    app: AppInfo,
    watch: Watch,
    around: Surroundings,
    gate: Gate,
    candidate: Option<CandidateText>,
)
    requires
        around.locked,
    ensures
        verdict(app, watch, around, gate, candidate) == Some(
            RefusedText::SessionLocked { verb: gate.verb@ },
        ),
{
}

/// A forbidden app is refused as forbidden whatever the scope of the run says of it: the scope and
/// the forbidden floor are independent.
pub proof fn law_no_scope_admits_a_forbidden_app(
    app: AppInfo,
    watch: Watch,
    around: Surroundings,
    gate: Gate,
    candidate: Option<CandidateText>,
    why: Seq<char>,
)
    requires
        !around.locked,
        !around.allow_forbidden,
        app.bundle_id is Some,
        forbidden_reason(app.bundle_id->0@) == Some(why),
    ensures
        verdict(app, watch, around, gate, candidate) == Some(
            RefusedText::ForbiddenTarget {
                verb: gate.verb@,
                app: app.name@,
                bundle_id: app.bundle_id->0@,
                why,
            },
        ),
{
}

/// A scope only narrows what may be acted on: what a scoped run lets through, an unscoped run lets
/// through as well.
pub proof fn law_a_scope_only_narrows(
    app: AppInfo,
    watch: Watch,
    around: Surroundings,
    gate: Gate,
    candidate: Option<CandidateText>,
)
    ensures
        verdict(app, watch, around, gate, candidate) is None ==> verdict(
            app,
            watch,
            (Surroundings { allowed: None, ..around }),
            gate,
            candidate,
        ) is None,
{
}

/// Under a scope an app passes only if its bundle identifier is admitted. One that has none fails
/// closed.
pub proof fn law_a_scoped_run_acts_only_inside_its_scope(
    app: AppInfo,
    watch: Watch,
    around: Surroundings,
    gate: Gate,
    candidate: Option<CandidateText>,
)
    requires
        around.allowed is Some,
        verdict(app, watch, around, gate, candidate) is None,
    ensures
        app.bundle_id is Some,
        admits(scope_view(around.allowed)->0, app.bundle_id->0@),
{
}

/// A watch that was asked for and is not there refuses every action.
pub proof fn law_a_broken_watch_refuses_everything(
    app: AppInfo,
    reason: String,
    around: Surroundings,
    gate: Gate,
    candidate: Option<CandidateText>,
)
    ensures
        verdict(app, (Watch::Broken { reason }), around, gate, candidate) is Some,
{
}

/// The human working in another app holds nothing up, nor does one who has been idle long enough.
pub proof fn law_the_human_elsewhere_or_idle_holds_nothing_up(
    verb: Seq<char>,
    app: AppInfo,
    since_ms: Option<u64>,
    around: Surroundings,
)
    requires
        around.frontmost != Some(app.pid) || since_ms is None || since_ms->0 >= around.idle_ms,
    ensures
        human_objection(verb, app, (Watch::On { since_ms }), around) is None,
{
}

/// A screenshot is withheld from exactly the apps that are refused as forbidden.
pub proof fn law_screenshots_are_withheld_where_acting_is_forbidden(
    verb: Seq<char>,
    app: AppInfo,
    around: Surroundings,
)
    ensures
        screenshot_notice(app, around.allow_forbidden) is Some <==> forbidden_objection(
            verb,
            app,
            around,
        ) is Some,
{
}

// -- scopes and identifiers --------------------------------------------------------------------

/// A scope that names nothing admits nothing.
pub proof fn law_an_empty_scope_admits_nothing(id: Seq<char>)
    ensures
        !admits(Seq::<Seq<char>>::empty(), id),
{
}

/// What is admitted is listed as a whole, never by a prefix.
pub proof fn law_a_scope_never_admits_by_prefix(scope: Seq<Seq<char>>, id: Seq<char>)
    requires
        forall|i: int| 0 <= i < scope.len() ==> (#[trigger] scope[i]).len() != trimmed(id).len(),
    ensures
        !admits(scope, id),
{
}

proof fn lemma_lower_keeps_space(c: char)
    ensures
        is_white_space(ascii_lower_char(c)) == is_white_space(c),
        ascii_lower_char(ascii_lower_char(c)) == ascii_lower_char(c),
        (c as u32) < 128 ==> (ascii_lower_char(c) as u32) < 128,
{
}

proof fn lemma_lower_strip_start(s: Seq<char>)
    ensures
        strip_start(ascii_lower(s), CharKind::Space) == ascii_lower(
            strip_start(s, CharKind::Space),
        ),
    decreases s.len(),
{
    if s.len() > 0 {
        lemma_lower_keeps_space(s[0]);
        if is_white_space(s[0]) {
            lemma_lower_strip_start(s.drop_first());
            assert(ascii_lower(s).drop_first() == ascii_lower(s.drop_first()));
        }
    }
}

proof fn lemma_lower_strip_end(s: Seq<char>)
    ensures
        strip_end(ascii_lower(s), CharKind::Space) == ascii_lower(strip_end(s, CharKind::Space)),
    decreases s.len(),
{
    if s.len() > 0 {
        lemma_lower_keeps_space(s.last());
        if is_white_space(s.last()) {
            lemma_lower_strip_end(s.drop_last());
            assert(ascii_lower(s).drop_last() == ascii_lower(s.drop_last()));
        }
    }
}

proof fn lemma_lower_trimmed(s: Seq<char>)
    ensures
        trimmed(ascii_lower(s)) == ascii_lower(trimmed(s)),
{
    lemma_lower_strip_start(s);
    lemma_lower_strip_end(strip_start(s, CharKind::Space));
}

/// A scope ignores the case of an identifier.
pub proof fn law_scopes_ignore_case(scope: Seq<Seq<char>>, a: Seq<char>, b: Seq<char>)
    requires
        same_but_case(a, b),
    ensures
        admits(scope, a) == admits(scope, b),
{
    lemma_lower_trimmed(a);
    lemma_lower_trimmed(b);
}

/// A scope ignores white space around an identifier.
pub proof fn law_scopes_ignore_surrounding_space(
    scope: Seq<Seq<char>>,
    before: Seq<char>,
    id: Seq<char>,
    after: Seq<char>,
)
    requires
        forall|i: int| 0 <= i < before.len() ==> is_white_space(#[trigger] before[i]),
        forall|i: int| 0 <= i < after.len() ==> is_white_space(#[trigger] after[i]),
    ensures
        admits(scope, before + id + after) == admits(scope, id),
{
    lemma_trimmed_ignores_space(before, id, after);
}

/// What a scope names between its commas, it admits.
pub proof fn law_a_scope_admits_what_it_names(raw: Seq<char>, i: int)
    requires
        0 <= i < pieces(raw, CharKind::Just(',')).len(),
        trimmed(pieces(raw, CharKind::Just(','))[i]).len() > 0,
    ensures
        admits(scope_names(raw), pieces(raw, CharKind::Just(','))[i]),
{
    let parts = pieces(raw, CharKind::Just(','));
    let named = parts.map_values(|p: Seq<char>| scope_name(p));
    assert(named[i] == scope_name(parts[i]));
    lemma_non_empty_keeps(named, i);
}

/// A covered identifier covers every identifier that goes on behind it and a dot, the helper
/// processes of the app among them.
pub proof fn law_helpers_of_a_covered_app_are_covered(
    lower: Seq<char>,
    entry: Seq<char>,
    rest: Seq<char>,
)
    requires
        covered_by(lower, entry),
    ensures
        covered_by(lower + "."@ + rest, entry),
{
    let whole = lower + "."@ + rest;
    let dotted = lowercase(entry) + "."@;
    if lower == lowercase(entry) {
        assert(whole.take(dotted.len() as int) == dotted);
    } else {
        assert(whole.take(dotted.len() as int) == lower.take(dotted.len() as int));
    }
}

/// An identifier that merely begins like a listed one is not covered by it: a dot has to follow.
pub proof fn law_a_longer_unrelated_identifier_is_not_covered(lower: Seq<char>, entry: Seq<char>)
    requires
        lower.len() > lowercase(entry).len(),
        lower[lowercase(entry).len() as int] != '.',
    ensures
        !covered_by(lower, entry),
{
    reveal_strlit(".");
    let dotted = lowercase(entry) + "."@;
    if has_prefix(lower, dotted) {
        assert(lower.take(dotted.len() as int)[lowercase(entry).len() as int] == '.');
    }
}

// -- labels and keys ---------------------------------------------------------------------------

/// A text field's own contents are never classified.
pub proof fn law_written_text_is_never_classified(c: CandidateText, value: Option<Seq<char>>)
    requires
        c.settable,
    ensures
        readable_text(CandidateText { value, ..c }) == readable_text(c),
        question_against(CandidateText { value, ..c }) is None,
{
}

/// An answer that names its own harmlessness is never held to the question around it: backing out
/// of a destructive dialog needs no confirmation.
pub proof fn law_a_harmless_answer_is_never_refused_for_its_question(c: CandidateText)
    requires
        wording(c) is Some,
        promises_harmlessness(wording(c)->0),
    ensures
        question_against(c) is None,
{
}

/// A modified delete key is destructive wherever it lands.
pub proof fn law_a_modified_delete_is_destructive_everywhere(
    key: Seq<char>,
    a: Option<CandidateText>,
    b: Option<CandidateText>,
)
    requires
        chord_keys(key_name(key)).len() > 1,
        listed(DELETE_KEYS@, chord_keys(key_name(key)).last()),
    ensures
        key_against(key, a) == Some(key_name(key)),
        key_against(key, b) == key_against(key, a),
{
}

/// A bare delete key is editing where a human types and destruction anywhere else, also where the
/// element is not known.
pub proof fn law_a_bare_delete_is_editing_only_where_one_types(
    key: Seq<char>,
    candidate: Option<CandidateText>,
)
    requires
        chord_keys(key_name(key)).len() == 1,
        listed(DELETE_KEYS@, chord_keys(key_name(key)).last()),
    ensures
        key_against(key, candidate) is None <==> candidate is Some && takes_typing(candidate->0),
{
}

/// A word that begins with a destructive stem makes a label destructive, wherever the word stands.
pub proof fn law_a_word_with_a_destructive_stem_is_destructive(text: Seq<char>, i: int, j: int)
    requires
        0 <= i < pieces(normalized(text), CharKind::Mark).len(),
        0 <= j < DESTRUCTIVE_STEMS@.len(),
        pieces(normalized(text), CharKind::Mark)[i].len() > 0,
        has_prefix(pieces(normalized(text), CharKind::Mark)[i], DESTRUCTIVE_STEMS@[j]@),
    ensures
        token_of(text) is Some,
{
    let all = pieces(normalized(text), CharKind::Mark);
    lemma_prefix_is_found(DESTRUCTIVE_STEMS@, all[i], 0, j);
    lemma_stem_is_found(all, 0, i);
    if normalized(text).len() == 0 {
        assert(pieces(normalized(text), CharKind::Mark) == seq![Seq::<char>::empty()]);
    }
}

/// A destructive phrase makes a label destructive, wherever it stands; so does a Korean part.
pub proof fn law_a_destructive_phrase_is_destructive(text: Seq<char>, j: int)
    requires
        normalized(text).len() > 0,
        ({
            ||| 0 <= j < DESTRUCTIVE_PHRASES@.len() && has_part(
                normalized(text),
                DESTRUCTIVE_PHRASES@[j]@,
            )
            ||| 0 <= j < DESTRUCTIVE_KOREAN@.len() && has_part(
                normalized(text),
                DESTRUCTIVE_KOREAN@[j]@,
            )
        }),
    ensures
        token_of(text) is Some,
{
    let norm = normalized(text);
    if 0 <= j < DESTRUCTIVE_PHRASES@.len() && has_part(norm, DESTRUCTIVE_PHRASES@[j]@) {
        lemma_part_is_found(DESTRUCTIVE_PHRASES@, norm, 0, j);
    } else {
        lemma_part_is_found(DESTRUCTIVE_KOREAN@, norm, 0, j);
    }
}

/// A text of a list that a word begins with is found.
pub proof fn lemma_prefix_is_found(list: Seq<&str>, word: Seq<char>, from: nat, j: int)
    requires
        from <= j < list.len(),
        has_prefix(word, list[j]@),
    ensures
        first_prefix_of(list, word, from) is Some,
    decreases list.len() - from,
{
    if !has_prefix(word, list[from as int]@) {
        lemma_prefix_is_found(list, word, from + 1, j);
    }
}

/// A part of a list that stands in a text is found.
pub proof fn lemma_part_is_found(list: Seq<&str>, whole: Seq<char>, from: nat, j: int)
    requires
        from <= j < list.len(),
        has_part(whole, list[j]@),
    ensures
        first_part_in(list, whole, from) is Some,
    decreases list.len() - from,
{
    if !has_part(whole, list[from as int]@) {
        lemma_part_is_found(list, whole, from + 1, j);
    }
}

/// A word with a destructive stem is found.
pub proof fn lemma_stem_is_found(all: Seq<Seq<char>>, from: nat, i: int)
    requires
        from <= i < all.len(),
        stem_of(all[i]) is Some,
    ensures
        first_stem(all, from) is Some,
    decreases all.len() - from,
{
    if stem_of(all[from as int]) is None {
        lemma_stem_is_found(all, from + 1, i);
    }
}

/// Spacing does not matter to a label: texts of the same words are classified alike.
pub proof fn law_labels_ignore_spacing(a: Seq<char>, b: Seq<char>)
    requires
        words(a) == words(b),
    ensures
        token_of(a) == token_of(b),
        promises_harmlessness(a) == promises_harmlessness(b),
{
}

proof fn lemma_lower_pieces(s: Seq<char>)
    ensures
        pieces(ascii_lower(s), CharKind::Space) == lower_each(pieces(s, CharKind::Space)),
        pieces(s, CharKind::Space).len() > 0,
    decreases s.len(),
{
    let low = ascii_lower(s);
    if s.len() == 0 {
        assert(low == s);
        assert(pieces(low, CharKind::Space) == lower_each(pieces(s, CharKind::Space)));
    } else {
        lemma_lower_pieces(s.drop_last());
        lemma_lower_keeps_space(s.last());
        assert(low.drop_last() == ascii_lower(s.drop_last()));
        let before = pieces(s.drop_last(), CharKind::Space);
        if is_white_space(s.last()) {
            let now = before.push(Seq::<char>::empty());
            assert(ascii_lower(Seq::<char>::empty()) == Seq::<char>::empty());
            assert(lower_each(now) == lower_each(before).push(Seq::empty()));
        } else {
            let grown = before.last().push(s.last());
            let now = before.drop_last().push(grown);
            assert(ascii_lower(grown) == ascii_lower(before.last()).push(low.last()));
            assert(lower_each(now) == lower_each(before).drop_last().push(ascii_lower(grown)));
        }
    }
}

proof fn lemma_lower_non_empty(parts: Seq<Seq<char>>)
    ensures
        non_empty(lower_each(parts)) == lower_each(non_empty(parts)),
    decreases parts.len(),
{
    if parts.len() > 0 {
        lemma_lower_non_empty(parts.drop_last());
        assert(lower_each(parts).drop_last() == lower_each(parts.drop_last()));
        let kept = non_empty(parts.drop_last());
        assert(lower_each(kept.push(parts.last())) == lower_each(kept).push(
            ascii_lower(parts.last()),
        ));
    } else {
        assert(lower_each(parts) == parts);
        assert(lower_each(non_empty(parts)) == non_empty(parts));
    }
}

proof fn lemma_ascii_words(s: Seq<char>)
    requires
        is_ascii_chars(s),
    ensures
        is_ascii_chars(joined(words(s), " "@)),
{
    lemma_ascii_pieces(s, CharKind::Space);
    lemma_ascii_non_empty(pieces(s, CharKind::Space));
    lemma_ascii_joined(words(s));
}

proof fn lemma_ascii_non_empty(parts: Seq<Seq<char>>)
    requires
        all_ascii(parts),
    ensures
        all_ascii(non_empty(parts)),
    decreases parts.len(),
{
    if parts.len() > 0 {
        lemma_ascii_non_empty(parts.drop_last());
    }
}

proof fn lemma_ascii_joined(parts: Seq<Seq<char>>)
    requires
        all_ascii(parts),
    ensures
        is_ascii_chars(joined(parts, " "@)),
    decreases parts.len(),
{
    reveal_strlit(" ");
    if parts.len() > 1 {
        lemma_ascii_joined(parts.drop_last());
    }
}

/// Case does not matter to a label in ASCII: texts that differ in case alone are classified alike.
pub proof fn law_ascii_labels_ignore_case(a: Seq<char>, b: Seq<char>)
    requires
        is_ascii_chars(a),
        is_ascii_chars(b),
        same_but_case(a, b),
    ensures
        normalized(a) == normalized(b),
        token_of(a) == token_of(b),
        promises_harmlessness(a) == promises_harmlessness(b),
{
    lemma_normalized_ascii(a);
    lemma_normalized_ascii(b);
}

proof fn lemma_normalized_ascii(s: Seq<char>)
    requires
        is_ascii_chars(s),
    ensures
        normalized(s) == joined(words(ascii_lower(s)), " "@),
{
    lemma_ascii_words(s);
    lemma_lower_pieces(s);
    lemma_lower_non_empty(pieces(s, CharKind::Space));
    lemma_lower_joined(words(s));
}

// -- questions ---------------------------------------------------------------------------------

/// The node `steps` parents above `target`, where there are that many.
pub open spec fn ancestor(nodes: Seq<NodeText>, target: int, steps: nat) -> Option<usize>
    decreases steps,
{
    if steps == 0 || !(0 <= target < nodes.len()) {
        None
    } else if steps == 1 {
        nodes[target].parent
    } else {
        match ancestor(nodes, target, (steps - 1) as nat) {
            Some(i) => if i < nodes.len() {
                nodes[i as int].parent
            } else {
                None
            },
            None => None,
        }
    }
}

/// Whether the search for a question passes through the ancestor `steps` above `target`.
pub open spec fn passed(nodes: Seq<NodeText>, target: int, steps: nat) -> bool {
    match ancestor(nodes, target, steps) {
        Some(i) => i < nodes.len() && !asks(nodes[i as int]) && !bounds_search(nodes[i as int]),
        None => false,
    }
}

/// Whether the ancestor `steps` above `target` is the first to ask a question and no window stands
/// between.
pub open spec fn is_first_to_ask(nodes: Seq<NodeText>, target: int, steps: nat, i: usize) -> bool {
    &&& ancestor(nodes, target, steps) == Some(i)
    &&& i < nodes.len()
    &&& asks(nodes[i as int])
    &&& forall|j: nat| 1 <= j < steps ==> #[trigger] passed(nodes, target, j)
}

proof fn lemma_first_asking_from(nodes: Seq<NodeText>, target: int, at: nat, steps: nat)
    requires
        0 <= target < nodes.len(),
        at >= 1,
        forall|j: nat| 1 <= j < at ==> #[trigger] passed(nodes, target, j),
    ensures
        match first_asking(nodes, ancestor(nodes, target, at), steps) {
            Some(i) => exists|k: nat|
                at <= k < at + steps && #[trigger] is_first_to_ask(nodes, target, k, i),
            None => forall|k: nat, i: usize|
                at <= k < at + steps ==> !#[trigger] is_first_to_ask(nodes, target, k, i),
        },
    decreases steps,
{
    let here = ancestor(nodes, target, at);
    if steps == 0 {
    } else if here is None || here->0 >= nodes.len() {
        assert(!passed(nodes, target, at));
    } else if asks(nodes[here->0 as int]) {
        assert(is_first_to_ask(nodes, target, at, here->0));
    } else if bounds_search(nodes[here->0 as int]) {
        assert(!passed(nodes, target, at));
    } else {
        assert(passed(nodes, target, at));
        assert(ancestor(nodes, target, at + 1) == nodes[here->0 as int].parent);
        lemma_first_asking_from(nodes, target, at + 1, (steps - 1) as nat);
        match first_asking(nodes, ancestor(nodes, target, at + 1), (steps - 1) as nat) {
            Some(i) => {
                let k = choose|k: nat|
                    at + 1 <= k < at + steps && #[trigger] is_first_to_ask(nodes, target, k, i);
                assert(is_first_to_ask(nodes, target, k, i));
            },
            None => {
                assert forall|k: nat, i: usize| at <= k < at + steps implies !(
                #[trigger] is_first_to_ask(nodes, target, k, i)) by {
                    if k == at {
                        assert(!asks(nodes[here->0 as int]));
                    }
                }
            },
        }
    }
}

/// The decision context of an element is its nearest ancestor that asks a question, and none where
/// an ordinary window or the top of the tree comes first.
pub proof fn law_the_nearest_question_is_the_one_answered(nodes: Seq<NodeText>, target: int)
    requires
        0 <= target < nodes.len(),
    ensures
        match nearest_context(nodes, target) {
            Some(i) => exists|k: nat|
                1 <= k <= nodes.len() && #[trigger] is_first_to_ask(nodes, target, k, i),
            None => forall|k: nat, i: usize|
                1 <= k <= nodes.len() ==> !#[trigger] is_first_to_ask(nodes, target, k, i),
        },
{
    lemma_first_asking_from(nodes, target, 1, nodes.len());
}

/// A question is assembled from no more than the permitted number of pieces.
pub proof fn law_a_question_is_bounded(nodes: Seq<NodeText>, root: int, include_root: bool)
    ensures
        prose_parts(nodes, root, include_root).len() <= MAX_QUESTION_PARTS,
{
}

/// Two trees of one shape that differ at most in what answers, content and nested questions say.
pub open spec fn differ_only_where_pruned(
    a: Seq<NodeText>,
    b: Seq<NodeText>,
    root: int,
) -> bool {
    &&& a.len() == b.len()
    &&& 0 <= root < a.len()
    &&& a[root] == b[root]
    &&& forall|i: int|
        0 <= i < a.len() ==> {
            &&& (#[trigger] a[i]).parent == b[i].parent
            &&& a[i].role == b[i].role
            &&& a[i].subrole == b[i].subrole
            &&& is_pruned(a[i]) || a[i] == b[i]
        }
}

/// Answers, content and nested questions are no part of a question: whatever they say, the prose of
/// a root is the same.
pub proof fn law_answers_and_content_do_not_speak(
    a: Seq<NodeText>,
    b: Seq<NodeText>,
    root: int,
    include_root: bool,
)
    requires
        differ_only_where_pruned(a, b, root),
        a.len() <= usize::MAX,
    ensures
        prose(a, root, include_root) == prose(b, root, include_root),
{
    assert forall|i: int| 0 <= i < a.len() implies are_alike(a[i], b[i]) by {
        assert(a[i].role == b[i].role && a[i].subrole == b[i].subrole);
        assert(is_pruned(a[i]) == is_pruned(b[i]));
    }
    law_only_prose_below_the_root_is_read(a, b, root, include_root);
}

/// What the user wrote is no part of a question: the value of a node that can be written matters
/// neither where the node asks nor where it displays.
pub proof fn law_written_values_do_not_speak(n: NodeText, value: Option<Seq<char>>)
    requires
        n.settable,
    ensures
        own_text(NodeText { value, ..n }) == own_text(n),
        displayed_text(NodeText { value, ..n }) == displayed_text(n),
{
}

proof fn lemma_subtree_depth(nodes: Seq<NodeText>, index: int, depth: nat, more: nat)
    requires
        parents_come_first(links(nodes)),
        0 <= index < nodes.len() <= usize::MAX,
        depth + index >= nodes.len(),
        more >= depth,
    ensures
        subtree_prose(nodes, index, depth) == subtree_prose(nodes, index, more),
    decreases depth, 0nat,
{
    if !is_pruned(nodes[index]) && !is_prose(nodes[index]) {
        lemma_children_in_range(links(nodes), index, nodes.len());
        lemma_forest_depth(
            nodes,
            children_of(links(nodes), index),
            (depth - 1) as nat,
            (more - 1) as nat,
        );
    }
}

proof fn lemma_forest_depth(nodes: Seq<NodeText>, list: Seq<usize>, depth: nat, more: nat)
    requires
        parents_come_first(links(nodes)),
        nodes.len() <= usize::MAX,
        forall|i: int|
            0 <= i < list.len() ==> (#[trigger] list[i]) < nodes.len() && depth + list[i]
                >= nodes.len(),
        more >= depth,
    ensures
        forest_prose(nodes, list, depth) == forest_prose(nodes, list, more),
    decreases depth, list.len() + 1,
{
    if list.len() > 0 {
        lemma_subtree_depth(nodes, list[0] as int, depth, more);
        lemma_forest_depth(nodes, list.drop_first(), depth, more);
    }
}

/// In a tree whose parents come first, the depth of the search is no limit: it sees what any deeper
/// search would see.
pub proof fn law_the_search_depth_is_no_limit_in_a_tree(
    nodes: Seq<NodeText>,
    root: int,
    more: nat,
)
    requires
        parents_come_first(links(nodes)),
        0 <= root < nodes.len() <= usize::MAX,
        more >= search_depth(nodes),
    ensures
        forest_prose(nodes, children_of(links(nodes), root), search_depth(nodes)) == forest_prose(
            nodes,
            children_of(links(nodes), root),
            more,
        ),
{
    assert(search_depth(nodes) >= nodes.len()) by (nonlinear_arith)
        requires
            search_depth(nodes) == 25 * nodes.len(),
    ;
    lemma_children_in_range(links(nodes), root, nodes.len());
    lemma_forest_depth(nodes, children_of(links(nodes), root), search_depth(nodes), more);
}

} // verus!
