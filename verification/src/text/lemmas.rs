//! Facts about trimming, splitting and joining.
use vstd::prelude::*;
use crate::text::{
    is_white_space, joined, lemma_pieces_not_empty, non_empty, pieces, strip_end, strip_start,
    trimmed, trimmed_each, CharKind,
};

verus! {

proof fn lemma_strip_start_drops(space: Seq<char>, s: Seq<char>)
    requires
        forall|i: int| 0 <= i < space.len() ==> is_white_space(#[trigger] space[i]),
    ensures
        strip_start(space + s, CharKind::Space) == strip_start(s, CharKind::Space),
    decreases space.len(),
{
    if space.len() > 0 {
        assert((space + s)[0] == space[0]);
        assert((space + s).drop_first() == space.drop_first() + s);
        lemma_strip_start_drops(space.drop_first(), s);
    } else {
        assert(space + s == s);
    }
}

proof fn lemma_strip_end_drops(s: Seq<char>, space: Seq<char>)
    requires
        forall|i: int| 0 <= i < space.len() ==> is_white_space(#[trigger] space[i]),
    ensures
        strip_end(s + space, CharKind::Space) == strip_end(s, CharKind::Space),
    decreases space.len(),
{
    if space.len() > 0 {
        assert((s + space).last() == space.last());
        assert((s + space).drop_last() == s + space.drop_last());
        lemma_strip_end_drops(s, space.drop_last());
    } else {
        assert(s + space == s);
    }
}

proof fn lemma_strip_start_splits(s: Seq<char>, space: Seq<char>)
    requires
        forall|i: int| 0 <= i < space.len() ==> is_white_space(#[trigger] space[i]),
    ensures
        strip_end(strip_start(s + space, CharKind::Space), CharKind::Space) == strip_end(
            strip_start(s, CharKind::Space),
            CharKind::Space,
        ),
    decreases s.len(),
{
    if s.len() == 0 {
        assert(s + space == space);
        assert(space + Seq::<char>::empty() == space);
        lemma_strip_start_drops(space, Seq::empty());
    } else {
        assert((s + space)[0] == s[0]);
        if is_white_space(s[0]) {
            assert((s + space).drop_first() == s.drop_first() + space);
            lemma_strip_start_splits(s.drop_first(), space);
        } else {
            lemma_strip_end_drops(s, space);
        }
    }
}

/// White space at the ends does not matter to a trimmed text.
pub proof fn lemma_trimmed_ignores_space(before: Seq<char>, s: Seq<char>, after: Seq<char>)
    requires
        forall|i: int| 0 <= i < before.len() ==> is_white_space(#[trigger] before[i]),
        forall|i: int| 0 <= i < after.len() ==> is_white_space(#[trigger] after[i]),
    ensures
        trimmed(before + s + after) == trimmed(s),
{
    assert(before + s + after == before + (s + after));
    lemma_strip_start_drops(before, s + after);
    lemma_strip_start_splits(s, after);
}

/// White space at the end of a text ends where the text has a last character that is none.
pub proof fn lemma_strip_end_splits(s: Seq<char>, rest: Seq<char>)
    requires
        s.len() > 0,
        !is_white_space(s.last()),
    ensures
        strip_end(s + rest, CharKind::Space) == s + strip_end(rest, CharKind::Space),
    decreases rest.len(),
{
    if rest.len() == 0 {
        assert(s + rest == s);
    } else {
        assert((s + rest).last() == rest.last());
        if is_white_space(rest.last()) {
            assert((s + rest).drop_last() == s + rest.drop_last());
            lemma_strip_end_splits(s, rest.drop_last());
        }
    }
}

/// Whether neither end of a text is white space.
pub open spec fn is_trim(s: Seq<char>) -> bool {
    s.len() > 0 ==> !is_white_space(s[0]) && !is_white_space(s.last())
}

proof fn lemma_strip_start_trims(s: Seq<char>)
    ensures
        strip_start(s, CharKind::Space).len() > 0 ==> !is_white_space(
            strip_start(s, CharKind::Space)[0],
        ),
        forall|c: char|
            #![trigger strip_start(s, CharKind::Space).contains(c)]
            strip_start(s, CharKind::Space).contains(c) ==> s.contains(c),
    decreases s.len(),
{
    if s.len() > 0 && is_white_space(s[0]) {
        lemma_strip_start_trims(s.drop_first());
        assert forall|c: char| s.drop_first().contains(c) implies s.contains(c) by {
            let i = choose|i: int| 0 <= i < s.drop_first().len() && s.drop_first()[i] == c;
            assert(s[i + 1] == c);
        }
    }
}

proof fn lemma_strip_end_trims(s: Seq<char>)
    ensures
        strip_end(s, CharKind::Space).len() > 0 ==> !is_white_space(
            strip_end(s, CharKind::Space).last(),
        ) && strip_end(s, CharKind::Space)[0] == s[0],
        forall|c: char|
            #![trigger strip_end(s, CharKind::Space).contains(c)]
            strip_end(s, CharKind::Space).contains(c) ==> s.contains(c),
    decreases s.len(),
{
    if s.len() > 0 && is_white_space(s.last()) {
        lemma_strip_end_trims(s.drop_last());
        assert forall|c: char| s.drop_last().contains(c) implies s.contains(c) by {
            let i = choose|i: int| 0 <= i < s.drop_last().len() && s.drop_last()[i] == c;
            assert(s[i] == c);
        }
    }
}

/// Trimming leaves no white space at the ends, adds nothing, and does nothing the second time.
pub proof fn lemma_trimmed_is_trim(s: Seq<char>)
    ensures
        is_trim(trimmed(s)),
        trimmed(trimmed(s)) == trimmed(s),
        forall|c: char| #[trigger] trimmed(s).contains(c) ==> s.contains(c),
{
    lemma_strip_start_trims(s);
    lemma_strip_end_trims(strip_start(s, CharKind::Space));
}

/// A text that trimming leaves alone has no white space at its ends.
pub proof fn lemma_trim_ends(s: Seq<char>)
    requires
        trimmed(s) == s,
    ensures
        is_trim(s),
{
    lemma_trimmed_is_trim(s);
}

/// No piece holds the separator.
pub proof fn lemma_pieces_have_no_separator(s: Seq<char>, sep: char, i: int)
    requires
        0 <= i < pieces(s, CharKind::Just(sep)).len(),
    ensures
        !pieces(s, CharKind::Just(sep))[i].contains(sep),
        pieces(s, CharKind::Just(sep)).len() > 0,
    decreases s.len(),
{
    let k = CharKind::Just(sep);
    if s.len() > 0 {
        lemma_pieces_not_empty(s.drop_last(), k);
        let before = pieces(s.drop_last(), k);
        if i < before.len() {
            lemma_pieces_have_no_separator(s.drop_last(), sep, i);
            if s.last() != sep && i == before.len() - 1 {
                let grown = before.last().push(s.last());
                if grown.contains(sep) {
                    let j = choose|j: int| 0 <= j < grown.len() && grown[j] == sep;
                    assert(before.last()[j] == sep);
                    assert(before.last().contains(sep));
                }
            }
        }
    }
}

/// What is kept of a list is in the list and not empty.
pub proof fn lemma_non_empty_kept(parts: Seq<Seq<char>>, i: int)
    requires
        0 <= i < non_empty(parts).len(),
    ensures
        parts.contains(non_empty(parts)[i]),
        non_empty(parts)[i].len() > 0,
    decreases parts.len(),
{
    if parts.len() > 0 {
        let kept = non_empty(parts.drop_last());
        if i < kept.len() {
            lemma_non_empty_kept(parts.drop_last(), i);
            let j = choose|j: int|
                0 <= j < parts.drop_last().len() && parts.drop_last()[j] == kept[i];
            assert(parts[j] == kept[i]);
        } else {
            assert(parts[parts.len() - 1] == parts.last());
        }
    }
}

/// A text of a list that is not empty is kept.
pub proof fn lemma_non_empty_keeps(parts: Seq<Seq<char>>, i: int)
    requires
        0 <= i < parts.len(),
        parts[i].len() > 0,
    ensures
        non_empty(parts).contains(parts[i]),
    decreases parts.len(),
{
    if i == parts.len() - 1 {
        let kept = non_empty(parts.drop_last()).push(parts.last());
        assert(kept[kept.len() - 1] == parts[i]);
    } else {
        lemma_non_empty_keeps(parts.drop_last(), i);
        let kept = non_empty(parts.drop_last());
        let at = choose|k: int| 0 <= k < kept.len() && kept[k] == parts[i];
        if parts.last().len() > 0 {
            assert(kept.push(parts.last())[at] == parts[i]);
        }
    }
}

/// A list of one text keeps it unless it is empty.
pub proof fn lemma_non_empty_one(s: Seq<char>)
    ensures
        non_empty(seq![s]) == if s.len() == 0 {
            Seq::empty()
        } else {
            seq![s]
        },
{
    assert(seq![s].drop_last() == Seq::<Seq<char>>::empty());
    assert(non_empty(Seq::<Seq<char>>::empty()) == Seq::<Seq<char>>::empty());
}

/// Empty texts are dropped from each of two lists alike.
pub proof fn lemma_non_empty_concat(a: Seq<Seq<char>>, b: Seq<Seq<char>>)
    ensures
        non_empty(a + b) == non_empty(a) + non_empty(b),
    decreases b.len(),
{
    if b.len() == 0 {
        assert(a + b == a);
    } else {
        lemma_non_empty_concat(a, b.drop_last());
        assert((a + b).drop_last() == a + b.drop_last());
        assert((a + b).last() == b.last());
        if b.last().len() > 0 {
            assert(non_empty(a) + non_empty(b.drop_last()).push(b.last()) == (non_empty(a)
                + non_empty(b.drop_last())).push(b.last()));
        }
    }
}

/// A text without the separator is one piece.
pub proof fn lemma_one_piece(s: Seq<char>, k: CharKind)
    requires
        forall|i: int| 0 <= i < s.len() ==> !k.has(#[trigger] s[i]),
    ensures
        pieces(s, k) == seq![s],
    decreases s.len(),
{
    if s.len() > 0 {
        lemma_one_piece(s.drop_last(), k);
        assert(s.drop_last().push(s.last()) == s);
        assert(pieces(s, k) =~= seq![s]);
    }
}

/// A separator splits a text into the pieces before it and those behind it.
pub proof fn lemma_pieces_concat(a: Seq<char>, sep: char, b: Seq<char>, k: CharKind)
    requires
        k.has(sep),
    ensures
        pieces(a.push(sep) + b, k) == pieces(a, k) + pieces(b, k),
        pieces(b, k).len() > 0,
    decreases b.len(),
{
    let whole = a.push(sep) + b;
    if b.len() == 0 {
        assert(whole == a.push(sep));
        assert(whole.drop_last() == a);
        assert(b == Seq::<char>::empty());
        assert(pieces(whole, k) == pieces(a, k) + pieces(b, k));
    } else {
        lemma_pieces_concat(a, sep, b.drop_last(), k);
        assert(whole.drop_last() == a.push(sep) + b.drop_last());
        assert(whole.last() == b.last());
        let before = pieces(a, k) + pieces(b.drop_last(), k);
        assert(before.last() == pieces(b.drop_last(), k).last());
        assert(pieces(whole, k) == pieces(a, k) + pieces(b, k));
    }
}

/// Joining two lists, neither of them empty, puts one separator between.
pub proof fn lemma_joined_concat(a: Seq<Seq<char>>, b: Seq<Seq<char>>, sep: Seq<char>)
    requires
        a.len() > 0,
        b.len() > 0,
    ensures
        joined(a + b, sep) == joined(a, sep) + sep + joined(b, sep),
    decreases b.len(),
{
    assert((a + b).drop_last() == a + b.drop_last());
    assert((a + b).last() == b.last());
    if b.len() == 1 {
        assert(a + b.drop_last() == a);
        assert(b[0] == b.last());
    } else {
        lemma_joined_concat(a, b.drop_last(), sep);
        assert(joined(a + b, sep) =~= joined(a, sep) + sep + joined(b, sep));
    }
}

/// Trimming each text of two lists in a row.
pub proof fn lemma_trimmed_each_concat(a: Seq<Seq<char>>, b: Seq<Seq<char>>)
    ensures
        trimmed_each(a + b) == trimmed_each(a) + trimmed_each(b),
{
    assert(trimmed_each(a + b) =~= trimmed_each(a) + trimmed_each(b));
}

} // verus!
