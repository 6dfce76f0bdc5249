//! What searching, trimming, splitting and joining come to.
use vstd::prelude::*;
use vstd::utf8::is_ascii_chars;
use crate::text::{
    ascii_lower, debug_quoted, escape_of, escaped, has_part, has_prefix, has_suffix,
    is_escapable_text, is_plain_text, is_white_space, joined, lemma_pieces_not_empty, lowercase,
    non_empty, occurs_at, pieces, same_but_case, strip_end, strip_start, stripped, trimmed,
    words, CharKind,
};
use crate::text::lemmas::{
    lemma_joined_concat, lemma_non_empty_kept, lemma_one_piece, lemma_pieces_concat,
};
use crate::text::lower::lemma_lowercase_splits_at_space;

verus! {

// -- searching ---------------------------------------------------------------------------------

/// A text holds what stands anywhere in it, and nothing else: exactly where it is made of something
/// before, the part, and something behind.
pub proof fn law_a_part_stands_somewhere(whole: Seq<char>, part: Seq<char>)
    ensures
        has_part(whole, part) <==> exists|before: Seq<char>, after: Seq<char>|
            whole == #[trigger] (before + part + after),
{
    if has_part(whole, part) {
        let at = choose|at: int| occurs_at(whole, part, at);
        let before = whole.take(at);
        let after = whole.skip(at + part.len());
        assert(whole == before + part + after);
    }
    if exists|before: Seq<char>, after: Seq<char>| whole == #[trigger] (before + part + after) {
        let (before, after) = choose|before: Seq<char>, after: Seq<char>|
            whole == #[trigger] (before + part + after);
        law_a_part_is_found(before, part, after);
    }
}

/// Whatever stands before it and whatever behind, a part is found.
pub proof fn law_a_part_is_found(before: Seq<char>, part: Seq<char>, after: Seq<char>)
    ensures
        has_part(before + part + after, part),
        has_prefix(part + after, part),
        has_suffix(before + part, part),
{
    let whole = before + part + after;
    let n = before.len() as int;
    assert(whole.subrange(n, n + part.len()) == part);
    assert(occurs_at(whole, part, n));
    assert((part + after).take(part.len() as int) == part);
    assert((before + part).skip(n) == part);
}

/// What is put behind a text takes nothing from it: it still holds what it held, it begins as it
/// began, and it holds what was put there.
pub broadcast proof fn law_a_longer_text_holds_what_it_held(
    x: Seq<char>,
    y: Seq<char>,
    part: Seq<char>,
)
    ensures
        has_part(x, part) || y == part ==> #[trigger] has_part(x + y, part),
{
    if has_part(x, part) {
        let at = choose|at: int| occurs_at(x, part, at);
        assert((x + y).subrange(at, at + part.len()) =~= x.subrange(at, at + part.len()));
        assert(occurs_at(x + y, part, at));
    }
    if y == part {
        law_a_part_is_found(x, part, Seq::empty());
        assert(x + part + Seq::<char>::empty() =~= x + part);
    }
}

/// Two texts put behind a third stand in it one behind the other.
pub broadcast proof fn law_neighbours_stand_together(x: Seq<char>, y: Seq<char>, z: Seq<char>)
    ensures
        #[trigger] has_part(x + y + z, y + z),
{
    let whole = x + y + z;
    let n = x.len() as int;
    assert(whole.subrange(n, n + (y + z).len()) =~= y + z);
    assert(occurs_at(whole, y + z, n));
}

/// A text begins with a part exactly where something follows the part to make the text, and ends
/// with it exactly where something goes before.
pub proof fn law_a_part_stands_at_an_end(whole: Seq<char>, part: Seq<char>)
    ensures
        has_prefix(whole, part) <==> exists|after: Seq<char>| whole == #[trigger] (part + after),
        has_suffix(whole, part) <==> exists|before: Seq<char>| whole == #[trigger] (before + part),
{
    if has_prefix(whole, part) {
        assert(whole == part + whole.skip(part.len() as int));
    }
    if has_suffix(whole, part) {
        assert(whole == whole.take(whole.len() - part.len()) + part);
    }
    if exists|after: Seq<char>| whole == #[trigger] (part + after) {
        let after = choose|after: Seq<char>| whole == #[trigger] (part + after);
        law_a_part_is_found(Seq::empty(), part, after);
    }
    if exists|before: Seq<char>| whole == #[trigger] (before + part) {
        let before = choose|before: Seq<char>| whole == #[trigger] (before + part);
        law_a_part_is_found(before, part, Seq::empty());
    }
}

/// Two texts are the same but for case exactly where they are of one length and differ nowhere but
/// in an ASCII letter against its other form.
pub proof fn law_case_is_the_only_difference(a: Seq<char>, b: Seq<char>)
    ensures
        same_but_case(a, b) <==> a.len() == b.len() && forall|i: int|
            0 <= i < a.len() ==> {
                ||| #[trigger] a[i] == b[i]
                ||| 'A' <= a[i] <= 'Z' && b[i] as u32 == a[i] as u32 + 32
                ||| 'A' <= b[i] <= 'Z' && a[i] as u32 == b[i] as u32 + 32
            },
{
    let x = ascii_lower(a);
    let y = ascii_lower(b);
    if same_but_case(a, b) {
        assert(x.len() == y.len());
        assert forall|i: int| 0 <= i < a.len() implies {
            ||| #[trigger] a[i] == b[i]
            ||| 'A' <= a[i] <= 'Z' && b[i] as u32 == a[i] as u32 + 32
            ||| 'A' <= b[i] <= 'Z' && a[i] as u32 == b[i] as u32 + 32
        } by {
            assert(x[i] == y[i]);
        }
    } else if a.len() == b.len() {
        assert(!(x =~= y));
        let i = choose|i: int| 0 <= i < a.len() && x[i] != y[i];
        assert(a[i] != b[i]);
    }
}

// -- trimming ----------------------------------------------------------------------------------

spec fn all_of(s: Seq<char>, k: CharKind) -> bool {
    forall|i: int| 0 <= i < s.len() ==> k.has(#[trigger] s[i])
}

proof fn lemma_start_is_cut(s: Seq<char>, k: CharKind) -> (cut: Seq<char>)
    ensures
        s == cut + strip_start(s, k),
        all_of(cut, k),
        strip_start(s, k).len() > 0 ==> !k.has(strip_start(s, k)[0]),
    decreases s.len(),
{
    if s.len() > 0 && k.has(s[0]) {
        let rest = lemma_start_is_cut(s.drop_first(), k);
        let cut = seq![s[0]] + rest;
        assert(s =~= cut + strip_start(s, k)) by {
            assert(s =~= seq![s[0]] + s.drop_first());
        }
        cut
    } else {
        assert(s =~= Seq::<char>::empty() + s);
        Seq::empty()
    }
}

proof fn lemma_end_is_cut(s: Seq<char>, k: CharKind) -> (cut: Seq<char>)
    ensures
        s == strip_end(s, k) + cut,
        all_of(cut, k),
        strip_end(s, k).len() > 0 ==> !k.has(strip_end(s, k).last()),
    decreases s.len(),
{
    if s.len() > 0 && k.has(s.last()) {
        let rest = lemma_end_is_cut(s.drop_last(), k);
        let cut = rest.push(s.last());
        assert(s =~= strip_end(s, k) + cut) by {
            assert(s =~= s.drop_last().push(s.last()));
        }
        cut
    } else {
        assert(s =~= s + Seq::<char>::empty());
        Seq::empty()
    }
}

/// Trimming takes white space from both ends, all of it, and nothing else.
pub proof fn law_trimming_takes_the_outer_white_space(s: Seq<char>)
    ensures
        exists|before: Seq<char>, after: Seq<char>|
            {
                &&& s == #[trigger] (before + trimmed(s) + after)
                &&& forall|i: int| 0 <= i < before.len() ==> is_white_space(#[trigger] before[i])
                &&& forall|i: int| 0 <= i < after.len() ==> is_white_space(#[trigger] after[i])
            },
        trimmed(s).len() > 0 ==> !is_white_space(trimmed(s)[0]) && !is_white_space(
            trimmed(s).last(),
        ),
{
    let k = CharKind::Space;
    let before = lemma_start_is_cut(s, k);
    let rest = strip_start(s, k);
    let after = lemma_end_is_cut(rest, k);
    assert(s == before + trimmed(s) + after) by {
        assert(before + (trimmed(s) + after) =~= before + trimmed(s) + after);
    }
    assert(forall|i: int| 0 <= i < before.len() ==> k.has(#[trigger] before[i]));
    assert(forall|i: int| 0 <= i < after.len() ==> k.has(#[trigger] after[i]));
    if trimmed(s).len() > 0 {
        assert(trimmed(s)[0] == rest[0]);
    }
}

/// Stripping characters of a kind takes them from both ends, all of them, and nothing else.
pub proof fn law_stripping_takes_the_outer_characters(s: Seq<char>, k: CharKind)
    ensures
        exists|before: Seq<char>, after: Seq<char>|
            {
                &&& s == #[trigger] (before + stripped(s, k) + after)
                &&& forall|i: int| 0 <= i < before.len() ==> k.has(#[trigger] before[i])
                &&& forall|i: int| 0 <= i < after.len() ==> k.has(#[trigger] after[i])
            },
        stripped(s, k).len() > 0 ==> !k.has(stripped(s, k)[0]) && !k.has(stripped(s, k).last()),
{
    let before = lemma_start_is_cut(s, k);
    let rest = strip_start(s, k);
    let after = lemma_end_is_cut(rest, k);
    assert(s == before + stripped(s, k) + after) by {
        assert(before + (stripped(s, k) + after) =~= before + stripped(s, k) + after);
    }
    if stripped(s, k).len() > 0 {
        assert(stripped(s, k)[0] == rest[0]);
    }
}

// -- splitting and joining ---------------------------------------------------------------------

/// Joining is splitting undone: between the pieces stood the separator, and no piece holds one.
pub proof fn law_joining_undoes_splitting(s: Seq<char>, sep: char)
    ensures
        joined(pieces(s, CharKind::Just(sep)), seq![sep]) == s,
        forall|i: int, j: int|
            0 <= i < pieces(s, CharKind::Just(sep)).len() && 0 <= j < pieces(
                s,
                CharKind::Just(sep),
            )[i].len() ==> #[trigger] pieces(s, CharKind::Just(sep))[i][j] != sep,
    decreases s.len(),
{
    let k = CharKind::Just(sep);
    if s.len() > 0 {
        law_joining_undoes_splitting(s.drop_last(), sep);
        lemma_pieces_not_empty(s.drop_last(), k);
        let before = pieces(s.drop_last(), k);
        let now = pieces(s, k);
        if s.last() == sep {
            assert(now.drop_last() == before);
            assert(joined(now, seq![sep]) =~= s);
        } else {
            assert(now.drop_last() == before.drop_last());
            assert(before.len() == 1 ==> before.last() == before[0]);
            assert(joined(now, seq![sep]) =~= joined(before, seq![sep]).push(s.last()));
            assert(s.drop_last().push(s.last()) =~= s);
        }
        assert forall|i: int, j: int|
            0 <= i < now.len() && 0 <= j < now[i].len() implies #[trigger] now[i][j] != sep by {
            if i < before.len() - 1 {
                assert(now[i] == before[i]);
            } else if s.last() == sep {
                if i < before.len() {
                    assert(now[i] == before[i]);
                }
            } else if j < before.last().len() {
                assert(now[i][j] == before[i][j]);
            }
        }
    }
}

/// Splitting is joining undone: texts without the separator, joined by it, come apart again.
pub proof fn law_splitting_undoes_joining(list: Seq<Seq<char>>, sep: char)
    requires
        list.len() > 0,
        forall|i: int, j: int|
            0 <= i < list.len() && 0 <= j < list[i].len() ==> #[trigger] list[i][j] != sep,
    ensures
        pieces(joined(list, seq![sep]), CharKind::Just(sep)) == list,
    decreases list.len(),
{
    let k = CharKind::Just(sep);
    let last = list.last();
    assert forall|j: int| 0 <= j < last.len() implies !k.has(#[trigger] last[j]) by {
        assert(list[list.len() - 1][j] != sep);
    }
    lemma_one_piece(last, k);
    if list.len() == 1 {
        assert(list =~= seq![last]);
    } else {
        let rest = list.drop_last();
        assert forall|i: int, j: int|
            0 <= i < rest.len() && 0 <= j < rest[i].len() implies #[trigger] rest[i][j] != sep by {
            assert(rest[i] == list[i]);
            assert(list[i][j] != sep);
        }
        law_splitting_undoes_joining(rest, sep);
        let head = joined(rest, seq![sep]);
        assert(joined(list, seq![sep]) =~= head.push(sep) + last);
        lemma_pieces_concat(head, sep, last, k);
        assert(list =~= rest + seq![last]);
    }
}

/// Joining puts the texts one after the other, with one separator between neighbours and none at
/// the ends.
pub proof fn law_joining_separates_neighbours(
    a: Seq<Seq<char>>,
    b: Seq<Seq<char>>,
    one: Seq<char>,
    sep: Seq<char>,
)
    ensures
        joined(Seq::empty(), sep).len() == 0,
        joined(seq![one], sep) == one,
        a.len() > 0 && b.len() > 0 ==> joined(a + b, sep) == joined(a, sep) + sep + joined(b, sep),
{
    if a.len() > 0 && b.len() > 0 {
        lemma_joined_concat(a, b, sep);
    }
}

spec fn flat(parts: Seq<Seq<char>>) -> Seq<char>
    decreases parts.len(),
{
    if parts.len() == 0 {
        Seq::empty()
    } else {
        flat(parts.drop_last()) + parts.last()
    }
}

proof fn lemma_non_empty_flat(parts: Seq<Seq<char>>)
    ensures
        flat(non_empty(parts)) == flat(parts),
    decreases parts.len(),
{
    if parts.len() > 0 {
        lemma_non_empty_flat(parts.drop_last());
        if parts.last().len() == 0 {
            assert(flat(parts) =~= flat(parts.drop_last()));
        } else {
            let kept = non_empty(parts.drop_last());
            assert(kept.push(parts.last()).drop_last() == kept);
        }
    }
}

proof fn lemma_flat_pieces(s: Seq<char>, k: CharKind)
    ensures
        flat(pieces(s, k)) == s.filter(|c: char| !k.has(c)),
    decreases s.len(),
{
    reveal(Seq::filter);
    if s.len() == 0 {
        assert(seq![s].drop_last() =~= Seq::<Seq<char>>::empty());
        reveal_with_fuel(flat, 2);
        assert(flat(seq![s]) =~= Seq::<char>::empty());
        assert(s.filter(|c: char| !k.has(c)) =~= Seq::<char>::empty());
    } else {
        lemma_flat_pieces(s.drop_last(), k);
        lemma_pieces_not_empty(s.drop_last(), k);
        let before = pieces(s.drop_last(), k);
        let now = pieces(s, k);
        if k.has(s.last()) {
            assert(now.drop_last() == before);
            assert(flat(now) =~= flat(before));
        } else {
            assert(now.drop_last() == before.drop_last());
            assert(flat(now) =~= flat(before).push(s.last()));
        }
    }
}

proof fn lemma_pieces_lack(s: Seq<char>, k: CharKind)
    ensures
        forall|i: int, j: int|
            0 <= i < pieces(s, k).len() && 0 <= j < pieces(s, k)[i].len() ==> !k.has(
                #[trigger] pieces(s, k)[i][j],
            ),
    decreases s.len(),
{
    if s.len() > 0 {
        lemma_pieces_lack(s.drop_last(), k);
        lemma_pieces_not_empty(s.drop_last(), k);
        let before = pieces(s.drop_last(), k);
        let now = pieces(s, k);
        assert forall|i: int, j: int| 0 <= i < now.len() && 0 <= j < now[i].len() implies !k.has(
            #[trigger] now[i][j],
        ) by {
            if i < before.len() - 1 {
                assert(now[i] == before[i]);
            } else if k.has(s.last()) {
                if i < before.len() {
                    assert(now[i] == before[i]);
                }
            } else if j < before.last().len() {
                assert(now[i][j] == before[i][j]);
            }
        }
    }
}

/// The words of a text are its runs of characters other than white space: none is empty, none holds
/// white space, and one after the other they are the text without its white space.
pub proof fn law_words_are_what_white_space_leaves(s: Seq<char>)
    ensures
        forall|i: int| 0 <= i < words(s).len() ==> (#[trigger] words(s)[i]).len() > 0,
        forall|i: int, j: int|
            0 <= i < words(s).len() && 0 <= j < words(s)[i].len() ==> !is_white_space(
                #[trigger] words(s)[i][j],
            ),
        words(s).fold_left(Seq::<char>::empty(), |all: Seq<char>, w: Seq<char>| all + w)
            == s.filter(|c: char| !is_white_space(c)),
{
    let k = CharKind::Space;
    let all = pieces(s, k);
    lemma_pieces_lack(s, k);
    lemma_flat_pieces(s, k);
    lemma_non_empty_flat(all);
    assert forall|i: int| 0 <= i < words(s).len() implies (#[trigger] words(s)[i]).len() > 0 by {
        lemma_non_empty_kept(all, i);
    }
    assert forall|i: int, j: int|
        0 <= i < words(s).len() && 0 <= j < words(s)[i].len() implies !is_white_space(
        #[trigger] words(s)[i][j],
    ) by {
        lemma_non_empty_kept(all, i);
        let at = choose|at: int| 0 <= at < all.len() && all[at] == words(s)[i];
        assert(!k.has(all[at][j]));
    }
    lemma_fold_is_flat(words(s));
    assert(s.filter(|c: char| !k.has(c)) =~= s.filter(|c: char| !is_white_space(c))) by {
        lemma_same_filter(s, |c: char| !k.has(c), |c: char| !is_white_space(c));
    }
}

proof fn lemma_same_filter(s: Seq<char>, f: spec_fn(char) -> bool, g: spec_fn(char) -> bool)
    requires
        forall|c: char| #[trigger] f(c) == g(c),
    ensures
        s.filter(f) == s.filter(g),
    decreases s.len(),
{
    reveal(Seq::filter);
    if s.len() > 0 {
        lemma_same_filter(s.drop_last(), f, g);
        assert(f(s.last()) == g(s.last()));
    }
}

proof fn lemma_fold_is_flat(parts: Seq<Seq<char>>)
    ensures
        parts.fold_left(Seq::<char>::empty(), |all: Seq<char>, w: Seq<char>| all + w) == flat(
            parts,
        ),
    decreases parts.len(),
{
    if parts.len() > 0 {
        lemma_fold_is_flat(parts.drop_last());
    }
}

// -- case and quotes ---------------------------------------------------------------------------

/// Of an ASCII text the lower case has the same length, each capital letter made small and every
/// other character left as it is.
pub proof fn law_lower_case_makes_capitals_small(s: Seq<char>)
    requires
        forall|i: int| 0 <= i < s.len() ==> '\0' <= #[trigger] s[i] <= '\u{7f}',
    ensures
        lowercase(s).len() == s.len(),
        forall|i: int|
            0 <= i < s.len() ==> {
                &&& 'A' <= #[trigger] s[i] <= 'Z' ==> lowercase(s)[i] as u32 == s[i] as u32 + 32
                &&& !('A' <= s[i] <= 'Z') ==> lowercase(s)[i] == s[i]
            },
{
    assert(is_ascii_chars(s));
}

/// Lower case goes word by word: what stands on one side of a space does not matter to the other.
pub proof fn law_lower_case_goes_word_by_word(a: Seq<char>, b: Seq<char>)
    ensures
        lowercase(a + " "@ + b) == lowercase(a) + " "@ + lowercase(b),
{
    lemma_lowercase_splits_at_space(a, b);
}

proof fn lemma_escaped_concat(a: Seq<char>, b: Seq<char>)
    ensures
        escaped(a + b) == escaped(a) + escaped(b),
    decreases b.len(),
{
    if b.len() == 0 {
        assert(a + b =~= a);
        assert(escaped(a) + escaped(b) =~= escaped(a));
    } else {
        lemma_escaped_concat(a, b.drop_last());
        assert((a + b).drop_last() =~= a + b.drop_last());
        assert((a + b).last() == b.last());
        assert(escaped(a + b) =~= escaped(a) + escaped(b));
    }
}

proof fn lemma_plain_is_escaped(s: Seq<char>)
    requires
        is_plain_text(s),
    ensures
        escaped(s) == s,
    decreases s.len(),
{
    if s.len() > 0 {
        lemma_plain_is_escaped(s.drop_last());
        assert(s.last() == s[s.len() - 1]);
        assert(escaped(s) =~= s.drop_last().push(s.last()));
        assert(s.drop_last().push(s.last()) =~= s);
    }
}

proof fn lemma_quoted_is_escaped(s: Seq<char>)
    requires
        is_escapable_text(s),
    ensures
        debug_quoted(s) == seq!['"'] + escaped(s) + seq!['"'],
{
    if is_plain_text(s) {
        lemma_plain_is_escaped(s);
    }
}

/// A text of ASCII characters that print, line breaks and tabs is quoted character by character
/// between two double quotes: a backslash is put before a double quote and a backslash, a line
/// break, a carriage return and a tab are written by their letters, and anything else stands for
/// itself.
pub proof fn law_a_text_is_quoted_character_by_character(s: Seq<char>, c: char)
    requires
        forall|i: int|
            0 <= i < s.len() ==> {
                ||| ' ' <= #[trigger] s[i] <= '~'
                ||| s[i] == '\n'
                ||| s[i] == '\r'
                ||| s[i] == '\t'
            },
        ' ' <= c <= '~' || c == '\n' || c == '\r' || c == '\t',
    ensures
        debug_quoted(Seq::empty()) == seq!['"', '"'],
        exists|inner: Seq<char>|
            {
                let written = if c == '\n' {
                    seq!['\\', 'n']
                } else if c == '\r' {
                    seq!['\\', 'r']
                } else if c == '\t' {
                    seq!['\\', 't']
                } else if c == '"' || c == '\\' {
                    seq!['\\', c]
                } else {
                    seq![c]
                };
                &&& debug_quoted(s) == #[trigger] (seq!['"'] + inner + seq!['"'])
                &&& debug_quoted(s + seq![c]) == seq!['"'] + inner + written + seq!['"']
            },
{
    let none = Seq::<char>::empty();
    assert(debug_quoted(none) =~= seq!['"', '"']);
    assert(is_escapable_text(s));
    assert forall|i: int| 0 <= i < (s + seq![c]).len() implies {
        ||| ' ' <= #[trigger] (s + seq![c])[i] <= '~'
        ||| (s + seq![c])[i] == '\n'
        ||| (s + seq![c])[i] == '\r'
        ||| (s + seq![c])[i] == '\t'
    } by {
        if i < s.len() {
            assert((s + seq![c])[i] == s[i]);
        }
    }
    assert(is_escapable_text(s + seq![c]));
    lemma_quoted_is_escaped(s);
    lemma_quoted_is_escaped(s + seq![c]);
    lemma_escaped_concat(s, seq![c]);
    assert(seq![c].drop_last() =~= none);
    assert(escaped(seq![c]) =~= escape_of(c)) by {
        assert(escaped(none) =~= none);
    }
    let inner = escaped(s);
    assert(debug_quoted(s) == seq!['"'] + inner + seq!['"']);
    assert(debug_quoted(s + seq![c]) =~= seq!['"'] + inner + escape_of(c) + seq!['"']);
}

} // verus!
