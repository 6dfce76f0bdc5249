//! Facts about lower case.
use vstd::prelude::*;
use vstd::utf8::is_ascii_chars;
use crate::text::lemmas::{lemma_joined_concat, lemma_one_piece, lemma_pieces_concat};
use crate::text::{
    ascii_lower, has_prefix, joined, lemma_pieces_not_empty, lower_at, lower_below, lower_words,
    lowercase, pieces, CharKind,
};

verus! {

/// Every text of a list with its ASCII capitals replaced by small letters.
pub open spec fn lower_each(parts: Seq<Seq<char>>) -> Seq<Seq<char>> {
    parts.map_values(|p: Seq<char>| ascii_lower(p))
}

/// Whether every text of a list is ASCII.
pub open spec fn all_ascii(parts: Seq<Seq<char>>) -> bool {
    forall|i: int| 0 <= i < parts.len() ==> is_ascii_chars(#[trigger] parts[i])
}

/// Replacing capitals and joining by spaces go in either order.
pub proof fn lemma_lower_joined(parts: Seq<Seq<char>>)
    ensures
        joined(lower_each(parts), " "@) == ascii_lower(joined(parts, " "@)),
    decreases parts.len(),
{
    reveal_strlit(" ");
    if parts.len() > 1 {
        lemma_lower_joined(parts.drop_last());
        assert(lower_each(parts).drop_last() == lower_each(parts.drop_last()));
        let head = joined(parts.drop_last(), " "@);
        assert(ascii_lower(head + " "@ + parts.last()) == ascii_lower(head) + " "@ + ascii_lower(
            parts.last(),
        ));
    } else if parts.len() == 0 {
        assert(ascii_lower(Seq::<char>::empty()) == Seq::<char>::empty());
    }
}

/// Splitting keeps a list ASCII.
pub proof fn lemma_ascii_pieces(s: Seq<char>, k: CharKind)
    requires
        is_ascii_chars(s),
    ensures
        all_ascii(pieces(s, k)),
        pieces(s, k).len() > 0,
    decreases s.len(),
{
    if s.len() > 0 {
        lemma_ascii_pieces(s.drop_last(), k);
    }
}

/// Whether two texts are the same but for which of the two small sigmas they have where they have
/// one.
pub open spec fn is_like(a: Seq<char>, b: Seq<char>) -> bool {
    &&& a.len() == b.len()
    &&& forall|i: int|
        0 <= i < a.len() ==> #[trigger] a[i] == b[i] || (is_small_sigma(a[i]) && is_small_sigma(
            b[i],
        ))
}

pub open spec fn is_small_sigma(c: char) -> bool {
    c == 'σ' || c == 'ς'
}

/// Whether a text begins like another, up to sigmas.
pub open spec fn begins_like(long: Seq<char>, short: Seq<char>) -> bool {
    short.len() <= long.len() && is_like(long.take(short.len() as int), short)
}

proof fn lemma_lower_below_ascii(w: Seq<char>, upto: nat)
    requires
        upto <= w.len(),
        is_ascii_chars(w),
    ensures
        lower_below(w, upto) == ascii_lower(w).take(upto as int),
    decreases upto,
{
    if upto > 0 {
        lemma_lower_below_ascii(w, (upto - 1) as nat);
        assert(ascii_lower(w).take(upto as int).drop_last() == ascii_lower(w).take(upto - 1));
        assert(lower_below(w, upto) =~= ascii_lower(w).take(upto as int));
    }
}

proof fn lemma_lower_below_like(w: Seq<char>, v: Seq<char>, upto: nat)
    requires
        upto <= v.len() <= w.len(),
        w.take(v.len() as int) == v,
    ensures
        is_like(lower_below(w, upto), lower_below(v, upto)),
    decreases upto,
{
    if upto > 0 {
        let i = upto - 1;
        lemma_lower_below_like(w, v, i as nat);
        assert(w.take(v.len() as int)[i] == w[i]);
        let a = lower_below(w, i as nat);
        let b = lower_below(v, i as nat);
        assert(is_like(lower_at(w, i), lower_at(v, i)));
        assert(is_like(a + lower_at(w, i), b + lower_at(v, i)));
    }
}

proof fn lemma_lower_below_grows(w: Seq<char>, n: nat, upto: nat)
    requires
        n <= upto,
    ensures
        has_prefix(lower_below(w, upto), lower_below(w, n)),
    decreases upto,
{
    let now = lower_below(w, upto);
    let part = lower_below(w, n);
    if n < upto {
        lemma_lower_below_grows(w, n, (upto - 1) as nat);
        let before = lower_below(w, (upto - 1) as nat);
        assert(now.take(part.len() as int) == before.take(part.len() as int));
    } else {
        assert(now.take(part.len() as int) == part);
    }
}

proof fn lemma_pieces_join(s: Seq<char>)
    ensures
        joined(pieces(s, CharKind::Just(' ')), " "@) == s,
    decreases s.len(),
{
    reveal_strlit(" ");
    let k = CharKind::Just(' ');
    if s.len() > 0 {
        lemma_pieces_join(s.drop_last());
        lemma_pieces_not_empty(s.drop_last(), k);
        let before = pieces(s.drop_last(), k);
        let now = pieces(s, k);
        if s.last() == ' ' {
            assert(now.drop_last() == before);
            assert(joined(now, " "@) == s);
        } else {
            let grown = before.last().push(s.last());
            assert(now.drop_last() == before.drop_last());
            if before.len() > 1 {
                assert(joined(now, " "@) =~= joined(before, " "@).push(s.last()));
            } else {
                assert(before.last() == before[0]);
                assert(joined(now, " "@) =~= joined(before, " "@).push(s.last()));
            }
            assert(s.drop_last().push(s.last()) == s);
        }
    }
}

/// Lower case goes word by word, in ASCII as beyond it.
pub proof fn lemma_lowercase_by_word(s: Seq<char>)
    ensures
        lowercase(s) == joined(lower_words(pieces(s, CharKind::Just(' '))), " "@),
{
    if is_ascii_chars(s) {
        let parts = pieces(s, CharKind::Just(' '));
        lemma_ascii_pieces(s, CharKind::Just(' '));
        assert forall|i: int| 0 <= i < parts.len() implies lower_words(parts)[i] == lower_each(
            parts,
        )[i] by {
            let w = parts[i];
            lemma_lower_below_ascii(w, w.len());
            assert(ascii_lower(w).take(w.len() as int) == ascii_lower(w));
        }
        assert(lower_words(parts) == lower_each(parts));
        lemma_lower_joined(parts);
        lemma_pieces_join(s);
    }
}

/// What stands on one side of a space does not matter to the lower case of the other.
pub proof fn lemma_lowercase_splits_at_space(a: Seq<char>, b: Seq<char>)
    ensures
        lowercase(a + " "@ + b) == lowercase(a) + " "@ + lowercase(b),
{
    reveal_strlit(" ");
    let k = CharKind::Just(' ');
    lemma_lowercase_by_word(a);
    lemma_lowercase_by_word(b);
    lemma_lowercase_by_word(a + " "@ + b);
    assert(a + " "@ + b == a.push(' ') + b);
    lemma_pieces_concat(a, ' ', b, k);
    lemma_pieces_not_empty(a, k);
    assert(lower_words(pieces(a, k) + pieces(b, k)) == lower_words(pieces(a, k)) + lower_words(
        pieces(b, k),
    ));
    lemma_joined_concat(lower_words(pieces(a, k)), lower_words(pieces(b, k)), " "@);
}

/// The lower case of a text without a space is that of its characters.
proof fn lemma_lowercase_of_word(w: Seq<char>)
    requires
        !w.contains(' '),
    ensures
        lowercase(w) == lower_below(w, w.len()),
{
    let k = CharKind::Just(' ');
    assert forall|i: int| 0 <= i < w.len() implies !k.has(#[trigger] w[i]) by {
        assert(w.contains(w[i]));
    }
    lemma_one_piece(w, k);
    lemma_lowercase_by_word(w);
    assert(lower_words(seq![w])[0] == lower_below(w, w.len()));
}

proof fn lemma_word_keeps_start(p: Seq<char>, rest: Seq<char>)
    requires
        !p.contains(' '),
        !rest.contains(' '),
    ensures
        begins_like(lowercase(p + rest), lowercase(p)),
{
    let w = p + rest;
    lemma_no_space(p, rest);
    lemma_lowercase_of_word(p);
    lemma_lowercase_of_word(w);
    assert(w.take(p.len() as int) == p);
    lemma_lower_below_like(w, p, p.len());
    lemma_lower_below_grows(w, p.len(), w.len());
}

proof fn lemma_text_keeps_word(p: Seq<char>, rest: Seq<char>)
    requires
        !p.contains(' '),
    ensures
        begins_like(lowercase(p + rest), lowercase(p)),
{
    if rest.contains(' ') {
        assert(rest.take(rest.len() as int) == rest);
        lemma_first_space(rest, rest.len());
        let j = choose|j: int|
            0 <= j < rest.len() && rest[j] == ' ' && !rest.take(j).contains(' ');
        let head = rest.take(j);
        let tail = rest.skip(j + 1);
        assert(p + rest == p + head + " "@ + tail) by {
            reveal_strlit(" ");
        }
        lemma_lowercase_splits_at_space(p + head, tail);
        lemma_word_keeps_start(p, head);
        let n = lowercase(p).len() as int;
        let long = lowercase(p + head) + " "@ + lowercase(tail);
        assert(long.take(n) == lowercase(p + head).take(n));
    } else {
        lemma_word_keeps_start(p, rest);
    }
}

/// The lower case of a text begins like that of a text with which it begins.
pub proof fn lemma_lowercase_keeps_start(p: Seq<char>, rest: Seq<char>)
    ensures
        begins_like(lowercase(p + rest), lowercase(p)),
    decreases p.len(),
{
    if p.contains(' ') {
        let i = choose|i: int| 0 <= i < p.len() && p[i] == ' ';
        let head = p.take(i);
        let tail = p.skip(i + 1);
        assert(p == head + " "@ + tail && p + rest == head + " "@ + (tail + rest)) by {
            reveal_strlit(" ");
        }
        lemma_lowercase_splits_at_space(head, tail);
        lemma_lowercase_splits_at_space(head, tail + rest);
        lemma_lowercase_keeps_start(tail, rest);
        lemma_like_behind(lowercase(head) + " "@, lowercase(tail), lowercase(tail + rest));
    } else {
        lemma_text_keeps_word(p, rest);
    }
}

proof fn lemma_like_behind(start: Seq<char>, short: Seq<char>, long: Seq<char>)
    requires
        begins_like(long, short),
    ensures
        begins_like(start + long, start + short),
{
    let n = short.len() as int;
    assert((start + long).take((start + short).len() as int) == start + long.take(n));
    assert(is_like(start + long.take(n), start + short));
}

/// A dot behind a text stays behind its lower case.
pub proof fn lemma_lowercase_keeps_dot(p: Seq<char>)
    ensures
        lowercase(p.push('.')).len() == lowercase(p).len() + 1,
        lowercase(p.push('.')).last() == '.',
    decreases p.len(),
{
    if p.contains(' ') {
        let i = choose|i: int| 0 <= i < p.len() && p[i] == ' ';
        let head = p.take(i);
        let tail = p.skip(i + 1);
        assert(p == head + " "@ + tail && p.push('.') == head + " "@ + tail.push('.')) by {
            reveal_strlit(" ");
        }
        lemma_lowercase_splits_at_space(head, tail);
        lemma_lowercase_splits_at_space(head, tail.push('.'));
        lemma_lowercase_keeps_dot(tail);
    } else {
        let w = p.push('.');
        assert(!w.contains(' ')) by {
            assert forall|j: int| 0 <= j < w.len() implies w[j] != ' ' by {
                if j < p.len() {
                    assert(p.contains(p[j]));
                }
            }
        }
        lemma_lowercase_of_word(p);
        lemma_lowercase_of_word(w);
        assert(w.take(p.len() as int) == p);
        lemma_lower_below_like(w, p, p.len());
        assert(lower_at(w, p.len() as int) == seq!['.']);
    }
}

proof fn lemma_no_space(a: Seq<char>, b: Seq<char>)
    requires
        !a.contains(' '),
        !b.contains(' '),
    ensures
        !(a + b).contains(' '),
{
    let whole = a + b;
    assert forall|i: int| 0 <= i < whole.len() implies whole[i] != ' ' by {
        if i < a.len() {
            assert(a.contains(a[i]));
        } else {
            assert(b.contains(b[i - a.len()]));
        }
    }
}

proof fn lemma_first_space(s: Seq<char>, upto: nat)
    requires
        upto <= s.len(),
        s.take(upto as int).contains(' '),
    ensures
        exists|j: int| 0 <= j < s.len() && s[j] == ' ' && !s.take(j).contains(' '),
    decreases upto,
{
    let part = s.take(upto as int);
    let i = choose|i: int| 0 <= i < part.len() && part[i] == ' ';
    if s.take(i).contains(' ') {
        lemma_first_space(s, i as nat);
    } else {
        assert(s[i] == ' ');
    }
}

} // verus!
