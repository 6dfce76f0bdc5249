//! Stable sorting.
use vstd::prelude::*;
use crate::text::{chars_of, owned, texts};

pub mod laws;

verus! {

/// Something that is listed by rank. `before` is a strict order in which incomparable items share a
/// rank.
pub trait Ranked: Sized {
    /// Whether this item is listed strictly before the other.
    spec fn before(self, other: Self) -> bool;

    /// Computes [`Ranked::before`].
    fn is_before(&self, other: &Self) -> (r: bool)
        ensures
            r == self.before(*other),
    ;

    /// No two items are each before the other, and an item is always before one of two of which the
    /// first is before the second, or behind the other of them.
    proof fn before_orders(a: Self, b: Self, c: Self)
        ensures
            !(a.before(b) && b.before(a)),
            a.before(b) ==> a.before(c) || c.before(b),
    ;
}

/// A ranked list with one more item, behind those of its own rank.
pub open spec fn with_item<T: Ranked>(list: Seq<T>, item: T) -> Seq<T>
    decreases list.len(),
{
    if list.len() == 0 || !item.before(list.last()) {
        list.push(item)
    } else {
        with_item(list.drop_last(), item).push(list.last())
    }
}

/// A list in the order of rank, items of one rank in the order they had.
pub open spec fn ranked<T: Ranked>(list: Seq<T>) -> Seq<T>
    decreases list.len(),
{
    if list.len() == 0 {
        list
    } else {
        with_item(ranked(list.drop_last()), list.last())
    }
}

/// Whether no item of a list is before an earlier one.
pub open spec fn in_rank_order<T: Ranked>(list: Seq<T>) -> bool {
    forall|i: int, j: int| 0 <= i < j < list.len() ==> !(#[trigger] list[j]).before(
        #[trigger] list[i],
    )
}

/// Where [`with_item`] puts the item: behind the last one that it is not before.
proof fn lemma_with_item_at<T: Ranked>(list: Seq<T>, item: T, at: int)
    requires
        0 <= at <= list.len(),
        forall|i: int| at <= i < list.len() ==> item.before(#[trigger] list[i]),
        at > 0 ==> !item.before(list[at - 1]),
    ensures
        with_item(list, item) == list.insert(at, item),
    decreases list.len(),
{
    if at == list.len() {
        assert(list.insert(at, item) == list.push(item));
    } else {
        lemma_with_item_at(list.drop_last(), item, at);
        assert(list.insert(at, item) == list.drop_last().insert(at, item).push(list.last()));
    }
}

proof fn lemma_with_item_in_order<T: Ranked>(list: Seq<T>, item: T)
    requires
        in_rank_order(list),
    ensures
        in_rank_order(with_item(list, item)),
        with_item(list, item).to_multiset() =~= list.to_multiset().insert(item),
        with_item(list, item).len() == list.len() + 1,
        forall|x: T|
            (forall|i: int| 0 <= i < list.len() ==> !x.before(#[trigger] list[i])) && !x.before(
                item,
            ) ==> (forall|i: int|
                0 <= i < with_item(list, item).len() ==> !x.before(
                    #[trigger] with_item(list, item)[i],
                )),
    decreases list.len(),
{
    broadcast use vstd::seq_lib::group_to_multiset_ensures;

    let out = with_item(list, item);
    if list.len() == 0 || !item.before(list.last()) {
        assert forall|i: int, j: int| 0 <= i < j < out.len() implies !(#[trigger] out[j]).before(
            #[trigger] out[i],
        ) by {
            if j == list.len() && i < list.len() - 1 {
                T::before_orders(item, list[i], list.last());
                assert(!list.last().before(list[i]));
            }
        }
    } else {
        let shorter = list.drop_last();
        lemma_with_item_in_order(shorter, item);
        let inner = with_item(shorter, item);
        let last = list.last();
        T::before_orders(item, last, item);
        assert(!last.before(item));
        assert forall|i: int| 0 <= i < shorter.len() implies !last.before(
            #[trigger] shorter[i],
        ) by {
            assert(shorter[i] == list[i]);
        }
        assert(list.to_multiset() =~= shorter.to_multiset().insert(last)) by {
            assert(shorter.push(last) == list);
        }
    }
}

/// A ranked list is in the order of rank and holds the items it was made from, each as often.
pub proof fn law_ranked_sorts<T: Ranked>(list: Seq<T>)
    ensures
        in_rank_order(ranked(list)),
        ranked(list).to_multiset() =~= list.to_multiset(),
        ranked(list).len() == list.len(),
    decreases list.len(),
{
    broadcast use vstd::seq_lib::group_to_multiset_ensures;

    if list.len() > 0 {
        law_ranked_sorts(list.drop_last());
        lemma_with_item_in_order(ranked(list.drop_last()), list.last());
        assert(list.drop_last().push(list.last()) == list);
    }
}

/// Computes [`ranked`].
pub fn sort<T: Ranked>(list: Vec<T>) -> (r: Vec<T>)
    ensures
        r@ == ranked(list@),
{
    let ghost all = list@;
    let mut out: Vec<T> = Vec::new();
    assert(all.take(0) == Seq::<T>::empty());
    for x in it: list
        invariant
            it.seq() == all,
            out@ == ranked(all.take(it.index())),
    {
        let mut at: usize = out.len();
        while at > 0 && x.is_before(&out[at - 1])
            invariant
                at <= out@.len(),
                forall|i: int| at <= i < out@.len() ==> x.before(#[trigger] out@[i]),
            decreases at,
        {
            at -= 1;
        }
        proof {
            lemma_with_item_at(out@, x, at as int);
            assert(all.take(it.index() + 1).drop_last() == all.take(it.index()));
        }
        out.insert(at, x);
    }
    assert(all.take(all.len() as int) == all);
    out
}

// -- texts -------------------------------------------------------------------------------------

/// Whether one text comes strictly before another, character by character.
pub open spec fn text_before(a: Seq<char>, b: Seq<char>) -> bool
    decreases a.len(),
{
    if b.len() == 0 {
        false
    } else if a.len() == 0 {
        true
    } else if a[0] != b[0] {
        a[0] < b[0]
    } else {
        text_before(a.drop_first(), b.drop_first())
    }
}

/// Texts are ordered strictly.
pub proof fn lemma_text_before_orders(a: Seq<char>, b: Seq<char>, c: Seq<char>)
    ensures
        !(text_before(a, b) && text_before(b, a)),
        text_before(a, b) ==> text_before(a, c) || text_before(c, b),
    decreases a.len() + b.len() + c.len(),
{
    if a.len() > 0 && b.len() > 0 && c.len() > 0 {
        lemma_text_before_orders(a.drop_first(), b.drop_first(), c.drop_first());
    } else if a.len() > 0 && b.len() > 0 {
        lemma_text_before_orders(a.drop_first(), b.drop_first(), c);
    }
}

/// Computes [`text_before`].
pub fn is_text_before(a: &str, b: &str) -> (r: bool)
    ensures
        r == text_before(a@, b@),
{
    let x = chars_of(a);
    let y = chars_of(b);
    let mut i: usize = 0;
    assert(x@.skip(0) == a@ && y@.skip(0) == b@);
    while i < x.len() && i < y.len() && x[i] == y[i]
        invariant
            i <= x@.len(),
            i <= y@.len(),
            text_before(x@.skip(i as int), y@.skip(i as int)) == text_before(a@, b@),
        decreases x@.len() - i,
    {
        assert(x@.skip(i as int).drop_first() == x@.skip(i + 1));
        assert(y@.skip(i as int).drop_first() == y@.skip(i + 1));
        i += 1;
    }
    if i >= y.len() {
        false
    } else if i >= x.len() {
        true
    } else {
        x[i] < y[i]
    }
}

/// A text, ranked by the order of texts.
#[derive(Debug, Clone)]
pub struct Word {
    pub text: String,
}

impl Ranked for Word {
    open spec fn before(self, other: Word) -> bool {
        text_before(self.text@, other.text@)
    }

    fn is_before(&self, other: &Word) -> (r: bool) {
        is_text_before(self.text.as_str(), other.text.as_str())
    }

    proof fn before_orders(a: Word, b: Word, c: Word) {
        lemma_text_before_orders(a.text@, b.text@, c.text@);
    }
}

/// A list of texts in their order.
pub open spec fn alphabetical(list: Seq<Seq<char>>) -> Seq<Seq<char>>
    decreases list.len(),
{
    if list.len() == 0 {
        list
    } else {
        with_text(alphabetical(list.drop_last()), list.last())
    }
}

/// An ordered list of texts with one more, behind its equals.
pub open spec fn with_text(list: Seq<Seq<char>>, text: Seq<char>) -> Seq<Seq<char>>
    decreases list.len(),
{
    if list.len() == 0 || !text_before(text, list.last()) {
        list.push(text)
    } else {
        with_text(list.drop_last(), text).push(list.last())
    }
}

spec fn word_texts(list: Seq<Word>) -> Seq<Seq<char>> {
    list.map_values(|w: Word| w.text@)
}

proof fn lemma_with_item_text(list: Seq<Word>, item: Word)
    ensures
        word_texts(with_item(list, item)) == with_text(word_texts(list), item.text@),
    decreases list.len(),
{
    if list.len() == 0 || !item.before(list.last()) {
        assert(word_texts(list.push(item)) == word_texts(list).push(item.text@));
    } else {
        lemma_with_item_text(list.drop_last(), item);
        assert(word_texts(list).drop_last() == word_texts(list.drop_last()));
        let inner = with_item(list.drop_last(), item);
        assert(word_texts(inner.push(list.last())) == word_texts(inner).push(list.last().text@));
    }
}

proof fn lemma_ranked_texts(list: Seq<Word>)
    ensures
        word_texts(ranked(list)) == alphabetical(word_texts(list)),
    decreases list.len(),
{
    if list.len() > 0 {
        lemma_ranked_texts(list.drop_last());
        lemma_with_item_text(ranked(list.drop_last()), list.last());
        assert(word_texts(list).drop_last() == word_texts(list.drop_last()));
    } else {
        assert(word_texts(list) == Seq::<Seq<char>>::empty());
        assert(word_texts(ranked(list)) == Seq::<Seq<char>>::empty());
    }
}

/// Computes [`alphabetical`].
pub fn sort_texts(list: &Vec<String>) -> (r: Vec<String>)
    ensures
        texts(r@) == alphabetical(texts(list@)),
{
    let ghost all = texts(list@);
    let mut words: Vec<Word> = Vec::new();
    let mut i: usize = 0;
    while i < list.len()
        invariant
            i <= list@.len(),
            all == texts(list@),
            word_texts(words@) == all.take(i as int),
        decreases list@.len() - i,
    {
        let w = Word { text: owned(list[i].as_str()) };
        let ghost longer = word_texts(words@).push(w.text@);
        words.push(w);
        assert(word_texts(words@) == longer);
        assert(longer == all.take(i + 1));
        i += 1;
    }
    assert(all.take(all.len() as int) == all);
    proof {
        lemma_ranked_texts(words@);
    }
    let sorted = sort(words);
    let ghost ordered = word_texts(sorted@);
    let mut out: Vec<String> = Vec::new();
    let mut k: usize = 0;
    while k < sorted.len()
        invariant
            k <= sorted@.len(),
            ordered == word_texts(sorted@),
            texts(out@) == ordered.take(k as int),
        decreases sorted@.len() - k,
    {
        let t = owned(sorted[k].text.as_str());
        let ghost longer = texts(out@).push(t@);
        out.push(t);
        assert(texts(out@) == longer);
        assert(longer == ordered.take(k + 1));
        k += 1;
    }
    assert(ordered.take(ordered.len() as int) == ordered);
    out
}

} // verus!
