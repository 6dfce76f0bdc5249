//! What the order of texts and of ranked lists is.
use vstd::prelude::*;
use crate::order::{
    alphabetical, in_rank_order, law_ranked_sorts, lemma_text_before_orders, ranked,
    text_before, with_item, with_text, Ranked,
};

verus! {

/// One text comes before another exactly where they agree up to some place, and at that place the
/// first has ended and the second has not, or has the smaller character.
pub proof fn law_texts_are_ordered_by_their_first_difference(a: Seq<char>, b: Seq<char>)
    ensures
        text_before(a, b) <==> exists|k: int|
            {
                &&& 0 <= k <= a.len()
                &&& k < b.len()
                &&& #[trigger] a.take(k) == b.take(k)
                &&& k == a.len() || a[k] < b[k]
            },
    decreases a.len(),
{
    if b.len() > 0 && a.len() > 0 && a[0] == b[0] {
        let x = a.drop_first();
        let y = b.drop_first();
        law_texts_are_ordered_by_their_first_difference(x, y);
        if text_before(a, b) {
            let k = choose|k: int|
                {
                    &&& 0 <= k <= x.len()
                    &&& k < y.len()
                    &&& #[trigger] x.take(k) == y.take(k)
                    &&& k == x.len() || x[k] < y[k]
                };
            assert(a.take(k + 1) =~= b.take(k + 1)) by {
                assert forall|i: int| 0 <= i < k + 1 implies a[i] == b[i] by {
                    if i > 0 {
                        assert(x.take(k)[i - 1] == y.take(k)[i - 1]);
                    }
                }
            }
        }
        if exists|k: int|
            {
                &&& 0 <= k <= a.len()
                &&& k < b.len()
                &&& #[trigger] a.take(k) == b.take(k)
                &&& k == a.len() || a[k] < b[k]
            } {
            let k = choose|k: int|
                {
                    &&& 0 <= k <= a.len()
                    &&& k < b.len()
                    &&& #[trigger] a.take(k) == b.take(k)
                    &&& k == a.len() || a[k] < b[k]
                };
            assert(k > 0);
            assert(x.take(k - 1) =~= y.take(k - 1)) by {
                assert forall|i: int| 0 <= i < k - 1 implies x[i] == y[i] by {
                    assert(a.take(k)[i + 1] == b.take(k)[i + 1]);
                }
            }
        }
    } else if b.len() > 0 {
        if a.len() == 0 || a[0] < b[0] {
            assert(a.take(0) =~= b.take(0));
        } else {
            assert forall|k: int| 0 <= k <= a.len() && k < b.len() && #[trigger] a.take(k)
                == b.take(k) implies k == 0 by {
                if k > 0 {
                    assert(a.take(k)[0] == b.take(k)[0]);
                }
            }
        }
    }
}

/// Of the items of a list, those that share a rank with a given one.
pub open spec fn of_rank<T: Ranked>(list: Seq<T>, x: T) -> Seq<T> {
    list.filter(|y: T| !x.before(y) && !y.before(x))
}

proof fn lemma_of_rank_with_item<T: Ranked>(list: Seq<T>, item: T, x: T)
    requires
        in_rank_order(list),
    ensures
        of_rank(with_item(list, item), x) == of_rank(list.push(item), x),
    decreases list.len(),
{
    reveal(Seq::filter);
    if list.len() > 0 && item.before(list.last()) {
        let shorter = list.drop_last();
        let last = list.last();
        let f = |y: T| !x.before(y) && !y.before(x);
        assert forall|i: int, j: int| 0 <= i < j < shorter.len() implies !(
        #[trigger] shorter[j]).before(#[trigger] shorter[i]) by {
            assert(shorter[i] == list[i] && shorter[j] == list[j]);
        }
        lemma_of_rank_with_item(shorter, item, x);
        let inner = with_item(shorter, item);
        assert(inner.push(last).drop_last() =~= inner);
        assert(shorter.push(item).drop_last() =~= shorter);
        assert(list.push(item).drop_last() =~= list);
        T::before_orders(item, last, x);
        T::before_orders(item, x, last);
        T::before_orders(x, last, item);
        assert(!(f(item) && f(last)));
        let kept = shorter.filter(f);
        assert(list.filter(f) == if f(last) {
            kept.push(last)
        } else {
            kept
        });
    }
}

/// Ranking is stable: items of one rank keep the order they had.
pub proof fn law_ranking_is_stable<T: Ranked>(list: Seq<T>, x: T)
    ensures
        of_rank(ranked(list), x) == of_rank(list, x),
    decreases list.len(),
{
    reveal(Seq::filter);
    if list.len() > 0 {
        let shorter = list.drop_last();
        law_ranking_is_stable(shorter, x);
        law_ranked_sorts(shorter);
        lemma_of_rank_with_item(ranked(shorter), list.last(), x);
        assert(ranked(shorter).push(list.last()).drop_last() =~= ranked(shorter));
        assert(shorter.push(list.last()) =~= list);
    }
}

proof fn lemma_with_text(list: Seq<Seq<char>>, text: Seq<char>)
    requires
        forall|i: int, j: int| 0 <= i < j < list.len() ==> !text_before(
            #[trigger] list[j],
            #[trigger] list[i],
        ),
    ensures
        forall|i: int, j: int|
            0 <= i < j < with_text(list, text).len() ==> !text_before(
                #[trigger] with_text(list, text)[j],
                #[trigger] with_text(list, text)[i],
            ),
        with_text(list, text).to_multiset() =~= list.to_multiset().insert(text),
        forall|x: Seq<char>|
            (forall|i: int| 0 <= i < list.len() ==> !text_before(x, #[trigger] list[i]))
                && !text_before(x, text) ==> (forall|i: int|
                0 <= i < with_text(list, text).len() ==> !text_before(
                    x,
                    #[trigger] with_text(list, text)[i],
                )),
    decreases list.len(),
{
    broadcast use vstd::seq_lib::group_to_multiset_ensures;

    let out = with_text(list, text);
    if list.len() == 0 || !text_before(text, list.last()) {
        assert forall|i: int, j: int| 0 <= i < j < out.len() implies !text_before(
            #[trigger] out[j],
            #[trigger] out[i],
        ) by {
            if j == list.len() && i < list.len() - 1 {
                lemma_text_before_orders(text, list[i], list.last());
                assert(!text_before(list[list.len() - 1], list[i]));
            }
        }
    } else {
        let shorter = list.drop_last();
        assert forall|i: int, j: int| 0 <= i < j < shorter.len() implies !text_before(
            #[trigger] shorter[j],
            #[trigger] shorter[i],
        ) by {
            assert(shorter[i] == list[i] && shorter[j] == list[j]);
        }
        lemma_with_text(shorter, text);
        let last = list.last();
        lemma_text_before_orders(text, last, text);
        assert forall|i: int| 0 <= i < shorter.len() implies !text_before(
            last,
            #[trigger] shorter[i],
        ) by {
            assert(shorter[i] == list[i]);
            assert(!text_before(list[list.len() - 1], list[i]));
        }
        assert(list.to_multiset() =~= shorter.to_multiset().insert(last)) by {
            assert(shorter.push(last) =~= list);
        }
    }
}

/// An alphabetical list holds the texts it was made from, each as often, and none of them stands
/// behind one that it comes before.
pub proof fn law_an_alphabetical_list_is_sorted(list: Seq<Seq<char>>)
    ensures
        forall|i: int, j: int|
            0 <= i < j < alphabetical(list).len() ==> !text_before(
                #[trigger] alphabetical(list)[j],
                #[trigger] alphabetical(list)[i],
            ),
        alphabetical(list).to_multiset() =~= list.to_multiset(),
    decreases list.len(),
{
    broadcast use vstd::seq_lib::group_to_multiset_ensures;

    if list.len() > 0 {
        law_an_alphabetical_list_is_sorted(list.drop_last());
        lemma_with_text(alphabetical(list.drop_last()), list.last());
        assert(list.drop_last().push(list.last()) =~= list);
    }
}

} // verus!
