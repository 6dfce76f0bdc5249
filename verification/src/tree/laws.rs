//! Who hangs below whom.
use vstd::prelude::*;
use crate::tree::{children_below, children_of, roots_below, roots_of};

verus! {

proof fn lemma_children(parents: Seq<Option<usize>>, parent: usize, upto: nat)
    requires
        upto <= parents.len() <= usize::MAX,
    ensures
        forall|i: int|
            0 <= i < upto ==> (children_below(parents, parent as int, upto).contains(i as usize)
                <==> #[trigger] parents[i] == Some(parent) && i != parent),
        forall|k: int|
            0 <= k < children_below(parents, parent as int, upto).len() ==> (
            #[trigger] children_below(parents, parent as int, upto)[k]) < upto,
        forall|k: int, l: int|
            0 <= k < l < children_below(parents, parent as int, upto).len() ==> (
            #[trigger] children_below(parents, parent as int, upto)[k]) < (
            #[trigger] children_below(parents, parent as int, upto)[l]),
    decreases upto,
{
    if upto > 0 {
        lemma_children(parents, parent, (upto - 1) as nat);
        let before = children_below(parents, parent as int, (upto - 1) as nat);
        let now = children_below(parents, parent as int, upto);
        let last = (upto - 1) as usize;
        if now.len() > before.len() {
            assert(now[before.len() as int] == last);
        }
        assert forall|i: int| 0 <= i < upto implies (now.contains(i as usize)
            <==> #[trigger] parents[i] == Some(parent) && i != parent) by {
            if i < upto - 1 {
                if before.contains(i as usize) {
                    let k = choose|k: int| 0 <= k < before.len() && before[k] == i as usize;
                    assert(now[k] == i as usize);
                }
                if now.contains(i as usize) {
                    let k = choose|k: int| 0 <= k < now.len() && now[k] == i as usize;
                    assert(k < before.len());
                    assert(before[k] == i as usize);
                }
            } else if now.contains(last) {
                let k = choose|k: int| 0 <= k < now.len() && now[k] == last;
                if k < before.len() {
                    assert(before[k] < upto - 1);
                }
            }
        }
        assert forall|k: int| 0 <= k < now.len() implies (#[trigger] now[k]) < upto by {
            if k < before.len() {
                assert(before[k] < upto - 1);
            }
        }
        assert forall|k: int, l: int| 0 <= k < l < now.len() implies (#[trigger] now[k]) < (
        #[trigger] now[l]) by {
            assert(before[k] < upto - 1);
            if l < before.len() {
                assert(before[k] < before[l]);
            }
        }
    }
}

/// The children of an element are exactly those that name it as their parent, itself apart, each
/// once and in document order.
pub proof fn law_children_are_those_that_name_the_parent(
    parents: Seq<Option<usize>>,
    parent: usize,
)
    requires
        parents.len() <= usize::MAX,
    ensures
        forall|i: int|
            0 <= i < parents.len() ==> (children_of(parents, parent as int).contains(i as usize)
                <==> #[trigger] parents[i] == Some(parent) && i != parent),
        forall|k: int, l: int|
            0 <= k < l < children_of(parents, parent as int).len() ==> (#[trigger] children_of(
                parents,
                parent as int,
            )[k]) < (#[trigger] children_of(parents, parent as int)[l]),
{
    lemma_children(parents, parent, parents.len());
}

proof fn lemma_roots(parents: Seq<Option<usize>>, upto: nat)
    requires
        upto <= parents.len() <= usize::MAX,
    ensures
        forall|i: int|
            0 <= i < upto ==> (roots_below(parents, upto).contains(i as usize) <==> {
                ||| #[trigger] parents[i] is None
                ||| parents[i]->0 >= parents.len()
                ||| parents[i]->0 == i
            }),
        forall|k: int|
            0 <= k < roots_below(parents, upto).len() ==> (#[trigger] roots_below(parents, upto)[k])
                < upto,
        forall|k: int, l: int|
            0 <= k < l < roots_below(parents, upto).len() ==> (#[trigger] roots_below(
                parents,
                upto,
            )[k]) < (#[trigger] roots_below(parents, upto)[l]),
    decreases upto,
{
    if upto > 0 {
        lemma_roots(parents, (upto - 1) as nat);
        let before = roots_below(parents, (upto - 1) as nat);
        let now = roots_below(parents, upto);
        let last = (upto - 1) as usize;
        if now.len() > before.len() {
            assert(now[before.len() as int] == last);
        }
        assert forall|i: int| 0 <= i < upto implies (now.contains(i as usize) <==> {
            ||| #[trigger] parents[i] is None
            ||| parents[i]->0 >= parents.len()
            ||| parents[i]->0 == i
        }) by {
            if i < upto - 1 {
                if before.contains(i as usize) {
                    let k = choose|k: int| 0 <= k < before.len() && before[k] == i as usize;
                    assert(now[k] == i as usize);
                }
                if now.contains(i as usize) {
                    let k = choose|k: int| 0 <= k < now.len() && now[k] == i as usize;
                    assert(k < before.len());
                    assert(before[k] == i as usize);
                }
            } else if now.contains(last) {
                let k = choose|k: int| 0 <= k < now.len() && now[k] == last;
                if k < before.len() {
                    assert(before[k] < upto - 1);
                }
            }
        }
        assert forall|k: int| 0 <= k < now.len() implies (#[trigger] now[k]) < upto by {
            if k < before.len() {
                assert(before[k] < upto - 1);
            }
        }
        assert forall|k: int, l: int| 0 <= k < l < now.len() implies (#[trigger] now[k]) < (
        #[trigger] now[l]) by {
            assert(before[k] < upto - 1);
            if l < before.len() {
                assert(before[k] < before[l]);
            }
        }
    }
}

/// The roots are exactly the elements without a parent in the list, each once and in document
/// order. One that names itself, or a parent that was cut off, is among them.
pub proof fn law_roots_are_those_without_a_parent(parents: Seq<Option<usize>>)
    requires
        parents.len() <= usize::MAX,
    ensures
        forall|i: int|
            0 <= i < parents.len() ==> (roots_of(parents).contains(i as usize) <==> {
                ||| #[trigger] parents[i] is None
                ||| parents[i]->0 >= parents.len()
                ||| parents[i]->0 == i
            }),
        forall|k: int, l: int|
            0 <= k < l < roots_of(parents).len() ==> (#[trigger] roots_of(parents)[k]) < (
            #[trigger] roots_of(parents)[l]),
{
    lemma_roots(parents, parents.len());
}

} // verus!
