//! Trees given as a list of parent links.
use vstd::prelude::*;

pub mod laws;

verus! {

/// Whether `child` hangs below `parent`. One that names itself as its parent is nobody's child.
pub open spec fn is_child(parents: Seq<Option<usize>>, child: int, parent: int) -> bool {
    parents[child] is Some && parents[child]->0 == parent && child != parent
}

/// The children of `parent` among the first `upto` positions, in order.
pub open spec fn children_below(parents: Seq<Option<usize>>, parent: int, upto: nat) -> Seq<usize>
    decreases upto,
{
    if upto == 0 {
        Seq::empty()
    } else {
        let before = children_below(parents, parent, (upto - 1) as nat);
        if is_child(parents, upto - 1, parent) {
            before.push((upto - 1) as usize)
        } else {
            before
        }
    }
}

/// The children of `parent`, in order.
pub open spec fn children_of(parents: Seq<Option<usize>>, parent: int) -> Seq<usize> {
    children_below(parents, parent, parents.len())
}

/// Whether nothing hangs above a position: it names no parent, itself, or one that is not there.
pub open spec fn is_root(parents: Seq<Option<usize>>, pos: int) -> bool {
    parents[pos] is None || parents[pos]->0 >= parents.len() || parents[pos]->0 == pos
}

/// The roots among the first `upto` positions, in order.
pub open spec fn roots_below(parents: Seq<Option<usize>>, upto: nat) -> Seq<usize>
    decreases upto,
{
    if upto == 0 {
        Seq::empty()
    } else {
        let before = roots_below(parents, (upto - 1) as nat);
        if is_root(parents, upto - 1) {
            before.push((upto - 1) as usize)
        } else {
            before
        }
    }
}

/// The roots, in order.
pub open spec fn roots_of(parents: Seq<Option<usize>>) -> Seq<usize> {
    roots_below(parents, parents.len())
}

/// Whether every position comes behind its parent, as in the order of a breadth-first walk.
pub open spec fn parents_come_first(parents: Seq<Option<usize>>) -> bool {
    forall|i: int|
        0 <= i < parents.len() && (#[trigger] parents[i]) is Some && parents[i]->0 < parents.len()
            ==> parents[i]->0 <= i
}

/// Children are positions of the list, and behind their parent where parents come first.
pub proof fn lemma_children_in_range(parents: Seq<Option<usize>>, parent: int, upto: nat)
    requires
        upto <= parents.len() <= usize::MAX,
        0 <= parent < parents.len(),
    ensures
        forall|i: int|
            0 <= i < children_below(parents, parent, upto).len() ==> (#[trigger] children_below(
                parents,
                parent,
                upto,
            )[i]) < parents.len(),
        parents_come_first(parents) ==> forall|i: int|
            0 <= i < children_below(parents, parent, upto).len() ==> parent < (
            #[trigger] children_below(parents, parent, upto)[i]),
    decreases upto,
{
    if upto > 0 {
        lemma_children_in_range(parents, parent, (upto - 1) as nat);
        let before = children_below(parents, parent, (upto - 1) as nat);
        let now = children_below(parents, parent, upto);
        assert forall|i: int| 0 <= i < now.len() implies (#[trigger] now[i]) < parents.len() && (
        parents_come_first(parents) ==> parent < now[i]) by {
            if i < before.len() {
                assert(now[i] == before[i]);
            } else {
                assert(parents[upto - 1] is Some);
            }
        }
    }
}

/// Roots are positions of the list.
pub proof fn lemma_roots_in_range(parents: Seq<Option<usize>>, upto: nat)
    requires
        upto <= parents.len() <= usize::MAX,
    ensures
        forall|i: int|
            0 <= i < roots_below(parents, upto).len() ==> (#[trigger] roots_below(parents, upto)[i])
                < parents.len(),
    decreases upto,
{
    if upto > 0 {
        lemma_roots_in_range(parents, (upto - 1) as nat);
        let before = roots_below(parents, (upto - 1) as nat);
        let now = roots_below(parents, upto);
        assert forall|i: int| 0 <= i < now.len() implies #[trigger] now[i] < parents.len() by {
            if i < before.len() {
                assert(now[i] == before[i]);
            }
        }
    }
}

/// For each position the list of its children, and the roots.
pub fn child_lists(parents: &Vec<Option<usize>>) -> (r: (Vec<Vec<usize>>, Vec<usize>))
    ensures
        r.0@.len() == parents@.len(),
        forall|p: int|
            0 <= p < r.0@.len() ==> (#[trigger] r.0@[p])@ == children_of(parents@, p),
        r.1@ == roots_of(parents@),
{
    let n: usize = parents.len();
    let mut lists: Vec<Vec<usize>> = Vec::new();
    let mut roots: Vec<usize> = Vec::new();
    let mut k: usize = 0;
    while k < n
        invariant
            k <= n,
            lists@.len() == k,
            forall|p: int| 0 <= p < k ==> (#[trigger] lists@[p])@ == Seq::<usize>::empty(),
        decreases n - k,
    {
        lists.push(Vec::new());
        k += 1;
    }
    let mut i: usize = 0;
    while i < n
        invariant
            i <= n,
            n == parents@.len(),
            lists@.len() == n,
            roots@ == roots_below(parents@, i as nat),
            forall|p: int|
                0 <= p < n ==> (#[trigger] lists@[p])@ == children_below(parents@, p, i as nat),
        decreases n - i,
    {
        match parents[i] {
            Some(parent) => {
                if parent < n && parent != i {
                    lists[parent].push(i);
                } else {
                    roots.push(i);
                }
            },
            None => {
                roots.push(i);
            },
        }
        i += 1;
    }
    (lists, roots)
}

} // verus!
