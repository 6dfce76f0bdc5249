//! What changed between two rendered trees.
use vstd::prelude::*;
use crate::text::{
    chars_of, lemma_pieces_not_empty, pieces, same_chars, split, string_of, texts, CharKind,
};

pub mod laws;

verus! {

/// What changed between two rendered trees, line by line.
///
/// Indices move from walk to walk, so the outlines are compared as text: a change that cannot be
/// seen there is a change that cannot be acted on.
#[derive(Debug, Clone, PartialEq, Eq)]
pub struct TreeDiff {
    pub added: Vec<String>,
    pub removed: Vec<String>,
}

impl Default for TreeDiff {
    fn default() -> (r: Self)
        ensures
            r.added@.len() == 0,
            r.removed@.len() == 0,
    {
        TreeDiff { added: Vec::new(), removed: Vec::new() }
    }
}

impl TreeDiff {
    pub fn is_empty(&self) -> (r: bool)
        ensures
            r == (self.added@.len() == 0 && self.removed@.len() == 0),
    {
        self.added.len() == 0 && self.removed.len() == 0
    }
}

/// A line without the carriage return before its line feed.
pub open spec fn without_return(line: Seq<char>) -> Seq<char> {
    if line.len() > 0 && line.last() == '\r' {
        line.drop_last()
    } else {
        line
    }
}

/// The lines of a text. A line ends at a line feed, with a carriage return before it or without; the
/// end of the last line is optional.
pub open spec fn lines(s: Seq<char>) -> Seq<Seq<char>> {
    let all = pieces(s, CharKind::Just('\n'));
    let ended = all.drop_last().map_values(|l: Seq<char>| without_return(l));
    if all.last().len() == 0 {
        ended
    } else {
        ended.push(all.last())
    }
}

/// How often a line occurs.
pub open spec fn occurrences(list: Seq<Seq<char>>, line: Seq<char>) -> nat
    decreases list.len(),
{
    if list.len() == 0 {
        0
    } else {
        occurrences(list.drop_last(), line) + if list.last() == line {
            1nat
        } else {
            0
        }
    }
}

/// The lines of the first `upto` that occur more often than in `other`, each occurrence beyond
/// those counted.
pub open spec fn surplus_below(
    list: Seq<Seq<char>>,
    other: Seq<Seq<char>>,
    upto: nat,
) -> Seq<Seq<char>>
    decreases upto,
{
    if upto == 0 || upto > list.len() {
        Seq::empty()
    } else {
        let before = surplus_below(list, other, (upto - 1) as nat);
        let line = list[upto - 1];
        if occurrences(list.take(upto as int), line) > occurrences(other, line) {
            before.push(line)
        } else {
            before
        }
    }
}

/// The lines that occur more often in one list than in the other, in order.
pub open spec fn surplus(list: Seq<Seq<char>>, other: Seq<Seq<char>>) -> Seq<Seq<char>> {
    surplus_below(list, other, list.len())
}

/// The views of a list of character vectors.
spec fn lines_view(v: Seq<Vec<char>>) -> Seq<Seq<char>> {
    v.map_values(|l: Vec<char>| l@)
}

/// Computes [`lines`].
fn lines_of(s: &str) -> (r: Vec<Vec<char>>)
    ensures
        lines_view(r@) == lines(s@),
{
    let parts = split(s, CharKind::Just('\n'));
    let ghost all = pieces(s@, CharKind::Just('\n'));
    let ghost ended = all.drop_last().map_values(|l: Seq<char>| without_return(l));
    proof {
        lemma_pieces_not_empty(s@, CharKind::Just('\n'));
        assert(texts(parts@).len() == parts@.len());
    }
    let last: usize = parts.len() - 1;
    let mut out: Vec<Vec<char>> = Vec::new();
    let mut i: usize = 0;
    while i < last
        invariant
            i <= last,
            parts@.len() == last + 1,
            all == texts(parts@),
            ended == all.drop_last().map_values(|l: Seq<char>| without_return(l)),
            lines_view(out@) == ended.take(i as int),
        decreases last - i,
    {
        let mut line = chars_of(parts[i].as_str());
        assert(line@ == all[i as int]);
        if line.len() > 0 && line[line.len() - 1] == '\r' {
            line.pop();
        }
        assert(line@ == ended[i as int]);
        let ghost longer = lines_view(out@).push(line@);
        out.push(line);
        assert(lines_view(out@) == longer);
        assert(longer == ended.take(i + 1));
        i += 1;
    }
    assert(ended.take(last as int) == ended);
    let line = chars_of(parts[last].as_str());
    assert(line@ == all.last());
    if line.len() > 0 {
        let ghost longer = lines_view(out@).push(line@);
        out.push(line);
        assert(lines_view(out@) == longer);
    }
    out
}

/// Computes [`occurrences`] among the first `upto` lines.
fn count(list: &Vec<Vec<char>>, upto: usize, line: &Vec<char>) -> (r: usize)
    requires
        upto <= list@.len(),
    ensures
        r == occurrences(lines_view(list@).take(upto as int), line@),
{
    let ghost all = lines_view(list@);
    let mut n: usize = 0;
    let mut i: usize = 0;
    assert(all.take(0) == Seq::<Seq<char>>::empty());
    while i < upto
        invariant
            i <= upto <= list@.len(),
            n <= i,
            all == lines_view(list@),
            n == occurrences(all.take(i as int), line@),
        decreases upto - i,
    {
        assert(all.take(i + 1).drop_last() == all.take(i as int));
        assert(all.take(i + 1).last() == list@[i as int]@);
        if same_chars(&list[i], line) {
            n += 1;
        }
        i += 1;
    }
    n
}

/// Computes [`surplus`].
fn surplus_of(list: &Vec<Vec<char>>, other: &Vec<Vec<char>>) -> (r: Vec<String>)
    ensures
        texts(r@) == surplus(lines_view(list@), lines_view(other@)),
{
    let ghost all = lines_view(list@);
    let ghost rest = lines_view(other@);
    let mut out: Vec<String> = Vec::new();
    let mut i: usize = 0;
    while i < list.len()
        invariant
            i <= list@.len(),
            all == lines_view(list@),
            rest == lines_view(other@),
            texts(out@) == surplus_below(all, rest, i as nat),
        decreases list@.len() - i,
    {
        let line = &list[i];
        assert(all[i as int] == line@);
        assert(rest.take(rest.len() as int) == rest);
        if count(list, i + 1, line) > count(other, other.len(), line) {
            let text = string_of(line, 0, line.len());
            assert(text@ == line@);
            let ghost longer = texts(out@).push(text@);
            out.push(text);
            assert(texts(out@) == longer);
        }
        i += 1;
    }
    out
}

/// Compares two rendered trees, reporting only lines that appeared or vanished.
///
/// A line that occurs three times before and once after is reported as two removals rather than as
/// unchanged. The order within each list follows the tree it came from.
pub fn diff_trees(before: &str, after: &str) -> (r: TreeDiff)
    ensures
        texts(r.added@) == surplus(lines(after@), lines(before@)),
        texts(r.removed@) == surplus(lines(before@), lines(after@)),
{
    let old_lines = lines_of(before);
    let new_lines = lines_of(after);
    let added = surplus_of(&new_lines, &old_lines);
    let removed = surplus_of(&old_lines, &new_lines);
    TreeDiff { added, removed }
}

// -- laws --------------------------------------------------------------------------------------

proof fn lemma_occurrences_grow(list: Seq<Seq<char>>, line: Seq<char>, upto: nat)
    requires
        upto <= list.len(),
    ensures
        occurrences(list.take(upto as int), line) <= occurrences(list, line),
    decreases list.len(),
{
    if upto < list.len() {
        lemma_occurrences_grow(list.drop_last(), line, upto);
        assert(list.drop_last().take(upto as int) == list.take(upto as int));
    } else {
        assert(list.take(upto as int) == list);
    }
}

proof fn lemma_surplus_counts(
    list: Seq<Seq<char>>,
    other: Seq<Seq<char>>,
    line: Seq<char>,
    upto: nat,
)
    requires
        upto <= list.len(),
    ensures
        occurrences(surplus_below(list, other, upto), line) == if occurrences(
            list.take(upto as int),
            line,
        ) > occurrences(other, line) {
            (occurrences(list.take(upto as int), line) - occurrences(other, line)) as nat
        } else {
            0
        },
    decreases upto,
{
    if upto > 0 {
        lemma_surplus_counts(list, other, line, (upto - 1) as nat);
        let now = list.take(upto as int);
        assert(now.drop_last() == list.take(upto - 1));
        assert(now.last() == list[upto - 1]);
        let before = surplus_below(list, other, (upto - 1) as nat);
        assert(before.push(list[upto - 1]).drop_last() == before);
    } else {
        assert(list.take(0) == Seq::<Seq<char>>::empty());
    }
}

/// Lines are counted, not deduplicated: a line is reported as added as often as it occurs more
/// often afterwards, and as removed as often as it occurred more often before.
pub proof fn law_a_diff_counts_lines(before: Seq<char>, after: Seq<char>, line: Seq<char>)
    ensures
        occurrences(surplus(lines(after), lines(before)), line) - occurrences(
            surplus(lines(before), lines(after)),
            line,
        ) == occurrences(lines(after), line) - occurrences(lines(before), line),
        occurrences(surplus(lines(after), lines(before)), line) == 0 || occurrences(
            surplus(lines(before), lines(after)),
            line,
        ) == 0,
{
    let a = lines(after);
    let b = lines(before);
    lemma_surplus_counts(a, b, line, a.len());
    lemma_surplus_counts(b, a, line, b.len());
    assert(a.take(a.len() as int) == a);
    assert(b.take(b.len() as int) == b);
}

proof fn lemma_no_surplus_over_itself(list: Seq<Seq<char>>, upto: nat)
    requires
        upto <= list.len(),
    ensures
        surplus_below(list, list, upto) == Seq::<Seq<char>>::empty(),
    decreases upto,
{
    if upto > 0 {
        lemma_no_surplus_over_itself(list, (upto - 1) as nat);
        lemma_occurrences_grow(list, list[upto - 1], upto);
    }
}

/// Identical trees have no difference.
pub proof fn law_identical_trees_have_no_difference(tree: Seq<char>)
    ensures
        surplus(lines(tree), lines(tree)) == Seq::<Seq<char>>::empty(),
{
    lemma_no_surplus_over_itself(lines(tree), lines(tree).len());
}

} // verus!
