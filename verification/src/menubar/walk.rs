//! Walking the menu bar, one level at a time.
use vstd::prelude::*;
use crate::menubar::{
    before_last, item_texts, join, joined_path, listed_row, menu_path_steps, parent_path,
    path_above, path_steps, rows_of, MenuListing, MenuWalkError, MenuWalkErrorText, RowFacts,
};
use crate::text::lemmas::{
    lemma_non_empty_concat, lemma_non_empty_kept, lemma_non_empty_one, lemma_one_piece,
    lemma_pieces_concat, lemma_pieces_have_no_separator, lemma_trim_ends, lemma_trimmed_each_concat,
    lemma_trimmed_ignores_space, lemma_trimmed_is_trim,
};
use crate::text::{
    lemma_pieces_not_empty, non_empty, owned, pieces, same, strip_end, texts, trimmed,
    trimmed_each, CharKind,
};

verus! {

/// A walk along a menu path, standing at one level of the menu bar.
#[derive(Debug, Clone)]
pub struct MenuWalk {
    pub steps: Vec<String>,
    /// How many steps have been taken.
    pub depth: usize,
    /// The path that was walked so far.
    pub walked: String,
}

/// What to do after a step.
#[derive(Debug, Clone, Copy, PartialEq, Eq, Structural)]
pub enum WalkMove {
    /// Go on at the row's submenu.
    Descend,
    /// The walk ended on a row with a submenu: list that.
    ListSubmenu,
    /// The walk ended on a row without one, whatever steps are left: list the level it is on.
    ListLevel,
}

/// The path of a row of steps.
pub open spec fn path_of(steps: Seq<Seq<char>>) -> Seq<char>
    decreases steps.len(),
{
    if steps.len() == 0 {
        Seq::empty()
    } else {
        joined_path(path_of(steps.drop_last()), steps.last())
    }
}

/// Whether a title is the first of a list to equal `step`.
pub open spec fn is_first_titled(titles: Seq<Seq<char>>, step: Seq<char>, i: int) -> bool {
    &&& 0 <= i < titles.len()
    &&& titles[i] == step
    &&& forall|j: int| 0 <= j < i ==> titles[j] != step
}

/// What to do after a step, given whether the row has a submenu and whether it was the last step.
pub open spec fn move_after(has_submenu: bool, last: bool) -> WalkMove {
    if !has_submenu {
        WalkMove::ListLevel
    } else if last {
        WalkMove::ListSubmenu
    } else {
        WalkMove::Descend
    }
}

impl MenuWalk {
    /// The walk stands where its first `depth` steps lead.
    pub open spec fn wf(self) -> bool {
        &&& self.depth <= self.steps@.len()
        &&& self.walked@ == path_of(texts(self.steps@).take(self.depth as int))
    }

    /// A walk along a path, standing at the menu bar itself.
    pub fn new(path: &str) -> (r: MenuWalk)
        ensures
            r.wf(),
            r.depth == 0,
            texts(r.steps@) == path_steps(path@),
    {
        let steps = menu_path_steps(path);
        assert(texts(steps@).take(0) == Seq::<Seq<char>>::empty());
        MenuWalk { steps, depth: 0, walked: String::new() }
    }

    /// Whether every step has been taken.
    pub fn is_done(&self) -> (r: bool)
        requires
            self.wf(),
        ensures
            r == (self.depth == self.steps@.len()),
    {
        self.depth == self.steps.len()
    }

    /// Finds the next step among the titles of the level.
    ///
    /// One read of the level serves both to find the step and to report what was there instead: two
    /// reads could disagree.
    pub fn find(&self, titles: &Vec<String>) -> (r: Result<usize, MenuWalkError>)
        requires
            self.wf(),
            self.depth < self.steps@.len(),
        ensures
            match r {
                Ok(i) => is_first_titled(
                    texts(titles@),
                    self.steps@[self.depth as int]@,
                    i as int,
                ),
                Err(e) => {
                    &&& !texts(titles@).contains(self.steps@[self.depth as int]@)
                    &&& e@ == (MenuWalkErrorText::NoSuchItem {
                        step: self.steps@[self.depth as int]@,
                        at: self.walked@,
                        available: texts(titles@),
                    })
                },
            },
    {
        let ghost all = texts(titles@);
        let step = &self.steps[self.depth];
        let mut i: usize = 0;
        while i < titles.len()
            invariant
                i <= titles@.len(),
                all == texts(titles@),
                self.depth < self.steps@.len(),
                *step == self.steps@[self.depth as int],
                forall|j: int| 0 <= j < i ==> all[j] != step@,
            decreases titles@.len() - i,
        {
            assert(all[i as int] == titles@[i as int]@);
            if same(titles[i].as_str(), step.as_str()) {
                return Ok(i);
            }
            i += 1;
        }
        let mut available: Vec<String> = Vec::new();
        let mut k: usize = 0;
        while k < titles.len()
            invariant
                k <= titles@.len(),
                all == texts(titles@),
                texts(available@) == all.take(k as int),
            decreases titles@.len() - k,
        {
            let title = owned(titles[k].as_str());
            let ghost longer = texts(available@).push(title@);
            available.push(title);
            assert(texts(available@) == longer);
            assert(longer == all.take(k + 1));
            k += 1;
        }
        assert(all.take(all.len() as int) == all);
        Err(
            MenuWalkError::NoSuchItem {
                step: owned(step.as_str()),
                at: owned(self.walked.as_str()),
                available,
            },
        )
    }

    /// Takes the step that [`MenuWalk::find`] found, given whether the row there has a submenu.
    pub fn enter(&mut self, has_submenu: bool) -> (r: WalkMove)
        requires
            old(self).wf(),
            old(self).depth < old(self).steps@.len(),
        ensures
            final(self).wf(),
            final(self).steps == old(self).steps,
            final(self).depth == old(self).depth + 1,
            final(self).walked@ == joined_path(
                old(self).walked@,
                old(self).steps@[old(self).depth as int]@,
            ),
            r == move_after(has_submenu, old(self).depth + 1 == old(self).steps@.len()),
    {
        let ghost all = texts(self.steps@);
        let count: usize = self.steps.len();
        let walked = join(self.walked.as_str(), self.steps[self.depth].as_str());
        assert(all.take(self.depth + 1).drop_last() == all.take(self.depth as int));
        assert(all.take(self.depth + 1).last() == self.steps@[self.depth as int]@);
        self.walked = walked;
        self.depth = self.depth + 1;
        if !has_submenu {
            WalkMove::ListLevel
        } else if self.depth == count {
            WalkMove::ListSubmenu
        } else {
            WalkMove::Descend
        }
    }

    /// What the walk comes to, given the rows to list: those of the level a leaf is on, or those
    /// below the last step.
    pub fn listing(&self, ended: WalkMove, rows: &Vec<RowFacts>) -> (r: MenuListing)
        requires
            self.wf(),
        ensures
            r.path@ == self.walked@,
            item_texts(r.items@) == rows@.map_values(
                |row: RowFacts|
                    listed_row(
                        row,
                        if ended == WalkMove::ListLevel {
                            path_above(self.walked@)
                        } else {
                            self.walked@
                        },
                    ),
            ),
    {
        let ghost level = if ended == WalkMove::ListLevel {
            path_above(self.walked@)
        } else {
            self.walked@
        };
        let items = if ended == WalkMove::ListLevel {
            rows_of(rows, parent_path(self.walked.as_str()).as_str())
        } else {
            rows_of(rows, self.walked.as_str())
        };
        assert(rows@.map_values(|row: RowFacts| listed_row(row, level)) =~= rows@.map_values(
            |row: RowFacts|
                listed_row(
                    row,
                    if ended == WalkMove::ListLevel {
                        path_above(self.walked@)
                    } else {
                        self.walked@
                    },
                ),
        ));
        MenuListing { path: owned(self.walked.as_str()), items }
    }
}

// -- laws --------------------------------------------------------------------------------------

/// Whether a text is a step that a path can name: not empty, without space around it, and without
/// the separator.
pub open spec fn is_step(s: Seq<char>) -> bool {
    &&& s.len() > 0
    &&& trimmed(s) == s
    &&& !s.contains('>')
}

proof fn lemma_push_space(path: Seq<char>)
    ensures
        non_empty(trimmed_each(pieces(path.push(' '), CharKind::Just('>')))) == path_steps(path),
{
    let k = CharKind::Just('>');
    lemma_pieces_not_empty(path, k);
    let before = pieces(path, k);
    let after = pieces(path.push(' '), k);
    assert(path.push(' ').drop_last() == path);
    assert(after == before.drop_last().push(before.last().push(' ')));
    let space = seq![' '];
    assert(before.last().push(' ') == Seq::<char>::empty() + before.last() + space);
    lemma_trimmed_ignores_space(Seq::empty(), before.last(), space);
    assert(trimmed_each(after) == trimmed_each(before));
}

/// A listed path is ready to be passed back in: a path with one more step has the steps of the path
/// and that step.
pub proof fn law_a_joined_path_has_one_more_step(path: Seq<char>, step: Seq<char>)
    requires
        is_step(step),
    ensures
        path_steps(joined_path(path, step)) == path_steps(path).push(step),
{
    let k = CharKind::Just('>');
    reveal_strlit(" > ");
    assert forall|i: int| 0 <= i < step.len() implies !k.has(#[trigger] step[i]) by {
        if step[i] == '>' {
            assert(step.contains('>'));
        }
    }
    if path.len() == 0 {
        lemma_one_piece(step, k);
        assert(trimmed_each(seq![step]) == seq![step]);
        assert(pieces(path, k) == seq![path]);
        assert(trimmed_each(seq![path]) == seq![path]);
        lemma_non_empty_one(path);
        lemma_non_empty_one(step);
        assert(path_steps(path).push(step) == seq![step]);
    } else {
        let space = seq![' '];
        let tail = space + step;
        assert(path + " > "@ + step == path.push(' ').push('>') + tail);
        lemma_pieces_concat(path.push(' '), '>', tail, k);
        assert forall|i: int| 0 <= i < tail.len() implies !k.has(#[trigger] tail[i]) by {
            if i > 0 {
                assert(tail[i] == step[i - 1]);
            }
        }
        lemma_one_piece(tail, k);
        let a = pieces(path.push(' '), k);
        lemma_trimmed_each_concat(a, seq![tail]);
        assert(tail == space + step + Seq::<char>::empty());
        lemma_trimmed_ignores_space(space, step, Seq::empty());
        assert(trimmed_each(seq![tail]) == seq![step]);
        lemma_non_empty_concat(trimmed_each(a), seq![step]);
        lemma_non_empty_one(step);
        lemma_push_space(path);
        assert(path_steps(path) + seq![step] == path_steps(path).push(step));
    }
}

/// The path of a row of steps names those steps.
pub proof fn law_the_path_of_steps_names_them(steps: Seq<Seq<char>>)
    requires
        forall|i: int| 0 <= i < steps.len() ==> is_step(#[trigger] steps[i]),
    ensures
        path_steps(path_of(steps)) == steps,
    decreases steps.len(),
{
    if steps.len() == 0 {
        let none = Seq::<char>::empty();
        assert(pieces(none, CharKind::Just('>')) == seq![none]);
        assert(trimmed_each(seq![none]) == seq![none]);
        lemma_non_empty_one(none);
        assert(path_steps(none) == steps);
    } else {
        law_the_path_of_steps_names_them(steps.drop_last());
        law_a_joined_path_has_one_more_step(path_of(steps.drop_last()), steps.last());
        assert(steps.drop_last().push(steps.last()) == steps);
    }
}

proof fn lemma_before_last_of(head: Seq<char>, tail: Seq<char>)
    requires
        !tail.contains('>'),
    ensures
        before_last(head.push('>') + tail, '>') == Some(head),
    decreases tail.len(),
{
    let whole = head.push('>') + tail;
    if tail.len() == 0 {
        assert(whole.drop_last() == head);
    } else {
        assert(whole.last() == tail.last());
        assert(whole.drop_last() == head.push('>') + tail.drop_last());
        assert(tail.contains(tail.last()));
        assert forall|c: char| tail.drop_last().contains(c) implies tail.contains(c) by {
            let i = choose|i: int| 0 <= i < tail.drop_last().len() && tail.drop_last()[i] == c;
            assert(tail[i] == c);
        }
        lemma_before_last_of(head, tail.drop_last());
    }
}

proof fn lemma_before_last_none(s: Seq<char>)
    requires
        !s.contains('>'),
    ensures
        before_last(s, '>') is None,
    decreases s.len(),
{
    if s.len() > 0 {
        assert(s.contains(s.last()));
        assert forall|c: char| s.drop_last().contains(c) implies s.contains(c) by {
            let i = choose|i: int| 0 <= i < s.drop_last().len() && s.drop_last()[i] == c;
            assert(s[i] == c);
        }
        lemma_before_last_none(s.drop_last());
    }
}

/// Dropping the last step undoes joining it, up to space at the end of the path.
pub proof fn law_the_parent_of_a_joined_path_is_the_path(path: Seq<char>, step: Seq<char>)
    requires
        !step.contains('>'),
    ensures
        path_above(joined_path(path, step)) == if path.len() == 0 {
            path
        } else {
            strip_end(path, CharKind::Space)
        },
{
    reveal_strlit(" > ");
    if path.len() == 0 {
        lemma_before_last_none(step);
        assert(path == Seq::<char>::empty());
    } else {
        let tail = seq![' '] + step;
        assert(path + " > "@ + step == path.push(' ').push('>') + tail);
        assert(!tail.contains('>')) by {
            if tail.contains('>') {
                let i = choose|i: int| 0 <= i < tail.len() && tail[i] == '>';
                assert(step[i - 1] == '>');
            }
        }
        lemma_before_last_of(path.push(' '), tail);
        assert(path.push(' ').drop_last() == path);
    }
}

/// Every step that a path names is one that a path can name.
pub proof fn law_path_steps_are_steps(path: Seq<char>, i: int)
    requires
        0 <= i < path_steps(path).len(),
    ensures
        is_step(path_steps(path)[i]),
{
    let parts = pieces(path, CharKind::Just('>'));
    let each = trimmed_each(parts);
    lemma_non_empty_kept(each, i);
    let step = path_steps(path)[i];
    let j = choose|j: int| 0 <= j < each.len() && each[j] == step;
    assert(step == trimmed(parts[j]));
    lemma_trimmed_is_trim(parts[j]);
    lemma_pieces_have_no_separator(path, '>', j);
}

proof fn lemma_path_end(steps: Seq<Seq<char>>)
    requires
        steps.len() > 0,
        forall|i: int| 0 <= i < steps.len() ==> is_step(#[trigger] steps[i]),
    ensures
        path_of(steps).len() > 0,
        strip_end(path_of(steps), CharKind::Space) == path_of(steps),
{
    let step = steps.last();
    lemma_trim_ends(step);
    assert(path_of(steps).last() == step.last());
}

/// A leaf is listed on the level it stands on: above the path of a row of steps is the path of all
/// but the last.
pub proof fn law_a_leaf_is_listed_on_its_level(steps: Seq<Seq<char>>)
    requires
        steps.len() > 0,
        forall|i: int| 0 <= i < steps.len() ==> is_step(#[trigger] steps[i]),
    ensures
        path_above(path_of(steps)) == path_of(steps.drop_last()),
{
    let above = steps.drop_last();
    law_the_parent_of_a_joined_path_is_the_path(path_of(above), steps.last());
    if above.len() > 0 {
        lemma_path_end(above);
    }
}

} // verus!
