//! What a comparison of two trees reports, in terms of the lines they are made of.
use vstd::prelude::*;
use crate::diff::{lines, occurrences, surplus, surplus_below, without_return};
use crate::text::{pieces, CharKind};
use crate::text::lemmas::{lemma_one_piece, lemma_pieces_concat};

verus! {

/// Texts one after the other, each ended by a line feed.
pub open spec fn ended(list: Seq<Seq<char>>) -> Seq<char>
    decreases list.len(),
{
    if list.len() == 0 {
        Seq::empty()
    } else {
        (ended(list.drop_last()) + list.last()).push('\n')
    }
}

/// Whether a text is the whole of one line: it holds no line feed and does not end in a carriage
/// return.
pub open spec fn is_one_line(line: Seq<char>) -> bool {
    &&& forall|i: int| 0 <= i < line.len() ==> #[trigger] line[i] != '\n'
    &&& line.len() > 0 ==> line.last() != '\r'
}

proof fn lemma_line_is_one_piece(line: Seq<char>)
    requires
        forall|i: int| 0 <= i < line.len() ==> #[trigger] line[i] != '\n',
    ensures
        pieces(line, CharKind::Just('\n')) == seq![line],
{
    let k = CharKind::Just('\n');
    assert forall|i: int| 0 <= i < line.len() implies !k.has(#[trigger] line[i]) by {}
    lemma_one_piece(line, k);
}

proof fn lemma_ended_pieces(list: Seq<Seq<char>>)
    requires
        forall|i: int| 0 <= i < list.len() ==> is_one_line(#[trigger] list[i]),
    ensures
        pieces(ended(list), CharKind::Just('\n')) == list.push(Seq::empty()),
    decreases list.len(),
{
    let k = CharKind::Just('\n');
    if list.len() == 0 {
        assert(ended(list) =~= Seq::<char>::empty());
        assert(list.push(Seq::empty()) =~= seq![Seq::<char>::empty()]);
    } else {
        let rest = list.drop_last();
        let line = list.last();
        assert forall|i: int| 0 <= i < rest.len() implies is_one_line(#[trigger] rest[i]) by {
            assert(rest[i] == list[i]);
        }
        lemma_ended_pieces(rest);
        assert(is_one_line(list[list.len() - 1]));
        lemma_line_is_one_piece(line);
        lemma_ended_then(rest, line);
        let whole = ended(rest) + line;
        assert(whole.push('\n').drop_last() =~= whole);
        assert(pieces(whole.push('\n'), k) =~= pieces(whole, k).push(Seq::empty()));
        assert(pieces(ended(list), k) =~= list.push(Seq::empty()));
    }
}

/// The pieces of ended lines and of what follows them.
proof fn lemma_ended_then(list: Seq<Seq<char>>, more: Seq<char>)
    requires
        forall|i: int| 0 <= i < list.len() ==> is_one_line(#[trigger] list[i]),
        pieces(ended(list), CharKind::Just('\n')) == list.push(Seq::empty()),
    ensures
        pieces(ended(list) + more, CharKind::Just('\n')) == list + pieces(
            more,
            CharKind::Just('\n'),
        ),
{
    let k = CharKind::Just('\n');
    if list.len() == 0 {
        assert(ended(list) + more =~= more);
        assert(list + pieces(more, k) =~= pieces(more, k));
    } else {
        let head = ended(list.drop_last()) + list.last();
        assert(ended(list) + more =~= head.push('\n') + more);
        lemma_pieces_concat(head, '\n', more, k);
        assert(ended(list) =~= head.push('\n') + Seq::<char>::empty());
        lemma_pieces_concat(head, '\n', Seq::empty(), k);
        assert(pieces(Seq::<char>::empty(), k) =~= seq![Seq::<char>::empty()]);
        assert((pieces(head, k) + seq![Seq::<char>::empty()]).drop_last() =~= pieces(head, k));
        assert(list.push(Seq::<char>::empty()).drop_last() =~= list);
        assert(pieces(head, k) == list);
    }
}

/// No line is lost, cut or changed: texts that are ended by line feeds come out again as they went
/// in, each of them, in order and in full. One behind them without an end is a line too.
pub proof fn law_lines_are_lossless(list: Seq<Seq<char>>, more: Seq<char>)
    requires
        forall|i: int| 0 <= i < list.len() ==> is_one_line(#[trigger] list[i]),
        forall|i: int| 0 <= i < more.len() ==> #[trigger] more[i] != '\n',
    ensures
        lines(ended(list)) == list,
        more.len() > 0 ==> lines(ended(list) + more) == list.push(more),
{
    let k = CharKind::Just('\n');
    lemma_ended_pieces(list);
    lemma_ended_then(list, more);
    lemma_line_is_one_piece(more);
    let all = list.push(Seq::<char>::empty());
    assert(all.drop_last() =~= list);
    assert forall|i: int| 0 <= i < list.len() implies without_return(#[trigger] list[i])
        == list[i] by {
        assert(is_one_line(list[i]));
    }
    assert(list.map_values(|l: Seq<char>| without_return(l)) =~= list);
    let open = list + seq![more];
    assert(open.drop_last() =~= list);
    assert(open =~= list.push(more));
}

/// A carriage return before a line feed belongs to the end of the line and not to the line; one
/// anywhere else stays.
pub proof fn law_a_carriage_return_ends_a_line_with_its_line_feed(line: Seq<char>)
    requires
        forall|i: int| 0 <= i < line.len() ==> #[trigger] line[i] != '\n',
    ensures
        lines(line.push('\r').push('\n')) == seq![line],
        line.len() > 0 ==> lines(line) == seq![line],
{
    let k = CharKind::Just('\n');
    let long = line.push('\r');
    assert forall|i: int| 0 <= i < long.len() implies #[trigger] long[i] != '\n' by {
        if i < line.len() {
            assert(long[i] == line[i]);
        }
    }
    lemma_line_is_one_piece(line);
    lemma_line_is_one_piece(long);
    assert(long.push('\n').drop_last() =~= long);
    assert(pieces(long.push('\n'), k) =~= seq![long, Seq::<char>::empty()]);
    let ended_part = seq![long, Seq::<char>::empty()].drop_last().map_values(
        |l: Seq<char>| without_return(l),
    );
    assert(long.drop_last() =~= line);
    assert(ended_part =~= seq![line]);
    assert(seq![line].drop_last().map_values(|l: Seq<char>| without_return(l)).push(line)
        =~= seq![line]);
}

/// Counting the occurrences of a line is counting it in the list as a multiset.
pub proof fn law_occurrences_count_whole_lines(list: Seq<Seq<char>>, line: Seq<char>)
    ensures
        occurrences(list, line) == list.to_multiset().count(line),
    decreases list.len(),
{
    broadcast use vstd::seq_lib::group_to_multiset_ensures;

    if list.len() > 0 {
        law_occurrences_count_whole_lines(list.drop_last(), line);
        assert(list.drop_last().push(list.last()) =~= list);
    } else {
        assert(list =~= Seq::<Seq<char>>::empty());
    }
}

proof fn lemma_surplus_of_longer(
    list: Seq<Seq<char>>,
    line: Seq<char>,
    other: Seq<Seq<char>>,
    upto: nat,
)
    requires
        upto <= list.len(),
    ensures
        surplus_below(list.push(line), other, upto) == surplus_below(list, other, upto),
    decreases upto,
{
    if upto > 0 {
        lemma_surplus_of_longer(list, line, other, (upto - 1) as nat);
        assert(list.push(line).take(upto as int) =~= list.take(upto as int));
    }
}

/// What is reported of a longer list is what was reported of the shorter one, and the further line
/// behind it exactly where the list now holds that line more often than the other list does.
pub proof fn law_each_line_is_reported_in_its_turn(
    list: Seq<Seq<char>>,
    line: Seq<char>,
    other: Seq<Seq<char>>,
)
    ensures
        surplus(Seq::empty(), other).len() == 0,
        surplus(list.push(line), other) == if list.push(line).to_multiset().count(line)
            > other.to_multiset().count(line) {
            surplus(list, other).push(line)
        } else {
            surplus(list, other)
        },
{
    let longer = list.push(line);
    lemma_surplus_of_longer(list, line, other, list.len());
    law_occurrences_count_whole_lines(longer, line);
    law_occurrences_count_whole_lines(other, line);
    assert(longer.take(longer.len() as int) =~= longer);
}

/// One line in place of another is reported as the new line added and the old one removed, however
/// long the two are and wherever they differ.
pub proof fn law_a_changed_line_is_one_removal_and_one_addition(
    before: Seq<char>,
    after: Seq<char>,
)
    requires
        is_one_line(before),
        is_one_line(after),
        before != after,
    ensures
        surplus(lines(after.push('\n')), lines(before.push('\n'))) == seq![after],
        surplus(lines(before.push('\n')), lines(after.push('\n'))) == seq![before],
{
    lemma_one_line(before);
    lemma_one_line(after);
    lemma_other_line_is_surplus(after, before);
    lemma_other_line_is_surplus(before, after);
}

proof fn lemma_one_line(line: Seq<char>)
    requires
        is_one_line(line),
    ensures
        lines(line.push('\n')) == seq![line],
{
    law_lines_are_lossless(seq![line], Seq::empty());
    assert(seq![line].drop_last() =~= Seq::<Seq<char>>::empty());
    assert(ended(Seq::<Seq<char>>::empty()) =~= Seq::<char>::empty());
    assert(ended(seq![line]) =~= line.push('\n'));
}

proof fn lemma_other_line_is_surplus(line: Seq<char>, other: Seq<char>)
    requires
        line != other,
    ensures
        surplus(seq![line], seq![other]) == seq![line],
{
    reveal_with_fuel(surplus_below, 2);
    reveal_with_fuel(occurrences, 2);
    assert(seq![line].take(1) =~= seq![line]);
    assert(seq![line].drop_last() =~= Seq::<Seq<char>>::empty());
    assert(seq![other].drop_last() =~= Seq::<Seq<char>>::empty());
    assert(surplus(seq![line], seq![other]) =~= seq![line]);
}

} // verus!
