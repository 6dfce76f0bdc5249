//! Searching a snapshot, and naming its elements.
use vstd::prelude::*;
use crate::decimal::{decimal, numeral};
use crate::order::{law_ranked_sorts, ranked, sort, Ranked};
use crate::snapshot::AxNode;
use crate::text::{
    chars_of, contains, debug_quoted, has_part, lowercase, owned, quoted, same, string_of, text_of,
    texts,
};

pub mod laws;

verus! {

/// How many characters of a value a match shows.
pub const MATCH_VALUE_CHARS: usize = 80;

// -- naming ------------------------------------------------------------------------------------

/// A text cut behind `max` characters.
pub open spec fn first_chars(s: Seq<char>, max: nat) -> Seq<char> {
    if s.len() <= max {
        s
    } else {
        s.take(max as int)
    }
}

/// How a match begins: with the handle of the element, or with a note that it has none.
pub open spec fn match_handle(n: AxNode) -> Seq<char> {
    if n.actionable {
        "["@ + numeral(n.index as nat) + "] "@
    } else {
        "(not actionable) "@
    }
}

pub open spec fn match_label(n: AxNode) -> Seq<char> {
    match n.label {
        Some(l) => " "@ + debug_quoted(l@),
        None => Seq::empty(),
    }
}

/// The value of a match, unless it merely repeats the label.
pub open spec fn match_value(n: AxNode) -> Seq<char> {
    match n.value {
        Some(v) => if text_of(n.label) == Some(v@) {
            Seq::empty()
        } else {
            " = "@ + debug_quoted(first_chars(v@, MATCH_VALUE_CHARS as nat))
        },
        None => Seq::empty(),
    }
}

/// The line of a match.
pub open spec fn match_line(n: AxNode) -> Seq<char> {
    match_handle(n) + n.role@ + match_label(n) + match_value(n) + (if n.enabled {
        Seq::empty()
    } else {
        " (disabled)"@
    })
}

/// How an element is named in a result.
pub open spec fn node_name(n: AxNode) -> Seq<char> {
    match n.label {
        Some(l) => "["@ + numeral(n.index as nat) + "] "@ + n.role@ + " "@ + debug_quoted(l@),
        None => match n.value {
            Some(v) => "["@ + numeral(n.index as nat) + "] "@ + n.role@ + " = "@ + debug_quoted(v@),
            None => "["@ + numeral(n.index as nat) + "] "@ + n.role@,
        },
    }
}

/// Renders the line of a match.
pub fn render_match(node: &AxNode) -> (r: String)
    ensures
        r@ == match_line(*node),
{
    let mut out = String::new();
    if node.actionable {
        let mut handle = owned("[");
        handle.append(decimal(node.index as u64).as_str());
        handle.append("] ");
        out = handle;
    } else {
        out = owned("(not actionable) ");
    }
    out.append(node.role.as_str());
    let mut label = String::new();
    if let Some(l) = &node.label {
        label = owned(" ");
        label.append(quoted(l.as_str()).as_str());
    }
    out.append(label.as_str());
    let mut value = String::new();
    if let Some(v) = &node.value {
        let repeats = match &node.label {
            Some(l) => same(l.as_str(), v.as_str()),
            None => false,
        };
        if !repeats {
            let chars = chars_of(v.as_str());
            let to: usize = if chars.len() <= MATCH_VALUE_CHARS {
                chars.len()
            } else {
                MATCH_VALUE_CHARS
            };
            let short = string_of(&chars, 0, to);
            assert(short@ == first_chars(v@, MATCH_VALUE_CHARS as nat));
            value = owned(" = ");
            value.append(quoted(short.as_str()).as_str());
        }
    }
    out.append(value.as_str());
    let mut state = String::new();
    if !node.enabled {
        state = owned(" (disabled)");
    }
    out.append(state.as_str());
    out
}

/// Names an element.
pub fn describe_node(node: &AxNode) -> (r: String)
    ensures
        r@ == node_name(*node),
{
    let mut out = owned("[");
    out.append(decimal(node.index as u64).as_str());
    out.append("] ");
    out.append(node.role.as_str());
    match &node.label {
        Some(l) => {
            out.append(" ");
            out.append(quoted(l.as_str()).as_str());
        },
        None => {
            if let Some(v) = &node.value {
                out.append(" = ");
                out.append(quoted(v.as_str()).as_str());
            }
        },
    }
    out
}

// -- searching ---------------------------------------------------------------------------------

/// Whether an optional text holds the needle, without regard to case.
pub open spec fn mentions(text: Option<Seq<char>>, needle: Seq<char>) -> bool {
    text is Some && has_part(lowercase(text->0), needle)
}

/// How well an element matches: by its label, or else its value, or else its role; and any element
/// that takes an action before any that does not.
pub open spec fn match_rank(n: AxNode, needle: Seq<char>) -> Option<int> {
    let base: Option<int> = if mentions(text_of(n.label), needle) {
        Some(0)
    } else if mentions(text_of(n.value), needle) {
        Some(1)
    } else if has_part(lowercase(n.role@), needle) {
        Some(2)
    } else {
        None
    };
    match base {
        Some(b) => Some(
            if n.actionable {
                b
            } else {
                b + 3
            },
        ),
        None => None,
    }
}

/// A match: how good it is, the index it is listed by, and where it stands.
#[derive(Debug, Clone, Copy, PartialEq, Eq, Structural)]
pub struct Scored {
    pub rank: u8,
    pub index: usize,
    pub pos: usize,
}

impl Ranked for Scored {
    /// By rank, then in document order.
    open spec fn before(self, other: Scored) -> bool {
        self.rank < other.rank || (self.rank == other.rank && self.index < other.index)
    }

    fn is_before(&self, other: &Scored) -> (r: bool) {
        self.rank < other.rank || (self.rank == other.rank && self.index < other.index)
    }

    proof fn before_orders(a: Scored, b: Scored, c: Scored) {
    }
}

/// The matches among the first `upto` elements, in their order.
pub open spec fn scored_below(nodes: Seq<AxNode>, needle: Seq<char>, upto: nat) -> Seq<Scored>
    decreases upto,
{
    if upto == 0 {
        Seq::empty()
    } else {
        let earlier = scored_below(nodes, needle, (upto - 1) as nat);
        match match_rank(nodes[upto - 1], needle) {
            Some(rank) => earlier.push(
                Scored {
                    rank: rank as u8,
                    index: nodes[upto - 1].index,
                    pos: (upto - 1) as usize,
                },
            ),
            None => earlier,
        }
    }
}

/// How many matches are listed: as many as were asked for, but at least one.
pub open spec fn match_limit(found: nat, limit: nat) -> nat {
    let wanted = if limit == 0 {
        1
    } else {
        limit
    };
    if found < wanted {
        found
    } else {
        wanted
    }
}

/// The matches for a needle in lower case, best first.
pub open spec fn best_matches(nodes: Seq<AxNode>, needle: Seq<char>, limit: nat) -> Seq<Scored> {
    let all = ranked(scored_below(nodes, needle, nodes.len()));
    all.take(match_limit(all.len(), limit) as int)
}

/// The lines of the matches for a needle. The empty needle matches nothing.
pub open spec fn match_lines(nodes: Seq<AxNode>, needle: Seq<char>, limit: nat) -> Seq<Seq<char>> {
    if lowercase(needle).len() == 0 {
        Seq::empty()
    } else {
        best_matches(nodes, lowercase(needle), limit).map_values(
            |s: Scored| match_line(nodes[s.pos as int]),
        )
    }
}

proof fn lemma_scored_in_range(nodes: Seq<AxNode>, needle: Seq<char>, upto: nat)
    requires
        upto <= nodes.len() <= usize::MAX,
    ensures
        forall|i: int|
            0 <= i < scored_below(nodes, needle, upto).len() ==> (#[trigger] scored_below(
                nodes,
                needle,
                upto,
            )[i]).pos < nodes.len(),
    decreases upto,
{
    if upto > 0 {
        lemma_scored_in_range(nodes, needle, (upto - 1) as nat);
        let earlier = scored_below(nodes, needle, (upto - 1) as nat);
        let now = scored_below(nodes, needle, upto);
        assert forall|i: int| 0 <= i < now.len() implies (#[trigger] now[i]).pos < nodes.len() by {
            if i < earlier.len() {
                assert(now[i] == earlier[i]);
            }
        }
    }
}

/// Ranking moves items and adds none.
pub proof fn lemma_ranked_from(list: Seq<Scored>, k: int)
    requires
        0 <= k < ranked(list).len(),
    ensures
        list.contains(ranked(list)[k]),
{
    broadcast use vstd::seq_lib::group_to_multiset_ensures;

    law_ranked_sorts(list);
    let x = ranked(list)[k];
    assert(ranked(list).to_multiset().count(x) > 0);
    assert(list.to_multiset().count(x) > 0);
}

/// Searches a snapshot's elements without regard to case.
///
/// Label, value and role are searched in that order: `Send` should find the button labelled Send
/// before an element whose role says so. Matches that take an action come first, because a search
/// is almost always the prelude to one.
pub fn match_nodes(nodes: &[AxNode], needle: &str, limit: usize) -> (r: Vec<String>)
    ensures
        texts(r@) == match_lines(nodes@, needle@, limit as nat),
{
    let want = needle.to_lowercase();
    if want.as_str().is_empty() {
        let none: Vec<String> = Vec::new();
        assert(texts(none@) == Seq::<Seq<char>>::empty());
        return none;
    }
    let mut scored: Vec<Scored> = Vec::new();
    let mut i: usize = 0;
    while i < nodes.len()
        invariant
            i <= nodes@.len(),
            scored@ == scored_below(nodes@, want@, i as nat),
        decreases nodes@.len() - i,
    {
        let n = &nodes[i];
        let in_label = match &n.label {
            Some(l) => contains(l.as_str().to_lowercase().as_str(), want.as_str()),
            None => false,
        };
        let in_value = match &n.value {
            Some(v) => contains(v.as_str().to_lowercase().as_str(), want.as_str()),
            None => false,
        };
        let base: Option<u8> = if in_label {
            Some(0)
        } else if in_value {
            Some(1)
        } else if contains(n.role.as_str().to_lowercase().as_str(), want.as_str()) {
            Some(2)
        } else {
            None
        };
        if let Some(b) = base {
            let rank: u8 = if n.actionable {
                b
            } else {
                b + 3
            };
            scored.push(Scored { rank, index: n.index, pos: i });
        }
        i += 1;
    }
    let ghost listed = scored@;
    proof {
        lemma_scored_in_range(nodes@, want@, nodes@.len());
    }
    let all = sort(scored);
    let wanted: usize = if limit == 0 {
        1
    } else {
        limit
    };
    let count: usize = if all.len() < wanted {
        all.len()
    } else {
        wanted
    };
    let ghost lines = all@.take(count as int).map_values(
        |s: Scored| match_line(nodes@[s.pos as int]),
    );
    let mut out: Vec<String> = Vec::new();
    let mut k: usize = 0;
    while k < count
        invariant
            k <= count <= all@.len(),
            all@ == ranked(listed),
            lines == all@.take(count as int).map_values(
                |s: Scored| match_line(nodes@[s.pos as int]),
            ),
            forall|j: int|
                0 <= j < listed.len() ==> (#[trigger] listed[j]).pos < nodes@.len(),
            texts(out@) == lines.take(k as int),
        decreases count - k,
    {
        proof {
            lemma_ranked_from(listed, k as int);
            let j = choose|j: int| 0 <= j < listed.len() && listed[j] == all@[k as int];
            assert(listed[j].pos < nodes@.len());
        }
        let line = render_match(&nodes[all[k].pos]);
        assert(line@ == lines[k as int]);
        let ghost longer = texts(out@).push(line@);
        out.push(line);
        assert(texts(out@) == longer);
        assert(longer == lines.take(k + 1));
        k += 1;
    }
    assert(lines.take(count as int) == lines);
    out
}

// -- laws --------------------------------------------------------------------------------------

/// A search lists no more than was asked for, but never nothing where something matches.
pub proof fn law_a_search_respects_its_limit(nodes: Seq<AxNode>, needle: Seq<char>, limit: nat)
    ensures
        best_matches(nodes, needle, limit).len() == match_limit(
            scored_below(nodes, needle, nodes.len()).len(),
            limit,
        ),
{
    law_ranked_sorts(scored_below(nodes, needle, nodes.len()));
}

/// What takes an action is listed before what does not.
pub proof fn law_actionable_matches_come_first(
    nodes: Seq<AxNode>,
    needle: Seq<char>,
    limit: nat,
    a: int,
    b: int,
)
    requires
        nodes.len() <= usize::MAX,
        0 <= a < b < best_matches(nodes, needle, limit).len(),
        nodes[best_matches(nodes, needle, limit)[b].pos as int].actionable,
    ensures
        nodes[best_matches(nodes, needle, limit)[a].pos as int].actionable,
{
    let scored = scored_below(nodes, needle, nodes.len());
    let all = ranked(scored);
    law_ranked_sorts(scored);
    lemma_ranked_from(scored, a);
    lemma_ranked_from(scored, b);
    let i = choose|i: int| 0 <= i < scored.len() && scored[i] == all[a];
    let j = choose|j: int| 0 <= j < scored.len() && scored[j] == all[b];
    lemma_scored_rank(nodes, needle, nodes.len(), i);
    lemma_scored_rank(nodes, needle, nodes.len(), j);
    assert(!all[b].before(all[a]));
}

proof fn lemma_scored_rank(nodes: Seq<AxNode>, needle: Seq<char>, upto: nat, i: int)
    requires
        upto <= nodes.len() <= usize::MAX,
        0 <= i < scored_below(nodes, needle, upto).len(),
    ensures
        nodes[scored_below(nodes, needle, upto)[i].pos as int].actionable
            <==> scored_below(nodes, needle, upto)[i].rank < 3,
    decreases upto,
{
    if upto > 0 {
        let earlier = scored_below(nodes, needle, (upto - 1) as nat);
        if i < earlier.len() {
            lemma_scored_rank(nodes, needle, (upto - 1) as nat, i);
        }
    }
}

} // verus!
