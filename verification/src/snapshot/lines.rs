//! Line breaks: where an outline has them, and where it has none.
use vstd::prelude::*;
use crate::decimal::{digit, numeral, signed_numeral};
use crate::snapshot::{
    frame_text, handle_text, indent_text, is_shown, label_text, node_line, own_outline, state_text,
    state_words, subrole_text, summary_text, value_text, without_prefixes, AxNode, RenderOptions,
};
use crate::text::{has_prefix, joined};

verus! {

/// How many line breaks a text holds.
pub open spec fn line_breaks(s: Seq<char>) -> nat
    decreases s.len(),
{
    if s.len() == 0 {
        0
    } else {
        line_breaks(s.drop_last()) + if s.last() == '\n' {
            1nat
        } else {
            0
        }
    }
}

/// Whether the names that a toolkit gives an element hold no line break. What the element says may
/// hold as many as it likes.
pub open spec fn is_named_on_one_line(n: AxNode) -> bool {
    &&& line_breaks(n.role@) == 0
    &&& n.subrole is Some ==> line_breaks(n.subrole->0@) == 0
}

/// A text without a line break has none.
pub proof fn lemma_no_breaks(s: Seq<char>)
    requires
        forall|i: int| 0 <= i < s.len() ==> #[trigger] s[i] != '\n',
    ensures
        line_breaks(s) == 0,
    decreases s.len(),
{
    if s.len() > 0 {
        lemma_no_breaks(s.drop_last());
    }
}

/// The line breaks of two texts add up.
pub proof fn lemma_breaks_add(a: Seq<char>, b: Seq<char>)
    ensures
        line_breaks(a + b) == line_breaks(a) + line_breaks(b),
    decreases b.len(),
{
    if b.len() == 0 {
        assert(a + b == a);
    } else {
        lemma_breaks_add(a, b.drop_last());
        assert((a + b).drop_last() == a + b.drop_last());
        assert((a + b).last() == b.last());
    }
}

proof fn lemma_numeral_has_no_break(n: nat)
    ensures
        line_breaks(numeral(n)) == 0,
    decreases n,
{
    if n < 10 {
        assert(digit(n as int) != '\n');
        lemma_no_breaks(numeral(n));
    } else {
        lemma_numeral_has_no_break(n / 10);
        let last = digit((n % 10) as int);
        assert(last != '\n');
        assert(numeral(n).drop_last() == numeral(n / 10));
    }
}

proof fn lemma_signed_has_no_break(i: int)
    ensures
        line_breaks(signed_numeral(i)) == 0,
{
    if i < 0 {
        lemma_numeral_has_no_break((-i) as nat);
        lemma_no_breaks(seq!['-']);
        lemma_breaks_add(seq!['-'], numeral((-i) as nat));
    } else {
        lemma_numeral_has_no_break(i as nat);
    }
}

proof fn lemma_suffix_has_no_break(s: Seq<char>, prefix: Seq<char>)
    requires
        line_breaks(s) == 0,
    ensures
        line_breaks(without_prefixes(s, prefix)) == 0,
    decreases s.len(),
{
    if prefix.len() > 0 && has_prefix(s, prefix) {
        let n = prefix.len() as int;
        assert(s == s.take(n) + s.skip(n));
        lemma_breaks_add(s.take(n), s.skip(n));
        lemma_suffix_has_no_break(s.skip(n), prefix);
    }
}

proof fn lemma_joined_has_no_break(list: Seq<Seq<char>>, sep: Seq<char>)
    requires
        line_breaks(sep) == 0,
        forall|i: int| 0 <= i < list.len() ==> line_breaks(#[trigger] list[i]) == 0,
    ensures
        line_breaks(joined(list, sep)) == 0,
    decreases list.len(),
{
    if list.len() > 1 {
        lemma_joined_has_no_break(list.drop_last(), sep);
        lemma_breaks_add(joined(list.drop_last(), sep), sep);
        lemma_breaks_add(joined(list.drop_last(), sep) + sep, list.last());
    }
}

proof fn lemma_state_has_no_break(n: AxNode)
    ensures
        line_breaks(state_text(n)) == 0,
{
    reveal_strlit("disabled");
    reveal_strlit("editable");
    reveal_strlit("focused");
    reveal_strlit("selected");
    reveal_strlit(", ");
    reveal_strlit(" (");
    reveal_strlit(")");
    lemma_no_breaks("disabled"@);
    lemma_no_breaks("editable"@);
    lemma_no_breaks("focused"@);
    lemma_no_breaks("selected"@);
    lemma_no_breaks(", "@);
    lemma_no_breaks(" ("@);
    lemma_no_breaks(")"@);
    let all = state_words(n);
    assert forall|i: int| 0 <= i < all.len() implies line_breaks(#[trigger] all[i]) == 0 by {
        assert(all[i] == "disabled"@ || all[i] == "editable"@ || all[i] == "focused"@ || all[i]
            == "selected"@);
    }
    lemma_joined_has_no_break(all, ", "@);
    lemma_breaks_add(" ("@, joined(all, ", "@));
    lemma_breaks_add(" ("@ + joined(all, ", "@), ")"@);
}

proof fn lemma_frame_has_no_break(n: AxNode, opts: RenderOptions)
    ensures
        line_breaks(frame_text(n, opts)) == 0,
{
    if n.frame is Some && opts.include_frames {
        let f = n.frame->0;
        reveal_strlit(" @");
        reveal_strlit(",");
        reveal_strlit(" ");
        reveal_strlit("x");
        lemma_no_breaks(" @"@);
        lemma_no_breaks(","@);
        lemma_no_breaks(" "@);
        lemma_no_breaks("x"@);
        lemma_signed_has_no_break(f.x as int);
        lemma_signed_has_no_break(f.y as int);
        lemma_signed_has_no_break(f.width as int);
        lemma_signed_has_no_break(f.height as int);
        let a = " @"@ + signed_numeral(f.x as int);
        let b = a + ","@;
        let c = b + signed_numeral(f.y as int);
        let d = c + " "@;
        let e = d + signed_numeral(f.width as int);
        lemma_breaks_add(" @"@, signed_numeral(f.x as int));
        lemma_breaks_add(a, ","@);
        lemma_breaks_add(b, signed_numeral(f.y as int));
        lemma_breaks_add(c, " "@);
        lemma_breaks_add(d, signed_numeral(f.width as int));
        lemma_breaks_add(e, "x"@);
        lemma_breaks_add(e + "x"@, signed_numeral(f.height as int));
    }
}

/// A line holds no line break where the names of the element and its quoted texts hold none.
pub proof fn lemma_line_has_no_break(n: AxNode, opts: RenderOptions)
    requires
        is_named_on_one_line(n),
        line_breaks(label_text(n)) == 0,
        line_breaks(value_text(n)) == 0,
    ensures
        line_breaks(node_line(n, opts)) == 0,
{
    reveal_strlit("[");
    reveal_strlit("] ");
    reveal_strlit(":");
    lemma_no_breaks("["@);
    lemma_no_breaks("] "@);
    lemma_no_breaks(":"@);
    lemma_numeral_has_no_break(n.index as nat);
    lemma_breaks_add("["@, numeral(n.index as nat));
    lemma_breaks_add("["@ + numeral(n.index as nat), "] "@);
    assert(line_breaks(handle_text(n)) == 0);
    if n.subrole is Some {
        lemma_suffix_has_no_break(n.subrole->0@, "AX"@);
        lemma_breaks_add(":"@, without_prefixes(n.subrole->0@, "AX"@));
    }
    assert(line_breaks(subrole_text(n)) == 0);
    lemma_state_has_no_break(n);
    lemma_frame_has_no_break(n, opts);
    let a = handle_text(n) + n.role@;
    let b = a + subrole_text(n);
    let c = b + label_text(n);
    let d = c + value_text(n);
    let e = d + state_text(n);
    lemma_breaks_add(handle_text(n), n.role@);
    lemma_breaks_add(a, subrole_text(n));
    lemma_breaks_add(b, label_text(n));
    lemma_breaks_add(c, value_text(n));
    lemma_breaks_add(d, state_text(n));
    lemma_breaks_add(e, frame_text(n, opts));
}

proof fn lemma_indent_has_no_break(levels: nat)
    ensures
        line_breaks(indent_text(levels)) == 0,
    decreases levels,
{
    reveal_strlit("  ");
    lemma_no_breaks("  "@);
    if levels > 0 {
        lemma_indent_has_no_break((levels - 1) as nat);
        lemma_breaks_add(indent_text((levels - 1) as nat), "  "@);
    }
}

proof fn lemma_summary_has_no_break(count: nat, index: nat)
    ensures
        line_breaks(summary_text(count, index)) == 0,
{
    reveal_strlit("  (+");
    reveal_strlit(" elements — pass scope_element_id=");
    reveal_strlit(" to expand)");
    lemma_no_breaks("  (+"@);
    lemma_no_breaks(" elements — pass scope_element_id="@);
    lemma_no_breaks(" to expand)"@);
    lemma_numeral_has_no_break(count);
    lemma_numeral_has_no_break(index);
    let a = "  (+"@ + numeral(count);
    let b = a + " elements — pass scope_element_id="@;
    let c = b + numeral(index);
    lemma_breaks_add("  (+"@, numeral(count));
    lemma_breaks_add(a, " elements — pass scope_element_id="@);
    lemma_breaks_add(b, numeral(index));
    lemma_breaks_add(c, " to expand)"@);
}

/// What an element adds to the outline holds one line break where the element has a line, and none
/// where it has not.
pub proof fn lemma_own_breaks(nodes: Seq<AxNode>, opts: RenderOptions, pos: int, indent: nat)
    requires
        is_shown(nodes[pos], opts) ==> line_breaks(node_line(nodes[pos], opts)) == 0,
    ensures
        line_breaks(own_outline(nodes, opts, pos, indent).text) == own_outline(
            nodes,
            opts,
            pos,
            indent,
        ).shown,
{
    let own = own_outline(nodes, opts, pos, indent);
    if is_shown(nodes[pos], opts) {
        let n = nodes[pos];
        let line = indent_text(indent) + node_line(n, opts);
        lemma_indent_has_no_break(indent);
        lemma_breaks_add(indent_text(indent), node_line(n, opts));
        lemma_summary_has_no_break(own.collapsed, n.index as nat);
        lemma_breaks_add(line, summary_text(own.collapsed, n.index as nat));
        assert(line.push('\n').drop_last() == line);
        let long = line + summary_text(own.collapsed, n.index as nat);
        assert(long.push('\n').drop_last() == long);
    }
}

} // verus!
