//! Text as sequences of characters.
//!
//! Every rule of this crate that reads a label, a key name or an identifier is stated over
//! `Seq<char>`. This module holds the vocabulary of those statements (trimming, splitting, joining,
//! searching, folding case) next to the functions that compute it.
use vstd::prelude::*;
use vstd::utf8::is_ascii_chars;

pub mod laws;
pub mod lemmas;
pub mod lower;

verus! {

// -- what is taken from the standard library ---------------------------------------------------

/// `String::push` appends one character and leaves the rest alone.
pub assume_specification[ String::push ](s: &mut String, c: char)
    ensures
        final(s)@ == old(s)@.push(c),
;

/// The characters with the Unicode property `White_Space`.
pub open spec fn is_white_space(c: char) -> bool {
    let n = c as u32;
    ||| 0x9 <= n <= 0xd
    ||| n == 0x20
    ||| n == 0x85
    ||| n == 0xa0
    ||| n == 0x1680
    ||| 0x2000 <= n <= 0x200a
    ||| n == 0x2028
    ||| n == 0x2029
    ||| n == 0x202f
    ||| n == 0x205f
    ||| n == 0x3000
}

/// `char::is_whitespace` answers whether the character has the property `White_Space`.
pub assume_specification[ char::is_whitespace ](c: char) -> (b: bool)
    ensures
        b == is_white_space(c),
;

/// The ASCII letters and digits.
pub open spec fn is_ascii_alphanumeric(c: char) -> bool {
    ||| 'a' <= c <= 'z'
    ||| 'A' <= c <= 'Z'
    ||| '0' <= c <= '9'
}

/// Whether a character outside ASCII is alphabetic or numeric in the sense of Unicode.
pub uninterp spec fn is_wide_alphanumeric(c: char) -> bool;

/// Whether a character is alphabetic or numeric in the sense of Unicode.
pub open spec fn is_letter_or_digit(c: char) -> bool {
    if (c as u32) < 128 {
        is_ascii_alphanumeric(c)
    } else {
        is_wide_alphanumeric(c)
    }
}

/// `char::is_alphanumeric` answers whether the character is alphabetic or numeric. Within ASCII
/// those are the letters and the digits; beyond it the answer is a fixed table, which is only
/// named here.
pub assume_specification[ char::is_alphanumeric ](c: char) -> (b: bool)
    ensures
        b == if (c as u32) < 128 {
            is_ascii_alphanumeric(c)
        } else {
            is_wide_alphanumeric(c)
        },
;

/// The characters of the general category for control codes.
pub open spec fn is_control_code(c: char) -> bool {
    (c as u32) < 0x20 || 0x7f <= (c as u32) < 0xa0
}

/// `char::is_control` answers whether the character has the general category for control codes.
pub assume_specification[ char::is_control ](c: char) -> (b: bool)
    ensures
        b == is_control_code(c),
;

/// An ASCII capital becomes its small letter; every other character stays.
pub open spec fn ascii_lower_char(c: char) -> char {
    if 'A' <= c <= 'Z' {
        ((c as u8) + 32) as u8 as char
    } else {
        c
    }
}

/// A text with its ASCII capitals replaced by small letters.
pub open spec fn ascii_lower(s: Seq<char>) -> Seq<char> {
    s.map_values(|c: char| ascii_lower_char(c))
}

/// What lower case makes of the character at position `i` of a word, where it is not ASCII.
pub uninterp spec fn wide_lower_at(word: Seq<char>, i: int) -> Seq<char>;

/// What lower case makes of the character at position `i` of a word. An ASCII capital becomes its
/// small letter. A capital sigma becomes one of the two small ones, by where in the word it stands.
/// Any other character becomes what it becomes on its own.
pub open spec fn lower_at(word: Seq<char>, i: int) -> Seq<char> {
    let c = word[i];
    if (c as u32) < 128 {
        seq![ascii_lower_char(c)]
    } else if c == 'Σ' {
        if wide_lower_at(word, i) == seq!['ς'] {
            seq!['ς']
        } else {
            seq!['σ']
        }
    } else {
        wide_lower_at(seq![c], 0)
    }
}

/// What lower case makes of the first `upto` characters of a word, one after the other.
pub open spec fn lower_below(word: Seq<char>, upto: nat) -> Seq<char>
    decreases upto,
{
    if upto == 0 {
        Seq::empty()
    } else {
        lower_below(word, (upto - 1) as nat) + lower_at(word, upto - 1)
    }
}

/// Every word of a list in lower case.
pub open spec fn lower_words(list: Seq<Seq<char>>) -> Seq<Seq<char>> {
    list.map_values(|w: Seq<char>| lower_below(w, w.len()))
}

/// The Unicode lower case of a text: word by word, and in a word character by character.
pub open spec fn lowercase(s: Seq<char>) -> Seq<char> {
    if is_ascii_chars(s) {
        ascii_lower(s)
    } else {
        joined(lower_words(pieces(s, CharKind::Just(' '))), " "@)
    }
}

/// `str::to_lowercase` gives the Unicode lower case of the text. On an ASCII text that is the text
/// with its capitals replaced. On any other it goes from character to character. A capital sigma
/// becomes the small sigma or, at the end of a word, the final one; where a word ends in that sense
/// is only named here, and does not depend on what stands beyond a space. What any other character
/// beyond ASCII becomes does not depend on its neighbours, and is only named here too.
pub assume_specification[ str::to_lowercase ](s: &str) -> (r: String)
    ensures
        r@ == lowercase(s@),
        s@.len() == 1 && s@[0] as u32 >= 128 && s@[0] != 'Σ' ==> r@ == wide_lower_at(s@, 0),
;

/// Whether a text prints as itself in a string literal: printable ASCII without the double quote and
/// without the backslash.
pub open spec fn is_plain_text(s: Seq<char>) -> bool {
    forall|i: int|
        0 <= i < s.len() ==> {
            &&& ' ' <= #[trigger] s[i] <= '~'
            &&& s[i] != '"'
            &&& s[i] != '\\'
        }
}

/// Whether a text holds nothing but characters that print as themselves and those that a string
/// literal writes with a backslash and one letter: line break, carriage return, tab, double quote
/// and the backslash itself.
pub open spec fn is_escapable_text(s: Seq<char>) -> bool {
    forall|i: int|
        0 <= i < s.len() ==> {
            ||| ' ' <= #[trigger] s[i] <= '~'
            ||| s[i] == '\n'
            ||| s[i] == '\r'
            ||| s[i] == '\t'
        }
}

/// One character of an escapable text, as a string literal writes it.
pub open spec fn escape_of(c: char) -> Seq<char> {
    if c == '\n' {
        seq!['\\', 'n']
    } else if c == '\r' {
        seq!['\\', 'r']
    } else if c == '\t' {
        seq!['\\', 't']
    } else if c == '"' || c == '\\' {
        seq!['\\', c]
    } else {
        seq![c]
    }
}

/// An escapable text, as a string literal writes it.
pub open spec fn escaped(s: Seq<char>) -> Seq<char>
    decreases s.len(),
{
    if s.len() == 0 {
        s
    } else {
        escaped(s.drop_last()) + escape_of(s.last())
    }
}

/// What `{:?}` makes of a text with other characters in it: in double quotes, with the characters
/// escaped that Rust escapes in a string literal.
pub uninterp spec fn escaped_quoted(s: Seq<char>) -> Seq<char>;

/// A text the way `{:?}` prints it. A plain text is put in double quotes.
pub open spec fn debug_quoted(s: Seq<char>) -> Seq<char> {
    if is_plain_text(s) {
        seq!['"'] + s + seq!['"']
    } else if is_escapable_text(s) {
        seq!['"'] + escaped(s) + seq!['"']
    } else {
        escaped_quoted(s)
    }
}

/// The `Debug` format of `str`, which depends on the text alone: the text in double quotes, as a
/// string literal writes it. Printable ASCII other than the double quote and the backslash is kept
/// as it is, the single quote too; line breaks, carriage returns, tabs, double quotes and
/// backslashes are escaped; what is escaped in any other text is only named here. Whatever the text, no line break is left.
#[verifier::external_body]
pub(crate) fn quoted(s: &str) -> (r: String)
    ensures
        r@ == if is_plain_text(s@) {
            seq!['"'] + s@ + seq!['"']
        } else if is_escapable_text(s@) {
            seq!['"'] + escaped(s@) + seq!['"']
        } else {
            escaped_quoted(s@)
        },
        !r@.contains('\n'),
{
    format!("{:?}", s)
}

// -- characters and strings --------------------------------------------------------------------

/// The characters of a text.
pub fn chars_of(s: &str) -> (r: Vec<char>)
    ensures
        r@ == s@,
{
    let mut out: Vec<char> = Vec::new();
    for c in it: s.chars()
        invariant
            out@ == s@.take(it.index()),
            it.seq() == s@,
    {
        out.push(c);
    }
    assert(s@.take(s@.len() as int) == s@);
    out
}

/// The text made of `v[from]` to `v[to - 1]`.
pub fn string_of(v: &Vec<char>, from: usize, to: usize) -> (r: String)
    requires
        from <= to <= v@.len(),
    ensures
        r@ == v@.subrange(from as int, to as int),
{
    let mut out = String::new();
    let mut i: usize = from;
    while i < to
        invariant
            from <= i <= to <= v@.len(),
            out@ == v@.subrange(from as int, i as int),
        decreases to - i,
    {
        out.push(v[i]);
        i += 1;
    }
    out
}

/// The views of a list of strings.
pub open spec fn texts(v: Seq<String>) -> Seq<Seq<char>> {
    v.map_values(|s: String| s@)
}

/// The view of an optional string.
pub open spec fn text_of(s: Option<String>) -> Option<Seq<char>> {
    match s {
        Some(t) => Some(t@),
        None => None,
    }
}

/// The view of an optional string slice.
pub open spec fn slice_of(s: Option<&str>) -> Option<Seq<char>> {
    match s {
        Some(t) => Some(t@),
        None => None,
    }
}

/// An outcome whose failure is a text, with the text in place of the string.
pub open spec fn told<T>(r: Result<T, String>) -> Result<T, Seq<char>> {
    match r {
        Ok(v) => Ok(v),
        Err(e) => Err(e@),
    }
}

/// An owned copy of a text.
pub fn owned(s: &str) -> (r: String)
    ensures
        r@ == s@,
{
    s.to_owned()
}

/// A copy of an optional text.
pub fn copied_text(s: &Option<String>) -> (r: Option<String>)
    ensures
        text_of(r) == text_of(*s),
{
    match s {
        Some(t) => Some(owned(t.as_str())),
        None => None,
    }
}

/// Whether two texts are the same.
pub fn same(a: &str, b: &str) -> (r: bool)
    ensures
        r == (a@ == b@),
{
    let x = chars_of(a);
    let y = chars_of(b);
    same_chars(&x, &y)
}

/// Whether two character vectors are the same.
pub fn same_chars(x: &Vec<char>, y: &Vec<char>) -> (r: bool)
    ensures
        r == (x@ == y@),
{
    if x.len() != y.len() {
        return false;
    }
    let mut i: usize = 0;
    while i < x.len()
        invariant
            i <= x@.len(),
            x@.len() == y@.len(),
            forall|j: int| 0 <= j < i ==> x@[j] == y@[j],
        decreases x@.len() - i,
    {
        if x[i] != y[i] {
            return false;
        }
        i += 1;
    }
    assert(x@ =~= y@);
    true
}

// -- kinds of characters -----------------------------------------------------------------------

/// A kind of character, as trimming and splitting look for it.
#[derive(Clone, Copy)]
pub enum CharKind {
    /// One particular character.
    Just(char),
    /// White space.
    Space,
    /// Anything that is neither a letter nor a digit.
    Mark,
}

impl CharKind {
    /// Whether the character is of this kind.
    pub open spec fn has(self, c: char) -> bool {
        match self {
            CharKind::Just(k) => c == k,
            CharKind::Space => is_white_space(c),
            CharKind::Mark => !is_letter_or_digit(c),
        }
    }

    /// Computes [`CharKind::has`].
    pub fn holds(&self, c: char) -> (b: bool)
        ensures
            b == self.has(c),
    {
        match self {
            CharKind::Just(k) => c == *k,
            CharKind::Space => c.is_whitespace(),
            CharKind::Mark => !c.is_alphanumeric(),
        }
    }
}

// -- trimming ----------------------------------------------------------------------------------

/// A text without its leading characters of a kind.
pub open spec fn strip_start(s: Seq<char>, k: CharKind) -> Seq<char>
    decreases s.len(),
{
    if s.len() > 0 && k.has(s[0]) {
        strip_start(s.drop_first(), k)
    } else {
        s
    }
}

/// A text without its trailing characters of a kind.
pub open spec fn strip_end(s: Seq<char>, k: CharKind) -> Seq<char>
    decreases s.len(),
{
    if s.len() > 0 && k.has(s.last()) {
        strip_end(s.drop_last(), k)
    } else {
        s
    }
}

/// A text without the characters of a kind at either end.
pub open spec fn stripped(s: Seq<char>, k: CharKind) -> Seq<char> {
    strip_end(strip_start(s, k), k)
}

/// A text without the white space at either end.
pub open spec fn trimmed(s: Seq<char>) -> Seq<char> {
    stripped(s, CharKind::Space)
}

/// Computes [`strip_end`].
pub fn strip_end_of(s: &str, k: CharKind) -> (r: String)
    ensures
        r@ == strip_end(s@, k),
{
    let v = chars_of(s);
    let mut to: usize = v.len();
    assert(v@.subrange(0, to as int) == s@);
    while to > 0 && k.holds(v[to - 1])
        invariant
            to <= v@.len(),
            strip_end(v@.subrange(0, to as int), k) == strip_end(s@, k),
        decreases to,
    {
        assert(v@.subrange(0, to as int).drop_last() == v@.subrange(0, to - 1));
        to -= 1;
    }
    string_of(&v, 0, to)
}

/// Computes [`stripped`].
pub fn strip(s: &str, k: CharKind) -> (r: String)
    ensures
        r@ == stripped(s@, k),
{
    let v = chars_of(s);
    let n: usize = v.len();
    let mut from: usize = 0;
    assert(v@.subrange(0, n as int) == s@);
    while from < n && k.holds(v[from])
        invariant
            n == v@.len(),
            from <= n,
            strip_start(v@.subrange(from as int, n as int), k) == strip_start(s@, k),
        decreases n - from,
    {
        assert(v@.subrange(from as int, n as int).drop_first() == v@.subrange(
            from + 1,
            n as int,
        ));
        from += 1;
    }
    let mut to: usize = n;
    while to > from && k.holds(v[to - 1])
        invariant
            n == v@.len(),
            from <= to <= n,
            strip_end(v@.subrange(from as int, to as int), k) == stripped(s@, k),
        decreases to,
    {
        assert(v@.subrange(from as int, to as int).drop_last() == v@.subrange(
            from as int,
            to - 1,
        ));
        to -= 1;
    }
    string_of(&v, from, to)
}

/// Computes [`trimmed`].
pub fn trim(s: &str) -> (r: String)
    ensures
        r@ == trimmed(s@),
{
    strip(s, CharKind::Space)
}

// -- splitting and joining ---------------------------------------------------------------------

/// The pieces between the characters of a kind, the empty ones included. There is always one piece
/// more than there are such characters.
pub open spec fn pieces(s: Seq<char>, k: CharKind) -> Seq<Seq<char>>
    decreases s.len(),
{
    if s.len() == 0 {
        seq![s]
    } else {
        let before = pieces(s.drop_last(), k);
        if k.has(s.last()) {
            before.push(Seq::empty())
        } else {
            before.drop_last().push(before.last().push(s.last()))
        }
    }
}

/// The texts of a list that are not empty, in order.
pub open spec fn non_empty(parts: Seq<Seq<char>>) -> Seq<Seq<char>>
    decreases parts.len(),
{
    if parts.len() == 0 {
        Seq::empty()
    } else if parts.last().len() == 0 {
        non_empty(parts.drop_last())
    } else {
        non_empty(parts.drop_last()).push(parts.last())
    }
}

/// Every text of a list with the white space at its ends removed.
pub open spec fn trimmed_each(parts: Seq<Seq<char>>) -> Seq<Seq<char>> {
    parts.map_values(|p: Seq<char>| trimmed(p))
}

/// The runs of characters other than white space.
pub open spec fn words(s: Seq<char>) -> Seq<Seq<char>> {
    non_empty(pieces(s, CharKind::Space))
}

/// The texts of a list one after the other, with a separator between neighbours.
pub open spec fn joined(parts: Seq<Seq<char>>, sep: Seq<char>) -> Seq<char>
    decreases parts.len(),
{
    if parts.len() == 0 {
        Seq::empty()
    } else if parts.len() == 1 {
        parts[0]
    } else {
        joined(parts.drop_last(), sep) + sep + parts.last()
    }
}

pub proof fn lemma_pieces_not_empty(s: Seq<char>, k: CharKind)
    ensures
        pieces(s, k).len() > 0,
    decreases s.len(),
{
    if s.len() > 0 {
        lemma_pieces_not_empty(s.drop_last(), k);
    }
}

/// Computes [`pieces`].
pub fn split(s: &str, k: CharKind) -> (r: Vec<String>)
    ensures
        texts(r@) == pieces(s@, k),
{
    let v = chars_of(s);
    let mut out: Vec<String> = Vec::new();
    let mut piece = String::new();
    let mut i: usize = 0;
    assert(piece@ == v@.take(0));
    assert(texts(out@).push(piece@) == pieces(v@.take(0), k));
    while i < v.len()
        invariant
            i <= v@.len(),
            texts(out@).push(piece@) == pieces(v@.take(i as int), k),
        decreases v@.len() - i,
    {
        let c = v[i];
        assert(v@.take(i + 1).drop_last() == v@.take(i as int));
        if k.holds(c) {
            let ghost done = texts(out@).push(piece@);
            out.push(piece);
            assert(texts(out@) == done);
            piece = String::new();
        } else {
            assert(texts(out@).push(piece@).drop_last() == texts(out@));
            piece.push(c);
        }
        i += 1;
    }
    assert(v@.take(v@.len() as int) == s@);
    let ghost all = texts(out@).push(piece@);
    out.push(piece);
    assert(texts(out@) == all);
    out
}

/// Computes [`non_empty`], over [`trimmed_each`] of the list.
pub fn trimmed_non_empty(parts: &Vec<String>) -> (r: Vec<String>)
    ensures
        texts(r@) == non_empty(trimmed_each(texts(parts@))),
{
    let mut out: Vec<String> = Vec::new();
    let mut i: usize = 0;
    let ghost all = trimmed_each(texts(parts@));
    assert(all.take(0) == Seq::<Seq<char>>::empty());
    while i < parts.len()
        invariant
            i <= parts@.len(),
            all == trimmed_each(texts(parts@)),
            texts(out@) == non_empty(all.take(i as int)),
        decreases parts@.len() - i,
    {
        let t = trim(parts[i].as_str());
        assert(all.take(i + 1).drop_last() == all.take(i as int));
        assert(all.take(i + 1).last() == t@);
        if !t.as_str().is_empty() {
            let ghost longer = texts(out@).push(t@);
            out.push(t);
            assert(texts(out@) == longer);
        }
        i += 1;
    }
    assert(all.take(all.len() as int) == all);
    out
}

/// Computes [`words`].
pub fn words_of(s: &str) -> (r: Vec<String>)
    ensures
        texts(r@) == words(s@),
{
    let parts = split(s, CharKind::Space);
    let mut out: Vec<String> = Vec::new();
    let mut i: usize = 0;
    let ghost all = texts(parts@);
    assert(all.take(0) == Seq::<Seq<char>>::empty());
    while i < parts.len()
        invariant
            i <= parts@.len(),
            all == texts(parts@),
            texts(out@) == non_empty(all.take(i as int)),
        decreases parts@.len() - i,
    {
        assert(all.take(i + 1).drop_last() == all.take(i as int));
        assert(all.take(i + 1).last() == parts@[i as int]@);
        if !parts[i].as_str().is_empty() {
            let t = owned(parts[i].as_str());
            let ghost longer = texts(out@).push(t@);
            out.push(t);
            assert(texts(out@) == longer);
        }
        i += 1;
    }
    assert(all.take(all.len() as int) == all);
    out
}

/// Computes [`joined`].
pub fn join(parts: &Vec<String>, sep: &str) -> (r: String)
    ensures
        r@ == joined(texts(parts@), sep@),
{
    let mut out = String::new();
    let mut i: usize = 0;
    let ghost all = texts(parts@);
    while i < parts.len()
        invariant
            i <= parts@.len(),
            all == texts(parts@),
            out@ == joined(all.take(i as int), sep@),
        decreases parts@.len() - i,
    {
        assert(all.take(i + 1).drop_last() == all.take(i as int));
        assert(all.take(i + 1).last() == parts@[i as int]@);
        if i > 0 {
            out.append(sep);
        }
        out.append(parts[i].as_str());
        i += 1;
    }
    assert(all.take(all.len() as int) == all);
    out
}

// -- searching ---------------------------------------------------------------------------------

/// Whether `part` stands in `whole` from position `at` on.
pub open spec fn occurs_at(whole: Seq<char>, part: Seq<char>, at: int) -> bool {
    0 <= at && at + part.len() <= whole.len() && whole.subrange(at, at + part.len()) == part
}

/// Whether `part` stands somewhere in `whole`.
pub open spec fn has_part(whole: Seq<char>, part: Seq<char>) -> bool {
    exists|at: int| occurs_at(whole, part, at)
}

/// Whether `whole` begins with `part`.
pub open spec fn has_prefix(whole: Seq<char>, part: Seq<char>) -> bool {
    part.len() <= whole.len() && whole.take(part.len() as int) == part
}

/// Whether `whole` ends with `part`.
pub open spec fn has_suffix(whole: Seq<char>, part: Seq<char>) -> bool {
    part.len() <= whole.len() && whole.skip(whole.len() - part.len()) == part
}

/// Computes [`occurs_at`] on character vectors.
fn stands_at(whole: &Vec<char>, part: &Vec<char>, at: usize) -> (r: bool)
    ensures
        r == occurs_at(whole@, part@, at as int),
{
    let n: usize = whole.len();
    if at > n || part.len() > n - at {
        return false;
    }
    let mut i: usize = 0;
    while i < part.len()
        invariant
            i <= part@.len(),
            n == whole@.len(),
            at + part@.len() <= n,
            forall|j: int| 0 <= j < i ==> whole@[at + j] == part@[j],
        decreases part@.len() - i,
    {
        if whole[at + i] != part[i] {
            assert(whole@.subrange(at as int, at + part@.len())[i as int] != part@[i as int]);
            return false;
        }
        i += 1;
    }
    assert(whole@.subrange(at as int, at + part@.len()) =~= part@);
    true
}

/// Computes [`has_part`].
pub fn contains(whole: &str, part: &str) -> (r: bool)
    ensures
        r == has_part(whole@, part@),
{
    let w = chars_of(whole);
    let p = chars_of(part);
    if p.len() > w.len() {
        return false;
    }
    let last: usize = w.len() - p.len();
    let mut at: usize = 0;
    while at <= last
        invariant
            w@ == whole@,
            p@ == part@,
            last + p@.len() == w@.len(),
            at <= last + 1,
            forall|j: int| 0 <= j < at ==> !occurs_at(w@, p@, j),
        decreases last + 1 - at,
    {
        if stands_at(&w, &p, at) {
            return true;
        }
        if at == last {
            return false;
        }
        at += 1;
    }
    false
}

/// Whether a character stands somewhere in a text.
pub fn has_char(s: &str, c: char) -> (r: bool)
    ensures
        r == s@.contains(c),
{
    let v = chars_of(s);
    let mut i: usize = 0;
    while i < v.len()
        invariant
            i <= v@.len(),
            v@ == s@,
            forall|j: int| 0 <= j < i ==> v@[j] != c,
        decreases v@.len() - i,
    {
        if v[i] == c {
            assert(s@[i as int] == c);
            return true;
        }
        i += 1;
    }
    false
}

/// Computes [`has_prefix`].
pub fn starts_with(whole: &str, part: &str) -> (r: bool)
    ensures
        r == has_prefix(whole@, part@),
{
    let w = chars_of(whole);
    let p = chars_of(part);
    let r = stands_at(&w, &p, 0);
    assert(part@.len() <= whole@.len() ==> whole@.subrange(0, part@.len() as int) == whole@.take(
        part@.len() as int,
    ));
    r
}

/// Computes [`has_suffix`].
pub fn ends_with(whole: &str, part: &str) -> (r: bool)
    ensures
        r == has_suffix(whole@, part@),
{
    let w = chars_of(whole);
    let p = chars_of(part);
    if p.len() > w.len() {
        return false;
    }
    let at: usize = w.len() - p.len();
    let r = stands_at(&w, &p, at);
    assert(whole@.subrange(at as int, at + part@.len()) == whole@.skip(at as int));
    r
}

// -- case --------------------------------------------------------------------------------------

/// Whether two texts differ at most in the case of their ASCII letters.
pub open spec fn same_but_case(a: Seq<char>, b: Seq<char>) -> bool {
    ascii_lower(a) == ascii_lower(b)
}

/// Computes [`ascii_lower_char`].
pub fn to_ascii_lower_char(c: char) -> (r: char)
    ensures
        r == ascii_lower_char(c),
{
    if 'A' <= c && c <= 'Z' {
        ((c as u8) + 32) as char
    } else {
        c
    }
}

/// Computes [`ascii_lower`].
pub fn to_ascii_lower(s: &str) -> (r: String)
    ensures
        r@ == ascii_lower(s@),
{
    let v = chars_of(s);
    let mut out = String::new();
    let mut i: usize = 0;
    while i < v.len()
        invariant
            i <= v@.len(),
            out@ == ascii_lower(v@).take(i as int),
        decreases v@.len() - i,
    {
        out.push(to_ascii_lower_char(v[i]));
        i += 1;
    }
    assert(ascii_lower(v@).take(v@.len() as int) == ascii_lower(v@));
    out
}

/// Computes [`same_but_case`].
pub fn eq_ignore_case(a: &str, b: &str) -> (r: bool)
    ensures
        r == same_but_case(a@, b@),
{
    let x = to_ascii_lower(a);
    let y = to_ascii_lower(b);
    same(x.as_str(), y.as_str())
}

/// Whether a text is in a list, up to the case of ASCII letters.
pub open spec fn listed_but_case(list: Seq<&str>, want: Seq<char>) -> bool {
    exists|i: int| 0 <= i < list.len() && same_but_case((#[trigger] list[i])@, want)
}

/// Computes [`listed_but_case`].
pub fn any_eq_ignore_case(list: &[&str], want: &str) -> (r: bool)
    ensures
        r == listed_but_case(list@, want@),
{
    let mut i: usize = 0;
    while i < list.len()
        invariant
            i <= list@.len(),
            forall|j: int| 0 <= j < i ==> !same_but_case((#[trigger] list@[j])@, want@),
        decreases list@.len() - i,
    {
        if eq_ignore_case(list[i], want) {
            return true;
        }
        i += 1;
    }
    false
}

/// Whether a text is in a list.
pub open spec fn listed(list: Seq<&str>, want: Seq<char>) -> bool {
    exists|i: int| 0 <= i < list.len() && (#[trigger] list[i])@ == want
}

/// Computes [`listed`].
pub fn any_same(list: &[&str], want: &str) -> (r: bool)
    ensures
        r == listed(list@, want@),
{
    let mut i: usize = 0;
    while i < list.len()
        invariant
            i <= list@.len(),
            forall|j: int| 0 <= j < i ==> (#[trigger] list@[j])@ != want@,
        decreases list@.len() - i,
    {
        if same(list[i], want) {
            return true;
        }
        i += 1;
    }
    false
}

} // verus!
