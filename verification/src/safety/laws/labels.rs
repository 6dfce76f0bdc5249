//! What further text beside a label, or behind an identifier, cannot hide.
use vstd::prelude::*;
use vstd::utf8::is_ascii_chars;
use crate::safety::destructive::{
    first_part_in, first_stem, normalized, stem_of, token_in, token_of, DESTRUCTIVE_KOREAN,
    DESTRUCTIVE_PHRASES,
};
use crate::safety::laws::{lemma_part_is_found, lemma_stem_is_found};
use crate::safety::policy::{
    covered_by, forbidden_reason, on_list, AUTH_PROMPTS, CREDENTIAL_STORES, SECURITY_SURFACES,
    SUSPICIOUS,
};
use crate::text::lemmas::{
    lemma_joined_concat, lemma_non_empty_concat, lemma_pieces_concat, lemma_strip_end_splits,
    lemma_trim_ends,
};
use crate::text::lower::{
    begins_like, is_small_sigma, lemma_lowercase_keeps_dot, lemma_lowercase_keeps_start,
    lemma_lowercase_splits_at_space,
};
use crate::text::{
    has_part, joined, lowercase, occurs_at, pieces, strip_end, strip_start, trimmed,
    words, CharKind,
};

verus! {

// -- labels ------------------------------------------------------------------------------------

/// The destructive part that was found stands somewhere in the list.
proof fn lemma_found_part(list: Seq<&str>, whole: Seq<char>, from: nat) -> (j: int)
    requires
        first_part_in(list, whole, from) is Some,
    ensures
        from <= j < list.len(),
        has_part(whole, list[j]@),
    decreases list.len() - from,
{
    if has_part(whole, list[from as int]@) {
        from as int
    } else {
        lemma_found_part(list, whole, from + 1)
    }
}

proof fn lemma_found_stem(all: Seq<Seq<char>>, from: nat) -> (i: int)
    requires
        first_stem(all, from) is Some,
    ensures
        from <= i < all.len(),
        stem_of(all[i]) is Some,
    decreases all.len() - from,
{
    if stem_of(all[from as int]) is Some {
        from as int
    } else {
        lemma_found_stem(all, from + 1)
    }
}

proof fn lemma_part_stays(before: Seq<char>, whole: Seq<char>, after: Seq<char>, part: Seq<char>)
    requires
        has_part(whole, part),
    ensures
        has_part(before + whole + after, part),
{
    let at = choose|at: int| occurs_at(whole, part, at);
    let long = before + whole + after;
    let n = before.len();
    assert(long.subrange(n + at, n + at + part.len()) == whole.subrange(at, at + part.len()));
    assert(occurs_at(long, part, n + at));
}

proof fn lemma_parts_stay(before: Seq<char>, whole: Seq<char>, after: Seq<char>, list: Seq<&str>)
    requires
        first_part_in(list, whole, 0) is Some,
    ensures
        first_part_in(list, before + whole + after, 0) is Some,
{
    let j = lemma_found_part(list, whole, 0);
    lemma_part_stays(before, whole, after, list[j]@);
    lemma_part_is_found(list, before + whole + after, 0, j);
}

proof fn lemma_token_stays(a: Seq<char>, b: Seq<char>)
    requires
        token_in(a) is Some,
    ensures
        token_in(a + " "@ + b) is Some,
        token_in(b + " "@ + a) is Some,
{
    reveal_strlit(" ");
    let none = Seq::<char>::empty();
    let front = a + " "@ + b;
    let back = b + " "@ + a;
    assert(front == none + a + (" "@ + b));
    assert(back == b + " "@ + a + none);
    if first_part_in(DESTRUCTIVE_PHRASES@, a, 0) is Some {
        lemma_parts_stay(none, a, " "@ + b, DESTRUCTIVE_PHRASES@);
        lemma_parts_stay(b + " "@, a, none, DESTRUCTIVE_PHRASES@);
    } else if first_part_in(DESTRUCTIVE_KOREAN@, a, 0) is Some {
        lemma_parts_stay(none, a, " "@ + b, DESTRUCTIVE_KOREAN@);
        lemma_parts_stay(b + " "@, a, none, DESTRUCTIVE_KOREAN@);
    } else {
        let k = CharKind::Mark;
        assert(front == a.push(' ') + b);
        assert(back == b.push(' ') + a);
        lemma_pieces_concat(a, ' ', b, k);
        lemma_pieces_concat(b, ' ', a, k);
        let i = lemma_found_stem(pieces(a, k), 0);
        assert(pieces(front, k)[i] == pieces(a, k)[i]);
        lemma_stem_is_found(pieces(front, k), 0, i);
        assert(pieces(back, k)[pieces(b, k).len() + i] == pieces(a, k)[i]);
        lemma_stem_is_found(pieces(back, k), 0, pieces(b, k).len() + i);
    }
}

proof fn lemma_words_concat(a: Seq<char>, b: Seq<char>)
    ensures
        words(a + " "@ + b) == words(a) + words(b),
{
    reveal_strlit(" ");
    assert(a + " "@ + b == a.push(' ') + b);
    lemma_pieces_concat(a, ' ', b, CharKind::Space);
    lemma_non_empty_concat(pieces(a, CharKind::Space), pieces(b, CharKind::Space));
}

proof fn lemma_normalized_concat(a: Seq<char>, b: Seq<char>)
    ensures
        words(a).len() > 0 && words(b).len() > 0 ==> normalized(a + " "@ + b) == normalized(a)
            + " "@ + normalized(b),
        words(a).len() == 0 ==> normalized(a + " "@ + b) == normalized(b) && normalized(a).len()
            == 0,
        words(b).len() == 0 ==> normalized(a + " "@ + b) == normalized(a),
{
    lemma_words_concat(a, b);
    if words(a).len() == 0 {
        assert(words(a) + words(b) == words(b));
    } else if words(b).len() == 0 {
        assert(words(a) + words(b) == words(a));
    } else {
        lemma_joined_concat(words(a), words(b), " "@);
        lemma_lowercase_splits_at_space(joined(words(a), " "@), joined(words(b), " "@));
    }
}

/// Further text beside a destructive label never hides it, whatever the text and on whichever side.
pub proof fn law_further_text_never_hides_a_destructive_label(a: Seq<char>, b: Seq<char>)
    requires
        token_of(a) is Some,
    ensures
        token_of(a + " "@ + b) is Some,
        token_of(b + " "@ + a) is Some,
{
    lemma_normalized_concat(a, b);
    lemma_normalized_concat(b, a);
    if words(b).len() > 0 {
        lemma_token_stays(normalized(a), normalized(b));
    }
}

// -- identifiers -------------------------------------------------------------------------------

/// Whether a text goes on behind another and a dot, the two alike up to sigmas.
spec fn goes_on(longer: Seq<char>, lower: Seq<char>) -> bool {
    begins_like(longer, lower) && longer.len() > lower.len() && longer[lower.len() as int] == '.'
}

/// Whether every text of a list is ASCII.
spec fn is_ascii_list(list: Seq<&str>) -> bool {
    forall|i: int| 0 <= i < list.len() ==> is_ascii_chars((#[trigger] list[i])@)
}

proof fn lemma_credential_stores_are_ascii()
    ensures
        is_ascii_list(CREDENTIAL_STORES@),
{
    reveal_strlit("com.apple.keychainaccess");
    reveal_strlit("com.apple.Passwords");
    reveal_strlit("com.apple.PasswordManagerBrowserExtensionHelper");
    reveal_strlit("com.apple.KeychainCircleNotification");
    reveal_strlit("com.1password");
    reveal_strlit("com.agilebits.onepassword");
    reveal_strlit("com.bitwarden.desktop");
    reveal_strlit("com.lastpass");
    reveal_strlit("com.dashlane");
    reveal_strlit("org.keepassxc.keepassxc");
    reveal_strlit("com.kyuubi.KeePassium");
    reveal_strlit("in.sinew.Enpass-Desktop");
    reveal_strlit("me.proton.pass");
    reveal_strlit("com.nordsecurity.nordpass");
    reveal_strlit("com.authy.authy-mac");
    reveal_strlit("com.stephenradford.MacPass");
    reveal_strlit("com.mattreduce.Secrets");
    reveal_strlit("com.strongbox");
}

proof fn lemma_security_surfaces_are_ascii()
    ensures
        is_ascii_list(SECURITY_SURFACES@),
{
    reveal_strlit("com.apple.systempreferences");
    reveal_strlit("com.apple.SystemSettings");
    reveal_strlit("com.apple.preference");
}

proof fn lemma_auth_prompts_are_ascii()
    ensures
        is_ascii_list(AUTH_PROMPTS@),
{
    reveal_strlit("com.apple.SecurityAgent");
    reveal_strlit("com.apple.loginwindow");
    reveal_strlit("com.apple.CoreAuthUI");
    reveal_strlit("com.apple.LocalAuthentication.UIAgent");
    reveal_strlit("com.apple.ScreenSaver.Engine");
    reveal_strlit("com.apple.screensaver");
    reveal_strlit("com.apple.TouchBarServer");
}

proof fn lemma_suspicious_parts_are_ascii()
    ensures
        is_ascii_list(SUSPICIOUS@),
{
    reveal_strlit("1password");
    reveal_strlit("authenticator");
    reveal_strlit("bitwarden");
    reveal_strlit("dashlane");
    reveal_strlit("keepass");
    reveal_strlit("keychain");
    reveal_strlit("lastpass");
    reveal_strlit("passwd");
    reveal_strlit("password");
}

proof fn lemma_ascii_stays(longer: Seq<char>, lower: Seq<char>, part: Seq<char>, at: int)
    requires
        begins_like(longer, lower),
        is_ascii_chars(part),
        occurs_at(lower, part, at),
    ensures
        occurs_at(longer, part, at),
{
    let n = part.len() as int;
    assert forall|i: int| 0 <= i < n implies longer.subrange(at, at + n)[i] == part[i] by {
        assert(lower.subrange(at, at + n)[i] == lower[at + i]);
        assert(longer.take(lower.len() as int)[at + i] == longer[at + i]);
        assert('\0' <= part[i] <= '\u{7f}');
    }
    assert(longer.subrange(at, at + n) == part);
}

proof fn lemma_list_covers_helper(list: Seq<&str>, lower: Seq<char>, longer: Seq<char>)
    requires
        is_ascii_list(list),
        on_list(list, lower),
        goes_on(longer, lower),
    ensures
        on_list(list, longer),
{
    reveal_strlit(".");
    let i = choose|i: int| 0 <= i < list.len() && covered_by(lower, (#[trigger] list[i])@);
    let entry = lowercase(list[i]@);
    let dotted = entry + "."@;
    assert(is_ascii_chars(list[i]@));
    assert(is_ascii_chars(entry));
    if lower == entry {
        assert(lower.subrange(0, entry.len() as int) == entry);
        lemma_ascii_stays(longer, lower, entry, 0);
        assert(longer.take(dotted.len() as int) == longer.subrange(0, entry.len() as int) + "."@);
    } else {
        assert(lower.subrange(0, dotted.len() as int) == dotted);
        lemma_ascii_stays(longer, lower, dotted, 0);
        assert(longer.take(dotted.len() as int) == longer.subrange(0, dotted.len() as int));
    }
    assert(covered_by(longer, list[i]@));
}

/// Every helper of a forbidden app is forbidden: whatever goes on behind its bundle identifier and
/// a dot.
pub proof fn law_helpers_of_a_forbidden_app_are_forbidden(id: Seq<char>, rest: Seq<char>)
    requires
        trimmed(id) == id,
        forbidden_reason(id) is Some,
    ensures
        forbidden_reason(id + "."@ + rest) is Some,
{
    let whole = id + "."@ + rest;
    let dotted = id.push('.');
    let kept = strip_end(rest, CharKind::Space);
    assert(whole == dotted + rest) by {
        reveal_strlit(".");
    }
    lemma_trim_ends(id);
    assert(whole[0] == id[0]);
    assert(strip_start(whole, CharKind::Space) == whole);
    lemma_strip_end_splits(dotted, rest);
    assert(trimmed(whole) == dotted + kept);
    let lower = lowercase(id);
    let between = lowercase(dotted);
    let longer = lowercase(dotted + kept);
    lemma_lowercase_keeps_dot(id);
    assert(dotted == id + seq!['.']);
    lemma_lowercase_keeps_start(id, seq!['.']);
    lemma_lowercase_keeps_start(dotted, kept);
    lemma_goes_on(lower, between, longer);
    lemma_credential_stores_are_ascii();
    lemma_security_surfaces_are_ascii();
    lemma_auth_prompts_are_ascii();
    if on_list(CREDENTIAL_STORES@, lower) {
        lemma_list_covers_helper(CREDENTIAL_STORES@, lower, longer);
    } else if on_list(SECURITY_SURFACES@, lower) {
        lemma_list_covers_helper(SECURITY_SURFACES@, lower, longer);
    } else if on_list(AUTH_PROMPTS@, lower) {
        lemma_list_covers_helper(AUTH_PROMPTS@, lower, longer);
    } else {
        lemma_suspicious_parts_are_ascii();
        let j = lemma_found_part(SUSPICIOUS@, lower, 0);
        let at = choose|at: int| occurs_at(lower, SUSPICIOUS@[j]@, at);
        lemma_ascii_stays(longer, lower, SUSPICIOUS@[j]@, at);
        lemma_part_is_found(SUSPICIOUS@, longer, 0, j);
    }
}

proof fn lemma_goes_on(lower: Seq<char>, between: Seq<char>, longer: Seq<char>)
    requires
        between.len() == lower.len() + 1,
        between.last() == '.',
        begins_like(between, lower),
        begins_like(longer, between),
    ensures
        goes_on(longer, lower),
{
    let n = lower.len() as int;
    assert forall|i: int| 0 <= i < n implies #[trigger] longer.take(n)[i] == lower[i] || (
    is_small_sigma(longer.take(n)[i]) && is_small_sigma(lower[i])) by {
        assert(longer.take(between.len() as int)[i] == longer[i]);
        assert(between.take(n)[i] == between[i]);
    }
    assert(longer.take(between.len() as int)[n] == longer[n]);
}

} // verus!
