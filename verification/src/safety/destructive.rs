//! Which controls and which keys destroy something.
//!
//! Every rule here is tuned to over-refuse: a false positive costs one more call whose error names
//! the parameter that clears it, a false negative costs what was destroyed.
use vstd::prelude::*;
use crate::safety::context::{as_list, ContextText, DecisionContext};
use crate::text::{
    any_same, contains, has_char, has_part, has_prefix, join, joined, listed, lowercase, non_empty,
    owned, pieces, slice_of, split, starts_with, strip, stripped, text_of, texts, trim, trimmed,
    trimmed_each, trimmed_non_empty, words, words_of, CharKind,
};

verus! {

/// English word stems whose presence in a label means that pressing it probably removes something.
/// They are matched against the start of a word, so that `Presets` does not match `reset`.
pub const DESTRUCTIVE_STEMS: [&'static str; 16] = [
    "delet",
    "remov",
    "eras",
    "discard",
    "reset",
    "trash",
    "uninstall",
    "revok",
    "destroy",
    "wipe",
    "purge",
    "shred",
    "overwrite",
    "unsend",
    "deauthoriz",
    "clear",
];

/// Phrases that only read as destructive as a whole.
pub const DESTRUCTIVE_PHRASES: [&'static str; 10] = [
    "don't save",
    "dont save",
    "do not save",
    "don’t save",
    "empty trash",
    "move to trash",
    "shut down",
    "log out",
    "sign out",
    "factory settings",
];

/// Korean parts of words that mean the same, matched anywhere in a label.
pub const DESTRUCTIVE_KOREAN: [&'static str; 15] = [
    "삭제",
    "제거",
    "지우",
    "지움",
    "초기화",
    "버리",
    "휴지통",
    "비우기",
    "폐기",
    "탈퇴",
    "나가기",
    "저장 안",
    "저장하지",
    "되돌리기",
    "강제 종료",
];

/// Whole labels of answers that name their own harmlessness.
pub const SAFE_ANSWERS: [&'static str; 16] = [
    "cancel",
    "no",
    "not now",
    "later",
    "dismiss",
    "back",
    "go back",
    "keep",
    "save",
    "취소",
    "아니오",
    "아니요",
    "나중에",
    "돌아가기",
    "유지",
    "저장",
];

/// Roles of the elements a human types into.
pub const TEXT_ENTRY_ROLES: [&'static str; 4] = [
    "AXTextField",
    "AXTextArea",
    "AXComboBox",
    "AXSearchField",
];

/// Names of the keys that remove what is selected.
pub const DELETE_KEYS: [&'static str; 6] = [
    "delete",
    "del",
    "backspace",
    "forwarddelete",
    "forward_delete",
    "forward-delete",
];

/// Names of the keys that press a dialog's default button.
pub const CONFIRM_KEYS: [&'static str; 5] = [
    "return",
    "enter",
    "kp_enter",
    "keypad_enter",
    "numpad_enter",
];

// -- the element a gate judges -----------------------------------------------------------------

/// The element a gate is about to act on, flattened out of the snapshot.
#[derive(Debug, Clone)]
pub struct Candidate {
    pub role: String,
    pub label: Option<String>,
    pub value: Option<String>,
    pub help: Option<String>,
    /// Whether the element's value can be written.
    pub settable: bool,
    /// What the control says in a child element rather than in an attribute.
    pub caption: Option<String>,
    /// How the tree rendered it, for the error message.
    pub description: String,
    /// The question the nearest enclosing decision context is asking.
    pub context: Option<DecisionContext>,
}

/// What a [`Candidate`] says.
pub struct CandidateText {
    pub role: Seq<char>,
    pub label: Option<Seq<char>>,
    pub value: Option<Seq<char>>,
    pub help: Option<Seq<char>>,
    pub settable: bool,
    pub caption: Option<Seq<char>>,
    pub description: Seq<char>,
    pub context: Option<ContextText>,
}

impl View for Candidate {
    type V = CandidateText;

    open spec fn view(&self) -> CandidateText {
        CandidateText {
            role: self.role@,
            label: text_of(self.label),
            value: text_of(self.value),
            help: text_of(self.help),
            settable: self.settable,
            caption: text_of(self.caption),
            description: self.description@,
            context: match self.context {
                Some(c) => Some(c@),
                None => None,
            },
        }
    }
}

impl Default for Candidate {
    fn default() -> (r: Self)
        ensures
            r@ == (CandidateText {
                role: Seq::empty(),
                label: None,
                value: None,
                help: None,
                settable: false,
                caption: None,
                description: Seq::empty(),
                context: None,
            }),
    {
        Candidate {
            role: String::new(),
            label: None,
            value: None,
            help: None,
            settable: false,
            caption: None,
            description: String::new(),
            context: None,
        }
    }
}

/// Whether an element looks like somewhere a human types.
pub open spec fn takes_typing(c: CandidateText) -> bool {
    c.settable || listed(TEXT_ENTRY_ROLES@, c.role)
}

/// The text a label rule is allowed to read: label, caption and help, and the value of an element
/// that cannot be written.
pub open spec fn readable_text(c: CandidateText) -> Seq<char> {
    joined(
        as_list(c.label) + as_list(c.caption) + as_list(c.help) + (if c.settable {
            Seq::empty()
        } else {
            as_list(c.value)
        }),
        " "@,
    )
}

/// The wording of an answer, wherever the toolkit put it: the label where that says anything, or
/// else the caption.
pub open spec fn wording(c: CandidateText) -> Option<Seq<char>> {
    match c.label {
        Some(l) => if trimmed(l).len() > 0 {
            Some(l)
        } else {
            c.caption
        },
        None => c.caption,
    }
}

/// Whether the question around an element may be held against it: not where the element takes
/// typing, and not where its wording promises that nothing is lost.
pub open spec fn answers_for_question(c: CandidateText) -> bool {
    !takes_typing(c) && match wording(c) {
        Some(w) => !promises_harmlessness(w),
        None => true,
    }
}

/// What [`Candidate::substitute_answer`] appends to a description.
pub open spec fn default_button_note() -> Seq<char> {
    " (the default button `return` will press)"@
}

impl Candidate {
    /// Replaces the answer being judged and keeps the question.
    ///
    /// For a key that presses a dialog's default button rather than the control it was aimed at.
    /// Both are answers to the same question, so the context stays. What described the element the
    /// caller named goes: a text field that was aimed at must not excuse a button that was not.
    pub fn substitute_answer(&mut self, role: &str, label: Option<String>, description: String)
        ensures
            final(self)@ == (CandidateText {
                role: role@,
                label: text_of(label),
                value: None,
                help: old(self)@.help,
                settable: false,
                caption: None,
                description: description@ + default_button_note(),
                context: old(self)@.context,
            }),
    {
        self.role = owned(role);
        self.label = label;
        self.value = None;
        self.settable = false;
        self.caption = None;
        let mut described = description;
        described.append(" (the default button `return` will press)");
        self.description = described;
    }

    /// Whether this looks like somewhere a human types.
    pub fn is_text_entry(&self) -> (r: bool)
        ensures
            r == takes_typing(self@),
    {
        self.settable || any_same(TEXT_ENTRY_ROLES.as_slice(), self.role.as_str())
    }

    /// The text a label rule is allowed to read.
    pub fn classifiable_text(&self) -> (r: String)
        ensures
            r@ == readable_text(self@),
    {
        let mut parts: Vec<String> = Vec::new();
        let ghost mut all: Seq<Seq<char>> = Seq::empty();
        if let Some(l) = &self.label {
            parts.push(owned(l.as_str()));
            proof {
                all = all.push(l@);
            }
        }
        if let Some(c) = &self.caption {
            parts.push(owned(c.as_str()));
            proof {
                all = all.push(c@);
            }
        }
        if let Some(h) = &self.help {
            parts.push(owned(h.as_str()));
            proof {
                all = all.push(h@);
            }
        }
        if !self.settable {
            if let Some(v) = &self.value {
                parts.push(owned(v.as_str()));
                proof {
                    all = all.push(v@);
                }
            }
        }
        assert(texts(parts@) == all);
        assert(all == as_list(self@.label) + as_list(self@.caption) + as_list(self@.help) + (
        if self@.settable {
            Seq::empty()
        } else {
            as_list(self@.value)
        }));
        join(&parts, " ")
    }

    /// Whether the question around this element may be held against it.
    pub fn accepts_context_evidence(&self) -> (r: bool)
        ensures
            r == answers_for_question(self@),
    {
        if self.is_text_entry() {
            return false;
        }
        if let Some(label) = &self.label {
            if !trim(label.as_str()).as_str().is_empty() {
                return !is_safe_answer(label.as_str());
            }
        }
        match &self.caption {
            Some(caption) => !is_safe_answer(caption.as_str()),
            None => true,
        }
    }
}

// -- labels ------------------------------------------------------------------------------------

/// A text in lower case with every run of white space made one space, none at the ends.
pub open spec fn normalized(text: Seq<char>) -> Seq<char> {
    lowercase(joined(words(text), " "@))
}

/// Whether a label, up to case, spacing and surrounding punctuation, is one of [`SAFE_ANSWERS`].
pub open spec fn promises_harmlessness(label: Seq<char>) -> bool {
    let core = stripped(normalized(label), CharKind::Mark);
    core.len() > 0 && listed(SAFE_ANSWERS@, core)
}

/// The first text of a list, from `from` on, that stands somewhere in `whole`.
pub open spec fn first_part_in(list: Seq<&str>, whole: Seq<char>, from: nat) -> Option<Seq<char>>
    decreases list.len() - from,
{
    if from >= list.len() {
        None
    } else if has_part(whole, list[from as int]@) {
        Some(list[from as int]@)
    } else {
        first_part_in(list, whole, from + 1)
    }
}

/// The first text of a list, from `from` on, that `word` begins with.
pub open spec fn first_prefix_of(list: Seq<&str>, word: Seq<char>, from: nat) -> Option<Seq<char>>
    decreases list.len() - from,
{
    if from >= list.len() {
        None
    } else if has_prefix(word, list[from as int]@) {
        Some(list[from as int]@)
    } else {
        first_prefix_of(list, word, from + 1)
    }
}

/// The destructive stem that a word begins with.
pub open spec fn stem_of(word: Seq<char>) -> Option<Seq<char>> {
    if word.len() == 0 {
        None
    } else {
        first_prefix_of(DESTRUCTIVE_STEMS@, word, 0)
    }
}

/// The stem of the first word, from `from` on, that has one.
pub open spec fn first_stem(all: Seq<Seq<char>>, from: nat) -> Option<Seq<char>>
    decreases all.len() - from,
{
    if from >= all.len() {
        None
    } else {
        match stem_of(all[from as int]) {
            Some(stem) => Some(stem),
            None => first_stem(all, from + 1),
        }
    }
}

/// The destructive token of a normalized text: a phrase, or else a Korean part, or else the stem
/// that one of its words begins with.
pub open spec fn token_in(norm: Seq<char>) -> Option<Seq<char>> {
    match first_part_in(DESTRUCTIVE_PHRASES@, norm, 0) {
        Some(phrase) => Some(phrase),
        None => match first_part_in(DESTRUCTIVE_KOREAN@, norm, 0) {
            Some(part) => Some(part),
            None => first_stem(pieces(norm, CharKind::Mark), 0),
        },
    }
}

/// The destructive token of a text.
pub open spec fn token_of(text: Seq<char>) -> Option<Seq<char>> {
    if normalized(text).len() == 0 {
        None
    } else {
        token_in(normalized(text))
    }
}

/// Collapses white space and lowers case, so that one label matches one way.
pub fn normalize(text: &str) -> (r: String)
    ensures
        r@ == normalized(text@),
{
    let parts = words_of(text);
    join(&parts, " ").as_str().to_lowercase()
}

/// Whether a label is an exact promise that nothing is destroyed.
pub fn is_safe_answer(label: &str) -> (r: bool)
    ensures
        r == promises_harmlessness(label@),
{
    let norm = normalize(label);
    let core = strip(norm.as_str(), CharKind::Mark);
    !core.as_str().is_empty() && any_same(SAFE_ANSWERS.as_slice(), core.as_str())
}

/// Computes [`first_part_in`] from the start of the list.
pub fn find_part(list: &[&'static str], whole: &str) -> (r: Option<&'static str>)
    ensures
        slice_of(r) == first_part_in(list@, whole@, 0),
{
    let mut i: usize = 0;
    while i < list.len()
        invariant
            i <= list@.len(),
            first_part_in(list@, whole@, i as nat) == first_part_in(list@, whole@, 0),
        decreases list@.len() - i,
    {
        if contains(whole, list[i]) {
            return Some(list[i]);
        }
        i += 1;
    }
    None
}

/// Computes [`first_prefix_of`] from the start of the list.
fn find_prefix(list: &[&'static str], word: &str) -> (r: Option<&'static str>)
    ensures
        slice_of(r) == first_prefix_of(list@, word@, 0),
{
    let mut i: usize = 0;
    while i < list.len()
        invariant
            i <= list@.len(),
            first_prefix_of(list@, word@, i as nat) == first_prefix_of(list@, word@, 0),
        decreases list@.len() - i,
    {
        if starts_with(word, list[i]) {
            return Some(list[i]);
        }
        i += 1;
    }
    None
}

/// The destructive token `text` contains, if any.
pub fn destructive_token(text: &str) -> (r: Option<String>)
    ensures
        text_of(r) == token_of(text@),
{
    let norm = normalize(text);
    if norm.as_str().is_empty() {
        return None;
    }
    if let Some(phrase) = find_part(DESTRUCTIVE_PHRASES.as_slice(), norm.as_str()) {
        return Some(owned(phrase));
    }
    if let Some(part) = find_part(DESTRUCTIVE_KOREAN.as_slice(), norm.as_str()) {
        return Some(owned(part));
    }
    let all = split(norm.as_str(), CharKind::Mark);
    let ghost views = texts(all@);
    let mut i: usize = 0;
    while i < all.len()
        invariant
            i <= all@.len(),
            views == texts(all@),
            first_stem(views, i as nat) == first_stem(views, 0),
            token_of(text@) == first_stem(views, 0),
        decreases all@.len() - i,
    {
        assert(views[i as int] == all@[i as int]@);
        if !all[i].as_str().is_empty() {
            if let Some(stem) = find_prefix(DESTRUCTIVE_STEMS.as_slice(), all[i].as_str()) {
                return Some(owned(stem));
            }
        }
        i += 1;
    }
    None
}

// -- questions and keys ------------------------------------------------------------------------

/// The question held against an element, and the token that convicts it.
pub open spec fn question_against(c: CandidateText) -> Option<(ContextText, Seq<char>)> {
    if !answers_for_question(c) {
        None
    } else {
        match c.context {
            Some(context) => match token_of(context.question) {
                Some(token) => Some((context, token)),
                None => None,
            },
            None => None,
        }
    }
}

/// The question held against this candidate, and the token that convicted it.
///
/// `None` means the context is no evidence: there is no enclosing question, the question is
/// harmless, or the candidate is exempt from being judged by it.
pub fn destructive_context(candidate: &Candidate) -> (r: Option<(&DecisionContext, String)>)
    ensures
        match r {
            Some((context, token)) => question_against(candidate@) == Some((context@, token@)),
            None => question_against(candidate@) is None,
        },
{
    if !candidate.accepts_context_evidence() {
        return None;
    }
    match &candidate.context {
        Some(context) => match destructive_token(context.question.as_str()) {
            Some(token) => Some((context, token)),
            None => None,
        },
        None => None,
    }
}

/// A key name in lower case without the white space around it.
pub open spec fn key_name(key: Seq<char>) -> Seq<char> {
    lowercase(trimmed(key))
}

/// The keys of a chord, the modifiers before the base.
pub open spec fn chord_keys(name: Seq<char>) -> Seq<Seq<char>> {
    non_empty(trimmed_each(pieces(name, CharKind::Just('+'))))
}

/// What pressing a key on an element destroys: any chord of a modifier with a delete key, and a bare
/// delete key anywhere that does not take typing or is not known.
pub open spec fn key_against(key: Seq<char>, candidate: Option<CandidateText>) -> Option<Seq<char>> {
    let name = key_name(key);
    let keys = chord_keys(name);
    if keys.len() == 0 || !listed(DELETE_KEYS@, keys.last()) {
        None
    } else if keys.len() > 1 {
        Some(name)
    } else if candidate is Some && takes_typing(candidate->0) {
        None
    } else {
        Some(keys.last())
    }
}

/// The view of an optional candidate.
pub open spec fn candidate_text(c: Option<&Candidate>) -> Option<CandidateText> {
    match c {
        Some(candidate) => Some(candidate@),
        None => None,
    }
}

/// Whether pressing `key` on `candidate` destroys something, and what convicts it.
pub fn destructive_key(key: &str, candidate: Option<&Candidate>) -> (r: Option<String>)
    ensures
        text_of(r) == key_against(key@, candidate_text(candidate)),
{
    let name = trim(key).as_str().to_lowercase();
    let pieces = split(name.as_str(), CharKind::Just('+'));
    let keys = trimmed_non_empty(&pieces);
    if keys.len() == 0 {
        return None;
    }
    assert(texts(keys@).last() == keys@.last()@);
    let base = owned(keys[keys.len() - 1].as_str());
    if !any_same(DELETE_KEYS.as_slice(), base.as_str()) {
        return None;
    }
    if keys.len() > 1 {
        return Some(name);
    }
    match candidate {
        Some(c) => if c.is_text_entry() {
            None
        } else {
            Some(base)
        },
        None => Some(base),
    }
}

/// Whether a key presses a dialog's default button: an unmodified return or enter.
pub open spec fn confirms_default(key: Seq<char>) -> bool {
    let name = key_name(key);
    !name.contains('+') && listed(CONFIRM_KEYS@, name)
}

/// Whether this key presses a dialog's default button rather than whatever the caller aimed at.
pub fn key_activates_default_button(key: &str) -> (r: bool)
    ensures
        r == confirms_default(key@),
{
    let name = trim(key).as_str().to_lowercase();
    if has_char(name.as_str(), '+') {
        return false;
    }
    any_same(CONFIRM_KEYS.as_slice(), name.as_str())
}

} // verus!
