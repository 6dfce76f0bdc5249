//! The words, roles and identifiers that the rules go by, and what the rules make of them.
use vstd::prelude::*;
use crate::safety::context::{
    asks, bounds_search, is_prose, is_pruned, NodeText, ANSWER_ROLES, CAPTIONED_ROLES,
    CONTENT_CONTAINER_ROLES, CONTEXT_BOUNDARY_ROLES, DECISION_ROLES, DECISION_SUBROLES,
    QUESTION_ROLES,
};
use crate::safety::destructive::{
    chord_keys, confirms_default, first_part_in, first_prefix_of, first_stem, key_against,
    normalized, promises_harmlessness, stem_of, token_of, CandidateText, CONFIRM_KEYS,
    DELETE_KEYS, DESTRUCTIVE_KOREAN, DESTRUCTIVE_PHRASES, DESTRUCTIVE_STEMS, SAFE_ANSWERS,
    TEXT_ENTRY_ROLES,
};
use crate::safety::laws::{lemma_part_is_found, lemma_prefix_is_found, lemma_stem_is_found};
use crate::safety::policy::{
    covered_by, forbidden_reason, on_list, AUTH_PROMPTS, CREDENTIAL_STORES, SECURITY_SURFACES,
    SUSPICIOUS,
};
use crate::text::{
    has_part, has_prefix, listed, listed_but_case, lowercase, pieces, same_but_case, stripped,
    trimmed, CharKind,
};
use crate::text::laws::law_a_part_stands_at_an_end;

verus! {

/// The texts of a list.
pub open spec fn views(list: Seq<&str>) -> Seq<Seq<char>> {
    list.map_values(|s: &str| s@)
}

proof fn lemma_listed(list: Seq<&str>, want: Seq<char>)
    ensures
        listed(list, want) <==> views(list).contains(want),
{
    if listed(list, want) {
        let i = choose|i: int| 0 <= i < list.len() && (#[trigger] list[i])@ == want;
        assert(views(list)[i] == want);
    }
    if views(list).contains(want) {
        let i = choose|i: int| 0 <= i < views(list).len() && views(list)[i] == want;
        assert(list[i]@ == want);
    }
}

// -- the lists ---------------------------------------------------------------------------------

/// The apps that hold credentials, and the parts of an identifier that say so of any other.
pub proof fn law_these_apps_hold_credentials()
    ensures
        views(CREDENTIAL_STORES@) == seq![
            "com.apple.keychainaccess"@,
            "com.apple.Passwords"@,
            "com.apple.PasswordManagerBrowserExtensionHelper"@,
            "com.apple.KeychainCircleNotification"@,
            "com.1password"@,
            "com.agilebits.onepassword"@,
            "com.bitwarden.desktop"@,
            "com.lastpass"@,
            "com.dashlane"@,
            "org.keepassxc.keepassxc"@,
            "com.kyuubi.KeePassium"@,
            "in.sinew.Enpass-Desktop"@,
            "me.proton.pass"@,
            "com.nordsecurity.nordpass"@,
            "com.authy.authy-mac"@,
            "com.stephenradford.MacPass"@,
            "com.mattreduce.Secrets"@,
            "com.strongbox"@,
        ],
        views(SUSPICIOUS@) == seq![
            "1password"@,
            "authenticator"@,
            "bitwarden"@,
            "dashlane"@,
            "keepass"@,
            "keychain"@,
            "lastpass"@,
            "passwd"@,
            "password"@,
        ],
{
    assert(views(CREDENTIAL_STORES@) =~= seq![
        "com.apple.keychainaccess"@,
        "com.apple.Passwords"@,
        "com.apple.PasswordManagerBrowserExtensionHelper"@,
        "com.apple.KeychainCircleNotification"@,
        "com.1password"@,
        "com.agilebits.onepassword"@,
        "com.bitwarden.desktop"@,
        "com.lastpass"@,
        "com.dashlane"@,
        "org.keepassxc.keepassxc"@,
        "com.kyuubi.KeePassium"@,
        "in.sinew.Enpass-Desktop"@,
        "me.proton.pass"@,
        "com.nordsecurity.nordpass"@,
        "com.authy.authy-mac"@,
        "com.stephenradford.MacPass"@,
        "com.mattreduce.Secrets"@,
        "com.strongbox"@,
    ]);
    assert(views(SUSPICIOUS@) =~= seq![
        "1password"@,
        "authenticator"@,
        "bitwarden"@,
        "dashlane"@,
        "keepass"@,
        "keychain"@,
        "lastpass"@,
        "passwd"@,
        "password"@,
    ]);
}

/// The apps that are surfaces of the system's security, and those that ask for a login.
pub proof fn law_these_apps_are_security_surfaces()
    ensures
        views(SECURITY_SURFACES@) == seq![
            "com.apple.systempreferences"@,
            "com.apple.SystemSettings"@,
            "com.apple.preference"@,
        ],
        views(AUTH_PROMPTS@) == seq![
            "com.apple.SecurityAgent"@,
            "com.apple.loginwindow"@,
            "com.apple.CoreAuthUI"@,
            "com.apple.LocalAuthentication.UIAgent"@,
            "com.apple.ScreenSaver.Engine"@,
            "com.apple.screensaver"@,
            "com.apple.TouchBarServer"@,
        ],
{
    assert(views(SECURITY_SURFACES@) =~= seq![
        "com.apple.systempreferences"@,
        "com.apple.SystemSettings"@,
        "com.apple.preference"@,
    ]);
    assert(views(AUTH_PROMPTS@) =~= seq![
        "com.apple.SecurityAgent"@,
        "com.apple.loginwindow"@,
        "com.apple.CoreAuthUI"@,
        "com.apple.LocalAuthentication.UIAgent"@,
        "com.apple.ScreenSaver.Engine"@,
        "com.apple.screensaver"@,
        "com.apple.TouchBarServer"@,
    ]);
}

/// The stems, the phrases and the Korean parts of words that mean destruction.
pub proof fn law_these_words_mean_destruction()
    ensures
        views(DESTRUCTIVE_STEMS@) == seq![
            "delet"@,
            "remov"@,
            "eras"@,
            "discard"@,
            "reset"@,
            "trash"@,
            "uninstall"@,
            "revok"@,
            "destroy"@,
            "wipe"@,
            "purge"@,
            "shred"@,
            "overwrite"@,
            "unsend"@,
            "deauthoriz"@,
            "clear"@,
        ],
        views(DESTRUCTIVE_PHRASES@) == seq![
            "don't save"@,
            "dont save"@,
            "do not save"@,
            "don’t save"@,
            "empty trash"@,
            "move to trash"@,
            "shut down"@,
            "log out"@,
            "sign out"@,
            "factory settings"@,
        ],
        views(DESTRUCTIVE_KOREAN@) == seq![
            "삭제"@,
            "제거"@,
            "지우"@,
            "지움"@,
            "초기화"@,
            "버리"@,
            "휴지통"@,
            "비우기"@,
            "폐기"@,
            "탈퇴"@,
            "나가기"@,
            "저장 안"@,
            "저장하지"@,
            "되돌리기"@,
            "강제 종료"@,
        ],
{
    assert(views(DESTRUCTIVE_STEMS@) =~= seq![
        "delet"@,
        "remov"@,
        "eras"@,
        "discard"@,
        "reset"@,
        "trash"@,
        "uninstall"@,
        "revok"@,
        "destroy"@,
        "wipe"@,
        "purge"@,
        "shred"@,
        "overwrite"@,
        "unsend"@,
        "deauthoriz"@,
        "clear"@,
    ]);
    assert(views(DESTRUCTIVE_PHRASES@) =~= seq![
        "don't save"@,
        "dont save"@,
        "do not save"@,
        "don’t save"@,
        "empty trash"@,
        "move to trash"@,
        "shut down"@,
        "log out"@,
        "sign out"@,
        "factory settings"@,
    ]);
    assert(views(DESTRUCTIVE_KOREAN@) =~= seq![
        "삭제"@,
        "제거"@,
        "지우"@,
        "지움"@,
        "초기화"@,
        "버리"@,
        "휴지통"@,
        "비우기"@,
        "폐기"@,
        "탈퇴"@,
        "나가기"@,
        "저장 안"@,
        "저장하지"@,
        "되돌리기"@,
        "강제 종료"@,
    ]);
}

/// The answers that promise that nothing is lost.
pub proof fn law_these_answers_are_harmless()
    ensures
        views(SAFE_ANSWERS@) == seq![
            "cancel"@,
            "no"@,
            "not now"@,
            "later"@,
            "dismiss"@,
            "back"@,
            "go back"@,
            "keep"@,
            "save"@,
            "취소"@,
            "아니오"@,
            "아니요"@,
            "나중에"@,
            "돌아가기"@,
            "유지"@,
            "저장"@,
        ],
{
    assert(views(SAFE_ANSWERS@) =~= seq![
        "cancel"@,
        "no"@,
        "not now"@,
        "later"@,
        "dismiss"@,
        "back"@,
        "go back"@,
        "keep"@,
        "save"@,
        "취소"@,
        "아니오"@,
        "아니요"@,
        "나중에"@,
        "돌아가기"@,
        "유지"@,
        "저장"@,
    ]);
}

/// The keys that delete, those that press a default button, and the roles that take typing.
pub proof fn law_these_keys_delete_and_confirm()
    ensures
        views(DELETE_KEYS@) == seq![
            "delete"@,
            "del"@,
            "backspace"@,
            "forwarddelete"@,
            "forward_delete"@,
            "forward-delete"@,
        ],
        views(CONFIRM_KEYS@) == seq![
            "return"@,
            "enter"@,
            "kp_enter"@,
            "keypad_enter"@,
            "numpad_enter"@,
        ],
        views(TEXT_ENTRY_ROLES@) == seq![
            "AXTextField"@,
            "AXTextArea"@,
            "AXComboBox"@,
            "AXSearchField"@,
        ],
{
    assert(views(DELETE_KEYS@) =~= seq![
        "delete"@,
        "del"@,
        "backspace"@,
        "forwarddelete"@,
        "forward_delete"@,
        "forward-delete"@,
    ]);
    assert(views(CONFIRM_KEYS@) =~= seq![
        "return"@,
        "enter"@,
        "kp_enter"@,
        "keypad_enter"@,
        "numpad_enter"@,
    ]);
    assert(views(TEXT_ENTRY_ROLES@) =~= seq![
        "AXTextField"@,
        "AXTextArea"@,
        "AXComboBox"@,
        "AXSearchField"@,
    ]);
}

/// The roles and subroles that ask a question, that end the search for one, that show it, that hold
/// content, that answer, and that may say what they are in a child.
pub proof fn law_these_roles_ask_and_answer()
    ensures
        views(DECISION_ROLES@) == seq![
            "AXSheet"@,
            "AXDialog"@,
            "AXAlert"@,
        ],
        views(DECISION_SUBROLES@) == seq![
            "AXDialog"@,
            "AXSystemDialog"@,
            "AXAlertDialog"@,
        ],
        views(CONTEXT_BOUNDARY_ROLES@) == seq![
            "AXWindow"@,
            "AXApplication"@,
            "AXSystemWide"@,
        ],
        views(QUESTION_ROLES@) == seq![
            "AXStaticText"@,
            "AXHeading"@,
        ],
        views(CONTENT_CONTAINER_ROLES@) == seq![
            "AXScrollArea"@,
            "AXTable"@,
            "AXOutline"@,
            "AXList"@,
            "AXBrowser"@,
            "AXGrid"@,
            "AXRow"@,
            "AXCell"@,
            "AXWebArea"@,
            "AXDocument"@,
            "AXTextArea"@,
        ],
        views(ANSWER_ROLES@) == seq![
            "AXButton"@,
            "AXCheckBox"@,
            "AXRadioButton"@,
            "AXPopUpButton"@,
            "AXMenuButton"@,
            "AXMenuItem"@,
            "AXLink"@,
            "AXDisclosureTriangle"@,
            "AXTab"@,
            "AXSlider"@,
            "AXIncrementor"@,
            "AXStepper"@,
            "AXTextField"@,
            "AXComboBox"@,
            "AXSearchField"@,
        ],
        views(CAPTIONED_ROLES@) == seq![
            "AXButton"@,
            "AXCheckBox"@,
            "AXRadioButton"@,
            "AXPopUpButton"@,
            "AXMenuButton"@,
            "AXMenuItem"@,
            "AXLink"@,
            "AXTab"@,
            "AXDisclosureTriangle"@,
            "AXToolbarButton"@,
        ],
{
    assert(views(DECISION_ROLES@) =~= seq![
        "AXSheet"@,
        "AXDialog"@,
        "AXAlert"@,
    ]);
    assert(views(DECISION_SUBROLES@) =~= seq![
        "AXDialog"@,
        "AXSystemDialog"@,
        "AXAlertDialog"@,
    ]);
    assert(views(CONTEXT_BOUNDARY_ROLES@) =~= seq![
        "AXWindow"@,
        "AXApplication"@,
        "AXSystemWide"@,
    ]);
    assert(views(QUESTION_ROLES@) =~= seq![
        "AXStaticText"@,
        "AXHeading"@,
    ]);
    assert(views(CONTENT_CONTAINER_ROLES@) =~= seq![
        "AXScrollArea"@,
        "AXTable"@,
        "AXOutline"@,
        "AXList"@,
        "AXBrowser"@,
        "AXGrid"@,
        "AXRow"@,
        "AXCell"@,
        "AXWebArea"@,
        "AXDocument"@,
        "AXTextArea"@,
    ]);
    assert(views(ANSWER_ROLES@) =~= seq![
        "AXButton"@,
        "AXCheckBox"@,
        "AXRadioButton"@,
        "AXPopUpButton"@,
        "AXMenuButton"@,
        "AXMenuItem"@,
        "AXLink"@,
        "AXDisclosureTriangle"@,
        "AXTab"@,
        "AXSlider"@,
        "AXIncrementor"@,
        "AXStepper"@,
        "AXTextField"@,
        "AXComboBox"@,
        "AXSearchField"@,
    ]);
    assert(views(CAPTIONED_ROLES@) =~= seq![
        "AXButton"@,
        "AXCheckBox"@,
        "AXRadioButton"@,
        "AXPopUpButton"@,
        "AXMenuButton"@,
        "AXMenuItem"@,
        "AXLink"@,
        "AXTab"@,
        "AXDisclosureTriangle"@,
        "AXToolbarButton"@,
    ]);
}

// -- what they are used for --------------------------------------------------------------------

proof fn lemma_first_part(list: Seq<&str>, whole: Seq<char>, from: nat)
    ensures
        first_part_in(list, whole, from) matches Some(t) ==> exists|i: int|
            from <= i < list.len() && (#[trigger] list[i])@ == t && has_part(whole, t),
    decreases list.len() - from,
{
    if from < list.len() {
        if has_part(whole, list[from as int]@) {
            assert(list[from as int]@ == list[from as int]@);
        } else {
            lemma_first_part(list, whole, from + 1);
        }
    }
}

proof fn lemma_first_prefix(list: Seq<&str>, word: Seq<char>, from: nat)
    ensures
        first_prefix_of(list, word, from) matches Some(t) ==> exists|i: int|
            from <= i < list.len() && (#[trigger] list[i])@ == t && has_prefix(word, t),
    decreases list.len() - from,
{
    if from < list.len() {
        if has_prefix(word, list[from as int]@) {
            assert(list[from as int]@ == list[from as int]@);
        } else {
            lemma_first_prefix(list, word, from + 1);
        }
    }
}

proof fn lemma_first_stem(all: Seq<Seq<char>>, from: nat)
    ensures
        first_stem(all, from) matches Some(t) ==> exists|k: int|
            from <= k < all.len() && stem_of(#[trigger] all[k]) == Some(t),
    decreases all.len() - from,
{
    if from < all.len() && stem_of(all[from as int]) is None {
        lemma_first_stem(all, from + 1);
    }
}

/// A label is destructive exactly where, without regard to spacing and case, it holds one of the
/// destructive phrases or Korean parts, or one of its words, whatever marks stand around them,
/// begins with a destructive stem.
pub proof fn law_a_label_is_destructive_by_its_words(text: Seq<char>)
    ensures
        token_of(text) is Some <==> {
            let norm = normalized(text);
            let all = pieces(norm, CharKind::Mark);
            &&& norm.len() > 0
            &&& {
                ||| exists|i: int|
                    0 <= i < views(DESTRUCTIVE_PHRASES@).len() && has_part(
                        norm,
                        #[trigger] views(DESTRUCTIVE_PHRASES@)[i],
                    )
                ||| exists|i: int|
                    0 <= i < views(DESTRUCTIVE_KOREAN@).len() && has_part(
                        norm,
                        #[trigger] views(DESTRUCTIVE_KOREAN@)[i],
                    )
                ||| exists|k: int, i: int|
                    0 <= k < all.len() && 0 <= i < views(DESTRUCTIVE_STEMS@).len() && all[k].len()
                        > 0 && has_prefix(
                        #[trigger] all[k],
                        #[trigger] views(DESTRUCTIVE_STEMS@)[i],
                    )
            }
        },
{
    let norm = normalized(text);
    let all = pieces(norm, CharKind::Mark);
    let phrases = DESTRUCTIVE_PHRASES@;
    let korean = DESTRUCTIVE_KOREAN@;
    let stems = DESTRUCTIVE_STEMS@;
    lemma_first_part(phrases, norm, 0);
    lemma_first_part(korean, norm, 0);
    lemma_first_stem(all, 0);
    if token_of(text) is Some {
        if first_part_in(phrases, norm, 0) is Some {
            let t = first_part_in(phrases, norm, 0)->0;
            let i = choose|i: int|
                0 <= i < phrases.len() && (#[trigger] phrases[i])@ == t && has_part(norm, t);
            assert(views(phrases)[i] == t);
        } else if first_part_in(korean, norm, 0) is Some {
            let t = first_part_in(korean, norm, 0)->0;
            let i = choose|i: int|
                0 <= i < korean.len() && (#[trigger] korean[i])@ == t && has_part(norm, t);
            assert(views(korean)[i] == t);
        } else {
            let t = first_stem(all, 0)->0;
            let k = choose|k: int| 0 <= k < all.len() && stem_of(#[trigger] all[k]) == Some(t);
            lemma_first_prefix(stems, all[k], 0);
            let i = choose|i: int|
                0 <= i < stems.len() && (#[trigger] stems[i])@ == t && has_prefix(all[k], t);
            assert(views(stems)[i] == t);
        }
    }
    if norm.len() > 0 {
        if exists|i: int|
            0 <= i < views(phrases).len() && has_part(norm, #[trigger] views(phrases)[i]) {
            let i = choose|i: int|
                0 <= i < views(phrases).len() && has_part(norm, #[trigger] views(phrases)[i]);
            assert(views(phrases)[i] == phrases[i]@);
            lemma_part_is_found(phrases, norm, 0, i);
        }
        if exists|i: int|
            0 <= i < views(korean).len() && has_part(norm, #[trigger] views(korean)[i]) {
            let i = choose|i: int|
                0 <= i < views(korean).len() && has_part(norm, #[trigger] views(korean)[i]);
            assert(views(korean)[i] == korean[i]@);
            lemma_part_is_found(korean, norm, 0, i);
        }
        if exists|k: int, i: int|
            0 <= k < all.len() && 0 <= i < views(stems).len() && all[k].len() > 0 && has_prefix(
                #[trigger] all[k],
                #[trigger] views(stems)[i],
            ) {
            let (k, i) = choose|k: int, i: int|
                0 <= k < all.len() && 0 <= i < views(stems).len() && all[k].len() > 0
                    && has_prefix(#[trigger] all[k], #[trigger] views(stems)[i]);
            assert(views(stems)[i] == stems[i]@);
            lemma_prefix_is_found(stems, all[k], 0, i);
            lemma_stem_is_found(all, 0, k);
        }
    }
}

/// What convicts a label is one of the listed words, and stands in the label.
pub proof fn law_what_convicts_a_label_stands_in_it(text: Seq<char>)
    requires
        token_of(text) is Some,
    ensures
        ({
            let t = token_of(text)->0;
            ||| views(DESTRUCTIVE_PHRASES@).contains(t) && has_part(normalized(text), t)
            ||| views(DESTRUCTIVE_KOREAN@).contains(t) && has_part(normalized(text), t)
            ||| views(DESTRUCTIVE_STEMS@).contains(t) && exists|k: int|
                0 <= k < pieces(normalized(text), CharKind::Mark).len() && has_prefix(
                    #[trigger] pieces(normalized(text), CharKind::Mark)[k],
                    t,
                )
        }),
{
    let norm = normalized(text);
    let all = pieces(norm, CharKind::Mark);
    lemma_first_part(DESTRUCTIVE_PHRASES@, norm, 0);
    lemma_first_part(DESTRUCTIVE_KOREAN@, norm, 0);
    lemma_first_stem(all, 0);
    let t = token_of(text)->0;
    if first_part_in(DESTRUCTIVE_PHRASES@, norm, 0) is Some {
        let i = choose|i: int|
            0 <= i < DESTRUCTIVE_PHRASES@.len() && (#[trigger] DESTRUCTIVE_PHRASES@[i])@ == t
                && has_part(norm, t);
        assert(views(DESTRUCTIVE_PHRASES@)[i] == t);
    } else if first_part_in(DESTRUCTIVE_KOREAN@, norm, 0) is Some {
        let i = choose|i: int|
            0 <= i < DESTRUCTIVE_KOREAN@.len() && (#[trigger] DESTRUCTIVE_KOREAN@[i])@ == t
                && has_part(norm, t);
        assert(views(DESTRUCTIVE_KOREAN@)[i] == t);
    } else {
        let k = choose|k: int| 0 <= k < all.len() && stem_of(#[trigger] all[k]) == Some(t);
        lemma_first_prefix(DESTRUCTIVE_STEMS@, all[k], 0);
        let i = choose|i: int|
            0 <= i < DESTRUCTIVE_STEMS@.len() && (#[trigger] DESTRUCTIVE_STEMS@[i])@ == t
                && has_prefix(all[k], t);
        assert(views(DESTRUCTIVE_STEMS@)[i] == t);
    }
}

/// An answer is harmless exactly where it is one of the listed ones as a whole, but for spacing,
/// case and the marks around it.
pub proof fn law_an_answer_is_harmless_as_a_whole(label: Seq<char>)
    ensures
        promises_harmlessness(label) <==> views(SAFE_ANSWERS@).contains(
            stripped(normalized(label), CharKind::Mark),
        ),
{
    let core = stripped(normalized(label), CharKind::Mark);
    lemma_listed(SAFE_ANSWERS@, core);
    law_these_answers_are_harmless();
    reveal_strlit("cancel");
    reveal_strlit("no");
    reveal_strlit("not now");
    reveal_strlit("later");
    reveal_strlit("dismiss");
    reveal_strlit("back");
    reveal_strlit("go back");
    reveal_strlit("keep");
    reveal_strlit("save");
    reveal_strlit("취소");
    reveal_strlit("아니오");
    reveal_strlit("아니요");
    reveal_strlit("나중에");
    reveal_strlit("돌아가기");
    reveal_strlit("유지");
    reveal_strlit("저장");
    if views(SAFE_ANSWERS@).contains(core) {
        let i = choose|i: int| 0 <= i < views(SAFE_ANSWERS@).len() && views(SAFE_ANSWERS@)[i] == core;
        assert(views(SAFE_ANSWERS@)[i].len() > 0);
    }
}

/// A key destroys something exactly where its last key is one that deletes and it is held with
/// another, or lands where nobody types.
pub proof fn law_a_key_destroys_by_what_it_ends_in(key: Seq<char>, candidate: Option<CandidateText>)
    ensures
        ({
            let keys = chord_keys(lowercase(trimmed(key)));
            let deletes = keys.len() > 0 && views(DELETE_KEYS@).contains(keys.last());
            let typed = candidate is Some && (candidate->0.settable || views(
                TEXT_ENTRY_ROLES@,
            ).contains(candidate->0.role));
            &&& key_against(key, candidate) is Some <==> deletes && (keys.len() > 1 || !typed)
            &&& key_against(key, candidate) matches Some(t) ==> t == if keys.len() > 1 {
                lowercase(trimmed(key))
            } else {
                keys.last()
            }
        }),
{
    let keys = chord_keys(lowercase(trimmed(key)));
    if keys.len() > 0 {
        lemma_listed(DELETE_KEYS@, keys.last());
    }
    if candidate is Some {
        lemma_listed(TEXT_ENTRY_ROLES@, candidate->0.role);
    }
}

/// A key presses the default button exactly where it is one of the listed ones, held with nothing.
pub proof fn law_only_a_bare_confirming_key_presses_the_default_button(key: Seq<char>)
    ensures
        confirms_default(key) <==> views(CONFIRM_KEYS@).contains(lowercase(trimmed(key)))
            && !lowercase(trimmed(key)).contains('+'),
{
    lemma_listed(CONFIRM_KEYS@, lowercase(trimmed(key)));
}

pub proof fn lemma_listed_but_case(list: Seq<&str>, want: Seq<char>)
    ensures
        listed_but_case(list, want) <==> exists|i: int|
            0 <= i < views(list).len() && same_but_case(#[trigger] views(list)[i], want),
{
    if listed_but_case(list, want) {
        let i = choose|i: int| 0 <= i < list.len() && same_but_case((#[trigger] list[i])@, want);
        assert(same_but_case(views(list)[i], want));
    }
    if exists|i: int| 0 <= i < views(list).len() && same_but_case(#[trigger] views(list)[i], want) {
        let i = choose|i: int|
            0 <= i < views(list).len() && same_but_case(#[trigger] views(list)[i], want);
        assert(same_but_case(list[i]@, want));
    }
}

/// Whether a role is in a list of roles, whatever its case.
pub open spec fn is_among(role: Seq<char>, list: Seq<Seq<char>>) -> bool {
    exists|i: int| 0 <= i < list.len() && same_but_case(#[trigger] list[i], role)
}

/// An element asks, ends the search, is left out or is read exactly by its role, or by its subrole
/// where that marks a dialog.
pub proof fn law_an_element_asks_by_its_role(n: NodeText)
    ensures
        asks(n) <==> is_among(n.role, views(DECISION_ROLES@)) || (n.subrole is Some && is_among(
            n.subrole->0,
            views(DECISION_SUBROLES@),
        )),
        bounds_search(n) <==> is_among(n.role, views(CONTEXT_BOUNDARY_ROLES@)),
        is_prose(n) <==> is_among(n.role, views(QUESTION_ROLES@)),
        is_pruned(n) <==> asks(n) || is_among(n.role, views(CONTENT_CONTAINER_ROLES@)) || is_among(
            n.role,
            views(ANSWER_ROLES@),
        ),
{
    lemma_listed_but_case(DECISION_ROLES@, n.role);
    lemma_listed_but_case(CONTEXT_BOUNDARY_ROLES@, n.role);
    lemma_listed_but_case(QUESTION_ROLES@, n.role);
    lemma_listed_but_case(CONTENT_CONTAINER_ROLES@, n.role);
    lemma_listed_but_case(ANSWER_ROLES@, n.role);
    if n.subrole is Some {
        lemma_listed_but_case(DECISION_SUBROLES@, n.subrole->0);
    }
}

/// Whether an identifier is one of a list, or goes on behind one of them and a dot, without regard
/// to case.
pub open spec fn is_one_of(id: Seq<char>, list: Seq<Seq<char>>) -> bool {
    exists|i: int|
        0 <= i < list.len() && (lowercase(id) == lowercase(#[trigger] list[i]) || exists|
            rest: Seq<char>,
        | lowercase(id) == #[trigger] (lowercase(list[i]) + "."@ + rest))
}

proof fn lemma_on_list(list: Seq<&str>, id: Seq<char>)
    ensures
        on_list(list, lowercase(id)) <==> is_one_of(id, views(list)),
{
    let lower = lowercase(id);
    let all = views(list);
    if on_list(list, lower) {
        let i = choose|i: int| 0 <= i < list.len() && covered_by(lower, (#[trigger] list[i])@);
        law_a_part_stands_at_an_end(lower, lowercase(list[i]@) + "."@);
        assert(all[i] == list[i]@);
        if lower != lowercase(all[i]) {
            let rest = choose|rest: Seq<char>|
                lower == #[trigger] (lowercase(list[i]@) + "."@ + rest);
            assert(lower == lowercase(all[i]) + "."@ + rest);
        }
    }
    if is_one_of(id, all) {
        let i = choose|i: int|
            0 <= i < all.len() && (lower == lowercase(#[trigger] all[i]) || exists|rest: Seq<char>|
                lower == #[trigger] (lowercase(all[i]) + "."@ + rest));
        assert(all[i] == list[i]@);
        law_a_part_stands_at_an_end(lower, lowercase(list[i]@) + "."@);
        assert(covered_by(lower, list[i]@));
    }
}

/// An app is forbidden exactly where its identifier is one of the listed ones or a helper's of one
/// of them, or holds a suspicious part, without regard to case or to space around it; and the
/// reason is that of the list.
pub proof fn law_an_app_is_forbidden_by_its_identifier(bundle_id: Seq<char>)
    ensures
        ({
            let id = trimmed(bundle_id);
            let store = is_one_of(id, views(CREDENTIAL_STORES@));
            let surface = is_one_of(id, views(SECURITY_SURFACES@));
            let prompt = is_one_of(id, views(AUTH_PROMPTS@));
            let suspect = exists|i: int|
                0 <= i < views(SUSPICIOUS@).len() && has_part(
                    lowercase(id),
                    #[trigger] views(SUSPICIOUS@)[i],
                );
            let r = forbidden_reason(bundle_id);
            &&& r is Some <==> id.len() > 0 && (store || surface || prompt || suspect)
            &&& r is Some && store ==> r == Some("holds credentials"@)
            &&& r is Some && !store && surface ==> r == Some(
                "is a system security or privacy surface"@,
            )
            &&& r is Some && !store && !surface && prompt ==> r == Some(
                "is a login, unlock or authorization prompt"@,
            )
            &&& r is Some && !store && !surface && !prompt ==> r == Some("holds credentials"@)
        }),
{
    let id = trimmed(bundle_id);
    lemma_on_list(CREDENTIAL_STORES@, id);
    lemma_on_list(SECURITY_SURFACES@, id);
    lemma_on_list(AUTH_PROMPTS@, id);
    lemma_first_part(SUSPICIOUS@, lowercase(id), 0);
    if first_part_in(SUSPICIOUS@, lowercase(id), 0) is Some {
        let t = first_part_in(SUSPICIOUS@, lowercase(id), 0)->0;
        let i = choose|i: int|
            0 <= i < SUSPICIOUS@.len() && (#[trigger] SUSPICIOUS@[i])@ == t && has_part(
                lowercase(id),
                t,
            );
        assert(views(SUSPICIOUS@)[i] == t);
    }
    if exists|i: int|
        0 <= i < views(SUSPICIOUS@).len() && has_part(
            lowercase(id),
            #[trigger] views(SUSPICIOUS@)[i],
        ) {
        let i = choose|i: int|
            0 <= i < views(SUSPICIOUS@).len() && has_part(
                lowercase(id),
                #[trigger] views(SUSPICIOUS@)[i],
            );
        assert(views(SUSPICIOUS@)[i] == SUSPICIOUS@[i]@);
        lemma_part_is_found(SUSPICIOUS@, lowercase(id), 0, i);
    }
}

} // verus!
