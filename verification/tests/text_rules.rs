use cua_core::decimal::{decimal, parse_u64, signed_decimal};
use cua_core::menubar::{menu_path_steps, menu_shortcut};
use cua_core::order::sort_texts;
use cua_core::safety::destructive::{destructive_token, normalize};
use cua_core::session::kinds::Mechanism;
use cua_core::session::tokens::list_of;
use cua_core::text::{
    contains, ends_with, eq_ignore_case, join, split, starts_with, trim, words_of, CharKind,
};

const WHITE_SPACE: [char; 25] = [
    '\t', '\n', '\u{b}', '\u{c}', '\r', ' ', '\u{85}', '\u{a0}', '\u{1680}', '\u{2000}', '\u{2001}',
    '\u{2002}', '\u{2003}', '\u{2004}', '\u{2005}', '\u{2006}', '\u{2007}', '\u{2008}', '\u{2009}',
    '\u{200a}', '\u{2028}', '\u{2029}', '\u{202f}', '\u{205f}', '\u{3000}',
];

#[test]
fn white_space_is_what_unicode_calls_it() {
    for code in 0..=0x10ffffu32 {
        if let Some(c) = char::from_u32(code) {
            let kept = trim(&format!("{c}x{c}"));
            if WHITE_SPACE.contains(&c) {
                assert_eq!(kept, "x", "U+{code:04X}");
            } else {
                assert_eq!(kept, format!("{c}x{c}"), "U+{code:04X}");
            }
        }
    }
}

#[test]
fn control_codes_are_no_shortcut() {
    for code in 0..0x300u32 {
        let c = char::from_u32(code).unwrap();
        let drawn = c.to_string();
        let control = code < 0x20 || (0x7f..0xa0).contains(&code);
        let blank = WHITE_SPACE.contains(&c);
        assert_eq!(menu_shortcut(Some(&drawn), Some(8)).is_none(), control || blank, "U+{code:04X}");
    }
}

#[test]
fn labels_are_read_in_words_of_letters_and_digits() {
    assert_eq!(normalize("  Move   to\tTrash\u{3000}"), "move to trash");
    assert_eq!(normalize("ÄRGER 삭제"), "ärger 삭제");
    assert_eq!(destructive_token("(Delete…)").as_deref(), Some("delet"));
    assert_eq!(destructive_token("undelete"), None);
    assert_eq!(destructive_token("is-deletion").as_deref(), Some("delet"));
    assert_eq!(destructive_token("édelete"), None, "a letter beyond ASCII is part of the word");
}

#[test]
fn lower_case_of_a_character_does_not_depend_on_its_neighbours() {
    for code in 0x80..=0x10ffffu32 {
        if let Some(c) = char::from_u32(code) {
            if WHITE_SPACE.contains(&c) || c == 'Σ' {
                continue;
            }
            let alone = normalize(&c.to_string());
            assert_eq!(normalize(&format!("Aβ{c}Ω.Z")), format!("aβ{alone}ω.z"), "U+{code:04X}");
        }
    }
}

#[test]
fn lower_case_reaches_beyond_ascii() {
    assert_eq!(normalize("ΌΣΟΣ ΣΑΣ DELETE"), "όσος σας delete");
    assert_eq!(normalize("K삭제İ"), "k삭제i\u{307}");
    assert_eq!(menu_shortcut(Some("Ä"), Some(8)).as_deref(), Some("ä"));
    assert_eq!(Mechanism::parse("KEYSTROKES"), Ok(Mechanism::Keystrokes));
}

#[test]
fn lists_are_quoted_the_way_rust_quotes_them() {
    let list = vec!["a\"b".to_string(), "tab\t".to_string(), String::new()];
    assert_eq!(list_of(&list), "[\"a\\\"b\", \"tab\\t\", \"\"]");
    assert_eq!(list_of(&Vec::new()), "[]");
    assert!(Mechanism::parse("a\nb").unwrap_err().contains("a\\nb"));
}

#[test]
fn numbers_read_as_decimals() {
    assert_eq!(decimal(0), "0");
    assert_eq!(decimal(u64::MAX), "18446744073709551615");
    assert_eq!(signed_decimal(i64::MIN), "-9223372036854775808");
    assert_eq!(signed_decimal(-7), "-7");
    assert_eq!(parse_u64("18446744073709551615"), Some(u64::MAX));
    assert_eq!(parse_u64("18446744073709551616"), None);
    assert_eq!(parse_u64("+5"), Some(5));
    assert_eq!(parse_u64("-5"), None);
    assert_eq!(parse_u64(""), None);
    assert_eq!(parse_u64("1 2"), None);
}

#[test]
fn texts_are_searched_cut_and_joined() {
    assert!(contains("haystack", "sta") && contains("x", "") && !contains("sta", "stac"));
    assert!(starts_with("haystack", "hay") && !starts_with("hay", "hays"));
    assert!(ends_with("haystack", "stack") && !ends_with("stack", "haystack"));
    assert!(eq_ignore_case("AbC", "aBc") && !eq_ignore_case("Ä", "ä"));
    assert_eq!(split("a>>b", CharKind::Just('>')), ["a", "", "b"]);
    assert_eq!(split("", CharKind::Just('>')), [""]);
    assert_eq!(words_of(" a \u{3000} b\n"), ["a", "b"]);
    assert_eq!(join(&vec!["a".to_string(), "b".to_string()], ", "), "a, b");
    assert_eq!(menu_path_steps("\u{3000}Edit\u{a0}> Paste "), ["Edit", "Paste"]);
}

#[test]
fn texts_are_ordered_by_their_characters() {
    let list: Vec<String> = ["b", "a", "Z", "ä", "ab", ""].iter().map(|s| s.to_string()).collect();
    let mut std_order = list.clone();
    std_order.sort();
    assert_eq!(sort_texts(&list), std_order);
}
