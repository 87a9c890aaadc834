use hebbot::bot_message_type::BotMessageType;
use hebbot::idmap::IdMap;
use hebbot::mxc::{locator_parts_of, media_id, media_id_of};
use hebbot::names::insert_name;
use hebbot::text::{
    chars_of, clone_strings, contains_text, decimal_string, join, replace_all, string_of,
    strip_char, text_eq, text_less,
};

#[test]
fn characters_go_there_and_back() {
    let text = "a\u{e4}\u{20ac}\u{1f600}";
    let chars = chars_of(text);
    assert_eq!(chars, vec!['a', '\u{e4}', '\u{20ac}', '\u{1f600}']);
    assert_eq!(string_of(&chars), text);
    assert_eq!(chars_of(""), Vec::<char>::new());
    assert_eq!(string_of(&vec![]), "");
}

#[test]
fn characters_are_stripped() {
    assert_eq!(strip_char("a-b--c-", '-'), "abc");
    assert_eq!(strip_char("---", '-'), "");
    assert_eq!(strip_char("abc", '-'), "abc");
}

#[test]
fn numbers_in_decimal() {
    assert_eq!(decimal_string(0), "0");
    assert_eq!(decimal_string(7), "7");
    assert_eq!(decimal_string(10), "10");
    assert_eq!(decimal_string(1905), "1905");
    assert_eq!(decimal_string(u64::MAX), "18446744073709551615");
}

#[test]
fn texts_are_ordered_by_code_point() {
    let mut words = vec!["b", "", "a", "ab", "B", "\u{e4}", "abc", "a\u{1f600}", "a\u{e4}"];
    words.sort();
    for (i, x) in words.iter().enumerate() {
        for (j, y) in words.iter().enumerate() {
            assert_eq!(text_less(x, y), i < j, "{x:?} < {y:?}");
            assert_eq!(text_eq(x, y), i == j);
        }
    }
}

#[test]
fn texts_are_joined() {
    let parts = vec!["a".to_string(), "".to_string(), "c".to_string()];
    assert_eq!(join(&parts, ", "), "a, , c");
    assert_eq!(join(&vec!["solo".to_string()], ", "), "solo");
    assert_eq!(join(&vec![], ", "), "");
    assert_eq!(clone_strings(&parts), parts);
    assert!(contains_text(&parts, ""));
    assert!(contains_text(&parts, "c"));
    assert!(!contains_text(&parts, "b"));
}

#[test]
fn names_are_inserted_in_order() {
    let mut names: Vec<String> = Vec::new();
    for n in ["m", "a", "z", "m", "b", "a"] {
        insert_name(&mut names, n.to_string());
    }
    assert_eq!(names, vec!["a", "b", "m", "z"]);
}

#[test]
fn id_map_keeps_the_order_of_first_insertion() {
    let mut m: IdMap<String> = IdMap::new();
    assert!(m.is_empty());
    m.insert("b".into(), "1".into());
    m.insert("a".into(), "2".into());
    m.insert("b".into(), "3".into());
    assert_eq!(m.len(), 2);
    assert_eq!(m.key_at(0), "b");
    assert_eq!(m.value_at(0), "3");
    assert_eq!(m.key_at(1), "a");
    assert_eq!(m.get("a"), Some(&"2".to_string()));
    assert_eq!(m.get("c"), None);
    assert!(m.contains_key("b"));
    assert_eq!(m.position("a"), Some(1));
    assert_eq!(m.remove("c"), None);
    assert_eq!(m.remove("b"), Some("3".to_string()));
    assert_eq!(m.len(), 1);
    assert_eq!(m.key_at(0), "a");
    m.insert("c".into(), "4".into());
    m.remove_at(0);
    assert_eq!(m.key_at(0), "c");
    assert!(!m.is_empty());
}

#[test]
fn media_ids_of_locators() {
    assert_eq!(media_id("mxc://matrix.local/abcDEF-_09"), "abcDEF-_09");
    assert_eq!(media_id("mxc://matrix.local/with space"), "");
    assert_eq!(media_id("mxc://matrix.local"), "");
    assert_eq!(media_id("https://matrix.local/abc"), "");
    assert_eq!(media_id(""), "");
    for letters in [250, 251, 255, 256, 1000] {
        let long = format!("mxc://{}/abc", "a".repeat(letters));
        assert_eq!(media_id(&long), "");
        assert_eq!(locator_parts_of(&long), None);
    }
    assert_eq!(
        locator_parts_of("mxc://matrix.local/abc"),
        Some(("matrix.local".to_string(), "abc".to_string()))
    );
    assert_eq!(locator_parts_of("matrix.local/abc"), None);
    assert_eq!(media_id_of(Some(("server".into(), "id".into()))), "id");
    assert_eq!(media_id_of(None), "");
}

#[test]
fn rooms_of_message_kinds() {
    assert!(BotMessageType::AdminRoomHtmlNotice.is_admin_room());
    assert!(BotMessageType::AdminRoomPlainNotice.is_admin_room());
    assert!(!BotMessageType::ReportingRoomPlainText.is_admin_room());
    assert!(!BotMessageType::ReportingRoomPlainNotice.is_admin_room());
}

#[test]
fn occurrences_are_replaced_from_the_left() {
    assert_eq!(replace_all("Thanks {{user}}!", "{{user}}", "Alice"), "Thanks Alice!");
    assert_eq!(replace_all("{{user}}{{user}}", "{{user}}", "A"), "AA");
    assert_eq!(replace_all("aaa", "aa", "b"), "ba");
    assert_eq!(replace_all("abcabc", "bc", ""), "aa");
    assert_eq!(replace_all("abc", "abcd", "x"), "abc");
    assert_eq!(replace_all("abc", "", "x"), "abc");
    assert_eq!(replace_all("", "a", "x"), "");
    assert_eq!(replace_all("\u{e4}\u{20ac}\u{e4}", "\u{e4}", "ae"), "ae\u{20ac}ae");
}
