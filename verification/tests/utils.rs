use hebbot::utils::{emoji_cmp, format_messages};

#[test]
fn emoji_cmp_ignores_variation_selectors() {
    assert!(emoji_cmp("\u{26a0}\u{fe0f}", "\u{26a0}"));
    assert!(emoji_cmp("\u{26a0}", "\u{26a0}\u{fe0f}"));
    assert!(!emoji_cmp("\u{26a0}", "\u{2139}"));
    assert!(emoji_cmp("", "\u{fe0f}"));
}

#[test]
fn format_messages_lists_each_message() {
    let list = vec!["one".to_string(), "two".to_string()];
    assert_eq!(
        format_messages(true, &list),
        "- \u{26a0}\u{fe0f} one<br>- \u{26a0}\u{fe0f} two<br>"
    );
    assert_eq!(format_messages(false, &list), "- \u{2139}\u{fe0f} one<br>- \u{2139}\u{fe0f} two<br>");
    assert_eq!(format_messages(false, &[]), "");
}
