use hebbot::utils::{
    cut_or_original, display_name_mention_regex, matched, mention_verdict, msg_starts_with_mention,
    remove_bot_name, user_id_mention_regex, user_id_parts,
};

#[test]
fn msg_starts_with_mention_and_remove_bot_name() {
    let lowercase_user_id = "@hebbot:matrix.local";
    let uppercase_user_id = "@HEBBOT:matrix.local";
    let lowercase_display_name = "the hebbot".to_owned();
    let uppercase_display_name = "THE HEBBOT".to_owned();

    let content = "This is my entry";

    let matching_localpart_prefixes = &[
        "hebbot: ",
        "@hebbot: ",
        "HEBBOT: ",
        "hebbot ",
        "@hebbot ",
        "HEBBOT ",
        "@HEBBOT ",
        "@hebbot:matrix.local ",
        "@HEBBOT:matrix.local ",
    ];

    for prefix in matching_localpart_prefixes {
        let message = format!("{prefix}{content}");

        // Log the message for debugging when the check fails.
        println!("Checking message: `{message}`");

        // Lowercase user ID and display name.
        assert!(msg_starts_with_mention(
            lowercase_user_id,
            Some(lowercase_display_name.clone()),
            &message
        ));
        assert_eq!(
            remove_bot_name(
                lowercase_user_id,
                Some(lowercase_display_name.clone()),
                &message,
            ),
            content
        );

        // Lowercase user ID no display name.
        assert!(msg_starts_with_mention(lowercase_user_id, None, &message,));
        assert_eq!(remove_bot_name(lowercase_user_id, None, &message), content);

        // Uppercase user ID and display name.
        assert!(msg_starts_with_mention(
            uppercase_user_id,
            Some(uppercase_display_name.clone()),
            &message
        ));
        assert_eq!(
            remove_bot_name(
                uppercase_user_id,
                Some(uppercase_display_name.clone()),
                &message,
            ),
            content
        );

        // Uppercase user ID no display name.
        assert!(msg_starts_with_mention(uppercase_user_id, None, &message,));
        assert_eq!(remove_bot_name(uppercase_user_id, None, &message), content);
    }

    let matching_display_name_prefixes =
        &["the hebbot: ", "THE HEBBOT: ", "the hebbot ", "THE HEBBOT "];

    for prefix in matching_display_name_prefixes {
        let message = format!("{prefix}{content}");

        // Log the message for debugging when the check fails.
        println!("Checking message: `{message}`");

        // Lowercase user ID and display name.
        assert!(msg_starts_with_mention(
            lowercase_user_id,
            Some(lowercase_display_name.clone()),
            &message
        ));
        assert_eq!(
            remove_bot_name(
                lowercase_user_id,
                Some(lowercase_display_name.clone()),
                &message,
            ),
            content
        );

        // Lowercase user ID no display name.
        assert!(!msg_starts_with_mention(lowercase_user_id, None, &message,));
        assert_eq!(remove_bot_name(lowercase_user_id, None, &message), message);

        // Uppercase user ID and display name.
        assert!(msg_starts_with_mention(
            uppercase_user_id,
            Some(uppercase_display_name.clone()),
            &message
        ));
        assert_eq!(
            remove_bot_name(
                uppercase_user_id,
                Some(uppercase_display_name.clone()),
                &message,
            ),
            content
        );

        // Uppercase user ID no display name.
        assert!(!msg_starts_with_mention(uppercase_user_id, None, &message,));
        assert_eq!(remove_bot_name(uppercase_user_id, None, &message), message);
    }

    let not_matching_prefixes = &[
        "[hebbot] ",
        "[@hebbot] ",
        "[HEBBOT] ",
        "[the hebbot] ",
        "[THE HEBBOT] ",
        "heb bot ",
        "@the hebbot",
    ];

    for prefix in not_matching_prefixes {
        let message = format!("{prefix}{content}");

        // Log the message for debugging when the check fails.
        println!("Checking message: `{message}`");

        // Lowercase user ID and display name.
        assert!(!msg_starts_with_mention(
            lowercase_user_id,
            Some(lowercase_display_name.clone()),
            &message
        ));
        assert_eq!(
            remove_bot_name(
                lowercase_user_id,
                Some(lowercase_display_name.clone()),
                &message,
            ),
            message
        );

        // Lowercase user ID no display name.
        assert!(!msg_starts_with_mention(lowercase_user_id, None, &message,));
        assert_eq!(remove_bot_name(lowercase_user_id, None, &message), message);

        // Uppercase user ID and display name.
        assert!(!msg_starts_with_mention(
            uppercase_user_id,
            Some(uppercase_display_name.clone()),
            &message
        ));
        assert_eq!(
            remove_bot_name(
                uppercase_user_id,
                Some(uppercase_display_name.clone()),
                &message,
            ),
            message
        );

        // Uppercase user ID no display name.
        assert!(!msg_starts_with_mention(uppercase_user_id, None, &message,));
        assert_eq!(remove_bot_name(uppercase_user_id, None, &message), message);
    }

    // Try with matching prefixes as suffixes, which should fail.
    for suffix in matching_localpart_prefixes
        .iter()
        .chain(matching_display_name_prefixes)
        .copied()
        // We need to trim whitespaces because they are trimmed in `remove_bot_name`.
        .map(str::trim)
    {
        let message = format!("{content} {suffix}");

        // Log the message for debugging when the check fails.
        println!("Checking message: `{message}`");

        // Lowercase user ID and display name.
        assert!(!msg_starts_with_mention(
            lowercase_user_id,
            Some(lowercase_display_name.clone()),
            &message
        ));
        assert_eq!(
            remove_bot_name(
                lowercase_user_id,
                Some(lowercase_display_name.clone()),
                &message,
            ),
            message
        );

        // Lowercase user ID no display name.
        assert!(!msg_starts_with_mention(lowercase_user_id, None, &message));
        assert_eq!(remove_bot_name(lowercase_user_id, None, &message), message);

        // Uppercase user ID and display name.
        assert!(!msg_starts_with_mention(
            uppercase_user_id,
            Some(uppercase_display_name.clone()),
            &message
        ));
        assert_eq!(
            remove_bot_name(
                uppercase_user_id,
                Some(uppercase_display_name.clone()),
                &message,
            ),
            message
        );

        // Uppercase user ID no display name.
        assert!(!msg_starts_with_mention(uppercase_user_id, None, &message));
        assert_eq!(remove_bot_name(uppercase_user_id, None, &message), message);
    }
}

#[test]
fn user_id_parts_splits_at_the_first_colon() {
    assert_eq!(
        user_id_parts("@hebbot:matrix.local"),
        ("hebbot".to_string(), "matrix.local".to_string())
    );
    assert_eq!(
        user_id_parts("@bot:example.org:8448"),
        ("bot".to_string(), "example.org:8448".to_string())
    );
    assert_eq!(user_id_parts("plain"), ("plain".to_string(), String::new()));
    assert_eq!(user_id_parts(""), (String::new(), String::new()));
}

#[test]
fn meta_characters_of_the_user_id_are_taken_literally() {
    // The dot of the local part must not match any character.
    assert!(msg_starts_with_mention("@heb.bot:matrix.local", None, "heb.bot: hello"));
    assert!(!msg_starts_with_mention("@heb.bot:matrix.local", None, "hebXbot: hello"));
    assert_eq!(
        remove_bot_name("@heb.bot:matrix.local", None, "hebXbot: hello"),
        "hebXbot: hello"
    );
    // The same holds for the display name.
    assert!(msg_starts_with_mention(
        "@hebbot:matrix.local",
        Some("the (he)bot".to_string()),
        "The (He)Bot: hi"
    ));
    assert!(!msg_starts_with_mention(
        "@hebbot:matrix.local",
        Some("the (he)bot".to_string()),
        "the hebot: hi"
    ));
}

#[test]
fn remove_bot_name_trims_white_space() {
    assert_eq!(remove_bot_name("@hebbot:matrix.local", None, "  \t hello world \n"), "hello world");
    assert_eq!(
        remove_bot_name("@hebbot:matrix.local", None, "hebbot:\u{a0}\u{2003}news\u{3000}"),
        "news"
    );
    // Only the first mention is cut.
    assert_eq!(
        remove_bot_name("@hebbot:matrix.local", None, "hebbot: hebbot: twice"),
        "hebbot: twice"
    );
}

#[test]
fn mention_patterns() {
    assert_eq!(
        user_id_mention_regex("@heb.bot:matrix.local"),
        "(?i)^@?heb\\.bot(:matrix\\.local)?:?"
    );
    assert_eq!(user_id_mention_regex("bot"), "(?i)^@?bot(:)?:?");
    assert_eq!(display_name_mention_regex("the (he)bot"), "(?i)^the \\(he\\)bot:?");
    assert_eq!(
        display_name_mention_regex("\\.+*?()|[]{}^$#&-~"),
        "(?i)^\\\\\\.\\+\\*\\?\\(\\)\\|\\[\\]\\{\\}\\^\\$\\#\\&\\-\\~:?"
    );
}

#[test]
fn verdicts_of_the_matchers() {
    assert!(matched(Some(true)));
    assert!(!matched(Some(false)));
    assert!(!matched(None));
    assert!(mention_verdict(Some(true), None));
    assert!(mention_verdict(Some(false), Some(Some(true))));
    assert!(mention_verdict(None, Some(Some(true))));
    assert!(!mention_verdict(Some(false), Some(Some(false))));
    assert!(!mention_verdict(None, Some(None)));
    assert!(!mention_verdict(None, None));
    assert_eq!(cut_or_original(Some("cut".into()), "whole"), "cut");
    assert_eq!(cut_or_original(None, "whole"), "whole");
}
