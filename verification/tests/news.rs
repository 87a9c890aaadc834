use hebbot::error::Error;
use hebbot::news::News;
use hebbot::news_store::NewsStore;
use hebbot::reaction_type::ReactionType;

fn news(id: &str, reporter: &str, message: &str, timestamp: i64) -> News {
    News::new_at(id.into(), reporter.into(), format!("{reporter} (name)"), message.into(), timestamp)
}

#[test]
fn fresh_news_is_not_assigned() {
    let n = news("$1", "@alice:matrix.local", "hello", 5);
    assert!(!n.is_assigned());
    assert_eq!(n.event_id, "$1");
    assert_eq!(n.reporter_id, "@alice:matrix.local");
    assert_eq!(n.reporter_display_name, "@alice:matrix.local (name)");
    assert_eq!(n.timestamp, 5);
    assert_eq!(n.message(), "hello");
    assert!(n.section_names().is_empty());
    assert!(n.project_names().is_empty());
    assert!(n.images().is_empty());
    assert!(n.videos().is_empty());
}

#[test]
fn new_reads_the_clock() {
    let n = News::new("$1".into(), "@alice:matrix.local".into(), "Alice".into(), "hello".into());
    // Later than the first of January 2020, in milliseconds.
    assert!(n.timestamp > 1_577_836_800_000);
    assert_eq!(n.message(), "hello");
    assert!(!n.is_assigned());
}

#[test]
fn tags_assign_and_untagging_unassigns() {
    let mut n = news("$1", "@alice:matrix.local", "hello", 5);
    n.add_section_name("$r1".into(), "updates".into());
    assert!(n.is_assigned());
    assert!(matches!(n.remove_reaction_id("$r1"), ReactionType::Section(None)));
    assert!(!n.is_assigned());

    n.add_project_name("$r2".into(), "widget".into());
    assert!(n.is_assigned());
    assert!(matches!(n.remove_reaction_id("$r2"), ReactionType::Project(None)));
    assert!(!n.is_assigned());
}

#[test]
fn same_tag_twice_counts_once() {
    let mut n = news("$1", "@alice:matrix.local", "hello", 5);
    n.add_section_name("$r1".into(), "updates".into());
    n.add_section_name("$r1".into(), "updates".into());
    assert_eq!(n.section_names(), vec!["updates".to_string()]);
    assert_eq!(n.section_names.len(), 1);
    // One removal is enough.
    assert!(matches!(n.remove_reaction_id("$r1"), ReactionType::Section(None)));
    assert!(n.section_names().is_empty());
}

#[test]
fn a_reaction_can_change_its_tag() {
    let mut n = news("$1", "@alice:matrix.local", "hello", 5);
    n.add_section_name("$r1".into(), "updates".into());
    n.add_section_name("$r1".into(), "spotlight".into());
    assert_eq!(n.section_names(), vec!["spotlight".to_string()]);
}

#[test]
fn two_reactions_with_one_name_keep_two_entries() {
    let mut n = news("$1", "@alice:matrix.local", "hello", 5);
    n.add_project_name("$r1".into(), "widget".into());
    n.add_project_name("$r2".into(), "widget".into());
    assert_eq!(n.project_names.len(), 2);
    assert_eq!(n.project_names(), vec!["widget".to_string()]);
    // Removing one leaves the other.
    assert!(matches!(n.remove_reaction_id("$r1"), ReactionType::Project(None)));
    assert_eq!(n.project_names(), vec!["widget".to_string()]);
    assert!(n.is_assigned());
}

#[test]
fn names_are_sorted_and_distinct() {
    let mut n = news("$1", "@alice:matrix.local", "hello", 5);
    n.add_section_name("$r1".into(), "zebra".into());
    n.add_section_name("$r2".into(), "apple".into());
    n.add_section_name("$r3".into(), "mango".into());
    n.add_section_name("$r4".into(), "apple".into());
    n.add_section_name("$r5".into(), "app".into());
    n.add_section_name("$r6".into(), "Zebra".into());
    n.add_section_name("$r7".into(), "\u{e4}pfel".into());
    assert_eq!(
        n.section_names(),
        vec![
            "Zebra".to_string(),
            "app".to_string(),
            "apple".to_string(),
            "mango".to_string(),
            "zebra".to_string(),
            "\u{e4}pfel".to_string(),
        ]
    );
}

#[test]
fn removing_an_unknown_reaction_changes_nothing() {
    let mut n = news("$1", "@alice:matrix.local", "hello", 5);
    n.add_section_name("$r1".into(), "updates".into());
    n.add_project_name("$r2".into(), "widget".into());
    n.add_image("$r3".into(), "$img".into(), "a.png".into(), "mxc://matrix.local/abc".into());
    assert!(!n.relates_to_reaction_id("$nope"));
    assert!(matches!(n.remove_reaction_id("$nope"), ReactionType::Nothing));
    assert_eq!(n.section_names(), vec!["updates".to_string()]);
    assert_eq!(n.project_names(), vec!["widget".to_string()]);
    assert_eq!(n.images().len(), 1);
    assert!(n.remove_file("$nope").is_none());
    assert_eq!(n.images().len(), 1);
}

#[test]
fn relates_to_any_of_the_four_maps() {
    let mut n = news("$1", "@alice:matrix.local", "hello", 5);
    n.add_section_name("$r1".into(), "updates".into());
    n.add_project_name("$r2".into(), "widget".into());
    n.add_image("$r3".into(), "$img".into(), "a.png".into(), "mxc://matrix.local/abc".into());
    n.add_video("$r4".into(), "$vid".into(), "a.webm".into(), "mxc://matrix.local/def".into());
    assert!(n.relates_to_reaction_id("$r1"));
    assert!(n.relates_to_reaction_id("$r2"));
    assert!(n.relates_to_reaction_id("$r3"));
    assert!(n.relates_to_reaction_id("$r4"));
    assert!(!n.relates_to_reaction_id("$1"));
    assert!(!n.relates_to_reaction_id("$img"));
}

#[test]
fn media_reactions_are_taken_back_as_notice() {
    let mut n = news("$1", "@alice:matrix.local", "hello", 5);
    n.add_image("$r3".into(), "$img".into(), "a.png".into(), "mxc://matrix.local/abc".into());
    n.add_video("$r4".into(), "$vid".into(), "a.webm".into(), "mxc://matrix.local/def".into());
    assert!(matches!(n.remove_reaction_id("$r3"), ReactionType::Notice));
    assert!(n.images().is_empty());
    assert_eq!(n.videos().len(), 1);
    let file = n.remove_file("$r4").unwrap();
    assert_eq!(file.event_id, "$vid");
    assert_eq!(file.filename, "a.webm");
    assert_eq!(file.uri, "mxc://matrix.local/def");
    assert!(n.videos().is_empty());
}

#[test]
fn images_are_listed_once_per_locator() {
    let mut n = news("$1", "@alice:matrix.local", "hello", 5);
    n.add_image("$r1".into(), "$img1".into(), "first.png".into(), "mxc://matrix.local/abc".into());
    n.add_image("$r2".into(), "$img2".into(), "other.png".into(), "mxc://matrix.local/xyz".into());
    n.add_image("$r3".into(), "$img1".into(), "renamed.png".into(), "mxc://matrix.local/abc".into());
    assert_eq!(
        n.images(),
        vec![
            ("abc_renamed.png".to_string(), "mxc://matrix.local/abc".to_string()),
            ("xyz_other.png".to_string(), "mxc://matrix.local/xyz".to_string()),
        ]
    );
}

#[test]
fn a_locator_without_media_id_gives_a_bare_name() {
    let mut n = news("$1", "@alice:matrix.local", "hello", 5);
    n.add_video("$r1".into(), "$vid".into(), "clip.webm".into(), "https://example.org/clip".into());
    assert_eq!(
        n.videos(),
        vec![("_clip.webm".to_string(), "https://example.org/clip".to_string())]
    );
}

#[test]
fn files_of_a_message_are_removed_together() {
    let mut n = news("$1", "@alice:matrix.local", "hello", 5);
    n.add_image("$r1".into(), "$img1".into(), "a.png".into(), "mxc://matrix.local/a".into());
    n.add_image("$r2".into(), "$img2".into(), "b.png".into(), "mxc://matrix.local/b".into());
    n.add_image("$r3".into(), "$img1".into(), "a.png".into(), "mxc://matrix.local/a".into());
    n.add_video("$r4".into(), "$img1".into(), "a.webm".into(), "mxc://matrix.local/v".into());
    assert!(n.has_file_of("$img1"));
    assert!(!n.has_file_of("$r1"));
    assert!(n.remove_files_of("$img1"));
    assert_eq!(n.images(), vec![("b_b.png".to_string(), "mxc://matrix.local/b".to_string())]);
    assert!(n.videos().is_empty());
    assert!(!n.remove_files_of("$img1"));
    assert!(n.relates_to_reaction_id("$r2"));
    assert!(!n.relates_to_reaction_id("$r1"));
}

#[test]
fn summary_keeps_short_messages() {
    let n = news("$1", "@alice:matrix.local", "short text", 5);
    assert_eq!(n.message_summary(), "short text");
    // Exactly 50 characters: kept.
    let fifty = "a".repeat(50);
    let n = news("$1", "@alice:matrix.local", &fifty, 5);
    assert_eq!(n.message_summary(), fifty);
    let n = news("$1", "@alice:matrix.local", "", 5);
    assert_eq!(n.message_summary(), "");
}

#[test]
fn summary_cuts_long_messages_after_fifty_characters() {
    let long = "0123456789".repeat(7);
    let n = news("$1", "@alice:matrix.local", &long, 5);
    assert_eq!(n.message_summary(), format!("{} \u{2026}", "0123456789".repeat(5)));
    // Fifty-one characters are enough.
    let n = news("$1", "@alice:matrix.local", &"b".repeat(51), 5);
    assert_eq!(n.message_summary(), format!("{} \u{2026}", "b".repeat(50)));
}

#[test]
fn summary_counts_characters_not_bytes() {
    // 31 characters of two bytes each: more than 60 bytes, no more than 50
    // characters. The text is not cut, so it carries no marker.
    let accents = "\u{e9}".repeat(31);
    let n = news("$1", "@alice:matrix.local", &accents, 5);
    assert_eq!(n.message_summary(), accents);
    // 50 characters of three bytes each: still as they are.
    let wide = "\u{20ac}".repeat(50);
    let n = news("$1", "@alice:matrix.local", &wide, 5);
    assert_eq!(n.message_summary(), wide);
}

#[test]
fn summary_never_splits_a_character() {
    // 55 characters of four bytes each are cut after 50 of them.
    let wider = "\u{1f600}".repeat(55);
    let n = news("$1", "@alice:matrix.local", &wider, 5);
    assert_eq!(n.message_summary(), format!("{} \u{2026}", "\u{1f600}".repeat(50)));
    // A character of several bytes at the cut stays whole.
    let mixed = format!("{}\u{20ac}\u{20ac}", "a".repeat(49));
    let n = news("$1", "@alice:matrix.local", &mixed, 5);
    assert_eq!(n.message_summary(), format!("{}\u{20ac} \u{2026}", "a".repeat(49)));
}

#[test]
fn set_message_replaces_the_text_only() {
    let mut n = news("$1", "@alice:matrix.local", "hello", 5);
    n.add_section_name("$r1".into(), "updates".into());
    n.set_message("bye".into());
    assert_eq!(n.message(), "bye");
    assert_eq!(n.section_names(), vec!["updates".to_string()]);
    assert_eq!(n.event_id, "$1");
}

#[test]
fn clone_copies_everything() {
    let mut n = news("$1", "@alice:matrix.local", "hello", 5);
    n.add_section_name("$r1".into(), "updates".into());
    n.add_project_name("$r2".into(), "widget".into());
    n.add_image("$r3".into(), "$img".into(), "a.png".into(), "mxc://matrix.local/abc".into());
    n.add_video("$r4".into(), "$vid".into(), "a.webm".into(), "mxc://matrix.local/def".into());
    let c = n.clone();
    assert_eq!(c.event_id, n.event_id);
    assert_eq!(c.timestamp, n.timestamp);
    assert_eq!(c.message(), n.message());
    assert_eq!(c.section_names(), n.section_names());
    assert_eq!(c.project_names(), n.project_names());
    assert_eq!(c.images(), n.images());
    assert_eq!(c.videos(), n.videos());
    assert!(c.relates_to_reaction_id("$r4"));
}

#[test]
fn store_rejects_duplicates() {
    let mut store = NewsStore::new();
    assert_eq!(store.add_news(news("$1", "@alice:matrix.local", "one", 1)), Ok(()));
    assert_eq!(
        store.add_news(news("$1", "@bob:matrix.local", "other", 2)),
        Err(Error::DuplicateId)
    );
    assert_eq!(store.len(), 1);
    assert_eq!(store.news_by_message_id("$1").unwrap().message(), "one");
    assert_eq!(Error::DuplicateId.message(), "a news entry with this event id exists already");
}

#[test]
fn store_removes_by_message_id() {
    let mut store = NewsStore::new();
    store.add_news(news("$1", "@alice:matrix.local", "one", 1)).unwrap();
    store.add_news(news("$2", "@bob:matrix.local", "two", 2)).unwrap();
    store.add_news(news("$3", "@carol:matrix.local", "three", 3)).unwrap();
    let removed = store.remove_news("$2").unwrap();
    assert_eq!(removed.message(), "two");
    assert_eq!(store.len(), 2);
    assert!(store.news_by_message_id("$2").is_none());
    let left: Vec<String> = store.news().iter().map(|n| n.event_id.clone()).collect();
    assert_eq!(left, vec!["$1".to_string(), "$3".to_string()]);
    assert!(matches!(store.remove_news("$2"), Err(Error::NotFound)));
    assert_eq!(store.len(), 2);
    assert_eq!(Error::NotFound.message(), "no news entry with this event id exists");
}

#[test]
fn store_replaces_in_place() {
    let mut store = NewsStore::new();
    store.add_news(news("$1", "@alice:matrix.local", "one", 1)).unwrap();
    store.add_news(news("$2", "@bob:matrix.local", "two", 2)).unwrap();
    assert_eq!(store.replace_news(news("$1", "@alice:matrix.local", "uno", 1)), Ok(()));
    assert_eq!(store.news_at(0).message(), "uno");
    assert_eq!(store.news_at(1).message(), "two");
    assert_eq!(
        store.replace_news(news("$9", "@alice:matrix.local", "nine", 1)),
        Err(Error::NotFound)
    );
    assert_eq!(store.len(), 2);
    store.replace_at(1, news("$2", "@bob:matrix.local", "dos", 2));
    assert_eq!(store.news_at(1).message(), "dos");
}

#[test]
fn store_finds_news_by_reaction() {
    let mut store = NewsStore::new();
    let mut a = news("$1", "@alice:matrix.local", "one", 1);
    a.add_section_name("$r1".into(), "updates".into());
    let mut b = news("$2", "@bob:matrix.local", "two", 2);
    b.add_video("$r2".into(), "$vid".into(), "a.webm".into(), "mxc://matrix.local/def".into());
    store.add_news(a).unwrap();
    store.add_news(b).unwrap();
    assert_eq!(store.news_by_reaction_id("$r1").unwrap().event_id, "$1");
    assert_eq!(store.news_by_reaction_id("$r2").unwrap().event_id, "$2");
    assert!(store.news_by_reaction_id("$1").is_none());
    assert_eq!(store.position_by_reaction_id("$r2"), Some(1));
    assert_eq!(store.position_by_file_id("$vid"), Some(1));
    assert_eq!(store.position_by_file_id("$r2"), None);
    assert_eq!(store.position("$2"), Some(1));
    assert_eq!(store.position("$r2"), None);
}

#[test]
fn nearest_news_of_the_reporter_is_found() {
    let mut store = NewsStore::new();
    store.add_news(news("$1", "@alice:matrix.local", "early", 1_000)).unwrap();
    store.add_news(news("$2", "@bob:matrix.local", "bob", 5_000)).unwrap();
    store.add_news(news("$3", "@alice:matrix.local", "late", 9_000)).unwrap();
    assert_eq!(store.find_related_news("@alice:matrix.local", 4_000).unwrap().event_id, "$1");
    assert_eq!(store.find_related_news("@alice:matrix.local", 6_000).unwrap().event_id, "$3");
    // Before the first and after the last.
    assert_eq!(store.find_related_news("@alice:matrix.local", -50).unwrap().event_id, "$1");
    assert_eq!(store.find_related_news("@alice:matrix.local", 50_000).unwrap().event_id, "$3");
    // Bob's entry is nearer in time but is not Alice's.
    assert_eq!(store.find_related_news("@alice:matrix.local", 5_000).unwrap().event_id, "$1");
    assert_eq!(store.find_related_news("@bob:matrix.local", 0).unwrap().event_id, "$2");
    assert!(store.find_related_news("@carol:matrix.local", 5_000).is_none());
    assert_eq!(store.position_related("@alice:matrix.local", 6_000), Some(2));
}

#[test]
fn equally_near_news_are_decided_by_age_in_the_store() {
    let mut store = NewsStore::new();
    store.add_news(news("$late", "@alice:matrix.local", "late", 9_000)).unwrap();
    store.add_news(news("$early", "@alice:matrix.local", "early", 1_000)).unwrap();
    for _ in 0..3 {
        assert_eq!(
            store.find_related_news("@alice:matrix.local", 5_000).unwrap().event_id,
            "$late"
        );
    }
}

#[test]
fn nearest_news_copes_with_extreme_timestamps() {
    let mut store = NewsStore::new();
    store.add_news(news("$min", "@alice:matrix.local", "min", i64::MIN)).unwrap();
    store.add_news(news("$max", "@alice:matrix.local", "max", i64::MAX)).unwrap();
    assert_eq!(store.find_related_news("@alice:matrix.local", i64::MAX).unwrap().event_id, "$max");
    assert_eq!(store.find_related_news("@alice:matrix.local", i64::MIN).unwrap().event_id, "$min");
    assert_eq!(store.find_related_news("@alice:matrix.local", -1).unwrap().event_id, "$min");
    assert_eq!(store.find_related_news("@alice:matrix.local", 0).unwrap().event_id, "$max");
}

#[test]
fn clear_empties_the_store() {
    let mut store = NewsStore::new();
    store.add_news(news("$1", "@alice:matrix.local", "one", 1)).unwrap();
    store.clear_news();
    assert_eq!(store.len(), 0);
    assert!(store.news().is_empty());
    assert_eq!(store.add_news(news("$1", "@alice:matrix.local", "one", 1)), Ok(()));
}

#[test]
fn a_store_is_rebuilt_from_its_snapshot() {
    let mut store = NewsStore::new();
    let mut a = news("$1", "@alice:matrix.local", "one", 1);
    a.add_section_name("$r1".into(), "updates".into());
    a.add_image("$r3".into(), "$img".into(), "a.png".into(), "mxc://matrix.local/abc".into());
    store.add_news(a).unwrap();
    store.add_news(news("$2", "@bob:matrix.local", "two", 2)).unwrap();
    let again = NewsStore::from_news(store.news());
    assert_eq!(again.len(), 2);
    for i in 0..2 {
        let (x, y) = (store.news_at(i), again.news_at(i));
        assert_eq!(x.event_id, y.event_id);
        assert_eq!(x.reporter_id, y.reporter_id);
        assert_eq!(x.reporter_display_name, y.reporter_display_name);
        assert_eq!(x.timestamp, y.timestamp);
        assert_eq!(x.message(), y.message());
        assert_eq!(x.section_names(), y.section_names());
        assert_eq!(x.project_names(), y.project_names());
        assert_eq!(x.images(), y.images());
        assert_eq!(x.videos(), y.videos());
    }
}

#[test]
fn rebuilding_keeps_the_later_of_two_reports_with_one_id() {
    let list = vec![
        news("$1", "@alice:matrix.local", "one", 1),
        news("$2", "@bob:matrix.local", "two", 2),
        news("$1", "@alice:matrix.local", "uno", 3),
    ];
    let store = NewsStore::from_news(list);
    assert_eq!(store.len(), 2);
    assert_eq!(store.news_at(0).message(), "uno");
    assert_eq!(store.news_at(1).message(), "two");
}

#[test]
fn one_tag_of_each_kind() {
    let mut n = news("$1", "@alice:matrix.local", "hello", 5);
    assert!(!n.has_one_tag_of_each_kind());
    n.add_section_name("$r1".into(), "updates".into());
    assert!(!n.has_one_tag_of_each_kind());
    n.add_project_name("$r2".into(), "widget".into());
    assert!(n.has_one_tag_of_each_kind());
    n.add_project_name("$r3".into(), "widget".into());
    assert!(n.has_one_tag_of_each_kind());
    n.add_project_name("$r4".into(), "gadget".into());
    assert!(!n.has_one_tag_of_each_kind());
}

#[test]
fn a_locator_that_is_too_long_has_no_media_id() {
    let mut n = news("$1", "@alice:matrix.local", "hello", 5);
    // 250 letters for the server name: the locator takes more than 255 bytes.
    let long = format!("mxc://{}/abc", "a".repeat(250));
    n.add_image("$r1".into(), "$img".into(), "a.png".into(), long.clone());
    assert_eq!(n.images(), vec![("_a.png".to_string(), long)]);
    // 255 bytes are looked at: six for the scheme, 245 for the server, the
    // slash, and three for the media id.
    let fits = format!("mxc://{}/abc", "a".repeat(245));
    assert_eq!(fits.len(), 255);
    n.add_video("$r2".into(), "$vid".into(), "a.webm".into(), fits.clone());
    assert_eq!(n.videos(), vec![("abc_a.webm".to_string(), fits)]);
}
