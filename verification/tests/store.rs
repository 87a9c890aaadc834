use hebbot::error::Error;
use hebbot::news::News;
use hebbot::news_store::NewsStore;

fn store() -> NewsStore {
    let mut store = NewsStore::new();
    for (id, reporter) in [("$1", "@alice:matrix.local"), ("$2", "@bob:matrix.local")] {
        store
            .add_news(News::new_at(id.into(), reporter.into(), "Name".into(), "text".into(), 1))
            .unwrap();
    }
    store
}

#[test]
fn update_news_replaces_the_text() {
    let mut s = store();
    let updated = s.update_news("$2", "new text".into()).unwrap();
    assert_eq!(updated.event_id, "$2");
    assert_eq!(updated.message(), "new text");
    assert_eq!(s.news_at(1).message(), "new text");
    assert_eq!(s.news_at(0).message(), "text");
    assert!(matches!(s.update_news("$9", "x".into()), Err(Error::NotFound)));
}

#[test]
fn sections_and_projects_are_added_through_the_store() {
    let mut s = store();
    let n = s.add_news_section("$1", "$r1", "updates".into()).unwrap();
    assert_eq!(n.section_names(), vec!["updates".to_string()]);
    let n = s.add_news_project("$1", "$r2", "widget".into()).unwrap();
    assert_eq!(n.project_names(), vec!["widget".to_string()]);
    assert_eq!(n.section_names(), vec!["updates".to_string()]);
    assert!(s.news_at(0).is_assigned());
    assert!(!s.news_at(1).is_assigned());
    assert!(matches!(s.add_news_section("$9", "$r3", "updates".into()), Err(Error::NotFound)));
    assert!(matches!(s.add_news_project("$9", "$r3", "widget".into()), Err(Error::NotFound)));
    assert_eq!(s.get_news().len(), 2);
}

#[test]
fn sections_and_projects_are_removed_by_reaction() {
    let mut s = store();
    s.add_news_section("$2", "$r1", "updates".into()).unwrap();
    s.add_news_project("$2", "$r2", "widget".into()).unwrap();
    // The reaction of a section is no project reaction.
    assert!(matches!(s.remove_news_project("$r1"), Err(Error::NotFound)));
    assert!(matches!(s.remove_news_section("$r2"), Err(Error::NotFound)));
    let n = s.remove_news_section("$r1").unwrap();
    assert_eq!(n.event_id, "$2");
    assert!(n.section_names().is_empty());
    assert!(n.is_assigned());
    let n = s.remove_news_project("$r2").unwrap();
    assert!(!n.is_assigned());
    assert!(!s.news_at(1).is_assigned());
    assert!(matches!(s.remove_news_section("$r1"), Err(Error::NotFound)));
}
