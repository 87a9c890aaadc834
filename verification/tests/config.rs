use hebbot::config::{duplicate_message, Config};
use hebbot::project::Project;
use hebbot::reaction_type::ReactionType;
use hebbot::section::Section;

fn section(name: &str, emoji: &str, order: u32, reporters: &[&str]) -> Section {
    Section {
        emoji: emoji.into(),
        name: name.into(),
        title: format!("Title of {name}"),
        order,
        usual_reporters: reporters.iter().map(|r| r.to_string()).collect(),
    }
}

fn project(name: &str, emoji: &str, default_section: &str) -> Project {
    Project {
        emoji: emoji.into(),
        name: name.into(),
        title: format!("The {name}"),
        description: format!("About {name}"),
        website: format!("https://example.org/{name}"),
        default_section: default_section.into(),
    }
}

fn config(sections: Vec<Section>, projects: Vec<Project>) -> Config {
    Config {
        bot_user_id: "@hebbot:matrix.local".into(),
        reporting_room_id: "!reporting:matrix.local".into(),
        admin_room_id: "!admin:matrix.local".into(),
        notice_emoji: "\u{2b50}".into(),
        restrict_notice: true,
        verbs: vec!["reports".into(), "says".into(), "announces".into()],
        min_length: 30,
        ack_text: "Thanks {{user}}!".into(),
        update_config_command: "true".into(),
        editors: vec!["@editor:matrix.local".into()],
        sections,
        projects,
    }
}

fn sample() -> Config {
    config(
        vec![
            section("updates", "\u{1f4f0}", 1, &["@alice:matrix.local"]),
            section("spotlight", "\u{1f526}\u{fe0f}", 2, &["@alice:matrix.local", "@bob:matrix.local"]),
            section("misc", "\u{1f4e6}", 3, &[]),
        ],
        vec![project("widget", "\u{1f9e9}", "updates"), project("gadget", "\u{2699}\u{fe0f}", "misc")],
    )
}

#[test]
fn section_html_details() {
    let s = section("updates", "\u{1f4f0}", 12, &["@alice:matrix.local", "@bob:matrix.local"]);
    assert_eq!(
        s.html_details(),
        "<b>Section Details</b><br><b>Emoji</b>: \u{1f4f0} <br><b>Name</b>: Title of updates (updates) <br><b>Order</b>: 12 <br><b>Reporters</b>:  @alice:matrix.local, @bob:matrix.local"
    );
    let lonely = section("misc", "x", 0, &[]);
    assert_eq!(
        lonely.html_details(),
        "<b>Section Details</b><br><b>Emoji</b>: x <br><b>Name</b>: Title of misc (misc) <br><b>Order</b>: 0 <br><b>Reporters</b>:  "
    );
    let big = section("big", "x", u32::MAX, &["@one:matrix.local"]);
    assert_eq!(
        big.html_details(),
        "<b>Section Details</b><br><b>Emoji</b>: x <br><b>Name</b>: Title of big (big) <br><b>Order</b>: 4294967295 <br><b>Reporters</b>:  @one:matrix.local"
    );
}

#[test]
fn project_html_details() {
    let p = project("widget", "\u{1f9e9}", "updates");
    assert_eq!(
        p.html_details(),
        "<b>Project Details</b><br><b>Emoji</b>: \u{1f9e9} <br><b>Name</b>: The widget (widget) <br><b>Description</b>: About widget <br><b>Website</b>: https://example.org/widget <br><b>Default Section</b>: updates <br>"
    );
}

#[test]
fn lookups_by_name() {
    let c = sample();
    assert_eq!(c.section_by_name("spotlight").unwrap().order, 2);
    assert!(c.section_by_name("Spotlight").is_none());
    assert!(c.section_by_name("").is_none());
    assert_eq!(c.project_by_name("gadget").unwrap().default_section, "misc");
    assert!(c.project_by_name("updates").is_none());
}

#[test]
fn first_of_two_sections_with_one_name_wins() {
    let c = config(
        vec![section("twin", "a", 7, &[]), section("twin", "b", 8, &[])],
        vec![project("p", "c", "twin"), project("p", "d", "other")],
    );
    assert_eq!(c.section_by_name("twin").unwrap().order, 7);
    assert_eq!(c.project_by_name("p").unwrap().emoji, "c");
}

#[test]
fn reactions_are_classified() {
    let c = sample();
    assert!(matches!(c.reaction_type_by_emoji("\u{2b50}"), ReactionType::Notice));
    assert!(matches!(c.reaction_type_by_emoji("\u{2b50}\u{fe0f}"), ReactionType::Notice));
    match c.reaction_type_by_emoji("\u{1f526}") {
        ReactionType::Section(Some(s)) => assert_eq!(s.name, "spotlight"),
        other => panic!("unexpected {other:?}"),
    }
    match c.reaction_type_by_emoji("\u{2699}") {
        ReactionType::Project(Some(p)) => assert_eq!(p.name, "gadget"),
        other => panic!("unexpected {other:?}"),
    }
    assert!(matches!(c.reaction_type_by_emoji("\u{1f44d}"), ReactionType::Nothing));
    assert!(matches!(c.reaction_type_by_emoji(""), ReactionType::Nothing));
}

#[test]
fn notice_wins_over_section_wins_over_project() {
    let mut c = config(
        vec![section("s", "\u{2b50}", 1, &[]), section("t", "x", 2, &[])],
        vec![project("p", "\u{2b50}", "s"), project("q", "x", "s")],
    );
    assert!(matches!(c.reaction_type_by_emoji("\u{2b50}"), ReactionType::Notice));
    assert!(matches!(c.reaction_type_by_emoji("x"), ReactionType::Section(Some(_))));
    c.notice_emoji = "other".into();
    assert!(matches!(c.reaction_type_by_emoji("\u{2b50}"), ReactionType::Section(Some(_))));
}

#[test]
fn reaction_labels() {
    assert_eq!(ReactionType::Section(None).label(), "section");
    assert_eq!(ReactionType::Project(None).label(), "project");
    assert_eq!(ReactionType::Nothing.label(), "NONE");
    assert_eq!(ReactionType::Notice.label(), "notice");
    assert!(ReactionType::Nothing.is_nothing());
    assert!(!ReactionType::Notice.is_nothing());
    assert!(ReactionType::Notice.is_notice());
}

#[test]
fn sections_of_a_usual_reporter() {
    let c = sample();
    let names: Vec<String> = c
        .sections_by_usual_reporter("@alice:matrix.local")
        .iter()
        .map(|s| s.name.clone())
        .collect();
    assert_eq!(names, vec!["updates".to_string(), "spotlight".to_string()]);
    let names: Vec<String> =
        c.sections_by_usual_reporter("@bob:matrix.local").iter().map(|s| s.name.clone()).collect();
    assert_eq!(names, vec!["spotlight".to_string()]);
    assert!(c.sections_by_usual_reporter("@carol:matrix.local").is_empty());
}

#[test]
fn editors_are_recognised() {
    let c = sample();
    assert!(c.is_editor("@editor:matrix.local"));
    assert!(!c.is_editor("@EDITOR:matrix.local"));
    assert!(!c.is_editor("@alice:matrix.local"));
}

#[test]
fn random_verb_is_one_of_the_verbs() {
    let mut c = sample();
    for _ in 0..50 {
        let verb = c.random_verb().unwrap();
        assert!(c.verbs.contains(&verb));
    }
    assert_eq!(c.verb_at(1), "says");
    c.verbs = vec!["only".into()];
    assert_eq!(c.random_verb(), Some("only".to_string()));
    c.verbs.clear();
    assert_eq!(c.random_verb(), None);
}

#[test]
fn a_sound_configuration_has_no_findings() {
    let r = Config::validate_config(sample());
    assert!(r.warnings.is_empty());
    assert!(r.notes.is_empty());
    assert_eq!(r.config.sections.len(), 3);
    assert_eq!(r.config.bot_user_id, "@hebbot:matrix.local");
}

#[test]
fn an_empty_configuration_is_warned_about() {
    let mut c = config(vec![], vec![]);
    c.notice_emoji = String::new();
    c.editors.clear();
    let r = Config::validate_config(c);
    assert_eq!(
        r.warnings,
        vec![
            "No projects are configured in the configuration file.".to_string(),
            "No editor is specified, the bot cannot be used without an editor".to_string(),
            "At least one emoji isn\u{2019}t configured. The bot will not work properly."
                .to_string(),
        ]
    );
    assert_eq!(r.notes, vec!["No sections are configured in the configuration file.".to_string()]);
}

#[test]
fn sections_and_projects_are_checked_one_by_one() {
    let c = config(
        vec![section("", "a", 1, &[]), section("bare", "", 2, &[]), section("fine", "f", 3, &[])],
        vec![
            project("", "p", "fine"),
            project("mute", "", "fine"),
            project("homeless", "h", ""),
            project("lost", "", "nowhere"),
            project("good", "g", "bare"),
        ],
    );
    let r = Config::validate_config(c);
    assert_eq!(
        r.warnings,
        vec![
            "At least one emoji is duplicated, this can lead to undefined behavior: [\"\"] "
                .to_string(),
            "At least one name is duplicated, this can lead to undefined behavior: [\"\"] "
                .to_string(),
        ]
        .into_iter()
        .rev()
        .chain(vec![
            "Project \u{201c}lost\u{201d} has an unknown default section \u{201c}nowhere\u{201d}, this can lead to undefined behavior.".to_string(),
            "Project \u{201c}lost\u{201d} doesn\u{2019}t have an emoji, this can lead to undefined behavior.".to_string(),
            "Project \u{201c}homeless\u{201d} doesn\u{2019}t have a default section, this can lead to undefined behavior.".to_string(),
            "Project \u{201c}mute\u{201d} doesn\u{2019}t have an emoji, this can lead to undefined behavior.".to_string(),
            "Project without name found, this can lead to undefined behavior.".to_string(),
            "Section \u{201c}bare\u{201d} doesn\u{2019}t have an emoji, this can lead to undefined behavior.".to_string(),
            "Section without name found, this can lead to undefined behavior.".to_string(),
        ])
        .collect::<Vec<String>>()
    );
    assert!(r.notes.is_empty());
}

#[test]
fn duplicates_are_listed_sorted_and_once() {
    let c = config(
        vec![section("zeta", "z", 1, &[]), section("alpha", "q", 2, &[]), section("zeta", "z", 3, &[])],
        vec![
            project("alpha", "a", "zeta"),
            project("beta", "z", "zeta"),
            project("alpha", "q", "alpha"),
        ],
    );
    let r = Config::validate_config(c);
    assert_eq!(
        r.warnings,
        vec![
            "At least one name is duplicated, this can lead to undefined behavior: [\"alpha\", \"zeta\"] ".to_string(),
            "At least one emoji is duplicated, this can lead to undefined behavior: [\"q\", \"z\"] ".to_string(),
        ]
    );
}

#[test]
fn duplicate_warnings_are_worded() {
    assert_eq!(
        duplicate_message("emoji", "[\"a\"]"),
        "At least one emoji is duplicated, this can lead to undefined behavior: [\"a\"] "
    );
}

#[test]
fn duplicates_are_shown_with_their_escapes() {
    let c = config(
        vec![section("a\"b", "\u{1f4f0}\u{fe0f}", 1, &[]), section("a\"b", "\u{1f4f0}\u{fe0f}", 2, &[])],
        vec![project("p", "x", "a\"b")],
    );
    let r = Config::validate_config(c);
    assert_eq!(
        r.warnings,
        vec![
            format!(
                "At least one name is duplicated, this can lead to undefined behavior: {:?} ",
                vec!["a\"b"]
            ),
            format!(
                "At least one emoji is duplicated, this can lead to undefined behavior: {:?} ",
                vec!["\u{1f4f0}\u{fe0f}"]
            ),
        ]
    );
    assert!(r.warnings[0].contains("a\\\"b"));
}
