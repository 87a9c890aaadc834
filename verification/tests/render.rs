use hebbot::config::Config;
use hebbot::news::News;
use hebbot::project::Project;
use hebbot::render::{can_render, knows_tags, message_link, render, try_render, RenderNews};
use hebbot::section::Section;

const ROOM: &str = "!reporting:matrix.local";

fn section(name: &str, order: u32) -> Section {
    Section {
        emoji: format!("e-{name}"),
        name: name.into(),
        title: format!("Title of {name}"),
        order,
        usual_reporters: vec![],
    }
}

fn project(name: &str, default_section: &str) -> Project {
    Project {
        emoji: format!("e-{name}"),
        name: name.into(),
        title: format!("The {name}"),
        description: "About {{project}}".into(),
        website: format!("https://example.org/{name}"),
        default_section: default_section.into(),
    }
}

fn config() -> Config {
    Config {
        bot_user_id: "@hebbot:matrix.local".into(),
        reporting_room_id: ROOM.into(),
        admin_room_id: "!admin:matrix.local".into(),
        notice_emoji: "\u{2b50}".into(),
        restrict_notice: true,
        verbs: vec!["reports".into()],
        min_length: 30,
        ack_text: String::new(),
        update_config_command: "true".into(),
        editors: vec!["@editor:matrix.local".into()],
        sections: vec![section("spotlight", 20), section("updates", 3), section("misc", 100)],
        projects: vec![project("P", "updates"), project("Q", "misc")],
    }
}

fn news(id: &str, reporter: &str, message: &str) -> News {
    News::new_at(id.into(), format!("@{reporter}:matrix.local"), reporter.into(), message.into(), 1)
}

fn link(event_id: &str) -> String {
    format!("<a href=\"https://matrix.to/#/{ROOM}/{event_id}\">open message</a>")
}

#[test]
fn message_links() {
    assert_eq!(message_link(&config(), "$abc"), link("$abc"));
}

#[test]
fn nothing_to_render() {
    let r = render(&vec![], &config());
    assert!(r.sections.is_empty());
    assert!(r.projects.is_empty());
    assert!(r.warnings.is_empty());
    assert_eq!(
        r.notes,
        vec!["Rendered markdown is including 0 news, 0 image(s) and 0 video(s)!".to_string()]
    );
    assert!(r.images.is_empty());
    assert!(r.videos.is_empty());
}

#[test]
fn unassigned_news_are_left_out_and_counted() {
    let mut tagged = news("$1", "alice", "one");
    tagged.add_section_name("$r1".into(), "updates".into());
    let list = vec![news("$0", "bob", "zero"), tagged, news("$2", "carol", "two")];
    let r = render(&list, &config());
    assert_eq!(
        r.warnings,
        vec!["2 news are not included because of project/section assignment is missing. Use !status command to list them.".to_string()]
    );
    assert_eq!(
        r.notes,
        vec![
            "Rendered markdown is including 1 news, 0 image(s) and 0 video(s)!".to_string(),
            format!("[{}] News entry by alice doesn\u{2019}t have project information, it\u{2019}ll appear directly in the section without any project description.", link("$1")),
        ]
    );
    assert_eq!(r.sections.len(), 1);
    assert_eq!(r.sections[0].section.name, "updates");
    assert!(r.sections[0].projects.is_empty());
    assert_eq!(r.sections[0].news.len(), 1);
    assert_eq!(r.sections[0].news[0].message, "one");
    assert_eq!(r.sections[0].news[0].reporter_id, "@alice:matrix.local");
    assert_eq!(r.sections[0].news[0].reporter_display_name, "alice");
    assert_eq!(r.sections[0].news[0].timestamp, 1);
    assert!(r.projects.is_empty());
}

#[test]
fn another_section_overrides_the_default() {
    let mut first = news("$1", "alice", "in the default section");
    first.add_project_name("$r1".into(), "P".into());
    let mut second = news("$2", "bob", "in the spotlight");
    second.add_project_name("$r2".into(), "P".into());
    second.add_section_name("$r3".into(), "spotlight".into());
    let r = render(&vec![first, second], &config());

    assert_eq!(r.sections.len(), 2);
    // Sections come by ascending order.
    assert_eq!(r.sections[0].section.name, "updates");
    assert_eq!(r.sections[1].section.name, "spotlight");

    let updates = &r.sections[0];
    assert!(updates.news.is_empty());
    assert_eq!(updates.projects.len(), 1);
    assert_eq!(updates.projects[0].project.name, "P");
    assert_eq!(updates.projects[0].overwritten_section, None);
    assert_eq!(updates.projects[0].news.len(), 1);
    assert_eq!(updates.projects[0].news[0].message, "in the default section");

    let spotlight = &r.sections[1];
    assert!(spotlight.news.is_empty());
    assert_eq!(spotlight.projects.len(), 1);
    assert_eq!(spotlight.projects[0].project.name, "P");
    assert_eq!(spotlight.projects[0].overwritten_section, Some("spotlight".to_string()));
    assert_eq!(spotlight.projects[0].news.len(), 1);
    assert_eq!(spotlight.projects[0].news[0].message, "in the spotlight");

    assert_eq!(
        r.notes,
        vec![
            "Rendered markdown is including 2 news, 0 image(s) and 0 video(s)!".to_string(),
            format!("[{}] News entry by bob gets added to the \u{201c}spotlight\u{201d} section, which is not the default section for this project.", link("$2")),
        ]
    );
    assert!(r.warnings.is_empty());
    assert_eq!(r.projects, vec!["P".to_string()]);
}

#[test]
fn the_default_section_as_a_tag_changes_nothing() {
    let mut n = news("$1", "alice", "text");
    n.add_project_name("$r1".into(), "P".into());
    n.add_section_name("$r2".into(), "updates".into());
    let r = render(&vec![n], &config());
    assert_eq!(r.sections.len(), 1);
    assert_eq!(r.sections[0].section.name, "updates");
    assert_eq!(r.sections[0].projects[0].overwritten_section, None);
    assert!(r.sections[0].news.is_empty());
    assert_eq!(r.notes.len(), 1);
    assert!(r.warnings.is_empty());
}

#[test]
fn several_tags_make_several_appearances() {
    let mut n = news("$1", "alice", "text");
    n.add_section_name("$r1".into(), "updates".into());
    n.add_section_name("$r2".into(), "misc".into());
    n.add_project_name("$r3".into(), "P".into());
    n.add_project_name("$r4".into(), "Q".into());
    let r = render(&vec![n], &config());
    assert_eq!(
        r.warnings,
        vec![format!("[{}] News entry by alice has multiple project or section information set, it\u{2019}ll appear multiple times. This is probably not wanted!", link("$1"))]
    );
    // P: the default section is tagged, "misc" overrides. Q: "updates" overrides.
    assert_eq!(
        r.notes,
        vec![
            "Rendered markdown is including 1 news, 0 image(s) and 0 video(s)!".to_string(),
            format!("[{}] News entry by alice gets added to the \u{201c}misc\u{201d} section, which is not the default section for this project.", link("$1")),
            format!("[{}] News entry by alice gets added to the \u{201c}updates\u{201d} section, which is not the default section for this project.", link("$1")),
        ]
    );
    assert_eq!(r.projects, vec!["P".to_string(), "Q".to_string()]);
    assert_eq!(r.sections.len(), 2);
    assert_eq!(r.sections[0].section.name, "updates");
    assert_eq!(r.sections[0].projects.len(), 1);
    assert_eq!(r.sections[0].projects[0].project.name, "Q");
    assert_eq!(r.sections[0].projects[0].overwritten_section, Some("updates".to_string()));
    assert_eq!(r.sections[1].section.name, "misc");
    assert_eq!(r.sections[1].projects.len(), 1);
    assert_eq!(r.sections[1].projects[0].project.name, "P");
    assert_eq!(r.sections[1].projects[0].overwritten_section, Some("misc".to_string()));
}

#[test]
fn news_and_projects_of_a_section_come_in_the_order_of_the_news() {
    let mut a = news("$a", "alice", "a");
    a.add_project_name("$r1".into(), "Q".into());
    let mut b = news("$b", "bob", "b");
    b.add_section_name("$r2".into(), "misc".into());
    let mut c = news("$c", "carol", "c");
    c.add_project_name("$r3".into(), "P".into());
    c.add_section_name("$r4".into(), "misc".into());
    let mut d = news("$d", "dave", "d");
    d.add_project_name("$r5".into(), "Q".into());
    let mut e = news("$e", "erin", "e");
    e.add_section_name("$r6".into(), "misc".into());
    let r = render(&vec![a, b, c, d, e], &config());
    assert_eq!(r.sections.len(), 1);
    let misc = &r.sections[0];
    let direct: Vec<&str> = misc.news.iter().map(|n| n.message.as_str()).collect();
    assert_eq!(direct, vec!["b", "e"]);
    assert_eq!(misc.projects.len(), 2);
    assert_eq!(misc.projects[0].project.name, "Q");
    let of_q: Vec<&str> = misc.projects[0].news.iter().map(|n| n.message.as_str()).collect();
    assert_eq!(of_q, vec!["a", "d"]);
    assert_eq!(misc.projects[1].project.name, "P");
    assert_eq!(misc.projects[1].overwritten_section, Some("misc".to_string()));
}

#[test]
fn sections_are_sorted_by_order_and_ties_keep_their_place() {
    let mut c = config();
    c.sections = vec![section("late", 9), section("tie-one", 5), section("early", 1), section("tie-two", 5)];
    let mut list = Vec::new();
    for (i, name) in ["tie-one", "late", "tie-two", "early"].iter().enumerate() {
        let mut n = news(&format!("${i}"), "alice", name);
        n.add_section_name(format!("$r{i}"), name.to_string());
        list.push(n);
    }
    let r = render(&list, &c);
    let names: Vec<&str> = r.sections.iter().map(|s| s.section.name.as_str()).collect();
    assert_eq!(names, vec!["early", "tie-one", "tie-two", "late"]);
    let orders: Vec<u32> = r.sections.iter().map(|s| s.section.order).collect();
    assert_eq!(orders, vec![1, 5, 5, 9]);
}

#[test]
fn media_are_fetched_once_per_locator() {
    let mut a = news("$a", "alice", "a");
    a.add_section_name("$r1".into(), "updates".into());
    a.add_image("$i1".into(), "$img".into(), "shot.png".into(), "mxc://matrix.local/abc".into());
    a.add_image("$i2".into(), "$img".into(), "shot.png".into(), "mxc://matrix.local/abc".into());
    a.add_video("$v1".into(), "$vid".into(), "film.webm".into(), "mxc://matrix.local/film".into());
    let mut b = news("$b", "bob", "b");
    b.add_section_name("$r2".into(), "updates".into());
    b.add_image("$i3".into(), "$img".into(), "again.png".into(), "mxc://matrix.local/abc".into());
    b.add_image("$i4".into(), "$img2".into(), "new.png".into(), "mxc://matrix.local/new".into());
    // The files of unassigned news are not fetched.
    let mut c = news("$c", "carol", "c");
    c.add_image("$i5".into(), "$img3".into(), "lost.png".into(), "mxc://matrix.local/lost".into());
    let r = render(&vec![a, b, c], &config());
    assert_eq!(
        r.images,
        vec![
            ("abc_again.png".to_string(), "mxc://matrix.local/abc".to_string()),
            ("new_new.png".to_string(), "mxc://matrix.local/new".to_string()),
        ]
    );
    assert_eq!(
        r.videos,
        vec![("film_film.webm".to_string(), "mxc://matrix.local/film".to_string())]
    );
    assert_eq!(
        r.notes[0],
        "Rendered markdown is including 2 news, 2 image(s) and 1 video(s)!"
    );
    // Each entry shows its own files.
    assert_eq!(
        r.sections[0].news[0].images,
        vec![("abc_shot.png".to_string(), "mxc://matrix.local/abc".to_string())]
    );
    assert_eq!(r.sections[0].news[1].images.len(), 2);
    assert_eq!(r.sections[0].news[0].videos.len(), 1);
}

#[test]
fn rendering_twice_gives_the_same_and_leaves_the_news_alone() {
    let mut a = news("$a", "alice", "a");
    a.add_project_name("$r1".into(), "P".into());
    a.add_section_name("$r2".into(), "spotlight".into());
    a.add_image("$i1".into(), "$img".into(), "shot.png".into(), "mxc://matrix.local/abc".into());
    let list = vec![a, news("$b", "bob", "b")];
    let c = config();
    let first = render(&list, &c);
    let second = render(&list, &c);
    assert_eq!(format!("{first:?}"), format!("{second:?}"));
    assert_eq!(list[0].message(), "a");
    assert_eq!(list[0].project_names(), vec!["P".to_string()]);
    assert_eq!(list[0].images.len(), 1);
    assert!(!list[1].is_assigned());
}

#[test]
fn unknown_tags_cannot_be_rendered() {
    let c = config();
    let mut unknown_section = news("$a", "alice", "a");
    unknown_section.add_section_name("$r1".into(), "nowhere".into());
    assert!(!knows_tags(&unknown_section, &c));
    let mut unknown_project = news("$b", "bob", "b");
    unknown_project.add_project_name("$r1".into(), "R".into());
    assert!(!knows_tags(&unknown_project, &c));
    let mut fine = news("$c", "carol", "c");
    fine.add_project_name("$r1".into(), "P".into());
    assert!(knows_tags(&fine, &c));
    assert!(can_render(&vec![fine.clone(), news("$d", "dave", "d")], &c));
    assert!(!can_render(&vec![fine.clone(), unknown_project.clone()], &c));
    assert!(try_render(&vec![fine.clone(), unknown_section], &c).is_none());
    assert_eq!(try_render(&vec![fine], &c).unwrap().sections.len(), 1);
    // A project whose default section is missing cannot be rendered either.
    let mut broken = config();
    broken.projects.push(project("R", "gone"));
    assert!(!can_render(&vec![unknown_project], &broken));
}

#[test]
fn render_news_shows_what_the_entry_holds() {
    let mut a = news("$a", "alice", "text");
    a.add_video("$v1".into(), "$vid".into(), "film.webm".into(), "mxc://matrix.local/film".into());
    let shown = RenderNews::from_news(&a);
    assert_eq!(shown.reporter_id, "@alice:matrix.local");
    assert_eq!(shown.reporter_display_name, "alice");
    assert_eq!(shown.timestamp, 1);
    assert_eq!(shown.message, "text");
    assert!(shown.images.is_empty());
    assert_eq!(shown.videos, a.videos());
    let copy = shown.clone();
    assert_eq!(copy.videos, shown.videos);
}
