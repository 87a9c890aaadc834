use hebbot::bot::Bot;
use hebbot::commands::{
    download_argument_for, download_command, parse_command, AdminRequest, Command,
};
use hebbot::config::Config;
use hebbot::news::News;
use hebbot::news_store::NewsStore;
use hebbot::project::Project;
use hebbot::section::Section;

const ROOM: &str = "!reporting:matrix.local";
const EDITOR: &str = "@editor:matrix.local";

fn bot() -> Bot {
    let config = Config {
        bot_user_id: "@hebbot:matrix.local".into(),
        reporting_room_id: ROOM.into(),
        admin_room_id: "!admin:matrix.local".into(),
        notice_emoji: "\u{2b50}".into(),
        restrict_notice: true,
        verbs: vec!["reports".into()],
        min_length: 30,
        ack_text: String::new(),
        update_config_command: "true".into(),
        editors: vec![EDITOR.into()],
        sections: vec![
            Section {
                emoji: "\u{1f4f0}".into(),
                name: "updates".into(),
                title: "Updates".into(),
                order: 1,
                usual_reporters: vec![],
            },
            Section {
                emoji: "\u{1f526}".into(),
                name: "spotlight".into(),
                title: "In the Spotlight".into(),
                order: 2,
                usual_reporters: vec!["@bob:matrix.local".into()],
            },
        ],
        projects: vec![Project {
            emoji: "\u{1f9e9}".into(),
            name: "widget".into(),
            title: "Widget Toolkit".into(),
            description: "A toolkit".into(),
            website: "https://example.org/widget".into(),
            default_section: "updates".into(),
        }],
    };
    Bot::new(config, NewsStore::new())
}

fn run(request: AdminRequest) -> (Command, String) {
    match request {
        AdminRequest::Run { command, args } => (command, args),
        other => panic!("not a command: {other:?}"),
    }
}

#[test]
fn command_words() {
    assert_eq!(parse_command("!about"), Command::About);
    assert_eq!(parse_command("!clear"), Command::Clear);
    assert_eq!(parse_command("!details"), Command::Details);
    assert_eq!(parse_command("!help"), Command::Help);
    assert_eq!(parse_command("!list-config"), Command::ListConfig);
    assert_eq!(parse_command("!list-projects"), Command::ListProjects);
    assert_eq!(parse_command("!list-sections"), Command::ListSections);
    assert_eq!(parse_command("!render"), Command::Render);
    assert_eq!(parse_command("!restart"), Command::Restart);
    assert_eq!(parse_command("!say"), Command::Say);
    assert_eq!(parse_command("!status"), Command::Status);
    assert_eq!(parse_command("!update-config"), Command::UpdateConfig);
    assert_eq!(parse_command("!publish"), Command::Publish);
    assert_eq!(parse_command("!Help"), Command::Unrecognized);
    assert_eq!(parse_command("help"), Command::Unrecognized);
    assert_eq!(parse_command("!"), Command::Unrecognized);
}

#[test]
fn admin_messages_are_read_as_commands() {
    let bot = bot();
    assert!(matches!(bot.on_admin_room_message("hello there", EDITOR), AdminRequest::Ignored));
    assert!(matches!(bot.on_admin_room_message("", EDITOR), AdminRequest::Ignored));
    assert!(matches!(bot.on_admin_room_message("  ", EDITOR), AdminRequest::Ignored));
    assert!(matches!(
        bot.on_admin_room_message("!status", "@alice:matrix.local"),
        AdminRequest::Denied
    ));
    assert!(matches!(
        bot.on_admin_room_message("no command", "@alice:matrix.local"),
        AdminRequest::Ignored
    ));
    assert_eq!(run(bot.on_admin_room_message("!status", EDITOR)), (Command::Status, String::new()));
    assert_eq!(
        run(bot.on_admin_room_message("  !say Hello  world  ", EDITOR)),
        (Command::Say, "Hello  world".to_string())
    );
    assert_eq!(
        run(bot.on_admin_room_message("!details  widget", EDITOR)),
        (Command::Details, " widget".to_string())
    );
    assert_eq!(
        run(bot.on_admin_room_message("!help\t now", EDITOR)),
        (Command::Help, "now".to_string())
    );
    assert_eq!(
        run(bot.on_admin_room_message("!nonsense x", EDITOR)),
        (Command::Unrecognized, "x".to_string())
    );
}

#[test]
fn fixed_answers() {
    assert_eq!(Bot::denied_message(), "You don\u{2019}t have the permission to use commands.");
    assert_eq!(
        Bot::unrecognized_command(),
        "Unrecognized command. Use !help to list available commands."
    );
    assert_eq!(
        Bot::help_command(),
        "Available commands: \n\n!about \n!clear \n!details <name> \n!list-config \n!list-projects \n!list-sections \n!publish \n!render \n!restart \n!say <message> \n!status \n!update-config"
    );
}

#[test]
fn details_of_projects_sections_and_emoji() {
    let bot = bot();
    assert_eq!(bot.details_command("widget"), bot.config.projects[0].html_details());
    assert_eq!(bot.details_command("spotlight"), bot.config.sections[1].html_details());
    assert_eq!(bot.details_command("\u{1f4f0}\u{fe0f}"), bot.config.sections[0].html_details());
    assert_eq!(bot.details_command("\u{1f9e9}"), bot.config.projects[0].html_details());
    assert_eq!(bot.details_command("\u{2b50}"), "\u{2b50} is configured as notice emoji");
    assert_eq!(
        bot.details_command("nothing"),
        "\u{274c} Unable to find details for \u{201d}nothing\u{201d}."
    );
}

#[test]
fn lists_of_projects_and_sections() {
    let bot = bot();
    assert_eq!(
        bot.list_projects_command(),
        "List of projects:\n<pre><code>\u{1f9e9}: Widget Toolkit - A toolkit (https://example.org/widget)\n</code></pre>\n"
    );
    assert_eq!(
        bot.list_sections_command(),
        "List of sections:\n<pre><code>\u{1f4f0}: Updates\n\u{1f526}: In the Spotlight\n</code></pre>\n"
    );
}

#[test]
fn status_lists_assigned_and_unassigned_news() {
    let mut bot = bot();
    assert_eq!(
        bot.status_command(),
        "0 news entries in total <br><br>\u{2705} Assigned news entries: (0): <br> <br>\u{274c} Unassigned / ignored news entries (0): <br>"
    );
    let mut one = News::new_at("$1".into(), "@alice:matrix.local".into(), "A".into(), "first".into(), 1);
    one.add_section_name("$r".into(), "updates".into());
    bot.news_store.add_news(one).unwrap();
    bot.news_store
        .add_news(News::new_at("$2".into(), "@bob:matrix.local".into(), "B".into(), "x".repeat(70), 2))
        .unwrap();
    bot.news_store
        .add_news(News::new_at("$3".into(), "@bob:matrix.local".into(), "B".into(), "third".into(), 3))
        .unwrap();
    let link = |id: &str| format!("<a href=\"https://matrix.to/#/{ROOM}/{id}\">open message</a>");
    assert_eq!(
        bot.status_command(),
        format!(
            "3 news entries in total <br><br>\u{2705} Assigned news entries: (1): <br>- [{}] @alice:matrix.local: first <br> <br>\u{274c} Unassigned / ignored news entries (2): <br>- [{}] @bob:matrix.local: {} \u{2026} <br>- [{}] @bob:matrix.local: third <br>",
            link("$1"),
            link("$2"),
            "x".repeat(50),
            link("$3")
        )
    );
}

#[test]
fn clear_says_how_many_news_there_were() {
    let mut bot = bot();
    for i in 0..12 {
        bot.news_store
            .add_news(News::new_at(format!("${i}"), "@a:b".into(), "A".into(), "m".into(), i))
            .unwrap();
    }
    assert_eq!(bot.clear_command(), "\u{2705} Cleared 12 news entries!");
    assert_eq!(bot.news_store.len(), 0);
    assert_eq!(bot.clear_command(), "\u{2705} Cleared 0 news entries!");
}

#[test]
fn download_command_skips_invalid_locators() {
    let files = vec![
        ("abc_a.png".to_string(), "mxc://matrix.local/abc".to_string()),
        ("_b.png".to_string(), "https://example.org/b.png".to_string()),
        ("def_c.webm".to_string(), "mxc://example.org/def".to_string()),
    ];
    assert_eq!(
        download_command(&files, "https://matrix.local/"),
        "<pre><code>curl https://matrix.local/_matrix/media/r0/download/matrix.local/abc -o abc_a.png https://matrix.local/_matrix/media/r0/download/example.org/def -o def_c.webm</code></pre>\n"
    );
    assert_eq!(download_command(&vec![], "https://matrix.local/"), "<pre><code>curl</code></pre>\n");
    // A locator that is too long to be looked at is passed over.
    let long = vec![("x".to_string(), format!("mxc://{}/abc", "a".repeat(250)))];
    assert_eq!(download_command(&long, "https://matrix.local/"), "<pre><code>curl</code></pre>\n");
}

#[test]
fn download_arguments_of_one_file() {
    assert_eq!(
        download_argument_for(Some(("server".into(), "id".into())), "https://hs/", "file.png"),
        " https://hs/_matrix/media/r0/download/server/id -o file.png"
    );
    assert_eq!(download_argument_for(None, "https://hs/", "file.png"), "");
}
