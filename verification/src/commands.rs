//! The commands that editors give in the admin room, and the answers that
//! need nothing but the configuration and the stored news.

use vstd::prelude::*;
use vstd::string::*;
use crate::bot::Bot;
use crate::config::{classify, find_project, find_section, ConfigView};
use crate::mxc::{locator_parts, locator_parts_of};
use crate::news::{assigned, pair_views, summary, NewsView};
use crate::project::{project_details, ProjectView};
use crate::reaction_type::{ReactionType, ReactionTypeView};
use crate::render::message_link_text;
use crate::section::{section_details, SectionView};
use crate::text::{chars_of, decimal, decimal_string, string_of, text_eq, views};
use crate::utils::{position_of, trimmed};

verus! {

/// A command of the admin room.
#[derive(Clone, Copy, Debug, PartialEq, Eq, Structural)]
pub enum Command {
    About,
    Clear,
    Details,
    Help,
    ListConfig,
    ListProjects,
    ListSections,
    Render,
    Restart,
    Say,
    Status,
    UpdateConfig,
    Publish,
    Unrecognized,
}

/// What a message in the admin room asks of the bot.
#[derive(Debug)]
pub enum AdminRequest {
    /// Not a command: nothing to do.
    Ignored,
    /// A command by somebody who is not an editor.
    Denied,
    /// A command of an editor, with what follows the first blank.
    Run { command: Command, args: String },
}

/// What an `AdminRequest` holds.
pub ghost enum AdminRequestView {
    Ignored,
    Denied,
    Run { command: Command, args: Seq<char> },
}

impl View for AdminRequest {
    type V = AdminRequestView;

    open spec fn view(&self) -> AdminRequestView {
        match self {
            AdminRequest::Ignored => AdminRequestView::Ignored,
            AdminRequest::Denied => AdminRequestView::Denied,
            AdminRequest::Run { command, args } => AdminRequestView::Run {
                command: *command,
                args: args@,
            },
        }
    }
}

/// The command that a word stands for.
pub open spec fn command_of(word: Seq<char>) -> Command {
    if word == "!about"@ {
        Command::About
    } else if word == "!clear"@ {
        Command::Clear
    } else if word == "!details"@ {
        Command::Details
    } else if word == "!help"@ {
        Command::Help
    } else if word == "!list-config"@ {
        Command::ListConfig
    } else if word == "!list-projects"@ {
        Command::ListProjects
    } else if word == "!list-sections"@ {
        Command::ListSections
    } else if word == "!render"@ {
        Command::Render
    } else if word == "!restart"@ {
        Command::Restart
    } else if word == "!say"@ {
        Command::Say
    } else if word == "!status"@ {
        Command::Status
    } else if word == "!update-config"@ {
        Command::UpdateConfig
    } else if word == "!publish"@ {
        Command::Publish
    } else {
        Command::Unrecognized
    }
}

/// Reads a command word.
pub fn parse_command(word: &str) -> (r: Command)
    ensures
        r == command_of(word@),
{
    if text_eq(word, "!about") {
        Command::About
    } else if text_eq(word, "!clear") {
        Command::Clear
    } else if text_eq(word, "!details") {
        Command::Details
    } else if text_eq(word, "!help") {
        Command::Help
    } else if text_eq(word, "!list-config") {
        Command::ListConfig
    } else if text_eq(word, "!list-projects") {
        Command::ListProjects
    } else if text_eq(word, "!list-sections") {
        Command::ListSections
    } else if text_eq(word, "!render") {
        Command::Render
    } else if text_eq(word, "!restart") {
        Command::Restart
    } else if text_eq(word, "!say") {
        Command::Say
    } else if text_eq(word, "!status") {
        Command::Status
    } else if text_eq(word, "!update-config") {
        Command::UpdateConfig
    } else if text_eq(word, "!publish") {
        Command::Publish
    } else {
        Command::Unrecognized
    }
}

/// What a message in the admin room asks for. Only a message that starts
/// with an exclamation mark, white space around it aside, is a command, and
/// only editors may give one. The command is the text up to the first blank,
/// its arguments are what follows that blank.
pub open spec fn admin_request(c: ConfigView, msg: Seq<char>, member: Seq<char>) -> AdminRequestView {
    let text = trimmed(msg);
    if text.len() == 0 || text[0] != '!' {
        AdminRequestView::Ignored
    } else if !c.editors.contains(member) {
        AdminRequestView::Denied
    } else {
        let blank = position_of(text, ' ');
        AdminRequestView::Run {
            command: command_of(trimmed(text.take(blank))),
            args: if blank < text.len() {
                text.skip(blank + 1)
            } else {
                Seq::empty()
            },
        }
    }
}

/// The answer to a command of somebody who is not an editor.
pub open spec fn denied_text() -> Seq<char> {
    "You don’t have the permission to use commands."@
}

/// The answer to a command that the bot does not know.
pub open spec fn unrecognized_text() -> Seq<char> {
    "Unrecognized command. Use !help to list available commands."@
}

/// The list of commands.
pub open spec fn help_text() -> Seq<char> {
    "Available commands: \n\n!about \n!clear \n!details <name> \n!list-config \n!list-projects \n!list-sections \n!publish \n!render \n!restart \n!say <message> \n!status \n!update-config"@
}

/// The lines of the status report for the news that are assigned, or for
/// those that are not: a link, the reporter and a summary of each.
pub open spec fn status_lines(news: Seq<NewsView>, c: ConfigView, of_assigned: bool) -> Seq<char>
    decreases news.len(),
{
    if news.len() == 0 {
        Seq::empty()
    } else {
        let n = news.last();
        let before = status_lines(news.drop_last(), c, of_assigned);
        if assigned(n) == of_assigned {
            before + "- ["@ + message_link_text(c.reporting_room_id, n.event_id) + "] "@
                + n.reporter_id + ": "@ + summary(n.message) + " <br>"@
        } else {
            before
        }
    }
}

/// How many of the news are assigned.
pub open spec fn assigned_count(news: Seq<NewsView>) -> nat
    decreases news.len(),
{
    if news.len() == 0 {
        0
    } else if assigned(news.last()) {
        assigned_count(news.drop_last()) + 1
    } else {
        assigned_count(news.drop_last())
    }
}

/// The status report: how many news there are, and which of them are
/// assigned and which are not.
pub open spec fn status_text(news: Seq<NewsView>, c: ConfigView) -> Seq<char> {
    decimal(news.len()) + " news entries in total <br><br>✅ Assigned news entries: ("@ + decimal(
        assigned_count(news),
    ) + "): <br>"@ + status_lines(news, c, true)
        + " <br>❌ Unassigned / ignored news entries ("@ + decimal(
        (news.len() - assigned_count(news)) as nat,
    ) + "): <br>"@ + status_lines(news, c, false)
}

/// The details of what `term` names: a project by name, else a section by
/// name, else what the emoji `term` stands for.
pub open spec fn details_text(c: ConfigView, term: Seq<char>) -> Seq<char> {
    if find_project(c.projects, term) is Some {
        project_details(find_project(c.projects, term)->0)
    } else if find_section(c.sections, term) is Some {
        section_details(find_section(c.sections, term)->0)
    } else {
        match classify(c, term) {
            ReactionTypeView::Section(Some(s)) => section_details(s),
            ReactionTypeView::Project(Some(p)) => project_details(p),
            ReactionTypeView::Notice => term + " is configured as notice emoji"@,
            _ => "❌ Unable to find details for ”"@ + term + "”."@,
        }
    }
}

/// One line for each project: emoji, title, description and website.
pub open spec fn project_lines(projects: Seq<ProjectView>) -> Seq<char>
    decreases projects.len(),
{
    if projects.len() == 0 {
        Seq::empty()
    } else {
        let p = projects.last();
        project_lines(projects.drop_last()) + p.emoji + ": "@ + p.title + " - "@ + p.description
            + " ("@ + p.website + ")\n"@
    }
}

/// One line for each section: emoji and title.
pub open spec fn section_lines(sections: Seq<SectionView>) -> Seq<char>
    decreases sections.len(),
{
    if sections.len() == 0 {
        Seq::empty()
    } else {
        let s = sections.last();
        section_lines(sections.drop_last()) + s.emoji + ": "@ + s.title + "\n"@
    }
}

/// The arguments of the curl command for one file whose locator has the
/// given server name and media id; nothing for a locator without them.
pub open spec fn download_argument(
    parts: Option<(Seq<char>, Seq<char>)>,
    homeserver: Seq<char>,
    filename: Seq<char>,
) -> Seq<char> {
    match parts {
        Some(p) => " "@ + homeserver + "_matrix/media/r0/download/"@ + p.0 + "/"@ + p.1
            + " -o "@ + filename,
        None => Seq::empty(),
    }
}

/// The arguments of the curl command that fetches `files`: for each file
/// with a valid content locator, of no more bytes than are looked at, the
/// download address on `homeserver` and the name to save it under.
pub open spec fn download_arguments(files: Seq<(Seq<char>, Seq<char>)>, homeserver: Seq<char>) -> Seq<
    char,
>
    decreases files.len(),
{
    if files.len() == 0 {
        Seq::empty()
    } else {
        download_arguments(files.drop_last(), homeserver) + download_argument(
            locator_parts(files.last().1),
            homeserver,
            files.last().0,
        )
    }
}

/// Builds the arguments of the curl command for one file from the parts of
/// its locator.
pub fn download_argument_for(parts: Option<(String, String)>, homeserver: &str, filename: &str) -> (r:
    String)
    ensures
        r@ == download_argument(
            match parts {
                Some(p) => Some((p.0@, p.1@)),
                None => None,
            },
            homeserver@,
            filename@,
        ),
{
    match parts {
        Some(p) => {
            let mut out = String::from_str(" ");
            out.append(homeserver);
            out.append("_matrix/media/r0/download/");
            out.append(p.0.as_str());
            out.append("/");
            out.append(p.1.as_str());
            out.append(" -o ");
            out.append(filename);
            out
        },
        None => String::new(),
    }
}

/// Builds the curl command that downloads `files`, pairs of a file name and
/// a content locator, from `homeserver`, ready to be posted.
pub fn download_command(files: &Vec<(String, String)>, homeserver: &str) -> (r: String)
    ensures
        r@ == "<pre><code>curl"@ + download_arguments(pair_views(files@), homeserver@)
            + "</code></pre>\n"@,
{
    let ghost all = pair_views(files@);
    let mut out = String::from_str("<pre><code>curl");
    let mut i: usize = 0;
    proof {
        assert(all.take(0) =~= Seq::<(Seq<char>, Seq<char>)>::empty());
        assert(out@ + download_arguments(all.take(0), homeserver@) =~= out@);
    }
    while i < files.len()
        invariant
            i <= files@.len(),
            all == pair_views(files@),
            out@ == "<pre><code>curl"@ + download_arguments(all.take(i as int), homeserver@),
        decreases files.len() - i,
    {
        proof {
            assert(all.take(i + 1).drop_last() =~= all.take(i as int));
            assert(all.take(i + 1).last() == all[i as int]);
        }
        let ghost before = download_arguments(all.take(i as int), homeserver@);
        let argument = download_argument_for(
            locator_parts_of(files[i].1.as_str()),
            homeserver,
            files[i].0.as_str(),
        );
        out.append(argument.as_str());
        proof {
            assert(out@ =~= "<pre><code>curl"@ + (before + argument@));
        }
        i += 1;
    }
    proof {
        assert(all.take(files@.len() as int) =~= all);
    }
    out.append("</code></pre>\n");
    out
}

impl Bot {
    /// New message in the admin room: see `admin_request`.
    pub fn on_admin_room_message(&self, msg: &str, member_id: &str) -> (r: AdminRequest)
        ensures
            r@ == admin_request(self.config@, msg@, member_id@),
    {
        let text = chars_of(msg.trim());
        if text.len() == 0 || text[0] != '!' {
            return AdminRequest::Ignored;
        }
        if !self.is_editor(member_id) {
            return AdminRequest::Denied;
        }
        let mut word: Vec<char> = Vec::new();
        let mut i: usize = 0;
        while i < text.len() && text[i] != ' '
            invariant
                i <= text@.len(),
                word@ == text@.take(i as int),
                forall|j: int| 0 <= j < i ==> text@[j] != ' ',
            decreases text.len() - i,
        {
            word.push(text[i]);
            proof {
                assert(text@.take(i as int).push(text@[i as int]) =~= text@.take(i + 1));
            }
            i += 1;
        }
        proof {
            crate::utils::lemma_position_of(text@, ' ', i as int);
        }
        let mut args: Vec<char> = Vec::new();
        if i < text.len() {
            let mut j: usize = i + 1;
            while j < text.len()
                invariant
                    i + 1 <= j <= text@.len(),
                    args@ == text@.skip(i + 1).take(j - i - 1),
                decreases text.len() - j,
            {
                args.push(text[j]);
                proof {
                    let tail = text@.skip(i + 1);
                    assert(tail.take(j - i - 1).push(tail[j - i - 1]) =~= tail.take(j - i));
                }
                j += 1;
            }
            proof {
                let tail = text@.skip(i + 1);
                assert(tail.take(tail.len() as int) =~= tail);
            }
        }
        let command = parse_command(string_of(&word).as_str().trim());
        AdminRequest::Run { command, args: string_of(&args) }
    }

    /// The answer to a command of somebody who is not an editor.
    pub fn denied_message() -> (r: String)
        ensures
            r@ == denied_text(),
    {
        String::from_str("You don’t have the permission to use commands.")
    }

    /// The answer to a command that the bot does not know.
    pub fn unrecognized_command() -> (r: String)
        ensures
            r@ == unrecognized_text(),
    {
        String::from_str("Unrecognized command. Use !help to list available commands.")
    }

    /// The list of commands.
    pub fn help_command() -> (r: String)
        ensures
            r@ == help_text(),
    {
        String::from_str(
            "Available commands: \n\n!about \n!clear \n!details <name> \n!list-config \n!list-projects \n!list-sections \n!publish \n!render \n!restart \n!say <message> \n!status \n!update-config",
        )
    }

    /// Removes all news and says how many there were.
    pub fn clear_command(&mut self) -> (r: String)
        ensures
            final(self).config@ == old(self).config@,
            final(self).news_store@ == Seq::<NewsView>::empty(),
            r@ == "✅ Cleared "@ + decimal(old(self).news_store@.len()) + " news entries!"@,
    {
        let count = self.news_store.len();
        self.news_store.clear_news();
        let mut msg = String::from_str("✅ Cleared ");
        msg.append(decimal_string(count as u64).as_str());
        msg.append(" news entries!");
        msg
    }

    /// Describes the project or section that `term` names, or what the emoji
    /// `term` stands for.
    pub fn details_command(&self, term: &str) -> (r: String)
        ensures
            r@ == details_text(self.config@, term@),
    {
        match self.config.project_by_name(term) {
            Some(project) => {
                return project.html_details();
            },
            None => {},
        }
        match self.config.section_by_name(term) {
            Some(section) => {
                return section.html_details();
            },
            None => {},
        }
        match self.config.reaction_type_by_emoji(term) {
            ReactionType::Section(Some(section)) => section.html_details(),
            ReactionType::Project(Some(project)) => project.html_details(),
            ReactionType::Notice => {
                let mut msg = String::from_str(term);
                msg.append(" is configured as notice emoji");
                msg
            },
            _ => {
                let mut msg = String::from_str("❌ Unable to find details for ”");
                msg.append(term);
                msg.append("”.");
                msg
            },
        }
    }

    /// Lists the projects of the configuration.
    pub fn list_projects_command(&self) -> (r: String)
        ensures
            r@ == "List of projects:\n<pre><code>"@ + project_lines(self.config@.projects)
                + "</code></pre>\n"@,
    {
        let ghost all = views(self.config.projects@);
        let mut out = String::from_str("List of projects:\n<pre><code>");
        let mut i: usize = 0;
        proof {
            assert(all.take(0) =~= Seq::<ProjectView>::empty());
            assert(out@ + project_lines(all.take(0)) =~= out@);
        }
        while i < self.config.projects.len()
            invariant
                i <= self.config.projects@.len(),
                all == views(self.config.projects@),
                out@ == "List of projects:\n<pre><code>"@ + project_lines(all.take(i as int)),
            decreases self.config.projects.len() - i,
        {
            proof {
                assert(all.take(i + 1).drop_last() =~= all.take(i as int));
                assert(all.take(i + 1).last() == self.config.projects@[i as int]@);
            }
            let ghost before = project_lines(all.take(i as int));
            let p = &self.config.projects[i];
            out.append(p.emoji.as_str());
            out.append(": ");
            out.append(p.title.as_str());
            out.append(" - ");
            out.append(p.description.as_str());
            out.append(" (");
            out.append(p.website.as_str());
            out.append(")\n");
            proof {
                assert(out@ =~= "List of projects:\n<pre><code>"@ + (before + p@.emoji + ": "@
                    + p@.title + " - "@ + p@.description + " ("@ + p@.website + ")\n"@));
            }
            i += 1;
        }
        proof {
            assert(all.take(self.config.projects@.len() as int) =~= all);
        }
        out.append("</code></pre>\n");
        out
    }

    /// Lists the sections of the configuration.
    pub fn list_sections_command(&self) -> (r: String)
        ensures
            r@ == "List of sections:\n<pre><code>"@ + section_lines(self.config@.sections)
                + "</code></pre>\n"@,
    {
        let ghost all = views(self.config.sections@);
        let mut out = String::from_str("List of sections:\n<pre><code>");
        let mut i: usize = 0;
        proof {
            assert(all.take(0) =~= Seq::<SectionView>::empty());
            assert(out@ + section_lines(all.take(0)) =~= out@);
        }
        while i < self.config.sections.len()
            invariant
                i <= self.config.sections@.len(),
                all == views(self.config.sections@),
                out@ == "List of sections:\n<pre><code>"@ + section_lines(all.take(i as int)),
            decreases self.config.sections.len() - i,
        {
            proof {
                assert(all.take(i + 1).drop_last() =~= all.take(i as int));
                assert(all.take(i + 1).last() == self.config.sections@[i as int]@);
            }
            let ghost before = section_lines(all.take(i as int));
            let s = &self.config.sections[i];
            out.append(s.emoji.as_str());
            out.append(": ");
            out.append(s.title.as_str());
            out.append("\n");
            proof {
                assert(out@ =~= "List of sections:\n<pre><code>"@ + (before + s@.emoji + ": "@
                    + s@.title + "\n"@));
            }
            i += 1;
        }
        proof {
            assert(all.take(self.config.sections@.len() as int) =~= all);
        }
        out.append("</code></pre>\n");
        out
    }

    /// Reports how many news are stored, and lists the assigned and the
    /// unassigned ones.
    pub fn status_command(&self) -> (r: String)
        ensures
            r@ == status_text(self.news_store@, self.config@),
    {
        let n = self.news_store.len();
        let ghost all = self.news_store@;
        let mut assigned_list = String::new();
        let mut unassigned_list = String::new();
        let mut assigned_count: usize = 0;
        let mut i: usize = 0;
        proof {
            assert(all.take(0) =~= Seq::<NewsView>::empty());
        }
        while i < n
            invariant
                i <= n,
                n == all.len(),
                all == self.news_store@,
                assigned_count <= i,
                assigned_count == crate::commands::assigned_count(all.take(i as int)),
                assigned_list@ == status_lines(all.take(i as int), self.config@, true),
                unassigned_list@ == status_lines(all.take(i as int), self.config@, false),
            decreases n - i,
        {
            proof {
                assert(all.take(i + 1).drop_last() =~= all.take(i as int));
                assert(all.take(i + 1).last() == all[i as int]);
            }
            let news = self.news_store.news_at(i);
            let link = self.message_link(news.event_id.as_str());
            let short = news.message_summary();
            if news.is_assigned() {
                let ghost before = assigned_list@;
                assigned_count += 1;
                assigned_list.append("- [");
                assigned_list.append(link.as_str());
                assigned_list.append("] ");
                assigned_list.append(news.reporter_id.as_str());
                assigned_list.append(": ");
                assigned_list.append(short.as_str());
                assigned_list.append(" <br>");
                proof {
                    assert(assigned_list@ =~= before + "- ["@ + link@ + "] "@ + news@.reporter_id
                        + ": "@ + short@ + " <br>"@);
                }
            } else {
                let ghost before = unassigned_list@;
                unassigned_list.append("- [");
                unassigned_list.append(link.as_str());
                unassigned_list.append("] ");
                unassigned_list.append(news.reporter_id.as_str());
                unassigned_list.append(": ");
                unassigned_list.append(short.as_str());
                unassigned_list.append(" <br>");
                proof {
                    assert(unassigned_list@ =~= before + "- ["@ + link@ + "] "@
                        + news@.reporter_id + ": "@ + short@ + " <br>"@);
                }
            }
            i += 1;
        }
        proof {
            assert(all.take(n as int) =~= all);
        }
        let mut out = decimal_string(n as u64);
        out.append(" news entries in total <br><br>✅ Assigned news entries: (");
        out.append(decimal_string(assigned_count as u64).as_str());
        out.append("): <br>");
        out.append(assigned_list.as_str());
        out.append(" <br>❌ Unassigned / ignored news entries (");
        out.append(decimal_string((n - assigned_count) as u64).as_str());
        out.append("): <br>");
        out.append(unassigned_list.as_str());
        out
    }
}

} // verus!
