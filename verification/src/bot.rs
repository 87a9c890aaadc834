//! The decisions of the bot: what an event of the reporting room does to
//! the stored news, and what the bot says or does in return.

use vstd::prelude::*;
use vstd::string::*;
use crate::bot_message_type::BotMessageType;
use crate::config::{classify, sections_of_reporter, Config, ConfigView};
use crate::error::{error_text, Error};
use crate::idmap::{del, has_key, index_of_key, put};
use crate::message_event::{MediaContent, MediaSource, MessageEvent, MessageType};
use crate::news::{
    assigned,
    fresh_news,
    has_file,
    relates_to,
    removed_kind,
    summary,
    without_files_of,
    without_reaction,
    MediaFileView,
    News,
    NewsView,
};
use crate::news_store::{
    first_with_file,
    first_with_reaction,
    has_id,
    has_reaction,
    holds_file_of,
    index_of_id,
    lemma_first_with_reaction,
    nearest,
    NewsStore,
};
use crate::reaction_type::{reaction_label, ReactionType, ReactionTypeView};
use crate::project::ProjectView;
use crate::render::{message_link, message_link_text};
use crate::section::SectionView;
use crate::seqs::lemma_first_index_is;
use crate::text::{
    byte_len,
    chars_of,
    option_view,
    replace_all,
    replaced,
    string_of,
    strip_char,
    text_eq,
    views,
    without_char,
};
use crate::utils::{
    is_match,
    variation_selector,
    matched,
    msg_starts_with_mention,
    regex_match,
    remove_bot_name,
    starts_with_mention,
    without_bot_name,
};

verus! {

/// Something that the bot does in a room.
#[derive(Debug)]
pub enum Action {
    /// Send a message of the given kind.
    SendMessage { text: String, kind: BotMessageType },
    /// React to a message of the reporting room with an emoji.
    SendReaction { emoji: String, event_id: String },
}

/// What an `Action` holds.
pub ghost enum ActionView {
    SendMessage { text: Seq<char>, kind: BotMessageType },
    SendReaction { emoji: Seq<char>, event_id: Seq<char> },
}

impl View for Action {
    type V = ActionView;

    open spec fn view(&self) -> ActionView {
        match self {
            Action::SendMessage { text, kind } => ActionView::SendMessage {
                text: text@,
                kind: *kind,
            },
            Action::SendReaction { emoji, event_id } => ActionView::SendReaction {
                emoji: emoji@,
                event_id: event_id@,
            },
        }
    }
}

/// A message for the editors in the admin room.
pub open spec fn admin_notice(text: Seq<char>) -> ActionView {
    ActionView::SendMessage { text, kind: BotMessageType::AdminRoomHtmlNotice }
}

/// A notice for everybody in the reporting room.
pub open spec fn reporting_notice(text: Seq<char>) -> ActionView {
    ActionView::SendMessage { text, kind: BotMessageType::ReportingRoomPlainNotice }
}

/// The regular expression that finds the name or the title of a project as
/// a whole word, in any case.
pub open spec fn suggestion_pattern(p: ProjectView) -> Seq<char> {
    "(?i)\\b"@ + p.name + "\\b|\\b"@ + p.title + "\\b"@
}

/// A reaction for each project whose name or title occurs in `message`: the
/// project's emoji, marked with a question mark as a mere suggestion.
pub open spec fn project_suggestions(
    projects: Seq<ProjectView>,
    message: Seq<char>,
    event_id: Seq<char>,
) -> Seq<ActionView>
    decreases projects.len(),
{
    if projects.len() == 0 {
        Seq::empty()
    } else {
        let before = project_suggestions(projects.drop_last(), message, event_id);
        if regex_match(suggestion_pattern(projects.last()), message) == Some(true) {
            before.push(
                ActionView::SendReaction { emoji: projects.last().emoji + " ?"@, event_id },
            )
        } else {
            before
        }
    }
}

/// A reaction with the emoji of each of `sections`.
pub open spec fn section_suggestions(sections: Seq<SectionView>, event_id: Seq<char>) -> Seq<
    ActionView,
> {
    Seq::new(
        sections.len(),
        |i: int| ActionView::SendReaction { emoji: sections[i].emoji, event_id },
    )
}

/// The acknowledgment for the reporter, where one is due.
pub open spec fn acknowledgment(c: ConfigView, n: NewsView, notify_reporter: bool) -> Seq<
    ActionView,
> {
    if notify_reporter && c.ack_text.len() > 0 {
        seq![reporting_notice(replaced(c.ack_text, "{{user}}"@, n.reporter_display_name))]
    } else {
        Seq::empty()
    }
}

/// What a submission does. A report whose message is stored already changes
/// nothing and is reported to the editors. Otherwise the mention of the bot
/// is cut from the text; a text of more than the minimum length is stored,
/// acknowledged and announced, and reactions suggest projects and sections
/// for it; a shorter one is turned down.
pub open spec fn submission(
    store: Seq<NewsView>,
    c: ConfigView,
    bot_name: Option<Seq<char>>,
    n: NewsView,
    notify_reporter: bool,
) -> (Seq<NewsView>, Seq<ActionView>) {
    let link = message_link_text(c.reporting_room_id, n.event_id);
    if has_id(store, n.event_id) {
        (
            store,
            seq![
                admin_notice(
                    "⚠️ Cannot resubmit a news item that has already been added. ["@ + link
                        + "]"@,
                ),
            ],
        )
    } else {
        let message = without_bot_name(c.bot_user_id, bot_name, n.message);
        let stored = NewsView { message, ..n };
        if byte_len(message) > c.min_length {
            (
                store.push(stored),
                acknowledgment(c, n, notify_reporter) + seq![
                    admin_notice(
                        "✅ "@ + n.reporter_id + " submitted a news entry. ["@ + link + "]"@,
                    ),
                ] + project_suggestions(c.projects, message, n.event_id) + section_suggestions(
                    sections_of_reporter(c.sections, n.reporter_id),
                    n.event_id,
                ),
            )
        } else {
            (
                store,
                seq![
                    reporting_notice(
                        "❌ "@ + n.reporter_display_name
                            + ": Your update is too short and was not stored. This limitation was set-up to limit spam."@,
                    ),
                ],
            )
        }
    }
}

/// What a new message in the reporting room does: a message that mentions
/// the bot, by a mention of its own or at its start, is a submission; any
/// other message is none of the bot's business.
pub open spec fn new_message(
    store: Seq<NewsView>,
    c: ConfigView,
    bot_name: Option<Seq<char>>,
    mentions_bot: bool,
    message: Seq<char>,
    sender: Seq<char>,
    sender_name: Seq<char>,
    event_id: Seq<char>,
    now: int,
) -> (Seq<NewsView>, Seq<ActionView>) {
    if mentions_bot || starts_with_mention(c.bot_user_id, bot_name, message) {
        submission(store, c, bot_name, fresh_news(event_id, sender, sender_name, now, message), true)
    } else {
        (store, Seq::empty())
    }
}

/// What the edit of a message does: the text of the report that came in
/// with the message is replaced, without the mention of the bot. The
/// editors are asked to look again where the report is assigned already.
pub open spec fn message_edit(
    store: Seq<NewsView>,
    c: ConfigView,
    bot_name: Option<Seq<char>>,
    updated: Seq<char>,
    event_id: Seq<char>,
) -> (Seq<NewsView>, Seq<ActionView>) {
    if has_id(store, event_id) {
        let i = index_of_id(store, event_id);
        let n = NewsView { message: without_bot_name(c.bot_user_id, bot_name, updated), ..store[i] };
        (
            store.update(i, n),
            if assigned(n) {
                seq![
                    admin_notice(
                        "✅ The news entry by "@ + n.reporter_id
                            + " got edited. Check the new text, and make sure you want to keep the assigned project/section. ["@
                            + message_link_text(c.reporting_room_id, event_id) + "]"@,
                    ),
                ]
            } else {
                Seq::empty()
            },
        )
    } else {
        (store, Seq::empty())
    }
}

/// An emoji without the question mark that marks a suggestion of the bot.
pub open spec fn without_marker(emoji: Seq<char>) -> Seq<char> {
    if emoji.len() >= 2 && emoji[emoji.len() - 2] == ' ' && emoji[emoji.len() - 1] == '?' {
        emoji.take(emoji.len() - 2)
    } else {
        emoji
    }
}

/// The emoji of a reaction as the bot reads it: first the variation
/// selectors are left out, then the marker of a suggestion is cut off.
pub open spec fn emoji_read(raw: Seq<char>) -> Seq<char> {
    without_marker(without_char(raw, variation_selector()))
}

/// Who may submit a message as news, or attach a file, with the notice
/// emoji: the editors, the author of the message, and everybody where the
/// notice emoji is not restricted.
pub open spec fn may_submit(c: ConfigView, sender: Seq<char>, author: Seq<char>) -> bool {
    c.editors.contains(sender) || sender == author || !c.restrict_notice
}

/// Who may react with what. The bot's own reactions never count. The
/// notice emoji is for those who may submit; the section and project emoji
/// are for the editors; an unknown emoji is for nobody.
pub open spec fn permitted(
    c: ConfigView,
    sender: Seq<char>,
    kind: ReactionTypeView,
    author: Seq<char>,
) -> bool {
    sender != c.bot_user_id && match kind {
        ReactionTypeView::Notice => may_submit(c, sender, author),
        ReactionTypeView::Section(_) => c.editors.contains(sender),
        ReactionTypeView::Project(_) => c.editors.contains(sender),
        ReactionTypeView::Nothing => false,
    }
}

/// The warning for a reaction to a message that could not be fetched.
pub open spec fn unresolvable_warning(c: ConfigView, target_id: Seq<char>) -> Seq<char> {
    "⚠️ Unable to process the reaction, "@ + error_text(Error::TargetUnresolvable) + " ["@
        + message_link_text(c.reporting_room_id, target_id) + "]"@
}

/// What a section or project reaction to a text message does: the report
/// that came in with the message gets the tag, under the id of the reaction.
/// A message that is not a report is answered with a warning.
pub open spec fn tagging(
    store: Seq<NewsView>,
    c: ConfigView,
    sender: Seq<char>,
    reaction_id: Seq<char>,
    target_id: Seq<char>,
    kind: ReactionTypeView,
) -> (Seq<NewsView>, Seq<ActionView>) {
    let link = message_link_text(c.reporting_room_id, target_id);
    if !has_id(store, target_id) {
        (
            store,
            seq![
                admin_notice(
                    "⚠️ Unable to process "@ + sender + "’s "@ + reaction_label(kind)
                        + " reaction, message doesn’t exist or isn’t a news submission ["@ + link
                        + "]\n(ID "@ + target_id + ")"@,
                ),
            ],
        )
    } else {
        let i = index_of_id(store, target_id);
        let n = store[i];
        match kind {
            ReactionTypeView::Section(Some(section)) => (
                store.update(
                    i,
                    NewsView { section_tags: put(n.section_tags, reaction_id, section.name), ..n },
                ),
                seq![
                    admin_notice(
                        "✅ "@ + sender + " added "@ + n.reporter_id + "’s news entry ["@ + link
                            + "] to the “"@ + section.title + "” section."@,
                    ),
                ],
            ),
            ReactionTypeView::Project(Some(project)) => (
                store.update(
                    i,
                    NewsView { project_tags: put(n.project_tags, reaction_id, project.name), ..n },
                ),
                seq![
                    admin_notice(
                        "✅ "@ + sender + " added the project description “"@ + project.title
                            + "” to "@ + n.reporter_id + "’s news entry ["@ + link + "]."@,
                    ),
                ],
            ),
            _ => (store, Seq::empty()),
        }
    }
}

/// The word for the kind of a file.
pub open spec fn media_word(image: bool) -> Seq<char> {
    if image {
        "image"@
    } else {
        "video"@
    }
}

/// What the notice emoji on an image or a video does: the file is attached,
/// under the id of the reaction, to the report of its sender that is nearest
/// in time. A file without a plain content locator is passed over in
/// silence; a sender without a report is answered with a failure notice.
pub open spec fn attachment(
    store: Seq<NewsView>,
    c: ConfigView,
    sender: Seq<char>,
    reaction_id: Seq<char>,
    e: MessageEvent,
    media: MediaContent,
    image: bool,
) -> (Seq<NewsView>, Seq<ActionView>) {
    let link = message_link_text(c.reporting_room_id, e.event_id@);
    match nearest(store, e.sender@, e.origin_server_ts as int) {
        Some(i) => match media.source {
            MediaSource::Plain(uri) => {
                let n = store[i];
                let file = MediaFileView { event_id: e.event_id@, filename: media.body@, uri: uri@ };
                (
                    store.update(
                        i,
                        if image {
                            NewsView { images: put(n.images, reaction_id, file), ..n }
                        } else {
                            NewsView { videos: put(n.videos, reaction_id, file), ..n }
                        },
                    ),
                    seq![
                        admin_notice(
                            "✅ Added "@ + media_word(image) + " to "@ + n.reporter_id
                                + "’s news entry (“"@ + summary(n.message) + "”) ["@ + link
                                + "]."@,
                        ),
                    ],
                )
            },
            MediaSource::Encrypted => (store, Seq::empty()),
        },
        None => (
            store,
            seq![
                admin_notice(
                    "❌ Unable to save "@ + sender + "’s "@ + media_word(image)
                        + ", no matching news entry found ("@ + link + ")."@,
                ),
            ],
        ),
    }
}

/// The answer to a section or project emoji on an image.
pub open spec fn invalid_for_image(emoji: Seq<char>, sender: Seq<char>, link: Seq<char>) -> Seq<
    char,
> {
    "❌ Invalid reaction emoji "@ + emoji + " by "@ + sender + " for message type image ["@
        + link + "]."@
}

/// The answer to a section or project emoji on a video.
pub open spec fn invalid_for_video(sender: Seq<char>, link: Seq<char>) -> Seq<char> {
    "❌ Invalid reaction emoji by "@ + sender + " for message type video ["@ + link + "]."@
}

/// What a reaction in the reporting room does. A reaction that is not
/// permitted, the bot's own and an unknown emoji among them, is ignored in
/// silence. The notice emoji submits a text message as news and attaches an
/// image or a video. A section or project emoji tags the report.
pub open spec fn reaction(
    store: Seq<NewsView>,
    c: ConfigView,
    bot_name: Option<Seq<char>>,
    sender: Seq<char>,
    raw_emoji: Seq<char>,
    reaction_id: Seq<char>,
    e: MessageEvent,
    author_name: Seq<char>,
    now: int,
) -> (Seq<NewsView>, Seq<ActionView>) {
    let emoji = emoji_read(raw_emoji);
    let kind = classify(c, emoji);
    let link = message_link_text(c.reporting_room_id, e.event_id@);
    if !permitted(c, sender, kind, e.sender@) {
        (store, Seq::empty())
    } else if kind is Notice {
        match e.current() {
            MessageType::Text(body) => submission(
                store,
                c,
                bot_name,
                fresh_news(e.event_id@, e.sender@, author_name, now, body@),
                false,
            ),
            MessageType::Notice(body) => submission(
                store,
                c,
                bot_name,
                fresh_news(e.event_id@, e.sender@, author_name, now, body@),
                false,
            ),
            MessageType::Image(media) => attachment(
                store,
                c,
                sender,
                reaction_id,
                e,
                media,
                true,
            ),
            MessageType::Video(media) => attachment(
                store,
                c,
                sender,
                reaction_id,
                e,
                media,
                false,
            ),
            MessageType::Other => (store, Seq::empty()),
        }
    } else {
        match e.current() {
            MessageType::Text(_) => tagging(store, c, sender, reaction_id, e.event_id@, kind),
            MessageType::Notice(_) => tagging(store, c, sender, reaction_id, e.event_id@, kind),
            MessageType::Image(_) => (
                store,
                seq![admin_notice(invalid_for_image(emoji, sender, link))],
            ),
            MessageType::Video(_) => (store, seq![admin_notice(invalid_for_video(sender, link))]),
            MessageType::Other => (store, Seq::empty()),
        }
    }
}

/// The words that follow where a report lost its last tag.
pub open spec fn unassigned_remark(n: NewsView) -> Seq<char> {
    if assigned(n) {
        Seq::empty()
    } else {
        " The news entry is not assigned to a project or section anymore."@
    }
}

/// What the redaction of a message or of a reaction does. The report that
/// came in with the message is removed as a whole. Else the files of the
/// message leave the oldest report that holds one. Else what the reaction
/// did to the oldest report that it touched is taken back. Anything else is
/// ignored.
pub open spec fn redaction(store: Seq<NewsView>, c: ConfigView, member: Seq<char>, id: Seq<char>) -> (
    Seq<NewsView>,
    Seq<ActionView>,
) {
    if has_id(store, id) {
        let i = index_of_id(store, id);
        (
            store.remove(i),
            seq![
                admin_notice(
                    "✅ "@ + store[i].reporter_id + "’s news entry got deleted by "@ + member
                        + "."@,
                ),
            ],
        )
    } else if first_with_file(store, id) < store.len() {
        let i = first_with_file(store, id);
        (
            store.update(i, without_files_of(store[i], id)),
            seq![
                admin_notice(
                    "✅ "@ + member + " deleted an image/video of "@ + store[i].reporter_id
                        + "’s news entry."@,
                ),
            ],
        )
    } else if has_reaction(store, id) {
        let i = first_with_reaction(store, id);
        let n = store[i];
        let after = without_reaction(n, id);
        let link = message_link_text(c.reporting_room_id, id);
        (
            store.update(i, after),
            seq![
                admin_notice(
                    if removed_kind(n, id) is Notice {
                        "✅ "@ + member + " removed their image/video notice reaction from "@
                            + n.reporter_id + "’s news entry. ["@ + link + "]"@
                    } else {
                        "✅ "@ + member + " removed their "@ + reaction_label(removed_kind(n, id))
                            + " reaction from "@ + n.reporter_id + "’s news entry. ["@ + link
                            + "]"@ + unassigned_remark(after)
                    },
                ),
            ],
        )
    } else {
        (store, Seq::empty())
    }
}

/// Taking back the reaction that gave a report its only tag, a section tag,
/// leaves the report in the store, without tags and so unassigned, and with
/// everything else as it was; all other reports stay as they are. The editors
/// get one message: who removed a section reaction from whose entry, and that
/// the entry is not assigned anymore. The law speaks of a reaction id that is
/// not also the id of a stored message or of the message of an attached file,
/// and that no older report carries.
pub proof fn law_retracting_the_only_section_tag(
    store: Seq<NewsView>,
    c: ConfigView,
    member: Seq<char>,
    reaction: Seq<char>,
    i: int,
)
    requires
        0 <= i < store.len(),
        store[i].section_tags.len() == 1,
        store[i].section_tags[0].0 == reaction,
        store[i].project_tags.len() == 0,
        !has_id(store, reaction),
        forall|j: int| 0 <= j < store.len() ==> !has_file(#[trigger] store[j], reaction),
        forall|j: int| 0 <= j < i ==> !relates_to(#[trigger] store[j], reaction),
    ensures
        redaction(store, c, member, reaction) == (
            store.update(i, NewsView { section_tags: Seq::empty(), ..store[i] }),
            seq![
                admin_notice(
                    "✅ "@ + member + " removed their "@ + "section"@ + " reaction from "@
                        + store[i].reporter_id + "’s news entry. ["@ + message_link_text(
                        c.reporting_room_id,
                        reaction,
                    ) + "]"@
                        + " The news entry is not assigned to a project or section anymore."@,
                ),
            ],
        ),
        !assigned(NewsView { section_tags: Seq::empty(), ..store[i] }),
{
    let n = store[i];
    lemma_first_index_is(store, holds_file_of(reaction), store.len() as int);
    assert(has_key(n.section_tags, reaction));
    assert(relates_to(store[i], reaction));
    assert(has_reaction(store, reaction));
    lemma_first_with_reaction(store, reaction);
    assert(first_with_reaction(store, reaction) == i);
    assert(index_of_key(n.section_tags, reaction) == 0);
    assert(del(n.section_tags, reaction) =~= Seq::empty());
    let after = without_reaction(n, reaction);
    assert(after == (NewsView { section_tags: Seq::empty(), ..n }));
    assert(removed_kind(n, reaction) == ReactionTypeView::Section(None));
}

fn push_action(list: &mut Vec<Action>, action: Action)
    ensures
        views(final(list)@) == views(old(list)@).push(action@),
{
    list.push(action);
    assert(views(list@) =~= views(old(list)@).push(action@));
}

fn admin_message(text: String) -> (a: Action)
    ensures
        a@ == admin_notice(text@),
{
    Action::SendMessage { text, kind: BotMessageType::AdminRoomHtmlNotice }
}

fn reporting_message(text: String) -> (a: Action)
    ensures
        a@ == reporting_notice(text@),
{
    Action::SendMessage { text, kind: BotMessageType::ReportingRoomPlainNotice }
}

fn one_action(action: Action) -> (r: Vec<Action>)
    ensures
        views(r@) == seq![action@],
{
    let mut out: Vec<Action> = Vec::new();
    out.push(action);
    assert(views(out@) =~= seq![action@]);
    out
}

fn no_action() -> (r: Vec<Action>)
    ensures
        views(r@) == Seq::<ActionView>::empty(),
{
    let out: Vec<Action> = Vec::new();
    assert(views(out@) =~= Seq::<ActionView>::empty());
    out
}

fn clone_name(o: &Option<String>) -> (r: Option<String>)
    ensures
        option_view(r) == option_view(*o),
{
    match o {
        Some(s) => Some(s.clone()),
        None => None,
    }
}

/// An event of the reporting room, as the transport hands it over.
#[derive(Debug)]
pub enum Event {
    /// Somebody sent a text message.
    MessageCreated {
        event_id: String,
        sender_id: String,
        sender_display_name: String,
        body: String,
        /// The message carries a mention of the bot of its own.
        mentions_bot: bool,
        /// When the message was sent, in milliseconds since the Unix epoch.
        timestamp: i64,
    },
    /// Somebody edited a text message.
    MessageEdited { original_id: String, new_body: String },
    /// Somebody reacted to a message.
    ReactionAdded {
        reaction_id: String,
        target_id: String,
        sender_id: String,
        emoji: String,
        /// The message that was reacted to; `None` where it could not be
        /// fetched.
        target: Option<MessageEvent>,
        /// The display name of the sender of that message.
        target_sender_display_name: String,
        /// When the reaction was sent, in milliseconds since the Unix epoch.
        timestamp: i64,
    },
    /// Somebody took a message or a reaction back.
    ReactionRemoved { redacted_id: String, sender_id: String },
}

/// What an event does to the stored news, and what the bot does in return.
/// A message is looked at as a submission, an edit replaces the text of a
/// report, a reaction submits, attaches or tags, and a redaction takes back.
/// A reaction to a message that could not be fetched only warns the editors.
pub open spec fn handled(
    store: Seq<NewsView>,
    c: ConfigView,
    bot_name: Option<Seq<char>>,
    event: Event,
) -> (Seq<NewsView>, Seq<ActionView>) {
    match event {
        Event::MessageCreated {
            event_id,
            sender_id,
            sender_display_name,
            body,
            mentions_bot,
            timestamp,
        } => new_message(
            store,
            c,
            bot_name,
            mentions_bot,
            body@,
            sender_id@,
            sender_display_name@,
            event_id@,
            timestamp as int,
        ),
        Event::MessageEdited { original_id, new_body } => message_edit(
            store,
            c,
            bot_name,
            new_body@,
            original_id@,
        ),
        Event::ReactionAdded {
            reaction_id,
            target_id,
            sender_id,
            emoji,
            target,
            target_sender_display_name,
            timestamp,
        } => match target {
            Some(message) => reaction(
                store,
                c,
                bot_name,
                sender_id@,
                emoji@,
                reaction_id@,
                message,
                target_sender_display_name@,
                timestamp as int,
            ),
            None => (store, seq![admin_notice(unresolvable_warning(c, target_id@))]),
        },
        Event::ReactionRemoved { redacted_id, sender_id } => redaction(
            store,
            c,
            sender_id@,
            redacted_id@,
        ),
    }
}

/// Cuts the question mark off that marks an emoji as a suggestion of the
/// bot.
pub fn strip_marker(emoji: &str) -> (r: String)
    ensures
        r@ == without_marker(emoji@),
{
    let chars = chars_of(emoji);
    let n = chars.len();
    if n >= 2 && chars[n - 2] == ' ' && chars[n - 1] == '?' {
        let mut head: Vec<char> = Vec::new();
        let mut i: usize = 0;
        while i < n - 2
            invariant
                n == chars@.len(),
                n >= 2,
                i <= n - 2,
                head@ == chars@.take(i as int),
            decreases n - i,
        {
            head.push(chars[i]);
            proof {
                assert(chars@.take(i as int).push(chars@[i as int]) =~= chars@.take(i + 1));
            }
            i += 1;
        }
        string_of(&head)
    } else {
        String::from_str(emoji)
    }
}

/// The bot: its configuration and the news that it keeps.
#[derive(Debug)]
pub struct Bot {
    pub config: Config,
    pub news_store: NewsStore,
}

impl Bot {
    /// A bot with the given configuration and stored news.
    pub fn new(config: Config, news_store: NewsStore) -> (r: Self)
        ensures
            r.config@ == config@,
            r.news_store@ == news_store@,
    {
        Bot { config, news_store }
    }

    /// Tells whether `user_id` is one of the editors.
    pub fn is_editor(&self, user_id: &str) -> (r: bool)
        ensures
            r == self.config@.editors.contains(user_id@),
    {
        self.config.is_editor(user_id)
    }

    /// An HTML link that opens the message `event_id` of the reporting room.
    pub fn message_link(&self, event_id: &str) -> (r: String)
        ensures
            r@ == message_link_text(self.config@.reporting_room_id, event_id@),
    {
        message_link(&self.config, event_id)
    }

    fn suggest_projects(&self, message: &str, event_id: &str, actions: &mut Vec<Action>)
        ensures
            views(final(actions)@) == views(old(actions)@) + project_suggestions(
                self.config@.projects,
                message@,
                event_id@,
            ),
    {
        let ghost all = views(self.config.projects@);
        let ghost start = views(actions@);
        let mut i: usize = 0;
        proof {
            assert(all.take(0) =~= Seq::<ProjectView>::empty());
            assert(start + project_suggestions(all.take(0), message@, event_id@) =~= start);
        }
        while i < self.config.projects.len()
            invariant
                i <= self.config.projects@.len(),
                all == views(self.config.projects@),
                views(actions@) == start + project_suggestions(
                    all.take(i as int),
                    message@,
                    event_id@,
                ),
            decreases self.config.projects.len() - i,
        {
            proof {
                assert(all.take(i + 1).drop_last() =~= all.take(i as int));
                assert(all.take(i + 1).last() == self.config.projects@[i as int]@);
            }
            let project = &self.config.projects[i];
            let mut pattern = String::from_str("(?i)\\b");
            pattern.append(project.name.as_str());
            pattern.append("\\b|\\b");
            pattern.append(project.title.as_str());
            pattern.append("\\b");
            if matched(is_match(pattern.as_str(), message)) {
                let mut emoji = project.emoji.clone();
                emoji.append(" ?");
                let ghost before = project_suggestions(all.take(i as int), message@, event_id@);
                let action = Action::SendReaction { emoji, event_id: String::from_str(event_id) };
                push_action(actions, action);
                proof {
                    assert((start + before).push(action@) =~= start + before.push(action@));
                }
            }
            i += 1;
        }
        proof {
            assert(all.take(self.config.projects@.len() as int) =~= all);
        }
    }

    fn suggest_sections(&self, reporter_id: &str, event_id: &str, actions: &mut Vec<Action>)
        ensures
            views(final(actions)@) == views(old(actions)@) + section_suggestions(
                sections_of_reporter(self.config@.sections, reporter_id@),
                event_id@,
            ),
    {
        let sections = self.config.sections_by_usual_reporter(reporter_id);
        let ghost all = views(sections@);
        let ghost start = views(actions@);
        let mut i: usize = 0;
        proof {
            assert(start + section_suggestions(all, event_id@).take(0) =~= start);
        }
        while i < sections.len()
            invariant
                i <= sections@.len(),
                all == views(sections@),
                views(actions@) == start + section_suggestions(all, event_id@).take(i as int),
            decreases sections.len() - i,
        {
            let action = Action::SendReaction {
                emoji: sections[i].emoji.clone(),
                event_id: String::from_str(event_id),
            };
            let ghost goal = section_suggestions(all, event_id@);
            push_action(actions, action);
            proof {
                assert(action@ == goal[i as int]);
                assert((start + goal.take(i as int)).push(goal[i as int]) =~= start + goal.take(
                    i + 1,
                ));
            }
            i += 1;
        }
        proof {
            let goal = section_suggestions(all, event_id@);
            assert(goal.take(sections@.len() as int) =~= goal);
        }
    }

    /// Takes a submission in: see `submission`.
    pub fn add_news(
        &mut self,
        news: News,
        notify_reporter: bool,
        bot_display_name: Option<String>,
    ) -> (r: Vec<Action>)
        ensures
            final(self).config@ == old(self).config@,
            (final(self).news_store@, views(r@)) == submission(
                old(self).news_store@,
                old(self).config@,
                option_view(bot_display_name),
                news@,
                notify_reporter,
            ),
    {
        let mut news = news;
        let ghost submitted = news@;
        let link = self.message_link(news.event_id.as_str());
        if self.news_store.news_by_message_id(news.event_id.as_str()).is_some() {
            let mut msg = String::from_str(
                "⚠️ Cannot resubmit a news item that has already been added. [",
            );
            msg.append(link.as_str());
            msg.append("]");
            return one_action(admin_message(msg));
        }
        let message = remove_bot_name(
            self.config.bot_user_id.as_str(),
            bot_display_name,
            news.message.as_str(),
        );
        news.set_message(message);
        if news.message.as_str().as_bytes().len() > self.config.min_length {
            let mut actions = no_action();
            if notify_reporter && !self.config.ack_text.as_str().is_empty() {
                let msg = replace_all(
                    self.config.ack_text.as_str(),
                    "{{user}}",
                    news.reporter_display_name.as_str(),
                );
                push_action(&mut actions, reporting_message(msg));
            }
            proof {
                assert(views(actions@) =~= acknowledgment(
                    self.config@,
                    submitted,
                    notify_reporter,
                ));
            }
            let mut msg = String::from_str("✅ ");
            msg.append(news.reporter_id.as_str());
            msg.append(" submitted a news entry. [");
            msg.append(link.as_str());
            msg.append("]");
            push_action(&mut actions, admin_message(msg));
            self.suggest_projects(news.message.as_str(), news.event_id.as_str(), &mut actions);
            self.suggest_sections(news.reporter_id.as_str(), news.event_id.as_str(), &mut actions);
            let stored = self.news_store.add_news(news);
            proof {
                let ack = acknowledgment(self.config@, submitted, notify_reporter);
                let want = submission(
                    old(self).news_store@,
                    old(self).config@,
                    option_view(bot_display_name),
                    submitted,
                    notify_reporter,
                ).1;
                assert(views(actions@) =~= want);
            }
            actions
        } else {
            let mut msg = String::from_str("❌ ");
            msg.append(news.reporter_display_name.as_str());
            msg.append(
                ": Your update is too short and was not stored. This limitation was set-up to limit spam.",
            );
            one_action(reporting_message(msg))
        }
    }

    /// New message in the reporting room: see `new_message`. The report is
    /// stamped with `now`.
    pub fn on_reporting_room_msg_at(
        &mut self,
        message: &str,
        mentions_bot: bool,
        sender_id: &str,
        sender_display_name: &str,
        event_id: &str,
        bot_display_name: Option<String>,
        now: i64,
    ) -> (r: Vec<Action>)
        ensures
            final(self).config@ == old(self).config@,
            (final(self).news_store@, views(r@)) == new_message(
                old(self).news_store@,
                old(self).config@,
                option_view(bot_display_name),
                mentions_bot,
                message@,
                sender_id@,
                sender_display_name@,
                event_id@,
                now as int,
            ),
    {
        if !mentions_bot && !msg_starts_with_mention(
            self.config.bot_user_id.as_str(),
            clone_name(&bot_display_name),
            message,
        ) {
            return no_action();
        }
        let news = News::new_at(
            String::from_str(event_id),
            String::from_str(sender_id),
            String::from_str(sender_display_name),
            String::from_str(message),
            now,
        );
        self.add_news(news, true, bot_display_name)
    }

    /// New message in the reporting room, stamped with the time of the
    /// clock: for some time, what `on_reporting_room_msg_at` does.
    pub fn on_reporting_room_msg(
        &mut self,
        message: &str,
        mentions_bot: bool,
        sender_id: &str,
        sender_display_name: &str,
        event_id: &str,
        bot_display_name: Option<String>,
    ) -> (r: Vec<Action>)
        ensures
            final(self).config@ == old(self).config@,
            exists|now: i64|
                (final(self).news_store@, views(r@)) == #[trigger] new_message(
                    old(self).news_store@,
                    old(self).config@,
                    option_view(bot_display_name),
                    mentions_bot,
                    message@,
                    sender_id@,
                    sender_display_name@,
                    event_id@,
                    now as int,
                ),
    {
        let now = crate::clock::now_millis();
        self.on_reporting_room_msg_at(
            message,
            mentions_bot,
            sender_id,
            sender_display_name,
            event_id,
            bot_display_name,
            now,
        )
    }

    /// A message of the reporting room was edited: see `message_edit`.
    pub fn on_reporting_room_msg_edit(
        &mut self,
        updated_message: &str,
        edited_msg_event_id: &str,
        bot_display_name: Option<String>,
    ) -> (r: Vec<Action>)
        ensures
            final(self).config@ == old(self).config@,
            (final(self).news_store@, views(r@)) == message_edit(
                old(self).news_store@,
                old(self).config@,
                option_view(bot_display_name),
                updated_message@,
                edited_msg_event_id@,
            ),
    {
        let updated = remove_bot_name(
            self.config.bot_user_id.as_str(),
            bot_display_name,
            updated_message,
        );
        match self.news_store.position(edited_msg_event_id) {
            Some(i) => {
                let mut news = self.news_store.news_at(i).clone();
                news.set_message(updated);
                let actions = if news.is_assigned() {
                    let mut msg = String::from_str("✅ The news entry by ");
                    msg.append(news.reporter_id.as_str());
                    msg.append(
                        " got edited. Check the new text, and make sure you want to keep the assigned project/section. [",
                    );
                    msg.append(self.message_link(edited_msg_event_id).as_str());
                    msg.append("]");
                    one_action(admin_message(msg))
                } else {
                    no_action()
                };
                self.news_store.replace_at(i, news);
                actions
            },
            None => no_action(),
        }
    }

    fn tag_news(
        &mut self,
        reaction_sender: &str,
        reaction_event_id: &str,
        target_id: &str,
        kind: ReactionType,
    ) -> (r: Vec<Action>)
        ensures
            final(self).config@ == old(self).config@,
            (final(self).news_store@, views(r@)) == tagging(
                old(self).news_store@,
                old(self).config@,
                reaction_sender@,
                reaction_event_id@,
                target_id@,
                kind@,
            ),
    {
        let link = self.message_link(target_id);
        match self.news_store.position(target_id) {
            Some(i) => {
                let mut news = self.news_store.news_at(i).clone();
                match kind {
                    ReactionType::Section(Some(section)) => {
                        let mut msg = String::from_str("✅ ");
                        msg.append(reaction_sender);
                        msg.append(" added ");
                        msg.append(news.reporter_id.as_str());
                        msg.append("’s news entry [");
                        msg.append(link.as_str());
                        msg.append("] to the “");
                        msg.append(section.title.as_str());
                        msg.append("” section.");
                        news.add_section_name(String::from_str(reaction_event_id), section.name);
                        self.news_store.replace_at(i, news);
                        one_action(admin_message(msg))
                    },
                    ReactionType::Project(Some(project)) => {
                        let mut msg = String::from_str("✅ ");
                        msg.append(reaction_sender);
                        msg.append(" added the project description “");
                        msg.append(project.title.as_str());
                        msg.append("” to ");
                        msg.append(news.reporter_id.as_str());
                        msg.append("’s news entry [");
                        msg.append(link.as_str());
                        msg.append("].");
                        news.add_project_name(String::from_str(reaction_event_id), project.name);
                        self.news_store.replace_at(i, news);
                        one_action(admin_message(msg))
                    },
                    _ => no_action(),
                }
            },
            None => {
                let mut msg = String::from_str("⚠️ Unable to process ");
                msg.append(reaction_sender);
                msg.append("’s ");
                msg.append(kind.label().as_str());
                msg.append(" reaction, message doesn’t exist or isn’t a news submission [");
                msg.append(link.as_str());
                msg.append("]\n(ID ");
                msg.append(target_id);
                msg.append(")");
                one_action(admin_message(msg))
            },
        }
    }

    fn attach_media(
        &mut self,
        reaction_sender: &str,
        reaction_event_id: &str,
        related_event: &MessageEvent,
        media: &MediaContent,
        image: bool,
    ) -> (r: Vec<Action>)
        ensures
            final(self).config@ == old(self).config@,
            (final(self).news_store@, views(r@)) == attachment(
                old(self).news_store@,
                old(self).config@,
                reaction_sender@,
                reaction_event_id@,
                *related_event,
                *media,
                image,
            ),
    {
        let link = self.message_link(related_event.event_id.as_str());
        let word = if image {
            "image"
        } else {
            "video"
        };
        match self.news_store.position_related(
            related_event.sender.as_str(),
            related_event.origin_server_ts,
        ) {
            Some(i) => match &media.source {
                MediaSource::Plain(uri) => {
                    let mut news = self.news_store.news_at(i).clone();
                    let mut msg = String::from_str("✅ Added ");
                    msg.append(word);
                    msg.append(" to ");
                    msg.append(news.reporter_id.as_str());
                    msg.append("’s news entry (“");
                    msg.append(news.message_summary().as_str());
                    msg.append("”) [");
                    msg.append(link.as_str());
                    msg.append("].");
                    if image {
                        news.add_image(
                            String::from_str(reaction_event_id),
                            related_event.event_id.clone(),
                            media.body.clone(),
                            uri.clone(),
                        );
                    } else {
                        news.add_video(
                            String::from_str(reaction_event_id),
                            related_event.event_id.clone(),
                            media.body.clone(),
                            uri.clone(),
                        );
                    }
                    self.news_store.replace_at(i, news);
                    one_action(admin_message(msg))
                },
                MediaSource::Encrypted => no_action(),
            },
            None => {
                let mut msg = String::from_str("❌ Unable to save ");
                msg.append(reaction_sender);
                msg.append("’s ");
                msg.append(word);
                msg.append(", no matching news entry found (");
                msg.append(link.as_str());
                msg.append(").");
                one_action(admin_message(msg))
            },
        }
    }

    /// Decides whether `sender` may react with an emoji of the kind `kind` to
    /// a message of `author`: see `permitted`.
    pub fn authorize_reaction(&self, sender: &str, kind: &ReactionType, author: &str) -> (r: Result<
        (),
        Error,
    >)
        ensures
            r is Ok == permitted(self.config@, sender@, kind@, author@),
            r is Err ==> r->Err_0 == Error::InsufficientPrivilege,
    {
        if text_eq(sender, self.config.bot_user_id.as_str()) {
            return Err(Error::InsufficientPrivilege);
        }
        let allowed = match kind {
            ReactionType::Notice => self.is_editor(sender) || text_eq(sender, author)
                || !self.config.restrict_notice,
            ReactionType::Section(_) => self.is_editor(sender),
            ReactionType::Project(_) => self.is_editor(sender),
            ReactionType::Nothing => false,
        };
        if allowed {
            Ok(())
        } else {
            Err(Error::InsufficientPrivilege)
        }
    }

    /// A reaction came in whose message could not be fetched: the editors
    /// are warned, and nothing else happens.
    pub fn on_unresolvable_reaction(&self, related_event_id: &str) -> (r: Vec<Action>)
        ensures
            views(r@) == seq![admin_notice(unresolvable_warning(self.config@, related_event_id@))],
    {
        let mut msg = String::from_str("⚠️ Unable to process the reaction, ");
        msg.append(Error::TargetUnresolvable.message().as_str());
        msg.append(" [");
        msg.append(self.message_link(related_event_id).as_str());
        msg.append("]");
        one_action(admin_message(msg))
    }

    /// New emoji reaction in the reporting room: see `reaction`. A report
    /// that the reaction submits is stamped with `now`.
    pub fn on_reporting_room_reaction_at(
        &mut self,
        reaction_sender: &str,
        reaction_emoji: &str,
        reaction_event_id: &str,
        related_event: &MessageEvent,
        related_sender_display_name: &str,
        bot_display_name: Option<String>,
        now: i64,
    ) -> (r: Vec<Action>)
        ensures
            final(self).config@ == old(self).config@,
            (final(self).news_store@, views(r@)) == reaction(
                old(self).news_store@,
                old(self).config@,
                option_view(bot_display_name),
                reaction_sender@,
                reaction_emoji@,
                reaction_event_id@,
                *related_event,
                related_sender_display_name@,
                now as int,
            ),
    {
        let emoji = strip_marker(strip_char(reaction_emoji, '\u{fe0f}').as_str());
        let kind = self.config.reaction_type_by_emoji(emoji.as_str());
        match self.authorize_reaction(reaction_sender, &kind, related_event.sender.as_str()) {
            Ok(()) => {},
            Err(_) => {
                return no_action();
            },
        }
        if kind.is_notice() {
            match related_event.msgtype() {
                MessageType::Text(body) => {
                    let news = News::new_at(
                        related_event.event_id.clone(),
                        related_event.sender.clone(),
                        String::from_str(related_sender_display_name),
                        body.clone(),
                        now,
                    );
                    self.add_news(news, false, bot_display_name)
                },
                MessageType::Notice(body) => {
                    let news = News::new_at(
                        related_event.event_id.clone(),
                        related_event.sender.clone(),
                        String::from_str(related_sender_display_name),
                        body.clone(),
                        now,
                    );
                    self.add_news(news, false, bot_display_name)
                },
                MessageType::Image(media) => self.attach_media(
                    reaction_sender,
                    reaction_event_id,
                    related_event,
                    media,
                    true,
                ),
                MessageType::Video(media) => self.attach_media(
                    reaction_sender,
                    reaction_event_id,
                    related_event,
                    media,
                    false,
                ),
                MessageType::Other => no_action(),
            }
        } else {
            let link = self.message_link(related_event.event_id.as_str());
            match related_event.msgtype() {
                MessageType::Text(_) => self.tag_news(
                    reaction_sender,
                    reaction_event_id,
                    related_event.event_id.as_str(),
                    kind,
                ),
                MessageType::Notice(_) => self.tag_news(
                    reaction_sender,
                    reaction_event_id,
                    related_event.event_id.as_str(),
                    kind,
                ),
                MessageType::Image(_) => {
                    let mut msg = String::from_str("❌ Invalid reaction emoji ");
                    msg.append(emoji.as_str());
                    msg.append(" by ");
                    msg.append(reaction_sender);
                    msg.append(" for message type image [");
                    msg.append(link.as_str());
                    msg.append("].");
                    one_action(admin_message(msg))
                },
                MessageType::Video(_) => {
                    let mut msg = String::from_str("❌ Invalid reaction emoji by ");
                    msg.append(reaction_sender);
                    msg.append(" for message type video [");
                    msg.append(link.as_str());
                    msg.append("].");
                    one_action(admin_message(msg))
                },
                MessageType::Other => no_action(),
            }
        }
    }

    /// New emoji reaction in the reporting room, with the time of the clock
    /// for a report that it submits: for some time, what
    /// `on_reporting_room_reaction_at` does.
    pub fn on_reporting_room_reaction(
        &mut self,
        reaction_sender: &str,
        reaction_emoji: &str,
        reaction_event_id: &str,
        related_event: &MessageEvent,
        related_sender_display_name: &str,
        bot_display_name: Option<String>,
    ) -> (r: Vec<Action>)
        ensures
            final(self).config@ == old(self).config@,
            exists|now: i64|
                (final(self).news_store@, views(r@)) == #[trigger] reaction(
                    old(self).news_store@,
                    old(self).config@,
                    option_view(bot_display_name),
                    reaction_sender@,
                    reaction_emoji@,
                    reaction_event_id@,
                    *related_event,
                    related_sender_display_name@,
                    now as int,
                ),
    {
        let now = crate::clock::now_millis();
        self.on_reporting_room_reaction_at(
            reaction_sender,
            reaction_emoji,
            reaction_event_id,
            related_event,
            related_sender_display_name,
            bot_display_name,
            now,
        )
    }

    /// Something got redacted in the reporting room: see `redaction`.
    pub fn on_reporting_room_redaction(&mut self, member_id: &str, redacted_event_id: &str) -> (r:
        Vec<Action>)
        ensures
            final(self).config@ == old(self).config@,
            (final(self).news_store@, views(r@)) == redaction(
                old(self).news_store@,
                old(self).config@,
                member_id@,
                redacted_event_id@,
            ),
    {
        match self.news_store.remove_news(redacted_event_id) {
            Ok(news) => {
                let mut msg = String::from_str("✅ ");
                msg.append(news.reporter_id.as_str());
                msg.append("’s news entry got deleted by ");
                msg.append(member_id);
                msg.append(".");
                return one_action(admin_message(msg));
            },
            Err(_) => {},
        }
        match self.news_store.position_by_file_id(redacted_event_id) {
            Some(i) => {
                let mut news = self.news_store.news_at(i).clone();
                news.remove_files_of(redacted_event_id);
                let mut msg = String::from_str("✅ ");
                msg.append(member_id);
                msg.append(" deleted an image/video of ");
                msg.append(news.reporter_id.as_str());
                msg.append("’s news entry.");
                self.news_store.replace_at(i, news);
                return one_action(admin_message(msg));
            },
            None => {},
        }
        match self.news_store.position_by_reaction_id(redacted_event_id) {
            Some(i) => {
                let mut news = self.news_store.news_at(i).clone();
                let kind = news.remove_reaction_id(redacted_event_id);
                let link = self.message_link(redacted_event_id);
                let mut msg = String::from_str("✅ ");
                msg.append(member_id);
                if kind.is_notice() {
                    msg.append(" removed their image/video notice reaction from ");
                    msg.append(news.reporter_id.as_str());
                    msg.append("’s news entry. [");
                    msg.append(link.as_str());
                    msg.append("]");
                } else {
                    msg.append(" removed their ");
                    msg.append(kind.label().as_str());
                    msg.append(" reaction from ");
                    msg.append(news.reporter_id.as_str());
                    msg.append("’s news entry. [");
                    msg.append(link.as_str());
                    msg.append("]");
                    if !news.is_assigned() {
                        msg.append(
                            " The news entry is not assigned to a project or section anymore.",
                        );
                    } else {
                        proof {
                            assert(msg@ + Seq::<char>::empty() =~= msg@);
                        }
                    }
                }
                self.news_store.replace_at(i, news);
                one_action(admin_message(msg))
            },
            None => no_action(),
        }
    }

    /// Handles one event of the reporting room: see `handled`.
    pub fn handle_event(&mut self, event: Event, bot_display_name: Option<String>) -> (r: Vec<
        Action,
    >)
        ensures
            final(self).config@ == old(self).config@,
            (final(self).news_store@, views(r@)) == handled(
                old(self).news_store@,
                old(self).config@,
                option_view(bot_display_name),
                event,
            ),
    {
        match event {
            Event::MessageCreated {
                event_id,
                sender_id,
                sender_display_name,
                body,
                mentions_bot,
                timestamp,
            } => self.on_reporting_room_msg_at(
                body.as_str(),
                mentions_bot,
                sender_id.as_str(),
                sender_display_name.as_str(),
                event_id.as_str(),
                bot_display_name,
                timestamp,
            ),
            Event::MessageEdited { original_id, new_body } => self.on_reporting_room_msg_edit(
                new_body.as_str(),
                original_id.as_str(),
                bot_display_name,
            ),
            Event::ReactionAdded {
                reaction_id,
                target_id,
                sender_id,
                emoji,
                target,
                target_sender_display_name,
                timestamp,
            } => match target {
                Some(message) => self.on_reporting_room_reaction_at(
                    sender_id.as_str(),
                    emoji.as_str(),
                    reaction_id.as_str(),
                    &message,
                    target_sender_display_name.as_str(),
                    bot_display_name,
                    timestamp,
                ),
                None => self.on_unresolvable_reaction(target_id.as_str()),
            },
            Event::ReactionRemoved { redacted_id, sender_id } => self.on_reporting_room_redaction(
                sender_id.as_str(),
                redacted_id.as_str(),
            ),
        }
    }
}

} // verus!
