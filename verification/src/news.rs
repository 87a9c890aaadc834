//! One submitted report and the section tags, project tags, images and
//! videos that reactions have attached to it.

use vstd::prelude::*;
use vstd::string::*;
use crate::clock::now_millis;
use crate::idmap::{del, distinct_keys, has_key, put, value_of, Entries, IdMap};
use crate::mxc::{media_id, media_id_or_empty};
use crate::names::{insert_name, names_of, with_name};
use crate::reaction_type::{ReactionType, ReactionTypeView};
use crate::text::{chars_of, string_of, views};

verus! {

/// An image or a video that a reaction attached to a news entry.
#[derive(Debug)]
pub struct MediaFile {
    /// The message that carries the file.
    pub event_id: String,
    /// The name that the sender gave the file.
    pub filename: String,
    /// Where the content is stored.
    pub uri: String,
}

/// What a `MediaFile` holds.
pub ghost struct MediaFileView {
    pub event_id: Seq<char>,
    pub filename: Seq<char>,
    pub uri: Seq<char>,
}

impl View for MediaFile {
    type V = MediaFileView;

    open spec fn view(&self) -> MediaFileView {
        MediaFileView {
            event_id: self.event_id@,
            filename: self.filename@,
            uri: self.uri@,
        }
    }
}

impl Clone for MediaFile {
    fn clone(&self) -> (r: Self)
        ensures
            r@ == self@,
    {
        MediaFile {
            event_id: self.event_id.clone(),
            filename: self.filename.clone(),
            uri: self.uri.clone(),
        }
    }
}

/// A submitted report.
#[derive(Debug)]
pub struct News {
    /// The message that the report came in with; it never changes.
    pub event_id: String,
    /// Who submitted the report.
    pub reporter_id: String,
    /// The reporter's display name at the time of submission.
    pub reporter_display_name: String,
    /// The time of submission, in milliseconds since the Unix epoch.
    pub timestamp: i64,
    /// The text of the report.
    pub message: String,
    /// Section names by the reaction that added them.
    pub section_names: IdMap<String>,
    /// Project names by the reaction that added them.
    pub project_names: IdMap<String>,
    /// Images by the reaction that attached them.
    pub images: IdMap<MediaFile>,
    /// Videos by the reaction that attached them.
    pub videos: IdMap<MediaFile>,
}

/// What a `News` holds.
pub ghost struct NewsView {
    pub event_id: Seq<char>,
    pub reporter_id: Seq<char>,
    pub reporter_display_name: Seq<char>,
    pub timestamp: int,
    pub message: Seq<char>,
    pub section_tags: Entries<Seq<char>>,
    pub project_tags: Entries<Seq<char>>,
    pub images: Entries<MediaFileView>,
    pub videos: Entries<MediaFileView>,
}

impl View for News {
    type V = NewsView;

    open spec fn view(&self) -> NewsView {
        NewsView {
            event_id: self.event_id@,
            reporter_id: self.reporter_id@,
            reporter_display_name: self.reporter_display_name@,
            timestamp: self.timestamp as int,
            message: self.message@,
            section_tags: self.section_names@,
            project_tags: self.project_names@,
            images: self.images@,
            videos: self.videos@,
        }
    }
}

/// A fresh report: no tags and no media.
pub open spec fn fresh_news(
    event_id: Seq<char>,
    reporter_id: Seq<char>,
    reporter_display_name: Seq<char>,
    timestamp: int,
    message: Seq<char>,
) -> NewsView {
    NewsView {
        event_id,
        reporter_id,
        reporter_display_name,
        timestamp,
        message,
        section_tags: Seq::empty(),
        project_tags: Seq::empty(),
        images: Seq::empty(),
        videos: Seq::empty(),
    }
}

/// A report counts as assigned once it carries a section or a project tag.
pub open spec fn assigned(n: NewsView) -> bool {
    n.section_tags.len() > 0 || n.project_tags.len() > 0
}

/// A report is filed without ambiguity when it names exactly one section
/// and exactly one project.
pub open spec fn singly_tagged(n: NewsView) -> bool {
    names_of(n.section_tags).len() == 1 && names_of(n.project_tags).len() == 1
}

/// Some tag or attachment of `n` was made by the reaction `id`.
pub open spec fn relates_to(n: NewsView, id: Seq<char>) -> bool {
    has_key(n.section_tags, id) || has_key(n.project_tags, id) || has_key(n.images, id) || has_key(
        n.videos,
        id,
    )
}

/// The first 50 characters of a message of more than 50 characters,
/// followed by an ellipsis; a shorter message as it is.
pub open spec fn summary(m: Seq<char>) -> Seq<char> {
    if m.len() > 50 {
        m.take(50) + " …"@
    } else {
        m
    }
}

/// `acc` with the files of `files` added one by one, by content locator. A
/// file is named by the media id of its locator, an underscore and its file
/// name. A locator that is there already keeps its place and takes the name
/// of the later file; a new locator goes to the end.
pub open spec fn files_into(acc: Entries<Seq<char>>, files: Entries<MediaFileView>) -> Entries<
    Seq<char>,
>
    decreases files.len(),
{
    if files.len() == 0 {
        acc
    } else {
        let f = files.last().1;
        put(
            files_into(acc, files.drop_last()),
            f.uri,
            media_id_or_empty(f.uri) + "_"@ + f.filename,
        )
    }
}

/// The files of `files` by content locator, in the order in which each
/// locator first occurs.
pub open spec fn files_by_uri(files: Entries<MediaFileView>) -> Entries<Seq<char>> {
    files_into(Seq::empty(), files)
}

/// Adding files keeps the locators distinct.
pub proof fn law_files_once_per_locator(acc: Entries<Seq<char>>, files: Entries<MediaFileView>)
    requires
        distinct_keys(acc),
    ensures
        distinct_keys(files_into(acc, files)),
        files_into(acc, files).len() <= acc.len() + files.len(),
    decreases files.len(),
{
    if files.len() > 0 {
        law_files_once_per_locator(acc, files.drop_last());
        let f = files.last().1;
        crate::idmap::lemma_put(
            files_into(acc, files.drop_last()),
            f.uri,
            media_id_or_empty(f.uri) + "_"@ + f.filename,
        );
    }
}

/// Some entry of `files` is a file of the message `file_event_id`.
pub open spec fn holds_file(files: Entries<MediaFileView>, file_event_id: Seq<char>) -> bool {
    exists|i: int| 0 <= i < files.len() && (#[trigger] files[i]).1.event_id == file_event_id
}

/// `files` without the files of the message `file_event_id`.
pub open spec fn without_file(files: Entries<MediaFileView>, file_event_id: Seq<char>) -> Entries<
    MediaFileView,
>
    decreases files.len(),
{
    if files.len() == 0 {
        files
    } else if files[0].1.event_id == file_event_id {
        without_file(files.drop_first(), file_event_id)
    } else {
        seq![files[0]] + without_file(files.drop_first(), file_event_id)
    }
}

/// Some image or video of `n` is a file of the message `file_event_id`.
pub open spec fn has_file(n: NewsView, file_event_id: Seq<char>) -> bool {
    holds_file(n.images, file_event_id) || holds_file(n.videos, file_event_id)
}

/// `n` without the images and videos of the message `file_event_id`.
pub open spec fn without_files_of(n: NewsView, file_event_id: Seq<char>) -> NewsView {
    NewsView {
        images: without_file(n.images, file_event_id),
        videos: without_file(n.videos, file_event_id),
        ..n
    }
}

/// Where no entry is a file of the message, nothing is removed.
pub proof fn law_no_file_nothing_removed(files: Entries<MediaFileView>, file_event_id: Seq<char>)
    requires
        !holds_file(files, file_event_id),
    ensures
        without_file(files, file_event_id) == files,
    decreases files.len(),
{
    if files.len() > 0 {
        let rest = files.drop_first();
        assert(files[0].1.event_id != file_event_id);
        assert forall|i: int| 0 <= i < rest.len() implies (#[trigger] rest[i]).1.event_id
            != file_event_id by {
            assert(rest[i] == files[i + 1]);
        }
        law_no_file_nothing_removed(rest, file_event_id);
        assert(seq![files[0]] + rest =~= files);
    }
}

fn drop_files_of(files: &mut IdMap<MediaFile>, file_event_id: &str) -> (r: bool)
    ensures
        final(files)@ == without_file(old(files)@, file_event_id@),
        r == holds_file(old(files)@, file_event_id@),
{
    let ghost all = files@;
    let mut found = false;
    let mut i: usize = files.len();
    proof {
        assert(all.skip(all.len() as int) =~= Entries::<MediaFileView>::empty());
        assert(all.take(all.len() as int) =~= all);
        assert(all + without_file(all.skip(all.len() as int), file_event_id@) =~= all);
    }
    while i > 0
        invariant
            i <= all.len(),
            files@ == all.take(i as int) + without_file(all.skip(i as int), file_event_id@),
            found == holds_file(all.skip(i as int), file_event_id@),
        decreases i,
    {
        i -= 1;
        let ghost tail = all.skip(i as int);
        let ghost kept = without_file(all.skip(i + 1), file_event_id@);
        proof {
            assert(tail.drop_first() =~= all.skip(i + 1));
            assert(tail[0] == all[i as int]);
            assert(files@[i as int] == all[i as int]);
            if holds_file(all.skip(i + 1), file_event_id@) {
                let k = choose|k: int|
                    0 <= k < all.skip(i + 1).len() && (#[trigger] all.skip(i + 1)[k]).1.event_id
                        == file_event_id@;
                assert(tail[k + 1].1.event_id == file_event_id@);
            }
            if holds_file(tail, file_event_id@) && tail[0].1.event_id != file_event_id@ {
                let k = choose|k: int|
                    0 <= k < tail.len() && (#[trigger] tail[k]).1.event_id == file_event_id@;
                assert(all.skip(i + 1)[k - 1].1.event_id == file_event_id@);
            }
        }
        if crate::text::text_eq(files.value_at(i).event_id.as_str(), file_event_id) {
            files.remove_at(i);
            found = true;
            proof {
                assert(files@ =~= all.take(i as int) + kept);
            }
        } else {
            proof {
                assert(all.take(i + 1) + kept =~= all.take(i as int) + (seq![all[i as int]]
                    + kept));
            }
        }
    }
    proof {
        assert(all.skip(0) =~= all);
        assert(all.take(0) + without_file(all, file_event_id@) =~= without_file(
            all,
            file_event_id@,
        ));
    }
    found
}

/// `n` after the reaction `id` was taken back: the entry that the reaction
/// made leaves the first of section tags, project tags and media that has
/// one (images and videos both).
pub open spec fn without_reaction(n: NewsView, id: Seq<char>) -> NewsView {
    if has_key(n.section_tags, id) {
        NewsView { section_tags: del(n.section_tags, id), ..n }
    } else if has_key(n.project_tags, id) {
        NewsView { project_tags: del(n.project_tags, id), ..n }
    } else {
        NewsView { images: del(n.images, id), videos: del(n.videos, id), ..n }
    }
}

/// What taking back the reaction `id` removed from `n`.
pub open spec fn removed_kind(n: NewsView, id: Seq<char>) -> ReactionTypeView {
    if has_key(n.section_tags, id) {
        ReactionTypeView::Section(None)
    } else if has_key(n.project_tags, id) {
        ReactionTypeView::Project(None)
    } else if has_key(n.images, id) || has_key(n.videos, id) {
        ReactionTypeView::Notice
    } else {
        ReactionTypeView::Nothing
    }
}

/// A report without tags is not assigned. A section tag or a project tag
/// makes it assigned, and taking that tag back makes it unassigned again.
pub proof fn law_assignment(n: NewsView, reaction: Seq<char>, name: Seq<char>)
    requires
        n.section_tags.len() == 0,
        n.project_tags.len() == 0,
    ensures
        !assigned(n),
        assigned(NewsView { section_tags: put(n.section_tags, reaction, name), ..n }),
        assigned(NewsView { project_tags: put(n.project_tags, reaction, name), ..n }),
        !assigned(
            without_reaction(
                NewsView { section_tags: put(n.section_tags, reaction, name), ..n },
                reaction,
            ),
        ),
        !assigned(
            without_reaction(
                NewsView { project_tags: put(n.project_tags, reaction, name), ..n },
                reaction,
            ),
        ),
{
    let tagged = put(n.section_tags, reaction, name);
    assert(tagged[0].0 == reaction);
    assert(has_key(tagged, reaction));
    assert(del(tagged, reaction).len() == 0);
    let filed = put(n.project_tags, reaction, name);
    assert(filed[0].0 == reaction);
    assert(has_key(filed, reaction));
    assert(del(filed, reaction).len() == 0);
    assert(!has_key(n.section_tags, reaction));
}

/// The same tag by the same reaction counts once, however often it is
/// added: the second time changes nothing. The same name by two reactions
/// is kept twice and still counts as one name.
pub proof fn law_same_tag_twice(
    tags: Entries<Seq<char>>,
    reaction: Seq<char>,
    other: Seq<char>,
    name: Seq<char>,
)
    requires
        distinct_keys(tags),
        reaction != other,
    ensures
        put(put(tags, reaction, name), reaction, name) == put(tags, reaction, name),
        names_of(put(put(Seq::empty(), reaction, name), reaction, name)) == seq![name],
        put(put(Seq::empty(), reaction, name), other, name).len() == 2,
        names_of(put(put(Seq::empty(), reaction, name), other, name)) == seq![name],
{
    crate::idmap::lemma_put(tags, reaction, name);
    let once = put(tags, reaction, name);
    assert(put(once, reaction, name) =~= once);
    let none = Entries::<Seq<char>>::empty();
    let single = put(none, reaction, name);
    assert(single =~= seq![(reaction, name)]);
    assert(single[0].0 == reaction);
    assert(has_key(single, reaction));
    assert(put(single, reaction, name) =~= single);
    assert(single.drop_last() =~= none);
    assert(names_of(none) =~= Seq::<Seq<char>>::empty());
    assert(single.last().1 == name);
    assert(names_of(single) == with_name(names_of(single.drop_last()), name));
    assert(with_name(Seq::<Seq<char>>::empty(), name) =~= seq![name]);
    assert(names_of(single) =~= seq![name]);
    assert(!has_key(single, other));
    let double = put(single, other, name);
    assert(double.drop_last() =~= single);
    assert(double.last().1 == name);
    assert(names_of(double) == with_name(names_of(double.drop_last()), name));
    assert(seq![name][0] == name);
}

/// Taking back a reaction that did nothing to a report changes nothing, and
/// is reported as nothing.
pub proof fn law_unknown_reaction(n: NewsView, reaction: Seq<char>)
    requires
        !relates_to(n, reaction),
    ensures
        without_reaction(n, reaction) == n,
        removed_kind(n, reaction) is Nothing,
{
}

fn clone_tags(m: &IdMap<String>) -> (r: IdMap<String>)
    ensures
        r@ == m@,
{
    let mut out: IdMap<String> = IdMap::new();
    let n = m.len();
    let mut i: usize = 0;
    while i < n
        invariant
            i <= n,
            n == m@.len(),
            distinct_keys(m@),
            out@ == m@.take(i as int),
        decreases n - i,
    {
        let k = m.key_at(i).clone();
        let v = m.value_at(i).clone();
        proof {
            if has_key(out@, k@) {
                let j = crate::idmap::index_of_key(out@, k@);
                assert(m@[j].0 == m@[i as int].0);
            }
            assert(m@.take(i as int).push((k@, v@)) =~= m@.take(i + 1));
        }
        out.insert(k, v);
        i += 1;
    }
    proof {
        assert(m@.take(n as int) =~= m@);
    }
    out
}

fn clone_files(m: &IdMap<MediaFile>) -> (r: IdMap<MediaFile>)
    ensures
        r@ == m@,
{
    let mut out: IdMap<MediaFile> = IdMap::new();
    let n = m.len();
    let mut i: usize = 0;
    while i < n
        invariant
            i <= n,
            n == m@.len(),
            distinct_keys(m@),
            out@ == m@.take(i as int),
        decreases n - i,
    {
        let k = m.key_at(i).clone();
        let v = m.value_at(i).clone();
        proof {
            if has_key(out@, k@) {
                let j = crate::idmap::index_of_key(out@, k@);
                assert(m@[j].0 == m@[i as int].0);
            }
            assert(m@.take(i as int).push((k@, v@)) =~= m@.take(i + 1));
        }
        out.insert(k, v);
        i += 1;
    }
    proof {
        assert(m@.take(n as int) =~= m@);
    }
    out
}

fn sorted_names(m: &IdMap<String>) -> (r: Vec<String>)
    ensures
        views(r@) == names_of(m@),
{
    let mut out: Vec<String> = Vec::new();
    let n = m.len();
    let mut i: usize = 0;
    proof {
        assert(views(out@) =~= names_of(m@.take(0)));
    }
    while i < n
        invariant
            i <= n,
            n == m@.len(),
            views(out@) == names_of(m@.take(i as int)),
        decreases n - i,
    {
        proof {
            assert(m@.take(i + 1).drop_last() =~= m@.take(i as int));
        }
        insert_name(&mut out, m.value_at(i).clone());
        i += 1;
    }
    proof {
        assert(m@.take(n as int) =~= m@);
    }
    out
}

/// Pairs of texts, each text seen as its characters.
pub open spec fn pair_views(s: Seq<(String, String)>) -> Seq<(Seq<char>, Seq<char>)> {
    Seq::new(s.len(), |i: int| (s[i].0@, s[i].1@))
}

/// The files of a map by locator as pairs of file name and locator.
pub open spec fn file_pairs(files: Entries<Seq<char>>) -> Seq<(Seq<char>, Seq<char>)> {
    Seq::new(files.len(), |i: int| (files[i].1, files[i].0))
}

/// Hands out the files of a map by locator as pairs of file name and
/// locator.
pub fn files_to_pairs(by_uri: &IdMap<String>) -> (r: Vec<(String, String)>)
    ensures
        pair_views(r@) == file_pairs(by_uri@),
{
    let mut out: Vec<(String, String)> = Vec::new();
    let k = by_uri.len();
    let mut j: usize = 0;
    while j < k
        invariant
            j <= k,
            k == by_uri@.len(),
            out@.len() == j,
            forall|i: int|
                0 <= i < j ==> (#[trigger] out@[i]).0@ == by_uri@[i].1 && out@[i].1@
                    == by_uri@[i].0,
        decreases k - j,
    {
        out.push((by_uri.value_at(j).clone(), by_uri.key_at(j).clone()));
        j += 1;
    }
    assert(pair_views(out@) =~= file_pairs(by_uri@));
    out
}

/// Adds the files of `m` to the files by locator in `by_uri`.
pub fn collect_files(by_uri: &mut IdMap<String>, m: &IdMap<MediaFile>)
    ensures
        final(by_uri)@ == files_into(old(by_uri)@, m@),
{
    let n = m.len();
    let mut i: usize = 0;
    proof {
        assert(m@.take(0) =~= Entries::<MediaFileView>::empty());
    }
    while i < n
        invariant
            i <= n,
            n == m@.len(),
            by_uri@ == files_into(old(by_uri)@, m@.take(i as int)),
        decreases n - i,
    {
        proof {
            assert(m@.take(i + 1).drop_last() =~= m@.take(i as int));
        }
        let f = m.value_at(i);
        let mut name = media_id(f.uri.as_str());
        name.append("_");
        name.append(f.filename.as_str());
        by_uri.insert(f.uri.clone(), name);
        i += 1;
    }
    proof {
        assert(m@.take(n as int) =~= m@);
    }
}

fn unique_files(m: &IdMap<MediaFile>) -> (r: Vec<(String, String)>)
    ensures
        pair_views(r@) == file_pairs(files_by_uri(m@)),
{
    let mut by_uri: IdMap<String> = IdMap::new();
    collect_files(&mut by_uri, m);
    files_to_pairs(&by_uri)
}

impl Clone for News {
    fn clone(&self) -> (r: Self)
        ensures
            r@ == self@,
    {
        News {
            event_id: self.event_id.clone(),
            reporter_id: self.reporter_id.clone(),
            reporter_display_name: self.reporter_display_name.clone(),
            timestamp: self.timestamp,
            message: self.message.clone(),
            section_names: clone_tags(&self.section_names),
            project_names: clone_tags(&self.project_names),
            images: clone_files(&self.images),
            videos: clone_files(&self.videos),
        }
    }
}

impl News {
    /// A fresh report that was submitted at `timestamp`.
    pub fn new_at(
        event_id: String,
        reporter_id: String,
        reporter_display_name: String,
        message: String,
        timestamp: i64,
    ) -> (r: Self)
        ensures
            r@ == fresh_news(
                event_id@,
                reporter_id@,
                reporter_display_name@,
                timestamp as int,
                message@,
            ),
    {
        News {
            event_id,
            reporter_id,
            reporter_display_name,
            timestamp,
            message,
            section_names: IdMap::new(),
            project_names: IdMap::new(),
            images: IdMap::new(),
            videos: IdMap::new(),
        }
    }

    /// A fresh report, submitted now: the timestamp is read from the clock.
    pub fn new(
        event_id: String,
        reporter_id: String,
        reporter_display_name: String,
        message: String,
    ) -> (r: Self)
        ensures
            r@ == fresh_news(
                event_id@,
                reporter_id@,
                reporter_display_name@,
                r@.timestamp,
                message@,
            ),
    {
        let timestamp = now_millis();
        News::new_at(event_id, reporter_id, reporter_display_name, message, timestamp)
    }

    /// The text of the report.
    pub fn message(&self) -> (r: String)
        ensures
            r@ == self@.message,
    {
        self.message.clone()
    }

    /// A short form of the text for confirmations: a message of more than 50
    /// characters is cut after the fiftieth and marked with an ellipsis. A
    /// character is never split, however many bytes it takes.
    pub fn message_summary(&self) -> (r: String)
        ensures
            r@ == summary(self@.message),
    {
        let chars = chars_of(self.message.as_str());
        if chars.len() > 50 {
            let mut head: Vec<char> = Vec::new();
            let mut i: usize = 0;
            while i < 50
                invariant
                    i <= 50,
                    chars@.len() > 50,
                    head@ == chars@.take(i as int),
                decreases 50 - i,
            {
                head.push(chars[i]);
                proof {
                    assert(chars@.take(i as int).push(chars@[i as int]) =~= chars@.take(i + 1));
                }
                i += 1;
            }
            let mut out = string_of(&head);
            out.append(" …");
            out
        } else {
            self.message.clone()
        }
    }

    /// Replaces the text of the report.
    pub fn set_message(&mut self, message: String)
        ensures
            final(self)@ == (NewsView { message: message@, ..old(self)@ }),
    {
        self.message = message;
    }

    /// Tells whether the report carries a section or a project tag.
    pub fn is_assigned(&self) -> (r: bool)
        ensures
            r == assigned(self@),
    {
        !self.project_names.is_empty() || !self.section_names.is_empty()
    }

    /// Tells whether the report names exactly one section and exactly one
    /// project, however many reactions said so.
    pub fn has_one_tag_of_each_kind(&self) -> (r: bool)
        ensures
            r == singly_tagged(self@),
    {
        let sections = self.section_names();
        let projects = self.project_names();
        proof {
            assert(views(sections@).len() == sections@.len());
            assert(views(projects@).len() == projects@.len());
        }
        sections.len() == 1 && projects.len() == 1
    }

    /// The distinct section names of the report, in ascending order.
    pub fn section_names(&self) -> (r: Vec<String>)
        ensures
            views(r@) == names_of(self@.section_tags),
    {
        sorted_names(&self.section_names)
    }

    /// Files the report under the section `name`, on behalf of the reaction
    /// `event_id`. A tag that the same reaction made before is overwritten.
    pub fn add_section_name(&mut self, event_id: String, name: String)
        ensures
            final(self)@ == (NewsView {
                section_tags: put(old(self)@.section_tags, event_id@, name@),
                ..old(self)@
            }),
    {
        self.section_names.insert(event_id, name);
    }

    /// The distinct project names of the report, in ascending order.
    pub fn project_names(&self) -> (r: Vec<String>)
        ensures
            views(r@) == names_of(self@.project_tags),
    {
        sorted_names(&self.project_names)
    }

    /// Files the report under the project `name`, on behalf of the reaction
    /// `event_id`. A tag that the same reaction made before is overwritten.
    pub fn add_project_name(&mut self, event_id: String, name: String)
        ensures
            final(self)@ == (NewsView {
                project_tags: put(old(self)@.project_tags, event_id@, name@),
                ..old(self)@
            }),
    {
        self.project_names.insert(event_id, name);
    }

    /// The images of the report, each content locator once: pairs of a
    /// unique file name and the locator.
    pub fn images(&self) -> (r: Vec<(String, String)>)
        ensures
            pair_views(r@) == file_pairs(files_by_uri(self@.images)),
    {
        unique_files(&self.images)
    }

    /// Attaches an image on behalf of the reaction `reaction_event_id`.
    pub fn add_image(
        &mut self,
        reaction_event_id: String,
        image_event_id: String,
        filename: String,
        mxc_uri: String,
    )
        ensures
            final(self)@ == (NewsView {
                images: put(
                    old(self)@.images,
                    reaction_event_id@,
                    MediaFileView { event_id: image_event_id@, filename: filename@, uri: mxc_uri@ },
                ),
                ..old(self)@
            }),
    {
        self.images.insert(
            reaction_event_id,
            MediaFile { event_id: image_event_id, filename, uri: mxc_uri },
        );
    }

    /// The videos of the report, each content locator once: pairs of a
    /// unique file name and the locator.
    pub fn videos(&self) -> (r: Vec<(String, String)>)
        ensures
            pair_views(r@) == file_pairs(files_by_uri(self@.videos)),
    {
        unique_files(&self.videos)
    }

    /// Attaches a video on behalf of the reaction `reaction_event_id`.
    pub fn add_video(
        &mut self,
        reaction_event_id: String,
        video_event_id: String,
        filename: String,
        mxc_uri: String,
    )
        ensures
            final(self)@ == (NewsView {
                videos: put(
                    old(self)@.videos,
                    reaction_event_id@,
                    MediaFileView { event_id: video_event_id@, filename: filename@, uri: mxc_uri@ },
                ),
                ..old(self)@
            }),
    {
        self.videos.insert(
            reaction_event_id,
            MediaFile { event_id: video_event_id, filename, uri: mxc_uri },
        );
    }

    /// Detaches the image and the video that the reaction `event_id`
    /// attached, and hands the file out: the image where there was one, else
    /// the video.
    pub fn remove_file(&mut self, event_id: &str) -> (r: Option<MediaFile>)
        ensures
            final(self)@ == (NewsView {
                images: del(old(self)@.images, event_id@),
                videos: del(old(self)@.videos, event_id@),
                ..old(self)@
            }),
            r is Some == (has_key(old(self)@.images, event_id@) || has_key(
                old(self)@.videos,
                event_id@,
            )),
            r matches Some(f) ==> Some(f@) == (if has_key(old(self)@.images, event_id@) {
                value_of(old(self)@.images, event_id@)
            } else {
                value_of(old(self)@.videos, event_id@)
            }),
    {
        let img = self.images.remove(event_id);
        let vid = self.videos.remove(event_id);
        match img {
            Some(f) => Some(f),
            None => vid,
        }
    }

    /// Tells whether some image or video of the report is a file of the
    /// message `file_event_id`.
    pub fn has_file_of(&self, file_event_id: &str) -> (r: bool)
        ensures
            r == has_file(self@, file_event_id@),
    {
        let mut images = clone_files(&self.images);
        let mut videos = clone_files(&self.videos);
        let a = drop_files_of(&mut images, file_event_id);
        let b = drop_files_of(&mut videos, file_event_id);
        a || b
    }

    /// Detaches every image and video that is a file of the message
    /// `file_event_id`, and tells whether there was one.
    pub fn remove_files_of(&mut self, file_event_id: &str) -> (r: bool)
        ensures
            final(self)@ == without_files_of(old(self)@, file_event_id@),
            r == has_file(old(self)@, file_event_id@),
    {
        let a = drop_files_of(&mut self.images, file_event_id);
        let b = drop_files_of(&mut self.videos, file_event_id);
        a || b
    }

    /// Takes back what the reaction `event_id` did to the report, and tells
    /// what that was: a section tag, a project tag, an attachment (reported
    /// as a notice), or nothing. Without such a reaction the report does not
    /// change.
    pub fn remove_reaction_id(&mut self, event_id: &str) -> (r: ReactionType)
        ensures
            final(self)@ == without_reaction(old(self)@, event_id@),
            r@ == removed_kind(old(self)@, event_id@),
            !relates_to(old(self)@, event_id@) ==> final(self)@ == old(self)@,
    {
        if self.section_names.remove(event_id).is_some() {
            ReactionType::Section(None)
        } else if self.project_names.remove(event_id).is_some() {
            ReactionType::Project(None)
        } else if self.remove_file(event_id).is_some() {
            ReactionType::Notice
        } else {
            ReactionType::Nothing
        }
    }

    /// Tells whether some tag or attachment of the report was made by the
    /// reaction `reaction_id`.
    pub fn relates_to_reaction_id(&self, reaction_id: &str) -> (r: bool)
        ensures
            r == relates_to(self@, reaction_id@),
    {
        self.section_names.contains_key(reaction_id) || self.project_names.contains_key(
            reaction_id,
        ) || self.images.contains_key(reaction_id) || self.videos.contains_key(reaction_id)
    }
}

} // verus!
