//! The configuration of the bot: rooms, editors, sections and projects, and
//! the lookups that the rest of the crate makes in it.

use vstd::prelude::*;
use vstd::string::*;
use crate::project::{Project, ProjectView};
use crate::reaction_type::{ReactionType, ReactionTypeView};
use crate::section::{Section, SectionView};
use crate::names::{insert_name, with_name};
use crate::text::{clone_strings, contains_text, text_eq, views};
use crate::utils::same_emoji;

verus! {

/// The validated settings that the bot runs with.
#[derive(Debug)]
pub struct Config {
    pub bot_user_id: String,
    pub reporting_room_id: String,
    pub admin_room_id: String,
    /// The emoji that submits a message as news, or attaches a file.
    pub notice_emoji: String,
    /// Only editors, and senders on their own messages, may use the notice
    /// emoji.
    pub restrict_notice: bool,
    /// The verbs from which the report picks one for each entry.
    pub verbs: Vec<String>,
    /// A submission must be longer than this many bytes.
    pub min_length: usize,
    /// The acknowledgment for the reporter; `{{user}}` stands for the name.
    pub ack_text: String,
    pub update_config_command: String,
    /// The users who may tag news and give commands.
    pub editors: Vec<String>,
    pub sections: Vec<Section>,
    pub projects: Vec<Project>,
}

/// What a `Config` holds.
pub ghost struct ConfigView {
    pub bot_user_id: Seq<char>,
    pub reporting_room_id: Seq<char>,
    pub admin_room_id: Seq<char>,
    pub notice_emoji: Seq<char>,
    pub restrict_notice: bool,
    pub verbs: Seq<Seq<char>>,
    pub min_length: nat,
    pub ack_text: Seq<char>,
    pub update_config_command: Seq<char>,
    pub editors: Seq<Seq<char>>,
    pub sections: Seq<SectionView>,
    pub projects: Seq<ProjectView>,
}

impl View for Config {
    type V = ConfigView;

    open spec fn view(&self) -> ConfigView {
        ConfigView {
            bot_user_id: self.bot_user_id@,
            reporting_room_id: self.reporting_room_id@,
            admin_room_id: self.admin_room_id@,
            notice_emoji: self.notice_emoji@,
            restrict_notice: self.restrict_notice,
            verbs: views(self.verbs@),
            min_length: self.min_length as nat,
            ack_text: self.ack_text@,
            update_config_command: self.update_config_command@,
            editors: views(self.editors@),
            sections: views(self.sections@),
            projects: views(self.projects@),
        }
    }
}

fn clone_sections(v: &Vec<Section>) -> (r: Vec<Section>)
    ensures
        views(r@) == views(v@),
{
    let mut out: Vec<Section> = Vec::new();
    let mut i: usize = 0;
    while i < v.len()
        invariant
            i <= v.len(),
            out@.len() == i,
            forall|j: int| 0 <= j < i ==> (#[trigger] out@[j])@ == v@[j]@,
        decreases v.len() - i,
    {
        out.push(v[i].clone());
        i += 1;
    }
    assert(views(out@) =~= views(v@));
    out
}

fn clone_projects(v: &Vec<Project>) -> (r: Vec<Project>)
    ensures
        views(r@) == views(v@),
{
    let mut out: Vec<Project> = Vec::new();
    let mut i: usize = 0;
    while i < v.len()
        invariant
            i <= v.len(),
            out@.len() == i,
            forall|j: int| 0 <= j < i ==> (#[trigger] out@[j])@ == v@[j]@,
        decreases v.len() - i,
    {
        out.push(v[i].clone());
        i += 1;
    }
    assert(views(out@) =~= views(v@));
    out
}

impl Clone for Config {
    fn clone(&self) -> (r: Self)
        ensures
            r@ == self@,
    {
        Config {
            bot_user_id: self.bot_user_id.clone(),
            reporting_room_id: self.reporting_room_id.clone(),
            admin_room_id: self.admin_room_id.clone(),
            notice_emoji: self.notice_emoji.clone(),
            restrict_notice: self.restrict_notice,
            verbs: clone_strings(&self.verbs),
            min_length: self.min_length,
            ack_text: self.ack_text.clone(),
            update_config_command: self.update_config_command.clone(),
            editors: clone_strings(&self.editors),
            sections: clone_sections(&self.sections),
            projects: clone_projects(&self.projects),
        }
    }
}

/// The first section with the name `name`.
pub open spec fn find_section(sections: Seq<SectionView>, name: Seq<char>) -> Option<SectionView>
    decreases sections.len(),
{
    if sections.len() == 0 {
        None
    } else if sections[0].name == name {
        Some(sections[0])
    } else {
        find_section(sections.drop_first(), name)
    }
}

/// The first project with the name `name`.
pub open spec fn find_project(projects: Seq<ProjectView>, name: Seq<char>) -> Option<ProjectView>
    decreases projects.len(),
{
    if projects.len() == 0 {
        None
    } else if projects[0].name == name {
        Some(projects[0])
    } else {
        find_project(projects.drop_first(), name)
    }
}

/// The first section whose emoji is `emoji`.
pub open spec fn section_for_emoji(sections: Seq<SectionView>, emoji: Seq<char>) -> Option<
    SectionView,
>
    decreases sections.len(),
{
    if sections.len() == 0 {
        None
    } else if same_emoji(sections[0].emoji, emoji) {
        Some(sections[0])
    } else {
        section_for_emoji(sections.drop_first(), emoji)
    }
}

/// The first project whose emoji is `emoji`.
pub open spec fn project_for_emoji(projects: Seq<ProjectView>, emoji: Seq<char>) -> Option<
    ProjectView,
>
    decreases projects.len(),
{
    if projects.len() == 0 {
        None
    } else if same_emoji(projects[0].emoji, emoji) {
        Some(projects[0])
    } else {
        project_for_emoji(projects.drop_first(), emoji)
    }
}

/// What a reaction with `emoji` means: the notice emoji is tried first, then
/// the sections in their order, then the projects in theirs. The first that
/// matches decides.
pub open spec fn classify(c: ConfigView, emoji: Seq<char>) -> ReactionTypeView {
    if same_emoji(c.notice_emoji, emoji) {
        ReactionTypeView::Notice
    } else if section_for_emoji(c.sections, emoji) is Some {
        ReactionTypeView::Section(section_for_emoji(c.sections, emoji))
    } else if project_for_emoji(c.projects, emoji) is Some {
        ReactionTypeView::Project(project_for_emoji(c.projects, emoji))
    } else {
        ReactionTypeView::Nothing
    }
}

/// The sections that list `reporter` among their usual reporters, in the
/// order of the configuration.
pub open spec fn sections_of_reporter(sections: Seq<SectionView>, reporter: Seq<char>) -> Seq<
    SectionView,
>
    decreases sections.len(),
{
    if sections.len() == 0 {
        Seq::empty()
    } else if sections.last().usual_reporters.contains(reporter) {
        sections_of_reporter(sections.drop_last(), reporter).push(sections.last())
    } else {
        sections_of_reporter(sections.drop_last(), reporter)
    }
}

fn matches_emoji(a: &str, b: &str) -> (r: bool)
    ensures
        r == same_emoji(a@, b@),
{
    crate::utils::emoji_cmp(a, b)
}

/// `Rng::random_range` of the rand crate on the thread's generator
/// (`rand::rng`), for the range from zero up to, and without, `len`. The
/// number lies in that range; which one it is, is left to chance. An empty
/// range makes rand panic, so `len` must not be zero.
#[verifier::external_body]
pub(crate) fn random_index(len: usize) -> (i: usize)
    requires
        len > 0,
    ensures
        i < len,
{
    rand::Rng::random_range(&mut rand::rng(), 0..len)
}

impl Config {
    /// The first section with the name `name`, if there is one.
    pub fn section_by_name(&self, name: &str) -> (r: Option<Section>)
        ensures
            r is Some == find_section(self@.sections, name@) is Some,
            r matches Some(s) ==> Some(s@) == find_section(self@.sections, name@),
    {
        let ghost all = views(self.sections@);
        let mut i: usize = 0;
        proof {
            assert(all.skip(0) =~= all);
        }
        while i < self.sections.len()
            invariant
                i <= self.sections@.len(),
                all == views(self.sections@),
                find_section(all, name@) == find_section(all.skip(i as int), name@),
            decreases self.sections.len() - i,
        {
            proof {
                assert(all.skip(i as int)[0] == self.sections@[i as int]@);
                assert(all.skip(i as int).drop_first() =~= all.skip(i + 1));
            }
            if text_eq(self.sections[i].name.as_str(), name) {
                return Some(self.sections[i].clone());
            }
            i += 1;
        }
        None
    }

    /// The first project with the name `name`, if there is one.
    pub fn project_by_name(&self, name: &str) -> (r: Option<Project>)
        ensures
            r is Some == find_project(self@.projects, name@) is Some,
            r matches Some(p) ==> Some(p@) == find_project(self@.projects, name@),
    {
        let ghost all = views(self.projects@);
        let mut i: usize = 0;
        proof {
            assert(all.skip(0) =~= all);
        }
        while i < self.projects.len()
            invariant
                i <= self.projects@.len(),
                all == views(self.projects@),
                find_project(all, name@) == find_project(all.skip(i as int), name@),
            decreases self.projects.len() - i,
        {
            proof {
                assert(all.skip(i as int)[0] == self.projects@[i as int]@);
                assert(all.skip(i as int).drop_first() =~= all.skip(i + 1));
            }
            if text_eq(self.projects[i].name.as_str(), name) {
                return Some(self.projects[i].clone());
            }
            i += 1;
        }
        None
    }

    /// Classifies a reaction: the notice emoji, a section, a project, or
    /// nothing that the bot knows. Variation selectors in either emoji do not
    /// count.
    pub fn reaction_type_by_emoji(&self, emoji: &str) -> (r: ReactionType)
        ensures
            r@ == classify(self@, emoji@),
    {
        if matches_emoji(self.notice_emoji.as_str(), emoji) {
            return ReactionType::Notice;
        }
        let ghost sections = views(self.sections@);
        let mut i: usize = 0;
        proof {
            assert(sections.skip(0) =~= sections);
        }
        while i < self.sections.len()
            invariant
                i <= self.sections@.len(),
                sections == views(self.sections@),
                !same_emoji(self@.notice_emoji, emoji@),
                section_for_emoji(sections, emoji@) == section_for_emoji(
                    sections.skip(i as int),
                    emoji@,
                ),
            decreases self.sections.len() - i,
        {
            proof {
                assert(sections.skip(i as int)[0] == self.sections@[i as int]@);
                assert(sections.skip(i as int).drop_first() =~= sections.skip(i + 1));
            }
            if matches_emoji(self.sections[i].emoji.as_str(), emoji) {
                return ReactionType::Section(Some(self.sections[i].clone()));
            }
            i += 1;
        }
        let ghost projects = views(self.projects@);
        let mut j: usize = 0;
        proof {
            assert(projects.skip(0) =~= projects);
        }
        while j < self.projects.len()
            invariant
                j <= self.projects@.len(),
                projects == views(self.projects@),
                !same_emoji(self@.notice_emoji, emoji@),
                section_for_emoji(self@.sections, emoji@) is None,
                project_for_emoji(projects, emoji@) == project_for_emoji(
                    projects.skip(j as int),
                    emoji@,
                ),
            decreases self.projects.len() - j,
        {
            proof {
                assert(projects.skip(j as int)[0] == self.projects@[j as int]@);
                assert(projects.skip(j as int).drop_first() =~= projects.skip(j + 1));
            }
            if matches_emoji(self.projects[j].emoji.as_str(), emoji) {
                return ReactionType::Project(Some(self.projects[j].clone()));
            }
            j += 1;
        }
        ReactionType::Nothing
    }

    /// The sections that list `reporter` among their usual reporters.
    pub fn sections_by_usual_reporter(&self, reporter: &str) -> (r: Vec<Section>)
        ensures
            views(r@) == sections_of_reporter(self@.sections, reporter@),
    {
        let ghost all = views(self.sections@);
        let mut out: Vec<Section> = Vec::new();
        let mut i: usize = 0;
        proof {
            assert(all.take(0) =~= Seq::<SectionView>::empty());
            assert(views(out@) =~= Seq::<SectionView>::empty());
        }
        while i < self.sections.len()
            invariant
                i <= self.sections@.len(),
                all == views(self.sections@),
                views(out@) == sections_of_reporter(all.take(i as int), reporter@),
            decreases self.sections.len() - i,
        {
            proof {
                assert(all.take(i + 1).drop_last() =~= all.take(i as int));
                assert(all.take(i + 1).last() == self.sections@[i as int]@);
            }
            if contains_text(&self.sections[i].usual_reporters, reporter) {
                let ghost before = views(out@);
                let copy = self.sections[i].clone();
                out.push(copy);
                proof {
                    assert(views(out@) =~= before.push(copy@));
                }
            }
            i += 1;
        }
        proof {
            assert(all.take(self.sections@.len() as int) =~= all);
        }
        out
    }

    /// The verb at place `index` of the configured verbs.
    pub fn verb_at(&self, index: usize) -> (r: String)
        requires
            index < self@.verbs.len(),
        ensures
            r@ == self@.verbs[index as int],
    {
        self.verbs[index].clone()
    }

    /// One of the configured verbs, picked at random; `None` where no verb
    /// is configured.
    pub fn random_verb(&self) -> (r: Option<String>)
        ensures
            r is Some == (self@.verbs.len() > 0),
            r matches Some(v) ==> self@.verbs.contains(v@),
    {
        if self.verbs.len() == 0 {
            None
        } else {
            let id = random_index(self.verbs.len());
            let verb = self.verb_at(id);
            assert(self@.verbs[id as int] == verb@);
            Some(verb)
        }
    }

    /// Tells whether `user_id` is one of the editors.
    pub fn is_editor(&self, user_id: &str) -> (r: bool)
        ensures
            r == self@.editors.contains(user_id@),
    {
        contains_text(&self.editors, user_id)
    }
}

/// A configuration together with what was found wrong with it.
#[derive(Debug)]
pub struct ConfigResult {
    pub config: Config,
    /// What will keep the bot from working properly, latest finding first.
    pub warnings: Vec<String>,
    /// What the editors should know, latest finding first.
    pub notes: Vec<String>,
}

/// How the standard library prints a list of texts for debugging: in square
/// brackets, each text in double quotes, with escapes where it sees fit.
pub uninterp spec fn debug_list(list: Seq<Seq<char>>) -> Seq<char>;

/// The `Debug` form of a list of texts, as `format!` with `{:?}` gives it.
#[verifier::external_body]
pub(crate) fn debug_format(list: &Vec<String>) -> (r: String)
    ensures
        r@ == debug_list(views(list@)),
{
    format!("{:?}", list)
}

/// The warnings about the sections, the last section first: a section
/// without a name, or a named one without an emoji.
pub open spec fn section_warnings(sections: Seq<SectionView>) -> Seq<Seq<char>>
    decreases sections.len(),
{
    if sections.len() == 0 {
        Seq::empty()
    } else {
        let s = sections.last();
        let rest = section_warnings(sections.drop_last());
        if s.name.len() == 0 {
            seq!["Section without name found, this can lead to undefined behavior."@] + rest
        } else if s.emoji.len() == 0 {
            seq![
                "Section “"@ + s.name
                    + "” doesn’t have an emoji, this can lead to undefined behavior."@,
            ] + rest
        } else {
            rest
        }
    }
}

/// The names of the sections that have one, the last section first.
pub open spec fn section_names(sections: Seq<SectionView>) -> Seq<Seq<char>>
    decreases sections.len(),
{
    if sections.len() == 0 {
        Seq::empty()
    } else if sections.last().name.len() == 0 {
        section_names(sections.drop_last())
    } else {
        seq![sections.last().name] + section_names(sections.drop_last())
    }
}

/// The warnings about one project that has a name: first what is wrong with
/// its default section (none, or one that no section is named), then a
/// missing emoji.
pub open spec fn project_findings(p: ProjectView, known: Seq<Seq<char>>) -> Seq<Seq<char>> {
    (if p.default_section.len() == 0 {
        seq![
            "Project “"@ + p.name
                + "” doesn’t have a default section, this can lead to undefined behavior."@,
        ]
    } else if !known.contains(p.default_section) {
        seq![
            "Project “"@ + p.name + "” has an unknown default section “"@ + p.default_section
                + "”, this can lead to undefined behavior."@,
        ]
    } else {
        Seq::empty()
    }) + (if p.emoji.len() == 0 {
        seq![
            "Project “"@ + p.name
                + "” doesn’t have an emoji, this can lead to undefined behavior."@,
        ]
    } else {
        Seq::empty()
    })
}

/// The warnings about the projects, the last project first. `known` holds
/// the names of the sections.
pub open spec fn project_warnings(projects: Seq<ProjectView>, known: Seq<Seq<char>>) -> Seq<
    Seq<char>,
>
    decreases projects.len(),
{
    if projects.len() == 0 {
        Seq::empty()
    } else {
        let p = projects.last();
        let rest = project_warnings(projects.drop_last(), known);
        if p.name.len() == 0 {
            seq!["Project without name found, this can lead to undefined behavior."@] + rest
        } else {
            project_findings(p, known) + rest
        }
    }
}

/// The emoji of the projects, then those of the sections.
pub open spec fn all_emoji(c: ConfigView) -> Seq<Seq<char>> {
    Seq::new(c.projects.len(), |i: int| c.projects[i].emoji) + Seq::new(
        c.sections.len(),
        |i: int| c.sections[i].emoji,
    )
}

/// The names of the projects, then those of the sections.
pub open spec fn all_names(c: ConfigView) -> Seq<Seq<char>> {
    Seq::new(c.projects.len(), |i: int| c.projects[i].name) + Seq::new(
        c.sections.len(),
        |i: int| c.sections[i].name,
    )
}

/// The texts that occur more than once in `items`, each once, in ascending
/// order.
pub open spec fn duplicates(items: Seq<Seq<char>>) -> Seq<Seq<char>>
    decreases items.len(),
{
    if items.len() == 0 {
        Seq::empty()
    } else if items.drop_last().contains(items.last()) {
        with_name(duplicates(items.drop_last()), items.last())
    } else {
        duplicates(items.drop_last())
    }
}

/// The warnings for a configuration, the latest finding first. The findings
/// are made in this order: a missing notice emoji, no editor, no project,
/// the sections one by one, the projects one by one, emoji that occur twice,
/// names that occur twice.
pub open spec fn config_warnings(c: ConfigView) -> Seq<Seq<char>> {
    (if duplicates(all_names(c)).len() > 0 {
        seq![duplicate_warning("name"@, debug_list(duplicates(all_names(c))))]
    } else {
        Seq::empty()
    }) + (if duplicates(all_emoji(c)).len() > 0 {
        seq![duplicate_warning("emoji"@, debug_list(duplicates(all_emoji(c))))]
    } else {
        Seq::empty()
    }) + project_warnings(c.projects, section_names(c.sections)) + section_warnings(c.sections)
        + (if c.projects.len() == 0 {
        seq!["No projects are configured in the configuration file."@]
    } else {
        Seq::empty()
    }) + (if c.editors.len() == 0 {
        seq!["No editor is specified, the bot cannot be used without an editor"@]
    } else {
        Seq::empty()
    }) + (if c.notice_emoji.len() == 0 {
        seq!["At least one emoji isn’t configured. The bot will not work properly."@]
    } else {
        Seq::empty()
    })
}

/// The notes for a configuration.
pub open spec fn config_notes(c: ConfigView) -> Seq<Seq<char>> {
    if c.sections.len() == 0 {
        seq!["No sections are configured in the configuration file."@]
    } else {
        Seq::empty()
    }
}

/// The warning about emoji or names that are given twice.
pub open spec fn duplicate_warning(what: Seq<char>, listed: Seq<char>) -> Seq<char> {
    "At least one "@ + what + " is duplicated, this can lead to undefined behavior: "@ + listed
        + " "@
}

/// Words the warning about emoji or names that are given twice; `listed`
/// holds them as they are to be shown.
pub fn duplicate_message(what: &str, listed: &str) -> (r: String)
    ensures
        r@ == duplicate_warning(what@, listed@),
{
    let mut w = String::from_str("At least one ");
    w.append(what);
    w.append(" is duplicated, this can lead to undefined behavior: ");
    w.append(listed);
    w.append(" ");
    w
}

fn prepend(list: &mut Vec<String>, item: String)
    ensures
        views(final(list)@) == seq![item@] + views(old(list)@),
{
    list.insert(0, item);
    assert(views(list@) =~= seq![item@] + views(old(list)@));
}

fn append_all(list: &mut Vec<String>, more: Vec<String>)
    ensures
        views(final(list)@) == views(old(list)@) + views(more@),
{
    let mut more = more;
    let ghost a = views(list@);
    let ghost b = views(more@);
    list.append(&mut more);
    assert(views(list@) =~= a + b);
}

fn find_duplicates(items: &Vec<String>) -> (r: Vec<String>)
    ensures
        views(r@) == duplicates(views(items@)),
{
    let ghost all = views(items@);
    let mut seen: Vec<String> = Vec::new();
    let mut out: Vec<String> = Vec::new();
    let mut i: usize = 0;
    proof {
        assert(all.take(0) =~= Seq::<Seq<char>>::empty());
        assert(views(out@) =~= Seq::<Seq<char>>::empty());
        assert(views(seen@) =~= all.take(0));
    }
    while i < items.len()
        invariant
            i <= items@.len(),
            all == views(items@),
            views(seen@) == all.take(i as int),
            views(out@) == duplicates(all.take(i as int)),
        decreases items.len() - i,
    {
        proof {
            assert(all.take(i + 1).drop_last() =~= all.take(i as int));
            assert(all.take(i + 1).last() == items@[i as int]@);
        }
        if contains_text(&seen, items[i].as_str()) {
            insert_name(&mut out, items[i].clone());
        }
        let ghost before = views(seen@);
        let copy = items[i].clone();
        seen.push(copy);
        proof {
            assert(views(seen@) =~= before.push(copy@));
            assert(before.push(copy@) =~= all.take(i + 1));
        }
        i += 1;
    }
    proof {
        assert(all.take(items@.len() as int) =~= all);
    }
    out
}

impl Config {
    fn emoji_list(&self) -> (r: Vec<String>)
        ensures
            views(r@) == all_emoji(self@),
    {
        let mut out: Vec<String> = Vec::new();
        let mut i: usize = 0;
        while i < self.projects.len()
            invariant
                i <= self.projects@.len(),
                out@.len() == i,
                forall|j: int| 0 <= j < i ==> (#[trigger] out@[j])@ == self.projects@[j].emoji@,
            decreases self.projects.len() - i,
        {
            out.push(self.projects[i].emoji.clone());
            i += 1;
        }
        let mut k: usize = 0;
        while k < self.sections.len()
            invariant
                k <= self.sections@.len(),
                out@.len() == self.projects@.len() + k,
                forall|j: int|
                    0 <= j < self.projects@.len() ==> (#[trigger] out@[j])@
                        == self.projects@[j].emoji@,
                forall|j: int|
                    self.projects@.len() <= j < self.projects@.len() + k ==> (#[trigger] out@[j])@
                        == self.sections@[j - self.projects@.len()].emoji@,
            decreases self.sections.len() - k,
        {
            out.push(self.sections[k].emoji.clone());
            k += 1;
        }
        proof {
            let want = all_emoji(self@);
            assert(want.len() == out@.len());
            assert forall|j: int| 0 <= j < out@.len() implies views(out@)[j] == want[j] by {
                if j < self.projects@.len() {
                    assert(out@[j]@ == self.projects@[j].emoji@);
                } else {
                    assert(out@[j]@ == self.sections@[j - self.projects@.len()].emoji@);
                }
            }
            assert(views(out@) =~= want);
        }
        out
    }

    fn name_list(&self) -> (r: Vec<String>)
        ensures
            views(r@) == all_names(self@),
    {
        let mut out: Vec<String> = Vec::new();
        let mut i: usize = 0;
        while i < self.projects.len()
            invariant
                i <= self.projects@.len(),
                out@.len() == i,
                forall|j: int| 0 <= j < i ==> (#[trigger] out@[j])@ == self.projects@[j].name@,
            decreases self.projects.len() - i,
        {
            out.push(self.projects[i].name.clone());
            i += 1;
        }
        let mut k: usize = 0;
        while k < self.sections.len()
            invariant
                k <= self.sections@.len(),
                out@.len() == self.projects@.len() + k,
                forall|j: int|
                    0 <= j < self.projects@.len() ==> (#[trigger] out@[j])@
                        == self.projects@[j].name@,
                forall|j: int|
                    self.projects@.len() <= j < self.projects@.len() + k ==> (#[trigger] out@[j])@
                        == self.sections@[j - self.projects@.len()].name@,
            decreases self.sections.len() - k,
        {
            out.push(self.sections[k].name.clone());
            k += 1;
        }
        proof {
            let want = all_names(self@);
            assert(want.len() == out@.len());
            assert forall|j: int| 0 <= j < out@.len() implies views(out@)[j] == want[j] by {
                if j < self.projects@.len() {
                    assert(out@[j]@ == self.projects@[j].name@);
                } else {
                    assert(out@[j]@ == self.sections@[j - self.projects@.len()].name@);
                }
            }
            assert(views(out@) =~= want);
        }
        out
    }

    fn check_sections(&self) -> (r: (Vec<String>, Vec<String>))
        ensures
            views(r.0@) == section_warnings(self@.sections),
            views(r.1@) == section_names(self@.sections),
    {
        let ghost all = views(self.sections@);
        let mut warnings: Vec<String> = Vec::new();
        let mut names: Vec<String> = Vec::new();
        let mut i: usize = 0;
        proof {
            assert(all.take(0) =~= Seq::<SectionView>::empty());
            assert(views(warnings@) =~= Seq::<Seq<char>>::empty());
            assert(views(names@) =~= Seq::<Seq<char>>::empty());
        }
        while i < self.sections.len()
            invariant
                i <= self.sections@.len(),
                all == views(self.sections@),
                views(warnings@) == section_warnings(all.take(i as int)),
                views(names@) == section_names(all.take(i as int)),
            decreases self.sections.len() - i,
        {
            proof {
                assert(all.take(i + 1).drop_last() =~= all.take(i as int));
                assert(all.take(i + 1).last() == self.sections@[i as int]@);
            }
            let section = &self.sections[i];
            if section.name.as_str().is_empty() {
                prepend(
                    &mut warnings,
                    String::from_str(
                        "Section without name found, this can lead to undefined behavior.",
                    ),
                );
            } else {
                prepend(&mut names, section.name.clone());
                if section.emoji.as_str().is_empty() {
                    let mut w = String::from_str("Section “");
                    w.append(section.name.as_str());
                    w.append("” doesn’t have an emoji, this can lead to undefined behavior.");
                    prepend(&mut warnings, w);
                }
            }
            i += 1;
        }
        proof {
            assert(all.take(self.sections@.len() as int) =~= all);
        }
        (warnings, names)
    }

    fn check_project(project: &Project, known: &Vec<String>) -> (r: Vec<String>)
        requires
            project@.name.len() > 0,
        ensures
            views(r@) == project_findings(project@, views(known@)),
    {
        let mut out: Vec<String> = Vec::new();
        proof {
            assert(views(out@) =~= Seq::<Seq<char>>::empty());
        }
        if project.emoji.as_str().is_empty() {
            let mut w = String::from_str("Project “");
            w.append(project.name.as_str());
            w.append("” doesn’t have an emoji, this can lead to undefined behavior.");
            prepend(&mut out, w);
        }
        if project.default_section.as_str().is_empty() {
            let mut w = String::from_str("Project “");
            w.append(project.name.as_str());
            w.append("” doesn’t have a default section, this can lead to undefined behavior.");
            prepend(&mut out, w);
        } else if !contains_text(known, project.default_section.as_str()) {
            let mut w = String::from_str("Project “");
            w.append(project.name.as_str());
            w.append("” has an unknown default section “");
            w.append(project.default_section.as_str());
            w.append("”, this can lead to undefined behavior.");
            prepend(&mut out, w);
        }
        proof {
            assert(views(out@) =~= project_findings(project@, views(known@)));
        }
        out
    }

    fn check_projects(&self, known: &Vec<String>) -> (r: Vec<String>)
        ensures
            views(r@) == project_warnings(self@.projects, views(known@)),
    {
        let ghost all = views(self.projects@);
        let mut warnings: Vec<String> = Vec::new();
        let mut i: usize = 0;
        proof {
            assert(all.take(0) =~= Seq::<ProjectView>::empty());
            assert(views(warnings@) =~= Seq::<Seq<char>>::empty());
        }
        while i < self.projects.len()
            invariant
                i <= self.projects@.len(),
                all == views(self.projects@),
                views(warnings@) == project_warnings(all.take(i as int), views(known@)),
            decreases self.projects.len() - i,
        {
            proof {
                assert(all.take(i + 1).drop_last() =~= all.take(i as int));
                assert(all.take(i + 1).last() == self.projects@[i as int]@);
            }
            let project = &self.projects[i];
            if project.name.as_str().is_empty() {
                prepend(
                    &mut warnings,
                    String::from_str(
                        "Project without name found, this can lead to undefined behavior.",
                    ),
                );
            } else {
                let mut found = Config::check_project(project, known);
                let ghost a = views(found@);
                let ghost b = views(warnings@);
                found.append(&mut warnings);
                assert(views(found@) =~= a + b);
                warnings = found;
            }
            i += 1;
        }
        proof {
            assert(all.take(self.projects@.len() as int) =~= all);
        }
        warnings
    }

    /// Looks for what is missing, inconsistent or given twice in a
    /// configuration, and hands the configuration back with the warnings and
    /// notes that the editors should see.
    pub fn validate_config(config: Self) -> (r: ConfigResult)
        ensures
            r.config@ == config@,
            views(r.warnings@) == config_warnings(config@),
            views(r.notes@) == config_notes(config@),
    {
        let mut notes: Vec<String> = Vec::new();
        proof {
            assert(views(notes@) =~= Seq::<Seq<char>>::empty());
        }
        if config.sections.len() == 0 {
            prepend(
                &mut notes,
                String::from_str("No sections are configured in the configuration file."),
            );
            assert(views(notes@) =~= config_notes(config@));
        }
        let mut warnings: Vec<String> = Vec::new();
        proof {
            assert(views(warnings@) =~= Seq::<Seq<char>>::empty());
        }
        let name_duplicates = find_duplicates(&config.name_list());
        if name_duplicates.len() > 0 {
            let w = duplicate_message("name", debug_format(&name_duplicates).as_str());
            warnings.push(w);
            assert(views(warnings@) =~= seq![w@]);
        }
        let emoji_duplicates = find_duplicates(&config.emoji_list());
        if emoji_duplicates.len() > 0 {
            let w = duplicate_message("emoji", debug_format(&emoji_duplicates).as_str());
            let ghost before = views(warnings@);
            warnings.push(w);
            assert(views(warnings@) =~= before + seq![w@]);
        }
        let (section_part, known) = config.check_sections();
        let project_part = config.check_projects(&known);
        append_all(&mut warnings, project_part);
        append_all(&mut warnings, section_part);
        if config.projects.len() == 0 {
            let w = String::from_str("No projects are configured in the configuration file.");
            let ghost before = views(warnings@);
            warnings.push(w);
            assert(views(warnings@) =~= before + seq![w@]);
        }
        if config.editors.len() == 0 {
            let w = String::from_str(
                "No editor is specified, the bot cannot be used without an editor",
            );
            let ghost before = views(warnings@);
            warnings.push(w);
            assert(views(warnings@) =~= before + seq![w@]);
        }
        if config.notice_emoji.as_str().is_empty() {
            let w = String::from_str(
                "At least one emoji isn’t configured. The bot will not work properly.",
            );
            let ghost before = views(warnings@);
            warnings.push(w);
            assert(views(warnings@) =~= before + seq![w@]);
        }
        proof {
            assert(views(warnings@) =~= config_warnings(config@));
        }
        ConfigResult { config, warnings, notes }
    }
}

} // verus!
