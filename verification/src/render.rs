//! Groups the assigned news by section and project for the report, and
//! collects what the editors should know about the result.

use vstd::prelude::*;
use vstd::string::*;
use crate::config::{find_project, find_section, Config, ConfigView};
use crate::idmap::{Entries, IdMap};
use crate::names::{insert_name, names_of, with_name};
use crate::news::{
    assigned,
    collect_files,
    file_pairs,
    files_by_uri,
    files_into,
    files_to_pairs,
    pair_views,
    News,
    NewsView,
};
use crate::project::{Project, ProjectView};
use crate::section::{Section, SectionView};
use crate::seqs::{first_index, lemma_first_index, lemma_first_index_is};
use crate::text::{decimal, decimal_string, option_view, text_eq, views};

verus! {

/// A news entry as the report shows it.
#[derive(Debug)]
pub struct RenderNews {
    pub reporter_id: String,
    pub reporter_display_name: String,
    pub timestamp: i64,
    pub message: String,
    /// Pairs of a unique file name and a content locator.
    pub images: Vec<(String, String)>,
    /// Pairs of a unique file name and a content locator.
    pub videos: Vec<(String, String)>,
}

/// What a `RenderNews` holds.
pub ghost struct RenderNewsView {
    pub reporter_id: Seq<char>,
    pub reporter_display_name: Seq<char>,
    pub timestamp: int,
    pub message: Seq<char>,
    pub images: Seq<(Seq<char>, Seq<char>)>,
    pub videos: Seq<(Seq<char>, Seq<char>)>,
}

impl View for RenderNews {
    type V = RenderNewsView;

    open spec fn view(&self) -> RenderNewsView {
        RenderNewsView {
            reporter_id: self.reporter_id@,
            reporter_display_name: self.reporter_display_name@,
            timestamp: self.timestamp as int,
            message: self.message@,
            images: pair_views(self.images@),
            videos: pair_views(self.videos@),
        }
    }
}

/// The news entries of one project within one section.
#[derive(Debug)]
pub struct RenderProject {
    pub project: Project,
    pub news: Vec<RenderNews>,
    /// The section that the news were filed under, where it is not the
    /// project's default section.
    pub overwritten_section: Option<String>,
}

/// What a `RenderProject` holds.
pub ghost struct RenderProjectView {
    pub project: ProjectView,
    pub news: Seq<RenderNewsView>,
    pub overwritten_section: Option<Seq<char>>,
}

impl View for RenderProject {
    type V = RenderProjectView;

    open spec fn view(&self) -> RenderProjectView {
        RenderProjectView {
            project: self.project@,
            news: views(self.news@),
            overwritten_section: match self.overwritten_section {
                Some(s) => Some(s@),
                None => None,
            },
        }
    }
}

/// One section of the report: the news filed directly under it, and the
/// projects with their news.
#[derive(Debug)]
pub struct RenderSection {
    pub section: Section,
    pub projects: Vec<RenderProject>,
    /// The news without a project.
    pub news: Vec<RenderNews>,
}

/// What a `RenderSection` holds.
pub ghost struct RenderSectionView {
    pub section: SectionView,
    pub projects: Seq<RenderProjectView>,
    pub news: Seq<RenderNewsView>,
}

impl View for RenderSection {
    type V = RenderSectionView;

    open spec fn view(&self) -> RenderSectionView {
        RenderSectionView {
            section: self.section@,
            projects: views(self.projects@),
            news: views(self.news@),
        }
    }
}

/// The grouped news together with the diagnostics and the files to fetch.
#[derive(Debug)]
pub struct RenderResult {
    /// The sections that have news, by ascending order.
    pub sections: Vec<RenderSection>,
    /// The names of the projects that have news, ascending.
    pub projects: Vec<String>,
    pub warnings: Vec<String>,
    pub notes: Vec<String>,
    /// The images of all included news, each content locator once.
    pub images: Vec<(String, String)>,
    /// The videos of all included news, each content locator once.
    pub videos: Vec<(String, String)>,
}

/// What a `RenderResult` holds.
pub ghost struct RenderResultView {
    pub sections: Seq<RenderSectionView>,
    pub projects: Seq<Seq<char>>,
    pub warnings: Seq<Seq<char>>,
    pub notes: Seq<Seq<char>>,
    pub images: Seq<(Seq<char>, Seq<char>)>,
    pub videos: Seq<(Seq<char>, Seq<char>)>,
}

impl View for RenderResult {
    type V = RenderResultView;

    open spec fn view(&self) -> RenderResultView {
        RenderResultView {
            sections: views(self.sections@),
            projects: views(self.projects@),
            warnings: views(self.warnings@),
            notes: views(self.notes@),
            images: pair_views(self.images@),
            videos: pair_views(self.videos@),
        }
    }
}

/// The link to a message of the reporting room.
pub open spec fn message_link_text(room_id: Seq<char>, event_id: Seq<char>) -> Seq<char> {
    "<a href=\"https://matrix.to/#/"@ + room_id + "/"@ + event_id + "\">open message</a>"@
}

/// An HTML link that opens the message `event_id` of the reporting room.
pub fn message_link(config: &Config, event_id: &str) -> (r: String)
    ensures
        r@ == message_link_text(config@.reporting_room_id, event_id@),
{
    let mut out = String::from_str("<a href=\"https://matrix.to/#/");
    out.append(config.reporting_room_id.as_str());
    out.append("/");
    out.append(event_id);
    out.append("\">open message</a>");
    out
}

/// A news entry as the report shows it: its files once per content locator.
pub open spec fn render_news(n: NewsView) -> RenderNewsView {
    RenderNewsView {
        reporter_id: n.reporter_id,
        reporter_display_name: n.reporter_display_name,
        timestamp: n.timestamp,
        message: n.message,
        images: file_pairs(files_by_uri(n.images)),
        videos: file_pairs(files_by_uri(n.videos)),
    }
}

fn clone_pairs(v: &Vec<(String, String)>) -> (r: Vec<(String, String)>)
    ensures
        pair_views(r@) == pair_views(v@),
{
    let mut out: Vec<(String, String)> = Vec::new();
    let mut i: usize = 0;
    while i < v.len()
        invariant
            i <= v.len(),
            out@.len() == i,
            forall|j: int|
                0 <= j < i ==> (#[trigger] out@[j]).0@ == v@[j].0@ && out@[j].1@ == v@[j].1@,
        decreases v.len() - i,
    {
        out.push((v[i].0.clone(), v[i].1.clone()));
        i += 1;
    }
    assert(pair_views(out@) =~= pair_views(v@));
    out
}

impl Clone for RenderNews {
    fn clone(&self) -> (r: Self)
        ensures
            r@ == self@,
    {
        RenderNews {
            reporter_id: self.reporter_id.clone(),
            reporter_display_name: self.reporter_display_name.clone(),
            timestamp: self.timestamp,
            message: self.message.clone(),
            images: clone_pairs(&self.images),
            videos: clone_pairs(&self.videos),
        }
    }
}

impl RenderNews {
    /// What the report shows of `news`.
    pub fn from_news(news: &News) -> (r: Self)
        ensures
            r@ == render_news(news@),
    {
        RenderNews {
            reporter_id: news.reporter_id.clone(),
            reporter_display_name: news.reporter_display_name.clone(),
            timestamp: news.timestamp,
            message: news.message(),
            images: news.images(),
            videos: news.videos(),
        }
    }
}

/// The section of the report under which a project group stands.
pub open spec fn target_section(p: RenderProjectView) -> Seq<char> {
    match p.overwritten_section {
        Some(s) => s,
        None => p.project.default_section,
    }
}

/// The test for a section group by the name of its section.
pub open spec fn is_section(name: Seq<char>) -> spec_fn(RenderSectionView) -> bool {
    |g: RenderSectionView| g.section.name == name
}

/// The test for a project group by the name of its project and the section
/// that overrides the default.
pub open spec fn is_project(name: Seq<char>, overwritten: Option<Seq<char>>) -> spec_fn(
    RenderProjectView,
) -> bool {
    |g: RenderProjectView| g.project.name == name && g.overwritten_section == overwritten
}

/// `s` with `n` added to the news of the group of `section`; the group is
/// opened at the end where there is none yet.
pub open spec fn with_section_news(
    s: Seq<RenderSectionView>,
    section: SectionView,
    n: RenderNewsView,
) -> Seq<RenderSectionView> {
    let i = first_index(s, is_section(section.name));
    if i < s.len() {
        s.update(i, RenderSectionView { news: s[i].news.push(n), ..s[i] })
    } else {
        s.push(RenderSectionView { section, projects: Seq::empty(), news: seq![n] })
    }
}

/// `s` with the project group `p` added to the group of `section`; the
/// group is opened at the end where there is none yet.
pub open spec fn with_section_project(
    s: Seq<RenderSectionView>,
    section: SectionView,
    p: RenderProjectView,
) -> Seq<RenderSectionView> {
    let i = first_index(s, is_section(section.name));
    if i < s.len() {
        s.update(i, RenderSectionView { projects: s[i].projects.push(p), ..s[i] })
    } else {
        s.push(RenderSectionView { section, projects: seq![p], news: Seq::empty() })
    }
}

/// `ps` with `n` added to the group of `project` under the overriding
/// section `overwritten`; the group is opened at the end where there is none
/// yet.
pub open spec fn with_project_news(
    ps: Seq<RenderProjectView>,
    project: ProjectView,
    overwritten: Option<Seq<char>>,
    n: RenderNewsView,
) -> Seq<RenderProjectView> {
    let i = first_index(ps, is_project(project.name, overwritten));
    if i < ps.len() {
        ps.update(i, RenderProjectView { news: ps[i].news.push(n), ..ps[i] })
    } else {
        ps.push(RenderProjectView { project, news: seq![n], overwritten_section: overwritten })
    }
}

/// What has been gathered from the news looked at so far.
pub ghost struct Gathered {
    /// The groups of news without a project, by section.
    pub sections: Seq<RenderSectionView>,
    /// The groups of news with a project.
    pub projects: Seq<RenderProjectView>,
    /// The names of the projects that have news, ascending.
    pub project_names: Seq<Seq<char>>,
    pub warnings: Seq<Seq<char>>,
    pub notes: Seq<Seq<char>>,
    /// Images by content locator.
    pub images: Entries<Seq<char>>,
    /// Videos by content locator.
    pub videos: Entries<Seq<char>>,
    /// How many news are part of the report.
    pub included: nat,
    /// How many news were left out for want of a tag.
    pub skipped: nat,
}

/// Nothing gathered yet.
pub open spec fn nothing_gathered() -> Gathered {
    Gathered {
        sections: Seq::empty(),
        projects: Seq::empty(),
        project_names: Seq::empty(),
        warnings: Seq::empty(),
        notes: Seq::empty(),
        images: Seq::empty(),
        videos: Seq::empty(),
        included: 0,
        skipped: 0,
    }
}

/// The warning for an entry with more than one project or section.
pub open spec fn multiple_warning(link: Seq<char>, reporter: Seq<char>) -> Seq<char> {
    "["@ + link + "] News entry by "@ + reporter
        + " has multiple project or section information set, it’ll appear multiple times. This is probably not wanted!"@
}

/// The note for an entry without a project.
pub open spec fn no_project_note(link: Seq<char>, reporter: Seq<char>) -> Seq<char> {
    "["@ + link + "] News entry by "@ + reporter
        + " doesn’t have project information, it’ll appear directly in the section without any project description."@
}

/// The note for an entry that stands under another section than its
/// project's default.
pub open spec fn override_note(link: Seq<char>, reporter: Seq<char>, section: Seq<char>) -> Seq<
    char,
> {
    "["@ + link + "] News entry by "@ + reporter + " gets added to the “"@ + section
        + "” section, which is not the default section for this project."@
}

/// The warning about the news that were left out.
pub open spec fn skipped_warning(skipped: nat) -> Seq<char> {
    decimal(skipped)
        + " news are not included because of project/section assignment is missing. Use !status command to list them."@
}

/// The note that sums the report up.
pub open spec fn summary_note(included: nat, images: nat, videos: nat) -> Seq<char> {
    "Rendered markdown is including "@ + decimal(included) + " news, "@ + decimal(images)
        + " image(s) and "@ + decimal(videos) + " video(s)!"@
}

/// `s` with `n` filed under each section of `names`.
pub open spec fn file_under_sections(
    s: Seq<RenderSectionView>,
    names: Seq<Seq<char>>,
    n: RenderNewsView,
    c: ConfigView,
) -> Seq<RenderSectionView>
    decreases names.len(),
{
    if names.len() == 0 {
        s
    } else {
        with_section_news(
            file_under_sections(s, names.drop_last(), n, c),
            find_section(c.sections, names.last())->0,
            n,
        )
    }
}

/// `g` after `n` was filed under `project` for each section of `names` that
/// is not the project's default section, with a note for each.
pub open spec fn file_under_custom(
    g: Gathered,
    names: Seq<Seq<char>>,
    project: ProjectView,
    n: RenderNewsView,
    link: Seq<char>,
) -> Gathered
    decreases names.len(),
{
    if names.len() == 0 {
        g
    } else {
        let before = file_under_custom(g, names.drop_last(), project, n, link);
        if names.last() != project.default_section {
            Gathered {
                projects: with_project_news(before.projects, project, Some(names.last()), n),
                notes: before.notes.push(
                    override_note(link, n.reporter_display_name, names.last()),
                ),
                ..before
            }
        } else {
            before
        }
    }
}

/// Some section of `names` is not `default`.
pub open spec fn has_custom(names: Seq<Seq<char>>, default: Seq<char>) -> bool {
    exists|i: int| 0 <= i < names.len() && #[trigger] names[i] != default
}

/// `g` after `n` was filed under one project: under each section that
/// overrides the project's default, or, where none does, under the project
/// itself.
pub open spec fn file_under_project(
    g: Gathered,
    sections: Seq<Seq<char>>,
    project: ProjectView,
    n: RenderNewsView,
    link: Seq<char>,
) -> Gathered {
    let named = Gathered { project_names: with_name(g.project_names, project.name), ..g };
    if has_custom(sections, project.default_section) {
        file_under_custom(named, sections, project, n, link)
    } else {
        Gathered { projects: with_project_news(named.projects, project, None, n), ..named }
    }
}

/// `g` after `n` was filed under each project of `projects`.
pub open spec fn file_under_projects(
    g: Gathered,
    projects: Seq<Seq<char>>,
    sections: Seq<Seq<char>>,
    n: RenderNewsView,
    link: Seq<char>,
    c: ConfigView,
) -> Gathered
    decreases projects.len(),
{
    if projects.len() == 0 {
        g
    } else {
        file_under_project(
            file_under_projects(g, projects.drop_last(), sections, n, link, c),
            sections,
            find_project(c.projects, projects.last())->0,
            n,
            link,
        )
    }
}

/// `g` after one more news entry was looked at. An entry without a tag is
/// counted as left out. Any other is counted in, its files are collected,
/// and it is filed under its sections where it has no project, under its
/// projects otherwise.
pub open spec fn gather(g: Gathered, n: NewsView, c: ConfigView) -> Gathered {
    if !assigned(n) {
        Gathered { skipped: g.skipped + 1, ..g }
    } else {
        let link = message_link_text(c.reporting_room_id, n.event_id);
        let projects = names_of(n.project_tags);
        let sections = names_of(n.section_tags);
        let shown = render_news(n);
        let counted = Gathered {
            warnings: if projects.len() > 1 || sections.len() > 1 {
                g.warnings.push(multiple_warning(link, n.reporter_display_name))
            } else {
                g.warnings
            },
            images: files_into(g.images, n.images),
            videos: files_into(g.videos, n.videos),
            included: g.included + 1,
            ..g
        };
        if projects.len() == 0 {
            Gathered {
                sections: file_under_sections(counted.sections, sections, shown, c),
                notes: counted.notes.push(no_project_note(link, n.reporter_display_name)),
                ..counted
            }
        } else {
            file_under_projects(counted, projects, sections, shown, link, c)
        }
    }
}

/// What is gathered from a list of news, looked at in order.
pub open spec fn gather_all(news: Seq<NewsView>, c: ConfigView) -> Gathered
    decreases news.len(),
{
    if news.len() == 0 {
        nothing_gathered()
    } else {
        gather(gather_all(news.drop_last(), c), news.last(), c)
    }
}

proof fn lemma_custom_keeps_counts(
    g: Gathered,
    names: Seq<Seq<char>>,
    project: ProjectView,
    n: RenderNewsView,
    link: Seq<char>,
)
    ensures
        file_under_custom(g, names, project, n, link).included == g.included,
        file_under_custom(g, names, project, n, link).skipped == g.skipped,
    decreases names.len(),
{
    if names.len() > 0 {
        lemma_custom_keeps_counts(g, names.drop_last(), project, n, link);
    }
}

proof fn lemma_projects_keep_counts(
    g: Gathered,
    projects: Seq<Seq<char>>,
    sections: Seq<Seq<char>>,
    n: RenderNewsView,
    link: Seq<char>,
    c: ConfigView,
)
    ensures
        file_under_projects(g, projects, sections, n, link, c).included == g.included,
        file_under_projects(g, projects, sections, n, link, c).skipped == g.skipped,
    decreases projects.len(),
{
    if projects.len() > 0 {
        lemma_projects_keep_counts(g, projects.drop_last(), sections, n, link, c);
        let before = file_under_projects(g, projects.drop_last(), sections, n, link, c);
        let project = find_project(c.projects, projects.last())->0;
        let named = Gathered {
            project_names: with_name(before.project_names, project.name),
            ..before
        };
        lemma_custom_keeps_counts(named, sections, project, n, link);
    }
}

/// Every news entry is counted once: as part of the report where it is
/// assigned, as left out where it is not.
pub proof fn law_every_news_is_counted(news: Seq<NewsView>, c: ConfigView)
    ensures
        gather_all(news, c).included + gather_all(news, c).skipped == news.len(),
        (forall|i: int| 0 <= i < news.len() ==> assigned(#[trigger] news[i])) ==> gather_all(
            news,
            c,
        ).skipped == 0,
        (forall|i: int| 0 <= i < news.len() ==> !assigned(#[trigger] news[i])) ==> gather_all(
            news,
            c,
        ) == (Gathered { skipped: news.len(), ..nothing_gathered() }),
    decreases news.len(),
{
    if news.len() > 0 {
        let init = news.drop_last();
        law_every_news_is_counted(init, c);
        let g = gather_all(init, c);
        let n = news.last();
        assert(n == news[news.len() - 1]);
        assert forall|i: int| 0 <= i < init.len() implies init[i] == news[i] by {}
        if assigned(n) {
            let link = message_link_text(c.reporting_room_id, n.event_id);
            let counted = Gathered {
                warnings: if names_of(n.project_tags).len() > 1 || names_of(n.section_tags).len()
                    > 1 {
                    g.warnings.push(multiple_warning(link, n.reporter_display_name))
                } else {
                    g.warnings
                },
                images: files_into(g.images, n.images),
                videos: files_into(g.videos, n.videos),
                included: g.included + 1,
                ..g
            };
            lemma_projects_keep_counts(
                counted,
                names_of(n.project_tags),
                names_of(n.section_tags),
                render_news(n),
                link,
                c,
            );
        }
        if forall|i: int| 0 <= i < news.len() ==> assigned(#[trigger] news[i]) {
            assert forall|i: int| 0 <= i < init.len() implies assigned(#[trigger] init[i]) by {
                assert(assigned(news[i]));
            }
        }
        if forall|i: int| 0 <= i < news.len() ==> !assigned(#[trigger] news[i]) {
            assert forall|i: int| 0 <= i < init.len() implies !assigned(#[trigger] init[i]) by {
                assert(!assigned(news[i]));
            }
        }
    }
}

/// `s` with each project group of `projects` put under its section.
pub open spec fn attach_projects(
    s: Seq<RenderSectionView>,
    projects: Seq<RenderProjectView>,
    c: ConfigView,
) -> Seq<RenderSectionView>
    decreases projects.len(),
{
    if projects.len() == 0 {
        s
    } else {
        with_section_project(
            attach_projects(s, projects.drop_last(), c),
            find_section(c.sections, target_section(projects.last()))->0,
            projects.last(),
        )
    }
}

/// `s`, which is in ascending order, with `x` put behind the last group
/// whose order is not greater.
pub open spec fn insert_by_order(s: Seq<RenderSectionView>, x: RenderSectionView) -> Seq<
    RenderSectionView,
>
    decreases s.len(),
{
    if s.len() == 0 {
        seq![x]
    } else if x.section.order < s[0].section.order {
        seq![x] + s
    } else {
        seq![s[0]] + insert_by_order(s.drop_first(), x)
    }
}

/// The groups of `s` by ascending order of their sections; groups of equal
/// order stay as they were.
pub open spec fn sorted_by_order(s: Seq<RenderSectionView>) -> Seq<RenderSectionView>
    decreases s.len(),
{
    if s.len() == 0 {
        Seq::empty()
    } else {
        insert_by_order(sorted_by_order(s.drop_last()), s.last())
    }
}

/// The groups stand in ascending order of their sections.
pub open spec fn ascending(s: Seq<RenderSectionView>) -> bool {
    forall|i: int, j: int|
        0 <= i < j < s.len() ==> (#[trigger] s[i]).section.order <= (#[trigger] s[j]).section.order
}

/// Inserting by order keeps the ascending order and adds one group.
pub proof fn lemma_insert_by_order(s: Seq<RenderSectionView>, x: RenderSectionView)
    requires
        ascending(s),
    ensures
        ascending(insert_by_order(s, x)),
        insert_by_order(s, x).len() == s.len() + 1,
        insert_by_order(s, x).to_multiset() == s.to_multiset().insert(x),
    decreases s.len(),
{
    broadcast use vstd::seq_lib::group_to_multiset_ensures;

    let t = insert_by_order(s, x);
    if s.len() == 0 {
        assert(t =~= Seq::<RenderSectionView>::empty().push(x));
    } else if x.section.order < s[0].section.order {
        assert forall|i: int, j: int| 0 <= i < j < t.len() implies (#[trigger] t[i]).section.order
            <= (#[trigger] t[j]).section.order by {
            if i == 0 {
                assert(t[j] == s[j - 1]);
                if j > 1 {
                    assert(s[0].section.order <= s[j - 1].section.order);
                }
            } else {
                assert(t[i] == s[i - 1] && t[j] == s[j - 1]);
            }
        }
        assert(t =~= s.insert(0, x));
        vstd::seq_lib::to_multiset_insert(s, 0, x);
    } else {
        let rest = s.drop_first();
        assert forall|i: int, j: int| 0 <= i < j < rest.len() implies (
        #[trigger] rest[i]).section.order <= (#[trigger] rest[j]).section.order by {
            assert(rest[i] == s[i + 1] && rest[j] == s[j + 1]);
        }
        lemma_insert_by_order(rest, x);
        let r = insert_by_order(rest, x);
        assert forall|k: int| 0 <= k < r.len() implies s[0].section.order <= (
        #[trigger] r[k]).section.order by {
            assert(r.to_multiset().count(r[k]) > 0);
            if r[k] != x {
                assert(rest.to_multiset().count(r[k]) > 0);
                assert(rest.contains(r[k]));
                let m = choose|m: int| 0 <= m < rest.len() && rest[m] == r[k];
                assert(s[m + 1] == r[k]);
            }
        }
        assert forall|i: int, j: int| 0 <= i < j < t.len() implies (#[trigger] t[i]).section.order
            <= (#[trigger] t[j]).section.order by {
            if i == 0 {
                assert(t[j] == r[j - 1]);
            } else {
                assert(t[i] == r[i - 1] && t[j] == r[j - 1]);
            }
        }
        assert(t =~= r.insert(0, s[0]));
        vstd::seq_lib::to_multiset_insert(r, 0, s[0]);
        assert(s =~= rest.insert(0, s[0]));
        vstd::seq_lib::to_multiset_insert(rest, 0, s[0]);
        assert(t.to_multiset() =~= s.to_multiset().insert(x));
    }
}

/// Sorting puts the groups in ascending order and neither adds nor drops
/// one.
pub proof fn law_sorted_by_order(s: Seq<RenderSectionView>)
    ensures
        ascending(sorted_by_order(s)),
        sorted_by_order(s).len() == s.len(),
        sorted_by_order(s).to_multiset() == s.to_multiset(),
    decreases s.len(),
{
    broadcast use vstd::seq_lib::group_to_multiset_ensures;

    if s.len() > 0 {
        law_sorted_by_order(s.drop_last());
        lemma_insert_by_order(sorted_by_order(s.drop_last()), s.last());
        assert(s =~= s.drop_last().push(s.last()));
    } else {
        assert(s =~= Seq::<RenderSectionView>::empty());
    }
}

/// The report for a list of news: the groups by ascending order of their
/// sections, the names of the projects with news, the warnings and the notes
/// with their summaries in front, and the files to fetch.
pub open spec fn rendered(news: Seq<NewsView>, c: ConfigView) -> RenderResultView {
    let g = gather_all(news, c);
    RenderResultView {
        sections: sorted_by_order(attach_projects(g.sections, g.projects, c)),
        projects: g.project_names,
        warnings: (if g.skipped > 0 {
            seq![skipped_warning(g.skipped)]
        } else {
            Seq::empty()
        }) + g.warnings,
        notes: seq![summary_note(g.included, g.images.len(), g.videos.len())] + g.notes,
        images: file_pairs(g.images),
        videos: file_pairs(g.videos),
    }
}

/// Every section and project that the tags of `n` name is configured, and so
/// is the default section of each such project.
pub open spec fn tags_known(n: NewsView, c: ConfigView) -> bool {
    &&& forall|i: int|
        0 <= i < names_of(n.section_tags).len() ==> find_section(
            c.sections,
            #[trigger] names_of(n.section_tags)[i],
        ) is Some
    &&& forall|i: int|
        0 <= i < names_of(n.project_tags).len() ==> {
            &&& find_project(c.projects, #[trigger] names_of(n.project_tags)[i]) is Some
            &&& find_section(
                c.sections,
                find_project(c.projects, names_of(n.project_tags)[i])->0.default_section,
            ) is Some
        }
}

/// The tags of all assigned news are known to the configuration.
pub open spec fn renderable(news: Seq<NewsView>, c: ConfigView) -> bool {
    forall|i: int| 0 <= i < news.len() && assigned(#[trigger] news[i]) ==> tags_known(news[i], c)
}

/// The section of every project group is configured.
pub open spec fn targets_known(ps: Seq<RenderProjectView>, c: ConfigView) -> bool {
    forall|i: int|
        0 <= i < ps.len() ==> find_section(c.sections, target_section(#[trigger] ps[i])) is Some
}

fn same_option(a: &Option<String>, b: &Option<String>) -> (r: bool)
    ensures
        r == (option_view(*a) == option_view(*b)),
{
    match a {
        Some(x) => match b {
            Some(y) => text_eq(x.as_str(), y.as_str()),
            None => false,
        },
        None => match b {
            Some(_) => false,
            None => true,
        },
    }
}

fn section_place(sections: &Vec<RenderSection>, name: &str) -> (k: usize)
    ensures
        k == first_index(views(sections@), is_section(name@)),
        k <= sections@.len(),
{
    let mut k: usize = 0;
    while k < sections.len()
        invariant
            k <= sections@.len(),
            forall|j: int| 0 <= j < k ==> !is_section(name@)(#[trigger] views(sections@)[j]),
        decreases sections.len() - k,
    {
        if text_eq(sections[k].section.name.as_str(), name) {
            proof {
                assert(is_section(name@)(views(sections@)[k as int]));
                lemma_first_index_is(views(sections@), is_section(name@), k as int);
            }
            return k;
        }
        k += 1;
    }
    proof {
        lemma_first_index_is(views(sections@), is_section(name@), k as int);
    }
    k
}

fn project_place(projects: &Vec<RenderProject>, name: &str, overwritten: &Option<String>) -> (k:
    usize)
    ensures
        k == first_index(views(projects@), is_project(name@, option_view(*overwritten))),
        k <= projects@.len(),
{
    let ghost p = is_project(name@, option_view(*overwritten));
    let mut k: usize = 0;
    while k < projects.len()
        invariant
            k <= projects@.len(),
            p == is_project(name@, option_view(*overwritten)),
            forall|j: int| 0 <= j < k ==> !p(#[trigger] views(projects@)[j]),
        decreases projects.len() - k,
    {
        if text_eq(projects[k].project.name.as_str(), name) && same_option(
            &projects[k].overwritten_section,
            overwritten,
        ) {
            proof {
                assert(p(views(projects@)[k as int]));
                lemma_first_index_is(views(projects@), p, k as int);
            }
            return k;
        }
        k += 1;
    }
    proof {
        lemma_first_index_is(views(projects@), p, k as int);
    }
    k
}

fn add_section_news(sections: &mut Vec<RenderSection>, section: Section, n: RenderNews)
    ensures
        views(final(sections)@) == with_section_news(views(old(sections)@), section@, n@),
{
    let ghost before = views(sections@);
    let k = section_place(sections, section.name.as_str());
    if k < sections.len() {
        let mut group = sections.remove(k);
        let ghost shown = views(group.news@);
        group.news.push(n);
        assert(views(group.news@) =~= shown.push(n@));
        sections.insert(k, group);
        assert(views(sections@) =~= with_section_news(before, section@, n@));
    } else {
        let mut news: Vec<RenderNews> = Vec::new();
        news.push(n);
        let group = RenderSection { section, projects: Vec::new(), news };
        assert(group@.news =~= seq![n@]);
        assert(group@.projects =~= Seq::<RenderProjectView>::empty());
        sections.push(group);
        assert(views(sections@) =~= with_section_news(before, section@, n@));
    }
}

fn add_section_project(sections: &mut Vec<RenderSection>, section: Section, p: RenderProject)
    ensures
        views(final(sections)@) == with_section_project(views(old(sections)@), section@, p@),
{
    let ghost before = views(sections@);
    let k = section_place(sections, section.name.as_str());
    if k < sections.len() {
        let mut group = sections.remove(k);
        let ghost held = views(group.projects@);
        group.projects.push(p);
        assert(views(group.projects@) =~= held.push(p@));
        sections.insert(k, group);
        assert(views(sections@) =~= with_section_project(before, section@, p@));
    } else {
        let mut projects: Vec<RenderProject> = Vec::new();
        projects.push(p);
        let group = RenderSection { section, projects, news: Vec::new() };
        assert(group@.projects =~= seq![p@]);
        assert(group@.news =~= Seq::<RenderNewsView>::empty());
        sections.push(group);
        assert(views(sections@) =~= with_section_project(before, section@, p@));
    }
}

fn add_project_news(
    projects: &mut Vec<RenderProject>,
    project: Project,
    overwritten: Option<String>,
    n: RenderNews,
)
    ensures
        views(final(projects)@) == with_project_news(
            views(old(projects)@),
            project@,
            option_view(overwritten),
            n@,
        ),
{
    let ghost before = views(projects@);
    let k = project_place(projects, project.name.as_str(), &overwritten);
    if k < projects.len() {
        let mut group = projects.remove(k);
        let ghost shown = views(group.news@);
        group.news.push(n);
        assert(views(group.news@) =~= shown.push(n@));
        projects.insert(k, group);
        assert(views(projects@) =~= with_project_news(
            before,
            project@,
            option_view(overwritten),
            n@,
        ));
    } else {
        let mut news: Vec<RenderNews> = Vec::new();
        news.push(n);
        let group = RenderProject { project, news, overwritten_section: overwritten };
        assert(group@.news =~= seq![n@]);
        projects.push(group);
        assert(views(projects@) =~= with_project_news(
            before,
            project@,
            option_view(overwritten),
            n@,
        ));
    }
}

/// Adding news to a group whose section is configured keeps the sections of
/// all groups configured.
pub proof fn lemma_with_project_news_known(
    ps: Seq<RenderProjectView>,
    project: ProjectView,
    overwritten: Option<Seq<char>>,
    n: RenderNewsView,
    c: ConfigView,
)
    requires
        targets_known(ps, c),
        find_section(
            c.sections,
            match overwritten {
                Some(s) => s,
                None => project.default_section,
            },
        ) is Some,
    ensures
        targets_known(with_project_news(ps, project, overwritten, n), c),
{
    let t = with_project_news(ps, project, overwritten, n);
    lemma_first_index(ps, is_project(project.name, overwritten));
    let k = first_index(ps, is_project(project.name, overwritten));
    assert forall|i: int| 0 <= i < t.len() implies find_section(
        c.sections,
        target_section(#[trigger] t[i]),
    ) is Some by {
        if i < ps.len() {
            assert(target_section(t[i]) == target_section(ps[i]));
        }
    }
}

/// The state of the grouping while the news are looked at one by one.
struct Gathering {
    sections: Vec<RenderSection>,
    projects: Vec<RenderProject>,
    project_names: Vec<String>,
    warnings: Vec<String>,
    notes: Vec<String>,
    images: IdMap<String>,
    videos: IdMap<String>,
    included: usize,
    skipped: usize,
}

impl View for Gathering {
    type V = Gathered;

    closed spec fn view(&self) -> Gathered {
        Gathered {
            sections: views(self.sections@),
            projects: views(self.projects@),
            project_names: views(self.project_names@),
            warnings: views(self.warnings@),
            notes: views(self.notes@),
            images: self.images@,
            videos: self.videos@,
            included: self.included as nat,
            skipped: self.skipped as nat,
        }
    }
}

fn push_text(list: &mut Vec<String>, item: String)
    ensures
        views(final(list)@) == views(old(list)@).push(item@),
{
    list.push(item);
    assert(views(list@) =~= views(old(list)@).push(item@));
}

fn file_news_under_sections(
    sections: &mut Vec<RenderSection>,
    names: &Vec<String>,
    n: &RenderNews,
    config: &Config,
)
    requires
        forall|i: int|
            0 <= i < names@.len() ==> find_section(config@.sections, #[trigger] views(names@)[i])
                is Some,
    ensures
        views(final(sections)@) == file_under_sections(
            views(old(sections)@),
            views(names@),
            n@,
            config@,
        ),
{
    let ghost all = views(names@);
    let mut i: usize = 0;
    proof {
        assert(all.take(0) =~= Seq::<Seq<char>>::empty());
    }
    while i < names.len()
        invariant
            i <= names@.len(),
            all == views(names@),
            forall|j: int|
                0 <= j < names@.len() ==> find_section(config@.sections, #[trigger] all[j])
                    is Some,
            views(sections@) == file_under_sections(
                views(old(sections)@),
                all.take(i as int),
                n@,
                config@,
            ),
        decreases names.len() - i,
    {
        proof {
            assert(all.take(i + 1).drop_last() =~= all.take(i as int));
            assert(all.take(i + 1).last() == all[i as int]);
        }
        match config.section_by_name(names[i].as_str()) {
            Some(section) => {
                add_section_news(sections, section, n.clone());
            },
            None => {
                assert(false);
            },
        }
        i += 1;
    }
    proof {
        assert(all.take(names@.len() as int) =~= all);
    }
}

proof fn lemma_has_custom_step(names: Seq<Seq<char>>, default: Seq<char>, i: int)
    requires
        0 <= i < names.len(),
    ensures
        has_custom(names.take(i + 1), default) == (has_custom(names.take(i), default) || names[i]
            != default),
{
    let a = names.take(i);
    let b = names.take(i + 1);
    if has_custom(a, default) {
        let k = choose|k: int| 0 <= k < a.len() && #[trigger] a[k] != default;
        assert(b[k] != default);
    }
    if names[i] != default {
        assert(b[i] != default);
    }
    if has_custom(b, default) {
        let k = choose|k: int| 0 <= k < b.len() && #[trigger] b[k] != default;
        if k < i {
            assert(a[k] != default);
        }
    }
}

proof fn lemma_file_under_custom_keeps(
    g: Gathered,
    names: Seq<Seq<char>>,
    project: ProjectView,
    n: RenderNewsView,
    link: Seq<char>,
    c: ConfigView,
)
    requires
        targets_known(g.projects, c),
        forall|i: int| 0 <= i < names.len() ==> find_section(c.sections, #[trigger] names[i])
            is Some,
    ensures
        targets_known(file_under_custom(g, names, project, n, link).projects, c),
        !has_custom(names, project.default_section) ==> file_under_custom(
            g,
            names,
            project,
            n,
            link,
        ) == g,
    decreases names.len(),
{
    if names.len() > 0 {
        let init = names.drop_last();
        assert forall|i: int| 0 <= i < init.len() implies find_section(
            c.sections,
            #[trigger] init[i],
        ) is Some by {
            assert(init[i] == names[i]);
        }
        lemma_file_under_custom_keeps(g, init, project, n, link, c);
        let before = file_under_custom(g, init, project, n, link);
        assert(names.last() == names[names.len() - 1]);
        if names.last() != project.default_section {
            lemma_with_project_news_known(before.projects, project, Some(names.last()), n, c);
        }
        assert(names.take(names.len() - 1) =~= init);
        assert(names.take(names.len() as int) =~= names);
        lemma_has_custom_step(names, project.default_section, names.len() - 1);
    }
}

fn file_news_under_project(
    g: &mut Gathering,
    sections: &Vec<String>,
    project: Project,
    n: &RenderNews,
    link: &str,
    config: &Config,
)
    requires
        targets_known(old(g)@.projects, config@),
        forall|i: int|
            0 <= i < sections@.len() ==> find_section(
                config@.sections,
                #[trigger] views(sections@)[i],
            ) is Some,
        find_section(config@.sections, project@.default_section) is Some,
    ensures
        final(g)@ == file_under_project(old(g)@, views(sections@), project@, n@, link@),
        targets_known(final(g)@.projects, config@),
        final(g).included == old(g).included,
        final(g).skipped == old(g).skipped,
{
    let ghost all = views(sections@);
    insert_name(&mut g.project_names, project.name.clone());
    let ghost named = g@;
    let mut overwritten = false;
    let mut i: usize = 0;
    proof {
        assert(all.take(0) =~= Seq::<Seq<char>>::empty());
        assert(!has_custom(all.take(0), project@.default_section));
    }
    while i < sections.len()
        invariant
            i <= sections@.len(),
            all == views(sections@),
            forall|j: int|
                0 <= j < all.len() ==> find_section(config@.sections, #[trigger] all[j]) is Some,
            targets_known(named.projects, config@),
            overwritten == has_custom(all.take(i as int), project@.default_section),
            g@ == file_under_custom(named, all.take(i as int), project@, n@, link@),
            g.included == old(g).included,
            g.skipped == old(g).skipped,
        decreases sections.len() - i,
    {
        proof {
            assert(all.take(i + 1).drop_last() =~= all.take(i as int));
            assert(all.take(i + 1).last() == all[i as int]);
            lemma_has_custom_step(all, project@.default_section, i as int);
        }
        if !text_eq(sections[i].as_str(), project.default_section.as_str()) {
            let mut note = String::from_str("[");
            note.append(link);
            note.append("] News entry by ");
            note.append(n.reporter_display_name.as_str());
            note.append(" gets added to the “");
            note.append(sections[i].as_str());
            note.append("” section, which is not the default section for this project.");
            push_text(&mut g.notes, note);
            overwritten = true;
            add_project_news(
                &mut g.projects,
                project.clone(),
                Some(sections[i].clone()),
                n.clone(),
            );
        }
        i += 1;
    }
    proof {
        assert(all.take(sections@.len() as int) =~= all);
        lemma_file_under_custom_keeps(named, all, project@, n@, link@, config@);
    }
    if !overwritten {
        proof {
            lemma_with_project_news_known(g@.projects, project@, None, n@, config@);
        }
        add_project_news(&mut g.projects, project, None, n.clone());
    }
}

fn gather_one(g: &mut Gathering, news: &News, config: &Config)
    requires
        targets_known(old(g)@.projects, config@),
        assigned(news@) ==> tags_known(news@, config@),
        old(g).included + old(g).skipped < usize::MAX,
    ensures
        final(g)@ == gather(old(g)@, news@, config@),
        targets_known(final(g)@.projects, config@),
        final(g).included + final(g).skipped == old(g).included + old(g).skipped + 1,
{
    if !news.is_assigned() {
        g.skipped = g.skipped + 1;
        return ;
    }
    let link = message_link(config, news.event_id.as_str());
    let projects = news.project_names();
    let sections = news.section_names();
    let shown = RenderNews::from_news(news);
    if projects.len() > 1 || sections.len() > 1 {
        let mut w = String::from_str("[");
        w.append(link.as_str());
        w.append("] News entry by ");
        w.append(news.reporter_display_name.as_str());
        w.append(
            " has multiple project or section information set, it’ll appear multiple times. This is probably not wanted!",
        );
        push_text(&mut g.warnings, w);
    }
    collect_files(&mut g.images, &news.images);
    collect_files(&mut g.videos, &news.videos);
    g.included = g.included + 1;
    let ghost counted = g@;
    if projects.len() == 0 {
        let mut note = String::from_str("[");
        note.append(link.as_str());
        note.append("] News entry by ");
        note.append(news.reporter_display_name.as_str());
        note.append(
            " doesn’t have project information, it’ll appear directly in the section without any project description.",
        );
        push_text(&mut g.notes, note);
        file_news_under_sections(&mut g.sections, &sections, &shown, config);
    } else {
        let ghost all = views(projects@);
        let mut i: usize = 0;
        proof {
            assert(all.take(0) =~= Seq::<Seq<char>>::empty());
        }
        while i < projects.len()
            invariant
                i <= projects@.len(),
                all == views(projects@),
                all == names_of(news@.project_tags),
                views(sections@) == names_of(news@.section_tags),
                tags_known(news@, config@),
                targets_known(g@.projects, config@),
                g@ == file_under_projects(
                    counted,
                    all.take(i as int),
                    views(sections@),
                    shown@,
                    link@,
                    config@,
                ),
                g.included == counted.included,
                g.skipped == counted.skipped,
            decreases projects.len() - i,
        {
            proof {
                assert(all.take(i + 1).drop_last() =~= all.take(i as int));
                assert(all.take(i + 1).last() == all[i as int]);
                assert(find_project(config@.projects, names_of(news@.project_tags)[i as int])
                    is Some);
            }
            match config.project_by_name(projects[i].as_str()) {
                Some(project) => {
                    file_news_under_project(g, &sections, project, &shown, link.as_str(), config);
                },
                None => {
                    assert(false);
                },
            }
            i += 1;
        }
        proof {
            assert(all.take(projects@.len() as int) =~= all);
        }
    }
}

fn attach_all(
    sections: Vec<RenderSection>,
    projects: Vec<RenderProject>,
    config: &Config,
) -> (r: Vec<RenderSection>)
    requires
        targets_known(views(projects@), config@),
    ensures
        views(r@) == attach_projects(views(sections@), views(projects@), config@),
{
    let ghost start = views(sections@);
    let ghost all = views(projects@);
    let mut sections = sections;
    let mut projects = projects;
    let ghost mut done: int = 0;
    proof {
        assert(all.take(0) =~= Seq::<RenderProjectView>::empty());
        assert(all.skip(0) =~= all);
    }
    while projects.len() > 0
        invariant
            0 <= done <= all.len(),
            targets_known(all, config@),
            views(projects@) == all.skip(done),
            views(sections@) == attach_projects(start, all.take(done), config@),
        decreases projects.len(),
    {
        let ghost rest = views(projects@);
        proof {
            assert(rest.len() == projects@.len());
        }
        let group = projects.remove(0);
        proof {
            assert(group@ == rest[0]);
            assert(rest[0] == all[done]);
            assert(views(projects@) =~= rest.drop_first());
            assert(rest.drop_first() =~= all.skip(done + 1));
            assert(all.take(done + 1).drop_last() =~= all.take(done));
            assert(all.take(done + 1).last() == all[done]);
        }
        let found = match &group.overwritten_section {
            Some(name) => config.section_by_name(name.as_str()),
            None => config.section_by_name(group.project.default_section.as_str()),
        };
        match found {
            Some(section) => {
                add_section_project(&mut sections, section, group);
            },
            None => {
                assert(false);
            },
        }
        proof {
            done = done + 1;
        }
    }
    proof {
        assert(all.take(all.len() as int) =~= all);
    }
    sections
}

proof fn lemma_insert_by_order_from(s: Seq<RenderSectionView>, x: RenderSectionView, k: int)
    requires
        0 <= k <= s.len(),
        forall|j: int| 0 <= j < k ==> (#[trigger] s[j]).section.order <= x.section.order,
        k < s.len() ==> x.section.order < s[k].section.order,
    ensures
        insert_by_order(s, x) == s.insert(k, x),
    decreases k,
{
    if k == 0 {
        if s.len() == 0 {
            assert(s.insert(0, x) =~= seq![x]);
        } else {
            assert(s.insert(0, x) =~= seq![x] + s);
        }
    } else {
        let rest = s.drop_first();
        assert(s[0].section.order <= x.section.order);
        assert forall|j: int| 0 <= j < k - 1 implies (#[trigger] rest[j]).section.order
            <= x.section.order by {
            assert(rest[j] == s[j + 1]);
        }
        lemma_insert_by_order_from(rest, x, k - 1);
        assert(seq![s[0]] + rest.insert(k - 1, x) =~= s.insert(k, x));
    }
}

fn sort_sections(sections: Vec<RenderSection>) -> (r: Vec<RenderSection>)
    ensures
        views(r@) == sorted_by_order(views(sections@)),
{
    let ghost all = views(sections@);
    let mut rest = sections;
    let mut out: Vec<RenderSection> = Vec::new();
    let ghost mut done: int = 0;
    proof {
        assert(all.take(0) =~= Seq::<RenderSectionView>::empty());
        assert(all.skip(0) =~= all);
        assert(views(out@) =~= Seq::<RenderSectionView>::empty());
    }
    while rest.len() > 0
        invariant
            0 <= done <= all.len(),
            views(rest@) == all.skip(done),
            views(out@) == sorted_by_order(all.take(done)),
        decreases rest.len(),
    {
        let ghost left = views(rest@);
        proof {
            assert(left.len() == rest@.len());
        }
        let group = rest.remove(0);
        proof {
            assert(group@ == left[0]);
            assert(left[0] == all[done]);
            assert(views(rest@) =~= left.drop_first());
            assert(left.drop_first() =~= all.skip(done + 1));
            assert(all.take(done + 1).drop_last() =~= all.take(done));
            assert(all.take(done + 1).last() == all[done]);
        }
        let mut k: usize = 0;
        while k < out.len() && out[k].section.order <= group.section.order
            invariant
                k <= out@.len(),
                forall|j: int|
                    0 <= j < k ==> (#[trigger] views(out@)[j]).section.order
                        <= group@.section.order,
            decreases out.len() - k,
        {
            k += 1;
        }
        proof {
            lemma_insert_by_order_from(views(out@), group@, k as int);
        }
        let ghost sorted = views(out@);
        out.insert(k, group);
        proof {
            assert(views(out@) =~= sorted.insert(k as int, group@));
            done = done + 1;
        }
    }
    proof {
        assert(all.take(all.len() as int) =~= all);
    }
    out
}

/// Tells whether the configuration knows every section and project that the
/// tags of `news` name, and the default section of each such project.
pub fn knows_tags(news: &News, config: &Config) -> (r: bool)
    ensures
        r == tags_known(news@, config@),
{
    let sections = news.section_names();
    let mut i: usize = 0;
    while i < sections.len()
        invariant
            i <= sections@.len(),
            views(sections@) == names_of(news@.section_tags),
            forall|j: int|
                0 <= j < i ==> find_section(
                    config@.sections,
                    #[trigger] names_of(news@.section_tags)[j],
                ) is Some,
        decreases sections.len() - i,
    {
        if config.section_by_name(sections[i].as_str()).is_none() {
            assert(find_section(config@.sections, names_of(news@.section_tags)[i as int])
                is None);
            return false;
        }
        i += 1;
    }
    let projects = news.project_names();
    let mut k: usize = 0;
    while k < projects.len()
        invariant
            k <= projects@.len(),
            views(projects@) == names_of(news@.project_tags),
            forall|j: int|
                0 <= j < k ==> find_project(
                    config@.projects,
                    #[trigger] names_of(news@.project_tags)[j],
                ) is Some && find_section(
                    config@.sections,
                    find_project(config@.projects, names_of(news@.project_tags)[j])->0.default_section,
                ) is Some,
        decreases projects.len() - k,
    {
        match config.project_by_name(projects[k].as_str()) {
            Some(project) => {
                if config.section_by_name(project.default_section.as_str()).is_none() {
                    assert(find_section(
                        config@.sections,
                        find_project(
                            config@.projects,
                            names_of(news@.project_tags)[k as int],
                        )->0.default_section,
                    ) is None);
                    return false;
                }
            },
            None => {
                assert(find_project(config@.projects, names_of(news@.project_tags)[k as int])
                    is None);
                return false;
            },
        }
        k += 1;
    }
    true
}

/// Tells whether `render` can be asked for these news: the configuration
/// knows the tags of every assigned entry.
pub fn can_render(news_list: &Vec<News>, config: &Config) -> (r: bool)
    ensures
        r == renderable(views(news_list@), config@),
{
    let mut i: usize = 0;
    while i < news_list.len()
        invariant
            i <= news_list@.len(),
            forall|j: int|
                0 <= j < i && assigned(#[trigger] views(news_list@)[j]) ==> tags_known(
                    views(news_list@)[j],
                    config@,
                ),
        decreases news_list.len() - i,
    {
        if news_list[i].is_assigned() && !knows_tags(&news_list[i], config) {
            assert(assigned(views(news_list@)[i as int]));
            return false;
        }
        i += 1;
    }
    true
}

/// Groups the news for the report. Unassigned news are left out and
/// counted; every other entry stands under each of its sections, or under
/// each of its projects, which in turn stand under their default section or
/// under the sections that override it. The sections come by ascending
/// order. The news themselves are not changed.
pub fn render(news_list: &Vec<News>, config: &Config) -> (r: RenderResult)
    requires
        renderable(views(news_list@), config@),
    ensures
        r@ == rendered(views(news_list@), config@),
{
    let ghost all = views(news_list@);
    let mut g = Gathering {
        sections: Vec::new(),
        projects: Vec::new(),
        project_names: Vec::new(),
        warnings: Vec::new(),
        notes: Vec::new(),
        images: IdMap::new(),
        videos: IdMap::new(),
        included: 0,
        skipped: 0,
    };
    proof {
        assert(g@.sections =~= Seq::<RenderSectionView>::empty());
        assert(g@.projects =~= Seq::<RenderProjectView>::empty());
        assert(g@.project_names =~= Seq::<Seq<char>>::empty());
        assert(g@.warnings =~= Seq::<Seq<char>>::empty());
        assert(g@.notes =~= Seq::<Seq<char>>::empty());
        assert(g@ == nothing_gathered());
        assert(all.take(0) =~= Seq::<NewsView>::empty());
    }
    let mut i: usize = 0;
    while i < news_list.len()
        invariant
            i <= news_list@.len(),
            all == views(news_list@),
            renderable(all, config@),
            targets_known(g@.projects, config@),
            g@ == gather_all(all.take(i as int), config@),
            g.included + g.skipped == i,
        decreases news_list.len() - i,
    {
        proof {
            assert(all.take(i + 1).drop_last() =~= all.take(i as int));
            assert(all.take(i + 1).last() == all[i as int]);
            assert(all[i as int] == news_list@[i as int]@);
        }
        gather_one(&mut g, &news_list[i], config);
        i += 1;
    }
    proof {
        assert(all.take(news_list@.len() as int) =~= all);
    }
    let ghost gathered = g@;
    let Gathering {
        sections,
        projects,
        project_names,
        warnings,
        notes,
        images,
        videos,
        included,
        skipped,
    } = g;
    let attached = attach_all(sections, projects, config);
    let sorted = sort_sections(attached);
    let mut all_warnings: Vec<String> = Vec::new();
    proof {
        assert(views(all_warnings@) =~= Seq::<Seq<char>>::empty());
    }
    if skipped != 0 {
        let mut w = decimal_string(skipped as u64);
        w.append(
            " news are not included because of project/section assignment is missing. Use !status command to list them.",
        );
        push_text(&mut all_warnings, w);
    }
    let ghost head = views(all_warnings@);
    let mut warnings = warnings;
    all_warnings.append(&mut warnings);
    proof {
        assert(views(all_warnings@) =~= head + gathered.warnings);
    }
    let mut summary = String::from_str("Rendered markdown is including ");
    summary.append(decimal_string(included as u64).as_str());
    summary.append(" news, ");
    summary.append(decimal_string(images.len() as u64).as_str());
    summary.append(" image(s) and ");
    summary.append(decimal_string(videos.len() as u64).as_str());
    summary.append(" video(s)!");
    let mut all_notes: Vec<String> = Vec::new();
    all_notes.push(summary);
    let mut notes = notes;
    all_notes.append(&mut notes);
    proof {
        assert(views(all_notes@) =~= seq![summary@] + gathered.notes);
    }
    RenderResult {
        sections: sorted,
        projects: project_names,
        warnings: all_warnings,
        notes: all_notes,
        images: files_to_pairs(&images),
        videos: files_to_pairs(&videos),
    }
}

/// `render` where the news can be rendered, `None` where the configuration
/// does not know a section or a project that an assigned entry is tagged
/// with.
pub fn try_render(news_list: &Vec<News>, config: &Config) -> (r: Option<RenderResult>)
    ensures
        r is Some == renderable(views(news_list@), config@),
        r matches Some(result) ==> result@ == rendered(views(news_list@), config@),
{
    if can_render(news_list, config) {
        Some(render(news_list, config))
    } else {
        None
    }
}

} // verus!
