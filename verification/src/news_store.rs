//! The collection of submitted reports, keyed by the message that each came
//! in with.

use vstd::prelude::*;
use vstd::string::*;
use crate::error::Error;
use crate::idmap::{del, has_key, put};
use crate::news::{has_file, relates_to, News, NewsView};
use crate::seqs::{first_index, lemma_first_index_is};
use crate::text::{text_eq, views};

verus! {

/// Some report of `s` came in with the message `id`.
pub open spec fn has_id(s: Seq<NewsView>, id: Seq<char>) -> bool {
    exists|i: int| 0 <= i < s.len() && (#[trigger] s[i]).event_id == id
}

/// The place of a report that came in with the message `id`.
pub open spec fn index_of_id(s: Seq<NewsView>, id: Seq<char>) -> int {
    choose|i: int| 0 <= i < s.len() && (#[trigger] s[i]).event_id == id
}

/// No two reports came in with the same message.
pub open spec fn distinct_ids(s: Seq<NewsView>) -> bool {
    forall|i: int, j: int|
        0 <= i < s.len() && 0 <= j < s.len() && i != j ==> (#[trigger] s[i]).event_id
            != (#[trigger] s[j]).event_id
}

/// Some report of `s` carries a tag or an attachment of the reaction `id`.
pub open spec fn has_reaction(s: Seq<NewsView>, id: Seq<char>) -> bool {
    exists|i: int| 0 <= i < s.len() && relates_to(#[trigger] s[i], id)
}

/// The place of the oldest report that carries something of the reaction
/// `id`; the length of `s` where there is none.
pub open spec fn first_with_reaction(s: Seq<NewsView>, id: Seq<char>) -> int
    decreases s.len(),
{
    if s.len() == 0 {
        0
    } else if relates_to(s[0], id) {
        0
    } else {
        1 + first_with_reaction(s.drop_first(), id)
    }
}

/// The test for a report that holds a file of the message `file_event_id`.
pub open spec fn holds_file_of(file_event_id: Seq<char>) -> spec_fn(NewsView) -> bool {
    |n: NewsView| has_file(n, file_event_id)
}

/// The place of the oldest report that holds a file of the message
/// `file_event_id`; the length of `s` where there is none.
pub open spec fn first_with_file(s: Seq<NewsView>, file_event_id: Seq<char>) -> int {
    first_index(s, holds_file_of(file_event_id))
}

/// The store that holds the reports of `list`, taken in one by one: a
/// report whose message id is there already takes the place of the older
/// one, any other goes to the end.
pub open spec fn stored(list: Seq<NewsView>) -> Seq<NewsView>
    decreases list.len(),
{
    if list.len() == 0 {
        Seq::empty()
    } else {
        let before = stored(list.drop_last());
        if has_id(before, list.last().event_id) {
            before.update(index_of_id(before, list.last().event_id), list.last())
        } else {
            before.push(list.last())
        }
    }
}

/// A store that is rebuilt from its own reports is the same store.
pub proof fn law_reload(s: Seq<NewsView>)
    requires
        distinct_ids(s),
    ensures
        stored(s) == s,
    decreases s.len(),
{
    if s.len() > 0 {
        let init = s.drop_last();
        assert forall|i: int, j: int|
            0 <= i < init.len() && 0 <= j < init.len() && i != j implies (
        #[trigger] init[i]).event_id != (#[trigger] init[j]).event_id by {
            assert(init[i] == s[i] && init[j] == s[j]);
        }
        law_reload(init);
        if has_id(init, s.last().event_id) {
            let i = index_of_id(init, s.last().event_id);
            assert(s[i].event_id == s[s.len() - 1].event_id);
        }
        assert(init.push(s.last()) =~= s);
    } else {
        assert(s =~= Seq::<NewsView>::empty());
    }
}

/// The test for a report with a section tag of the reaction `id`.
pub open spec fn has_section_tag(id: Seq<char>) -> spec_fn(NewsView) -> bool {
    |n: NewsView| has_key(n.section_tags, id)
}

/// The test for a report with a project tag of the reaction `id`.
pub open spec fn has_project_tag(id: Seq<char>) -> spec_fn(NewsView) -> bool {
    |n: NewsView| has_key(n.project_tags, id)
}

/// How far apart two points in time are.
pub open spec fn distance(a: int, b: int) -> int {
    if a >= b {
        a - b
    } else {
        b - a
    }
}

/// The place in `s` of the report by `reporter` that is nearest in time to
/// `t`; of several that are equally near, the oldest in the store. `None`
/// where `reporter` has no report.
pub open spec fn nearest(s: Seq<NewsView>, reporter: Seq<char>, t: int) -> Option<int>
    decreases s.len(),
{
    if s.len() == 0 {
        None
    } else {
        let before = nearest(s.drop_last(), reporter, t);
        if s.last().reporter_id != reporter {
            before
        } else {
            match before {
                None => Some(s.len() - 1),
                Some(i) => if distance(s.last().timestamp, t) < distance(s[i].timestamp, t) {
                    Some(s.len() - 1)
                } else {
                    Some(i)
                },
            }
        }
    }
}

/// The report that `nearest` picks is by the reporter, no report by the
/// reporter is nearer in time, and every older one is strictly farther.
/// There is such a report exactly when the reporter has one.
pub proof fn law_nearest(s: Seq<NewsView>, reporter: Seq<char>, t: int)
    ensures
        nearest(s, reporter, t) is None <==> forall|j: int|
            0 <= j < s.len() ==> (#[trigger] s[j]).reporter_id != reporter,
        nearest(s, reporter, t) matches Some(i) ==> {
            &&& 0 <= i < s.len()
            &&& s[i].reporter_id == reporter
            &&& forall|j: int|
                0 <= j < s.len() && (#[trigger] s[j]).reporter_id == reporter ==> distance(
                    s[i].timestamp,
                    t,
                ) <= distance(s[j].timestamp, t)
            &&& forall|j: int|
                0 <= j < i && (#[trigger] s[j]).reporter_id == reporter ==> distance(
                    s[i].timestamp,
                    t,
                ) < distance(s[j].timestamp, t)
        },
    decreases s.len(),
{
    if s.len() > 0 {
        let init = s.drop_last();
        law_nearest(init, reporter, t);
        assert forall|j: int| 0 <= j < init.len() implies #[trigger] init[j] == s[j] by {}
        match nearest(s, reporter, t) {
            None => {
                assert forall|j: int| 0 <= j < s.len() implies (#[trigger] s[j]).reporter_id
                    != reporter by {
                    if j < init.len() {
                        assert(init[j].reporter_id != reporter);
                    }
                }
            },
            Some(i) => {
                assert(s[i].reporter_id == reporter);
                assert forall|j: int|
                    0 <= j < s.len() && (#[trigger] s[j]).reporter_id == reporter implies distance(
                    s[i].timestamp,
                    t,
                ) <= distance(s[j].timestamp, t) by {
                    if j < init.len() {
                        assert(init[j].reporter_id == reporter);
                    }
                }
                assert forall|j: int|
                    0 <= j < i && (#[trigger] s[j]).reporter_id == reporter implies distance(
                    s[i].timestamp,
                    t,
                ) < distance(s[j].timestamp, t) by {
                    assert(init[j].reporter_id == reporter);
                }
            },
        }
    }
}

/// The place that `first_with_reaction` gives lies in `s` exactly when some
/// report carries the reaction; that report does, and no older one.
pub proof fn lemma_first_with_reaction(s: Seq<NewsView>, id: Seq<char>)
    ensures
        0 <= first_with_reaction(s, id) <= s.len(),
        first_with_reaction(s, id) < s.len() <==> has_reaction(s, id),
        first_with_reaction(s, id) < s.len() ==> relates_to(s[first_with_reaction(s, id)], id),
        forall|j: int| 0 <= j < first_with_reaction(s, id) ==> !relates_to(#[trigger] s[j], id),
    decreases s.len(),
{
    if s.len() > 0 {
        let rest = s.drop_first();
        lemma_first_with_reaction(rest, id);
        let f = first_with_reaction(s, id);
        if relates_to(s[0], id) {
        } else {
            let g = first_with_reaction(rest, id);
            assert forall|j: int| 0 <= j < f implies !relates_to(#[trigger] s[j], id) by {
                if j > 0 {
                    assert(s[j] == rest[j - 1]);
                }
            }
            if g < rest.len() {
                assert(s[f] == rest[g]);
            }
            if has_reaction(s, id) {
                let i = choose|i: int| 0 <= i < s.len() && relates_to(#[trigger] s[i], id);
                assert(rest[i - 1] == s[i]);
                assert(has_reaction(rest, id));
            }
        }
    }
}

/// The reports that were submitted and not yet removed, oldest first.
#[derive(Debug)]
pub struct NewsStore {
    news: Vec<News>,
}

impl View for NewsStore {
    type V = Seq<NewsView>;

    closed spec fn view(&self) -> Seq<NewsView> {
        views(self.news@)
    }
}

impl NewsStore {
    #[verifier::type_invariant]
    spec fn inv(self) -> bool {
        distinct_ids(views(self.news@))
    }

    /// A store without reports.
    pub fn new() -> (s: Self)
        ensures
            s@ == Seq::<NewsView>::empty(),
    {
        let s = NewsStore { news: Vec::new() };
        assert(s@ =~= Seq::<NewsView>::empty());
        s
    }

    /// The store that holds the reports of `list`: see `stored`.
    pub fn from_news(list: Vec<News>) -> (s: Self)
        ensures
            s@ == stored(views(list@)),
    {
        let ghost all = views(list@);
        let mut rest = list;
        let mut store = NewsStore::new();
        let ghost mut done: int = 0;
        proof {
            assert(all.take(0) =~= Seq::<NewsView>::empty());
            assert(all.skip(0) =~= all);
        }
        while rest.len() > 0
            invariant
                0 <= done <= all.len(),
                views(rest@) == all.skip(done),
                store@ == stored(all.take(done)),
            decreases rest.len(),
        {
            let ghost left = views(rest@);
            proof {
                assert(left.len() == rest@.len());
            }
            let news = rest.remove(0);
            proof {
                assert(news@ == left[0]);
                assert(left[0] == all[done]);
                assert(views(rest@) =~= left.drop_first());
                assert(left.drop_first() =~= all.skip(done + 1));
                assert(all.take(done + 1).drop_last() =~= all.take(done));
                assert(all.take(done + 1).last() == all[done]);
            }
            match store.position(news.event_id.as_str()) {
                Some(i) => {
                    store.replace_at(i, news);
                },
                None => {
                    let added = store.add_news(news);
                },
            }
            proof {
                done = done + 1;
            }
        }
        proof {
            assert(all.take(all.len() as int) =~= all);
        }
        store
    }

    /// The number of reports.
    pub fn len(&self) -> (n: usize)
        ensures
            n == self@.len(),
            distinct_ids(self@),
    {
        proof {
            use_type_invariant(self);
        }
        self.news.len()
    }

    /// The place of the report that came in with `message_event_id`.
    pub fn position(&self, message_event_id: &str) -> (r: Option<usize>)
        ensures
            r is Some == has_id(self@, message_event_id@),
            r matches Some(i) ==> i == index_of_id(self@, message_event_id@) && i < self@.len(),
            distinct_ids(self@),
    {
        proof {
            use_type_invariant(self);
        }
        let mut i: usize = 0;
        while i < self.news.len()
            invariant
                i <= self.news@.len(),
                self.inv(),
                forall|j: int| 0 <= j < i ==> (#[trigger] self@[j]).event_id != message_event_id@,
            decreases self.news.len() - i,
        {
            if text_eq(self.news[i].event_id.as_str(), message_event_id) {
                assert(self@[i as int].event_id == message_event_id@);
                return Some(i);
            }
            i += 1;
        }
        None
    }

    /// The report at place `i`, counted from the oldest.
    pub fn news_at(&self, i: usize) -> (r: &News)
        requires
            i < self@.len(),
        ensures
            r@ == self@[i as int],
    {
        &self.news[i]
    }

    /// Stores a report. Fails with `DuplicateId`, and changes nothing, where
    /// a report with the same message id is stored already.
    pub fn add_news(&mut self, news: News) -> (r: Result<(), Error>)
        ensures
            has_id(old(self)@, news@.event_id) ==> r == Err::<(), Error>(Error::DuplicateId)
                && final(self)@ == old(self)@,
            !has_id(old(self)@, news@.event_id) ==> r is Ok && final(self)@ == old(self)@.push(
                news@,
            ),
            distinct_ids(final(self)@),
    {
        match self.position(news.event_id.as_str()) {
            Some(_) => Err(Error::DuplicateId),
            None => {
                let mut taken = NewsStore { news: Vec::new() };
                core::mem::swap(self, &mut taken);
                let NewsStore { news: mut list } = taken;
                assert forall|j: int| 0 <= j < list@.len() implies views(list@)[j].event_id
                    != news@.event_id by {
                    assert(old(self)@[j].event_id != news@.event_id);
                }
                list.push(news);
                assert(views(list@) =~= old(self)@.push(news@));
                *self = NewsStore { news: list };
                Ok(())
            },
        }
    }

    /// Puts `news` in the place of the stored report with the same message
    /// id. Fails with `NotFound`, and changes nothing, where there is none.
    pub fn replace_news(&mut self, news: News) -> (r: Result<(), Error>)
        ensures
            has_id(old(self)@, news@.event_id) ==> r is Ok && final(self)@ == old(self)@.update(
                index_of_id(old(self)@, news@.event_id),
                news@,
            ),
            !has_id(old(self)@, news@.event_id) ==> r == Err::<(), Error>(Error::NotFound)
                && final(self)@ == old(self)@,
            distinct_ids(final(self)@),
    {
        match self.position(news.event_id.as_str()) {
            Some(i) => {
                let mut taken = NewsStore { news: Vec::new() };
                core::mem::swap(self, &mut taken);
                let NewsStore { news: mut list } = taken;
                let ghost before = views(list@);
                list.set(i, news);
                assert(views(list@) =~= before.update(i as int, news@));
                *self = NewsStore { news: list };
                Ok(())
            },
            None => Err(Error::NotFound),
        }
    }

    /// Removes the report that came in with `event_id` and hands it out.
    /// Fails with `NotFound`, and changes nothing, where there is none.
    pub fn remove_news(&mut self, event_id: &str) -> (r: Result<News, Error>)
        ensures
            has_id(old(self)@, event_id@) ==> r is Ok && r->Ok_0@ == old(self)@[index_of_id(
                old(self)@,
                event_id@,
            )] && final(self)@ == old(self)@.remove(index_of_id(old(self)@, event_id@)),
            !has_id(old(self)@, event_id@) ==> r is Err && r->Err_0 == Error::NotFound
                && final(self)@ == old(self)@,
            distinct_ids(final(self)@),
    {
        match self.position(event_id) {
            Some(i) => {
                let mut taken = NewsStore { news: Vec::new() };
                core::mem::swap(self, &mut taken);
                let NewsStore { news: mut list } = taken;
                let ghost before = views(list@);
                let removed = list.remove(i);
                assert(views(list@) =~= before.remove(i as int));
                *self = NewsStore { news: list };
                Ok(removed)
            },
            None => Err(Error::NotFound),
        }
    }

    /// Puts `news` in the place `i`, where the report with the same message
    /// id stands.
    pub fn replace_at(&mut self, i: usize, news: News)
        requires
            i < old(self)@.len(),
            old(self)@[i as int].event_id == news@.event_id,
        ensures
            final(self)@ == old(self)@.update(i as int, news@),
            distinct_ids(final(self)@),
    {
        proof {
            use_type_invariant(&*self);
        }
        let mut taken = NewsStore { news: Vec::new() };
        core::mem::swap(self, &mut taken);
        let NewsStore { news: mut list } = taken;
        let ghost before = views(list@);
        list.set(i, news);
        assert(views(list@) =~= before.update(i as int, news@));
        *self = NewsStore { news: list };
    }

    /// The place of the oldest report that holds a file of the message
    /// `file_event_id`.
    pub fn position_by_file_id(&self, file_event_id: &str) -> (r: Option<usize>)
        ensures
            r is Some == (first_with_file(self@, file_event_id@) < self@.len()),
            r matches Some(i) ==> i == first_with_file(self@, file_event_id@),
    {
        let ghost p = holds_file_of(file_event_id@);
        let mut i: usize = 0;
        while i < self.news.len()
            invariant
                i <= self.news@.len(),
                p == holds_file_of(file_event_id@),
                forall|j: int| 0 <= j < i ==> !p(#[trigger] self@[j]),
            decreases self.news.len() - i,
        {
            if self.news[i].has_file_of(file_event_id) {
                proof {
                    assert(p(self@[i as int]));
                    lemma_first_index_is(self@, p, i as int);
                }
                return Some(i);
            }
            i += 1;
        }
        proof {
            lemma_first_index_is(self@, p, i as int);
        }
        None
    }

    /// The place of the report that `find_related_news` gives.
    pub fn position_related(&self, reporter_id: &str, timestamp: i64) -> (r: Option<usize>)
        ensures
            r is Some == nearest(self@, reporter_id@, timestamp as int) is Some,
            r matches Some(i) ==> i == nearest(self@, reporter_id@, timestamp as int)->0 && i
                < self@.len(),
    {
        let mut best: Option<usize> = None;
        let mut shortest: i128 = 0;
        let mut i: usize = 0;
        proof {
            assert(self@.take(0) =~= Seq::<NewsView>::empty());
        }
        while i < self.news.len()
            invariant
                i <= self.news@.len(),
                best is Some == nearest(self@.take(i as int), reporter_id@, timestamp as int)
                    is Some,
                best matches Some(b) ==> b < i && b as int == nearest(
                    self@.take(i as int),
                    reporter_id@,
                    timestamp as int,
                )->0 && shortest == distance(self@[b as int].timestamp, timestamp as int),
            decreases self.news.len() - i,
        {
            proof {
                assert(self@.take(i + 1).drop_last() =~= self@.take(i as int));
                assert(self@.take(i + 1).last() == self@[i as int]);
            }
            let n = &self.news[i];
            if text_eq(n.reporter_id.as_str(), reporter_id) {
                let a: i128 = n.timestamp as i128;
                let b: i128 = timestamp as i128;
                let diff: i128 = if a >= b {
                    a - b
                } else {
                    b - a
                };
                match best {
                    None => {
                        best = Some(i);
                        shortest = diff;
                    },
                    Some(_) => {
                        if diff < shortest {
                            best = Some(i);
                            shortest = diff;
                        }
                    },
                }
            }
            i += 1;
        }
        proof {
            assert(self@.take(self.news@.len() as int) =~= self@);
        }
        best
    }

    /// Replaces the text of the report that came in with `news_event_id`
    /// and hands a copy of the report out. Fails with `NotFound`, and changes
    /// nothing, where there is no such report.
    pub fn update_news(&mut self, news_event_id: &str, updated_text: String) -> (r: Result<
        News,
        Error,
    >)
        ensures
            has_id(old(self)@, news_event_id@) ==> r is Ok && r->Ok_0@ == (NewsView {
                message: updated_text@,
                ..old(self)@[index_of_id(old(self)@, news_event_id@)]
            }) && final(self)@ == old(self)@.update(
                index_of_id(old(self)@, news_event_id@),
                r->Ok_0@,
            ),
            !has_id(old(self)@, news_event_id@) ==> r is Err && r->Err_0 == Error::NotFound
                && final(self)@ == old(self)@,
    {
        match self.position(news_event_id) {
            Some(i) => {
                let mut news = self.news_at(i).clone();
                news.set_message(updated_text);
                let copy = news.clone();
                self.replace_at(i, news);
                Ok(copy)
            },
            None => Err(Error::NotFound),
        }
    }

    /// Files the report that came in with `news_event_id` under the section
    /// `name`, on behalf of the reaction `reaction_event_id`, and hands a
    /// copy of the report out. Fails with `NotFound`, and changes nothing,
    /// where there is no such report.
    pub fn add_news_section(
        &mut self,
        news_event_id: &str,
        reaction_event_id: &str,
        name: String,
    ) -> (r: Result<News, Error>)
        ensures
            has_id(old(self)@, news_event_id@) ==> r is Ok && r->Ok_0@ == (NewsView {
                section_tags: put(
                    old(self)@[index_of_id(old(self)@, news_event_id@)].section_tags,
                    reaction_event_id@,
                    name@,
                ),
                ..old(self)@[index_of_id(old(self)@, news_event_id@)]
            }) && final(self)@ == old(self)@.update(
                index_of_id(old(self)@, news_event_id@),
                r->Ok_0@,
            ),
            !has_id(old(self)@, news_event_id@) ==> r is Err && r->Err_0 == Error::NotFound
                && final(self)@ == old(self)@,
    {
        match self.position(news_event_id) {
            Some(i) => {
                let mut news = self.news_at(i).clone();
                news.add_section_name(String::from_str(reaction_event_id), name);
                let copy = news.clone();
                self.replace_at(i, news);
                Ok(copy)
            },
            None => Err(Error::NotFound),
        }
    }

    /// Files the report that came in with `news_event_id` under the project
    /// `name`, on behalf of the reaction `reaction_event_id`, and hands a
    /// copy of the report out. Fails with `NotFound`, and changes nothing,
    /// where there is no such report.
    pub fn add_news_project(
        &mut self,
        news_event_id: &str,
        reaction_event_id: &str,
        name: String,
    ) -> (r: Result<News, Error>)
        ensures
            has_id(old(self)@, news_event_id@) ==> r is Ok && r->Ok_0@ == (NewsView {
                project_tags: put(
                    old(self)@[index_of_id(old(self)@, news_event_id@)].project_tags,
                    reaction_event_id@,
                    name@,
                ),
                ..old(self)@[index_of_id(old(self)@, news_event_id@)]
            }) && final(self)@ == old(self)@.update(
                index_of_id(old(self)@, news_event_id@),
                r->Ok_0@,
            ),
            !has_id(old(self)@, news_event_id@) ==> r is Err && r->Err_0 == Error::NotFound
                && final(self)@ == old(self)@,
    {
        match self.position(news_event_id) {
            Some(i) => {
                let mut news = self.news_at(i).clone();
                news.add_project_name(String::from_str(reaction_event_id), name);
                let copy = news.clone();
                self.replace_at(i, news);
                Ok(copy)
            },
            None => Err(Error::NotFound),
        }
    }

    /// Takes the section tag of the reaction `redacted_event_id` off the
    /// oldest report that has one, and hands a copy of the report out. Fails
    /// with `NotFound`, and changes nothing, where no report has one.
    pub fn remove_news_section(&mut self, redacted_event_id: &str) -> (r: Result<News, Error>)
        ensures
            ({
                let i = first_index(old(self)@, has_section_tag(redacted_event_id@));
                if i < old(self)@.len() {
                    r is Ok && r->Ok_0@ == (NewsView {
                        section_tags: del(old(self)@[i].section_tags, redacted_event_id@),
                        ..old(self)@[i]
                    }) && final(self)@ == old(self)@.update(i, r->Ok_0@)
                } else {
                    r is Err && r->Err_0 == Error::NotFound && final(self)@ == old(self)@
                }
            }),
    {
        let ghost p = has_section_tag(redacted_event_id@);
        let n = self.len();
        let mut i: usize = 0;
        while i < n
            invariant
                i <= n,
                n == self@.len(),
                self@ == old(self)@,
                p == has_section_tag(redacted_event_id@),
                forall|j: int| 0 <= j < i ==> !p(#[trigger] self@[j]),
            decreases n - i,
        {
            if self.news_at(i).section_names.contains_key(redacted_event_id) {
                proof {
                    assert(p(self@[i as int]));
                    lemma_first_index_is(self@, p, i as int);
                }
                let mut news = self.news_at(i).clone();
                let removed = news.section_names.remove(redacted_event_id);
                let copy = news.clone();
                self.replace_at(i, news);
                return Ok(copy);
            }
            i += 1;
        }
        proof {
            lemma_first_index_is(self@, p, i as int);
        }
        Err(Error::NotFound)
    }

    /// Takes the project tag of the reaction `redacted_event_id` off the
    /// oldest report that has one, and hands a copy of the report out. Fails
    /// with `NotFound`, and changes nothing, where no report has one.
    pub fn remove_news_project(&mut self, redacted_event_id: &str) -> (r: Result<News, Error>)
        ensures
            ({
                let i = first_index(old(self)@, has_project_tag(redacted_event_id@));
                if i < old(self)@.len() {
                    r is Ok && r->Ok_0@ == (NewsView {
                        project_tags: del(old(self)@[i].project_tags, redacted_event_id@),
                        ..old(self)@[i]
                    }) && final(self)@ == old(self)@.update(i, r->Ok_0@)
                } else {
                    r is Err && r->Err_0 == Error::NotFound && final(self)@ == old(self)@
                }
            }),
    {
        let ghost p = has_project_tag(redacted_event_id@);
        let n = self.len();
        let mut i: usize = 0;
        while i < n
            invariant
                i <= n,
                n == self@.len(),
                self@ == old(self)@,
                p == has_project_tag(redacted_event_id@),
                forall|j: int| 0 <= j < i ==> !p(#[trigger] self@[j]),
            decreases n - i,
        {
            if self.news_at(i).project_names.contains_key(redacted_event_id) {
                proof {
                    assert(p(self@[i as int]));
                    lemma_first_index_is(self@, p, i as int);
                }
                let mut news = self.news_at(i).clone();
                let removed = news.project_names.remove(redacted_event_id);
                let copy = news.clone();
                self.replace_at(i, news);
                return Ok(copy);
            }
            i += 1;
        }
        proof {
            lemma_first_index_is(self@, p, i as int);
        }
        Err(Error::NotFound)
    }

    /// The same as `news`: a copy of all reports, oldest first.
    pub fn get_news(&self) -> (r: Vec<News>)
        ensures
            views(r@) == self@,
    {
        self.news()
    }

    /// A copy of all reports, oldest first.
    pub fn news(&self) -> (r: Vec<News>)
        ensures
            views(r@) == self@,
    {
        let mut out: Vec<News> = Vec::new();
        let mut i: usize = 0;
        while i < self.news.len()
            invariant
                i <= self.news@.len(),
                out@.len() == i,
                forall|j: int| 0 <= j < i ==> (#[trigger] out@[j])@ == self.news@[j]@,
            decreases self.news.len() - i,
        {
            out.push(self.news[i].clone());
            i += 1;
        }
        assert(views(out@) =~= self@);
        out
    }

    /// The report that came in with `message_event_id`, if it is stored.
    pub fn news_by_message_id(&self, message_event_id: &str) -> (r: Option<&News>)
        ensures
            r is Some == has_id(self@, message_event_id@),
            r matches Some(n) ==> n@ == self@[index_of_id(self@, message_event_id@)],
    {
        match self.position(message_event_id) {
            Some(i) => Some(&self.news[i]),
            None => None,
        }
    }

    /// The place of the oldest report that carries a tag or an attachment of
    /// the reaction `reaction_event_id`.
    pub fn position_by_reaction_id(&self, reaction_event_id: &str) -> (r: Option<usize>)
        ensures
            r is Some == has_reaction(self@, reaction_event_id@),
            r matches Some(i) ==> i == first_with_reaction(self@, reaction_event_id@) && i
                < self@.len(),
    {
        proof {
            lemma_first_with_reaction(self@, reaction_event_id@);
        }
        let mut i: usize = 0;
        while i < self.news.len()
            invariant
                i <= self.news@.len(),
                forall|j: int| 0 <= j < i ==> !relates_to(#[trigger] self@[j], reaction_event_id@),
                0 <= first_with_reaction(self@, reaction_event_id@) <= self@.len(),
                first_with_reaction(self@, reaction_event_id@) < self@.len() <==> has_reaction(
                    self@,
                    reaction_event_id@,
                ),
                first_with_reaction(self@, reaction_event_id@) < self@.len() ==> relates_to(
                    self@[first_with_reaction(self@, reaction_event_id@)],
                    reaction_event_id@,
                ),
                forall|j: int|
                    0 <= j < first_with_reaction(self@, reaction_event_id@) ==> !relates_to(
                        #[trigger] self@[j],
                        reaction_event_id@,
                    ),
            decreases self.news.len() - i,
        {
            if self.news[i].relates_to_reaction_id(reaction_event_id) {
                assert(relates_to(self@[i as int], reaction_event_id@));
                return Some(i);
            }
            i += 1;
        }
        None
    }

    /// The oldest report that carries a tag or an attachment of the reaction
    /// `reaction_event_id`, if there is one.
    pub fn news_by_reaction_id(&self, reaction_event_id: &str) -> (r: Option<&News>)
        ensures
            r is Some == has_reaction(self@, reaction_event_id@),
            r matches Some(n) ==> n@ == self@[first_with_reaction(self@, reaction_event_id@)],
    {
        match self.position_by_reaction_id(reaction_event_id) {
            Some(i) => Some(&self.news[i]),
            None => None,
        }
    }

    /// The report by `reporter_id` whose time of submission is nearest to
    /// `timestamp`, before or after; of several that are equally near, the
    /// oldest in the store.
    pub fn find_related_news(&self, reporter_id: &str, timestamp: i64) -> (r: Option<&News>)
        ensures
            r is Some == nearest(self@, reporter_id@, timestamp as int) is Some,
            r matches Some(n) ==> n@ == self@[nearest(self@, reporter_id@, timestamp as int)->0],
    {
        match self.position_related(reporter_id, timestamp) {
            Some(b) => Some(&self.news[b]),
            None => None,
        }
    }

    /// Removes every report.
    pub fn clear_news(&mut self)
        ensures
            final(self)@ == Seq::<NewsView>::empty(),
    {
        let cleared = NewsStore::new();
        *self = cleared;
    }
}

} // verus!
