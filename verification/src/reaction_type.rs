//! What an emoji reaction means.

use vstd::prelude::*;
use vstd::string::*;
use crate::project::{Project, ProjectView};
use crate::section::{Section, SectionView};

verus! {

/// The meaning of a reaction: it files an entry under a section or a
/// project, submits a message as news, or means nothing to the bot.
#[derive(Debug)]
pub enum ReactionType {
    Section(Option<Section>),
    Project(Option<Project>),
    /// The emoji is not one that the bot knows.
    Nothing,
    Notice,
}

/// What a `ReactionType` holds.
pub ghost enum ReactionTypeView {
    Section(Option<SectionView>),
    Project(Option<ProjectView>),
    Nothing,
    Notice,
}

impl View for ReactionType {
    type V = ReactionTypeView;

    open spec fn view(&self) -> ReactionTypeView {
        match self {
            ReactionType::Section(Some(s)) => ReactionTypeView::Section(Some(s@)),
            ReactionType::Section(None) => ReactionTypeView::Section(None),
            ReactionType::Project(Some(p)) => ReactionTypeView::Project(Some(p@)),
            ReactionType::Project(None) => ReactionTypeView::Project(None),
            ReactionType::Nothing => ReactionTypeView::Nothing,
            ReactionType::Notice => ReactionTypeView::Notice,
        }
    }
}

/// The word for a kind of reaction.
pub open spec fn reaction_label(t: ReactionTypeView) -> Seq<char> {
    match t {
        ReactionTypeView::Section(_) => "section"@,
        ReactionTypeView::Project(_) => "project"@,
        ReactionTypeView::Nothing => "NONE"@,
        ReactionTypeView::Notice => "notice"@,
    }
}

impl ReactionType {
    /// The word for this kind of reaction, as it is written in messages.
    pub fn label(&self) -> (r: String)
        ensures
            r@ == reaction_label(self@),
    {
        match self {
            ReactionType::Section(_) => String::from_str("section"),
            ReactionType::Project(_) => String::from_str("project"),
            ReactionType::Nothing => String::from_str("NONE"),
            ReactionType::Notice => String::from_str("notice"),
        }
    }

    /// Tells whether the reaction is the notice emoji.
    pub fn is_notice(&self) -> (r: bool)
        ensures
            r == (self@ is Notice),
    {
        match self {
            ReactionType::Notice => true,
            _ => false,
        }
    }

    /// Tells whether the reaction means nothing to the bot.
    pub fn is_nothing(&self) -> (r: bool)
        ensures
            r == (self@ is Nothing),
    {
        match self {
            ReactionType::Nothing => true,
            _ => false,
        }
    }
}

} // verus!
