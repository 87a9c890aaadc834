//! A project that news entries can be about.

use vstd::prelude::*;
use vstd::string::*;

verus! {

/// A named subject with a description and a section of its own.
#[derive(Debug)]
pub struct Project {
    /// The emoji that files a news entry under this project.
    pub emoji: String,
    /// The key by which tags refer to the project.
    pub name: String,
    /// The title shown in the report.
    pub title: String,
    /// The text that introduces the project in the report.
    pub description: String,
    /// Where the project lives.
    pub website: String,
    /// The section under which the project's news appear by default.
    pub default_section: String,
}

/// What a `Project` holds.
pub ghost struct ProjectView {
    pub emoji: Seq<char>,
    pub name: Seq<char>,
    pub title: Seq<char>,
    pub description: Seq<char>,
    pub website: Seq<char>,
    pub default_section: Seq<char>,
}

impl View for Project {
    type V = ProjectView;

    open spec fn view(&self) -> ProjectView {
        ProjectView {
            emoji: self.emoji@,
            name: self.name@,
            title: self.title@,
            description: self.description@,
            website: self.website@,
            default_section: self.default_section@,
        }
    }
}

impl Clone for Project {
    fn clone(&self) -> (r: Self)
        ensures
            r@ == self@,
    {
        Project {
            emoji: self.emoji.clone(),
            name: self.name.clone(),
            title: self.title.clone(),
            description: self.description.clone(),
            website: self.website.clone(),
            default_section: self.default_section.clone(),
        }
    }
}

/// The details of a project as a line of HTML.
pub open spec fn project_details(p: ProjectView) -> Seq<char> {
    "<b>Project Details</b><br><b>Emoji</b>: "@ + p.emoji + " <br><b>Name</b>: "@ + p.title
        + " ("@ + p.name + ") <br><b>Description</b>: "@ + p.description
        + " <br><b>Website</b>: "@ + p.website + " <br><b>Default Section</b>: "@
        + p.default_section + " <br>"@
}

impl Project {
    /// Describes the project in HTML: emoji, title and name, description,
    /// website and default section.
    pub fn html_details(&self) -> (r: String)
        ensures
            r@ == project_details(self@),
    {
        let mut out = String::from_str("<b>Project Details</b><br><b>Emoji</b>: ");
        out.append(self.emoji.as_str());
        out.append(" <br><b>Name</b>: ");
        out.append(self.title.as_str());
        out.append(" (");
        out.append(self.name.as_str());
        out.append(") <br><b>Description</b>: ");
        out.append(self.description.as_str());
        out.append(" <br><b>Website</b>: ");
        out.append(self.website.as_str());
        out.append(" <br><b>Default Section</b>: ");
        out.append(self.default_section.as_str());
        out.append(" <br>");
        out
    }
}

} // verus!
