//! A section of the report.

use vstd::prelude::*;
use vstd::string::*;
use crate::text::{clone_strings, decimal, decimal_string, join, joined, views};

verus! {

/// A top-level category of the report.
#[derive(Debug)]
pub struct Section {
    /// The emoji that files a news entry under this section.
    pub emoji: String,
    /// The key by which tags refer to the section.
    pub name: String,
    /// The title shown in the report.
    pub title: String,
    /// Sections are rendered by ascending order.
    pub order: u32,
    /// Users whose submissions usually belong here.
    pub usual_reporters: Vec<String>,
}

/// What a `Section` holds.
pub ghost struct SectionView {
    pub emoji: Seq<char>,
    pub name: Seq<char>,
    pub title: Seq<char>,
    pub order: u32,
    pub usual_reporters: Seq<Seq<char>>,
}

impl View for Section {
    type V = SectionView;

    open spec fn view(&self) -> SectionView {
        SectionView {
            emoji: self.emoji@,
            name: self.name@,
            title: self.title@,
            order: self.order,
            usual_reporters: views(self.usual_reporters@),
        }
    }
}

impl Clone for Section {
    fn clone(&self) -> (r: Self)
        ensures
            r@ == self@,
    {
        Section {
            emoji: self.emoji.clone(),
            name: self.name.clone(),
            title: self.title.clone(),
            order: self.order,
            usual_reporters: clone_strings(&self.usual_reporters),
        }
    }
}

/// The details of a section as a line of HTML.
pub open spec fn section_details(s: SectionView) -> Seq<char> {
    "<b>Section Details</b><br><b>Emoji</b>: "@ + s.emoji + " <br><b>Name</b>: "@ + s.title
        + " ("@ + s.name + ") <br><b>Order</b>: "@ + decimal(s.order as nat)
        + " <br><b>Reporters</b>:  "@ + joined(s.usual_reporters, ", "@)
}

impl Section {
    /// Describes the section in HTML: emoji, title and name, order, and the
    /// usual reporters separated by commas.
    pub fn html_details(&self) -> (r: String)
        ensures
            r@ == section_details(self@),
    {
        let mut out = String::from_str("<b>Section Details</b><br><b>Emoji</b>: ");
        out.append(self.emoji.as_str());
        out.append(" <br><b>Name</b>: ");
        out.append(self.title.as_str());
        out.append(" (");
        out.append(self.name.as_str());
        out.append(") <br><b>Order</b>: ");
        out.append(decimal_string(self.order as u64).as_str());
        out.append(" <br><b>Reporters</b>:  ");
        out.append(join(&self.usual_reporters, ", ").as_str());
        out
    }
}

} // verus!
