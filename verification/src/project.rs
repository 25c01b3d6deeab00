//! A project of the portfolio: what its content file says of it, and where
//! it stands among the others.

use vstd::prelude::*;
use vstd::string::*;
use crate::date::{parsed_date, Date, DateView};
use crate::error::{AppError, AppErrorView};
use crate::matter::{optional_text, text_views, FrontMatter, FrontMatterView};
use crate::order::{
    lemma_text_before_irreflexive,
    lemma_text_before_total,
    lemma_text_before_transitive,
    text_before,
    text_precedes,
};

verus! {

/// The path under which the pages of the projects stand.
pub const PROJECTS_ROUTE: &'static str = "/projects/";

/// One project of the portfolio.
#[derive(Clone, Debug, PartialEq, Eq)]
pub struct Project {
    /// The name of the content file without its ending; the key of the project.
    pub identifier: String,
    pub title: String,
    /// The day of publication, by which the listing is ordered.
    pub published_date: Date,
    pub summary: String,
    /// The tags, in the order in which the author wrote them.
    pub tags: Vec<String>,
    /// The body as HTML. A listing leaves it out.
    pub body_html: Option<String>,
}

/// A `Project` in sequences of characters.
pub struct ProjectView {
    pub identifier: Seq<char>,
    pub title: Seq<char>,
    pub published_date: DateView,
    pub summary: Seq<char>,
    pub tags: Seq<Seq<char>>,
    pub body_html: Option<Seq<char>>,
}

impl View for Project {
    type V = ProjectView;

    open spec fn view(&self) -> ProjectView {
        ProjectView {
            identifier: self.identifier@,
            title: self.title@,
            published_date: self.published_date@,
            summary: self.summary@,
            tags: text_views(self.tags@),
            body_html: optional_text(self.body_html),
        }
    }
}

/// The views of a run of projects, in their order.
pub open spec fn project_views(projects: Seq<Project>) -> Seq<ProjectView> {
    projects.map_values(|project: Project| project@)
}

/// The project that a metadata block describes under `identifier`: it needs
/// a title, a date that reads as a day of the calendar, a description and a
/// list of tags. `None` where one of them is missing.
pub open spec fn project_of(identifier: Seq<char>, matter: FrontMatterView) -> Option<ProjectView> {
    if matter.title is Some && matter.date is Some && matter.description is Some && matter.tech
        is Some && parsed_date(matter.date->0) is Some {
        Some(
            ProjectView {
                identifier,
                title: matter.title->0,
                published_date: parsed_date(matter.date->0)->0,
                summary: matter.description->0,
                tags: matter.tech->0,
                body_html: None,
            },
        )
    } else {
        None
    }
}

impl ProjectView {
    /// Whether `self` stands before `other` in a listing: the later day of
    /// publication first, and of two projects of one day the one whose
    /// identifier comes first.
    pub open spec fn listed_before(self, other: ProjectView) -> bool {
        other.published_date.before(self.published_date) || (self.published_date
            == other.published_date && text_before(self.identifier, other.identifier))
    }

    /// The address of the project's page.
    pub open spec fn url(self) -> Seq<char> {
        PROJECTS_ROUTE@ + self.identifier
    }
}

impl Project {
    /// Makes the project `identifier` of the entries of its metadata block.
    /// Fails with `MalformedContent`, naming the identifier, where an entry
    /// is missing or the date does not read as a day of the calendar.
    pub fn from_matter(identifier: String, matter: FrontMatter) -> (made: Result<Project, AppError>)
        ensures
            made is Ok <==> project_of(identifier@, matter@) is Some,
            made matches Ok(project) ==> project_of(identifier@, matter@) == Some(project@),
            made matches Err(error) ==> error@ == AppErrorView::MalformedContent(identifier@),
    {
        let FrontMatter { title, date, description, tech } = matter;
        match (title, date, description, tech) {
            (Some(title), Some(date), Some(summary), Some(tags)) => {
                match Date::parse(date.as_str()) {
                    Some(published_date) => Ok(
                        Project { identifier, title, published_date, summary, tags, body_html: None },
                    ),
                    None => Err(AppError::MalformedContent(identifier)),
                }
            },
            _ => Err(AppError::MalformedContent(identifier)),
        }
    }

    /// The address of the project's page.
    pub fn url(&self) -> (address: String)
        ensures
            address@ == self@.url(),
    {
        String::from_str(PROJECTS_ROUTE).concat(self.identifier.as_str())
    }

    /// Whether this project stands before `other` in a listing.
    pub fn listed_before(&self, other: &Project) -> (before: bool)
        ensures
            before == self@.listed_before(other@),
    {
        if other.published_date.is_before(&self.published_date) {
            true
        } else if self.published_date.is_before(&other.published_date) {
            false
        } else {
            proof {
                crate::date::lemma_neither_before(self.published_date@, other.published_date@);
            }
            text_precedes(self.identifier.as_str(), other.identifier.as_str())
        }
    }
}

/// No project stands before itself.
pub proof fn lemma_listed_before_irreflexive(project: ProjectView)
    ensures
        !project.listed_before(project),
{
    lemma_text_before_irreflexive(project.identifier);
}

/// What stands before a project that stands before a third stands before the third.
pub proof fn lemma_listed_before_transitive(first: ProjectView, second: ProjectView, third: ProjectView)
    requires
        first.listed_before(second),
        second.listed_before(third),
    ensures
        first.listed_before(third),
{
    if first.published_date == second.published_date && second.published_date
        == third.published_date {
        lemma_text_before_transitive(first.identifier, second.identifier, third.identifier);
    }
}

/// Two projects of which neither stands before the other have the same day
/// of publication and the same identifier.
pub proof fn lemma_listed_before_total(left: ProjectView, right: ProjectView)
    requires
        !left.listed_before(right),
        !right.listed_before(left),
    ensures
        left.published_date == right.published_date,
        left.identifier == right.identifier,
{
    crate::date::lemma_neither_before(left.published_date, right.published_date);
    lemma_text_before_total(left.identifier, right.identifier);
}

} // verus!
