//! The ways in which a query for content fails.

use vstd::prelude::*;
use vstd::string::*;

verus! {

/// The status sent with a page whose project does not exist.
pub const STATUS_NOT_FOUND: u16 = 404;

/// The status sent with a page that failed for any other reason.
pub const STATUS_FAILURE: u16 = 500;

/// Why a query for content failed.
#[derive(Clone, Debug, PartialEq, Eq)]
pub enum AppError {
    /// The content directory could not be read.
    ContentUnavailable,
    /// The named content file does not hold what a project needs.
    MalformedContent(String),
    /// No content file belongs to the identifier asked for.
    NotFound,
}

/// An `AppError` with its text as a sequence of characters.
pub enum AppErrorView {
    ContentUnavailable,
    MalformedContent(Seq<char>),
    NotFound,
}

impl View for AppError {
    type V = AppErrorView;

    open spec fn view(&self) -> AppErrorView {
        match self {
            AppError::ContentUnavailable => AppErrorView::ContentUnavailable,
            AppError::MalformedContent(name) => AppErrorView::MalformedContent(name@),
            AppError::NotFound => AppErrorView::NotFound,
        }
    }
}

impl AppErrorView {
    /// The HTTP status that answers a request which failed in this way.
    pub open spec fn status(self) -> int {
        match self {
            AppErrorView::NotFound => STATUS_NOT_FOUND as int,
            _ => STATUS_FAILURE as int,
        }
    }

    /// The line shown to the reader.
    pub open spec fn message(self) -> Seq<char> {
        match self {
            AppErrorView::ContentUnavailable => "Content unavailable"@,
            AppErrorView::MalformedContent(name) => "Malformed content: "@ + name,
            AppErrorView::NotFound => "Not Found"@,
        }
    }
}

impl AppError {
    /// The HTTP status that answers a request which failed in this way: 404
    /// for a missing project, 500 otherwise.
    pub fn status_code(&self) -> (status: u16)
        ensures
            status == self@.status(),
            status == STATUS_NOT_FOUND <==> self@ is NotFound,
    {
        match self {
            AppError::NotFound => STATUS_NOT_FOUND,
            _ => STATUS_FAILURE,
        }
    }

    /// The line shown to the reader.
    pub fn message(&self) -> (line: String)
        ensures
            line@ == self@.message(),
    {
        match self {
            AppError::ContentUnavailable => String::from_str("Content unavailable"),
            AppError::MalformedContent(name) => String::from_str("Malformed content: ").concat(
                name.as_str(),
            ),
            AppError::NotFound => String::from_str("Not Found"),
        }
    }
}

/// The views of a run of errors, in their order.
pub open spec fn error_views(errors: Seq<AppError>) -> Seq<AppErrorView> {
    errors.map_values(|error: AppError| error@)
}

/// What an error page shows: a status for the response and one line for each error.
#[derive(Clone, Debug, PartialEq, Eq)]
pub struct ErrorReport {
    pub status: u16,
    pub lines: Vec<String>,
}

/// Builds the error page for a run of errors. The response carries the
/// status of the first error only; every error gets its line, in order.
pub fn error_report(errors: &Vec<AppError>) -> (report: ErrorReport)
    requires
        errors.len() > 0,
    ensures
        report.status == errors[0]@.status(),
        report.lines.len() == errors.len(),
        forall|i: int| 0 <= i < errors.len() ==> (#[trigger] report.lines[i])@ == errors[i]@.message(),
{
    let mut lines: Vec<String> = Vec::new();
    let mut at: usize = 0;
    while at < errors.len()
        invariant
            at <= errors.len(),
            lines.len() == at,
            forall|i: int| 0 <= i < at ==> (#[trigger] lines[i])@ == errors[i]@.message(),
        decreases errors.len() - at,
    {
        lines.push(errors[at].message());
        at = at + 1;
    }
    ErrorReport { status: errors[0].status_code(), lines }
}

} // verus!
