//! The page of one project: its title and its body as HTML.

use vstd::prelude::*;
use crate::error::{AppError, AppErrorView};
use crate::listing::ContentFileView;
use crate::matter::{document_of, Document, DocumentView};
use crate::source::{
    file_name_for,
    is_plain,
    is_plain_identifier,
    lemma_identifier_gives_file_name,
    lemma_plain_identifier_stays_in_directory,
};

verus! {

/// The HTML that the markdown crate makes of a text, with its default options.
pub uninterp spec fn markdown_html(text: Seq<char>) -> Seq<char>;

/// Calls `markdown::to_html`. Trusted: that the HTML depends on the text
/// alone, which `markdown_html` names. Nothing is claimed about the HTML.
#[verifier::external_body]
fn render_markdown(text: &str) -> (html: String)
    ensures
        html@ == markdown_html(text@),
{
    markdown::to_html(text)
}

impl DocumentView {
    /// The page that the document gives under `identifier`: its title and its
    /// body as HTML. Only the title is asked of the metadata block; without
    /// one the content is malformed.
    pub open spec fn page(self, identifier: Seq<char>) -> Result<
        (Seq<char>, Seq<char>),
        AppErrorView,
    > {
        match self.matter.title {
            Some(title) => Ok((title, markdown_html(self.body))),
            None => Err(AppErrorView::MalformedContent(identifier)),
        }
    }
}

/// The page of the project `identifier`, given what reading its content file
/// gave: `None` where the file could not be opened. An identifier that is
/// not plain has no file, so no page. A file that could not be read is not
/// found, whatever the reason. A block that cannot be read is malformed
/// content.
pub open spec fn page_of(identifier: Seq<char>, text: Option<Seq<char>>) -> Result<
    (Seq<char>, Seq<char>),
    AppErrorView,
> {
    if !is_plain_identifier(identifier) {
        Err(AppErrorView::NotFound)
    } else {
        match text {
            None => Err(AppErrorView::NotFound),
            Some(text) => match document_of(text) {
                None => Err(AppErrorView::MalformedContent(identifier)),
                Some(document) => document.page(identifier),
            },
        }
    }
}

/// A page in sequences of characters.
pub open spec fn page_view(page: (String, String)) -> (Seq<char>, Seq<char>) {
    (page.0@, page.1@)
}

impl Document {
    /// Makes the page of the project `identifier` of its document.
    pub fn into_page(self, identifier: &str) -> (page: Result<(String, String), AppError>)
        ensures
            page is Ok <==> self@.matter.title is Some,
            page matches Ok(found) ==> self@.page(identifier@) == Ok::<
                (Seq<char>, Seq<char>),
                AppErrorView,
            >(page_view(found)),
            page matches Err(error) ==> error@ == AppErrorView::MalformedContent(identifier@),
    {
        let Document { matter, body } = self;
        match matter.title {
            Some(title) => Ok((title, render_markdown(body.as_str()))),
            None => Err(AppError::MalformedContent(identifier.to_owned())),
        }
    }
}

/// Fetches the page of one project. `text` is what reading the content file
/// of `identifier` gave, or `None` where the file could not be opened.
pub fn get_project(identifier: &str, text: Option<&str>) -> (page: Result<
    (String, String),
    AppError,
>)
    ensures
        page is Ok <==> page_of(identifier@, optional_str(text)) is Ok,
        page matches Ok(found) ==> page_of(identifier@, optional_str(text)) == Ok::<
            (Seq<char>, Seq<char>),
            AppErrorView,
        >(page_view(found)),
        page matches Err(error) ==> page_of(identifier@, optional_str(text)) == Err::<
            (Seq<char>, Seq<char>),
            AppErrorView,
        >(error@),
        text is None ==> (page matches Err(error) && error@ is NotFound),
        page matches Ok(found) ==> (document_of(text->0@) matches Some(document)
            && document.matter.title == Some(found.0@) && found.1@ == markdown_html(
            document.body,
        )),
{
    if !is_plain(identifier) {
        return Err(AppError::NotFound);
    }
    match text {
        None => Err(AppError::NotFound),
        Some(text) => match Document::parse(text) {
            None => Err(AppError::MalformedContent(identifier.to_owned())),
            Some(document) => document.into_page(identifier),
        },
    }
}

/// The characters of a text that may be missing.
pub open spec fn optional_str(text: Option<&str>) -> Option<Seq<char>> {
    match text {
        Some(chars) => Some(chars@),
        None => None,
    }
}

/// A project that is listed has a page: the file that gives the project
/// gives, under the project's identifier, a page with the project's title.
/// The file is the one under which the identifier is looked up. Asked of the
/// file is only what every file of a directory has: a name without a step
/// of a path in it.
pub proof fn lemma_listed_project_has_page(file: ContentFileView)
    requires
        file.project() is Ok,
        is_plain_identifier(file.file_name),
    ensures
        is_plain_identifier(file.project()->Ok_0.identifier),
        file_name_for(file.project()->Ok_0.identifier) == file.file_name,
        page_of(file.project()->Ok_0.identifier, file.text) matches Ok(page) && page.0
            == file.project()->Ok_0.title,
{
    lemma_identifier_gives_file_name(file.file_name);
    lemma_plain_identifier_stays_in_directory(file.project()->Ok_0.identifier);
}

} // verus!
