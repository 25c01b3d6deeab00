//! Content pipeline of a small portfolio site: content files with a metadata
//! block become a dated listing of projects and single project pages, and a
//! per-query state machine says what a page shows while an answer is pending.

pub mod date;
pub mod error;
pub mod listing;
pub mod matter;
pub mod order;
pub mod page;
pub mod project;
pub mod query;
pub mod source;

pub use error::AppError;
pub use listing::get_projects;
pub use page::get_project;
pub use project::Project;
