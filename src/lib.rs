//! Retrieval of pull-request records from a paginated REST endpoint, with
//! date-window and author filtering and Markdown rendering.
//!
//! The network itself stays with the caller: the paginated iterator here is a
//! state machine that says which request to make and consumes the reply.

pub mod date;
pub mod link;
pub mod paging;
pub mod iteration;
pub mod pulls;
pub mod report;
pub mod repo_set;

pub use date::{parse_date, parse_date_in_year, Date};
pub use link::{next_link, next_link_in, LinkEntry};
pub use paging::{Advance, FetchError, PaginatedIter, Reply, Request, Step};
pub use pulls::{InputError, Predicate, Pull, Repo, Timestamp, User};
pub use repo_set::RepoSet;
pub use report::{
    org_repos_url, pulls_url, repo_names, repos_for_owner, user_repos_url, OwnerRepos, RepoReport,
};
