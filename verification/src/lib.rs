//! Collection of repository metadata from the Gitee REST API, without the
//! network: which repositories to look up, which requests to send for each,
//! how each response is read, and how the records of one run are merged with
//! the records cached by an earlier one.
//!
//! A run goes like this. [`catalog::repository_urls`] picks the URLs to go
//! over. For each of them a [`run::RepositoryState`] decides whether a
//! record of the cache is used or the repository is fetched. A fetch is a
//! [`fetch::RepositoryFetch`]: it names one request after the other, takes
//! in what came back, and ends with a record or with a failure. The caller
//! sends the requests and reads the clock; nothing here waits or sends.
//! [`run::collect_outcomes`] makes the result of the run, a
//! [`collection::CollectionResult`], from the records of the repositories
//! that came through.
//!
//! Every function states what it returns, and the proof functions state
//! what holds of a run as a whole: that a failure of one repository takes
//! nothing from the others, that nothing is fetched without tokens, and that
//! a run on a warm cache changes nothing.

pub mod api;
pub mod catalog;
pub mod collection;
pub mod error;
pub mod fetch;
pub mod json;
pub mod participation;
pub mod record;
pub mod repo_url;
pub mod run;
pub mod text;
pub mod time;
