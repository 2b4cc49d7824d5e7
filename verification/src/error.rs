//! The ways in which collecting one repository can fail.

use vstd::prelude::*;

verus! {

/// One of the requests that are made for a repository.
#[derive(Clone, Copy, Debug, PartialEq, Eq, Structural)]
pub enum ApiCall {
    Repository,
    Contributors,
    License,
    FirstCommit,
    LatestCommit,
    LatestRelease,
    Participation,
}

/// Why no record was produced for a repository. None of these ends a run:
/// the repository is left out of the result and the others go on.
#[derive(Clone, Copy, Debug, PartialEq, Eq, Structural)]
pub enum FetchError {
    /// The URL does not name a repository of the platform.
    InvalidRepositoryUrl,
    /// No token was configured, so nothing can be requested.
    NoTokens,
    /// The request could not be sent, or its response could not be read.
    Transport,
    /// The platform answered the call with a status other than success.
    Status(ApiCall),
    /// The body of a response is not a JSON document.
    MalformedBody,
    /// The header with the number of commits is not printable text.
    UnreadableTotalCount,
    /// The header with the number of commits is not a number that fits.
    InvalidTotalCount,
    /// The time of the request lies outside the dates that can be written.
    TimeOutOfRange,
}

} // verus!
