//! The requests that are made for one repository, one after the other, and
//! the record that their responses make.
//!
//! The steps follow each other in a fixed order. Each step but the last is
//! one request; the last is repeated, page after page, until a page comes
//! back without commits. A step that fails ends the fetch: what was read so
//! far is dropped, and the failure is what is left of it.

use vstd::prelude::*;
use crate::api::{
    commit_path, commit_url, contributors_count_from, listed_in_body, contributors_page,
    contributors_page_url, contributors_path, contributors_url, first_commit_from, first_commit_in,
    get_last_page, integer_or_zero, last_page_of, latest_commit_from, latest_release_from,
    latest_release_in, license_from, license_path, license_url, no_commit, oldest_page,
    participation_path, participation_url, release_path, release_url, repository_from,
    repository_path, repository_url, strings_of, text_or_empty,
};
use crate::error::{ApiCall, FetchError};
use crate::json::{json_document, read_document, Json};
use crate::participation::{count_commits, empty_weeks, with_commits};
use crate::record::{Commit, Contributors, RecordView, RepositoryRecord};
use crate::repo_url::{get_owner_and_repo, is_repo_url, names_repository};
use crate::time::{utc_display, window_start, write_utc, Timestamp, WEEKS, WINDOW_SECONDS};

verus! {

/// How a request asks: for a response with a body, or for its headers only.
#[derive(Clone, Copy, Debug, PartialEq, Eq, Structural)]
pub enum Method {
    Get,
    Head,
}

/// A request to the platform.
#[derive(Debug, PartialEq, Eq)]
pub struct Request {
    pub method: Method,
    pub url: String,
}

/// A request as plain values.
pub struct RequestView {
    pub method: Method,
    pub url: Seq<char>,
}

impl View for Request {
    type V = RequestView;

    open spec fn view(&self) -> RequestView {
        RequestView { method: self.method, url: self.url@ }
    }
}

/// What the platform answered.
#[derive(Debug, PartialEq, Eq)]
pub struct Response {
    /// Whether the status is one of success.
    pub success: bool,
    /// The header that counts the items of a list, where it was sent.
    pub total_count: Option<Vec<u8>>,
    /// The text of the body.
    pub body: String,
}

/// A response as plain values.
pub struct ResponseView {
    pub success: bool,
    pub total_count: Option<Seq<u8>>,
    pub body: Seq<char>,
}

impl View for Response {
    type V = ResponseView;

    open spec fn view(&self) -> ResponseView {
        ResponseView {
            success: self.success,
            total_count: match self.total_count {
                Some(value) => Some(value@),
                None => None,
            },
            body: self.body@,
        }
    }
}

/// What came of a request as plain values: a response, or none where the
/// request could not be sent or the response could not be read.
pub open spec fn reply_view(reply: Option<Response>) -> Option<ResponseView> {
    match reply {
        Some(response) => Some(response@),
        None => None,
    }
}

/// Where a fetch stands: the request that is made next, or how it ended.
#[derive(Clone, Copy, Debug, PartialEq, Eq, Structural)]
pub enum Step {
    Repository,
    Contributors,
    License,
    /// The headers of the first page of commits are asked for, to learn how
    /// many pages there are.
    FirstCommitProbe,
    FirstCommit,
    LatestCommit,
    LatestRelease,
    Participation,
    Done,
    Failed(FetchError),
}

/// The fetch of one repository.
#[derive(Debug, PartialEq, Eq)]
pub struct RepositoryFetch {
    pub owner: String,
    pub repo: String,
    pub step: Step,
    pub default_branch: String,
    /// The page of commits on which the oldest commit stands.
    pub last_page: usize,
    /// Since when commits are counted, and that time as the requests write it.
    pub begin: Timestamp,
    pub since: String,
    /// The page of commits that is counted next.
    pub page: u64,
    /// The record as far as it has been read.
    pub record: RepositoryRecord,
}

/// A fetch as plain values.
pub struct FetchView {
    pub owner: Seq<char>,
    pub repo: Seq<char>,
    pub step: Step,
    pub default_branch: Seq<char>,
    pub last_page: usize,
    pub begin: Timestamp,
    pub since: Seq<char>,
    pub page: u64,
    pub record: RecordView,
}

impl View for RepositoryFetch {
    type V = FetchView;

    open spec fn view(&self) -> FetchView {
        FetchView {
            owner: self.owner@,
            repo: self.repo@,
            step: self.step,
            default_branch: self.default_branch@,
            last_page: self.last_page,
            begin: self.begin,
            since: self.since@,
            page: self.page,
            record: self.record@,
        }
    }
}

/// A record of which nothing has been read yet.
pub open spec fn blank_record() -> RecordView {
    RecordView {
        contributors_count: 0,
        contributors_url: Seq::empty(),
        description: Seq::empty(),
        first_commit: None,
        generated_at: Timestamp { secs: 0, nanos: 0 },
        languages: None,
        latest_commit: no_commit(),
        latest_release: None,
        license: None,
        participation_stats: Seq::empty(),
        stars: 0,
        topics: Seq::empty(),
        url: Seq::empty(),
    }
}

/// The fetch of the repository `repo` of `owner` before its first request.
pub open spec fn started(owner: Seq<char>, repo: Seq<char>) -> FetchView {
    FetchView {
        owner,
        repo,
        step: Step::Repository,
        default_branch: Seq::empty(),
        last_page: 1,
        begin: Timestamp { secs: 0, nanos: 0 },
        since: Seq::empty(),
        page: 1,
        record: blank_record(),
    }
}

/// The request of a step, if it has one.
pub open spec fn request_of(state: FetchView) -> Option<RequestView> {
    match state.step {
        Step::Repository => Some(
            RequestView { method: Method::Get, url: repository_path(state.owner, state.repo) },
        ),
        Step::Contributors => Some(
            RequestView { method: Method::Get, url: contributors_path(state.owner, state.repo) },
        ),
        Step::License => Some(
            RequestView { method: Method::Get, url: license_path(state.owner, state.repo) },
        ),
        Step::FirstCommitProbe => Some(
            RequestView {
                method: Method::Head,
                url: commit_path(state.owner, state.repo, state.default_branch, 1),
            },
        ),
        Step::FirstCommit => Some(
            RequestView {
                method: Method::Get,
                url: commit_path(
                    state.owner,
                    state.repo,
                    state.default_branch,
                    state.last_page as nat,
                ),
            },
        ),
        Step::LatestCommit => Some(
            RequestView {
                method: Method::Get,
                url: commit_path(state.owner, state.repo, state.default_branch, 1),
            },
        ),
        Step::LatestRelease => Some(
            RequestView { method: Method::Get, url: release_path(state.owner, state.repo) },
        ),
        Step::Participation => Some(
            RequestView {
                method: Method::Get,
                url: participation_path(state.owner, state.repo, state.page as nat, state.since),
            },
        ),
        Step::Done => None,
        Step::Failed(_) => None,
    }
}

/// The document in the body of a response to `call`, which has to have
/// come, to be a success, and to hold JSON.
pub open spec fn body_of(reply: Option<ResponseView>, call: ApiCall) -> Result<Json, FetchError> {
    match reply {
        None => Err(FetchError::Transport),
        Some(response) => if !response.success {
            Err(FetchError::Status(call))
        } else {
            match json_document(response.body) {
                Some(body) => Ok(body),
                None => Err(FetchError::MalformedBody),
            }
        },
    }
}

/// The fetch after it has failed with `error`.
pub open spec fn failed(state: FetchView, error: FetchError) -> FetchView {
    FetchView { step: Step::Failed(error), ..state }
}

/// No commits in any of the 52 weeks.
pub open spec fn no_commits() -> Seq<i64> {
    Seq::new(WEEKS as nat, |i: int| 0i64)
}

/// The fetch after the description of the repository was read.
pub open spec fn after_repository(state: FetchView, body: Json) -> FetchView {
    FetchView {
        step: Step::Contributors,
        default_branch: text_or_empty(body.member("default_branch"@)),
        record: RecordView {
            description: text_or_empty(body.member("description"@)),
            stars: integer_or_zero(body.member("stargazers_count"@)),
            topics: strings_of(body.member("topics"@)),
            url: text_or_empty(body.member("html_url"@)),
            ..state.record
        },
        ..state
    }
}

/// The fetch after the contributors were counted.
pub open spec fn after_contributors(state: FetchView, body: Json) -> FetchView {
    FetchView {
        step: Step::License,
        record: RecordView {
            contributors_count: listed_in_body(body) as usize,
            contributors_url: contributors_page(state.owner, state.repo),
            ..state.record
        },
        ..state
    }
}

/// The fetch after the license was read.
pub open spec fn after_license(state: FetchView, body: Json) -> FetchView {
    FetchView {
        step: Step::FirstCommitProbe,
        record: RecordView {
            license: Some(text_or_empty(body.member("license"@))),
            ..state.record
        },
        ..state
    }
}

/// The fetch after the headers of the first page of commits have come: the
/// oldest commit is looked for on the last page.
pub open spec fn after_probe(state: FetchView, reply: Option<ResponseView>) -> FetchView {
    match reply {
        None => failed(state, FetchError::Transport),
        Some(response) => match last_page_of(response.total_count) {
            Ok(last_page) => FetchView {
                step: Step::FirstCommit,
                last_page: oldest_page(last_page),
                ..state
            },
            Err(error) => failed(state, error),
        },
    }
}

/// The fetch after the oldest commit was read. No request is made for the
/// languages of the repository, and none are recorded.
pub open spec fn after_first_commit(state: FetchView, body: Json) -> FetchView {
    FetchView {
        step: Step::LatestCommit,
        record: RecordView { first_commit: first_commit_in(body), languages: None, ..state.record },
        ..state
    }
}

/// The fetch after the newest commit was read.
pub open spec fn after_latest_commit(state: FetchView, body: Json) -> FetchView {
    FetchView {
        step: Step::LatestRelease,
        record: RecordView {
            latest_commit: match first_commit_in(body) {
                Some(commit) => commit,
                None => no_commit(),
            },
            ..state.record
        },
        ..state
    }
}

/// The fetch after the latest release was read at `now`: commits are
/// counted from 365 days before `now`, if that time can be written.
pub open spec fn after_latest_release(state: FetchView, body: Json, now: Timestamp) -> FetchView {
    let read = FetchView {
        record: RecordView { latest_release: latest_release_in(body), ..state.record },
        ..state
    };
    if now.secs - WINDOW_SECONDS < i64::MIN {
        failed(read, FetchError::TimeOutOfRange)
    } else {
        let begin = window_start(now);
        match utc_display(begin.secs, begin.nanos) {
            Some(since) => FetchView {
                step: Step::Participation,
                begin,
                since,
                page: 1,
                record: RecordView { participation_stats: no_commits(), ..read.record },
                ..read
            },
            None => failed(read, FetchError::TimeOutOfRange),
        }
    }
}

/// The fetch after a page of commits was read at `now`. A page without
/// commits ends the fetch, and the record is of the time `now`; so does the
/// last page that can be numbered. Any other page is counted and followed
/// by the next.
pub open spec fn after_page(state: FetchView, body: Json, now: Timestamp) -> FetchView {
    if listed_in_body(body) == 0 {
        FetchView {
            step: Step::Done,
            record: RecordView { generated_at: now, ..state.record },
            ..state
        }
    } else {
        let counted = RecordView {
            participation_stats: with_commits(
                state.record.participation_stats,
                state.begin,
                body.items()->0,
            ),
            ..state.record
        };
        if state.page < u64::MAX {
            FetchView { page: (state.page + 1) as u64, record: counted, ..state }
        } else {
            FetchView {
                step: Step::Done,
                record: RecordView { generated_at: now, ..counted },
                ..state
            }
        }
    }
}

/// The fetch after what came of the request of its step, at the time `now`.
pub open spec fn advanced(state: FetchView, reply: Option<ResponseView>, now: Timestamp) -> FetchView {
    match state.step {
        Step::Repository => match body_of(reply, ApiCall::Repository) {
            Ok(body) => after_repository(state, body),
            Err(error) => failed(state, error),
        },
        Step::Contributors => match body_of(reply, ApiCall::Contributors) {
            Ok(body) => after_contributors(state, body),
            Err(error) => failed(state, error),
        },
        Step::License => match body_of(reply, ApiCall::License) {
            Ok(body) => after_license(state, body),
            Err(error) => failed(state, error),
        },
        Step::FirstCommitProbe => after_probe(state, reply),
        Step::FirstCommit => match body_of(reply, ApiCall::FirstCommit) {
            Ok(body) => after_first_commit(state, body),
            Err(error) => failed(state, error),
        },
        Step::LatestCommit => match body_of(reply, ApiCall::LatestCommit) {
            Ok(body) => after_latest_commit(state, body),
            Err(error) => failed(state, error),
        },
        Step::LatestRelease => match body_of(reply, ApiCall::LatestRelease) {
            Ok(body) => after_latest_release(state, body, now),
            Err(error) => failed(state, error),
        },
        Step::Participation => match body_of(reply, ApiCall::Participation) {
            Ok(body) => after_page(state, body, now),
            Err(error) => failed(state, error),
        },
        Step::Done => state,
        Step::Failed(_) => state,
    }
}

/// How a fetch has ended, if it has.
pub open spec fn ended(state: FetchView) -> Option<Result<RecordView, FetchError>> {
    match state.step {
        Step::Done => Some(Ok(state.record)),
        Step::Failed(error) => Some(Err(error)),
        _ => None,
    }
}

/// A fetch that has ended stays as it is, whatever comes after: the first
/// failure is the only one, and nothing is added to a record that is done.
pub proof fn lemma_ended_stays(state: FetchView, reply: Option<ResponseView>, now: Timestamp)
    requires
        ended(state) is Some,
    ensures
        advanced(state, reply, now) == state,
        request_of(state).is_none(),
{
}

/// The call whose body a step reads, if it reads one.
pub open spec fn call_of(step: Step) -> Option<ApiCall> {
    match step {
        Step::Repository => Some(ApiCall::Repository),
        Step::Contributors => Some(ApiCall::Contributors),
        Step::License => Some(ApiCall::License),
        Step::FirstCommitProbe => None,
        Step::FirstCommit => Some(ApiCall::FirstCommit),
        Step::LatestCommit => Some(ApiCall::LatestCommit),
        Step::LatestRelease => Some(ApiCall::LatestRelease),
        Step::Participation => Some(ApiCall::Participation),
        Step::Done => None,
        Step::Failed(_) => None,
    }
}

/// A call that fails ends the fetch with its failure: a response that did
/// not come, that came without success, or whose body is no JSON.
pub proof fn lemma_failure_ends(
    state: FetchView,
    reply: Option<ResponseView>,
    now: Timestamp,
    call: ApiCall,
)
    requires
        body_of(reply, call) is Err,
        call_of(state.step) == Some(call),
    ensures
        ended(advanced(state, reply, now)) == Some(
            Err::<RecordView, FetchError>(body_of(reply, call)->Err_0),
        ),
{
}

/// Reads the body of a response to `call`.
pub fn read_body(reply: &Option<Response>, call: ApiCall) -> (body: Result<Json, FetchError>)
    ensures
        body == body_of(reply_view(*reply), call),
{
    match reply {
        None => Err(FetchError::Transport),
        Some(response) => {
            if !response.success {
                Err(FetchError::Status(call))
            } else {
                match read_document(response.body.as_str()) {
                    Some(body) => Ok(body),
                    None => Err(FetchError::MalformedBody),
                }
            }
        },
    }
}

impl RepositoryFetch {
    /// The weeks of commits are 52 from the step that counts them on.
    pub open spec fn counts_weeks(self) -> bool {
        (self.step == Step::Participation || self.step == Step::Done)
            ==> self.record.participation_stats@.len() == WEEKS
    }

    /// Begins the fetch of the repository at `repo_url`, which has to name a
    /// repository of the platform.
    pub fn start(repo_url: &str) -> (fetch: Result<RepositoryFetch, FetchError>)
        ensures
            match fetch {
                Ok(state) => exists|owner: Seq<char>, repo: Seq<char>|
                    names_repository(repo_url@, owner, repo) && state@ == started(owner, repo),
                Err(error) => error == FetchError::InvalidRepositoryUrl && !is_repo_url(repo_url@),
            },
            fetch matches Ok(state) ==> state.counts_weeks(),
    {
        match get_owner_and_repo(repo_url) {
            Ok((owner, repo)) => {
                let state = RepositoryFetch {
                    owner,
                    repo,
                    step: Step::Repository,
                    default_branch: String::new(),
                    last_page: 1,
                    begin: Timestamp { secs: 0, nanos: 0 },
                    since: String::new(),
                    page: 1,
                    record: RepositoryRecord {
                        contributors: Contributors { count: 0, url: String::new() },
                        description: String::new(),
                        first_commit: None,
                        generated_at: Timestamp { secs: 0, nanos: 0 },
                        languages: None,
                        latest_commit: Commit { url: String::new(), ts: None },
                        latest_release: None,
                        license: None,
                        participation_stats: Vec::new(),
                        stars: 0,
                        topics: Vec::new(),
                        url: String::new(),
                    },
                };
                proof {
                    assert(crate::text::texts(state.record.topics@) =~= Seq::<Seq<char>>::empty());
                    assert(state@ == started(state.owner@, state.repo@));
                }
                Ok(state)
            },
            Err(error) => Err(error),
        }
    }

    /// The request that is to be made next; none once the fetch has ended.
    pub fn request(&self) -> (request: Option<Request>)
        ensures
            match request {
                Some(r) => request_of(self@) == Some(r@),
                None => request_of(self@).is_none(),
            },
    {
        let owner = self.owner.as_str();
        let repo = self.repo.as_str();
        let branch = self.default_branch.as_str();
        match self.step {
            Step::Repository => Some(
                Request { method: Method::Get, url: repository_url(owner, repo) },
            ),
            Step::Contributors => Some(
                Request { method: Method::Get, url: contributors_url(owner, repo) },
            ),
            Step::License => Some(Request { method: Method::Get, url: license_url(owner, repo) }),
            Step::FirstCommitProbe => Some(
                Request { method: Method::Head, url: commit_url(owner, repo, branch, 1) },
            ),
            Step::FirstCommit => Some(
                Request { method: Method::Get, url: commit_url(owner, repo, branch, self.last_page) },
            ),
            Step::LatestCommit => Some(
                Request { method: Method::Get, url: commit_url(owner, repo, branch, 1) },
            ),
            Step::LatestRelease => Some(
                Request { method: Method::Get, url: release_url(owner, repo) },
            ),
            Step::Participation => Some(
                Request {
                    method: Method::Get,
                    url: participation_url(owner, repo, self.page, self.since.as_str()),
                },
            ),
            Step::Done => None,
            Step::Failed(_) => None,
        }
    }

    /// Takes in what came of the request of the step, at the time `now`,
    /// and goes on to the next step, or ends. A fetch that has ended stays
    /// as it is.
    pub fn advance(self, reply: Option<Response>, now: Timestamp) -> (next: RepositoryFetch)
        ensures
            next@ == advanced(self@, reply_view(reply), now),
            self.counts_weeks() ==> next.counts_weeks(),
    {
        let mut state = self;
        match state.step {
            Step::Repository => match read_body(&reply, ApiCall::Repository) {
                Ok(body) => {
                    let repository = repository_from(&body);
                    state.step = Step::Contributors;
                    state.default_branch = repository.default_branch;
                    state.record.description = repository.description;
                    state.record.stars = repository.stargazers_count;
                    state.record.topics = repository.topics;
                    state.record.url = repository.html_url;
                },
                Err(error) => {
                    state.step = Step::Failed(error);
                },
            },
            Step::Contributors => match read_body(&reply, ApiCall::Contributors) {
                Ok(body) => {
                    state.step = Step::License;
                    state.record.contributors = Contributors {
                        count: contributors_count_from(&body),
                        url: contributors_page_url(state.owner.as_str(), state.repo.as_str()),
                    };
                },
                Err(error) => {
                    state.step = Step::Failed(error);
                },
            },
            Step::License => match read_body(&reply, ApiCall::License) {
                Ok(body) => {
                    state.step = Step::FirstCommitProbe;
                    state.record.license = Some(license_from(&body));
                },
                Err(error) => {
                    state.step = Step::Failed(error);
                },
            },
            Step::FirstCommitProbe => match &reply {
                None => {
                    state.step = Step::Failed(FetchError::Transport);
                },
                Some(response) => {
                    let counted = match &response.total_count {
                        Some(value) => get_last_page(Some(value.as_slice())),
                        None => get_last_page(None),
                    };
                    match counted {
                        Ok(last_page) => {
                            state.step = Step::FirstCommit;
                            state.last_page = match last_page {
                                Some(page) => page,
                                None => 1,
                            };
                        },
                        Err(error) => {
                            state.step = Step::Failed(error);
                        },
                    }
                },
            },
            Step::FirstCommit => match read_body(&reply, ApiCall::FirstCommit) {
                Ok(body) => {
                    state.step = Step::LatestCommit;
                    state.record.first_commit = first_commit_from(&body);
                    state.record.languages = None;
                },
                Err(error) => {
                    state.step = Step::Failed(error);
                },
            },
            Step::LatestCommit => match read_body(&reply, ApiCall::LatestCommit) {
                Ok(body) => {
                    state.step = Step::LatestRelease;
                    state.record.latest_commit = latest_commit_from(&body);
                },
                Err(error) => {
                    state.step = Step::Failed(error);
                },
            },
            Step::LatestRelease => match read_body(&reply, ApiCall::LatestRelease) {
                Ok(body) => {
                    state.record.latest_release = latest_release_from(&body);
                    let since = match crate::time::window_begin(now) {
                        Some(begin) => match write_utc(begin) {
                            Some(text) => Some((begin, text)),
                            None => None,
                        },
                        None => None,
                    };
                    match since {
                        Some((begin, text)) => {
                            state.step = Step::Participation;
                            state.begin = begin;
                            state.since = text;
                            state.page = 1;
                            state.record.participation_stats = empty_weeks();
                        },
                        None => {
                            state.step = Step::Failed(FetchError::TimeOutOfRange);
                        },
                    }
                },
                Err(error) => {
                    state.step = Step::Failed(error);
                },
            },
            Step::Participation => match read_body(&reply, ApiCall::Participation) {
                Ok(body) => {
                    let mut more = false;
                    if let Some(commits) = body.as_array() {
                        if commits.len() > 0 {
                            count_commits(&mut state.record.participation_stats, state.begin, commits);
                            more = state.page < u64::MAX;
                        }
                    }
                    if more {
                        state.page = state.page + 1;
                    } else {
                        state.step = Step::Done;
                        state.record.generated_at = now;
                    }
                },
                Err(error) => {
                    state.step = Step::Failed(error);
                },
            },
            Step::Done => {},
            Step::Failed(_) => {},
        }
        state
    }

    /// How the fetch has ended: with the record, or with the failure of one
    /// of its steps; none while it has not ended.
    pub fn finish(self) -> (result: Option<Result<RepositoryRecord, FetchError>>)
        ensures
            ended(self@) == match result {
                Some(r) => Some(crate::run::fetched_view(r)),
                None => None,
            },
            self.counts_weeks() ==> (result matches Some(Ok(record))
                ==> record.participation_stats@.len() == WEEKS),
    {
        match self.step {
            Step::Done => Some(Ok(self.record)),
            Step::Failed(error) => Some(Err(error)),
            _ => None,
        }
    }
}

} // verus!
