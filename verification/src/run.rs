//! The course of one run: what becomes of each repository, and how the
//! records of those that came through make the result.
//!
//! A repository starts out undecided. A record of the cache that is still
//! fresh settles it at once. Otherwise it is fetched, if there is a token to
//! fetch with, and the fetch settles it; without a token it has failed. No
//! repository is fetched twice, and one that has failed is left out of the
//! result, whatever an earlier run had cached for it.

use vstd::prelude::*;
use crate::collection::CollectionResult;
use crate::error::FetchError;
use crate::record::{RecordView, RepositoryRecord};
use crate::text::{split, texts};
use crate::repo_url::is_repo_url;
use crate::time::{days, fresh, is_fresh, lemma_fresh_window, Timestamp, CACHE_TTL_DAYS};

verus! {

/// The name under which the records of a run are cached.
pub const GITEE_CACHE_FILE: &'static str = "gitee.json";

/// The name of the configured value that lists the tokens.
pub const GITEE_TOKENS: &'static str = "GITEE_TOKENS";

/// The tokens of a configured value, which lists them with commas between:
/// none where the value is missing or empty.
pub open spec fn configured(value: Option<Seq<char>>, tokens: Option<Seq<Seq<char>>>) -> bool {
    match value {
        Some(text) if text.len() > 0 => tokens matches Some(list) && list.len() >= 1
            && crate::text::joined(list, ',') == text && forall|i: int|
            0 <= i < list.len() ==> crate::text::free_of(#[trigger] list[i], ','),
        _ => tokens.is_none(),
    }
}

/// The tokens that a configured value lists, one client being made for each.
pub fn parse_tokens(value: Option<&str>) -> (tokens: Option<Vec<String>>)
    ensures
        configured(
            match value {
                Some(text) => Some(text@),
                None => None,
            },
            match tokens {
                Some(list) => Some(texts(list@)),
                None => None,
            },
        ),
{
    match value {
        Some(text) => {
            if text.unicode_len() == 0 {
                None
            } else {
                let list = split(text, ',');
                assert forall|i: int| 0 <= i < texts(list@).len() implies crate::text::free_of(
                    #[trigger] texts(list@)[i],
                    ',',
                ) by {}
                Some(list)
            }
        },
        None => None,
    }
}

/// How many repositories are fetched at a time: one for each token, and one
/// at a time where there are no tokens and nothing is fetched at all.
pub fn concurrency(tokens: &Option<Vec<String>>) -> (limit: usize)
    ensures
        limit == match tokens {
            Some(list) => list.len(),
            None => 1,
        },
{
    match tokens {
        Some(list) => list.len(),
        None => 1,
    }
}

/// The header value that authorizes a request with `token`.
pub fn authorization(token: &str) -> (value: String)
    ensures
        value@ == "Bearer "@ + token@,
{
    let mut value = "Bearer ".to_owned();
    value.append(token);
    value
}

/// Where a repository stands in a run.
#[derive(Debug, PartialEq, Eq)]
pub enum RepositoryState {
    /// Nothing has been decided yet.
    Start,
    /// The repository is being fetched.
    Fetching,
    /// A fresh record of the cache is used.
    DoneCached(RepositoryRecord),
    /// The repository was fetched.
    DoneFetched(RepositoryRecord),
    /// There is no record of the repository in this run.
    Failed(FetchError),
}

/// A state as plain values.
pub enum StateView {
    Start,
    Fetching,
    DoneCached(RecordView),
    DoneFetched(RecordView),
    Failed(FetchError),
}

impl View for RepositoryState {
    type V = StateView;

    open spec fn view(&self) -> StateView {
        match self {
            RepositoryState::Start => StateView::Start,
            RepositoryState::Fetching => StateView::Fetching,
            RepositoryState::DoneCached(record) => StateView::DoneCached(record@),
            RepositoryState::DoneFetched(record) => StateView::DoneFetched(record@),
            RepositoryState::Failed(error) => StateView::Failed(*error),
        }
    }
}

/// The cache as a map, if there is one.
pub open spec fn cache_view(cache: Option<CollectionResult>) -> Option<Map<Seq<char>, RecordView>> {
    match cache {
        Some(records) => Some(records@),
        None => None,
    }
}

/// The result of a fetch as plain values.
pub open spec fn fetched_view(fetched: Result<RepositoryRecord, FetchError>) -> Result<
    RecordView,
    FetchError,
> {
    match fetched {
        Ok(record) => Ok(record@),
        Err(error) => Err(error),
    }
}

/// The record that the cache holds for `url`, if it holds one that is still
/// fresh at `now`.
pub open spec fn reusable(
    cache: Option<Map<Seq<char>, RecordView>>,
    url: Seq<char>,
    now: Timestamp,
) -> Option<RecordView> {
    match cache {
        Some(records) => if records.contains_key(url) && is_fresh(records[url].generated_at, now) {
            Some(records[url])
        } else {
            None
        },
        None => None,
    }
}

/// The state that follows `Start`.
pub open spec fn begun(
    cache: Option<Map<Seq<char>, RecordView>>,
    url: Seq<char>,
    have_tokens: bool,
    now: Timestamp,
) -> StateView {
    match reusable(cache, url, now) {
        Some(record) => StateView::DoneCached(record),
        None => if have_tokens {
            StateView::Fetching
        } else {
            StateView::Failed(FetchError::NoTokens)
        },
    }
}

/// The state that follows `state` when the repository is begun: the state
/// that follows `Start`, and any other state as it is.
pub open spec fn after_begin(
    state: StateView,
    cache: Option<Map<Seq<char>, RecordView>>,
    url: Seq<char>,
    have_tokens: bool,
    now: Timestamp,
) -> StateView {
    match state {
        StateView::Start => begun(cache, url, have_tokens, now),
        other => other,
    }
}

/// The state that follows `state` when a fetch has ended with `fetched`.
pub open spec fn after_fetch(state: StateView, fetched: Result<RecordView, FetchError>) -> StateView {
    match state {
        StateView::Fetching => match fetched {
            Ok(record) => StateView::DoneFetched(record),
            Err(error) => StateView::Failed(error),
        },
        other => other,
    }
}

/// What a state gives to the result: a record, a failure, or nothing yet.
pub open spec fn settled(state: StateView) -> Option<Result<RecordView, FetchError>> {
    match state {
        StateView::DoneCached(record) => Some(Ok(record)),
        StateView::DoneFetched(record) => Some(Ok(record)),
        StateView::Failed(error) => Some(Err(error)),
        _ => None,
    }
}

impl RepositoryState {
    /// Decides at `now` what is done for the repository at `url`: a fresh
    /// record of the cache is used as it is; else the repository is fetched
    /// if there are tokens, and has failed if there are none. A state other
    /// than `Start` stays as it is.
    pub fn begin(
        self,
        url: &str,
        cache: &Option<CollectionResult>,
        have_tokens: bool,
        now: Timestamp,
    ) -> (next: RepositoryState)
        ensures
            next@ == after_begin(self@, cache_view(*cache), url@, have_tokens, now),
    {
        match self {
            RepositoryState::Start => {
                if let Some(records) = cache {
                    if let Some(record) = records.get(url) {
                        if fresh(record.generated_at, now) {
                            return RepositoryState::DoneCached(record.duplicate());
                        }
                    }
                }
                if have_tokens {
                    RepositoryState::Fetching
                } else {
                    RepositoryState::Failed(FetchError::NoTokens)
                }
            },
            other => other,
        }
    }

    /// Takes in the end of the fetch. A state other than `Fetching` stays as
    /// it is: nothing is fetched twice.
    pub fn fetched(self, result: Result<RepositoryRecord, FetchError>) -> (next: RepositoryState)
        ensures
            next@ == after_fetch(self@, fetched_view(result)),
    {
        match self {
            RepositoryState::Fetching => match result {
                Ok(record) => RepositoryState::DoneFetched(record),
                Err(error) => RepositoryState::Failed(error),
            },
            other => other,
        }
    }

    /// The record or the failure in which the repository has ended.
    pub fn into_result(self) -> (result: Option<Result<RepositoryRecord, FetchError>>)
        ensures
            settled(self@) == match result {
                Some(r) => Some(fetched_view(r)),
                None => None,
            },
    {
        match self {
            RepositoryState::DoneCached(record) => Some(Ok(record)),
            RepositoryState::DoneFetched(record) => Some(Ok(record)),
            RepositoryState::Failed(error) => Some(Err(error)),
            _ => None,
        }
    }
}

/// A record of the cache that was made at `now` is used as it is. One that
/// was made a day more than the time to live before `now` is not used: the
/// repository is fetched anew, or has failed where there are no tokens.
pub proof fn lemma_cache_freshness(
    cache: Map<Seq<char>, RecordView>,
    url: Seq<char>,
    have_tokens: bool,
    now: Timestamp,
)
    requires
        cache.contains_key(url),
    ensures
        cache[url].generated_at == now ==> begun(Some(cache), url, have_tokens, now)
            == StateView::DoneCached(cache[url]),
        cache[url].generated_at.instant() == now.instant() - days(CACHE_TTL_DAYS + 1) ==> begun(
            Some(cache),
            url,
            have_tokens,
            now,
        ) == if have_tokens {
            StateView::Fetching
        } else {
            StateView::Failed(FetchError::NoTokens)
        },
{
    lemma_fresh_window(cache[url].generated_at, now);
}

/// No state leads to `Fetching` but `Start`, and the end of a fetch never
/// leaves a repository in `Fetching`: there is no second attempt. A
/// repository that is settled stays as it is.
pub proof fn lemma_no_retry(
    state: StateView,
    cache: Option<Map<Seq<char>, RecordView>>,
    url: Seq<char>,
    have_tokens: bool,
    now: Timestamp,
    fetched: Result<RecordView, FetchError>,
)
    ensures
        !(state is Fetching) && after_begin(state, cache, url, have_tokens, now) is Fetching
            ==> state is Start,
        !(after_fetch(state, fetched) is Fetching),
        !(state is Fetching) ==> after_fetch(state, fetched) == state,
        settled(state) is Some ==> after_begin(state, cache, url, have_tokens, now) == state
            && after_fetch(state, fetched) == state,
{
}

/// How a repository has ended in a run.
#[derive(Debug, PartialEq, Eq)]
pub struct Outcome {
    pub url: String,
    pub result: Result<RepositoryRecord, FetchError>,
}

/// An outcome as plain values.
pub struct OutcomeView {
    pub url: Seq<char>,
    pub result: Result<RecordView, FetchError>,
}

impl View for Outcome {
    type V = OutcomeView;

    open spec fn view(&self) -> OutcomeView {
        OutcomeView { url: self.url@, result: fetched_view(self.result) }
    }
}

/// The outcomes of a list as plain values.
pub open spec fn outcome_views(outcomes: Seq<Outcome>) -> Seq<OutcomeView> {
    outcomes.map_values(|o: Outcome| o@)
}

/// The result that the outcomes make, taken in their order: a record is
/// kept under its URL, and a failure leaves no record under its URL.
pub open spec fn merged(outcomes: Seq<OutcomeView>) -> Map<Seq<char>, RecordView>
    decreases outcomes.len(),
{
    if outcomes.len() == 0 {
        Map::empty()
    } else {
        let earlier = merged(outcomes.drop_last());
        match outcomes.last().result {
            Ok(record) => earlier.insert(outcomes.last().url, record),
            Err(_) => earlier.remove(outcomes.last().url),
        }
    }
}

/// Makes the result of a run from the outcomes of its repositories, in
/// whatever order they have ended: the records of those that came through.
pub fn collect_outcomes(outcomes: Vec<Outcome>) -> (result: CollectionResult)
    ensures
        result@ == merged(outcome_views(outcomes@)),
{
    let mut result = CollectionResult::new();
    let ghost all = outcome_views(outcomes@);
    for outcome in it: outcomes
        invariant
            all == outcome_views(it.seq()),
            result@ == merged(all.take(it.index() as int)),
    {
        proof {
            let n = it.index() as int;
            assert(all.take(n + 1).drop_last() =~= all.take(n));
        }
        match outcome.result {
            Ok(record) => {
                result.insert(outcome.url, record);
            },
            Err(_) => {
                result.remove(outcome.url.as_str());
            },
        }
    }
    proof {
        assert(all.take(all.len() as int) =~= all);
    }
    result
}

/// No two of the outcomes are of one URL.
pub open spec fn distinct_urls(outcomes: Seq<OutcomeView>) -> bool {
    forall|i: int, j: int|
        0 <= i < j < outcomes.len() ==> (#[trigger] outcomes[i]).url != (#[trigger] outcomes[j]).url
}

/// Where each repository has ended once, the result holds the record of
/// every repository that came through and nothing for one that failed, and
/// it holds nothing else. A failure of one repository takes nothing from the
/// others.
pub proof fn lemma_failures_dropped(outcomes: Seq<OutcomeView>)
    requires
        distinct_urls(outcomes),
    ensures
        forall|i: int|
            0 <= i < outcomes.len() ==> match (#[trigger] outcomes[i]).result {
                Ok(record) => merged(outcomes).contains_key(outcomes[i].url) && merged(
                    outcomes,
                )[outcomes[i].url] == record,
                Err(_) => !merged(outcomes).contains_key(outcomes[i].url),
            },
        forall|url: Seq<char>| #[trigger]
            merged(outcomes).contains_key(url) ==> exists|i: int|
                0 <= i < outcomes.len() && (#[trigger] outcomes[i]).url == url
                    && outcomes[i].result is Ok,
    decreases outcomes.len(),
{
    if outcomes.len() > 0 {
        let earlier = outcomes.drop_last();
        let last = outcomes.len() - 1;
        assert(distinct_urls(earlier));
        lemma_failures_dropped(earlier);
        assert forall|i: int| 0 <= i < outcomes.len() implies match (#[trigger] outcomes[i]).result {
            Ok(record) => merged(outcomes).contains_key(outcomes[i].url) && merged(
                outcomes,
            )[outcomes[i].url] == record,
            Err(_) => !merged(outcomes).contains_key(outcomes[i].url),
        } by {
            if i < last {
                assert(earlier[i] == outcomes[i]);
            }
        }
        assert forall|url: Seq<char>| #[trigger] merged(outcomes).contains_key(url) implies exists|
            i: int,
        |
            0 <= i < outcomes.len() && (#[trigger] outcomes[i]).url == url
                && outcomes[i].result is Ok by {
            if url != outcomes[last].url {
                let i = choose|i: int|
                    0 <= i < earlier.len() && (#[trigger] earlier[i]).url == url
                        && earlier[i].result is Ok;
                assert(outcomes[i] == earlier[i]);
            }
        }
    }
}

/// How the repository at `url` ends in a run that finds `cache`, reads the
/// time `now` for it, and would get `fetched` if it fetched it.
pub open spec fn resolved(
    cache: Option<Map<Seq<char>, RecordView>>,
    have_tokens: bool,
    url: Seq<char>,
    now: Timestamp,
    fetched: Result<RecordView, FetchError>,
) -> Result<RecordView, FetchError> {
    match reusable(cache, url, now) {
        Some(record) => Ok(record),
        None => if have_tokens {
            fetched
        } else {
            Err(FetchError::NoTokens)
        },
    }
}

/// A repository ends as `resolved` says, whatever the order of the steps:
/// it is begun, fetched if it is to be fetched, and then settled.
pub proof fn lemma_course(
    cache: Option<Map<Seq<char>, RecordView>>,
    have_tokens: bool,
    url: Seq<char>,
    now: Timestamp,
    fetched: Result<RecordView, FetchError>,
)
    ensures
        settled(after_fetch(begun(cache, url, have_tokens, now), fetched)) == Some(
            resolved(cache, have_tokens, url, now, fetched),
        ),
{
}

/// The outcomes of a run over `urls`, in the order of the URLs.
pub open spec fn run_outcomes(
    urls: Seq<Seq<char>>,
    cache: Option<Map<Seq<char>, RecordView>>,
    have_tokens: bool,
    clock: spec_fn(Seq<char>) -> Timestamp,
    network: spec_fn(Seq<char>) -> Result<RecordView, FetchError>,
) -> Seq<OutcomeView> {
    Seq::new(
        urls.len(),
        |i: int|
            OutcomeView {
                url: urls[i],
                result: resolved(cache, have_tokens, urls[i], clock(urls[i]), network(urls[i])),
            },
    )
}

/// The result of a run over `urls`.
pub open spec fn run_result(
    urls: Seq<Seq<char>>,
    cache: Option<Map<Seq<char>, RecordView>>,
    have_tokens: bool,
    clock: spec_fn(Seq<char>) -> Timestamp,
    network: spec_fn(Seq<char>) -> Result<RecordView, FetchError>,
) -> Map<Seq<char>, RecordView> {
    merged(run_outcomes(urls, cache, have_tokens, clock, network))
}

/// The result of a run holds, of the URLs it went over, those that ended in
/// a record, each with that record.
pub proof fn lemma_run_result(
    urls: Seq<Seq<char>>,
    cache: Option<Map<Seq<char>, RecordView>>,
    have_tokens: bool,
    clock: spec_fn(Seq<char>) -> Timestamp,
    network: spec_fn(Seq<char>) -> Result<RecordView, FetchError>,
)
    requires
        urls.no_duplicates(),
    ensures
        forall|url: Seq<char>| #[trigger]
            run_result(urls, cache, have_tokens, clock, network).contains_key(url) <==> urls.contains(
                url,
            ) && resolved(cache, have_tokens, url, clock(url), network(url)) is Ok,
        forall|url: Seq<char>| #[trigger]
            run_result(urls, cache, have_tokens, clock, network).contains_key(url) ==> Ok::<
                RecordView,
                FetchError,
            >(run_result(urls, cache, have_tokens, clock, network)[url]) == resolved(
                cache,
                have_tokens,
                url,
                clock(url),
                network(url),
            ),
{
    let outcomes = run_outcomes(urls, cache, have_tokens, clock, network);
    lemma_failures_dropped(outcomes);
    let result = merged(outcomes);
    assert forall|url: Seq<char>| #[trigger] result.contains_key(url) <==> urls.contains(url)
        && resolved(cache, have_tokens, url, clock(url), network(url)) is Ok by {
        if result.contains_key(url) {
            let i = choose|i: int|
                0 <= i < outcomes.len() && (#[trigger] outcomes[i]).url == url
                    && outcomes[i].result is Ok;
            assert(urls[i] == url);
        }
        if urls.contains(url) && resolved(cache, have_tokens, url, clock(url), network(url)) is Ok {
            let i = choose|i: int| 0 <= i < urls.len() && urls[i] == url;
            assert(outcomes[i].url == url);
        }
    }
    assert forall|url: Seq<char>| #[trigger] result.contains_key(url) implies Ok::<
        RecordView,
        FetchError,
    >(result[url]) == resolved(cache, have_tokens, url, clock(url), network(url)) by {
        let i = choose|i: int|
            0 <= i < outcomes.len() && (#[trigger] outcomes[i]).url == url
                && outcomes[i].result is Ok;
        assert(urls[i] == url);
    }
}

/// A run over URLs of repositories keeps its records under URLs of
/// repositories, whatever the cache held and whatever was fetched.
pub proof fn lemma_result_urls(
    urls: Seq<Seq<char>>,
    cache: Option<Map<Seq<char>, RecordView>>,
    have_tokens: bool,
    clock: spec_fn(Seq<char>) -> Timestamp,
    network: spec_fn(Seq<char>) -> Result<RecordView, FetchError>,
)
    requires
        urls.no_duplicates(),
        forall|i: int| 0 <= i < urls.len() ==> is_repo_url(#[trigger] urls[i]),
    ensures
        forall|url: Seq<char>| #[trigger]
            run_result(urls, cache, have_tokens, clock, network).contains_key(url) ==> is_repo_url(
                url,
            ),
{
    lemma_run_result(urls, cache, have_tokens, clock, network);
    assert forall|url: Seq<char>| #[trigger]
        run_result(urls, cache, have_tokens, clock, network).contains_key(url) implies is_repo_url(
        url,
    ) by {
        assert(urls.contains(url));
    }
}

/// Without tokens nothing is fetched: the result of the run holds the
/// records of the cache that are still fresh, for the URLs it went over, and
/// a repository without such a record is not in it.
pub proof fn lemma_run_without_tokens(
    urls: Seq<Seq<char>>,
    cache: Option<Map<Seq<char>, RecordView>>,
    clock: spec_fn(Seq<char>) -> Timestamp,
    network: spec_fn(Seq<char>) -> Result<RecordView, FetchError>,
)
    requires
        urls.no_duplicates(),
    ensures
        forall|url: Seq<char>, now: Timestamp|
            !(#[trigger] begun(cache, url, false, now) is Fetching),
        forall|url: Seq<char>| #[trigger]
            run_result(urls, cache, false, clock, network).contains_key(url) <==> urls.contains(url)
                && reusable(cache, url, clock(url)) is Some,
        forall|url: Seq<char>| #[trigger]
            run_result(urls, cache, false, clock, network).contains_key(url) ==> reusable(
                cache,
                url,
                clock(url),
            ) == Some(run_result(urls, cache, false, clock, network)[url]),
{
    lemma_run_result(urls, cache, false, clock, network);
}

/// A run that finds a fresh record in the cache for each of its URLs makes
/// a result that a second run, which finds that result as its cache and
/// still fresh, makes again: nothing is fetched and no record changes.
pub proof fn lemma_warm_cache_idempotent(
    urls: Seq<Seq<char>>,
    cache: Map<Seq<char>, RecordView>,
    have_tokens: bool,
    clock: spec_fn(Seq<char>) -> Timestamp,
    network: spec_fn(Seq<char>) -> Result<RecordView, FetchError>,
    again_have_tokens: bool,
    again_clock: spec_fn(Seq<char>) -> Timestamp,
    again_network: spec_fn(Seq<char>) -> Result<RecordView, FetchError>,
)
    requires
        urls.no_duplicates(),
        forall|i: int|
            0 <= i < urls.len() ==> cache.contains_key(#[trigger] urls[i]) && is_fresh(
                cache[urls[i]].generated_at,
                clock(urls[i]),
            ) && is_fresh(cache[urls[i]].generated_at, again_clock(urls[i])),
    ensures
        run_result(
            urls,
            Some(run_result(urls, Some(cache), have_tokens, clock, network)),
            again_have_tokens,
            again_clock,
            again_network,
        ) == run_result(urls, Some(cache), have_tokens, clock, network),
        forall|i: int|
            0 <= i < urls.len() ==> run_result(
                urls,
                Some(cache),
                have_tokens,
                clock,
                network,
            ).contains_key(#[trigger] urls[i]) && run_result(
                urls,
                Some(cache),
                have_tokens,
                clock,
                network,
            )[urls[i]] == cache[urls[i]],
{
    let first = run_result(urls, Some(cache), have_tokens, clock, network);
    lemma_run_result(urls, Some(cache), have_tokens, clock, network);
    lemma_run_result(urls, Some(first), again_have_tokens, again_clock, again_network);
    let second = run_result(urls, Some(first), again_have_tokens, again_clock, again_network);
    assert forall|i: int| 0 <= i < urls.len() implies first.contains_key(#[trigger] urls[i])
        && first[urls[i]] == cache[urls[i]] by {
        assert(urls.contains(urls[i]));
    }
    assert forall|url: Seq<char>| first.contains_key(url) implies #[trigger] second.contains_key(url)
        && second[url] == first[url] by {
        assert(urls.contains(url));
        assert(resolved(Some(first), again_have_tokens, url, again_clock(url), again_network(url))
            == Ok::<RecordView, FetchError>(first[url]));
    }
    assert forall|url: Seq<char>| second.contains_key(url) implies first.contains_key(url) by {
        assert(urls.contains(url));
    }
    assert(second =~= first);
}

} // verus!
