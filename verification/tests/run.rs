use gitee_data::catalog::{repository_urls, CatalogItem};
use gitee_data::collection::CollectionResult;
use gitee_data::error::{ApiCall, FetchError};
use gitee_data::fetch::{RepositoryFetch, Response};
use gitee_data::record::{Commit, Contributors, RepositoryRecord};
use gitee_data::run::{
    authorization, collect_outcomes, concurrency, parse_tokens, Outcome, RepositoryState,
    GITEE_CACHE_FILE, GITEE_TOKENS,
};
use gitee_data::time::Timestamp;

const DAY: i64 = 86_400;
const NOW: Timestamp = Timestamp { secs: 1_700_000_000, nanos: 0 };

fn record(url: &str, generated_at: Timestamp) -> RepositoryRecord {
    RepositoryRecord {
        contributors: Contributors { count: 3, url: format!("{}/graphs/contributors", url) },
        description: "cached".to_string(),
        first_commit: None,
        generated_at,
        languages: None,
        latest_commit: Commit { url: String::new(), ts: None },
        latest_release: None,
        license: Some("MIT".to_string()),
        participation_stats: vec![1; 52],
        stars: 4,
        topics: vec!["topic".to_string()],
        url: url.to_string(),
    }
}

fn cache_of(records: &[(&str, Timestamp)]) -> Option<CollectionResult> {
    let mut cache = CollectionResult::new();
    for (url, generated_at) in records {
        cache.insert(url.to_string(), record(url, *generated_at));
    }
    Some(cache)
}

fn ok(body: &str) -> Option<Response> {
    Some(Response { success: true, total_count: None, body: body.to_string() })
}

/// Fetches a repository from a platform that answers every call with an
/// empty document, but the call for the license of `unlicensed`.
fn fetch(url: &str, unlicensed: &str, now: Timestamp) -> Result<RepositoryRecord, FetchError> {
    let mut fetch = RepositoryFetch::start(url)?;
    loop {
        let request = match fetch.request() {
            Some(request) => request,
            None => break,
        };
        let reply = if request.url.ends_with("/license") && request.url.contains(unlicensed) {
            Some(Response { success: false, total_count: None, body: String::new() })
        } else if request.url.contains("/commits") || request.url.contains("/releases") {
            ok("[]")
        } else {
            ok("{}")
        };
        fetch = fetch.advance(reply, now);
    }
    match fetch.finish() {
        Some(result) => result,
        None => unreachable!(),
    }
}

/// One run over `urls`.
fn run(urls: &[String], cache: &Option<CollectionResult>, have_tokens: bool, now: Timestamp) -> CollectionResult {
    let mut outcomes = Vec::new();
    for url in urls.iter().rev() {
        let mut state = RepositoryState::Start.begin(url, cache, have_tokens, now);
        if state == RepositoryState::Fetching {
            state = state.fetched(fetch(url, "/b/", now));
        }
        match state.into_result() {
            Some(result) => outcomes.push(Outcome { url: url.clone(), result }),
            None => unreachable!(),
        }
    }
    collect_outcomes(outcomes)
}

fn urls_of(result: &CollectionResult) -> Vec<&str> {
    result.entries().iter().map(|entry| entry.url.as_str()).collect()
}

#[test]
fn the_names_of_cache_and_tokens() {
    assert_eq!(GITEE_CACHE_FILE, "gitee.json");
    assert_eq!(GITEE_TOKENS, "GITEE_TOKENS");
}

#[test]
fn tokens_are_listed_with_commas() {
    assert_eq!(parse_tokens(Some("t1,t2,t3")), Some(vec!["t1".to_string(), "t2".to_string(), "t3".to_string()]));
    assert_eq!(parse_tokens(Some("only")), Some(vec!["only".to_string()]));
    assert_eq!(parse_tokens(Some("a,,b")), Some(vec!["a".to_string(), String::new(), "b".to_string()]));
    assert_eq!(parse_tokens(Some(",")), Some(vec![String::new(), String::new()]));
}

#[test]
fn a_missing_or_empty_value_has_no_tokens() {
    assert_eq!(parse_tokens(None), None);
    assert_eq!(parse_tokens(Some("")), None);
}

#[test]
fn as_many_fetches_at_a_time_as_tokens() {
    assert_eq!(concurrency(&parse_tokens(Some("t1,t2,t3"))), 3);
    assert_eq!(concurrency(&parse_tokens(Some("t1"))), 1);
    assert_eq!(concurrency(&None), 1);
    assert_eq!(concurrency(&Some(Vec::new())), 0);
}

#[test]
fn a_token_authorizes_as_bearer() {
    assert_eq!(authorization("abc123"), "Bearer abc123");
    assert_eq!(authorization(""), "Bearer ");
}

#[test]
fn a_record_made_now_is_used_again() {
    let cache = cache_of(&[("https://gitee.com/a/a", NOW)]);
    assert_eq!(
        RepositoryState::Start.begin("https://gitee.com/a/a", &cache, true, NOW),
        RepositoryState::DoneCached(record("https://gitee.com/a/a", NOW))
    );
    assert_eq!(
        RepositoryState::Start.begin("https://gitee.com/a/a", &cache, false, NOW),
        RepositoryState::DoneCached(record("https://gitee.com/a/a", NOW))
    );
}

#[test]
fn a_record_of_eight_days_ago_is_fetched_anew() {
    let old = Timestamp { secs: NOW.secs - 8 * DAY, nanos: 0 };
    let cache = cache_of(&[("https://gitee.com/a/a", old)]);
    assert_eq!(RepositoryState::Start.begin("https://gitee.com/a/a", &cache, true, NOW), RepositoryState::Fetching);
}

#[test]
fn a_record_of_seven_days_ago_is_fetched_anew() {
    let cache = cache_of(&[
        ("https://gitee.com/a/a", Timestamp { secs: NOW.secs - 7 * DAY, nanos: 0 }),
        ("https://gitee.com/b/b", Timestamp { secs: NOW.secs - 7 * DAY + 1, nanos: 0 }),
    ]);
    assert_eq!(RepositoryState::Start.begin("https://gitee.com/a/a", &cache, true, NOW), RepositoryState::Fetching);
    assert_eq!(
        RepositoryState::Start.begin("https://gitee.com/b/b", &cache, true, NOW),
        RepositoryState::DoneCached(record("https://gitee.com/b/b", Timestamp { secs: NOW.secs - 7 * DAY + 1, nanos: 0 }))
    );
}

#[test]
fn a_repository_that_is_not_cached_is_fetched() {
    let cache = cache_of(&[("https://gitee.com/a/a", NOW)]);
    assert_eq!(RepositoryState::Start.begin("https://gitee.com/b/b", &cache, true, NOW), RepositoryState::Fetching);
    assert_eq!(RepositoryState::Start.begin("https://gitee.com/b/b", &None, true, NOW), RepositoryState::Fetching);
}

#[test]
fn without_tokens_a_repository_that_is_not_cached_fails() {
    let old = Timestamp { secs: NOW.secs - 8 * DAY, nanos: 0 };
    let cache = cache_of(&[("https://gitee.com/a/a", old)]);
    assert_eq!(
        RepositoryState::Start.begin("https://gitee.com/a/a", &cache, false, NOW),
        RepositoryState::Failed(FetchError::NoTokens)
    );
    assert_eq!(
        RepositoryState::Start.begin("https://gitee.com/b/b", &None, false, NOW),
        RepositoryState::Failed(FetchError::NoTokens)
    );
}

#[test]
fn a_fetch_settles_a_repository() {
    let fetched = record("https://gitee.com/a/a", NOW);
    assert_eq!(
        RepositoryState::Fetching.fetched(Ok(record("https://gitee.com/a/a", NOW))),
        RepositoryState::DoneFetched(fetched)
    );
    assert_eq!(
        RepositoryState::Fetching.fetched(Err(FetchError::Transport)),
        RepositoryState::Failed(FetchError::Transport)
    );
}

#[test]
fn nothing_is_fetched_twice() {
    let other = || Ok(record("https://gitee.com/z/z", NOW));
    assert_eq!(RepositoryState::Start.fetched(other()), RepositoryState::Start);
    assert_eq!(
        RepositoryState::Failed(FetchError::NoTokens).fetched(other()),
        RepositoryState::Failed(FetchError::NoTokens)
    );
    assert_eq!(
        RepositoryState::DoneCached(record("https://gitee.com/a/a", NOW)).fetched(other()),
        RepositoryState::DoneCached(record("https://gitee.com/a/a", NOW))
    );
    assert_eq!(
        RepositoryState::DoneFetched(record("https://gitee.com/a/a", NOW)).fetched(Err(FetchError::Transport)),
        RepositoryState::DoneFetched(record("https://gitee.com/a/a", NOW))
    );
    assert_eq!(
        RepositoryState::Failed(FetchError::Transport).begin("https://gitee.com/a/a", &None, true, NOW),
        RepositoryState::Failed(FetchError::Transport)
    );
    assert_eq!(RepositoryState::Fetching.begin("https://gitee.com/a/a", &None, false, NOW), RepositoryState::Fetching);
}

#[test]
fn a_settled_repository_gives_its_record_or_its_failure() {
    assert_eq!(RepositoryState::Start.into_result(), None);
    assert_eq!(RepositoryState::Fetching.into_result(), None);
    assert_eq!(RepositoryState::DoneCached(record("a", NOW)).into_result(), Some(Ok(record("a", NOW))));
    assert_eq!(RepositoryState::DoneFetched(record("a", NOW)).into_result(), Some(Ok(record("a", NOW))));
    assert_eq!(
        RepositoryState::Failed(FetchError::MalformedBody).into_result(),
        Some(Err(FetchError::MalformedBody))
    );
}

#[test]
fn the_result_holds_the_records_that_came_through() {
    let result = collect_outcomes(vec![
        Outcome { url: "c".to_string(), result: Ok(record("c", NOW)) },
        Outcome { url: "a".to_string(), result: Ok(record("a", NOW)) },
        Outcome { url: "b".to_string(), result: Err(FetchError::Status(ApiCall::License)) },
    ]);
    assert_eq!(urls_of(&result), vec!["a", "c"]);
    assert_eq!(result.get("a"), Some(&record("a", NOW)));
    assert_eq!(result.get("b"), None);
    assert_eq!(result.get("c"), Some(&record("c", NOW)));
}

#[test]
fn the_later_of_two_outcomes_of_one_url_stands() {
    let later = Timestamp { secs: NOW.secs + 1, nanos: 0 };
    let result = collect_outcomes(vec![
        Outcome { url: "a".to_string(), result: Ok(record("a", NOW)) },
        Outcome { url: "b".to_string(), result: Ok(record("b", NOW)) },
        Outcome { url: "a".to_string(), result: Ok(record("a", later)) },
        Outcome { url: "b".to_string(), result: Err(FetchError::Transport) },
    ]);
    assert_eq!(urls_of(&result), vec!["a"]);
    assert_eq!(result.get("a"), Some(&record("a", later)));
}

#[test]
fn no_outcomes_make_an_empty_result() {
    assert_eq!(collect_outcomes(Vec::new()), CollectionResult::new());
}

#[test]
fn a_repository_whose_license_call_fails_is_left_out() {
    let urls = vec![
        "https://gitee.com/a/a".to_string(),
        "https://gitee.com/b/b".to_string(),
        "https://gitee.com/c/c".to_string(),
    ];
    assert_eq!(fetch("https://gitee.com/b/b", "/b/", NOW), Err(FetchError::Status(ApiCall::License)));
    let result = run(&urls, &None, true, NOW);
    assert_eq!(urls_of(&result), vec!["https://gitee.com/a/a", "https://gitee.com/c/c"]);
    assert_eq!(result.get("https://gitee.com/a/a"), Some(&fetch("https://gitee.com/a/a", "/b/", NOW).unwrap()));
    assert_eq!(result.get("https://gitee.com/c/c"), Some(&fetch("https://gitee.com/c/c", "/b/", NOW).unwrap()));
}

#[test]
fn a_failed_repository_is_not_carried_over_from_an_old_cache() {
    let old = Timestamp { secs: NOW.secs - 30 * DAY, nanos: 0 };
    let cache = cache_of(&[("https://gitee.com/b/b", old), ("https://gitee.com/a/a", old)]);
    let urls = vec!["https://gitee.com/a/a".to_string(), "https://gitee.com/b/b".to_string()];
    let result = run(&urls, &cache, true, NOW);
    assert_eq!(urls_of(&result), vec!["https://gitee.com/a/a"]);
    assert_eq!(result.get("https://gitee.com/a/a").map(|r| r.generated_at), Some(NOW));
}

#[test]
fn without_tokens_the_result_holds_the_fresh_records_of_the_cache() {
    let old = Timestamp { secs: NOW.secs - 8 * DAY, nanos: 0 };
    let cache = cache_of(&[
        ("https://gitee.com/a/a", NOW),
        ("https://gitee.com/b/b", old),
        ("https://gitee.com/d/d", NOW),
    ]);
    let urls = vec![
        "https://gitee.com/a/a".to_string(),
        "https://gitee.com/b/b".to_string(),
        "https://gitee.com/c/c".to_string(),
    ];
    let result = run(&urls, &cache, false, NOW);
    assert_eq!(urls_of(&result), vec!["https://gitee.com/a/a"]);
    assert_eq!(result.get("https://gitee.com/a/a"), Some(&record("https://gitee.com/a/a", NOW)));
    assert_eq!(run(&urls, &None, false, NOW), CollectionResult::new());
}

#[test]
fn a_second_run_on_a_warm_cache_gives_the_same_result() {
    let urls = vec![
        "https://gitee.com/a/a".to_string(),
        "https://gitee.com/c/c".to_string(),
        "https://gitee.com/e/e".to_string(),
    ];
    let first = Some(run(&urls, &None, true, NOW));
    let soon = Timestamp { secs: NOW.secs + 5, nanos: 0 };
    let second = Some(run(&urls, &first, true, soon));
    assert_eq!(second, first);
    let third = Some(run(&urls, &second, false, Timestamp { secs: NOW.secs + 6 * DAY, nanos: 0 }));
    assert_eq!(third, first);
}

#[test]
fn a_run_goes_over_the_urls_of_the_catalog() {
    let items = vec![
        CatalogItem {
            repositories: Some(vec![
                "https://gitee.com/c/c".to_string(),
                "https://github.com/x/y".to_string(),
                "https://gitee.com/a/a/".to_string(),
            ]),
        },
        CatalogItem { repositories: None },
        CatalogItem { repositories: Some(vec!["https://gitee.com/c/c".to_string()]) },
    ];
    let urls = repository_urls(&items);
    let result = run(&urls, &None, true, NOW);
    assert_eq!(urls_of(&result), vec!["https://gitee.com/a/a/", "https://gitee.com/c/c"]);
}
