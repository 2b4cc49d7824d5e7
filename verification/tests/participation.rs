use gitee_data::error::ApiCall;
use gitee_data::fetch::{read_body, Response};
use gitee_data::json::Json;
use gitee_data::participation::{count_commits, count_date, empty_weeks};
use gitee_data::time::Timestamp;

const DAY: i64 = 86_400;
const NOW: i64 = 1_700_000_000;

fn at(secs: i64) -> Timestamp {
    Timestamp { secs, nanos: 0 }
}

fn begin() -> Timestamp {
    at(NOW - 365 * DAY)
}

fn read(document: &str) -> Json {
    let reply = Some(Response { success: true, total_count: None, body: document.to_string() });
    match read_body(&reply, ApiCall::Participation) {
        Ok(json) => json,
        Err(error) => panic!("not a JSON document: {}: {:?}", document, error),
    }
}

fn commit(date: &str) -> Json {
    read(&format!("{{\"commit\": {{\"author\": {{\"date\": \"{}\"}}}}}}", date))
}

fn weeks_with(counts: &[(usize, i64)]) -> Vec<i64> {
    let mut weeks = vec![0i64; 52];
    for (week, count) in counts {
        weeks[*week] = *count;
    }
    weeks
}

#[test]
fn there_are_52_weeks_without_commits() {
    assert_eq!(empty_weeks(), vec![0i64; 52]);
}

#[test]
fn a_commit_of_the_day_before_yesterday_counts_in_the_last_week() {
    let mut weeks = empty_weeks();
    count_date(&mut weeks, begin(), Some(at(NOW - 2 * DAY)));
    assert_eq!(weeks, weeks_with(&[(51, 1)]));
}

#[test]
fn a_commit_of_400_days_ago_counts_nowhere() {
    let mut weeks = empty_weeks();
    count_date(&mut weeks, begin(), Some(at(NOW - 400 * DAY)));
    assert_eq!(weeks, vec![0i64; 52]);
}

#[test]
fn a_commit_just_inside_the_last_week_counts_and_one_at_its_end_does_not() {
    let mut weeks = empty_weeks();
    count_date(&mut weeks, begin(), Some(at(NOW - DAY - 1)));
    assert_eq!(weeks, weeks_with(&[(51, 1)]));
    count_date(&mut weeks, begin(), Some(at(NOW - DAY)));
    count_date(&mut weeks, begin(), Some(at(NOW)));
    assert_eq!(weeks, weeks_with(&[(51, 1)]));
}

#[test]
fn a_commit_without_a_time_counts_nowhere() {
    let mut weeks = empty_weeks();
    count_date(&mut weeks, begin(), None);
    assert_eq!(weeks, vec![0i64; 52]);
}

#[test]
fn commits_of_one_week_add_up() {
    let mut weeks = empty_weeks();
    count_date(&mut weeks, begin(), Some(at(NOW - 365 * DAY)));
    count_date(&mut weeks, begin(), Some(at(NOW - 365 * DAY + 3 * DAY)));
    count_date(&mut weeks, begin(), Some(at(NOW - 365 * DAY + 7 * DAY)));
    count_date(&mut weeks, begin(), Some(at(NOW - 365 * DAY + 70 * DAY)));
    assert_eq!(weeks, weeks_with(&[(0, 2), (1, 1), (10, 1)]));
}

#[test]
fn a_count_stays_at_the_largest_number() {
    let mut weeks = weeks_with(&[(0, i64::MAX), (1, i64::MAX - 1)]);
    count_date(&mut weeks, begin(), Some(begin()));
    count_date(&mut weeks, begin(), Some(at(NOW - 365 * DAY + 7 * DAY)));
    assert_eq!(weeks, weeks_with(&[(0, i64::MAX), (1, i64::MAX)]));
}

#[test]
fn fewer_weeks_than_the_week_of_a_commit_stay_as_they_are() {
    let mut weeks = vec![0i64; 3];
    count_date(&mut weeks, begin(), Some(at(NOW - 365 * DAY + 8 * DAY)));
    count_date(&mut weeks, begin(), Some(at(NOW - 2 * DAY)));
    assert_eq!(weeks, vec![0, 1, 0]);
}

#[test]
fn the_commits_of_a_page_are_counted() {
    // NOW is 2023-11-14T22:13:20Z.
    let page = vec![
        commit("2023-11-12T22:13:20Z"),
        commit("2023-11-13T06:13:19+08:00"),
        commit("2022-10-10T00:00:00Z"),
        commit("2023-11-14T22:13:20Z"),
        commit("2022-11-15T00:00:00Z"),
        commit("2022-11-22T00:00:00+00:00"),
    ];
    let mut weeks = empty_weeks();
    count_commits(&mut weeks, begin(), &page);
    assert_eq!(weeks, weeks_with(&[(0, 1), (1, 1), (51, 2)]));
}

#[test]
fn a_commit_whose_date_cannot_be_read_is_passed_over() {
    let page = vec![
        commit("not a date"),
        commit("2023-11-12"),
        Json::Object(Vec::new()),
        Json::Null,
        commit("2023-11-12T22:13:20Z"),
        read("{\"commit\": {\"author\": {\"date\": 1699827200}}}"),
    ];
    let mut weeks = empty_weeks();
    count_commits(&mut weeks, begin(), &page);
    assert_eq!(weeks, weeks_with(&[(51, 1)]));
}

#[test]
fn a_page_without_commits_changes_nothing() {
    let mut weeks = weeks_with(&[(5, 7)]);
    count_commits(&mut weeks, begin(), &Vec::new());
    assert_eq!(weeks, weeks_with(&[(5, 7)]));
}

#[test]
fn a_commit_shortly_before_the_beginning_counts_nowhere() {
    let mut weeks = empty_weeks();
    count_date(&mut weeks, begin(), Some(at(NOW - 365 * DAY - 1)));
    count_date(&mut weeks, begin(), Some(at(NOW - 365 * DAY - DAY / 2)));
    count_date(&mut weeks, begin(), Some(Timestamp { secs: NOW - 365 * DAY - 1, nanos: 999_999_999 }));
    assert_eq!(weeks, vec![0i64; 52]);
    count_commits(&mut weeks, begin(), &vec![commit("2022-11-14T22:13:19Z"), commit("2022-11-14T10:13:20Z")]);
    assert_eq!(weeks, vec![0i64; 52]);
    count_commits(&mut weeks, begin(), &vec![commit("2022-11-14T22:13:20Z")]);
    assert_eq!(weeks, weeks_with(&[(0, 1)]));
}
