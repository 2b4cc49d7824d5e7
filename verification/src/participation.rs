//! The commits of each of the 52 weeks before a collection.

use vstd::prelude::*;
use crate::api::{author_date, author_date_of, instant_of};
use crate::json::Json;
use crate::time::{lemma_last_week, read_rfc3339, week_index, week_of, Timestamp, WEEKS};

verus! {

/// A count with one more, which stays at the largest count that is held.
pub open spec fn bumped(count: i64) -> i64 {
    if count < i64::MAX {
        (count + 1) as i64
    } else {
        count
    }
}

/// The counts after a commit of the time `date`: one more in the week of
/// `date`, counted from `begin`. A commit without a time, or with a time
/// outside the weeks that are counted, changes nothing.
pub open spec fn with_date(weeks: Seq<i64>, begin: Timestamp, date: Option<Timestamp>) -> Seq<i64> {
    match date {
        Some(instant) => match week_of(begin, instant) {
            Some(week) => if week < weeks.len() {
                weeks.update(week, bumped(weeks[week]))
            } else {
                weeks
            },
            None => weeks,
        },
        None => weeks,
    }
}

/// The counts after a commit as the platform describes it: the time is that
/// of its author, where that is a date that can be read.
pub open spec fn with_commit(weeks: Seq<i64>, begin: Timestamp, commit: Json) -> Seq<i64> {
    with_date(weeks, begin, instant_of(author_date(commit)))
}

/// The counts after the commits of a page, taken in their order.
pub open spec fn with_commits(weeks: Seq<i64>, begin: Timestamp, commits: Seq<Json>) -> Seq<i64>
    decreases commits.len(),
{
    if commits.len() == 0 {
        weeks
    } else {
        with_commit(with_commits(weeks, begin, commits.drop_last()), begin, commits.last())
    }
}

/// Counting commits never changes the number of weeks.
pub proof fn lemma_weeks_stay(weeks: Seq<i64>, begin: Timestamp, commits: Seq<Json>)
    ensures
        with_commits(weeks, begin, commits).len() == weeks.len(),
    decreases commits.len(),
{
    if commits.len() > 0 {
        lemma_weeks_stay(weeks, begin, commits.drop_last());
    }
}

/// No commits in any of the 52 weeks.
pub fn empty_weeks() -> (weeks: Vec<i64>)
    ensures
        weeks@ == Seq::new(WEEKS as nat, |i: int| 0i64),
{
    let mut weeks: Vec<i64> = Vec::new();
    while weeks.len() < WEEKS
        invariant
            weeks.len() <= WEEKS,
            forall|i: int| 0 <= i < weeks.len() ==> weeks@[i] == 0,
        decreases WEEKS - weeks.len(),
    {
        weeks.push(0);
    }
    weeks
}

/// Counts a commit of the time `date`.
pub fn count_date(weeks: &mut Vec<i64>, begin: Timestamp, date: Option<Timestamp>)
    ensures
        final(weeks)@ == with_date(old(weeks)@, begin, date),
{
    if let Some(instant) = date {
        if let Some(week) = week_index(begin, instant) {
            if week < weeks.len() {
                let count = weeks[week];
                if count < i64::MAX {
                    weeks.set(week, count + 1);
                }
            }
        }
    }
}

/// Counts the commits of a page. A commit whose date cannot be read is
/// passed over.
pub fn count_commits(weeks: &mut Vec<i64>, begin: Timestamp, commits: &Vec<Json>)
    ensures
        final(weeks)@ == with_commits(old(weeks)@, begin, commits@),
        final(weeks)@.len() == old(weeks)@.len(),
{
    let mut i: usize = 0;
    while i < commits.len()
        invariant
            i <= commits.len(),
            weeks@ == with_commits(old(weeks)@, begin, commits@.take(i as int)),
        decreases commits.len() - i,
    {
        let date = match author_date_of(&commits[i]) {
            Some(text) => read_rfc3339(text),
            None => None,
        };
        proof {
            assert(commits@.take(i + 1).drop_last() =~= commits@.take(i as int));
        }
        count_date(weeks, begin, date);
        i += 1;
    }
    proof {
        assert(commits@.take(commits.len() as int) =~= commits@);
        lemma_weeks_stay(old(weeks)@, begin, commits@);
    }
}

/// A commit in the last seven of the 364 days that are counted adds one to
/// the last week and to no other. A commit dated before the beginning, or
/// at the end of those days or later, changes nothing, nor does a commit
/// without a time that can be read.
pub proof fn lemma_window_edges(weeks: Seq<i64>, begin: Timestamp, date: Timestamp)
    requires
        weeks.len() == WEEKS,
    ensures
        begin.instant() + crate::time::days(357) <= date.instant() < begin.instant()
            + crate::time::days(364) ==> with_date(weeks, begin, Some(date)) == weeks.update(
            51,
            bumped(weeks[51]),
        ),
        date.instant() < begin.instant() ==> with_date(weeks, begin, Some(date)) == weeks,
        date.instant() >= begin.instant() + crate::time::days(364) ==> with_date(
            weeks,
            begin,
            Some(date),
        ) == weeks,
        with_date(weeks, begin, None) == weeks,
{
    lemma_last_week(begin, date);
}

} // verus!
