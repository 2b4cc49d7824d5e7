//! Instants, the age of cached records, and the weeks of the year before a
//! collection.

use vstd::prelude::*;

verus! {

/// An instant: the whole seconds since 1970-01-01T00:00:00 UTC, and the
/// nanoseconds that have passed since that second began. During a leap
/// second `nanos` goes on counting past 999,999,999.
#[derive(Clone, Copy, Debug, PartialEq, Eq, Structural)]
pub struct Timestamp {
    pub secs: i64,
    pub nanos: u32,
}

/// The number of nanoseconds in a second.
pub const NANOS_PER_SECOND: i128 = 1_000_000_000;

/// The number of nanoseconds in a day.
pub const NANOS_PER_DAY: i128 = 86_400_000_000_000;

/// The number of nanoseconds in a week.
pub const NANOS_PER_WEEK: i128 = 604_800_000_000_000;

/// For how many days a cached record stays valid.
pub const CACHE_TTL_DAYS: i64 = 7;

/// How many days before a collection the counting of commits begins.
pub const WINDOW_DAYS: i64 = 365;

/// The seconds in that many days.
pub const WINDOW_SECONDS: i64 = 31_536_000;

/// How many weeks of commits are counted.
pub const WEEKS: usize = 52;

/// The number of nanoseconds in `n` days.
pub open spec fn days(n: int) -> int {
    n * NANOS_PER_DAY
}

impl Timestamp {
    /// The instant as nanoseconds since the epoch.
    pub open spec fn instant(self) -> int {
        self.secs * NANOS_PER_SECOND + self.nanos
    }

    /// The instant as nanoseconds since the epoch.
    fn nanoseconds(self) -> (n: i128)
        ensures
            n == self.instant(),
    {
        (self.secs as i128) * NANOS_PER_SECOND + (self.nanos as i128)
    }
}

/// A record made at `generated_at` may still be used at `now`: less than the
/// time to live has passed since it was made.
pub open spec fn is_fresh(generated_at: Timestamp, now: Timestamp) -> bool {
    generated_at.instant() + days(CACHE_TTL_DAYS as int) > now.instant()
}

/// Whether a record made at `generated_at` may still be used at `now`.
pub fn fresh(generated_at: Timestamp, now: Timestamp) -> (usable: bool)
    ensures
        usable == is_fresh(generated_at, now),
{
    generated_at.nanoseconds() + (CACHE_TTL_DAYS as i128) * NANOS_PER_DAY > now.nanoseconds()
}

/// A record is usable at the moment it was made, and no longer usable once
/// one day more than the time to live has passed.
pub proof fn lemma_fresh_window(generated_at: Timestamp, now: Timestamp)
    ensures
        generated_at == now ==> is_fresh(generated_at, now),
        generated_at.instant() == now.instant() - days(CACHE_TTL_DAYS + 1) ==> !is_fresh(
            generated_at,
            now,
        ),
{
}

/// The instant 365 days before `now`, from which commits are counted.
pub open spec fn window_start(now: Timestamp) -> Timestamp {
    Timestamp { secs: (now.secs - WINDOW_SECONDS) as i64, nanos: now.nanos }
}

/// The instant 365 days before `now`, where the seconds of that instant can
/// be counted in 64 bits.
pub fn window_begin(now: Timestamp) -> (begin: Option<Timestamp>)
    ensures
        begin == if now.secs - WINDOW_SECONDS >= i64::MIN {
            Some(window_start(now))
        } else {
            None
        },
        begin matches Some(b) ==> b.instant() == now.instant() - days(WINDOW_DAYS as int),
{
    match now.secs.checked_sub(WINDOW_SECONDS) {
        Some(secs) => Some(Timestamp { secs, nanos: now.nanos }),
        None => None,
    }
}

/// The week in which `date` falls: the whole weeks that have passed since
/// `begin`, so that week 0 starts at `begin`. A date before `begin` falls in
/// no week, nor does a date after the 52 weeks that are counted.
pub open spec fn week_of(begin: Timestamp, date: Timestamp) -> Option<int> {
    let elapsed = date.instant() - begin.instant();
    if 0 <= elapsed && elapsed / days(7) < WEEKS {
        Some(elapsed / days(7))
    } else {
        None
    }
}

/// The week in which `date` falls, counted from `begin`.
pub fn week_index(begin: Timestamp, date: Timestamp) -> (week: Option<usize>)
    ensures
        match week {
            Some(w) => week_of(begin, date) == Some(w as int),
            None => week_of(begin, date).is_none(),
        },
{
    let elapsed: i128 = date.nanoseconds() - begin.nanoseconds();
    if elapsed < 0 {
        return None;
    }
    let week: i128 = elapsed / NANOS_PER_WEEK;
    if week < WEEKS as i128 {
        Some(week as usize)
    } else {
        None
    }
}

/// A date in the seven days that begin `7 * week` days after `begin` falls
/// in the week `week`.
pub proof fn lemma_week_of(begin: Timestamp, date: Timestamp, week: int)
    requires
        0 <= week < WEEKS,
        begin.instant() + days(7 * week) <= date.instant() < begin.instant() + days(7 * week + 7),
    ensures
        week_of(begin, date) == Some(week),
{
    let w = days(7);
    let e = date.instant() - begin.instant();
    let q = e / w;
    vstd::arithmetic::div_mod::lemma_fundamental_div_mod(e, w);
    vstd::arithmetic::div_mod::lemma_mod_bound(e, w);
    assert(q == week) by (nonlinear_arith)
        requires
            e == w * q + e % w,
            0 <= e % w < w,
            week * w <= e < (week + 1) * w,
            w > 0,
    ;
}

/// A date in the last seven of the 364 days that are counted falls in the
/// last week. A date before the beginning falls in no week, however short
/// before, nor does a date at the end of the 364 days or later.
pub proof fn lemma_last_week(begin: Timestamp, date: Timestamp)
    ensures
        begin.instant() + days(357) <= date.instant() < begin.instant() + days(364) ==> week_of(
            begin,
            date,
        ) == Some(51int),
        date.instant() < begin.instant() ==> week_of(begin, date).is_none(),
        date.instant() >= begin.instant() + days(364) ==> week_of(begin, date).is_none(),
{
    let w = days(7);
    let e = date.instant() - begin.instant();
    if begin.instant() + days(357) <= date.instant() < begin.instant() + days(364) {
        lemma_week_of(begin, date, 51);
    }
    if e >= 52 * w {
        let q = e / w;
        vstd::arithmetic::div_mod::lemma_fundamental_div_mod(e, w);
        vstd::arithmetic::div_mod::lemma_mod_bound(e, w);
        assert(q >= 52) by (nonlinear_arith)
            requires
                e == w * q + e % w,
                0 <= e % w < w,
                e >= 52 * w,
                w > 0,
        ;
    }
}

/// The instant that `chrono` reads from `text`, if `text` is a date and time
/// as RFC 3339 writes them.
pub uninterp spec fn rfc3339_instant(text: Seq<char>) -> Option<Timestamp>;

/// The text that `chrono` writes for the instant of `secs` and `nanos` in
/// UTC, if it is an instant that `chrono` can hold.
pub uninterp spec fn utc_display(secs: i64, nanos: u32) -> Option<Seq<char>>;

/// Calls `chrono::DateTime::parse_from_rfc3339` and takes the instant of
/// what it read with `timestamp` and `timestamp_subsec_nanos`. The contract
/// names the instant, and says no more of it than that the same text gives
/// the same instant; text that is no such date gives none.
#[verifier::external_body]
pub(crate) fn read_rfc3339(text: &str) -> (instant: Option<Timestamp>)
    ensures
        instant == rfc3339_instant(text@),
{
    match chrono::DateTime::parse_from_rfc3339(text) {
        Ok(date) => Some(Timestamp { secs: date.timestamp(), nanos: date.timestamp_subsec_nanos() }),
        Err(_) => None,
    }
}

/// Calls `chrono::DateTime::from_timestamp` and writes the date with
/// `to_string`. The contract names the text; an instant that
/// `from_timestamp` refuses gives none.
#[verifier::external_body]
pub(crate) fn write_utc(instant: Timestamp) -> (text: Option<String>)
    ensures
        match text {
            Some(t) => utc_display(instant.secs, instant.nanos) == Some(t@),
            None => utc_display(instant.secs, instant.nanos).is_none(),
        },
{
    match chrono::DateTime::from_timestamp(instant.secs, instant.nanos) {
        Some(date) => Some(date.to_string()),
        None => None,
    }
}

} // verus!
