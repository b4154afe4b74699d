//! UTC instants as whole seconds since the Unix epoch, and calendar dates.
use chrono::Datelike;
use vstd::prelude::*;

verus! {

/// Seconds in one UTC day (Unix time has no leap seconds).
pub const SECONDS_PER_DAY: i64 = 86400;

/// Seconds in one hour.
pub const SECONDS_PER_HOUR: i64 = 3600;

/// Days between a reminder's date and the entry it quotes.
pub const LOOKBACK_DAYS: i64 = 365;

/// A calendar date in the proleptic Gregorian calendar.
#[derive(Clone, Copy, Debug, PartialEq, Eq, Structural)]
pub struct CivilDate {
    pub day: u32,
    pub month: u32,
    pub year: i32,
}

impl CivilDate {
    /// The date as a plain (day, month, year) triple.
    pub open spec fn triple(self) -> (int, int, int) {
        (self.day as int, self.month as int, self.year as int)
    }
}

/// The UTC calendar date, as (day, month, year), of the instant `secs` seconds
/// after the epoch; `None` where the date library cannot represent it.
pub uninterp spec fn utc_date_of(secs: int) -> Option<(int, int, int)>;

/// Index of the UTC day holding instant `t` (day 0 starts at the epoch).
pub open spec fn day_index(t: int) -> int {
    t / (SECONDS_PER_DAY as int)
}

/// The instant at which the UTC day holding `t` begins.
pub open spec fn start_of_day(t: int) -> int {
    t - t % (SECONDS_PER_DAY as int)
}

/// The instant exactly one lookback period (365 days) before `t`.
pub open spec fn lookback_instant(t: int) -> int {
    t - LOOKBACK_DAYS * SECONDS_PER_DAY
}

/// Relies on chrono's `DateTime::from_timestamp` and its `day`, `month` and
/// `year` accessors: the UTC date of a timestamp, `None` out of chrono's range.
#[verifier::external_body]
pub(crate) fn utc_civil_date(secs: i64) -> (r: Option<CivilDate>)
    ensures
        match r {
            Some(d) => utc_date_of(secs as int) == Some(d.triple()) && 1 <= d.day <= 31
                && 1 <= d.month <= 12,
            None => utc_date_of(secs as int) is None,
        },
{
    match chrono::DateTime::from_timestamp(secs, 0) {
        Some(t) => Some(CivilDate { day: t.day(), month: t.month(), year: t.year() }),
        None => None,
    }
}

/// The instant at which the UTC day holding `t` begins; `None` only where that
/// instant lies before the earliest `i64`.
pub fn day_start(t: i64) -> (r: Option<i64>)
    ensures
        i64::MIN <= start_of_day(t as int) <==> r is Some,
        r matches Some(s) ==> s == start_of_day(t as int) && s <= t && t - s < SECONDS_PER_DAY,
{
    let rem = t.checked_rem_euclid(SECONDS_PER_DAY).unwrap();
    t.checked_sub(rem)
}

/// The UTC date of instant `t`; `None` where the date library cannot represent it.
pub fn date_of_instant(t: i64) -> (r: Option<CivilDate>)
    ensures
        match r {
            Some(d) => utc_date_of(t as int) == Some(d.triple()),
            None => utc_date_of(t as int) is None,
        },
{
    utc_civil_date(t)
}

/// The date one lookback period (365 days) before instant `now`: the date of the
/// journal entry that a reminder sent at `now` quotes. `None` where that instant
/// or its date cannot be represented.
pub fn lookback_date(now: i64) -> (r: Option<CivilDate>)
    ensures
        i64::MIN <= lookback_instant(now as int) ==> match r {
            Some(d) => utc_date_of(lookback_instant(now as int)) == Some(d.triple()),
            None => utc_date_of(lookback_instant(now as int)) is None,
        },
        lookback_instant(now as int) < i64::MIN ==> r is None,
{
    match now.checked_sub(LOOKBACK_DAYS * SECONDS_PER_DAY) {
        Some(then) => utc_civil_date(then),
        None => None,
    }
}

} // verus!
