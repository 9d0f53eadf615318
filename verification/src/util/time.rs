use vstd::prelude::*;

use crate::config::MAX_TIMESTAMP;

verus! {

/// The timestamp a given number of calendar months before `ts`, under
/// chrono's calendar arithmetic (day-of-month clamped where the target month
/// is shorter). It depends on the two arguments alone.
pub uninterp spec fn months_before_of(ts: i64, months: u32) -> i64;

/// Relies on chrono's `DateTime::<Utc>::checked_sub_months` (together with
/// `DateTime::from_timestamp` and `timestamp` to move between seconds and
/// dates): subtracting months is a function of the timestamp and the month
/// count alone, and never moves a date forward. The bounds keep both
/// conversions in chrono's supported range, so neither `unwrap` can fail.
#[verifier::external_body]
pub(crate) fn months_before(ts: i64, months: u32) -> (r: i64)
    requires
        0 <= ts <= MAX_TIMESTAMP,
        months <= 12_000,
    ensures
        r == months_before_of(ts, months),
        r <= ts,
{
    let date = chrono::DateTime::<chrono::Utc>::from_timestamp(ts, 0).unwrap();
    date.checked_sub_months(chrono::Months::new(months)).unwrap().timestamp()
}

} // verus!
