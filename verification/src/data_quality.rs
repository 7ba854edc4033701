//! Data quality checks on daily bars that need no floating point: gaps in
//! the calendar and the cap on reported warnings.
use crate::dates::{day_number, parse_day_number};
use crate::models::DataWarning;
use vstd::prelude::*;

verus! {

/// A gap longer than this many calendar days between consecutive bars may
/// hide missing trading days (a normal weekend is 3 days, Friday to Monday).
pub const MAX_NORMAL_GAP_DAYS: i64 = 4;

/// Days of a gap that a normal weekend explains.
pub const WEEKEND_DAYS: i64 = 3;

/// Warnings kept in a data quality report.
pub const MAX_WARNINGS: usize = 100;

/// The calendar gap between two bar dates when it is longer than a normal
/// weekend; `None` when either date does not parse or the gap is normal.
pub open spec fn suspicious_gap(prev: Seq<char>, cur: Seq<char>) -> Option<int> {
    match (day_number(prev), day_number(cur)) {
        (Some(a), Some(b)) => if b - a > MAX_NORMAL_GAP_DAYS {
            Some(b - a)
        } else {
            None
        },
        _ => None,
    }
}

/// The gap in days between consecutive bars dated `prev_date` and `date`,
/// when it exceeds `MAX_NORMAL_GAP_DAYS`.
pub fn date_gap(prev_date: &str, date: &str) -> (r: Option<i64>)
    ensures
        match r {
            Some(g) => suspicious_gap(prev_date@, date@) == Some(g as int),
            None => suspicious_gap(prev_date@, date@) is None,
        },
        r matches Some(g) ==> MAX_NORMAL_GAP_DAYS < g <= 200_000_000,
{
    match (parse_day_number(prev_date), parse_day_number(date)) {
        (Some(a), Some(b)) => {
            let gap = b - a;
            if gap > MAX_NORMAL_GAP_DAYS {
                Some(gap)
            } else {
                None
            }
        },
        _ => None,
    }
}

/// Rough count of trading days missing in a suspicious gap: the days beyond
/// a normal weekend.
pub fn missing_days_in_gap(gap: i64) -> (r: usize)
    requires
        MAX_NORMAL_GAP_DAYS < gap <= 200_000_000,
    ensures
        r == gap - WEEKEND_DAYS,
{
    (gap - WEEKEND_DAYS) as usize
}

/// Keeps the first `MAX_WARNINGS` warnings.
pub fn cap_warnings(warnings: &mut Vec<DataWarning>)
    ensures
        final(warnings)@ == if old(warnings)@.len() <= MAX_WARNINGS {
            old(warnings)@
        } else {
            old(warnings)@.take(MAX_WARNINGS as int)
        },
{
    warnings.truncate(MAX_WARNINGS);
}

} // verus!
