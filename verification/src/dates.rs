//! Calendar dates written "YYYY-MM-DD".
use vstd::arithmetic::div_mod::{lemma_add_mod_noop, lemma_mod_twice};
use vstd::prelude::*;

verus! {

/// The day number (days from 0001-01-01, counting that day as 1) of a
/// "YYYY-MM-DD" string, as `chrono` parses it; `None` when it does not parse.
pub uninterp spec fn day_number(s: Seq<char>) -> Option<int>;

/// The ISO (year, week) of a "YYYY-MM-DD" string as `chrono` computes it,
/// `None` when it does not parse.
pub uninterp spec fn iso_year_week(s: Seq<char>) -> Option<(int, int)>;

pub open spec fn opt_i64(o: Option<i64>) -> Option<int> {
    match o {
        Some(x) => Some(x as int),
        None => None,
    }
}

pub open spec fn opt_year_week(o: Option<(i32, u32)>) -> Option<(int, int)> {
    match o {
        Some((y, w)) => Some((y as int, w as int)),
        None => None,
    }
}

/// `year * 100 + week` computed in `u32` with wrap-around.
pub open spec fn week_code(year: int, week: int) -> int {
    ((year as u32) as int * 100 + week) % 0x1_0000_0000
}

/// Calls `chrono::NaiveDate::parse_from_str(s, "%Y-%m-%d")` and, on success,
/// `num_days_from_ce`. Claims: the result is the named day number, and its
/// magnitude is at most 100,000,000 (chrono's dates span the years -262143 to
/// 262142, under 96 million days either way).
#[verifier::external_body]
pub(crate) fn parse_day_number(s: &str) -> (r: Option<i64>)
    ensures
        opt_i64(r) == day_number(s@),
        r matches Some(d) ==> -100_000_000 <= d <= 100_000_000,
{
    match chrono::NaiveDate::parse_from_str(s, "%Y-%m-%d") {
        Ok(d) => Some(chrono::Datelike::num_days_from_ce(&d) as i64),
        Err(_) => None,
    }
}

/// Calls `chrono::NaiveDate::parse_from_str(s, "%Y-%m-%d")` and, on success,
/// `iso_week()`. Claims: the result is the named (year, week), with the week
/// between 1 and 53.
#[verifier::external_body]
fn parse_iso_week(s: &str) -> (r: Option<(i32, u32)>)
    ensures
        opt_year_week(r) == iso_year_week(s@),
        r matches Some((y, w)) ==> 1 <= w <= 53,
{
    match chrono::NaiveDate::parse_from_str(s, "%Y-%m-%d") {
        Ok(d) => {
            let w = chrono::Datelike::iso_week(&d);
            Some((w.year(), w.week()))
        },
        Err(_) => None,
    }
}

/// Days from `from` to `to`; 0 when either date does not parse.
pub fn date_diff(from: &str, to: &str) -> (r: i64)
    ensures
        r == (match (day_number(from@), day_number(to@)) {
            (Some(a), Some(b)) => b - a,
            _ => 0,
        }),
{
    match (parse_day_number(from), parse_day_number(to)) {
        (Some(a), Some(b)) => b - a,
        _ => 0,
    }
}

/// The ISO week code `year * 100 + week` of a date (in `u32`, wrapping),
/// so that weeks of different years differ; 0 when it does not parse.
pub fn iso_week_number(date: &str) -> (r: u32)
    ensures
        r == (match iso_year_week(date@) {
            Some((y, w)) => week_code(y, w),
            None => 0,
        }),
{
    match parse_iso_week(date) {
        Some((y, w)) => {
            let code = (y as u32).wrapping_mul(100).wrapping_add(w);
            proof {
                let x = (y as u32) as int;
                lemma_add_mod_noop(x * 100, w as int, 0x1_0000_0000);
                lemma_mod_twice(w as int, 0x1_0000_0000);
                assert(code == week_code(y as int, w as int));
            }
            code
        },
        None => 0,
    }
}

} // verus!
