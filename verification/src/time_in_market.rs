//! How much of the backtest period had positions open: the calendar days
//! covered by trades, how many positions overlapped, and the days on which
//! trades opened or closed.
use crate::dates::{day_number, parse_day_number};
use vstd::prelude::*;

verus! {

/// The entry and exit dates ("YYYY-MM-DD") of one closed trade.
#[derive(Debug)]
pub struct TradeSpan {
    pub entry_date: String,
    pub exit_date: String,
}

/// Day counts over the period from the first entry to the last exit.
#[derive(Debug, Clone, Copy)]
pub struct MarketPresence {
    /// Days on which at least one position was open.
    pub days_in_market: i64,
    /// Sum over the days of the number of open positions.
    pub total_position_days: i64,
    /// Most positions open on one day.
    pub max_concurrent_positions: i64,
    /// Distinct days on which a trade opened or closed.
    pub active_trading_days: i64,
    /// Days from the first entry to the last exit, both counted.
    pub total_calendar_days: i64,
}

/// Every trade's entry and exit date parses.
pub open spec fn all_dates_parse(trades: Seq<TradeSpan>) -> bool {
    forall|i: int|
        0 <= i < trades.len() ==> day_number((#[trigger] trades[i]).entry_date@) is Some
            && day_number(trades[i].exit_date@) is Some
}

/// The (entry day, exit day) of each trade.
pub open spec fn spans_of(trades: Seq<TradeSpan>) -> Seq<(int, int)> {
    trades.map_values(
        |t: TradeSpan| (day_number(t.entry_date@).unwrap(), day_number(t.exit_date@).unwrap()),
    )
}

/// Number of spans that hold day `d` (entry and exit days included).
pub open spec fn coverage(sp: Seq<(int, int)>, d: int) -> int
    decreases sp.len(),
{
    if sp.len() == 0 {
        0
    } else {
        coverage(sp.drop_last(), d) + if sp.last().0 <= d <= sp.last().1 {
            1int
        } else {
            0int
        }
    }
}

/// Days in `[lo, hi)` held by at least one span.
pub open spec fn covered_days(sp: Seq<(int, int)>, lo: int, hi: int) -> int
    decreases hi - lo,
{
    if hi <= lo {
        0
    } else {
        covered_days(sp, lo, hi - 1) + if coverage(sp, hi - 1) > 0 {
            1int
        } else {
            0int
        }
    }
}

/// Sum of the coverage of the days in `[lo, hi)`.
pub open spec fn position_days(sp: Seq<(int, int)>, lo: int, hi: int) -> int
    decreases hi - lo,
{
    if hi <= lo {
        0
    } else {
        position_days(sp, lo, hi - 1) + coverage(sp, hi - 1)
    }
}

/// Largest coverage of a day in `[lo, hi)`, 0 when the range is empty.
pub open spec fn peak_coverage(sp: Seq<(int, int)>, lo: int, hi: int) -> int
    decreases hi - lo,
{
    if hi <= lo {
        0
    } else {
        let p = peak_coverage(sp, lo, hi - 1);
        let c = coverage(sp, hi - 1);
        if c > p {
            c
        } else {
            p
        }
    }
}

/// The earliest entry day.
pub open spec fn first_entry(sp: Seq<(int, int)>) -> int
    decreases sp.len(),
{
    if sp.len() <= 1 {
        sp[0].0
    } else {
        let m = first_entry(sp.drop_last());
        if sp.last().0 < m {
            sp.last().0
        } else {
            m
        }
    }
}

/// The latest exit day.
pub open spec fn last_exit(sp: Seq<(int, int)>) -> int
    decreases sp.len(),
{
    if sp.len() <= 1 {
        sp[0].1
    } else {
        let m = last_exit(sp.drop_last());
        if sp.last().1 > m {
            sp.last().1
        } else {
            m
        }
    }
}

/// The days on which some trade opened or closed.
pub open spec fn active_days(sp: Seq<(int, int)>) -> Set<int> {
    sp.map_values(|s: (int, int)| s.0).to_set() + sp.map_values(|s: (int, int)| s.1).to_set()
}

/// What the trades' dates give: `None` when there are no trades or a date
/// does not parse; else the counts over `[first entry, last exit]`.
pub open spec fn presence_matches(trades: Seq<TradeSpan>, r: Option<MarketPresence>) -> bool {
    if trades.len() == 0 || !all_dates_parse(trades) {
        r is None
    } else {
        let sp = spans_of(trades);
        let lo = first_entry(sp);
        let hi = last_exit(sp) + 1;
        &&& r is Some
        &&& r->0.total_calendar_days == hi - lo
        &&& r->0.days_in_market == covered_days(sp, lo, hi)
        &&& r->0.total_position_days == position_days(sp, lo, hi)
        &&& r->0.max_concurrent_positions == peak_coverage(sp, lo, hi)
        &&& r->0.active_trading_days == active_days(sp).len()
    }
}

proof fn lemma_coverage_bounds(sp: Seq<(int, int)>, d: int)
    ensures
        0 <= coverage(sp, d) <= sp.len(),
    decreases sp.len(),
{
    if sp.len() > 0 {
        lemma_coverage_bounds(sp.drop_last(), d);
    }
}

proof fn lemma_first_last_bounds(sp: Seq<(int, int)>)
    requires
        sp.len() > 0,
        forall|i: int|
            0 <= i < sp.len() ==> -100_000_000 <= (#[trigger] sp[i]).0 <= 100_000_000 && -100_000_000
                <= sp[i].1 <= 100_000_000,
    ensures
        -100_000_000 <= first_entry(sp) <= 100_000_000,
        -100_000_000 <= last_exit(sp) <= 100_000_000,
    decreases sp.len(),
{
    if sp.len() > 1 {
        lemma_first_last_bounds(sp.drop_last());
    }
}

/// Counts the spans that hold day `d`.
fn count_covering(spans: &Vec<(i64, i64)>, d: i64) -> (c: i64)
    requires
        spans@.len() <= i32::MAX,
    ensures
        c == coverage(spans@.map_values(|s: (i64, i64)| (s.0 as int, s.1 as int)), d as int),
{
    let ghost sp = spans@.map_values(|s: (i64, i64)| (s.0 as int, s.1 as int));
    let mut c: i64 = 0;
    let mut i: usize = 0;
    while i < spans.len()
        invariant
            sp == spans@.map_values(|s: (i64, i64)| (s.0 as int, s.1 as int)),
            spans@.len() <= i32::MAX,
            i <= spans@.len(),
            c == coverage(sp.take(i as int), d as int),
            0 <= c <= i,
        decreases spans@.len() - i,
    {
        let (a, b) = spans[i];
        proof {
            assert(sp.take(i + 1).drop_last() =~= sp.take(i as int));
        }
        if a <= d && d <= b {
            c = c + 1;
        }
        i = i + 1;
    }
    proof {
        assert(sp.take(spans@.len() as int) =~= sp);
    }
    c
}

/// Calendar coverage of the trades: how many days had a position open, how
/// many positions overlapped, and on how many days trades opened or closed.
/// `None` when there are no trades or a date does not parse.
pub fn market_presence(trades: &Vec<TradeSpan>) -> (r: Option<MarketPresence>)
    requires
        trades@.len() <= i32::MAX,
    ensures
        presence_matches(trades@, r),
{
    if trades.len() == 0 {
        return None;
    }
    let ghost ts = trades@;
    // Parse every date, keeping the earliest entry and the latest exit.
    let mut spans: Vec<(i64, i64)> = Vec::new();
    let mut lo: i64 = 0;
    let mut hi: i64 = 0;
    let mut i: usize = 0;
    while i < trades.len()
        invariant
            ts == trades@,
            ts.len() <= i32::MAX,
            i <= ts.len(),
            spans@.len() == i,
            all_dates_parse(ts.take(i as int)),
            spans@.map_values(|s: (i64, i64)| (s.0 as int, s.1 as int)) == spans_of(ts.take(i as int)),
            forall|k: int|
                0 <= k < i ==> -100_000_000 <= (#[trigger] spans@[k]).0 <= 100_000_000 && -100_000_000
                    <= spans@[k].1 <= 100_000_000,
            i > 0 ==> lo == first_entry(spans_of(ts.take(i as int))),
            i > 0 ==> hi == last_exit(spans_of(ts.take(i as int))),
        decreases ts.len() - i,
    {
        let entry = parse_day_number(trades[i].entry_date.as_str());
        let exit = parse_day_number(trades[i].exit_date.as_str());
        match (entry, exit) {
            (Some(a), Some(b)) => {
                let ghost before = spans@;
                spans.push((a, b));
                proof {
                    let prev = ts.take(i as int);
                    let next = ts.take(i + 1);
                    assert(next.drop_last() =~= prev);
                    assert(spans_of(next).drop_last() =~= spans_of(prev));
                    assert(spans_of(next) =~= spans_of(prev).push((a as int, b as int)));
                    assert(spans@.map_values(|s: (i64, i64)| (s.0 as int, s.1 as int)) =~= before.map_values(
                        |s: (i64, i64)| (s.0 as int, s.1 as int),
                    ).push((a as int, b as int)));
                    assert forall|k: int| 0 <= k < next.len() implies day_number(
                        (#[trigger] next[k]).entry_date@,
                    ) is Some && day_number(next[k].exit_date@) is Some by {
                        if k < i {
                            assert(next[k] == prev[k]);
                        }
                    }
                }
                if i == 0 {
                    lo = a;
                    hi = b;
                } else {
                    if a < lo {
                        lo = a;
                    }
                    if b > hi {
                        hi = b;
                    }
                }
            },
            _ => {
                proof {
                    assert(ts[i as int] == trades@[i as int]);
                    assert(!all_dates_parse(ts));
                }
                return None;
            },
        }
        i = i + 1;
    }
    let ghost sp = spans_of(ts);
    proof {
        assert(ts.take(ts.len() as int) =~= ts);
        assert forall|k: int| 0 <= k < sp.len() implies -100_000_000 <= (#[trigger] sp[k]).0 <= 100_000_000
            && -100_000_000 <= sp[k].1 <= 100_000_000 by {
            assert(sp[k] == (spans@[k].0 as int, spans@[k].1 as int));
        }
        lemma_first_last_bounds(sp);
    }
    // Walk the days of the period, counting the positions open on each.
    let mut days_in_market: i64 = 0;
    let mut total_position_days: i64 = 0;
    let mut peak: i64 = 0;
    let n = spans.len();
    let mut d: i64 = lo;
    while d <= hi
        invariant
            sp == spans@.map_values(|s: (i64, i64)| (s.0 as int, s.1 as int)),
            n == spans@.len(),
            n <= i32::MAX,
            -100_000_000 <= lo <= 100_000_000,
            -100_000_000 <= hi <= 100_000_000,
            lo <= d <= hi + 1 || (hi < lo && d == lo),
            days_in_market == covered_days(sp, lo as int, d as int),
            total_position_days == position_days(sp, lo as int, d as int),
            peak == peak_coverage(sp, lo as int, d as int),
            0 <= days_in_market <= d - lo,
            0 <= peak <= n,
            0 <= total_position_days <= (d - lo) * n,
        decreases hi + 1 - d,
    {
        let c = count_covering(&spans, d);
        proof {
            lemma_coverage_bounds(sp, d as int);
            assert((d - lo) * n + n == (d + 1 - lo) * n) by (nonlinear_arith);
            assert((d + 1 - lo) * n <= 200_000_001 * 2_147_483_647) by (nonlinear_arith)
                requires
                    0 <= d + 1 - lo <= 200_000_001,
                    0 <= n <= 2_147_483_647,
            ;
        }
        if c > 0 {
            days_in_market = days_in_market + 1;
        }
        total_position_days = total_position_days + c;
        if c > peak {
            peak = c;
        }
        d = d + 1;
    }
    // Count the distinct entry and exit days.
    let mut seen: Vec<i64> = Vec::new();
    let mut j: usize = 0;
    let ghost entries = sp.map_values(|s: (int, int)| s.0);
    let ghost exits = sp.map_values(|s: (int, int)| s.1);
    while j < spans.len()
        invariant
            sp == spans@.map_values(|s: (i64, i64)| (s.0 as int, s.1 as int)),
            entries == sp.map_values(|s: (int, int)| s.0),
            exits == sp.map_values(|s: (int, int)| s.1),
            j <= spans@.len(),
            seen@.no_duplicates(),
            seen@.map_values(|x: i64| x as int).to_set() == entries.take(j as int).to_set()
                + exits.take(j as int).to_set(),
            seen@.len() <= 2 * j,
        decreases spans@.len() - j,
    {
        let (a, b) = spans[j];
        insert_day(&mut seen, a);
        insert_day(&mut seen, b);
        proof {
            assert(entries.take(j + 1) =~= entries.take(j as int).push(a as int));
            assert(exits.take(j + 1) =~= exits.take(j as int).push(b as int));
            entries.take(j as int).lemma_push_to_set_commute(a as int);
            exits.take(j as int).lemma_push_to_set_commute(b as int);
            assert(entries.take(j + 1).to_set() =~= entries.take(j as int).to_set().insert(a as int));
            assert(exits.take(j + 1).to_set() =~= exits.take(j as int).to_set().insert(b as int));
        }
        j = j + 1;
    }
    proof {
        assert(entries.take(sp.len() as int) =~= entries);
        assert(exits.take(sp.len() as int) =~= exits);
        lemma_distinct_len(seen@);
    }
    Some(
        MarketPresence {
            days_in_market,
            total_position_days,
            max_concurrent_positions: peak,
            active_trading_days: seen.len() as i64,
            total_calendar_days: hi - lo + 1,
        },
    )
}

/// Adds `x` to a list of distinct days unless it is already there.
fn insert_day(seen: &mut Vec<i64>, x: i64)
    requires
        old(seen)@.no_duplicates(),
    ensures
        final(seen)@.no_duplicates(),
        final(seen)@.map_values(|y: i64| y as int).to_set() == old(seen)@.map_values(|y: i64| y as int).to_set().insert(x as int),
        final(seen)@.len() <= old(seen)@.len() + 1,
{
    let ghost before = seen@;
    let mut k: usize = 0;
    while k < seen.len()
        invariant
            seen@ == before,
            before.no_duplicates(),
            k <= seen@.len(),
            forall|m: int| 0 <= m < k ==> seen@[m] != x,
        decreases seen@.len() - k,
    {
        if seen[k] == x {
            proof {
                assert(before.map_values(|y: i64| y as int)[k as int] == x as int);
                assert(before.map_values(|y: i64| y as int).to_set().insert(x as int) =~= before.map_values(
                    |y: i64| y as int,
                ).to_set());
            }
            return;
        }
        k = k + 1;
    }
    seen.push(x);
    proof {
        assert(seen@.map_values(|y: i64| y as int) =~= before.map_values(|y: i64| y as int).push(
            x as int,
        ));
        before.map_values(|y: i64| y as int).lemma_push_to_set_commute(x as int);
        assert(seen@.map_values(|y: i64| y as int).to_set() =~= before.map_values(|y: i64| y as int).to_set().insert(
            x as int,
        ));
    }
}

proof fn lemma_distinct_len(s: Seq<i64>)
    requires
        s.no_duplicates(),
    ensures
        s.map_values(|y: i64| y as int).to_set().len() == s.len(),
{
    let m = s.map_values(|y: i64| y as int);
    assert(m.no_duplicates()) by {
        assert forall|a: int, b: int| 0 <= a < m.len() && 0 <= b < m.len() && a != b implies m[a]
            != m[b] by {
            assert(s[a] != s[b]);
        }
    }
    m.unique_seq_to_set();
}

// ---------------------------------------------------------------------------
// Laws
// ---------------------------------------------------------------------------

/// Days a single trade was open: from entry to exit, both counted (none when
/// the exit comes before the entry).
pub open spec fn span_days(s: (int, int)) -> int {
    if s.1 >= s.0 {
        s.1 - s.0 + 1
    } else {
        0
    }
}

/// Sum of the trades' own open days.
pub open spec fn total_span_days(sp: Seq<(int, int)>) -> int
    decreases sp.len(),
{
    if sp.len() == 0 {
        0
    } else {
        total_span_days(sp.drop_last()) + span_days(sp.last())
    }
}

/// Days of `[lo, hi)` inside the span `s`.
spec fn days_within(s: (int, int), lo: int, hi: int) -> int
    decreases hi - lo,
{
    if hi <= lo {
        0
    } else {
        days_within(s, lo, hi - 1) + if s.0 <= hi - 1 <= s.1 {
            1int
        } else {
            0int
        }
    }
}

proof fn lemma_days_within_whole(s: (int, int), lo: int, hi: int)
    requires
        lo <= s.0,
        s.1 < hi,
    ensures
        days_within(s, lo, hi) == span_days(s),
    decreases hi - lo,
{
    if hi <= lo {
    } else if hi - 1 > s.1 {
        lemma_days_within_whole(s, lo, hi - 1);
    } else {
        lemma_days_within_prefix(s, lo, hi);
    }
}

proof fn lemma_days_within_prefix(s: (int, int), lo: int, hi: int)
    requires
        lo <= s.0,
        hi <= s.1 + 1,
    ensures
        days_within(s, lo, hi) == if hi > s.0 {
            hi - s.0
        } else {
            0
        },
    decreases hi - lo,
{
    if hi > lo {
        lemma_days_within_prefix(s, lo, hi - 1);
    }
}

proof fn lemma_position_days_push(sp: Seq<(int, int)>, s: (int, int), lo: int, hi: int)
    ensures
        position_days(sp.push(s), lo, hi) == position_days(sp, lo, hi) + days_within(s, lo, hi),
    decreases hi - lo,
{
    if hi > lo {
        lemma_position_days_push(sp, s, lo, hi - 1);
        assert(sp.push(s).drop_last() =~= sp);
    }
}

/// Counting day by day gives the same total as counting trade by trade:
/// over a period that holds every trade, the sum of the daily open positions
/// is the sum of the trades' own open days.
pub proof fn law_position_days_count_each_trade(sp: Seq<(int, int)>, lo: int, hi: int)
    requires
        forall|i: int| 0 <= i < sp.len() ==> lo <= (#[trigger] sp[i]).0 && sp[i].1 < hi,
    ensures
        position_days(sp, lo, hi) == total_span_days(sp),
    decreases sp.len(),
{
    if sp.len() == 0 {
        lemma_position_days_empty(sp, lo, hi);
    } else {
        let init = sp.drop_last();
        assert forall|i: int| 0 <= i < init.len() implies lo <= (#[trigger] init[i]).0 && init[i].1 < hi by {
            assert(init[i] == sp[i]);
        }
        law_position_days_count_each_trade(init, lo, hi);
        lemma_position_days_push(init, sp.last(), lo, hi);
        assert(init.push(sp.last()) =~= sp);
        lemma_days_within_whole(sp.last(), lo, hi);
    }
}

proof fn lemma_position_days_empty(sp: Seq<(int, int)>, lo: int, hi: int)
    requires
        sp.len() == 0,
    ensures
        position_days(sp, lo, hi) == 0,
    decreases hi - lo,
{
    if hi > lo {
        lemma_position_days_empty(sp, lo, hi - 1);
    }
}

/// Every trade lies inside the period from the first entry to the last exit.
pub proof fn law_period_holds_every_trade(sp: Seq<(int, int)>)
    requires
        sp.len() > 0,
    ensures
        forall|i: int| 0 <= i < sp.len() ==> first_entry(sp) <= (#[trigger] sp[i]).0 && sp[i].1
            <= last_exit(sp),
    decreases sp.len(),
{
    if sp.len() > 1 {
        let init = sp.drop_last();
        law_period_holds_every_trade(init);
        assert forall|i: int| 0 <= i < sp.len() implies first_entry(sp) <= (#[trigger] sp[i]).0
            && sp[i].1 <= last_exit(sp) by {
            if i < init.len() {
                assert(init[i] == sp[i]);
            }
        }
    }
}

} // verus!
