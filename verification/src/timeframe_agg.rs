//! Aggregating daily price bars into weekly bars.
use crate::dates::{iso_week_number, iso_year_week, week_code};
use crate::decimal::{lemma_units_bounds, units, valid_repr, Decimal};
use vstd::prelude::*;

verus! {

/// The prices of one daily bar. (Volume is a float and is summed by the
/// caller over each week's index range.)
#[derive(Debug)]
pub struct PriceBar {
    pub date: String,
    pub open: Decimal,
    pub high: Decimal,
    pub low: Decimal,
    pub close: Decimal,
}

/// One weekly bar built from the daily bars `first..end` of the input.
#[derive(Debug)]
pub struct WeeklyBar {
    /// The date of the week's last daily bar.
    pub date: String,
    pub open: Decimal,
    pub high: Decimal,
    pub low: Decimal,
    pub close: Decimal,
    /// Index of the week's first daily bar.
    pub first: usize,
    /// One past the index of the week's last daily bar.
    pub end: usize,
}

/// The week code that `iso_week_number` gives a bar's date.
pub open spec fn bar_week(b: PriceBar) -> int {
    match iso_year_week(b.date@) {
        Some((y, w)) => week_code(y, w),
        None => 0,
    }
}

/// The week code of each bar.
pub open spec fn week_codes(bars: Seq<PriceBar>) -> Seq<int> {
    bars.map_values(|b: PriceBar| bar_week(b))
}

/// The maximal runs `[start, end)` of equal consecutive codes, in order.
pub open spec fn code_runs(c: Seq<int>) -> Seq<(int, int)>
    decreases c.len(),
{
    if c.len() == 0 {
        Seq::empty()
    } else {
        let n = c.len() as int;
        let g = code_runs(c.drop_last());
        if g.len() > 0 && c[n - 2] == c[n - 1] {
            g.update(g.len() - 1, (g.last().0, n))
        } else {
            g.push((n - 1, n))
        }
    }
}

/// The maximal runs `[start, end)` of consecutive bars in the same week, in
/// order.
pub open spec fn week_groups(bars: Seq<PriceBar>) -> Seq<(int, int)> {
    code_runs(week_codes(bars))
}

/// `a.max(b)`: `a` when it is larger, else `b`.
pub open spec fn max_of(a: Decimal, b: Decimal) -> Decimal {
    if units(a@) > units(b@) {
        a
    } else {
        b
    }
}

/// `a.min(b)`: `b` when it is smaller, else `a`.
pub open spec fn min_of(a: Decimal, b: Decimal) -> Decimal {
    if units(b@) < units(a@) {
        b
    } else {
        a
    }
}

/// The highs of bars `[start, end)` folded with `max` from the smallest
/// decimal.
pub open spec fn fold_high(bars: Seq<PriceBar>, start: int, end: int) -> Decimal
    decreases end - start,
{
    if end <= start {
        Decimal::lowest()
    } else {
        max_of(fold_high(bars, start, end - 1), bars[end - 1].high)
    }
}

/// The lows of bars `[start, end)` folded with `min` from the largest decimal.
pub open spec fn fold_low(bars: Seq<PriceBar>, start: int, end: int) -> Decimal
    decreases end - start,
{
    if end <= start {
        Decimal::highest()
    } else {
        min_of(fold_low(bars, start, end - 1), bars[end - 1].low)
    }
}

/// The weekly bar of the daily bars `[start, end)`.
pub open spec fn weekly_bar_matches(w: WeeklyBar, bars: Seq<PriceBar>, start: int, end: int) -> bool {
    &&& w.first == start
    &&& w.end == end
    &&& w.date@ == bars[end - 1].date@
    &&& w.open == bars[start].open
    &&& w.close == bars[end - 1].close
    &&& w.high == fold_high(bars, start, end)
    &&& w.low == fold_low(bars, start, end)
}

proof fn lemma_code_runs_shape(c: Seq<int>)
    ensures
        c.len() == 0 <==> code_runs(c).len() == 0,
        c.len() > 0 ==> code_runs(c).last().1 == c.len(),
        c.len() > 0 ==> 0 <= code_runs(c).last().0 < c.len(),
    decreases c.len(),
{
    if c.len() > 0 {
        lemma_code_runs_shape(c.drop_last());
    }
}

proof fn lemma_week_codes_prefix(bars: Seq<PriceBar>, i: int)
    requires
        0 <= i < bars.len(),
    ensures
        week_codes(bars.take(i + 1)).drop_last() == week_codes(bars.take(i)),
        week_codes(bars.take(i + 1)).len() == i + 1,
        week_codes(bars.take(i + 1))[i] == bar_week(bars[i]),
        i > 0 ==> week_codes(bars.take(i + 1))[i - 1] == bar_week(bars[i - 1]),
{
    assert(week_codes(bars.take(i + 1)).drop_last() =~= week_codes(bars.take(i)));
}

/// Groups consecutive daily bars that fall in the same ISO week and makes one
/// weekly bar of each group: the first open, the highest high, the lowest
/// low, the last close and the last date.
pub fn aggregate_to_weekly(daily_bars: &Vec<PriceBar>) -> (weekly: Vec<WeeklyBar>)
    ensures
        weekly@.len() == week_groups(daily_bars@).len(),
        forall|j: int|
            0 <= j < weekly@.len() ==> weekly_bar_matches(
                #[trigger] weekly@[j],
                daily_bars@,
                week_groups(daily_bars@)[j].0,
                week_groups(daily_bars@)[j].1,
            ),
{
    let ghost bars = daily_bars@;
    let mut weekly: Vec<WeeklyBar> = Vec::new();
    if daily_bars.len() == 0 {
        return weekly;
    }
    let mut start: usize = 0;
    let mut code: u32 = iso_week_number(daily_bars[0].date.as_str());
    let mut high: Decimal = Decimal::min_value().max(&daily_bars[0].high);
    let mut low: Decimal = Decimal::max_value().min(&daily_bars[0].low);
    let mut i: usize = 1;
    proof {
        reveal_with_fuel(code_runs, 2);
        lemma_week_codes_prefix(bars, 0);
        assert(week_codes(bars.take(0)) =~= Seq::<int>::empty());
        reveal_with_fuel(fold_high, 2);
        reveal_with_fuel(fold_low, 2);
        assert(fold_high(bars, 0, 1) == high);
        assert(fold_low(bars, 0, 1) == low);
    }
    while i < daily_bars.len()
        invariant
            bars == daily_bars@,
            1 <= i <= bars.len(),
            start < i,
            code == bar_week(bars[i - 1]),
            high == fold_high(bars, start as int, i as int),
            low == fold_low(bars, start as int, i as int),
            week_groups(bars.take(i as int)).len() == weekly@.len() + 1,
            week_groups(bars.take(i as int)).last() == (start as int, i as int),
            forall|j: int|
                0 <= j < weekly@.len() ==> weekly_bar_matches(
                    #[trigger] weekly@[j],
                    bars,
                    week_groups(bars.take(i as int))[j].0,
                    week_groups(bars.take(i as int))[j].1,
                ),
        decreases bars.len() - i,
    {
        let c = iso_week_number(daily_bars[i].date.as_str());
        let ghost prev = bars.take(i as int);
        let ghost next = bars.take(i + 1);
        proof {
            lemma_week_codes_prefix(bars, i as int);
            lemma_code_runs_shape(week_codes(prev));
        }
        if c == code {
            high = high.max(&daily_bars[i].high);
            low = low.min(&daily_bars[i].low);
            proof {
                let g = week_groups(prev);
                assert(week_groups(next) == g.update(g.len() - 1, (start as int, i + 1)));
                assert forall|j: int| 0 <= j < weekly@.len() implies weekly_bar_matches(
                    #[trigger] weekly@[j],
                    bars,
                    week_groups(next)[j].0,
                    week_groups(next)[j].1,
                ) by {
                    assert(week_groups(next)[j] == g[j]);
                }
            }
        } else {
            let wb = WeeklyBar {
                date: daily_bars[i - 1].date.clone(),
                open: daily_bars[start].open,
                high,
                low,
                close: daily_bars[i - 1].close,
                first: start,
                end: i,
            };
            let ghost before = weekly@;
            weekly.push(wb);
            start = i;
            high = Decimal::min_value().max(&daily_bars[i].high);
            low = Decimal::max_value().min(&daily_bars[i].low);
            proof {
                let g = week_groups(prev);
                assert(week_groups(next) == g.push((i as int, i + 1)));
                reveal_with_fuel(fold_high, 2);
                reveal_with_fuel(fold_low, 2);
                assert(fold_high(bars, i as int, i + 1) == high);
                assert(fold_low(bars, i as int, i + 1) == low);
                assert forall|j: int| 0 <= j < weekly@.len() implies weekly_bar_matches(
                    #[trigger] weekly@[j],
                    bars,
                    week_groups(next)[j].0,
                    week_groups(next)[j].1,
                ) by {
                    assert(week_groups(next)[j] == g[j]);
                    if j < before.len() {
                        assert(weekly@[j] == before[j]);
                    }
                }
            }
        }
        code = c;
        i = i + 1;
    }
    let wb = WeeklyBar {
        date: daily_bars[i - 1].date.clone(),
        open: daily_bars[start].open,
        high,
        low,
        close: daily_bars[i - 1].close,
        first: start,
        end: i,
    };
    let ghost before = weekly@;
    weekly.push(wb);
    proof {
        assert(bars.take(i as int) =~= bars);
        assert forall|j: int| 0 <= j < weekly@.len() implies weekly_bar_matches(
            #[trigger] weekly@[j],
            bars,
            week_groups(bars)[j].0,
            week_groups(bars)[j].1,
        ) by {
            if j < before.len() {
                assert(weekly@[j] == before[j]);
            }
        }
    }
    weekly
}

// ---------------------------------------------------------------------------
// Laws
// ---------------------------------------------------------------------------

proof fn lemma_code_runs_bounds_at(c: Seq<int>, j: int)
    requires
        0 <= j < code_runs(c).len(),
    ensures
        0 <= code_runs(c)[j].0 < code_runs(c)[j].1 <= c.len(),
        j == 0 ==> code_runs(c)[j].0 == 0,
        j > 0 ==> code_runs(c)[j].0 >= 1,
        j + 1 < code_runs(c).len() ==> code_runs(c)[j].1 == code_runs(c)[j + 1].0,
    decreases c.len(),
{
    let n = c.len() as int;
    let prev = c.drop_last();
    lemma_code_runs_shape(c);
    lemma_code_runs_shape(prev);
    let gp = code_runs(prev);
    let g = code_runs(c);
    if gp.len() > 0 && c[n - 2] == c[n - 1] {
        assert(g == gp.update(gp.len() - 1, (gp.last().0, n)));
        lemma_code_runs_bounds_at(prev, j);
    } else {
        assert(g == gp.push((n - 1, n)));
        if j < gp.len() {
            lemma_code_runs_bounds_at(prev, j);
        } else if j > 0 {
            lemma_code_runs_bounds_at(prev, j - 1);
        }
    }
}

proof fn lemma_code_runs_constant_at(c: Seq<int>, j: int, k: int)
    requires
        0 <= j < code_runs(c).len(),
        code_runs(c)[j].0 <= k < code_runs(c)[j].1,
    ensures
        c[k] == c[code_runs(c)[j].0],
    decreases c.len(),
{
    let n = c.len() as int;
    let prev = c.drop_last();
    lemma_code_runs_shape(c);
    lemma_code_runs_shape(prev);
    let gp = code_runs(prev);
    let g = code_runs(c);
    if gp.len() > 0 && c[n - 2] == c[n - 1] {
        assert(g == gp.update(gp.len() - 1, (gp.last().0, n)));
        if j < gp.len() - 1 {
            lemma_code_runs_bounds_at(prev, j);
            lemma_code_runs_constant_at(prev, j, k);
        } else if k == n - 1 {
            lemma_code_runs_constant_at(prev, j, n - 2);
        } else {
            lemma_code_runs_constant_at(prev, j, k);
        }
    } else {
        assert(g == gp.push((n - 1, n)));
        if j < gp.len() {
            lemma_code_runs_bounds_at(prev, j);
            lemma_code_runs_constant_at(prev, j, k);
        }
    }
}

proof fn lemma_code_runs_boundary_at(c: Seq<int>, j: int)
    requires
        0 < j < code_runs(c).len(),
    ensures
        c[code_runs(c)[j].0 - 1] != c[code_runs(c)[j].0],
    decreases c.len(),
{
    let n = c.len() as int;
    let prev = c.drop_last();
    lemma_code_runs_shape(c);
    lemma_code_runs_shape(prev);
    let gp = code_runs(prev);
    let g = code_runs(c);
    lemma_code_runs_bounds_at(c, j);
    if gp.len() > 0 && c[n - 2] == c[n - 1] {
        assert(g == gp.update(gp.len() - 1, (gp.last().0, n)));
        lemma_code_runs_bounds_at(prev, j);
        lemma_code_runs_boundary_at(prev, j);
        assert(g[j].0 == gp[j].0);
        assert(prev[gp[j].0 - 1] == c[gp[j].0 - 1]);
        assert(prev[gp[j].0] == c[gp[j].0]);
    } else {
        assert(g == gp.push((n - 1, n)));
        if j < gp.len() {
            lemma_code_runs_bounds_at(prev, j);
            lemma_code_runs_boundary_at(prev, j);
            assert(g[j] == gp[j]);
            assert(prev[gp[j].0 - 1] == c[gp[j].0 - 1]);
            assert(prev[gp[j].0] == c[gp[j].0]);
        } else {
            assert(g[j].0 == n - 1);
        }
    }
}

/// The weekly groups cut the daily bars into consecutive, non-empty runs
/// that cover every bar, in order.
pub proof fn law_week_groups_cover(bars: Seq<PriceBar>)
    ensures
        bars.len() > 0 ==> week_groups(bars).len() > 0 && week_groups(bars)[0].0 == 0
            && week_groups(bars).last().1 == bars.len(),
        forall|j: int|
            0 <= j < week_groups(bars).len() ==> 0 <= (#[trigger] week_groups(bars)[j]).0
                < week_groups(bars)[j].1 <= bars.len(),
        forall|j: int|
            0 <= j < week_groups(bars).len() - 1 ==> (#[trigger] week_groups(bars)[j]).1
                == week_groups(bars)[j + 1].0,
{
    let c = week_codes(bars);
    let g = week_groups(bars);
    lemma_code_runs_shape(c);
    assert forall|j: int| 0 <= j < g.len() implies 0 <= (#[trigger] g[j]).0 < g[j].1 <= bars.len() by {
        lemma_code_runs_bounds_at(c, j);
    }
    assert forall|j: int| 0 <= j < g.len() - 1 implies (#[trigger] g[j]).1 == g[j + 1].0 by {
        lemma_code_runs_bounds_at(c, j);
    }
    if bars.len() > 0 {
        lemma_code_runs_bounds_at(c, 0);
    }
}

/// Each weekly group lies in one ISO week, and a new group starts exactly
/// where the week changes from the previous bar.
pub proof fn law_week_groups_follow_weeks(bars: Seq<PriceBar>)
    ensures
        forall|j: int, k: int|
            0 <= j < week_groups(bars).len() && week_groups(bars)[j].0 <= k < week_groups(bars)[j].1
                ==> bar_week(#[trigger] bars[k]) == bar_week(bars[(#[trigger] week_groups(bars)[j]).0]),
        forall|j: int|
            0 < j < week_groups(bars).len() ==> bar_week(bars[(#[trigger] week_groups(bars)[j]).0 - 1])
                != bar_week(bars[week_groups(bars)[j].0]),
{
    let c = week_codes(bars);
    let g = week_groups(bars);
    assert forall|j: int, k: int| 0 <= j < g.len() && g[j].0 <= k < g[j].1 implies bar_week(
        #[trigger] bars[k],
    ) == bar_week(bars[(#[trigger] g[j]).0]) by {
        lemma_code_runs_bounds_at(c, j);
        lemma_code_runs_constant_at(c, j, k);
        assert(c[k] == bar_week(bars[k]));
        assert(c[g[j].0] == bar_week(bars[g[j].0]));
    }
    assert forall|j: int| 0 < j < g.len() implies bar_week(bars[(#[trigger] g[j]).0 - 1]) != bar_week(
        bars[g[j].0],
    ) by {
        lemma_code_runs_bounds_at(c, j);
        lemma_code_runs_boundary_at(c, j);
        assert(c[g[j].0 - 1] == bar_week(bars[g[j].0 - 1]));
        assert(c[g[j].0] == bar_week(bars[g[j].0]));
    }
}

/// A week's high is the highest of its daily highs (one of them, in value
/// at least every other), and its low the lowest of its daily lows.
pub proof fn law_weekly_extremes(bars: Seq<PriceBar>, start: int, end: int)
    requires
        0 <= start < end <= bars.len(),
        forall|k: int| start <= k < end ==> valid_repr((#[trigger] bars[k]).high@) && valid_repr(bars[k].low@),
    ensures
        forall|k: int| start <= k < end ==> units((#[trigger] bars[k]).high@) <= units(fold_high(bars, start, end)@),
        exists|k: int|
            start <= k < end && units(fold_high(bars, start, end)@) == units((#[trigger] bars[k]).high@),
        forall|k: int| start <= k < end ==> units(fold_low(bars, start, end)@) <= units((#[trigger] bars[k]).low@),
        exists|k: int|
            start <= k < end && units(fold_low(bars, start, end)@) == units((#[trigger] bars[k]).low@),
    decreases end - start,
{
    let h = bars[end - 1].high;
    let l = bars[end - 1].low;
    if end == start + 1 {
        Decimal::lemma_extremes();
        lemma_units_bounds(h@);
        lemma_units_bounds(l@);
        assert(fold_high(bars, start, end) == max_of(Decimal::lowest(), h));
        assert(fold_low(bars, start, end) == min_of(Decimal::highest(), l));
        assert(units(Decimal::lowest()@) <= units(h@));
        assert(units(l@) <= units(Decimal::highest()@));
        assert(fold_high(bars, start, end) == bars[end - 1].high);
        assert(units(fold_low(bars, start, end)@) == units(bars[end - 1].low@));
    } else {
        law_weekly_extremes(bars, start, end - 1);
        let kh = choose|k: int|
            start <= k < end - 1 && units(fold_high(bars, start, end - 1)@) == units((#[trigger] bars[k]).high@);
        let kl = choose|k: int|
            start <= k < end - 1 && units(fold_low(bars, start, end - 1)@) == units((#[trigger] bars[k]).low@);
        if units(fold_high(bars, start, end - 1)@) > units(h@) {
            assert(units(fold_high(bars, start, end)@) == units(bars[kh].high@));
        } else {
            assert(fold_high(bars, start, end) == bars[end - 1].high);
        }
        if units(l@) < units(fold_low(bars, start, end - 1)@) {
            assert(fold_low(bars, start, end) == bars[end - 1].low);
        } else {
            assert(units(fold_low(bars, start, end)@) == units(bars[kl].low@));
        }
    }
}

} // verus!
