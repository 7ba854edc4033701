//! Winning and losing streaks of a sequence of trades.
use crate::decimal::{units, Decimal};
use vstd::prelude::*;

verus! {

/// Every trade in `[a, b)` made money.
pub open spec fn all_wins(pnl: Seq<Decimal>, a: int, b: int) -> bool {
    forall|k: int| a <= k < b ==> units(#[trigger] pnl[k]@) > 0
}

/// Every trade in `[a, b)` lost money.
pub open spec fn all_losses(pnl: Seq<Decimal>, a: int, b: int) -> bool {
    forall|k: int| a <= k < b ==> units(#[trigger] pnl[k]@) < 0
}

/// Longest runs of consecutive winning and losing trades. A trade that
/// neither wins nor loses ends both kinds of run.
pub fn max_consecutive_streaks(profit_losses: &Vec<Decimal>) -> (r: (i32, i32))
    requires
        profit_losses@.len() <= i32::MAX,
    ensures
        forall|a: int, b: int|
            0 <= a <= b <= profit_losses@.len() && all_wins(profit_losses@, a, b) ==> b - a <= r.0,
        forall|a: int, b: int|
            0 <= a <= b <= profit_losses@.len() && all_losses(profit_losses@, a, b) ==> b - a
                <= r.1,
        r.0 == 0 || exists|a: int, b: int|
            0 <= a <= b <= profit_losses@.len() && b - a == r.0 && #[trigger] all_wins(
                profit_losses@,
                a,
                b,
            ),
        r.1 == 0 || exists|a: int, b: int|
            0 <= a <= b <= profit_losses@.len() && b - a == r.1 && #[trigger] all_losses(
                profit_losses@,
                a,
                b,
            ),
{
    let ghost s = profit_losses@;
    let zero = Decimal::zero();
    let mut max_w: i32 = 0;
    let mut max_l: i32 = 0;
    let mut w: i32 = 0;
    let mut l: i32 = 0;
    let mut i: usize = 0;
    while i < profit_losses.len()
        invariant
            s == profit_losses@,
            s.len() <= i32::MAX,
            zero@ == (0int, 0int),
            0 <= i <= s.len(),
            0 <= w <= i,
            0 <= l <= i,
            0 <= max_w <= i,
            0 <= max_l <= i,
            w <= max_w,
            l <= max_l,
            all_wins(s, i - w, i as int),
            all_losses(s, i - l, i as int),
            i - w > 0 ==> units(s[i - w - 1]@) <= 0,
            i - l > 0 ==> units(s[i - l - 1]@) >= 0,
            forall|a: int, b: int| 0 <= a <= b <= i && all_wins(s, a, b) ==> b - a <= max_w,
            forall|a: int, b: int| 0 <= a <= b <= i && all_losses(s, a, b) ==> b - a <= max_l,
            max_w == 0 || exists|a: int, b: int|
                0 <= a <= b <= i && b - a == max_w && #[trigger] all_wins(s, a, b),
            max_l == 0 || exists|a: int, b: int|
                0 <= a <= b <= i && b - a == max_l && #[trigger] all_losses(s, a, b),
        decreases s.len() - i,
    {
        let p = profit_losses[i];
        if p.gt(&zero) {
            w = w + 1;
            l = 0;
            if w > max_w {
                max_w = w;
            }
        } else if p.lt(&zero) {
            l = l + 1;
            w = 0;
            if l > max_l {
                max_l = l;
            }
        } else {
            w = 0;
            l = 0;
        }
        proof {
            let n = i + 1;
            assert forall|a: int, b: int| 0 <= a <= b <= n && all_wins(s, a, b) implies b - a
                <= max_w by {
                if b == n && a < b {
                    assert(units(s[i as int]@) > 0);
                    if a < n - w {
                        assert(units(s[n - w - 1]@) <= 0);
                        assert(units(s[n - w - 1]@) > 0);
                    }
                } else if b == n {
                } else {
                    assert(b <= i);
                }
            }
            assert forall|a: int, b: int| 0 <= a <= b <= n && all_losses(s, a, b) implies b - a
                <= max_l by {
                if b == n && a < b {
                    assert(units(s[i as int]@) < 0);
                    if a < n - l {
                        assert(units(s[n - l - 1]@) >= 0);
                        assert(units(s[n - l - 1]@) < 0);
                    }
                } else if b == n {
                } else {
                    assert(b <= i);
                }
            }
            if max_w > 0 && max_w == w && units(p@) > 0 {
                assert(all_wins(s, n - max_w, n as int));
            }
            if max_l > 0 && max_l == l && units(p@) < 0 {
                assert(all_losses(s, n - max_l, n as int));
            }
        }
        i = i + 1;
    }
    (max_w, max_l)
}

// ---------------------------------------------------------------------------
// Runs of wins and losses
// ---------------------------------------------------------------------------

/// The maximal runs of equal outcomes in `s`, as (outcome, length), in order.
pub open spec fn runs_of(s: Seq<bool>) -> Seq<(bool, int)>
    decreases s.len(),
{
    if s.len() == 0 {
        Seq::empty()
    } else {
        let r = runs_of(s.drop_last());
        if r.len() > 0 && r.last().0 == s.last() {
            r.update(r.len() - 1, (s.last(), r.last().1 + 1))
        } else {
            r.push((s.last(), 1))
        }
    }
}

/// The outcomes that a list of runs spells out.
pub open spec fn expand_runs(r: Seq<(bool, int)>) -> Seq<bool>
    decreases r.len(),
{
    if r.len() == 0 {
        Seq::empty()
    } else {
        expand_runs(r.drop_last()) + Seq::new(r.last().1 as nat, |i: int| r.last().0)
    }
}

/// Number of positions `i >= 1` with `s[i - 1] == prev` (and, when
/// `require_win`, `s[i]` a win).
pub open spec fn transitions(s: Seq<bool>, prev: bool, require_win: bool) -> int
    decreases s.len(),
{
    if s.len() < 2 {
        0
    } else {
        transitions(s.drop_last(), prev, require_win) + if s[s.len() - 2] == prev && (!require_win
            || s.last()) {
            1int
        } else {
            0int
        }
    }
}

/// Streak structure of a sequence of trade outcomes (true = win).
pub struct StreakRuns {
    /// The maximal runs, in order: (is_win, length).
    pub runs: Vec<(bool, i32)>,
    /// Wins that follow a win.
    pub win_after_win: i32,
    /// Trades that follow a win.
    pub total_after_win: i32,
    /// Wins that follow a loss.
    pub win_after_loss: i32,
    /// Trades that follow a loss.
    pub total_after_loss: i32,
}

pub open spec fn runs_view(r: Seq<(bool, i32)>) -> Seq<(bool, int)> {
    r.map_values(|x: (bool, i32)| (x.0, x.1 as int))
}

/// Whether each trade made money (a zero result counts as a loss).
pub fn winning_trades(profit_losses: &Vec<Decimal>) -> (r: Vec<bool>)
    ensures
        r@.len() == profit_losses@.len(),
        forall|i: int| 0 <= i < r@.len() ==> r@[i] == (units(profit_losses@[i]@) > 0),
{
    let zero = Decimal::zero();
    let mut r: Vec<bool> = Vec::new();
    let mut i: usize = 0;
    while i < profit_losses.len()
        invariant
            i <= profit_losses@.len(),
            zero@ == (0int, 0int),
            r@.len() == i,
            forall|j: int| 0 <= j < i ==> r@[j] == (units(profit_losses@[j]@) > 0),
        decreases profit_losses@.len() - i,
    {
        r.push(profit_losses[i].gt(&zero));
        i = i + 1;
    }
    r
}

/// Splits outcomes into maximal runs and counts what follows a win and
/// what follows a loss.
pub fn streak_runs(outcomes: &Vec<bool>) -> (r: StreakRuns)
    requires
        outcomes@.len() <= i32::MAX,
    ensures
        runs_view(r.runs@) == runs_of(outcomes@),
        r.win_after_win == transitions(outcomes@, true, true),
        r.total_after_win == transitions(outcomes@, true, false),
        r.win_after_loss == transitions(outcomes@, false, true),
        r.total_after_loss == transitions(outcomes@, false, false),
{
    let ghost s = outcomes@;
    let mut runs: Vec<(bool, i32)> = Vec::new();
    let mut win_after_win: i32 = 0;
    let mut total_after_win: i32 = 0;
    let mut win_after_loss: i32 = 0;
    let mut total_after_loss: i32 = 0;
    let mut i: usize = 0;
    while i < outcomes.len()
        invariant
            s == outcomes@,
            s.len() <= i32::MAX,
            0 <= i <= s.len(),
            runs_view(runs@) == runs_of(s.take(i as int)),
            forall|k: int| 0 <= k < runs@.len() ==> 0 < (#[trigger] runs@[k]).1 <= i,
            0 <= win_after_win == transitions(s.take(i as int), true, true) <= i,
            0 <= total_after_win == transitions(s.take(i as int), true, false) <= i,
            0 <= win_after_loss == transitions(s.take(i as int), false, true) <= i,
            0 <= total_after_loss == transitions(s.take(i as int), false, false) <= i,
        decreases s.len() - i,
    {
        let is_win = outcomes[i];
        proof {
            assert(s.take(i + 1).drop_last() == s.take(i as int));
            assert(s.take(i + 1).last() == is_win);
            lemma_transitions_bounded(s.take(i as int), true, true);
            lemma_transitions_bounded(s.take(i as int), true, false);
            lemma_transitions_bounded(s.take(i as int), false, true);
            lemma_transitions_bounded(s.take(i as int), false, false);
        }
        if i > 0 {
            let prev_was_win = outcomes[i - 1];
            proof {
                assert(s.take(i + 1)[i - 1] == prev_was_win);
            }
            if prev_was_win {
                total_after_win = total_after_win + 1;
                if is_win {
                    win_after_win = win_after_win + 1;
                }
            } else {
                total_after_loss = total_after_loss + 1;
                if is_win {
                    win_after_loss = win_after_loss + 1;
                }
            }
        }
        let n = runs.len();
        if n > 0 && runs[n - 1].0 == is_win {
            let (_, len) = runs[n - 1];
            runs.set(n - 1, (is_win, len + 1));
        } else {
            runs.push((is_win, 1));
        }
        proof {
            assert(runs_view(runs@) =~= runs_of(s.take(i + 1)));
        }
        i = i + 1;
    }
    proof {
        assert(s.take(s.len() as int) == s);
    }
    StreakRuns { runs, win_after_win, total_after_win, win_after_loss, total_after_loss }
}

proof fn lemma_transitions_bounded(s: Seq<bool>, prev: bool, require_win: bool)
    ensures
        0 <= transitions(s, prev, require_win) <= if s.len() == 0 {
            0
        } else {
            s.len() - 1
        },
    decreases s.len(),
{
    if s.len() >= 2 {
        lemma_transitions_bounded(s.drop_last(), prev, require_win);
    }
}

/// Number of runs of kind `win` with length `len`.
pub open spec fn runs_with_length(r: Seq<(bool, int)>, win: bool, len: int) -> int
    decreases r.len(),
{
    if r.len() == 0 {
        0
    } else {
        runs_with_length(r.drop_last(), win, len) + if r.last().0 == win && r.last().1 == len {
            1int
        } else {
            0int
        }
    }
}

/// Longest run of kind `win`, 0 when there is none.
pub open spec fn longest_run(r: Seq<(bool, int)>, win: bool) -> int
    decreases r.len(),
{
    if r.len() == 0 {
        0
    } else {
        let m = longest_run(r.drop_last(), win);
        if r.last().0 == win && r.last().1 > m {
            r.last().1
        } else {
            m
        }
    }
}

/// Number of runs of kind `win`.
pub open spec fn run_count(r: Seq<(bool, int)>, win: bool) -> int
    decreases r.len(),
{
    if r.len() == 0 {
        0
    } else {
        run_count(r.drop_last(), win) + if r.last().0 == win {
            1int
        } else {
            0int
        }
    }
}

/// Total length of the runs of kind `win`.
pub open spec fn run_total(r: Seq<(bool, int)>, win: bool) -> int
    decreases r.len(),
{
    if r.len() == 0 {
        0
    } else {
        run_total(r.drop_last(), win) + if r.last().0 == win {
            r.last().1
        } else {
            0int
        }
    }
}

/// Summary of the runs of one kind (wins or losses).
#[derive(Debug, Clone, Copy)]
pub struct RunSummary {
    /// Longest run.
    pub longest: i32,
    /// Number of runs.
    pub count: i32,
    /// Their total length (the number of such trades).
    pub total: i32,
}

/// Longest run, number of runs and total length of the runs of kind `win`.
pub fn summarize_runs(runs: &Vec<(bool, i32)>, win: bool) -> (r: RunSummary)
    requires
        forall|k: int| 0 <= k < runs@.len() ==> 0 < (#[trigger] runs@[k]).1,
        run_total(runs_view(runs@), win) <= i32::MAX,
        runs@.len() <= i32::MAX,
    ensures
        r.longest == longest_run(runs_view(runs@), win),
        r.count == run_count(runs_view(runs@), win),
        r.total == run_total(runs_view(runs@), win),
{
    let ghost rv = runs_view(runs@);
    let mut longest: i32 = 0;
    let mut count: i32 = 0;
    let mut total: i32 = 0;
    let mut i: usize = 0;
    while i < runs.len()
        invariant
            rv == runs_view(runs@),
            forall|k: int| 0 <= k < runs@.len() ==> 0 < (#[trigger] runs@[k]).1,
            run_total(rv, win) <= i32::MAX,
            runs@.len() <= i32::MAX,
            i <= runs@.len(),
            longest == longest_run(rv.take(i as int), win),
            count == run_count(rv.take(i as int), win),
            total == run_total(rv.take(i as int), win),
            0 <= count <= i,
            0 <= total,
        decreases runs@.len() - i,
    {
        let (w, len) = runs[i];
        proof {
            assert(rv.take(i + 1).drop_last() =~= rv.take(i as int));
            assert(rv.take(i + 1).last() == (w, len as int));
            lemma_run_total_prefix(rv, i + 1, win);
        }
        if w == win {
            count = count + 1;
            total = total + len;
            if len > longest {
                longest = len;
            }
        }
        i = i + 1;
    }
    proof {
        assert(rv.take(runs@.len() as int) =~= rv);
    }
    RunSummary { longest, count, total }
}

proof fn lemma_run_total_prefix(r: Seq<(bool, int)>, i: int, win: bool)
    requires
        0 <= i <= r.len(),
        forall|k: int| 0 <= k < r.len() ==> 0 < (#[trigger] r[k]).1,
    ensures
        0 <= run_total(r.take(i), win) <= run_total(r, win),
    decreases r.len(),
{
    if r.len() > 0 {
        if i == r.len() {
            assert(r.take(i) =~= r);
            lemma_run_total_prefix(r.drop_last(), r.len() - 1, win);
            assert(r.drop_last().take(r.len() - 1) =~= r.drop_last());
        } else {
            assert(r.drop_last().take(i) =~= r.take(i));
            lemma_run_total_prefix(r.drop_last(), i, win);
        }
    }
}

/// The distinct lengths of the runs of kind `win`, each with how many runs
/// have it, in the order the lengths first occur.
pub fn run_length_counts(runs: &Vec<(bool, i32)>, win: bool) -> (r: Vec<(i32, i32)>)
    requires
        runs@.len() <= i32::MAX,
    ensures
        forall|a: int, b: int| 0 <= a < b < r@.len() ==> r@[a].0 != r@[b].0,
        forall|k: int|
            0 <= k < r@.len() ==> (#[trigger] r@[k]).1 == runs_with_length(runs_view(runs@), win, r@[k].0 as int)
                && r@[k].1 > 0,
        forall|j: int|
            0 <= j < runs@.len() && runs@[j].0 == win ==> exists|k: int|
                0 <= k < r@.len() && #[trigger] r@[k].0 == runs@[j].1,
{
    let ghost rv = runs_view(runs@);
    let mut out: Vec<(i32, i32)> = Vec::new();
    let mut i: usize = 0;
    while i < runs.len()
        invariant
            rv == runs_view(runs@),
            runs@.len() <= i32::MAX,
            i <= runs@.len(),
            forall|a: int, b: int| 0 <= a < b < out@.len() ==> out@[a].0 != out@[b].0,
            forall|k: int|
                0 <= k < out@.len() ==> (#[trigger] out@[k]).1 == runs_with_length(rv.take(i as int), win, out@[k].0 as int)
                    && 0 < out@[k].1 <= i,
            forall|len: int|
                runs_with_length(rv.take(i as int), win, len) > 0 ==> exists|k: int|
                    0 <= k < out@.len() && #[trigger] out@[k].0 == len,
        decreases runs@.len() - i,
    {
        let (w, len) = runs[i];
        let ghost prev = rv.take(i as int);
        let ghost next = rv.take(i + 1);
        proof {
            assert(next.drop_last() =~= prev);
            assert(next.last() == (w, len as int));
        }
        if w == win {
            let mut k: usize = 0;
            let mut pos: usize = out.len();
            while k < out.len()
                invariant
                    k <= out@.len(),
                    pos == out@.len() || (pos < out@.len() && out@[pos as int].0 == len),
                    pos == out@.len() ==> forall|m: int| 0 <= m < k ==> out@[m].0 != len,
                decreases out@.len() - k,
            {
                if pos == out.len() && out[k].0 == len {
                    pos = k;
                }
                k = k + 1;
            }
            let found = pos < out.len();
            let k = pos;
            let ghost before = out@;
            if found {
                let (l0, c0) = out[k];
                out.set(k, (l0, c0 + 1));
                proof {
                    assert forall|m: int| 0 <= m < out@.len() implies (#[trigger] out@[m]).1
                        == runs_with_length(next, win, out@[m].0 as int) && 0 < out@[m].1 <= i + 1 by {
                        if m != k {
                            assert(out@[m] == before[m]);
                            assert(before[m].0 != len);
                        }
                    }
                    assert forall|a: int, b: int| 0 <= a < b < out@.len() implies out@[a].0 != out@[b].0 by {
                        assert(out@[a].0 == before[a].0);
                        assert(out@[b].0 == before[b].0);
                    }
                    assert forall|l: int| runs_with_length(next, win, l) > 0 implies exists|m: int|
                        0 <= m < out@.len() && #[trigger] out@[m].0 == l by {
                        if l == len {
                            assert(out@[k as int].0 == l);
                        } else {
                            assert(runs_with_length(prev, win, l) > 0);
                            let m = choose|m: int| 0 <= m < before.len() && #[trigger] before[m].0 == l;
                            assert(out@[m].0 == l);
                        }
                    }
                }
            } else {
                proof {
                    assert(forall|m: int| 0 <= m < before.len() ==> before[m].0 != len);
                    assert(runs_with_length(prev, win, len as int) == 0) by {
                        lemma_runs_with_length_nonneg(prev, win, len as int);
                        if runs_with_length(prev, win, len as int) > 0 {
                            assert(runs_with_length(rv.take(i as int), win, len as int) > 0);
                            assert(exists|m: int| 0 <= m < out@.len() && #[trigger] out@[m].0 == len as int);
                            let m = choose|m: int| 0 <= m < out@.len() && #[trigger] out@[m].0 == len as int;
                            assert(before[m].0 != len);
                        }
                    }
                }
                out.push((len, 1));
                proof {
                    assert forall|m: int| 0 <= m < out@.len() implies (#[trigger] out@[m]).1
                        == runs_with_length(next, win, out@[m].0 as int) && 0 < out@[m].1 <= i + 1 by {
                        if m < before.len() {
                            assert(out@[m] == before[m]);
                            assert(before[m].0 != len);
                        }
                    }
                    assert forall|a: int, b: int| 0 <= a < b < out@.len() implies out@[a].0 != out@[b].0 by {
                        if b == before.len() {
                            assert(out@[a] == before[a]);
                        } else {
                            assert(out@[a] == before[a]);
                            assert(out@[b] == before[b]);
                        }
                    }
                    assert forall|l: int| runs_with_length(next, win, l) > 0 implies exists|m: int|
                        0 <= m < out@.len() && #[trigger] out@[m].0 == l by {
                        if l == len {
                            assert(out@[before.len() as int].0 == l);
                        } else {
                            assert(runs_with_length(prev, win, l) > 0);
                            let m = choose|m: int| 0 <= m < before.len() && #[trigger] before[m].0 == l;
                            assert(out@[m].0 == l);
                        }
                    }
                }
            }
        } else {
            proof {
                assert forall|l: int| runs_with_length(next, win, l) > 0 implies exists|m: int|
                    0 <= m < out@.len() && #[trigger] out@[m].0 == l by {
                    assert(runs_with_length(prev, win, l) > 0);
                }
            }
        }
        i = i + 1;
    }
    proof {
        assert(rv.take(runs@.len() as int) =~= rv);
        assert forall|j: int| 0 <= j < runs@.len() && runs@[j].0 == win implies exists|k: int|
            0 <= k < out@.len() && #[trigger] out@[k].0 == runs@[j].1 by {
            lemma_runs_with_length_positive(rv, j);
        }
    }
    out
}

proof fn lemma_runs_with_length_positive(r: Seq<(bool, int)>, j: int)
    requires
        0 <= j < r.len(),
    ensures
        runs_with_length(r, r[j].0, r[j].1) > 0,
    decreases r.len(),
{
    if j < r.len() - 1 {
        lemma_runs_with_length_positive(r.drop_last(), j);
        assert(r.drop_last()[j] == r[j]);
        lemma_runs_with_length_nonneg(r.drop_last(), r[j].0, r[j].1);
    } else {
        lemma_runs_with_length_nonneg(r.drop_last(), r[j].0, r[j].1);
    }
}

proof fn lemma_runs_with_length_nonneg(r: Seq<(bool, int)>, win: bool, len: int)
    ensures
        runs_with_length(r, win, len) >= 0,
    decreases r.len(),
{
    if r.len() > 0 {
        lemma_runs_with_length_nonneg(r.drop_last(), win, len);
    }
}

// ---------------------------------------------------------------------------
// Laws
// ---------------------------------------------------------------------------

/// The runs spell out the outcomes: read back in order they give the
/// outcomes they came from, every run is non-empty, and neighbouring runs differ.
pub proof fn law_runs_partition_outcomes(s: Seq<bool>)
    ensures
        expand_runs(runs_of(s)) == s,
        forall|k: int| 0 <= k < runs_of(s).len() ==> (#[trigger] runs_of(s)[k]).1 > 0,
        forall|k: int|
            0 < k < runs_of(s).len() ==> (#[trigger] runs_of(s)[k]).0 != runs_of(s)[k - 1].0,
    decreases s.len(),
{
    if s.len() > 0 {
        let t = s.drop_last();
        law_runs_partition_outcomes(t);
        let r = runs_of(t);
        let x = s.last();
        if r.len() > 0 && r.last().0 == x {
            let r2 = r.update(r.len() - 1, (x, r.last().1 + 1));
            assert(r2.drop_last() == r.drop_last());
            assert(expand_runs(r) == expand_runs(r.drop_last()) + Seq::new(
                r.last().1 as nat,
                |i: int| r.last().0,
            ));
            assert(Seq::new(r2.last().1 as nat, |i: int| r2.last().0) == Seq::new(
                r.last().1 as nat,
                |i: int| r.last().0,
            ).push(x));
            assert(expand_runs(r2) == expand_runs(r) + seq![x]);
            assert(s == t.push(x));
            assert forall|k: int| 0 < k < r2.len() implies (#[trigger] r2[k]).0 != r2[k - 1].0 by {
                if k == r2.len() - 1 {
                    assert(r2[k].0 == r[k].0);
                } else {
                    assert(r2[k] == r[k]);
                    assert(r2[k - 1] == r[k - 1]);
                }
            }
        } else {
            let r2 = r.push((x, 1));
            assert(r2.drop_last() == r);
            assert(Seq::new(1nat, |i: int| x) == seq![x]);
            assert(s == t.push(x));
            assert forall|k: int| 0 < k < r2.len() implies (#[trigger] r2[k]).0 != r2[k - 1].0 by {
                if k < r2.len() - 1 {
                    assert(r2[k] == r[k]);
                    assert(r2[k - 1] == r[k - 1]);
                }
            }
        }
    }
}

/// Every trade after the first follows either a win or a loss:
/// `total_after_win + total_after_loss = n - 1` for `n >= 1` trades, and
/// the wins counted after each kind never exceed the trades counted there.
pub proof fn law_transitions_cover_all_trades(s: Seq<bool>)
    ensures
        s.len() >= 1 ==> transitions(s, true, false) + transitions(s, false, false) == s.len() - 1,
        transitions(s, true, true) <= transitions(s, true, false),
        transitions(s, false, true) <= transitions(s, false, false),
    decreases s.len(),
{
    if s.len() >= 2 {
        law_transitions_cover_all_trades(s.drop_last());
    }
}

} // verus!
