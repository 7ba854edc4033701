//! Per-user command rate limiting over fixed windows: a user may run a few
//! commands per window, and is told how long to wait once over the limit.
use vstd::prelude::*;

verus! {

/// Commands a user may run per window.
pub const RATE_LIMIT_COMMANDS: u32 = 5;

/// Length of a window in seconds.
pub const RATE_LIMIT_WINDOW_SECS: u64 = 60;

/// Above this many tracked users, windows that have ended are dropped.
pub const RATE_LIMIT_PRUNE_ABOVE: usize = 1000;

/// Nanoseconds in a second.
pub const NANOS_PER_SEC: u64 = 1_000_000_000;

/// Whole seconds from `start` to `now` on a monotonic clock counted in
/// nanoseconds, 0 when `now` is earlier.
pub open spec fn elapsed_secs(now: u64, start: u64) -> int {
    if now >= start {
        (now - start) / (NANOS_PER_SEC as int)
    } else {
        0
    }
}

/// (user, window start, commands run in the window).
pub type Window = (u64, u64, u32);

/// The windows of the users, one per user.
pub struct RateLimiter {
    pub windows: Vec<Window>,
}

pub open spec fn distinct_users(w: Seq<Window>) -> bool {
    forall|i: int, j: int| 0 <= i < j < w.len() ==> w[i].0 != w[j].0
}

/// Whether `user` has a window.
pub open spec fn has_user(w: Seq<Window>, user: u64) -> bool {
    exists|i: int| 0 <= i < w.len() && #[trigger] w[i].0 == user
}

/// The position of `user`'s window.
pub open spec fn user_index(w: Seq<Window>, user: u64) -> int {
    choose|i: int| 0 <= i < w.len() && #[trigger] w[i].0 == user
}

/// The windows that have not ended at `now`.
pub open spec fn live_windows(w: Seq<Window>, now: u64) -> Seq<Window> {
    w.filter(|x: Window| elapsed_secs(now, x.1) < RATE_LIMIT_WINDOW_SECS)
}

/// The windows after pruning: ended windows are dropped once more than
/// `RATE_LIMIT_PRUNE_ABOVE` users are tracked.
pub open spec fn pruned(w: Seq<Window>, now: u64) -> Seq<Window> {
    if w.len() > RATE_LIMIT_PRUNE_ABOVE {
        live_windows(w, now)
    } else {
        w
    }
}

/// The answer to a command by `user` at `now`, given the (pruned) windows:
/// a new window (and the command) when the user has none or theirs has
/// ended; a refusal with the seconds left when the window is full; else the
/// command, counted.
pub open spec fn decide(w: Seq<Window>, user: u64, now: u64) -> (Seq<Window>, Result<(), u64>) {
    if has_user(w, user) {
        let i = user_index(w, user);
        let e = elapsed_secs(now, w[i].1);
        if e >= RATE_LIMIT_WINDOW_SECS {
            (w.update(i, (user, now, 1u32)), Ok(()))
        } else if w[i].2 >= RATE_LIMIT_COMMANDS {
            (w, Err((RATE_LIMIT_WINDOW_SECS - e) as u64))
        } else {
            (w.update(i, (user, w[i].1, (w[i].2 + 1) as u32)), Ok(()))
        }
    } else {
        (w.push((user, now, 1u32)), Ok(()))
    }
}

/// Every window holds between one and `RATE_LIMIT_COMMANDS` commands.
pub open spec fn counts_bounded(w: Seq<Window>) -> bool {
    forall|i: int| 0 <= i < w.len() ==> 1 <= (#[trigger] w[i]).2 <= RATE_LIMIT_COMMANDS
}

fn elapsed(now: u64, start: u64) -> (r: u64)
    ensures
        r == elapsed_secs(now, start),
{
    if now >= start {
        (now - start) / NANOS_PER_SEC
    } else {
        0
    }
}

proof fn lemma_filter_distinct(w: Seq<Window>, now: u64)
    requires
        distinct_users(w),
        counts_bounded(w),
    ensures
        distinct_users(live_windows(w, now)),
        counts_bounded(live_windows(w, now)),
        forall|i: int|
            0 <= i < live_windows(w, now).len() ==> w.contains(#[trigger] live_windows(w, now)[i]),
    decreases w.len(),
{
    let f = |x: Window| elapsed_secs(now, x.1) < RATE_LIMIT_WINDOW_SECS;
    reveal(Seq::filter);
    if w.len() > 0 {
        let init = w.drop_last();
        assert forall|i: int, j: int| 0 <= i < j < init.len() implies init[i].0 != init[j].0 by {
            assert(init[i] == w[i] && init[j] == w[j]);
        }
        assert forall|i: int| 0 <= i < init.len() implies 1 <= (#[trigger] init[i]).2
            <= RATE_LIMIT_COMMANDS by {
            assert(init[i] == w[i]);
        }
        lemma_filter_distinct(init, now);
        let li = live_windows(init, now);
        assert(live_windows(w, now) == if f(w.last()) {
            li.push(w.last())
        } else {
            li
        });
        assert forall|i: int| 0 <= i < li.len() implies w.contains(#[trigger] li[i]) by {
            assert(init.contains(li[i]));
            let k = choose|k: int| 0 <= k < init.len() && init[k] == li[i];
            assert(w[k] == li[i]);
        }
        if f(w.last()) {
            let lw = li.push(w.last());
            assert forall|i: int, j: int| 0 <= i < j < lw.len() implies lw[i].0 != lw[j].0 by {
                if j == li.len() {
                    let k = choose|k: int| 0 <= k < w.len() && w[k] == li[i];
                    assert(w.contains(li[i]));
                    if k == w.len() - 1 {
                        assert(init.contains(li[i]));
                        let m = choose|m: int| 0 <= m < init.len() && init[m] == li[i];
                        assert(w[m] == li[i]);
                        assert(w[m].0 != w[w.len() - 1].0);
                    } else {
                        assert(w[k].0 != w[w.len() - 1].0);
                    }
                }
            }
            assert forall|i: int| 0 <= i < lw.len() implies w.contains(#[trigger] lw[i]) by {
                if i == li.len() {
                    assert(w[w.len() - 1] == lw[i]);
                }
            }
            assert forall|i: int| 0 <= i < lw.len() implies 1 <= (#[trigger] lw[i]).2
                <= RATE_LIMIT_COMMANDS by {
                assert(w.contains(lw[i]));
                let k = choose|k: int| 0 <= k < w.len() && w[k] == lw[i];
                assert(1 <= w[k].2);
            }
        } else {
            assert forall|i: int| 0 <= i < li.len() implies 1 <= (#[trigger] li[i]).2
                <= RATE_LIMIT_COMMANDS by {
                assert(w.contains(li[i]));
                let k = choose|k: int| 0 <= k < w.len() && w[k] == li[i];
                assert(1 <= w[k].2);
            }
        }
    }
}

impl RateLimiter {
    /// A limiter that tracks no user.
    pub fn new() -> (r: RateLimiter)
        ensures
            r.windows@ == Seq::<Window>::empty(),
    {
        RateLimiter { windows: Vec::new() }
    }

    fn prune(&mut self, now: u64)
        requires
            distinct_users(old(self).windows@),
            counts_bounded(old(self).windows@),
        ensures
            final(self).windows@ == pruned(old(self).windows@, now),
            distinct_users(final(self).windows@),
            counts_bounded(final(self).windows@),
    {
        if self.windows.len() <= RATE_LIMIT_PRUNE_ABOVE {
            return;
        }
        let ghost w = self.windows@;
        let mut kept: Vec<Window> = Vec::new();
        let mut i: usize = 0;
        while i < self.windows.len()
            invariant
                w == self.windows@,
                i <= w.len(),
                kept@ == live_windows(w.take(i as int), now),
            decreases w.len() - i,
        {
            let x = self.windows[i];
            proof {
                reveal(Seq::filter);
                assert(w.take(i + 1).drop_last() =~= w.take(i as int));
                assert(w.take(i + 1).last() == x);
            }
            if elapsed(now, x.1) < RATE_LIMIT_WINDOW_SECS {
                kept.push(x);
            }
            i = i + 1;
        }
        proof {
            assert(w.take(w.len() as int) =~= w);
            lemma_filter_distinct(w, now);
        }
        self.windows = kept;
    }

    /// Records a command by `user` at `now` (nanoseconds on a monotonic
    /// clock): `Ok` when it may run, else `Err` with the whole seconds left
    /// in the user's window.
    pub fn check(&mut self, user: u64, now: u64) -> (r: Result<(), u64>)
        requires
            distinct_users(old(self).windows@),
            counts_bounded(old(self).windows@),
        ensures
            (final(self).windows@, r) == decide(pruned(old(self).windows@, now), user, now),
            distinct_users(final(self).windows@),
            counts_bounded(final(self).windows@),
    {
        self.prune(now);
        let ghost w = self.windows@;
        let mut i: usize = 0;
        while i < self.windows.len() && self.windows[i].0 != user
            invariant
                w == self.windows@,
                i <= w.len(),
                forall|k: int| 0 <= k < i ==> w[k].0 != user,
            decreases w.len() - i,
        {
            i = i + 1;
        }
        if i < self.windows.len() {
            let (_, start, count) = self.windows[i];
            proof {
                assert(w[i as int].0 == user);
                let k = user_index(w, user);
                assert(w[k].0 == user);
                if k != i {
                    if k < i {
                        assert(w[k].0 != user);
                    } else {
                        assert(w[i as int].0 != w[k].0);
                    }
                }
            }
            let e = elapsed(now, start);
            if e >= RATE_LIMIT_WINDOW_SECS {
                self.windows.set(i, (user, now, 1));
                proof {
                    assert forall|a: int, b: int| 0 <= a < b < self.windows@.len() implies self.windows@[a].0
                        != self.windows@[b].0 by {
                        assert(w[a].0 != w[b].0);
                    }
                }
                Ok(())
            } else if count >= RATE_LIMIT_COMMANDS {
                Err(RATE_LIMIT_WINDOW_SECS - e)
            } else {
                self.windows.set(i, (user, start, count + 1));
                proof {
                    assert forall|a: int, b: int| 0 <= a < b < self.windows@.len() implies self.windows@[a].0
                        != self.windows@[b].0 by {
                        assert(w[a].0 != w[b].0);
                    }
                }
                Ok(())
            }
        } else {
            proof {
                assert(!has_user(w, user));
            }
            self.windows.push((user, now, 1));
            proof {
                assert forall|a: int, b: int| 0 <= a < b < self.windows@.len() implies self.windows@[a].0
                    != self.windows@[b].0 by {
                    if b < w.len() {
                        assert(w[a].0 != w[b].0);
                    } else {
                        assert(self.windows@[a] == w[a]);
                    }
                }
            }
            Ok(())
        }
    }
}

/// A refused command changes nothing: the windows stay as they were after
/// pruning, and the wait reported is at most one window.
pub proof fn law_refusal_changes_nothing(w: Seq<Window>, user: u64, now: u64)
    requires
        decide(w, user, now).1 is Err,
    ensures
        decide(w, user, now).0 == w,
        0 < decide(w, user, now).1->Err_0 <= RATE_LIMIT_WINDOW_SECS,
{
}

/// Within one window a user runs at most `RATE_LIMIT_COMMANDS` commands:
/// a command is refused exactly when the user's live window already holds
/// that many.
pub proof fn law_full_window_refuses(w: Seq<Window>, user: u64, now: u64)
    requires
        counts_bounded(w),
        has_user(w, user),
        elapsed_secs(now, w[user_index(w, user)].1) < RATE_LIMIT_WINDOW_SECS,
    ensures
        decide(w, user, now).1 is Err <==> w[user_index(w, user)].2 == RATE_LIMIT_COMMANDS,
{
    let i = user_index(w, user);
    assert(0 <= i < w.len() && w[i].0 == user);
    assert(1 <= w[i].2 <= RATE_LIMIT_COMMANDS);
}

} // verus!
