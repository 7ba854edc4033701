//! Pending limit orders: each waits for the bar whose range reaches its limit
//! price, and expires after a number of bars.
use crate::decimal::{units, Decimal};
use vstd::prelude::*;

verus! {

/// A limit order waiting to be filled.
///
/// `signal` is whatever the caller wants back when the order triggers;
/// `limit_price` is the price the bar must reach.
pub struct PendingLimitOrder<S> {
    pub signal: S,
    pub limit_price: Decimal,
    pub bars_remaining: i32,
    pub direction: String,
}

/// Manages pending limit orders, oldest first.
pub struct LimitOrderManager<S> {
    pub pending: Vec<PendingLimitOrder<S>>,
}

/// Whether `direction` names the buy side.
pub open spec fn is_buy_direction(direction: Seq<char>) -> bool {
    direction == "buy"@
}

/// Whether an order triggers on a bar with this low and high: a buy limit
/// when the low reaches down to the limit, a sell limit when the high
/// reaches up to it.
pub open spec fn order_triggers<S>(o: PendingLimitOrder<S>, bar_low: Decimal, bar_high: Decimal) -> bool {
    if is_buy_direction(o.direction@) {
        units(bar_low@) <= units(o.limit_price@)
    } else {
        units(bar_high@) >= units(o.limit_price@)
    }
}

/// The same order with one bar less to live.
pub open spec fn aged<S>(o: PendingLimitOrder<S>) -> PendingLimitOrder<S> {
    PendingLimitOrder {
        signal: o.signal,
        limit_price: o.limit_price,
        bars_remaining: (o.bars_remaining - 1) as i32,
        direction: o.direction,
    }
}

/// Whether an order that did not trigger is dropped: it has no bar left.
pub open spec fn order_expires<S>(o: PendingLimitOrder<S>) -> bool {
    o.bars_remaining - 1 <= 0
}

/// The orders of `s` that trigger on the bar, with their directions, in order.
pub open spec fn triggered_orders<S>(
    s: Seq<PendingLimitOrder<S>>,
    bar_low: Decimal,
    bar_high: Decimal,
) -> Seq<(S, String)>
    decreases s.len(),
{
    if s.len() == 0 {
        Seq::empty()
    } else {
        let rest = triggered_orders(s.drop_last(), bar_low, bar_high);
        let o = s.last();
        if order_triggers(o, bar_low, bar_high) {
            rest.push((o.signal, o.direction))
        } else {
            rest
        }
    }
}

/// The orders of `s` that neither trigger nor expire, each one bar older.
pub open spec fn surviving_orders<S>(
    s: Seq<PendingLimitOrder<S>>,
    bar_low: Decimal,
    bar_high: Decimal,
) -> Seq<PendingLimitOrder<S>>
    decreases s.len(),
{
    if s.len() == 0 {
        Seq::empty()
    } else {
        let rest = surviving_orders(s.drop_last(), bar_low, bar_high);
        let o = s.last();
        if !order_triggers(o, bar_low, bar_high) && !order_expires(o) {
            rest.push(aged(o))
        } else {
            rest
        }
    }
}

/// The number of orders of `s` that neither trigger nor survive.
pub open spec fn expired_count<S>(s: Seq<PendingLimitOrder<S>>, bar_low: Decimal, bar_high: Decimal) -> nat
    decreases s.len(),
{
    if s.len() == 0 {
        0
    } else {
        let rest = expired_count(s.drop_last(), bar_low, bar_high);
        let o = s.last();
        if !order_triggers(o, bar_low, bar_high) && order_expires(o) {
            rest + 1
        } else {
            rest
        }
    }
}

/// Ageing an order that does not trigger must not overflow.
pub open spec fn can_age<S>(s: Seq<PendingLimitOrder<S>>, bar_low: Decimal, bar_high: Decimal) -> bool {
    forall|i: int|
        0 <= i < s.len() && !order_triggers(#[trigger] s[i], bar_low, bar_high)
            ==> s[i].bars_remaining > i32::MIN
}

impl<S> LimitOrderManager<S> {
    /// An empty manager.
    pub fn new() -> (r: Self)
        ensures
            r.pending@ == Seq::<PendingLimitOrder<S>>::empty(),
    {
        LimitOrderManager { pending: Vec::new() }
    }

    /// Adds a limit order for `signal`. It triggers at `limit_price`, or at
    /// `price` when the signal carries no limit price, and lives for
    /// `limit_expiry_bars` bars (5 when not given).
    pub fn add_order(
        &mut self,
        signal: S,
        limit_price: Option<Decimal>,
        price: Decimal,
        limit_expiry_bars: Option<i32>,
        direction: &str,
    )
        ensures
            final(self).pending@.len() == old(self).pending@.len() + 1,
            final(self).pending@.drop_last() == old(self).pending@,
            final(self).pending@.last().signal == signal,
            final(self).pending@.last().limit_price == (match limit_price {
                Some(p) => p,
                None => price,
            }),
            final(self).pending@.last().bars_remaining == (match limit_expiry_bars {
                Some(n) => n,
                None => 5,
            }),
            final(self).pending@.last().direction@ == direction@,
    {
        let expiry = match limit_expiry_bars {
            Some(n) => n,
            None => 5,
        };
        let trigger = match limit_price {
            Some(p) => p,
            None => price,
        };
        self.pending.push(
            PendingLimitOrder {
                signal,
                limit_price: trigger,
                bars_remaining: expiry,
                direction: direction.to_owned(),
            },
        );
    }

    /// Whether every order this bar leaves pending can lose a bar without
    /// overflow, that is, whether `check_and_expire` may run on this bar.
    pub fn can_check_and_expire(&self, bar_low: Decimal, bar_high: Decimal) -> (r: bool)
        ensures
            r == can_age(self.pending@, bar_low, bar_high),
    {
        let buy = "buy".to_owned();
        let mut i: usize = 0;
        while i < self.pending.len()
            invariant
                buy@ == "buy"@,
                0 <= i <= self.pending@.len(),
                can_age(self.pending@.take(i as int), bar_low, bar_high),
            decreases self.pending@.len() - i,
        {
            let order = &self.pending[i];
            let is_triggered = if order.direction == buy {
                bar_low.le(&order.limit_price)
            } else {
                bar_high.ge(&order.limit_price)
            };
            if !is_triggered && order.bars_remaining == i32::MIN {
                proof {
                    assert(self.pending@[i as int] == *order);
                }
                return false;
            }
            proof {
                let s = self.pending@;
                assert forall|j: int|
                    0 <= j < s.take(i + 1).len() && !order_triggers(
                        #[trigger] s.take(i + 1)[j],
                        bar_low,
                        bar_high,
                    ) implies s.take(i + 1)[j].bars_remaining > i32::MIN by {
                    if j < i {
                        assert(s.take(i + 1)[j] == s.take(i as int)[j]);
                    }
                }
            }
            i = i + 1;
        }
        proof {
            assert(self.pending@.take(i as int) == self.pending@);
        }
        true
    }

    /// Checks the pending orders against a bar. Orders whose limit the bar
    /// reaches are returned, oldest first, with their directions; the others
    /// lose one bar and are dropped when none is left.
    pub fn check_and_expire(&mut self, bar_low: Decimal, bar_high: Decimal) -> (triggered: Vec<
        (S, String),
    >)
        requires
            can_age(old(self).pending@, bar_low, bar_high),
        ensures
            triggered@ == triggered_orders(old(self).pending@, bar_low, bar_high),
            final(self).pending@ == surviving_orders(old(self).pending@, bar_low, bar_high),
            triggered@ == old(self).pending@.filter_map(
                (|o: PendingLimitOrder<S>|
                    if ((o.direction@ == "buy"@ && units(bar_low@) <= units(o.limit_price@)) || (o.direction@
                    != "buy"@ && units(bar_high@) >= units(o.limit_price@))) {
                        Some((o.signal, o.direction))
                    } else {
                        None
                    }),
            ),
    {
        proof {
            law_fills_follow_bar_range(old(self).pending@, bar_low, bar_high);
        }
        let mut orders: Vec<PendingLimitOrder<S>> = Vec::new();
        std::mem::swap(&mut orders, &mut self.pending);
        let ghost all = orders@;
        let buy = "buy".to_owned();
        let mut triggered: Vec<(S, String)> = Vec::new();
        let mut remaining: Vec<PendingLimitOrder<S>> = Vec::new();
        let mut taken: usize = 0;
        let total: usize = orders.len();
        while orders.len() > 0
            invariant
                buy@ == "buy"@,
                taken + orders@.len() == all.len(),
                all.len() == total,
                orders@ == all.subrange(taken as int, all.len() as int),
                triggered@ == triggered_orders(all.take(taken as int), bar_low, bar_high),
                remaining@ == surviving_orders(all.take(taken as int), bar_low, bar_high),
                can_age(all, bar_low, bar_high),
            decreases orders@.len(),
        {
            let mut order = orders.remove(0);
            proof {
                assert(order == all[taken as int]);
                assert(all.take(taken as int + 1).drop_last() == all.take(taken as int));
                assert(all.take(taken as int + 1).last() == order);
            }
            let is_buy = order.direction == buy;
            let is_triggered = if is_buy {
                bar_low.le(&order.limit_price)
            } else {
                bar_high.ge(&order.limit_price)
            };
            if is_triggered {
                triggered.push((order.signal, order.direction));
            } else {
                assert(!order_triggers(all[taken as int], bar_low, bar_high));
                order.bars_remaining = order.bars_remaining - 1;
                if order.bars_remaining > 0 {
                    remaining.push(order);
                }
            }
            taken = taken + 1;
            proof {
                assert(orders@ == all.subrange(taken as int, all.len() as int));
            }
        }
        proof {
            assert(all.take(taken as int) == all);
        }
        self.pending = remaining;
        triggered
    }
}

// ---------------------------------------------------------------------------
// Laws
// ---------------------------------------------------------------------------

/// Every pending order meets exactly one fate on a bar: it triggers, it
/// survives one bar older, or it expires.
pub proof fn law_orders_are_partitioned<S>(
    s: Seq<PendingLimitOrder<S>>,
    bar_low: Decimal,
    bar_high: Decimal,
)
    ensures
        triggered_orders(s, bar_low, bar_high).len() + surviving_orders(s, bar_low, bar_high).len()
            + expired_count(s, bar_low, bar_high) == s.len(),
    decreases s.len(),
{
    if s.len() > 0 {
        law_orders_are_partitioned(s.drop_last(), bar_low, bar_high);
    }
}

/// After a check, every order still pending has at least one bar left and
/// did not trigger on that bar.
pub proof fn law_survivors_have_time_left<S>(
    s: Seq<PendingLimitOrder<S>>,
    bar_low: Decimal,
    bar_high: Decimal,
)
    requires
        can_age(s, bar_low, bar_high),
    ensures
        forall|i: int|
            0 <= i < surviving_orders(s, bar_low, bar_high).len() ==> (#[trigger] surviving_orders(
                s,
                bar_low,
                bar_high,
            )[i]).bars_remaining > 0,
    decreases s.len(),
{
    if s.len() > 0 {
        let t = s.drop_last();
        assert forall|i: int|
            0 <= i < t.len() && !order_triggers(#[trigger] t[i], bar_low, bar_high) implies t[i].bars_remaining
            > i32::MIN by {
            assert(t[i] == s[i]);
        }
        law_survivors_have_time_left(t, bar_low, bar_high);
        let o = s.last();
        let st = surviving_orders(t, bar_low, bar_high);
        let ss = surviving_orders(s, bar_low, bar_high);
        if !order_triggers(o, bar_low, bar_high) && !order_expires(o) {
            assert(s[s.len() - 1] == o);
            assert(o.bars_remaining > i32::MIN);
            assert(ss == st.push(aged(o)));
            assert forall|i: int| 0 <= i < ss.len() implies (#[trigger] ss[i]).bars_remaining > 0 by {
                if i < st.len() {
                    assert(ss[i] == st[i]);
                }
            }
        } else {
            assert(ss == st);
        }
    }
}

/// Positions in `s` of the orders that trigger on the bar, in order.
pub open spec fn triggered_positions<S>(
    s: Seq<PendingLimitOrder<S>>,
    bar_low: Decimal,
    bar_high: Decimal,
) -> Seq<int>
    decreases s.len(),
{
    if s.len() == 0 {
        Seq::empty()
    } else {
        let rest = triggered_positions(s.drop_last(), bar_low, bar_high);
        if order_triggers(s.last(), bar_low, bar_high) {
            rest.push(s.len() - 1)
        } else {
            rest
        }
    }
}

/// A triggered buy limit was reached by the bar's low, a triggered sell limit
/// by the bar's high: the triggered orders are exactly the orders that meet
/// their trigger condition, in the order they were placed.
pub proof fn law_triggered_orders_were_reached<S>(
    s: Seq<PendingLimitOrder<S>>,
    bar_low: Decimal,
    bar_high: Decimal,
)
    ensures
        triggered_positions(s, bar_low, bar_high).len() == triggered_orders(
            s,
            bar_low,
            bar_high,
        ).len(),
        forall|i: int|
            #![trigger triggered_positions(s, bar_low, bar_high)[i]]
            0 <= i < triggered_positions(s, bar_low, bar_high).len() ==> {
                let k = triggered_positions(s, bar_low, bar_high)[i];
                &&& 0 <= k < s.len()
                &&& order_triggers(s[k], bar_low, bar_high)
                &&& triggered_orders(s, bar_low, bar_high)[i] === (s[k].signal, s[k].direction)
            },
        forall|i: int, j: int|
            0 <= i < j < triggered_positions(s, bar_low, bar_high).len() ==> triggered_positions(
                s,
                bar_low,
                bar_high,
            )[i] < triggered_positions(s, bar_low, bar_high)[j],
        forall|k: int|
            0 <= k < s.len() && order_triggers(#[trigger] s[k], bar_low, bar_high) ==> triggered_positions(
                s,
                bar_low,
                bar_high,
            ).contains(k),
    decreases s.len(),
{
    if s.len() > 0 {
        let t = s.drop_last();
        law_triggered_orders_were_reached(t, bar_low, bar_high);
        let ps = triggered_positions(s, bar_low, bar_high);
        let pt = triggered_positions(t, bar_low, bar_high);
        let tr = triggered_orders(s, bar_low, bar_high);
        let tt = triggered_orders(t, bar_low, bar_high);
        let o = s.last();
        assert forall|k: int| 0 <= k < t.len() implies #[trigger] s[k] == t[k] by {}
        if order_triggers(o, bar_low, bar_high) {
            assert(ps == pt.push(s.len() - 1));
            assert(tr == tt.push((o.signal, o.direction)));
        } else {
            assert(ps == pt);
            assert(tr == tt);
        }
        assert forall|i: int| 0 <= i < ps.len() implies {
            let k = #[trigger] ps[i];
            &&& 0 <= k < s.len()
            &&& order_triggers(s[k], bar_low, bar_high)
            &&& tr[i] === (s[k].signal, s[k].direction)
        } by {
            if i < pt.len() {
                assert(ps[i] == pt[i]);
                assert(tr[i] == tt[i]);
            }
        }
        assert forall|k: int|
            0 <= k < s.len() && order_triggers(#[trigger] s[k], bar_low, bar_high) implies ps.contains(k) by {
            if k < t.len() {
                assert(order_triggers(t[k], bar_low, bar_high));
                let w = choose|w: int| 0 <= w < pt.len() && pt[w] == k;
                assert(ps[w] == k);
            } else {
                assert(ps[ps.len() - 1] == k);
            }
        }
    }
}

/// The orders a bar fills are exactly those whose limit the bar's range
/// reaches (a buy limit by the low, a sell limit by the high), in the order
/// they were placed; the others stay, one bar older, while they have a bar
/// left, and are dropped otherwise.
pub proof fn law_fills_follow_bar_range<S>(
    s: Seq<PendingLimitOrder<S>>,
    bar_low: Decimal,
    bar_high: Decimal,
)
    ensures
        triggered_orders(s, bar_low, bar_high) == s.filter_map(
            (|o: PendingLimitOrder<S>|
                if ((o.direction@ == "buy"@ && units(bar_low@) <= units(o.limit_price@)) || (o.direction@
                    != "buy"@ && units(bar_high@) >= units(o.limit_price@))) {
                    Some((o.signal, o.direction))
                } else {
                    None
                }),
        ),
        surviving_orders(s, bar_low, bar_high) == s.filter_map(
            (|o: PendingLimitOrder<S>|
                if !((o.direction@ == "buy"@ && units(bar_low@) <= units(o.limit_price@)) || (o.direction@
                    != "buy"@ && units(bar_high@) >= units(o.limit_price@))) && o.bars_remaining > 1 {
                    Some(
                        (PendingLimitOrder {
                            signal: o.signal,
                            limit_price: o.limit_price,
                            bars_remaining: (o.bars_remaining - 1) as i32,
                            direction: o.direction,
                        }),
                    )
                } else {
                    None
                }),
        ),
    decreases s.len(),
{
    let f = |o: PendingLimitOrder<S>|
        if ((o.direction@ == "buy"@ && units(bar_low@) <= units(o.limit_price@)) || (o.direction@
                    != "buy"@ && units(bar_high@) >= units(o.limit_price@))) {
            Some((o.signal, o.direction))
        } else {
            None
        };
    let g = |o: PendingLimitOrder<S>|
        if !((o.direction@ == "buy"@ && units(bar_low@) <= units(o.limit_price@)) || (o.direction@
                    != "buy"@ && units(bar_high@) >= units(o.limit_price@))) && o.bars_remaining > 1 {
            Some(
                PendingLimitOrder {
                    signal: o.signal,
                    limit_price: o.limit_price,
                    bars_remaining: (o.bars_remaining - 1) as i32,
                    direction: o.direction,
                },
            )
        } else {
            None
        };
    if s.len() > 0 {
        law_fills_follow_bar_range(s.drop_last(), bar_low, bar_high);
        let o = s.last();
        
        let t = triggered_orders(s.drop_last(), bar_low, bar_high);
        let v = surviving_orders(s.drop_last(), bar_low, bar_high);
        assert(t.push((o.signal, o.direction)) =~= t + seq![(o.signal, o.direction)]);
        assert(v.push(aged(o)) =~= v + seq![aged(o)]);
        assert(s.filter_map(f) == (match f(o) {
            Some(x) => s.drop_last().filter_map(f) + seq![x],
            None => s.drop_last().filter_map(f),
        }));
        assert(s.filter_map(g) == (match g(o) {
            Some(x) => s.drop_last().filter_map(g) + seq![x],
            None => s.drop_last().filter_map(g),
        }));
    } else {
        assert(s.filter_map(f) =~= Seq::<(S, String)>::empty());
        assert(s.filter_map(g) =~= Seq::<PendingLimitOrder<S>>::empty());
    }
}

} // verus!
