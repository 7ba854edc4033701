//! Trailing stops: a stop price per open position that follows the price up
//! at a fixed distance below the highest high and never moves down.
use crate::decimal::{difference, opt_view, product, units, Decimal};
use vstd::prelude::*;

verus! {

/// Manages trailing stop prices for open positions, by symbol.
pub struct TrailingStopManager {
    stops: Vec<(String, Decimal)>,
    factor: Decimal,
    ghost_stops: Ghost<Map<Seq<char>, Decimal>>,
    ghost_pct: Ghost<Decimal>,
}

/// The entries hold distinct symbols, and `map` gives each symbol's stop.
pub open spec fn entries_match(stops: Seq<(String, Decimal)>, map: Map<Seq<char>, Decimal>) -> bool {
    &&& forall|i: int, j: int| 0 <= i < j < stops.len() ==> stops[i].0@ != stops[j].0@
    &&& forall|i: int|
        0 <= i < stops.len() ==> map.contains_key(#[trigger] stops[i].0@) && map[stops[i].0@]
            == stops[i].1
    &&& forall|k: Seq<char>|
        #[trigger] map.contains_key(k) ==> exists|i: int| 0 <= i < stops.len() && #[trigger] stops[i].0@ == k
}

/// `price * factor`, the stop that trails `price`.
pub open spec fn trailing_stop_of(price: Decimal, factor: Decimal) -> Option<(int, int)> {
    product(price@, factor@)
}

impl TrailingStopManager {
    #[verifier::type_invariant]
    spec fn consistent(self) -> bool {
        &&& entries_match(self.stops@, self.ghost_stops@)
        &&& Some(self.factor@) == difference((1, 0), self.ghost_pct@@)
    }

    /// Takes the stop entries out, leaving none.
    fn take_stops(&mut self) -> (r: Vec<(String, Decimal)>)
        ensures
            r@ == old(self).stops@,
            entries_match(r@, old(self).stops()),
            final(self).factor() == old(self).factor(),
            final(self).trailing_pct() == old(self).trailing_pct(),
    {
        proof {
            use_type_invariant(&*self);
        }
        let mut taken = TrailingStopManager {
            stops: Vec::new(),
            factor: self.factor,
            ghost_stops: Ghost(Map::empty()),
            ghost_pct: Ghost(self.ghost_pct@),
        };
        std::mem::swap(&mut taken, self);
        let TrailingStopManager { stops, .. } = taken;
        stops
    }

    /// Puts stop entries back, describing them by `map`.
    fn put_stops(&mut self, stops: Vec<(String, Decimal)>, Ghost(map): Ghost<Map<Seq<char>, Decimal>>)
        requires
            entries_match(stops@, map),
        ensures
            final(self).stops() == map,
            final(self).factor() == old(self).factor(),
            final(self).trailing_pct() == old(self).trailing_pct(),
    {
        proof {
            use_type_invariant(&*self);
        }
        *self = TrailingStopManager {
            stops,
            factor: self.factor,
            ghost_stops: Ghost(map),
            ghost_pct: Ghost(self.ghost_pct@),
        };
    }

    /// The current stop price of each symbol.
    pub closed spec fn stops(&self) -> Map<Seq<char>, Decimal> {
        self.ghost_stops@
    }

    /// The trailing distance as a fraction of the price.
    pub closed spec fn trailing_pct(&self) -> Decimal {
        self.ghost_pct@
    }

    /// `1 - trailing_pct`: a stop is the price times this factor.
    pub closed spec fn factor(&self) -> Decimal {
        self.factor
    }

    /// A manager with no stops, trailing `trailing_pct` (e.g. 0.05 = 5%)
    /// below the highest price.
    pub fn new(trailing_pct: Decimal) -> (r: Self)
        requires
            difference((1, 0), trailing_pct@) is Some,
        ensures
            r.stops() == Map::<Seq<char>, Decimal>::empty(),
            r.trailing_pct() == trailing_pct,
            Some(r.factor()@) == difference((1, 0), trailing_pct@),
    {
        let factor = Decimal::one().sub(&trailing_pct);
        TrailingStopManager {
            stops: Vec::new(),
            factor,
            ghost_stops: Ghost(Map::empty()),
            ghost_pct: Ghost(trailing_pct),
        }
    }

    /// `new`, or `None` when `1 - trailing_pct` overflows.
    pub fn checked_new(trailing_pct: Decimal) -> (r: Option<Self>)
        ensures
            r is Some <==> difference((1, 0), trailing_pct@) is Some,
            r matches Some(m) ==> m.stops() == Map::<Seq<char>, Decimal>::empty()
                && m.trailing_pct() == trailing_pct && Some(m.factor()@) == difference(
                (1, 0),
                trailing_pct@,
            ),
    {
        match Decimal::one().checked_sub(&trailing_pct) {
            Some(_) => Some(TrailingStopManager::new(trailing_pct)),
            None => None,
        }
    }

    fn find(&self, symbol: &String) -> (r: Option<usize>)
        ensures
            r matches Some(i) ==> i < self.stops@.len() && self.stops@[i as int].0@ == symbol@,
            r is None ==> !self.stops().contains_key(symbol@),
    {
        proof {
            use_type_invariant(self);
        }
        let mut i: usize = 0;
        while i < self.stops.len()
            invariant
                i <= self.stops@.len(),
                forall|j: int| 0 <= j < i ==> self.stops@[j].0@ != symbol@,
            decreases self.stops@.len() - i,
        {
            if self.stops[i].0 == *symbol {
                return Some(i);
            }
            i = i + 1;
        }
        proof {
            if self.stops().contains_key(symbol@) {
                let j = choose|j: int| 0 <= j < self.stops@.len() && #[trigger] self.stops@[j].0@ == symbol@;
                assert(self.stops@[j].0@ == symbol@);
            }
        }
        None
    }

    /// Starts a trailing stop for a new position at `entry_price * (1 - pct)`,
    /// replacing any stop the symbol had.
    pub fn init(&mut self, symbol: &str, entry_price: Decimal)
        requires
            trailing_stop_of(entry_price, old(self).factor()) is Some,
        ensures
            final(self).factor() == old(self).factor(),
            final(self).trailing_pct() == old(self).trailing_pct(),
            final(self).stops().dom() == old(self).stops().dom().insert(symbol@),
            forall|k: Seq<char>|
                k != symbol@ && old(self).stops().contains_key(k) ==> final(self).stops()[k]
                    == old(self).stops()[k],
            Some(final(self).stops()[symbol@]@) == trailing_stop_of(entry_price, old(self).factor()),
    {
        proof {
            use_type_invariant(&*self);
        }
        let stop = entry_price.mul(&self.factor);
        let key = symbol.to_owned();
        let found = self.find(&key);
        let ghost old_stops = self.stops@;
        let ghost new_map = self.ghost_stops@.insert(key@, stop);
        match found {
            Some(i) => {
                let mut stops = self.take_stops();
                stops.set(i, (key, stop));
                proof {
                    assert forall|j: int| 0 <= j < stops@.len() implies new_map.contains_key(
                        #[trigger] stops@[j].0@,
                    ) && new_map[stops@[j].0@] == stops@[j].1 by {
                        if j != i {
                            assert(stops@[j] == old_stops[j]);
                        }
                    }
                    assert forall|k: Seq<char>| #[trigger] new_map.contains_key(k) implies exists|j: int|
                        0 <= j < stops@.len() && #[trigger] stops@[j].0@ == k by {
                        if k == symbol@ {
                            assert(stops@[i as int].0@ == k);
                        } else {
                            let j = choose|j: int| 0 <= j < old_stops.len() && #[trigger] old_stops[j].0@ == k;
                            assert(stops@[j] == old_stops[j]);
                        }
                    }
                }
                self.put_stops(stops, Ghost(new_map));
            },
            None => {
                let mut stops = self.take_stops();
                stops.push((key, stop));
                proof {
                    assert forall|j: int| 0 <= j < stops@.len() implies new_map.contains_key(
                        #[trigger] stops@[j].0@,
                    ) && new_map[stops@[j].0@] == stops@[j].1 by {
                        if j < old_stops.len() {
                            assert(stops@[j] == old_stops[j]);
                            assert(old_stops[j].0@ != symbol@);
                        }
                    }
                    assert forall|k: Seq<char>| #[trigger] new_map.contains_key(k) implies exists|j: int|
                        0 <= j < stops@.len() && #[trigger] stops@[j].0@ == k by {
                        if k == symbol@ {
                            assert(stops@[old_stops.len() as int].0@ == k);
                        } else {
                            let j = choose|j: int| 0 <= j < old_stops.len() && #[trigger] old_stops[j].0@ == k;
                            assert(stops@[j] == old_stops[j]);
                        }
                    }
                    assert forall|a: int, b: int| 0 <= a < b < stops@.len() implies stops@[a].0@
                        != stops@[b].0@ by {
                        if b == old_stops.len() {
                            assert(stops@[a] == old_stops[a]);
                            assert(old(self).stops().contains_key(old_stops[a].0@));
                        } else {
                            assert(stops@[a] == old_stops[a]);
                            assert(stops@[b] == old_stops[b]);
                        }
                    }
                }
                self.put_stops(stops, Ghost(new_map));
            },
        }
    }

    /// `init`, or nothing (and `false`) when the stop overflows.
    pub fn checked_init(&mut self, symbol: &str, entry_price: Decimal) -> (ok: bool)
        ensures
            ok <==> trailing_stop_of(entry_price, old(self).factor()) is Some,
            !ok ==> final(self).stops() == old(self).stops(),
            final(self).factor() == old(self).factor(),
            final(self).trailing_pct() == old(self).trailing_pct(),
            ok ==> final(self).stops() == old(self).stops().insert(
                symbol@,
                final(self).stops()[symbol@],
            ),
            ok ==> Some(final(self).stops()[symbol@]@) == trailing_stop_of(
                entry_price,
                old(self).factor(),
            ),
    {
        match entry_price.checked_mul(&self.factor) {
            Some(_) => {
                self.init(symbol, entry_price);
                proof {
                    assert(final(self).stops() =~= old(self).stops().insert(
                        symbol@,
                        final(self).stops()[symbol@],
                    ));
                }
                true
            },
            None => false,
        }
    }

    /// Moves the symbol's stop up to `bar_high * (1 - pct)` when that is
    /// higher; a stop never moves down. Returns the current stop, or `None`
    /// (changing nothing) when the symbol has no stop.
    pub fn update(&mut self, symbol: &str, bar_high: Decimal) -> (r: Option<Decimal>)
        requires
            old(self).stops().contains_key(symbol@) ==> trailing_stop_of(
                bar_high,
                old(self).factor(),
            ) is Some,
        ensures
            final(self).factor() == old(self).factor(),
            final(self).trailing_pct() == old(self).trailing_pct(),
            !old(self).stops().contains_key(symbol@) ==> r is None && final(self).stops() == old(
                self,
            ).stops(),
            old(self).stops().contains_key(symbol@) ==> {
                let prev = old(self).stops()[symbol@];
                let candidate = trailing_stop_of(bar_high, old(self).factor()).unwrap();
                &&& r matches Some(s) && s == final(self).stops()[symbol@]
                &&& final(self).stops() == old(self).stops().insert(
                    symbol@,
                    final(self).stops()[symbol@],
                )
                &&& units(final(self).stops()[symbol@]@) >= units(prev@)
                &&& units(final(self).stops()[symbol@]@) >= units(candidate)
                &&& if units(candidate) > units(prev@) {
                    final(self).stops()[symbol@]@ == candidate
                } else {
                    final(self).stops()[symbol@] == prev
                }
            },
    {
        proof {
            use_type_invariant(&*self);
        }
        let key = symbol.to_owned();
        match self.find(&key) {
            None => None,
            Some(i) => {
                let current = self.stops[i].1;
                let new_stop = bar_high.mul(&self.factor);
                if new_stop.gt(&current) {
                    let ghost old_stops = self.stops@;
                    let ghost new_map = self.ghost_stops@.insert(key@, new_stop);
                    let mut stops = self.take_stops();
                    stops.set(i, (key, new_stop));
                    proof {
                        assert forall|j: int| 0 <= j < stops@.len() implies new_map.contains_key(
                            #[trigger] stops@[j].0@,
                        ) && new_map[stops@[j].0@] == stops@[j].1 by {
                            if j != i {
                                assert(stops@[j] == old_stops[j]);
                            }
                        }
                        assert forall|k: Seq<char>| #[trigger] new_map.contains_key(k) implies exists|
                            j: int,
                        | 0 <= j < stops@.len() && #[trigger] stops@[j].0@ == k by {
                            if k == symbol@ {
                                assert(stops@[i as int].0@ == k);
                            } else {
                                let j = choose|j: int|
                                    0 <= j < old_stops.len() && #[trigger] old_stops[j].0@ == k;
                                assert(stops@[j] == old_stops[j]);
                            }
                        }
                        assert(new_map =~= old(self).stops().insert(symbol@, new_stop));
                    }
                    self.put_stops(stops, Ghost(new_map));
                    Some(new_stop)
                } else {
                    proof {
                        assert(old(self).stops() =~= old(self).stops().insert(symbol@, current));
                    }
                    Some(current)
                }
            },
        }
    }

    /// `update`, or `None` (changing nothing) when the new candidate stop
    /// overflows for a symbol that has a stop.
    pub fn checked_update(&mut self, symbol: &str, bar_high: Decimal) -> (r: Option<Option<Decimal>>)
        ensures
            final(self).factor() == old(self).factor(),
            final(self).trailing_pct() == old(self).trailing_pct(),
            r is None <==> old(self).stops().contains_key(symbol@) && trailing_stop_of(
                bar_high,
                old(self).factor(),
            ) is None,
            r is None ==> final(self).stops() == old(self).stops(),
            r matches Some(inner) ==> {
                &&& !old(self).stops().contains_key(symbol@) ==> inner is None && final(self).stops()
                    == old(self).stops()
                &&& old(self).stops().contains_key(symbol@) ==> inner == Some(
                    final(self).stops()[symbol@],
                )
            },
    {
        match bar_high.checked_mul(&self.factor) {
            Some(_) => Some(self.update(symbol, bar_high)),
            None => {
                match self.get(symbol) {
                    Some(_) => None,
                    None => Some(self.update(symbol, bar_high)),
                }
            },
        }
    }

    /// The symbol's current stop price.
    pub fn get(&self, symbol: &str) -> (r: Option<Decimal>)
        ensures
            r == (if self.stops().contains_key(symbol@) {
                Some(self.stops()[symbol@])
            } else {
                None
            }),
    {
        proof {
            use_type_invariant(self);
        }
        let key = symbol.to_owned();
        match self.find(&key) {
            Some(i) => Some(self.stops[i].1),
            None => None,
        }
    }

    /// Forgets the symbol's stop when its position closes.
    pub fn remove(&mut self, symbol: &str)
        ensures
            final(self).stops() == old(self).stops().remove(symbol@),
            final(self).factor() == old(self).factor(),
            final(self).trailing_pct() == old(self).trailing_pct(),
    {
        proof {
            use_type_invariant(&*self);
        }
        let key = symbol.to_owned();
        match self.find(&key) {
            None => {
                proof {
                    assert(old(self).stops() =~= old(self).stops().remove(symbol@));
                }
            },
            Some(i) => {
                let ghost old_stops = self.stops@;
                let ghost new_map = self.ghost_stops@.remove(key@);
                let mut stops = self.take_stops();
                stops.remove(i);
                proof {
                    assert forall|j: int| 0 <= j < stops@.len() implies new_map.contains_key(
                        #[trigger] stops@[j].0@,
                    ) && new_map[stops@[j].0@] == stops@[j].1 by {
                        if j < i {
                            assert(stops@[j] == old_stops[j]);
                        } else {
                            assert(stops@[j] == old_stops[j + 1]);
                        }
                    }
                    assert forall|k: Seq<char>| #[trigger] new_map.contains_key(k) implies exists|j: int|
                        0 <= j < stops@.len() && #[trigger] stops@[j].0@ == k by {
                        let j = choose|j: int| 0 <= j < old_stops.len() && #[trigger] old_stops[j].0@ == k;
                        assert(j != i);
                        if j < i {
                            assert(stops@[j] == old_stops[j]);
                        } else {
                            assert(stops@[j - 1] == old_stops[j]);
                        }
                    }
                    assert forall|a: int, b: int| 0 <= a < b < stops@.len() implies stops@[a].0@
                        != stops@[b].0@ by {
                        let oa = if a < i {
                            a
                        } else {
                            a + 1
                        };
                        let ob = if b < i {
                            b
                        } else {
                            b + 1
                        };
                        assert(stops@[a] == old_stops[oa]);
                        assert(stops@[b] == old_stops[ob]);
                    }
                }
                self.put_stops(stops, Ghost(new_map));
            },
        }
    }
}

} // verus!
