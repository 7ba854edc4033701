//! The halt latch of the backtest circuit breaker: once a drawdown breach
//! halts trading, trading stays halted.
use vstd::prelude::*;

verus! {

/// Whether trading has been halted.
#[derive(Debug, Clone, Copy)]
pub struct HaltLatch {
    halted: bool,
}

impl HaltLatch {
    pub closed spec fn is_set(self) -> bool {
        self.halted
    }

    /// A latch that has not halted trading.
    pub fn new() -> (r: HaltLatch)
        ensures
            !r.is_set(),
    {
        HaltLatch { halted: false }
    }

    /// Records whether the drawdown has reached the halt threshold, and
    /// returns whether trading is halted: it is once any check breached.
    pub fn check(&mut self, breached: bool) -> (r: bool)
        ensures
            final(self).is_set() == (old(self).is_set() || breached),
            r == final(self).is_set(),
    {
        if self.halted {
            return true;
        }
        if breached {
            self.halted = true;
            return true;
        }
        false
    }

    pub fn is_halted(&self) -> (r: bool)
        ensures
            r == self.is_set(),
    {
        self.halted
    }
}

/// A halt is never lifted: after a check, a latch that was set is still
/// set, whatever the check saw.
pub proof fn law_halt_is_permanent(before: HaltLatch, after: HaltLatch, breached: bool)
    requires
        after.is_set() == (before.is_set() || breached),
        before.is_set(),
    ensures
        after.is_set(),
{
}

} // verus!
