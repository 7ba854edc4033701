//! Per-symbol profit and loss, accumulated trade by trade.
use crate::decimal::{sum, units, Decimal};
use vstd::prelude::*;

verus! {

/// Running totals of one symbol's closed trades.
#[derive(Debug)]
pub struct SymbolStats {
    pub symbol: String,
    /// Sum of the trades' net profit and loss.
    pub total_pnl: Decimal,
    /// Trades that made money.
    pub wins: i32,
    /// All trades.
    pub trades: i32,
}

/// (symbol, total P&L, wins, trades) of an entry.
pub type StatsView = (Seq<char>, (int, int), int, int);

pub open spec fn stats_view(s: SymbolStats) -> StatsView {
    (s.symbol@, s.total_pnl@, s.wins as int, s.trades as int)
}

pub open spec fn ledger_view(l: Seq<SymbolStats>) -> Seq<StatsView> {
    l.map_values(|s: SymbolStats| stats_view(s))
}

/// No symbol has two entries.
pub open spec fn distinct_symbols(l: Seq<StatsView>) -> bool {
    forall|i: int, j: int| 0 <= i < j < l.len() ==> l[i].0 != l[j].0
}

/// Whether `sym` has an entry.
pub open spec fn has_symbol(l: Seq<StatsView>, sym: Seq<char>) -> bool {
    exists|i: int| 0 <= i < l.len() && #[trigger] l[i].0 == sym
}

/// The position of `sym`'s entry.
pub open spec fn symbol_index(l: Seq<StatsView>, sym: Seq<char>) -> int {
    choose|i: int| 0 <= i < l.len() && #[trigger] l[i].0 == sym
}

/// 1 for a trade that made money, else 0.
pub open spec fn win_count(p: (int, int)) -> int {
    if units(p) > 0 {
        1
    } else {
        0
    }
}

/// Whether recording a trade of `p` for `sym` stays within the counters and
/// decimals (its running P&L sum does not overflow, its counts fit in `i32`).
pub open spec fn can_record(l: Seq<StatsView>, sym: Seq<char>, p: (int, int)) -> bool {
    has_symbol(l, sym) ==> {
        let e = l[symbol_index(l, sym)];
        &&& sum(e.1, p) is Some
        &&& e.3 < i32::MAX
        &&& e.2 < i32::MAX
    }
}

/// The ledger after recording a trade of `p` for `sym`: that symbol's entry
/// gains the P&L, a win if it made money, and a trade; a symbol seen for the
/// first time gets a new entry at the end, starting from zero.
pub open spec fn recorded(l: Seq<StatsView>, sym: Seq<char>, p: (int, int)) -> Seq<StatsView> {
    if has_symbol(l, sym) {
        let i = symbol_index(l, sym);
        let e = l[i];
        l.update(i, (sym, sum(e.1, p).unwrap(), e.2 + win_count(p), e.3 + 1))
    } else {
        l.push((sym, sum((0, 0), p).unwrap(), win_count(p), 1))
    }
}

fn find_symbol(ledger: &Vec<SymbolStats>, symbol: &String) -> (r: Option<usize>)
    requires
        distinct_symbols(ledger_view(ledger@)),
    ensures
        r is Some <==> has_symbol(ledger_view(ledger@), symbol@),
        r matches Some(i) ==> i == symbol_index(ledger_view(ledger@), symbol@) && i < ledger@.len(),
{
    let ghost l = ledger_view(ledger@);
    let mut i: usize = 0;
    while i < ledger.len()
        invariant
            l == ledger_view(ledger@),
            distinct_symbols(l),
            i <= ledger@.len(),
            forall|j: int| 0 <= j < i ==> l[j].0 != symbol@,
        decreases ledger@.len() - i,
    {
        if ledger[i].symbol == *symbol {
            proof {
                assert(l[i as int].0 == symbol@);
                let k = symbol_index(l, symbol@);
                assert(l[k].0 == symbol@);
                if k != i {
                    if k < i {
                        assert(l[k].0 != l[i as int].0);
                    } else {
                        assert(l[i as int].0 != l[k].0);
                    }
                }
            }
            return Some(i);
        }
        i = i + 1;
    }
    proof {
        if has_symbol(l, symbol@) {
            let k = choose|k: int| 0 <= k < l.len() && #[trigger] l[k].0 == symbol@;
            assert(l[k].0 == symbol@);
        }
    }
    None
}

/// Adds one closed trade's net profit or loss to its symbol's totals.
pub fn record_symbol_pnl(ledger: &mut Vec<SymbolStats>, symbol: &String, profit_loss: Decimal)
    requires
        distinct_symbols(ledger_view(old(ledger)@)),
        can_record(ledger_view(old(ledger)@), symbol@, profit_loss@),
    ensures
        ledger_view(final(ledger)@) == recorded(ledger_view(old(ledger)@), symbol@, profit_loss@),
        distinct_symbols(ledger_view(final(ledger)@)),
{
    let ghost l = ledger_view(ledger@);
    let zero = Decimal::zero();
    let is_win = profit_loss.gt(&zero);
    match find_symbol(ledger, symbol) {
        Some(i) => {
            let e = &ledger[i];
            let updated = SymbolStats {
                symbol: e.symbol.clone(),
                total_pnl: e.total_pnl.add(&profit_loss),
                wins: if is_win {
                    e.wins + 1
                } else {
                    e.wins
                },
                trades: e.trades + 1,
            };
            ledger.set(i, updated);
            proof {
                assert(ledger_view(ledger@) =~= recorded(l, symbol@, profit_loss@));
            }
        },
        None => {
            let fresh = SymbolStats {
                symbol: symbol.clone(),
                total_pnl: zero.add(&profit_loss),
                wins: if is_win {
                    1
                } else {
                    0
                },
                trades: 1,
            };
            ledger.push(fresh);
            proof {
                assert(ledger_view(ledger@) =~= recorded(l, symbol@, profit_loss@));
                assert forall|a: int, b: int| 0 <= a < b < ledger@.len() implies ledger_view(ledger@)[a].0
                    != ledger_view(ledger@)[b].0 by {
                    if b == l.len() {
                        assert(ledger_view(ledger@)[a] == l[a]);
                    } else {
                        assert(ledger_view(ledger@)[a] == l[a]);
                        assert(ledger_view(ledger@)[b] == l[b]);
                    }
                }
            }
        },
    }
}

/// A symbol's (total P&L, wins, trades), zeros for a symbol with no trades.
pub fn symbol_totals(ledger: &Vec<SymbolStats>, symbol: &String) -> (r: (Decimal, i32, i32))
    requires
        distinct_symbols(ledger_view(ledger@)),
    ensures
        has_symbol(ledger_view(ledger@), symbol@) ==> {
            let e = ledger_view(ledger@)[symbol_index(ledger_view(ledger@), symbol@)];
            r.0@ == e.1 && r.1 == e.2 && r.2 == e.3
        },
        !has_symbol(ledger_view(ledger@), symbol@) ==> r.0@ == (0int, 0int) && r.1 == 0 && r.2 == 0,
{
    match find_symbol(ledger, symbol) {
        Some(i) => (ledger[i].total_pnl, ledger[i].wins, ledger[i].trades),
        None => (Decimal::zero(), 0, 0),
    }
}

// ---------------------------------------------------------------------------
// Laws
// ---------------------------------------------------------------------------

/// Number of trades over all entries.
pub open spec fn total_trades(l: Seq<StatsView>) -> int
    decreases l.len(),
{
    if l.len() == 0 {
        0
    } else {
        total_trades(l.drop_last()) + l.last().3
    }
}

proof fn lemma_total_trades_update(l: Seq<StatsView>, i: int, e: StatsView)
    requires
        0 <= i < l.len(),
    ensures
        total_trades(l.update(i, e)) == total_trades(l) - l[i].3 + e.3,
    decreases l.len(),
{
    let u = l.update(i, e);
    if i < l.len() - 1 {
        assert(u.drop_last() =~= l.drop_last().update(i, e));
        lemma_total_trades_update(l.drop_last(), i, e);
    } else {
        assert(u.drop_last() =~= l.drop_last());
    }
}

/// Every recorded trade is counted once: recording a trade adds exactly one
/// to the number of trades over all symbols.
pub proof fn law_record_counts_one_trade(l: Seq<StatsView>, sym: Seq<char>, p: (int, int))
    requires
        distinct_symbols(l),
        can_record(l, sym, p),
    ensures
        total_trades(recorded(l, sym, p)) == total_trades(l) + 1,
{
    if has_symbol(l, sym) {
        let i = symbol_index(l, sym);
        let e = l[i];
        lemma_total_trades_update(l, i, (sym, sum(e.1, p).unwrap(), e.2 + win_count(p), e.3 + 1));
    } else {
        let n = l.push((sym, sum((0, 0), p).unwrap(), win_count(p), 1));
        assert(n.drop_last() =~= l);
    }
}

/// A symbol never has more wins than trades: recording keeps `wins <=
/// trades` for every entry.
pub proof fn law_wins_never_exceed_trades(l: Seq<StatsView>, sym: Seq<char>, p: (int, int))
    requires
        distinct_symbols(l),
        can_record(l, sym, p),
        forall|i: int| 0 <= i < l.len() ==> 0 <= (#[trigger] l[i]).2 <= l[i].3,
    ensures
        forall|i: int|
            0 <= i < recorded(l, sym, p).len() ==> 0 <= (#[trigger] recorded(l, sym, p)[i]).2
                <= recorded(l, sym, p)[i].3,
{
}

} // verus!
