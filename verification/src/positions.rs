//! Open positions of a backtest and the cash they move: entry fills,
//! stop-loss and take-profit exits, closing a position into a trade record,
//! and the cash settled at entry and at exit.
use crate::dates::{date_diff, day_number};
use crate::decimal::{
    difference, difference_is_exact, difference_opt, lemma_difference_exact, lemma_pow10_positive,
    lemma_product_exact, lemma_sum_exact, opt_view, pow10, product, product_is_exact, product_opt,
    sum, sum_is_exact, sum_opt, units, valid_repr, Decimal,
};
use crate::short_selling::{
    short_exit_fill_spec, short_sl_fill_price, short_stop_loss_triggered,
    short_take_profit_triggered, short_tp_fill_price,
};
use vstd::prelude::*;

verus! {

/// Whether a position is long or short.
#[derive(Clone, Copy, Debug, PartialEq, Eq, Structural)]
pub enum PositionSide {
    Long,
    Short,
}

impl PositionSide {
    /// "long" or "short", as trades record their direction.
    pub fn as_str(&self) -> (r: &'static str)
        ensures
            r@ == (match self {
                PositionSide::Long => "long"@,
                PositionSide::Short => "short"@,
            }),
    {
        match self {
            PositionSide::Long => "long",
            PositionSide::Short => "short",
        }
    }
}

/// Why a position was closed by a price level.
#[derive(Clone, Copy, Debug, PartialEq, Eq, Structural)]
pub enum ExitReason {
    StopLoss,
    TakeProfit,
}

impl ExitReason {
    /// "stop_loss" or "take_profit", as trades record their exit reason.
    pub fn as_str(&self) -> (r: &'static str)
        ensures
            r@ == (match self {
                ExitReason::StopLoss => "stop_loss"@,
                ExitReason::TakeProfit => "take_profit"@,
            }),
    {
        match self {
            ExitReason::StopLoss => "stop_loss",
            ExitReason::TakeProfit => "take_profit",
        }
    }
}

/// An open position being tracked during a backtest.
pub struct OpenPosition {
    pub symbol: String,
    pub entry_date: String,
    /// The actual fill price, slippage included.
    pub entry_price: Decimal,
    pub shares: Decimal,
    pub stop_loss_price: Option<Decimal>,
    pub take_profit_price: Option<Decimal>,
    pub entry_signal: String,
    pub entry_commission: Decimal,
    pub entry_slippage: Decimal,
    pub direction: PositionSide,
}

/// A round trip (entry and exit) as it is recorded, in decimals.
pub struct ClosedTrade {
    pub symbol: String,
    pub signal: String,
    pub entry_date: String,
    pub exit_date: String,
    pub entry_price: Decimal,
    pub exit_price: Decimal,
    pub shares: Decimal,
    pub profit_loss: Decimal,
    pub holding_period_days: i64,
    pub commission_cost: Decimal,
    pub slippage_cost: Decimal,
    pub exit_reason: String,
    pub direction: PositionSide,
}

// ---------------------------------------------------------------------------
// Specifications of the amounts
// ---------------------------------------------------------------------------

pub open spec fn abs_repr(p: (int, int)) -> (int, int) {
    (
        if p.0 < 0 {
            -p.0
        } else {
            p.0
        },
        p.1,
    )
}

pub open spec fn abs_opt(o: Option<(int, int)>) -> Option<(int, int)> {
    match o {
        Some(p) => Some(abs_repr(p)),
        None => None,
    }
}

/// Fill of a long entry (buying fills above the open): `raw + raw * slippage`.
pub open spec fn long_entry_fill_spec(raw: (int, int), slippage: (int, int)) -> Option<(int, int)> {
    sum_opt(Some(raw), product(raw, slippage))
}

/// Exit fill: a long sells below the raw price, a short covers above it.
pub open spec fn exit_fill_spec(side: PositionSide, raw: (int, int), slippage: (int, int)) -> Option<
    (int, int),
> {
    match side {
        PositionSide::Long => difference_opt(Some(raw), product(raw, slippage)),
        PositionSide::Short => short_exit_fill_spec(raw, slippage),
    }
}

/// Exit slippage cost: `|raw - fill| * shares`.
pub open spec fn exit_slippage_spec(
    side: PositionSide,
    raw: (int, int),
    slippage: (int, int),
    shares: (int, int),
) -> Option<(int, int)> {
    product_opt(abs_opt(difference_opt(Some(raw), exit_fill_spec(side, raw, slippage))), Some(shares))
}

/// Exit commission: `fill * shares * commission_rate`.
pub open spec fn exit_commission_spec(
    side: PositionSide,
    raw: (int, int),
    slippage: (int, int),
    shares: (int, int),
    commission: (int, int),
) -> Option<(int, int)> {
    product_opt(product_opt(exit_fill_spec(side, raw, slippage), Some(shares)), Some(commission))
}

/// Gross profit: `(fill - entry) * shares` for a long, `(entry - fill) * shares`
/// for a short.
pub open spec fn gross_pnl_spec(
    side: PositionSide,
    entry: (int, int),
    fill: Option<(int, int)>,
    shares: (int, int),
) -> Option<(int, int)> {
    match side {
        PositionSide::Long => product_opt(difference_opt(fill, Some(entry)), Some(shares)),
        PositionSide::Short => product_opt(difference_opt(Some(entry), fill), Some(shares)),
    }
}

/// Commissions of the round trip: entry plus exit.
pub open spec fn total_commission_spec(
    pos: OpenPosition,
    raw: (int, int),
    commission: (int, int),
    slippage: (int, int),
) -> Option<(int, int)> {
    sum_opt(
        Some(pos.entry_commission@),
        exit_commission_spec(pos.direction, raw, slippage, pos.shares@, commission),
    )
}

/// Net profit of closing `pos` at `raw`: gross profit less both commissions.
pub open spec fn net_pnl_spec(
    pos: OpenPosition,
    raw: (int, int),
    commission: (int, int),
    slippage: (int, int),
) -> Option<(int, int)> {
    difference_opt(
        gross_pnl_spec(
            pos.direction,
            pos.entry_price@,
            exit_fill_spec(pos.direction, raw, slippage),
            pos.shares@,
        ),
        total_commission_spec(pos, raw, commission, slippage),
    )
}

/// Slippage of the round trip: entry plus exit.
pub open spec fn total_slippage_spec(
    pos: OpenPosition,
    raw: (int, int),
    slippage: (int, int),
) -> Option<(int, int)> {
    sum_opt(
        Some(pos.entry_slippage@),
        exit_slippage_spec(pos.direction, raw, slippage, pos.shares@),
    )
}

/// Every amount of closing `pos` at `raw` can be computed (nothing overflows).
pub open spec fn close_defined(
    pos: OpenPosition,
    raw: (int, int),
    commission: (int, int),
    slippage: (int, int),
) -> bool {
    &&& exit_fill_spec(pos.direction, raw, slippage) is Some
    &&& exit_slippage_spec(pos.direction, raw, slippage, pos.shares@) is Some
    &&& exit_commission_spec(pos.direction, raw, slippage, pos.shares@, commission) is Some
    &&& net_pnl_spec(pos, raw, commission, slippage) is Some
    &&& total_commission_spec(pos, raw, commission, slippage) is Some
    &&& total_slippage_spec(pos, raw, slippage) is Some
}

/// Cash after entering: a long pays `fill * shares + commission`, a short
/// receives `fill * shares - commission`.
pub open spec fn entry_cash_spec(
    cash: (int, int),
    side: PositionSide,
    fill: (int, int),
    shares: (int, int),
    commission: (int, int),
) -> Option<(int, int)> {
    match side {
        PositionSide::Long => difference_opt(
            Some(cash),
            sum_opt(product(fill, shares), Some(commission)),
        ),
        PositionSide::Short => sum_opt(
            Some(cash),
            difference_opt(product(fill, shares), Some(commission)),
        ),
    }
}

/// Cash after exiting: a long receives `exit * shares - commission`, a short
/// pays `exit * shares + commission` to cover.
pub open spec fn exit_cash_spec(
    cash: (int, int),
    side: PositionSide,
    exit_price: (int, int),
    shares: (int, int),
    exit_commission: (int, int),
) -> Option<(int, int)> {
    match side {
        PositionSide::Long => sum_opt(
            Some(cash),
            difference_opt(product(exit_price, shares), Some(exit_commission)),
        ),
        PositionSide::Short => difference_opt(
            Some(cash),
            sum_opt(product(exit_price, shares), Some(exit_commission)),
        ),
    }
}

// ---------------------------------------------------------------------------
// Fills and exits
// ---------------------------------------------------------------------------

/// Fill price of a long entry: buying fills above the open,
/// `open + open * slippage`.
pub fn long_entry_fill(open_price: Decimal, slippage_dec: Decimal) -> (r: Decimal)
    requires
        long_entry_fill_spec(open_price@, slippage_dec@) is Some,
    ensures
        Some(r@) == long_entry_fill_spec(open_price@, slippage_dec@),
{
    let cost = open_price.mul(&slippage_dec);
    open_price.add(&cost)
}

/// `long_entry_fill`, or `None` where one of its steps overflows.
pub fn checked_long_entry_fill(open_price: Decimal, slippage_dec: Decimal) -> (r: Option<Decimal>)
    ensures
        opt_view(r) == long_entry_fill_spec(open_price@, slippage_dec@),
{
    match open_price.checked_mul(&slippage_dec) {
        None => None,
        Some(cost) => open_price.checked_add(&cost),
    }
}

/// The stop that protects a long: the trailing stop replaces the fixed stop
/// whenever there is one; the fixed stop applies only without it.
pub fn effective_stop(fixed: Option<Decimal>, trailing: Option<Decimal>) -> (r: Option<Decimal>)
    ensures
        r == (match (fixed, trailing) {
            (_, Some(t)) => Some(t),
            (f, None) => f,
        }),
{
    match trailing {
        Some(t) => Some(t),
        None => fixed,
    }
}

/// What a bar does to a long with the given stop-loss and take-profit: the
/// stop-loss triggers when the low reaches it and fills at the lower of the
/// open and the stop; failing that, the take-profit triggers when the high
/// reaches it and fills at the higher of the open and the target.
pub fn long_exit_check(
    bar_open: Decimal,
    bar_high: Decimal,
    bar_low: Decimal,
    stop_loss: Option<Decimal>,
    take_profit: Option<Decimal>,
) -> (r: Option<(Decimal, ExitReason)>)
    ensures
        r == (if stop_loss is Some && units(bar_low@) <= units(stop_loss.unwrap()@) {
            Some(
                (
                    if units(bar_open@) <= units(stop_loss.unwrap()@) {
                        bar_open
                    } else {
                        stop_loss.unwrap()
                    },
                    ExitReason::StopLoss,
                ),
            )
        } else if take_profit is Some && units(bar_high@) >= units(take_profit.unwrap()@) {
            Some(
                (
                    if units(bar_open@) >= units(take_profit.unwrap()@) {
                        bar_open
                    } else {
                        take_profit.unwrap()
                    },
                    ExitReason::TakeProfit,
                ),
            )
        } else {
            None
        }),
        r matches Some((fill, ExitReason::StopLoss)) ==> units(fill@) <= units(
            stop_loss.unwrap()@,
        ),
        r matches Some((fill, ExitReason::TakeProfit)) ==> units(fill@) >= units(
            take_profit.unwrap()@,
        ),
{
    if let Some(sl) = stop_loss {
        if bar_low.le(&sl) {
            let fill = if bar_open.le(&sl) {
                bar_open
            } else {
                sl
            };
            return Some((fill, ExitReason::StopLoss));
        }
    }
    if let Some(tp) = take_profit {
        if bar_high.ge(&tp) {
            let fill = if bar_open.ge(&tp) {
                bar_open
            } else {
                tp
            };
            return Some((fill, ExitReason::TakeProfit));
        }
    }
    None
}

/// What a bar does to a short: the stop-loss triggers when the high reaches
/// it and fills at the higher of the open and the stop; failing that, the
/// take-profit triggers when the low reaches it and fills at the lower of the
/// open and the target.
pub fn short_exit_check(
    bar_open: Decimal,
    bar_high: Decimal,
    bar_low: Decimal,
    stop_loss: Option<Decimal>,
    take_profit: Option<Decimal>,
) -> (r: Option<(Decimal, ExitReason)>)
    ensures
        r == (if stop_loss is Some && units(bar_high@) >= units(stop_loss.unwrap()@) {
            Some(
                (
                    if units(bar_open@) >= units(stop_loss.unwrap()@) {
                        bar_open
                    } else {
                        stop_loss.unwrap()
                    },
                    ExitReason::StopLoss,
                ),
            )
        } else if take_profit is Some && units(bar_low@) <= units(take_profit.unwrap()@) {
            Some(
                (
                    if units(bar_open@) <= units(take_profit.unwrap()@) {
                        bar_open
                    } else {
                        take_profit.unwrap()
                    },
                    ExitReason::TakeProfit,
                ),
            )
        } else {
            None
        }),
        r matches Some((fill, ExitReason::StopLoss)) ==> units(fill@) >= units(
            stop_loss.unwrap()@,
        ),
        r matches Some((fill, ExitReason::TakeProfit)) ==> units(fill@) <= units(
            take_profit.unwrap()@,
        ),
{
    if let Some(sl) = stop_loss {
        if short_stop_loss_triggered(bar_high, sl) {
            return Some((short_sl_fill_price(bar_open, sl), ExitReason::StopLoss));
        }
    }
    if let Some(tp) = take_profit {
        if short_take_profit_triggered(bar_low, tp) {
            return Some((short_tp_fill_price(bar_open, tp), ExitReason::TakeProfit));
        }
    }
    None
}

// ---------------------------------------------------------------------------
// Closing a position
// ---------------------------------------------------------------------------

/// What closing `pos` at `raw_exit_price` gives: the trade record, the exit
/// commission and the exit slippage, each amount as its spec says.
pub open spec fn closes_as(
    pos: OpenPosition,
    symbol: Seq<char>,
    date: Seq<char>,
    raw_exit_price: Decimal,
    commission_dec: Decimal,
    slippage_dec: Decimal,
    reason: Seq<char>,
    r: (ClosedTrade, Decimal, Decimal),
) -> bool {
    let (trade, exit_commission, exit_slippage) = r;
    &&& Some(trade.exit_price@) == exit_fill_spec(
        pos.direction,
        raw_exit_price@,
        slippage_dec@,
    )
    &&& Some(exit_slippage@) == exit_slippage_spec(
        pos.direction,
        raw_exit_price@,
        slippage_dec@,
        pos.shares@,
    )
    &&& Some(exit_commission@) == exit_commission_spec(
        pos.direction,
        raw_exit_price@,
        slippage_dec@,
        pos.shares@,
        commission_dec@,
    )
    &&& Some(trade.profit_loss@) == net_pnl_spec(
        pos,
        raw_exit_price@,
        commission_dec@,
        slippage_dec@,
    )
    &&& Some(trade.commission_cost@) == total_commission_spec(
        pos,
        raw_exit_price@,
        commission_dec@,
        slippage_dec@,
    )
    &&& Some(trade.slippage_cost@) == total_slippage_spec(
        pos,
        raw_exit_price@,
        slippage_dec@,
    )
    &&& trade.symbol@ == symbol
    &&& trade.signal == pos.entry_signal
    &&& trade.entry_date == pos.entry_date
    &&& trade.exit_date@ == date
    &&& trade.entry_price == pos.entry_price
    &&& trade.shares == pos.shares
    &&& trade.holding_period_days == (match (
        day_number(pos.entry_date@),
        day_number(date),
    ) {
        (Some(a), Some(b)) => b - a,
        _ => 0,
    })
    &&& trade.exit_reason@ == reason
    &&& trade.direction == pos.direction
}

/// Closes a position with directional slippage: the exit fills below
/// `raw_exit_price` for a long and above it for a short. Returns the trade
/// record with the exit commission and the exit slippage.
pub fn close_position(
    pos: OpenPosition,
    symbol: &str,
    date: &str,
    raw_exit_price: Decimal,
    commission_dec: Decimal,
    slippage_dec: Decimal,
    reason: &str,
) -> (r: (ClosedTrade, Decimal, Decimal))
    requires
        close_defined(pos, raw_exit_price@, commission_dec@, slippage_dec@),
    ensures
        closes_as(pos, symbol@, date@, raw_exit_price, commission_dec, slippage_dec, reason@, r),
{
    let is_short = pos.direction == PositionSide::Short;
    let cost = raw_exit_price.mul(&slippage_dec);
    let fill_price = if is_short {
        raw_exit_price.add(&cost)
    } else {
        raw_exit_price.sub(&cost)
    };
    let exit_slippage = raw_exit_price.sub(&fill_price).abs().mul(&pos.shares);
    let exit_commission = fill_price.mul(&pos.shares).mul(&commission_dec);
    let gross_pnl = if is_short {
        pos.entry_price.sub(&fill_price).mul(&pos.shares)
    } else {
        fill_price.sub(&pos.entry_price).mul(&pos.shares)
    };
    let total_costs = pos.entry_commission.add(&exit_commission);
    let net_pnl = gross_pnl.sub(&total_costs);
    let holding_days = date_diff(pos.entry_date.as_str(), date);
    let trade = ClosedTrade {
        symbol: symbol.to_owned(),
        signal: pos.entry_signal,
        entry_date: pos.entry_date,
        exit_date: date.to_owned(),
        entry_price: pos.entry_price,
        exit_price: fill_price,
        shares: pos.shares,
        profit_loss: net_pnl,
        holding_period_days: holding_days,
        commission_cost: total_costs,
        slippage_cost: pos.entry_slippage.add(&exit_slippage),
        exit_reason: reason.to_owned(),
        direction: pos.direction,
    };
    (trade, exit_commission, exit_slippage)
}

/// `close_position`, or `None` where one of its amounts overflows.
pub fn checked_close_position(
    pos: OpenPosition,
    symbol: &str,
    date: &str,
    raw_exit_price: Decimal,
    commission_dec: Decimal,
    slippage_dec: Decimal,
    reason: &str,
) -> (r: Option<(ClosedTrade, Decimal, Decimal)>)
    ensures
        r is Some <==> close_defined(pos, raw_exit_price@, commission_dec@, slippage_dec@),
        r matches Some(x) ==> closes_as(
            pos,
            symbol@,
            date@,
            raw_exit_price,
            commission_dec,
            slippage_dec,
            reason@,
            x,
        ),
{
    if close_amounts_defined(&pos, raw_exit_price, commission_dec, slippage_dec) {
        Some(
            close_position(pos, symbol, date, raw_exit_price, commission_dec, slippage_dec, reason),
        )
    } else {
        None
    }
}

/// Whether every amount of closing `pos` at `raw_exit_price` can be computed.
fn close_amounts_defined(
    pos: &OpenPosition,
    raw_exit_price: Decimal,
    commission_dec: Decimal,
    slippage_dec: Decimal,
) -> (r: bool)
    ensures
        r == close_defined(*pos, raw_exit_price@, commission_dec@, slippage_dec@),
{
    let cost = match raw_exit_price.checked_mul(&slippage_dec) {
        Some(c) => c,
        None => return false,
    };
    let fill = match pos.direction {
        PositionSide::Short => raw_exit_price.checked_add(&cost),
        PositionSide::Long => raw_exit_price.checked_sub(&cost),
    };
    let fill = match fill {
        Some(f) => f,
        None => return false,
    };
    let slip = match raw_exit_price.checked_sub(&fill) {
        Some(d) => match d.abs().checked_mul(&pos.shares) {
            Some(s) => s,
            None => return false,
        },
        None => return false,
    };
    let comm = match fill.checked_mul(&pos.shares) {
        Some(n) => match n.checked_mul(&commission_dec) {
            Some(c) => c,
            None => return false,
        },
        None => return false,
    };
    let gross = match pos.direction {
        PositionSide::Short => pos.entry_price.checked_sub(&fill),
        PositionSide::Long => fill.checked_sub(&pos.entry_price),
    };
    let gross = match gross {
        Some(d) => match d.checked_mul(&pos.shares) {
            Some(g) => g,
            None => return false,
        },
        None => return false,
    };
    let costs = match pos.entry_commission.checked_add(&comm) {
        Some(c) => c,
        None => return false,
    };
    if gross.checked_sub(&costs).is_none() {
        return false;
    }
    pos.entry_slippage.checked_add(&slip).is_some()
}

// ---------------------------------------------------------------------------
// Cash settlement
// ---------------------------------------------------------------------------

/// Cash after opening a position: a long pays `fill * shares + commission`,
/// a short receives `fill * shares - commission`.
pub fn settle_entry(
    cash: Decimal,
    side: PositionSide,
    fill_price: Decimal,
    shares: Decimal,
    commission: Decimal,
) -> (r: Decimal)
    requires
        entry_cash_spec(cash@, side, fill_price@, shares@, commission@) is Some,
    ensures
        Some(r@) == entry_cash_spec(cash@, side, fill_price@, shares@, commission@),
{
    let notional = fill_price.mul(&shares);
    match side {
        PositionSide::Long => cash.sub(&notional.add(&commission)),
        PositionSide::Short => cash.add(&notional.sub(&commission)),
    }
}

/// `settle_entry`, or `None` where one of its steps overflows.
pub fn checked_settle_entry(
    cash: Decimal,
    side: PositionSide,
    fill_price: Decimal,
    shares: Decimal,
    commission: Decimal,
) -> (r: Option<Decimal>)
    ensures
        opt_view(r) == entry_cash_spec(cash@, side, fill_price@, shares@, commission@),
{
    let notional = match fill_price.checked_mul(&shares) {
        Some(n) => n,
        None => return None,
    };
    match side {
        PositionSide::Long => match notional.checked_add(&commission) {
            Some(c) => cash.checked_sub(&c),
            None => None,
        },
        PositionSide::Short => match notional.checked_sub(&commission) {
            Some(c) => cash.checked_add(&c),
            None => None,
        },
    }
}

/// Cash after closing `trade`: a long receives `exit * shares - commission`,
/// a short pays `exit * shares + commission`.
pub fn settle_exit(cash: Decimal, trade: &ClosedTrade, exit_commission: Decimal) -> (r: Decimal)
    requires
        exit_cash_spec(
            cash@,
            trade.direction,
            trade.exit_price@,
            trade.shares@,
            exit_commission@,
        ) is Some,
    ensures
        Some(r@) == exit_cash_spec(
            cash@,
            trade.direction,
            trade.exit_price@,
            trade.shares@,
            exit_commission@,
        ),
{
    let notional = trade.exit_price.mul(&trade.shares);
    match trade.direction {
        PositionSide::Long => cash.add(&notional.sub(&exit_commission)),
        PositionSide::Short => cash.sub(&notional.add(&exit_commission)),
    }
}

/// `settle_exit`, or `None` where one of its steps overflows.
pub fn checked_settle_exit(cash: Decimal, trade: &ClosedTrade, exit_commission: Decimal) -> (r:
    Option<Decimal>)
    ensures
        opt_view(r) == exit_cash_spec(
            cash@,
            trade.direction,
            trade.exit_price@,
            trade.shares@,
            exit_commission@,
        ),
{
    let notional = match trade.exit_price.checked_mul(&trade.shares) {
        Some(n) => n,
        None => return None,
    };
    match trade.direction {
        PositionSide::Long => match notional.checked_sub(&exit_commission) {
            Some(c) => cash.checked_add(&c),
            None => None,
        },
        PositionSide::Short => match notional.checked_add(&exit_commission) {
            Some(c) => cash.checked_sub(&c),
            None => None,
        },
    }
}

// ---------------------------------------------------------------------------
// Laws
// ---------------------------------------------------------------------------

/// Entering is computed without rounding.
pub open spec fn entry_cash_exact(
    cash: (int, int),
    side: PositionSide,
    fill: (int, int),
    shares: (int, int),
    commission: (int, int),
) -> bool {
    &&& product_is_exact(fill, shares)
    &&& match side {
        PositionSide::Long => {
            &&& sum_is_exact(product(fill, shares).unwrap(), commission)
            &&& difference_is_exact(cash, sum(product(fill, shares).unwrap(), commission).unwrap())
        },
        PositionSide::Short => {
            &&& difference_is_exact(product(fill, shares).unwrap(), commission)
            &&& sum_is_exact(cash, difference(product(fill, shares).unwrap(), commission).unwrap())
        },
    }
}

/// Exiting is computed without rounding.
pub open spec fn exit_cash_exact(
    cash: (int, int),
    side: PositionSide,
    exit_price: (int, int),
    shares: (int, int),
    exit_commission: (int, int),
) -> bool {
    &&& product_is_exact(exit_price, shares)
    &&& match side {
        PositionSide::Long => {
            &&& difference_is_exact(product(exit_price, shares).unwrap(), exit_commission)
            &&& sum_is_exact(
                cash,
                difference(product(exit_price, shares).unwrap(), exit_commission).unwrap(),
            )
        },
        PositionSide::Short => {
            &&& sum_is_exact(product(exit_price, shares).unwrap(), exit_commission)
            &&& difference_is_exact(
                cash,
                sum(product(exit_price, shares).unwrap(), exit_commission).unwrap(),
            )
        },
    }
}

/// The net profit of a round trip is computed without rounding.
pub open spec fn net_pnl_exact(
    side: PositionSide,
    entry: (int, int),
    exit: (int, int),
    shares: (int, int),
    entry_commission: (int, int),
    exit_commission: (int, int),
) -> bool {
    let move_ = match side {
        PositionSide::Long => difference(exit, entry),
        PositionSide::Short => difference(entry, exit),
    };
    &&& match side {
        PositionSide::Long => difference_is_exact(exit, entry),
        PositionSide::Short => difference_is_exact(entry, exit),
    }
    &&& product_is_exact(move_.unwrap(), shares)
    &&& sum_is_exact(entry_commission, exit_commission)
    &&& difference_is_exact(
        product(move_.unwrap(), shares).unwrap(),
        sum(entry_commission, exit_commission).unwrap(),
    )
}

/// Cash is conserved over a round trip: entering a position and then closing
/// it changes cash by exactly the trade's net profit (gross profit less both
/// commissions), for longs and shorts alike, whenever no step rounds.
pub proof fn law_round_trip_cash_is_net_pnl(
    pos: OpenPosition,
    cash: Decimal,
    raw_exit_price: Decimal,
    commission_dec: Decimal,
    slippage_dec: Decimal,
    exit_price: Decimal,
    exit_commission: Decimal,
)
    requires
        valid_repr(cash@),
        valid_repr(pos.entry_price@),
        valid_repr(pos.shares@),
        valid_repr(pos.entry_commission@),
        valid_repr(exit_price@),
        valid_repr(exit_commission@),
        close_defined(pos, raw_exit_price@, commission_dec@, slippage_dec@),
        Some(exit_price@) == exit_fill_spec(pos.direction, raw_exit_price@, slippage_dec@),
        Some(exit_commission@) == exit_commission_spec(
            pos.direction,
            raw_exit_price@,
            slippage_dec@,
            pos.shares@,
            commission_dec@,
        ),
        entry_cash_exact(
            cash@,
            pos.direction,
            pos.entry_price@,
            pos.shares@,
            pos.entry_commission@,
        ),
        exit_cash_exact(
            entry_cash_spec(
                cash@,
                pos.direction,
                pos.entry_price@,
                pos.shares@,
                pos.entry_commission@,
            ).unwrap(),
            pos.direction,
            exit_price@,
            pos.shares@,
            exit_commission@,
        ),
        net_pnl_exact(
            pos.direction,
            pos.entry_price@,
            exit_price@,
            pos.shares@,
            pos.entry_commission@,
            exit_commission@,
        ),
    ensures
        entry_cash_spec(
            cash@,
            pos.direction,
            pos.entry_price@,
            pos.shares@,
            pos.entry_commission@,
        ) is Some,
        exit_cash_spec(
            entry_cash_spec(
                cash@,
                pos.direction,
                pos.entry_price@,
                pos.shares@,
                pos.entry_commission@,
            ).unwrap(),
            pos.direction,
            exit_price@,
            pos.shares@,
            exit_commission@,
        ) is Some,
        units(
            exit_cash_spec(
                entry_cash_spec(
                    cash@,
                    pos.direction,
                    pos.entry_price@,
                    pos.shares@,
                    pos.entry_commission@,
                ).unwrap(),
                pos.direction,
                exit_price@,
                pos.shares@,
                exit_commission@,
            ).unwrap(),
        ) - units(cash@) == units(
            net_pnl_spec(pos, raw_exit_price@, commission_dec@, slippage_dec@).unwrap(),
        ),
{
    let side = pos.direction;
    let f = pos.entry_price@;
    let sh = pos.shares@;
    let ce = pos.entry_commission@;
    let x = exit_price@;
    let cx = exit_commission@;
    let c = cash@;
    lemma_pow10_positive(28);
    let big = pow10(28);
    // entry
    lemma_product_exact(f, sh);
    let nf = product(f, sh).unwrap();
    let after_entry = entry_cash_spec(c, side, f, sh, ce).unwrap();
    match side {
        PositionSide::Long => {
            lemma_sum_exact(nf, ce);
            lemma_difference_exact(c, sum(nf, ce).unwrap());
        },
        PositionSide::Short => {
            lemma_difference_exact(nf, ce);
            lemma_sum_exact(c, difference(nf, ce).unwrap());
        },
    }
    // exit
    lemma_product_exact(x, sh);
    let nx = product(x, sh).unwrap();
    match side {
        PositionSide::Long => {
            lemma_difference_exact(nx, cx);
            lemma_sum_exact(after_entry, difference(nx, cx).unwrap());
        },
        PositionSide::Short => {
            lemma_sum_exact(nx, cx);
            lemma_difference_exact(after_entry, sum(nx, cx).unwrap());
        },
    }
    let after_exit = exit_cash_spec(after_entry, side, x, sh, cx).unwrap();
    // net profit
    let mv = match side {
        PositionSide::Long => difference(x, f),
        PositionSide::Short => difference(f, x),
    };
    match side {
        PositionSide::Long => lemma_difference_exact(x, f),
        PositionSide::Short => lemma_difference_exact(f, x),
    }
    lemma_product_exact(mv.unwrap(), sh);
    lemma_sum_exact(ce, cx);
    lemma_difference_exact(product(mv.unwrap(), sh).unwrap(), sum(ce, cx).unwrap());
    assert(net_pnl_spec(pos, raw_exit_price@, commission_dec@, slippage_dec@) == difference(
        product(mv.unwrap(), sh).unwrap(),
        sum(ce, cx).unwrap(),
    ));
    let g = units(product(mv.unwrap(), sh).unwrap());
    let uf = units(f);
    let ux = units(x);
    let us = units(sh);
    let unf = units(nf);
    let unx = units(nx);
    assert(unf * big == uf * us);
    assert(unx * big == ux * us);
    match side {
        PositionSide::Long => {
            assert(g * big == (ux - uf) * us);
            assert((ux - uf) * us == ux * us - uf * us) by (nonlinear_arith);
            assert((g - (unx - unf)) * big == 0) by (nonlinear_arith)
                requires
                    g * big == ux * us - uf * us,
                    unf * big == uf * us,
                    unx * big == ux * us,
            ;
        },
        PositionSide::Short => {
            assert(g * big == (uf - ux) * us);
            assert((uf - ux) * us == uf * us - ux * us) by (nonlinear_arith);
            assert((g - (unf - unx)) * big == 0) by (nonlinear_arith)
                requires
                    g * big == uf * us - ux * us,
                    unf * big == uf * us,
                    unx * big == ux * us,
            ;
        },
    }
    assert(g == match side {
        PositionSide::Long => unx - unf,
        PositionSide::Short => unf - unx,
    }) by (nonlinear_arith)
        requires
            big > 0,
            side is Long ==> (g - (unx - unf)) * big == 0,
            side is Short ==> (g - (unf - unx)) * big == 0,
    ;
}

} // verus!
