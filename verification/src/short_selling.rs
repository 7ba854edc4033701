//! Short positions: mark-to-market value, profit and loss, fills with
//! directional slippage, and stop-loss / take-profit rules, all inverted with
//! respect to long positions.
use crate::decimal::{
    difference, difference_is_exact, difference_opt, lemma_difference_exact, lemma_pow10_positive,
    lemma_product_exact, lemma_sum_exact, opt_view, pow10, product, product_is_exact, product_opt,
    sum, sum_is_exact, sum_opt, units, valid_repr, Decimal,
};
use vstd::prelude::*;

verus! {

/// `(entry + entry - current) * shares`, as computed with decimals.
pub open spec fn short_mtm_spec(entry: (int, int), current: (int, int), shares: (int, int)) -> Option<
    (int, int),
> {
    product_opt(difference_opt(sum(entry, entry), Some(current)), Some(shares))
}

/// `(entry - exit) * shares`, as computed with decimals.
pub open spec fn short_pnl_spec(entry: (int, int), exit: (int, int), shares: (int, int)) -> Option<
    (int, int),
> {
    product_opt(difference(entry, exit), Some(shares))
}

/// `open - open * slippage`, as computed with decimals.
pub open spec fn short_entry_fill_spec(open: (int, int), slippage: (int, int)) -> Option<(int, int)> {
    difference_opt(Some(open), product(open, slippage))
}

/// `raw + raw * slippage`, as computed with decimals.
pub open spec fn short_exit_fill_spec(raw: (int, int), slippage: (int, int)) -> Option<(int, int)> {
    sum_opt(Some(raw), product(raw, slippage))
}

/// Mark-to-market value of a short position: the cash received at entry plus
/// the unrealized gain, `entry * shares + (entry - current) * shares`, computed
/// as `(entry + entry - current) * shares`.
pub fn short_position_mtm(entry_price: Decimal, current_price: Decimal, shares: Decimal) -> (r:
    Decimal)
    requires
        short_mtm_spec(entry_price@, current_price@, shares@) is Some,
    ensures
        Some(r@) == short_mtm_spec(entry_price@, current_price@, shares@),
{
    let doubled = entry_price.add(&entry_price);
    let diff = doubled.sub(&current_price);
    diff.mul(&shares)
}

/// `short_position_mtm`, or `None` where one of its steps overflows.
pub fn checked_short_position_mtm(entry_price: Decimal, current_price: Decimal, shares: Decimal) -> (r:
    Option<Decimal>)
    ensures
        opt_view(r) == short_mtm_spec(entry_price@, current_price@, shares@),
{
    match entry_price.checked_add(&entry_price) {
        None => None,
        Some(doubled) => match doubled.checked_sub(&current_price) {
            None => None,
            Some(diff) => diff.checked_mul(&shares),
        },
    }
}

/// Profit of closing a short: `(entry - exit) * shares`, the inverse of a long.
pub fn short_pnl(entry_price: Decimal, exit_price: Decimal, shares: Decimal) -> (r: Decimal)
    requires
        short_pnl_spec(entry_price@, exit_price@, shares@) is Some,
    ensures
        Some(r@) == short_pnl_spec(entry_price@, exit_price@, shares@),
{
    let diff = entry_price.sub(&exit_price);
    diff.mul(&shares)
}

/// `short_pnl`, or `None` where one of its steps overflows.
pub fn checked_short_pnl(entry_price: Decimal, exit_price: Decimal, shares: Decimal) -> (r: Option<
    Decimal,
>)
    ensures
        opt_view(r) == short_pnl_spec(entry_price@, exit_price@, shares@),
{
    match entry_price.checked_sub(&exit_price) {
        None => None,
        Some(diff) => diff.checked_mul(&shares),
    }
}

/// Fill price of a short entry: selling fills below the open,
/// `open - open * slippage`.
pub fn short_entry_fill(open_price: Decimal, slippage_dec: Decimal) -> (r: Decimal)
    requires
        short_entry_fill_spec(open_price@, slippage_dec@) is Some,
    ensures
        Some(r@) == short_entry_fill_spec(open_price@, slippage_dec@),
{
    let cost = open_price.mul(&slippage_dec);
    open_price.sub(&cost)
}

/// `short_entry_fill`, or `None` where one of its steps overflows.
pub fn checked_short_entry_fill(open_price: Decimal, slippage_dec: Decimal) -> (r: Option<Decimal>)
    ensures
        opt_view(r) == short_entry_fill_spec(open_price@, slippage_dec@),
{
    match open_price.checked_mul(&slippage_dec) {
        None => None,
        Some(cost) => open_price.checked_sub(&cost),
    }
}

/// Fill price of a short exit (buy to cover): buying fills above the raw
/// price, `raw + raw * slippage`.
pub fn short_exit_fill(raw_price: Decimal, slippage_dec: Decimal) -> (r: Decimal)
    requires
        short_exit_fill_spec(raw_price@, slippage_dec@) is Some,
    ensures
        Some(r@) == short_exit_fill_spec(raw_price@, slippage_dec@),
{
    let cost = raw_price.mul(&slippage_dec);
    raw_price.add(&cost)
}

/// `short_exit_fill`, or `None` where one of its steps overflows.
pub fn checked_short_exit_fill(raw_price: Decimal, slippage_dec: Decimal) -> (r: Option<Decimal>)
    ensures
        opt_view(r) == short_exit_fill_spec(raw_price@, slippage_dec@),
{
    match raw_price.checked_mul(&slippage_dec) {
        None => None,
        Some(cost) => raw_price.checked_add(&cost),
    }
}

/// A short's stop-loss triggers when the price rises to the stop.
pub fn short_stop_loss_triggered(bar_high: Decimal, stop_loss_price: Decimal) -> (r: bool)
    ensures
        r == (units(bar_high@) >= units(stop_loss_price@)),
{
    bar_high.ge(&stop_loss_price)
}

/// A short's take-profit triggers when the price falls to the target.
pub fn short_take_profit_triggered(bar_low: Decimal, take_profit_price: Decimal) -> (r: bool)
    ensures
        r == (units(bar_low@) <= units(take_profit_price@)),
{
    bar_low.le(&take_profit_price)
}

/// Stop-loss fill for a short: when the bar opens at or above the stop the
/// fill is the (worse) open, otherwise the stop.
pub fn short_sl_fill_price(bar_open: Decimal, stop_loss_price: Decimal) -> (r: Decimal)
    ensures
        r == (if units(bar_open@) >= units(stop_loss_price@) {
            bar_open
        } else {
            stop_loss_price
        }),
        units(r@) >= units(stop_loss_price@),
{
    if bar_open.ge(&stop_loss_price) {
        bar_open
    } else {
        stop_loss_price
    }
}

/// Take-profit fill for a short: when the bar opens at or below the target
/// the fill is the (better) open, otherwise the target.
pub fn short_tp_fill_price(bar_open: Decimal, take_profit_price: Decimal) -> (r: Decimal)
    ensures
        r == (if units(bar_open@) <= units(take_profit_price@) {
            bar_open
        } else {
            take_profit_price
        }),
        units(r@) <= units(take_profit_price@),
{
    if bar_open.le(&take_profit_price) {
        bar_open
    } else {
        take_profit_price
    }
}

// ---------------------------------------------------------------------------
// Laws
// ---------------------------------------------------------------------------

/// A short's mark-to-market value is the cash received at entry plus its
/// unrealized profit: `mtm(e, c, s) = e * s + pnl(e, c, s)`, whenever every
/// step of the three computations is exact.
pub proof fn law_short_mtm_is_entry_value_plus_pnl(
    entry: (int, int),
    current: (int, int),
    shares: (int, int),
)
    requires
        valid_repr(entry),
        valid_repr(current),
        valid_repr(shares),
        sum_is_exact(entry, entry),
        difference_is_exact(sum(entry, entry).unwrap(), current),
        product_is_exact(difference(sum(entry, entry).unwrap(), current).unwrap(), shares),
        difference_is_exact(entry, current),
        product_is_exact(difference(entry, current).unwrap(), shares),
        product_is_exact(entry, shares),
    ensures
        short_mtm_spec(entry, current, shares) is Some,
        short_pnl_spec(entry, current, shares) is Some,
        product(entry, shares) is Some,
        units(short_mtm_spec(entry, current, shares).unwrap()) == units(
            product(entry, shares).unwrap(),
        ) + units(short_pnl_spec(entry, current, shares).unwrap()),
{
    lemma_sum_exact(entry, entry);
    let doubled = sum(entry, entry).unwrap();
    lemma_difference_exact(doubled, current);
    let diff = difference(doubled, current).unwrap();
    lemma_product_exact(diff, shares);
    lemma_difference_exact(entry, current);
    let pdiff = difference(entry, current).unwrap();
    lemma_product_exact(pdiff, shares);
    lemma_product_exact(entry, shares);
    let m = units(short_mtm_spec(entry, current, shares).unwrap());
    let v = units(product(entry, shares).unwrap());
    let p = units(short_pnl_spec(entry, current, shares).unwrap());
    let e = units(entry);
    let c = units(current);
    let s = units(shares);
    assert(m * pow10(28) == (e + e - c) * s);
    assert(v * pow10(28) == e * s);
    assert(p * pow10(28) == (e - c) * s);
    assert((e + e - c) * s == e * s + (e - c) * s) by (nonlinear_arith);
    lemma_pow10_positive(28);
    assert((m - v - p) * pow10(28) == 0) by (nonlinear_arith)
        requires
            m * pow10(28) == e * s + (e - c) * s,
            v * pow10(28) == e * s,
            p * pow10(28) == (e - c) * s,
    ;
    assert(m - v - p == 0) by (nonlinear_arith)
        requires
            (m - v - p) * pow10(28) == 0,
            pow10(28) > 0,
    ;
}

/// A short profits exactly when the exit is below the entry: for a positive
/// share count and an exact computation, `pnl > 0` iff `exit < entry`, and
/// `pnl < 0` iff `exit > entry`.
pub proof fn law_short_pnl_sign(entry: (int, int), exit: (int, int), shares: (int, int))
    requires
        valid_repr(entry),
        valid_repr(exit),
        valid_repr(shares),
        units(shares) > 0,
        difference_is_exact(entry, exit),
        product_is_exact(difference(entry, exit).unwrap(), shares),
    ensures
        short_pnl_spec(entry, exit, shares) is Some,
        units(short_pnl_spec(entry, exit, shares).unwrap()) > 0 <==> units(exit) < units(entry),
        units(short_pnl_spec(entry, exit, shares).unwrap()) < 0 <==> units(exit) > units(entry),
{
    lemma_difference_exact(entry, exit);
    let d = difference(entry, exit).unwrap();
    lemma_product_exact(d, shares);
    let p = units(short_pnl_spec(entry, exit, shares).unwrap());
    let dv = units(d);
    let s = units(shares);
    lemma_pow10_positive(28);
    assert(p > 0 <==> dv > 0) by (nonlinear_arith)
        requires
            p * pow10(28) == dv * s,
            s > 0,
            pow10(28) > 0,
    ;
    assert(p < 0 <==> dv < 0) by (nonlinear_arith)
        requires
            p * pow10(28) == dv * s,
            s > 0,
            pow10(28) > 0,
    ;
}

/// Slippage is adverse on both sides of a short: with a non-negative
/// slippage rate and exact arithmetic, the entry fills at or below the open
/// and the cover fills at or above the raw price.
pub proof fn law_short_slippage_is_adverse(price: (int, int), slippage: (int, int))
    requires
        valid_repr(price),
        valid_repr(slippage),
        units(price) >= 0,
        units(slippage) >= 0,
        product_is_exact(price, slippage),
        difference_is_exact(price, product(price, slippage).unwrap()),
        sum_is_exact(price, product(price, slippage).unwrap()),
    ensures
        short_entry_fill_spec(price, slippage) is Some,
        short_exit_fill_spec(price, slippage) is Some,
        units(short_entry_fill_spec(price, slippage).unwrap()) <= units(price),
        units(short_exit_fill_spec(price, slippage).unwrap()) >= units(price),
{
    lemma_product_exact(price, slippage);
    let cost = product(price, slippage).unwrap();
    lemma_difference_exact(price, cost);
    lemma_sum_exact(price, cost);
    let c = units(cost);
    lemma_pow10_positive(28);
    assert(c >= 0) by (nonlinear_arith)
        requires
            c * pow10(28) == units(price) * units(slippage),
            units(price) >= 0,
            units(slippage) >= 0,
            pow10(28) > 0,
    ;
}

} // verus!
