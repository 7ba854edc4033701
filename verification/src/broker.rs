//! Broker-agnostic account, position and order records, with their decimal
//! fields read from the strings a broker sends.
use crate::decimal::{parsed_decimal, Decimal};
use vstd::prelude::*;

verus! {

/// The decimal a broker string holds, zero when it does not parse.
pub open spec fn decimal_or_zero(s: Seq<char>) -> (int, int) {
    match parsed_decimal(s) {
        Some(p) => p,
        None => (0, 0),
    }
}

/// Parses a decimal string, zero when it does not parse.
pub fn parse_decimal_or_zero(s: &String) -> (r: Decimal)
    ensures
        r@ == decimal_or_zero(s@),
{
    match Decimal::from_str(s.as_str()) {
        Some(d) => d,
        None => Decimal::zero(),
    }
}

/// Parses an optional decimal string (an order's filled quantity or average
/// fill price); `None` when it is absent or does not parse.
pub fn parse_optional_decimal(s: &Option<String>) -> (r: Option<Decimal>)
    ensures
        r is Some <==> (s is Some && parsed_decimal(s->0@) is Some),
        r matches Some(d) ==> Some(d@) == parsed_decimal(s->0@),
{
    match s {
        Some(text) => Decimal::from_str(text.as_str()),
        None => None,
    }
}

#[derive(Debug)]
pub struct BrokerAccount {
    pub id: String,
    pub account_number: String,
    pub status: String,
    pub currency: String,
    pub buying_power: String,
    pub cash: String,
    pub portfolio_value: String,
    pub pattern_day_trader: bool,
    pub trading_blocked: bool,
    pub daytrade_count: i32,
}

impl BrokerAccount {
    pub fn buying_power_decimal(&self) -> (r: Decimal)
        ensures
            r@ == decimal_or_zero(self.buying_power@),
    {
        parse_decimal_or_zero(&self.buying_power)
    }

    pub fn cash_decimal(&self) -> (r: Decimal)
        ensures
            r@ == decimal_or_zero(self.cash@),
    {
        parse_decimal_or_zero(&self.cash)
    }

    pub fn portfolio_value_decimal(&self) -> (r: Decimal)
        ensures
            r@ == decimal_or_zero(self.portfolio_value@),
    {
        parse_decimal_or_zero(&self.portfolio_value)
    }
}

#[derive(Debug)]
pub struct BrokerPosition {
    pub symbol: String,
    pub qty: String,
    pub side: String,
    pub avg_entry_price: String,
    pub market_value: String,
    pub cost_basis: String,
    pub unrealized_pl: String,
    pub unrealized_plpc: String,
    pub unrealized_intraday_pl: String,
    pub current_price: String,
    pub lastday_price: String,
    pub change_today: String,
}

impl BrokerPosition {
    pub fn avg_entry_price_decimal(&self) -> (r: Decimal)
        ensures
            r@ == decimal_or_zero(self.avg_entry_price@),
    {
        parse_decimal_or_zero(&self.avg_entry_price)
    }

    pub fn qty_decimal(&self) -> (r: Decimal)
        ensures
            r@ == decimal_or_zero(self.qty@),
    {
        parse_decimal_or_zero(&self.qty)
    }

    pub fn market_value_decimal(&self) -> (r: Decimal)
        ensures
            r@ == decimal_or_zero(self.market_value@),
    {
        parse_decimal_or_zero(&self.market_value)
    }

    pub fn cost_basis_decimal(&self) -> (r: Decimal)
        ensures
            r@ == decimal_or_zero(self.cost_basis@),
    {
        parse_decimal_or_zero(&self.cost_basis)
    }

    pub fn unrealized_pl_decimal(&self) -> (r: Decimal)
        ensures
            r@ == decimal_or_zero(self.unrealized_pl@),
    {
        parse_decimal_or_zero(&self.unrealized_pl)
    }

    pub fn current_price_decimal(&self) -> (r: Decimal)
        ensures
            r@ == decimal_or_zero(self.current_price@),
    {
        parse_decimal_or_zero(&self.current_price)
    }
}

#[derive(Debug, Clone, Copy, PartialEq, Eq, Structural)]
pub enum BrokerOrderSide {
    Buy,
    Sell,
}

#[derive(Debug)]
pub struct BrokerOrderRequest {
    pub symbol: String,
    pub qty: Decimal,
    pub side: BrokerOrderSide,
}

impl BrokerOrderRequest {
    /// A market buy of `qty` shares of `symbol`.
    pub fn buy(symbol: String, qty: Decimal) -> (r: BrokerOrderRequest)
        ensures
            r.symbol@ == symbol@,
            r.qty == qty,
            r.side == BrokerOrderSide::Buy,
    {
        BrokerOrderRequest { symbol, qty, side: BrokerOrderSide::Buy }
    }

    /// A market sell of `qty` shares of `symbol`.
    pub fn sell(symbol: String, qty: Decimal) -> (r: BrokerOrderRequest)
        ensures
            r.symbol@ == symbol@,
            r.qty == qty,
            r.side == BrokerOrderSide::Sell,
    {
        BrokerOrderRequest { symbol, qty, side: BrokerOrderSide::Sell }
    }
}

} // verus!
