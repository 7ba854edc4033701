//! Plain records and defaults shared by the backtest engine.
use vstd::prelude::*;

verus! {

/// How a signal is executed.
#[derive(Debug, Clone, Copy, PartialEq, Eq, Structural)]
pub enum OrderType {
    Market,
    Limit,
    StopLimit,
}

impl Default for OrderType {
    /// Signals are market orders unless they say otherwise.
    fn default() -> (r: OrderType)
        ensures
            r == OrderType::Market,
    {
        OrderType::Market
    }
}

/// A data quality warning about one bar of one symbol.
#[derive(Debug)]
pub struct DataWarning {
    pub date: String,
    pub symbol: String,
    pub warning_type: String,
    pub message: String,
}

/// Monte Carlo settings.
#[derive(Debug, Clone, Copy)]
pub struct MonteCarloConfig {
    /// Number of simulations to run.
    pub num_simulations: i32,
    /// Block size for block bootstrap (1 = standard shuffle).
    pub block_size: usize,
    /// Whether to vary commission and slippage by +/-20%.
    pub parameter_uncertainty: bool,
}

/// The market regime detected from recent volatility.
#[derive(Debug, Clone, Copy, PartialEq, Eq, Structural)]
pub enum Regime {
    HighVol,
    LowVol,
    Normal,
}

/// Bars of history the regime detector looks back over, by default.
pub fn default_regime_lookback() -> (r: usize)
    ensures
        r == 60,
{
    60
}

/// Monte Carlo simulations run by default.
pub fn default_mc_simulations() -> (r: i32)
    ensures
        r == 1000,
{
    1000
}

/// Block size of the block bootstrap by default (1 = plain shuffle).
pub fn default_block_size() -> (r: usize)
    ensures
        r == 1,
{
    1
}

/// Days of volume history averaged for market impact, by default.
pub fn default_adv_lookback() -> (r: usize)
    ensures
        r == 20,
{
    20
}

/// Days of return history used for the volatility in market impact, by
/// default.
pub fn default_vol_lookback() -> (r: usize)
    ensures
        r == 20,
{
    20
}

impl MonteCarloConfig {
    /// The settings a config file gets when it names none of them.
    pub fn with_defaults() -> (r: MonteCarloConfig)
        ensures
            r.num_simulations == 1000,
            r.block_size == 1,
            !r.parameter_uncertainty,
    {
        MonteCarloConfig {
            num_simulations: default_mc_simulations(),
            block_size: default_block_size(),
            parameter_uncertainty: false,
        }
    }
}

} // verus!
