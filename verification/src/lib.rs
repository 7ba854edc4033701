use vstd::prelude::*;

pub mod api_breaker;
pub mod broker;
pub mod circuit_breaker;
pub mod combinations;
pub mod data_quality;
pub mod dates;
pub mod decimal;
pub mod holding_periods;
pub mod models;
pub mod monte_carlo;
pub mod order_types;
pub mod param_grid;
pub mod positions;
pub mod rate_limit;
pub mod retry;
pub mod rotation;
pub mod sector_etfs;
pub mod short_selling;
pub mod signals;
pub mod streaks;
pub mod symbol_pnl;
pub mod time_in_market;
pub mod timeframe_agg;
pub mod text;
pub mod trailing_stop;
pub mod uncertainty;
pub mod watchlist;

verus! {

} // verus!
