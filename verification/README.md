# backtest_core

A trading backtest library whose decision logic is verified with Verus.

`src/` is the verified library:

- `decimal` — fixed-point decimals with the representation that `rust_decimal`
  uses; arithmetic, comparison, parsing and rounding are done by `rust_decimal`
  behind small trusted wrappers, and every contract says which representation
  comes back.
- `positions`, `short_selling`, `trailing_stop`, `order_types`, `symbol_pnl`,
  `circuit_breaker` — fills with directional slippage, stop-loss and
  take-profit exits, closing and settling trades, ratcheting trailing stops,
  limit orders, the per-symbol P&L ledger and the drawdown halt latch.
- `streaks`, `holding_periods`, `time_in_market`, `timeframe_agg`,
  `data_quality`, `dates` — trade analytics that need no floating point:
  win/loss runs, holding-period buckets, calendar coverage, weekly bars,
  calendar gaps.
- `combinations`, `param_grid`, `monte_carlo` — train/test combinations, the
  capped parameter grid of walk-forward optimisation, random trade orders and
  bootstrap resamples.
- `broker`, `models`, `rotation`, `sector_etfs`, `signals`, `uncertainty`,
  `text`, `rate_limit`, `retry`, `api_breaker`, `watchlist` — records, labels and small
  services.

Each module ends with its laws: public proof functions that state properties
spanning several calls (a round trip's cash change is its net P&L, weekly
groups partition the days by ISO week, a halt is permanent, and so on).

`tests/` exercises the library on concrete values.

`app/` holds what works in floating point (metrics, sizing, calibration,
sector-flow models), the day-by-day backtest loop that drives the library,
the serde records and the async broker client trait.
