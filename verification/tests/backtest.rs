use backtest_core::circuit_breaker::HaltLatch;
use backtest_core::combinations::generate_combinations;
use backtest_core::data_quality::{cap_warnings, date_gap, missing_days_in_gap, MAX_WARNINGS};
use backtest_core::dates::{date_diff, iso_week_number};
use backtest_core::decimal::Decimal;
use backtest_core::holding_periods::{holding_bucket_name, holding_period_bucket};
use backtest_core::models::{
    default_adv_lookback, default_block_size, default_mc_simulations, default_regime_lookback,
    default_vol_lookback, DataWarning, MonteCarloConfig, OrderType,
};
use backtest_core::monte_carlo::{resample_indices, shuffled_order};
use backtest_core::order_types::LimitOrderManager;
use backtest_core::param_grid::generate_param_grid;
use backtest_core::positions::{
    checked_close_position, close_position, effective_stop, long_entry_fill, long_exit_check, settle_entry, settle_exit,
    short_exit_check, ExitReason, OpenPosition, PositionSide,
};
use backtest_core::short_selling::{
    checked_short_pnl, short_entry_fill, short_exit_fill, short_pnl, short_position_mtm,
    short_sl_fill_price, short_stop_loss_triggered, short_take_profit_triggered,
    short_tp_fill_price,
};
use backtest_core::streaks::{
    max_consecutive_streaks, run_length_counts, streak_runs, summarize_runs, winning_trades,
};
use backtest_core::symbol_pnl::{record_symbol_pnl, symbol_totals, SymbolStats};
use backtest_core::time_in_market::{market_presence, TradeSpan};
use backtest_core::timeframe_agg::{aggregate_to_weekly, PriceBar};
use backtest_core::trailing_stop::TrailingStopManager;
use rust_decimal::prelude::{FromPrimitive, ToPrimitive};

fn dec(x: f64) -> Decimal {
    let r = rust_decimal::Decimal::from_f64(x).unwrap();
    Decimal::try_from_i128_with_scale(r.mantissa(), r.scale()).unwrap()
}

fn to_f64(d: &Decimal) -> f64 {
    rust_decimal::Decimal::from_i128_with_scale(d.mantissa(), d.scale())
        .to_f64()
        .unwrap()
}

fn price_bar(date: &str, open: f64, high: f64, low: f64, close: f64) -> PriceBar {
    PriceBar {
        date: date.to_string(),
        open: dec(open),
        high: dec(high),
        low: dec(low),
        close: dec(close),
    }
}

#[test]
fn test_weekly_aggregation() {
    let daily = vec![
        price_bar("2024-01-08", 100.0, 105.0, 99.0, 103.0),
        price_bar("2024-01-09", 103.0, 107.0, 102.0, 106.0),
        price_bar("2024-01-10", 106.0, 108.0, 104.0, 105.0),
        price_bar("2024-01-11", 105.0, 110.0, 104.0, 109.0),
        price_bar("2024-01-12", 109.0, 112.0, 108.0, 111.0),
        price_bar("2024-01-15", 111.0, 115.0, 110.0, 113.0),
        price_bar("2024-01-16", 113.0, 116.0, 112.0, 115.0),
    ];
    let volumes = [1_000.0, 2_000.0, 1_500.0, 3_000.0, 2_500.0, 2_000.0, 1_800.0];

    let weekly = aggregate_to_weekly(&daily);

    assert_eq!(weekly.len(), 2, "Should produce 2 weekly bars");

    let w1 = &weekly[0];
    let volume: f64 = volumes[w1.first..w1.end].iter().sum();
    assert_eq!(to_f64(&w1.open), 100.0, "Week 1 open = Monday open");
    assert_eq!(to_f64(&w1.close), 111.0, "Week 1 close = Friday close");
    assert_eq!(to_f64(&w1.high), 112.0, "Week 1 high = max");
    assert_eq!(to_f64(&w1.low), 99.0, "Week 1 low = min");
    assert_eq!(volume, 10_000.0, "Week 1 volume = sum");
}

#[test]
fn weekly_aggregation_dates_and_ranges() {
    let daily = vec![
        price_bar("2024-01-12", 10.0, 11.0, 9.0, 10.5),
        price_bar("2024-01-15", 10.5, 12.0, 10.0, 11.5),
        price_bar("2024-01-19", 11.5, 11.8, 8.0, 9.0),
        price_bar("2024-12-30", 9.0, 9.5, 8.5, 9.2),
        price_bar("2025-01-02", 9.2, 9.9, 9.1, 9.8),
    ];
    let weekly = aggregate_to_weekly(&daily);
    // 2024-W02, 2024-W03, and 2025-W01 (Dec 30 and Jan 2 share an ISO week).
    assert_eq!(weekly.len(), 3);
    assert_eq!((weekly[0].first, weekly[0].end), (0, 1));
    assert_eq!((weekly[1].first, weekly[1].end), (1, 3));
    assert_eq!((weekly[2].first, weekly[2].end), (3, 5));
    assert_eq!(weekly[1].date, "2024-01-19");
    assert_eq!(to_f64(&weekly[1].low), 8.0);
    assert_eq!(to_f64(&weekly[1].high), 12.0);
    assert_eq!(weekly[2].date, "2025-01-02");
    assert!(aggregate_to_weekly(&Vec::new()).is_empty());
}

#[test]
fn test_short_mtm() {
    let mtm = short_position_mtm(Decimal::from_i64(100), Decimal::from_i64(90), Decimal::from_i64(10));
    assert_eq!(to_f64(&mtm), 1100.0, "Short MtM when price drops");

    let mtm2 = short_position_mtm(Decimal::from_i64(100), Decimal::from_i64(110), Decimal::from_i64(10));
    assert_eq!(to_f64(&mtm2), 900.0, "Short MtM when price rises");
}

#[test]
fn short_selling_prices() {
    assert_eq!(to_f64(&short_pnl(dec(100.0), dec(90.0), dec(10.0))), 100.0);
    assert_eq!(to_f64(&short_pnl(dec(100.0), dec(110.0), dec(10.0))), -100.0);
    // Sell-side slippage fills below the open, buy-side above.
    assert_eq!(to_f64(&short_entry_fill(dec(104.0), dec(0.01))), 102.96);
    assert_eq!(to_f64(&short_exit_fill(dec(90.0), dec(0.01))), 90.9);
    assert!(short_stop_loss_triggered(dec(110.0), dec(109.0)));
    assert!(!short_stop_loss_triggered(dec(108.0), dec(109.0)));
    assert!(short_take_profit_triggered(dec(78.0), dec(80.0)));
    assert!(!short_take_profit_triggered(dec(81.0), dec(80.0)));
    // A gap through the stop fills at the open.
    assert_eq!(to_f64(&short_sl_fill_price(dec(115.0), dec(109.0))), 115.0);
    assert_eq!(to_f64(&short_sl_fill_price(dec(105.0), dec(109.0))), 109.0);
    assert_eq!(to_f64(&short_tp_fill_price(dec(75.0), dec(80.0))), 75.0);
    assert_eq!(to_f64(&short_tp_fill_price(dec(85.0), dec(80.0))), 80.0);
    assert!(checked_short_pnl(Decimal::max_value(), Decimal::min_value(), dec(10.0)).is_none());
}

#[test]
fn test_streak_analysis() {
    let pnls = vec![dec(100.0), dec(50.0), dec(-30.0), dec(-40.0), dec(-20.0), dec(60.0)];
    let outcomes = winning_trades(&pnls);
    let streaks = streak_runs(&outcomes);
    let wins = summarize_runs(&streaks.runs, true);
    let losses = summarize_runs(&streaks.runs, false);

    assert_eq!(wins.longest, 2);
    assert_eq!(losses.longest, 3);

    let avg_win_streak = wins.total as f64 / wins.count as f64;
    let avg_loss_streak = losses.total as f64 / losses.count as f64;
    assert!((avg_win_streak - 1.5).abs() < 0.01);
    assert!((avg_loss_streak - 3.0).abs() < 0.01);

    let prob_win_after_win = streaks.win_after_win as f64 / streaks.total_after_win as f64;
    let prob_win_after_loss = streaks.win_after_loss as f64 / streaks.total_after_loss as f64;
    assert!((prob_win_after_win - 0.5).abs() < 0.01);
    assert!((prob_win_after_loss - (1.0 / 3.0)).abs() < 0.01);
}

#[test]
fn streak_histograms_and_maxima() {
    let pnls = vec![dec(1.0), dec(-1.0), dec(2.0), dec(3.0), dec(0.0), dec(-2.0), dec(4.0)];
    assert_eq!(max_consecutive_streaks(&pnls), (2, 1));
    let outcomes = winning_trades(&pnls);
    assert_eq!(outcomes, vec![true, false, true, true, false, false, true]);
    let streaks = streak_runs(&outcomes);
    assert_eq!(
        streaks.runs,
        vec![(true, 1), (false, 1), (true, 2), (false, 2), (true, 1)]
    );
    assert_eq!(run_length_counts(&streaks.runs, true), vec![(1, 2), (2, 1)]);
    assert_eq!(run_length_counts(&streaks.runs, false), vec![(1, 1), (2, 1)]);
    assert_eq!(streaks.total_after_win + streaks.total_after_loss, 6);
}

#[test]
fn test_time_in_market() {
    let trades = vec![
        TradeSpan { entry_date: "2024-01-01".to_string(), exit_date: "2024-01-03".to_string() },
        TradeSpan { entry_date: "2024-01-05".to_string(), exit_date: "2024-01-06".to_string() },
    ];
    let p = market_presence(&trades).unwrap();
    let time_in_market_percent = p.days_in_market as f64 / p.total_calendar_days as f64 * 100.0;
    let avg_concurrent_positions = p.total_position_days as f64 / p.days_in_market as f64;

    assert!((time_in_market_percent - (5.0 / 6.0 * 100.0)).abs() < 1.0);
    assert!((avg_concurrent_positions - 1.0).abs() < 0.01);
    assert_eq!(p.max_concurrent_positions, 1);
    assert_eq!(p.total_calendar_days, 6);
}

#[test]
fn time_in_market_overlaps_and_failures() {
    let trades = vec![
        TradeSpan { entry_date: "2024-01-01".to_string(), exit_date: "2024-01-04".to_string() },
        TradeSpan { entry_date: "2024-01-03".to_string(), exit_date: "2024-01-05".to_string() },
        TradeSpan { entry_date: "2024-01-03".to_string(), exit_date: "2024-01-03".to_string() },
    ];
    let p = market_presence(&trades).unwrap();
    assert_eq!(p.days_in_market, 5);
    assert_eq!(p.total_position_days, 4 + 3 + 1);
    assert_eq!(p.max_concurrent_positions, 3);
    assert_eq!(p.active_trading_days, 4);
    assert_eq!(p.total_calendar_days, 5);

    assert!(market_presence(&Vec::new()).is_none());
    let bad = vec![TradeSpan { entry_date: "2024-01-01".to_string(), exit_date: "soon".to_string() }];
    assert!(market_presence(&bad).is_none());
}

#[test]
fn decimal_arithmetic() {
    let a = dec(1.5);
    let b = dec(2.25);
    let s = a.add(&b);
    assert_eq!((s.mantissa(), s.scale()), (375, 2));
    let d = a.sub(&b);
    assert_eq!(to_f64(&d), -0.75);
    let p = a.mul(&b);
    assert_eq!((p.mantissa(), p.scale()), (3375, 3));
    assert!(Decimal::max_value().checked_add(&Decimal::one()).is_none());
    assert!(Decimal::min_value().checked_sub(&Decimal::one()).is_none());
    assert!(Decimal::max_value().checked_mul(&dec(2.0)).is_none());
    let f = dec(-1.5).floor();
    assert_eq!((f.mantissa(), f.scale()), (-2, 0));
    assert!(a.lt(&b) && b.gt(&a) && a.le(&a) && a.ge(&a));
    assert!(dec(2.0).value_eq(&Decimal::new(200, 2)));
    // Ties: max gives the other operand, min keeps this one.
    let x = Decimal::new(200, 2);
    let y = Decimal::from_i64(2);
    assert_eq!(x.max(&y).scale(), 0);
    assert_eq!(x.min(&y).scale(), 2);
    let parsed = Decimal::from_str("12.50").unwrap();
    assert_eq!((parsed.mantissa(), parsed.scale()), (1250, 2));
    assert!(Decimal::from_str("abc").is_none());
    assert!(Decimal::try_from_i128_with_scale(1, 29).is_none());
}

#[test]
fn long_position_round_trip() {
    let fill = long_entry_fill(dec(104.0), dec(0.01));
    assert_eq!(to_f64(&fill), 105.04);
    assert_eq!(to_f64(&effective_stop(Some(dec(95.0)), Some(dec(97.0))).unwrap()), 97.0);
    // The trailing stop replaces a tighter fixed stop.
    assert_eq!(to_f64(&effective_stop(Some(dec(99.0)), Some(dec(97.0))).unwrap()), 97.0);
    assert_eq!(to_f64(&effective_stop(Some(dec(95.0)), None).unwrap()), 95.0);
    assert!(effective_stop(None, None).is_none());

    // A gap through the stop fills at the open.
    let (price, reason) = long_exit_check(dec(85.0), dec(88.0), dec(83.0), Some(dec(98.9)), None).unwrap();
    assert_eq!(to_f64(&price), 85.0);
    assert_eq!(reason, ExitReason::StopLoss);
    let (price, reason) =
        long_exit_check(dec(130.0), dec(135.0), dec(128.0), None, Some(dec(114.5))).unwrap();
    assert_eq!(to_f64(&price), 130.0);
    assert_eq!(reason, ExitReason::TakeProfit);
    assert!(long_exit_check(dec(100.0), dec(101.0), dec(99.0), Some(dec(90.0)), Some(dec(110.0))).is_none());
    let (price, reason) =
        short_exit_check(dec(110.0), dec(120.0), dec(109.0), Some(dec(115.0)), None).unwrap();
    assert_eq!(to_f64(&price), 115.0);
    assert_eq!(reason, ExitReason::StopLoss);

    let cash0 = dec(100000.0);
    let shares = dec(10.0);
    let entry_commission = dec(1.0);
    let cash1 = settle_entry(cash0, PositionSide::Long, dec(100.0), shares, entry_commission);
    assert_eq!(to_f64(&cash1), 98999.0);
    let pos = OpenPosition {
        symbol: "AAPL".to_string(),
        entry_date: "2024-01-02".to_string(),
        entry_price: dec(100.0),
        shares,
        stop_loss_price: None,
        take_profit_price: None,
        entry_signal: "Buy".to_string(),
        entry_commission,
        entry_slippage: dec(0.0),
        direction: PositionSide::Long,
    };
    let (trade, exit_commission, exit_slippage) =
        close_position(pos, "AAPL", "2024-01-05", dec(110.0), dec(0.001), dec(0.01), "signal");
    assert_eq!(to_f64(&trade.exit_price), 108.9);
    assert_eq!(to_f64(&exit_slippage), 11.0);
    assert_eq!(to_f64(&exit_commission), 1.089);
    assert_eq!(trade.holding_period_days, 3);
    let cash2 = settle_exit(cash1, &trade, exit_commission);
    // Cash gained over the round trip is the trade's net profit.
    assert!(cash2.sub(&cash0).value_eq(&trade.profit_loss));
    assert_eq!(to_f64(&trade.profit_loss), 86.911);
    assert_eq!(PositionSide::Short.as_str(), "short");
    assert_eq!(ExitReason::TakeProfit.as_str(), "take_profit");
}

#[test]
fn trailing_stop_ratchets_up() {
    let mut m = TrailingStopManager::new(dec(0.05));
    m.init("AAPL", dec(100.0));
    assert_eq!(to_f64(&m.get("AAPL").unwrap()), 95.0);
    assert_eq!(to_f64(&m.update("AAPL", dec(110.0)).unwrap()), 104.5);
    assert_eq!(to_f64(&m.update("AAPL", dec(100.0)).unwrap()), 104.5);
    assert!(m.update("MSFT", dec(100.0)).is_none());
    m.remove("AAPL");
    assert!(m.get("AAPL").is_none());
    assert!(TrailingStopManager::checked_new(Decimal::min_value()).is_none());
}

#[test]
fn limit_orders_trigger_and_expire() {
    let mut m: LimitOrderManager<u32> = LimitOrderManager::new();
    m.add_order(1, Some(dec(98.0)), dec(100.0), None, "buy");
    m.add_order(2, None, dec(110.0), Some(2), "sell");
    let t = m.check_and_expire(dec(99.0), dec(105.0));
    assert!(t.is_empty());
    let t = m.check_and_expire(dec(95.0), dec(105.0));
    assert_eq!(t, vec![(1, "buy".to_string())]);
    // The sell order had two bars; both have passed.
    let t = m.check_and_expire(dec(95.0), dec(120.0));
    assert!(t.is_empty());
}

#[test]
fn combinations_in_lexicographic_order() {
    let all = generate_combinations(4, 2, 100);
    assert_eq!(
        all,
        vec![vec![0, 1], vec![0, 2], vec![0, 3], vec![1, 2], vec![1, 3], vec![2, 3]]
    );
    assert_eq!(generate_combinations(4, 2, 3), vec![vec![0, 1], vec![0, 2], vec![0, 3]]);
    assert_eq!(generate_combinations(3, 0, 10), vec![Vec::<usize>::new()]);
    assert!(generate_combinations(3, 4, 10).is_empty());
    assert!(generate_combinations(5, 2, 0).is_empty());
}

#[test]
fn param_grid_order_defaults_and_cap() {
    let grid = generate_param_grid(&vec![0.5, 0.6], &vec![], &vec![2.0], &vec![], 0.5, 50.0);
    assert_eq!(grid, vec![(0.5, 50.0, Some(2.0), None), (0.6, 50.0, Some(2.0), None)]);

    let five = vec![1.0, 2.0, 3.0, 4.0, 5.0];
    let big = generate_param_grid(&five, &five, &five, &five, 0.5, 50.0);
    assert_eq!(big.len(), 100);
    assert_eq!(big[0], (1.0, 1.0, Some(1.0), Some(1.0)));
    assert_eq!(big[1], (1.0, 1.0, Some(1.0), Some(2.0)));
    assert_eq!(big[5], (1.0, 1.0, Some(2.0), Some(1.0)));
    assert_eq!(big[99], (1.0, 4.0, Some(5.0), Some(5.0)));

    let empty: Vec<f64> = Vec::new();
    assert_eq!(
        generate_param_grid(&empty, &empty, &empty, &empty, 0.5, 50.0),
        vec![(0.5, 50.0, None, None)]
    );
}

#[test]
fn symbol_pnl_accumulates() {
    let mut ledger: Vec<SymbolStats> = Vec::new();
    let aapl = "AAPL".to_string();
    let msft = "MSFT".to_string();
    record_symbol_pnl(&mut ledger, &aapl, dec(100.0));
    record_symbol_pnl(&mut ledger, &msft, dec(-50.0));
    record_symbol_pnl(&mut ledger, &aapl, dec(-20.0));
    assert_eq!(ledger.len(), 2);
    let (pnl, wins, trades) = symbol_totals(&ledger, &aapl);
    assert_eq!((to_f64(&pnl), wins, trades), (80.0, 1, 2));
    let (pnl, wins, trades) = symbol_totals(&ledger, &msft);
    assert_eq!((to_f64(&pnl), wins, trades), (-50.0, 0, 1));
    let (pnl, wins, trades) = symbol_totals(&ledger, &"GOOG".to_string());
    assert_eq!((pnl.is_zero(), wins, trades), (true, 0, 0));
}

#[test]
fn calendar_dates() {
    assert_eq!(date_diff("2024-01-01", "2024-01-31"), 30);
    assert_eq!(date_diff("2024-03-01", "2024-02-28"), -2);
    assert_eq!(date_diff("2024-01-01", "not a date"), 0);
    assert_eq!(iso_week_number("2024-01-08"), 202402);
    assert_eq!(iso_week_number("2023-01-01"), 202252);
    assert_eq!(iso_week_number("2024-12-30"), 202501);
    assert_eq!(iso_week_number("garbage"), 0);
}

#[test]
fn data_quality_gaps_and_cap() {
    assert_eq!(date_gap("2024-01-05", "2024-01-08"), None);
    assert_eq!(date_gap("2024-01-05", "2024-01-15"), Some(10));
    assert_eq!(date_gap("2024-01-05", "bad"), None);
    assert_eq!(missing_days_in_gap(10), 7);
    let mut warnings: Vec<DataWarning> = (0..150)
        .map(|i| DataWarning {
            date: format!("d{}", i),
            symbol: "AAPL".to_string(),
            warning_type: "zero_volume".to_string(),
            message: "Bar has zero or negative volume".to_string(),
        })
        .collect();
    cap_warnings(&mut warnings);
    assert_eq!(warnings.len(), MAX_WARNINGS);
    assert_eq!(warnings[99].date, "d99");
}

#[test]
fn monte_carlo_orders() {
    let order = shuffled_order(10);
    let mut sorted = order.clone();
    sorted.sort();
    assert_eq!(sorted, (0..10).collect::<Vec<usize>>());
    let draws = resample_indices(5, 20);
    assert_eq!(draws.len(), 20);
    assert!(draws.iter().all(|&i| i < 5));
    assert!(shuffled_order(0).is_empty());
}

#[test]
fn holding_period_buckets() {
    assert_eq!(holding_period_bucket(0), Some(0));
    assert_eq!(holding_period_bucket(1), Some(0));
    assert_eq!(holding_period_bucket(2), Some(1));
    assert_eq!(holding_period_bucket(10), Some(2));
    assert_eq!(holding_period_bucket(11), Some(3));
    assert_eq!(holding_period_bucket(21), Some(4));
    assert_eq!(holding_period_bucket(i64::MAX), Some(4));
    assert_eq!(holding_period_bucket(-1), None);
    assert_eq!(holding_bucket_name(0), "1 day");
    assert_eq!(holding_bucket_name(4), "21+ days");
}

#[test]
fn halt_latch_stays_halted() {
    let mut latch = HaltLatch::new();
    assert!(!latch.check(false));
    assert!(latch.check(true));
    assert!(latch.check(false));
    assert!(latch.is_halted());
}

#[test]
fn engine_defaults() {
    assert_eq!(default_regime_lookback(), 60);
    assert_eq!(default_mc_simulations(), 1000);
    assert_eq!(default_block_size(), 1);
    assert_eq!(default_adv_lookback(), 20);
    assert_eq!(default_vol_lookback(), 20);
    assert_eq!(OrderType::default(), OrderType::Market);
    let c = MonteCarloConfig::with_defaults();
    assert_eq!((c.num_simulations, c.block_size, c.parameter_uncertainty), (1000, 1, false));
}

#[test]
fn checked_close_returns_commission_then_slippage() {
    let pos = OpenPosition {
        symbol: "MSFT".to_string(),
        entry_date: "2024-03-01".to_string(),
        entry_price: dec(50.0),
        shares: dec(20.0),
        stop_loss_price: None,
        take_profit_price: None,
        entry_signal: "Sell".to_string(),
        entry_commission: dec(0.5),
        entry_slippage: dec(1.0),
        direction: PositionSide::Short,
    };
    let (trade, exit_commission, exit_slippage) = checked_close_position(
        pos,
        "MSFT",
        "2024-03-04",
        dec(40.0),
        dec(0.001),
        dec(0.01),
        "take_profit",
    )
    .unwrap();
    // A cover fills above the raw price: 40 + 0.4.
    assert_eq!(to_f64(&trade.exit_price), 40.4);
    assert_eq!(to_f64(&exit_commission), 0.808);
    assert_eq!(to_f64(&exit_slippage), 8.0);
    assert_eq!(to_f64(&trade.commission_cost), 1.308);
    assert_eq!(to_f64(&trade.slippage_cost), 9.0);
    // (50 - 40.4) * 20 - 1.308
    assert_eq!(to_f64(&trade.profit_loss), 190.692);
    assert_eq!(trade.holding_period_days, 3);
    assert_eq!(trade.exit_reason, "take_profit");
}

#[test]
fn checked_trailing_manager_uses_its_percentage() {
    let mut m = TrailingStopManager::checked_new(dec(0.1)).unwrap();
    m.init("X", dec(200.0));
    assert_eq!(to_f64(&m.get("X").unwrap()), 180.0);
}
