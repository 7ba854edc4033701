use backtest_core::watchlist::{watchlist_add, watchlist_remove, WatchlistAdd, MAX_WATCHLIST_SIZE};
use backtest_core::api_breaker::{ApiCircuitBreaker, BREAKER_COOLDOWN_SECS};
use backtest_core::rate_limit::{RateLimiter, NANOS_PER_SEC};
use backtest_core::retry::{is_rate_limit_error, next_retry};
use backtest_core::signals::{
    parse_signal, parse_signal_from_field, signal_chart_color, signal_color, signal_emoji, signal_label, SignalStrength,
    COLOR_GOLD, COLOR_GREEN, COLOR_RED,
};

fn secs(s: u64) -> u64 {
    s * NANOS_PER_SEC
}

#[test]
fn rate_limiter_counts_per_window() {
    let mut limiter = RateLimiter::new();
    for t in 0..5 {
        assert_eq!(limiter.check(1, secs(t)), Ok(()));
    }
    assert_eq!(limiter.check(1, secs(10)), Err(50));
    assert_eq!(limiter.check(1, secs(59) + 1), Err(1));
    // Another user has a window of their own.
    assert_eq!(limiter.check(2, secs(10)), Ok(()));
    // Once the window has ended, a new one starts.
    assert_eq!(limiter.check(1, secs(60)), Ok(()));
    assert_eq!(limiter.windows.len(), 2);
    assert_eq!(limiter.windows[0], (1, secs(60), 1));
}

#[test]
fn rate_limiter_prunes_ended_windows() {
    let mut limiter = RateLimiter::new();
    for user in 0..1001u64 {
        assert_eq!(limiter.check(user, 0), Ok(()));
    }
    assert_eq!(limiter.windows.len(), 1001);
    assert_eq!(limiter.check(5000, secs(61)), Ok(()));
    assert_eq!(limiter.windows.len(), 1);
    assert_eq!(limiter.windows[0].0, 5000);
}

#[test]
fn retry_backoff() {
    assert_eq!(next_retry(1, 3, false), Some(1));
    assert_eq!(next_retry(2, 3, false), Some(2));
    assert_eq!(next_retry(3, 3, false), Some(4));
    assert_eq!(next_retry(1, 3, true), Some(4));
    assert_eq!(next_retry(3, 3, true), Some(16));
    assert_eq!(next_retry(4, 3, false), None);
    assert!(is_rate_limit_error("HTTP 429 Too Many Requests"));
    assert!(is_rate_limit_error("rate limited"));
    assert!(!is_rate_limit_error("connection reset"));
}

#[test]
fn signal_display() {
    assert_eq!(parse_signal("StrongBuy"), SignalStrength::StrongBuy);
    assert_eq!(parse_signal("WeakSell"), SignalStrength::WeakSell);
    assert_eq!(parse_signal("strongbuy"), SignalStrength::Neutral);
    assert_eq!(parse_signal(""), SignalStrength::Neutral);
    assert_eq!(signal_color(&SignalStrength::WeakBuy), COLOR_GREEN);
    assert_eq!(signal_color(&SignalStrength::Neutral), COLOR_GOLD);
    assert_eq!(signal_color(&SignalStrength::StrongSell), COLOR_RED);
    assert_eq!(signal_emoji(&SignalStrength::StrongBuy), "\u{1F680}");
    assert_eq!(signal_emoji(&SignalStrength::WeakSell), "\u{2198}\u{FE0F}");
    assert_eq!(signal_label(&SignalStrength::StrongSell), "Strong Sell");
    assert_eq!(signal_chart_color(&SignalStrength::WeakBuy), "#26A69A");
    assert_eq!(signal_chart_color(&SignalStrength::StrongSell), "#FF1744");
}

#[test]
fn api_breaker_opens_after_five_failures() {
    let mut b = ApiCircuitBreaker::new();
    assert!(!b.is_open(100));
    for t in 0..4 {
        b.record_failure(100 + t);
        assert!(!b.is_open(100 + t));
    }
    assert_eq!(b.consecutive_failures, 4);
    assert_eq!(b.open_until_secs, 0);
    b.record_failure(200);
    assert_eq!(b.open_until_secs, 200 + BREAKER_COOLDOWN_SECS);
    assert!(b.is_open(200));
    assert!(b.is_open(229));
    // The cooldown has run out: closed, and the count starts again.
    assert!(!b.is_open(230));
    assert_eq!(b.consecutive_failures, 0);
    assert_eq!(b.open_until_secs, 0);
}

#[test]
fn api_breaker_success_closes() {
    let mut b = ApiCircuitBreaker::new();
    for t in 0..5 {
        b.record_failure(t);
    }
    assert!(b.is_open(10));
    b.record_success();
    assert!(!b.is_open(10));
    assert_eq!(b.consecutive_failures, 0);
    // A sixth failure in a row reopens from its own time.
    for t in 0..5 {
        b.record_failure(50 + t);
    }
    assert_eq!(b.open_until_secs, 84);
}

#[test]
fn signal_from_response_field() {
    assert_eq!(parse_signal_from_field(Some("Sell")), SignalStrength::Sell);
    assert_eq!(parse_signal_from_field(Some("Hold")), SignalStrength::Neutral);
    assert_eq!(parse_signal_from_field(None), SignalStrength::Neutral);
}

#[test]
fn watchlist_add_and_remove() {
    let mut list: Vec<String> = Vec::new();
    assert_eq!(watchlist_add(&mut list, "AAPL".to_string()), WatchlistAdd::Added);
    assert_eq!(watchlist_add(&mut list, "MSFT".to_string()), WatchlistAdd::Added);
    assert_eq!(watchlist_add(&mut list, "AAPL".to_string()), WatchlistAdd::Duplicate);
    assert_eq!(list, vec!["AAPL".to_string(), "MSFT".to_string()]);
    assert!(watchlist_remove(&mut list, "AAPL"));
    assert_eq!(list, vec!["MSFT".to_string()]);
    assert!(!watchlist_remove(&mut list, "AAPL"));
    assert_eq!(list, vec!["MSFT".to_string()]);
}

#[test]
fn watchlist_is_capped() {
    let mut list: Vec<String> = Vec::new();
    for i in 0..MAX_WATCHLIST_SIZE {
        assert_eq!(watchlist_add(&mut list, format!("S{}", i)), WatchlistAdd::Added);
    }
    assert_eq!(watchlist_add(&mut list, "NEW".to_string()), WatchlistAdd::Full);
    // A full list refuses even a symbol it already holds.
    assert_eq!(watchlist_add(&mut list, "S0".to_string()), WatchlistAdd::Full);
    assert_eq!(list.len(), 20);
    // Removing one and adding it again restores the list's length.
    assert!(watchlist_remove(&mut list, "S5"));
    assert_eq!(watchlist_add(&mut list, "S5".to_string()), WatchlistAdd::Added);
    assert_eq!(list.len(), 20);
    assert_eq!(list.last().unwrap(), "S5");
}

#[test]
fn rate_limit_error_detection_searches_text() {
    assert!(is_rate_limit_error("HTTP 429 Too Many Requests"));
    assert!(is_rate_limit_error("exceeded the rate limit"));
    assert!(is_rate_limit_error("ratée 429"));
    assert!(!is_rate_limit_error("connection refused"));
    assert!(!is_rate_limit_error("42"));
    assert!(!is_rate_limit_error(""));
}
