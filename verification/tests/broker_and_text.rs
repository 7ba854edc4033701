use backtest_core::broker::{
    parse_optional_decimal, BrokerAccount, BrokerOrderRequest, BrokerOrderSide, BrokerPosition,
};
use backtest_core::decimal::Decimal;
use backtest_core::text::{capitalize_first, signal_action, str_equal, truncate, SignalAction};

fn account(buying_power: &str) -> BrokerAccount {
    BrokerAccount {
        id: "acc-1".to_string(),
        account_number: "123".to_string(),
        status: "ACTIVE".to_string(),
        currency: "USD".to_string(),
        buying_power: buying_power.to_string(),
        cash: "2500.5".to_string(),
        portfolio_value: "not a number".to_string(),
        pattern_day_trader: false,
        trading_blocked: false,
        daytrade_count: 0,
    }
}

#[test]
fn account_decimals() {
    let a = account("1234.56");
    let bp = a.buying_power_decimal();
    assert_eq!((bp.mantissa(), bp.scale()), (123456, 2));
    let cash = a.cash_decimal();
    assert_eq!((cash.mantissa(), cash.scale()), (25005, 1));
    assert!(a.portfolio_value_decimal().is_zero());
}

#[test]
fn position_decimals() {
    let p = BrokerPosition {
        symbol: "AAPL".to_string(),
        qty: "10".to_string(),
        side: "long".to_string(),
        avg_entry_price: "150.25".to_string(),
        market_value: "1600".to_string(),
        cost_basis: "1502.5".to_string(),
        unrealized_pl: "-2.5".to_string(),
        unrealized_plpc: "0".to_string(),
        unrealized_intraday_pl: "0".to_string(),
        current_price: "".to_string(),
        lastday_price: "0".to_string(),
        change_today: "0".to_string(),
    };
    assert_eq!(p.qty_decimal().mantissa(), 10);
    let avg = p.avg_entry_price_decimal();
    assert_eq!((avg.mantissa(), avg.scale()), (15025, 2));
    assert_eq!(p.market_value_decimal().mantissa(), 1600);
    assert_eq!(p.cost_basis_decimal().mantissa(), 15025);
    assert_eq!(p.unrealized_pl_decimal().mantissa(), -25);
    assert!(p.current_price_decimal().is_zero());
}

#[test]
fn order_decimals_and_requests() {
    assert!(parse_optional_decimal(&None).is_none());
    assert!(parse_optional_decimal(&Some("x".to_string())).is_none());
    let d = parse_optional_decimal(&Some("3.5".to_string())).unwrap();
    assert_eq!((d.mantissa(), d.scale()), (35, 1));
    let buy = BrokerOrderRequest::buy("AAPL".to_string(), Decimal::from_i64(5));
    assert_eq!(buy.side, BrokerOrderSide::Buy);
    assert_eq!(buy.symbol, "AAPL");
    let sell = BrokerOrderRequest::sell("MSFT".to_string(), Decimal::from_i64(2));
    assert_eq!(sell.side, BrokerOrderSide::Sell);
    assert_eq!(sell.qty.mantissa(), 2);
}

#[test]
fn text_helpers() {
    assert_eq!(capitalize_first("long"), "Long");
    assert_eq!(capitalize_first(""), "");
    assert_eq!(capitalize_first("ßeta"), "SSeta");
    assert_eq!(truncate("hello world", 5), "hello...");
    assert_eq!(truncate("hi", 5), "hi");
    assert_eq!(signal_action("StrongBuy"), SignalAction::Buy);
    assert_eq!(signal_action("SELL"), SignalAction::Sell);
    assert_eq!(signal_action("Hold"), SignalAction::Other);
    assert!(str_equal("abc", "abc"));
    assert!(!str_equal("abc", "abd"));
    assert!(!str_equal("abc", "ab"));
}
