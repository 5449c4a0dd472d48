use arbitrage_bot::decimal::Dec;
use arbitrage_bot::inventory::InventoryManager;
use arbitrage_bot::limits::RiskLimits;
use arbitrage_bot::manager::{RiskError, RiskManager};
use arbitrage_bot::pnl::PnLTracker;
use arbitrage_bot::types::{Exchange, Side, Symbol};

fn dec(s: &str) -> Dec {
    let d: rust_decimal::Decimal = s.parse().unwrap();
    Dec::from_parts(d.mantissa(), d.scale())
}

#[test]
fn test_inventory_limits() {
    let mut manager = InventoryManager::new(dec("5.0"), false);
    let symbol = Symbol::perpetual("BTC", "USDT");

    // Set initial inventory
    manager.update_position(Exchange::Binance, symbol.clone(), dec("3.0"));
    manager.update_position(Exchange::Bybit, symbol.clone(), dec("-2.0"));

    // This trade would push Binance to 5.0 - should pass
    assert!(manager.can_trade(Exchange::Binance, Exchange::Bybit, &symbol, dec("2.0")).is_ok());

    // This trade would push Binance to 6.0 - should fail
    assert!(manager.can_trade(Exchange::Binance, Exchange::Bybit, &symbol, dec("3.0")).is_err());
}

#[test]
fn test_hedge_calculation() {
    let mut manager = InventoryManager::new(dec("10.0"), true);
    let symbol = Symbol::perpetual("BTC", "USDT");

    manager.update_position(Exchange::Binance, symbol.clone(), dec("5.0"));
    manager.update_position(Exchange::Bybit, symbol.clone(), dec("3.0"));

    let hedge = manager.calculate_hedge(&symbol);
    assert!(hedge.is_some());

    let hedge = hedge.unwrap();
    assert_eq!(hedge.side, Side::Sell);
    assert_eq!(hedge.quantity, dec("8.0")); // Net is 8.0, target is 0
}

#[test]
fn test_pnl_tracking() {
    let mut tracker = PnLTracker::new(dec("100000"));

    tracker.record_trade(dec("100"), dec("10"), dec("1000"), 1000);
    tracker.record_trade(dec("-50"), dec("10"), dec("1000"), 2000);
    tracker.record_trade(dec("200"), dec("10"), dec("1000"), 3000);

    assert_eq!(tracker.realized_pnl(), dec("250"));
    assert_eq!(tracker.total_fees(), dec("30"));
    assert_eq!(tracker.total_trades(), 3);
    assert_eq!(tracker.winning_trades(), 2);
    assert_eq!(tracker.losing_trades(), 1);
}

#[test]
fn test_position_size_limit() {
    let mut limits = RiskLimits::default();
    limits.max_position_size = dec("1000");

    let mut manager = RiskManager::new(limits, dec("100000"));

    let result = manager.can_trade(
        Exchange::Binance,
        &Symbol::perpetual("BTC", "USDT"),
        dec("2000"),
        dec("10"),
    );

    assert!(result.is_err());
    assert!(matches!(result.unwrap_err(), RiskError::PositionSizeExceeded(_, _)));
}

#[test]
fn test_allowed_trade() {
    let limits = RiskLimits::default();
    let mut manager = RiskManager::new(limits, dec("100000"));

    let result = manager.can_trade(
        Exchange::Binance,
        &Symbol::perpetual("BTC", "USDT"),
        dec("1000"),
        dec("10"),
    );

    assert!(result.is_ok());
}

#[test]
fn daily_loss_trips_the_circuit_breaker() {
    let mut m = RiskManager::new(RiskLimits::default(), dec("100000"));
    let sym = Symbol::perpetual("BTC", "USDT");
    m.record_trade(Exchange::Binance, sym.clone(), dec("-6000"), dec("0"), dec("1000"), 1);
    match m.can_trade(Exchange::Binance, &sym, dec("1000"), dec("10")) {
        Err(RiskError::DailyLossExceeded(a, b)) => {
            assert_eq!(a, dec("6000"));
            assert_eq!(b, dec("5000"));
        }
        other => panic!("unexpected {:?}", other),
    }
    assert!(m.is_circuit_breaker_active());
    assert!(matches!(m.can_trade(Exchange::Binance, &sym, dec("1000"), dec("10")), Err(RiskError::CircuitBreaker(_))));
    assert!(m.is_circuit_breaker_active());
}
