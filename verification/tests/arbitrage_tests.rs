use arbitrage_bot::decimal::Dec;
use arbitrage_bot::detector::calculate_vwap;
use arbitrage_bot::enhanced_detector::EnhancedArbitrageDetector;
use arbitrage_bot::opportunity::{ArbitrageConfig, ArbitrageOpportunity};
use arbitrage_bot::orderbook::OrderBookManager;
use arbitrage_bot::timing::Timestamp;
use arbitrage_bot::types::{Exchange, OrderBookSnapshot, PriceLevel, Symbol};

fn dec(s: &str) -> Dec {
    let d: rust_decimal::Decimal = s.parse().unwrap();
    Dec::from_parts(d.mantissa(), d.scale())
}

fn level(price: &str, quantity: &str) -> PriceLevel {
    PriceLevel::new(dec(price), dec(quantity))
}

#[test]
fn detector_test_vwap_calculation() {
    let levels = vec![level("50000", "1.0"), level("50001", "2.0"), level("50002", "3.0")];

    let vwap = calculate_vwap(&levels, dec("2.0")).unwrap();
    // (50000 * 1.0 + 50001 * 1.0) / 2.0 = 50000.5
    assert_eq!(vwap, dec("50000.5"));
}

#[test]
fn test_profitable_opportunity() {
    let opp = ArbitrageOpportunity::new(
        Symbol::perpetual("BTC", "USDT"),
        Exchange::Binance,
        Exchange::Bybit,
        dec("50000.0"), // buy at 50000
        dec("50100.0"), // sell at 50100
        dec("1.0"),
        dec("10.0"),   // $10 fee buy
        dec("10.0"),   // $10 fee sell
        dec("0.0001"), // 1 bps slippage buy
        dec("0.0001"), // 1 bps slippage sell
    );

    assert!(opp.is_profitable(dec("1.0")));
    assert!(opp.net_profit.gt(&Dec::zero()));
}

#[test]
fn test_unprofitable_opportunity() {
    let opp = ArbitrageOpportunity::new(
        Symbol::perpetual("BTC", "USDT"),
        Exchange::Binance,
        Exchange::Bybit,
        dec("50100.0"), // buy at 50100
        dec("50000.0"), // sell at 50000 (loss!)
        dec("1.0"),
        dec("10.0"),
        dec("10.0"),
        dec("0.0001"),
        dec("0.0001"),
    );

    assert!(!opp.is_profitable(dec("1.0")));
    assert!(opp.net_profit.lt(&Dec::zero()));
}

#[test]
fn test_enhanced_detection_with_validation() {
    let orderbook_mgr = OrderBookManager::new();
    let config = ArbitrageConfig::default();
    let mut detector = EnhancedArbitrageDetector::new(config, orderbook_mgr);

    let symbol = Symbol::perpetual("BTC", "USDT");
    let now = Timestamp::now().as_nanos();

    let binance = OrderBookSnapshot {
        exchange: Exchange::Binance,
        symbol: symbol.clone(),
        bids: vec![
            level("50000", "1.0"),
            level("49999", "2.0"),
            level("49998", "3.0"),
            level("49997", "4.0"),
            level("49996", "5.0"),
        ],
        asks: vec![
            level("50001", "1.0"),
            level("50002", "2.0"),
            level("50003", "3.0"),
            level("50004", "4.0"),
            level("50005", "5.0"),
        ],
        timestamp_ns: now,
        sequence: 1,
    };

    let bybit = OrderBookSnapshot {
        exchange: Exchange::Bybit,
        symbol: symbol.clone(),
        bids: vec![
            level("50010", "1.0"), // Higher bid
            level("50009", "2.0"),
            level("50008", "3.0"),
            level("50007", "4.0"),
            level("50006", "5.0"),
        ],
        asks: vec![
            level("50011", "1.0"),
            level("50012", "2.0"),
            level("50013", "3.0"),
            level("50014", "4.0"),
            level("50015", "5.0"),
        ],
        timestamp_ns: now,
        sequence: 1,
    };

    detector.orderbook_manager_mut().update(binance);
    detector.orderbook_manager_mut().update(bybit);

    let opportunities = detector.scan_opportunities(&symbol);

    // The documented validation turns these books down: the liquidity check
    // needs ten levels per side and these have five, and the 9-point gap
    // (under 2 bps) is below the 5 bps minimum profit even before the fees.
    assert!(opportunities.is_empty());
}
