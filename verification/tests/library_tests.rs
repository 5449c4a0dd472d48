use arbitrage_bot::dashboard::{book_info, depth_rows, venue_quote};
use arbitrage_bot::decimal::Dec;
use arbitrage_bot::deduplication::{OpportunityDeduplicator, OpportunityFingerprint, TokenBucketRateLimiter};
use arbitrage_bot::detector::ArbitrageDetector;
use arbitrage_bot::enhanced_detector::{sort_opportunities, EnhancedArbitrageDetector};
use arbitrage_bot::executor::{check_balance, execution_result, missing_api, ExecutionError};
use arbitrage_bot::fees::FeeManager;
use arbitrage_bot::inventory::{InventoryError, InventoryManager};
use arbitrage_bot::limits::RiskLimits;
use arbitrage_bot::manager::{RiskError, RiskManager};
use arbitrage_bot::opportunity::{ArbitrageConfig, ArbitrageOpportunity};
use arbitrage_bot::optimized::{BufferPool, FastOrderBookSnapshot, FastTradingState, FastValidator};
use arbitrage_bot::orderbook::{OrderBook, OrderBookManager};
use arbitrage_bot::pnl::PnLTracker;
use arbitrage_bot::precision::{ExchangeRulesManager, PrecisionError};
use arbitrage_bot::reconciliation::{OrderStatus, PositionReconciler, ReconciliationReport};
use arbitrage_bot::timing::Timestamp;
use arbitrage_bot::types::{Exchange, InstrumentType, OrderBookSnapshot, Position, PriceLevel, Side, Symbol};
use arbitrage_bot::validation::{LiquidityError, LiquidityValidator, OrderBookValidator};
use arbitrage_bot::websocket::{ConnectStep, Incoming, MessageAction, WebSocketError, WebSocketManager, incoming_action};

fn dec(s: &str) -> Dec {
    let d: rust_decimal::Decimal = s.parse().unwrap();
    Dec::from_parts(d.mantissa(), d.scale())
}

fn level(price: &str, quantity: &str) -> PriceLevel {
    PriceLevel::new(dec(price), dec(quantity))
}

fn snapshot(exchange: Exchange, bids: Vec<PriceLevel>, asks: Vec<PriceLevel>, ts: u64, seq: u64) -> OrderBookSnapshot {
    OrderBookSnapshot { exchange, symbol: Symbol::perpetual("BTC", "USDT"), bids, asks, timestamp_ns: ts, sequence: seq }
}

// ---------------------------------------------------------------- decimals

#[test]
fn decimal_comparisons_go_by_value() {
    assert_eq!(dec("1.0"), dec("1"));
    assert!(dec("0.5").lt(&dec("1")));
    assert!(dec("2").gt(&dec("1.99")));
    assert_eq!(dec("3").min(dec("2")), dec("2"));
    assert_eq!(dec("3").max(dec("2")), dec("3"));
    assert_eq!(dec("-1.5").abs(), dec("1.5"));
    assert_eq!(dec("1.5").neg(), dec("-1.5"));
    assert!(Dec::zero().is_zero());
    assert!(dec("0.1").is_positive());
    assert!(dec("-0.1").is_negative());
}

#[test]
fn decimal_rounding() {
    assert_eq!(dec("2.5").round(), dec("2"));
    assert_eq!(dec("3.5").round(), dec("4"));
    assert_eq!(dec("-1.2").floor(), dec("-2"));
    assert_eq!(dec("50000.4").round_to_i64(), 50000);
}

// ---------------------------------------------------------------- types

#[test]
fn names_and_symbols_as_text() {
    assert_eq!(Exchange::OKX.to_string(), "OKX");
    assert_eq!(Symbol::perpetual("BTC", "USDT").to_string(), "BTC/USDT-PERP");
    assert_eq!(Symbol::new("ETH", "USD", InstrumentType::Future { expiry: 1700 }).to_string(), "ETH/USD-FUT-1700");
    let call = InstrumentType::Option { expiry: 9, strike: dec("2500.5"), is_call: true };
    assert_eq!(call.to_string(), "CALL-2500.5-9");
    let small = InstrumentType::Option { expiry: 1, strike: dec("0.05"), is_call: false };
    assert_eq!(small.to_string(), "PUT-0.05-1");
    let zeros = InstrumentType::Option { expiry: 1, strike: dec("120.00"), is_call: true };
    assert_eq!(zeros.to_string(), "CALL-120.00-1");
    let negative = InstrumentType::Option { expiry: 1, strike: dec("-3.5"), is_call: true };
    assert_eq!(negative.to_string(), "CALL--3.5-1");
    assert_eq!(Side::Sell.to_string(), "SELL");
}

#[test]
fn price_level_value_and_position_mark() {
    assert_eq!(level("100", "2.5").value(), dec("250"));
    let mut p = Position {
        exchange: Exchange::Binance,
        symbol: Symbol::perpetual("BTC", "USDT"),
        quantity: dec("-2"),
        entry_price: dec("100"),
        current_price: dec("100"),
        unrealized_pnl: Dec::zero(),
        realized_pnl: Dec::zero(),
        leverage: Dec::one(),
    };
    p.update_pnl(dec("90"));
    assert_eq!(p.unrealized_pnl, dec("20"));
    assert!(p.is_short());
    assert!(!p.is_long());
}

// ---------------------------------------------------------------- order books

#[test]
fn orderbook_sorts_levels_and_ignores_stale_updates() {
    let mut book = OrderBook::new(Exchange::Binance, Symbol::perpetual("BTC", "USDT"));
    book.update(snapshot(
        Exchange::Binance,
        vec![level("99", "1"), level("101", "1"), level("100", "1")],
        vec![level("105", "1"), level("103", "1"), level("104", "1")],
        10,
        5,
    ));
    let s = book.snapshot();
    let bids: Vec<Dec> = s.bids.iter().map(|l| l.price).collect();
    let asks: Vec<Dec> = s.asks.iter().map(|l| l.price).collect();
    assert_eq!(bids, vec![dec("101"), dec("100"), dec("99")]);
    assert_eq!(asks, vec![dec("103"), dec("104"), dec("105")]);

    // an older sequence changes nothing
    book.update(snapshot(Exchange::Binance, vec![level("1", "1")], vec![level("2", "1")], 20, 4));
    assert_eq!(book.best_bid().unwrap().price, dec("101"));
    assert_eq!(book.snapshot().sequence, 5);
}

#[test]
fn orderbook_manager_reads_back_what_was_written() {
    let mut mgr = OrderBookManager::new();
    let symbol = Symbol::perpetual("BTC", "USDT");
    assert!(mgr.get_snapshot(Exchange::Bybit, &symbol).is_none());
    mgr.update(snapshot(Exchange::Bybit, vec![level("10", "1")], vec![level("12", "3")], 7, 1));
    let s = mgr.get_snapshot(Exchange::Bybit, &symbol).unwrap();
    assert_eq!(s.timestamp_ns, 7);
    assert_eq!(mgr.get_best_ask(Exchange::Bybit, &symbol).unwrap().quantity, dec("3"));
    assert_eq!(mgr.get_spread(Exchange::Bybit, &symbol).unwrap(), dec("2"));
    assert_eq!(mgr.get_mid_price(Exchange::Bybit, &symbol).unwrap(), dec("11"));
    assert!(mgr.get_best_bid(Exchange::Binance, &symbol).is_none());
}

#[test]
fn orderbook_liquidity_and_slippage() {
    let mut book = OrderBook::new(Exchange::Binance, Symbol::perpetual("BTC", "USDT"));
    book.update(snapshot(
        Exchange::Binance,
        vec![level("100", "1"), level("99", "1")],
        vec![level("101", "1"), level("103", "1")],
        1,
        1,
    ));
    let m = book.liquidity_metrics();
    assert_eq!(m.total_bid_liquidity, dec("199"));
    assert_eq!(m.total_ask_liquidity, dec("204"));
    // buying 2 costs (101 + 103) / 2 = 102 on average: 1/101 away from the best ask
    let slip = book.estimate_slippage(Side::Buy, dec("2")).unwrap();
    assert_eq!(slip, dec("1").checked_div_test(dec("101")));
}

trait DivTest {
    fn checked_div_test(self, other: Dec) -> Dec;
}

impl DivTest for Dec {
    fn checked_div_test(self, other: Dec) -> Dec {
        let a = rust_decimal::Decimal::from_i128_with_scale(self.mantissa(), self.scale());
        let b = rust_decimal::Decimal::from_i128_with_scale(other.mantissa(), other.scale());
        let q = a / b;
        Dec::from_parts(q.mantissa(), q.scale())
    }
}

// ---------------------------------------------------------------- validation and precision

#[test]
fn book_validator_checks() {
    let v = OrderBookValidator::institutional();
    assert!(v.has_sufficient_depth(5, 7));
    assert!(!v.has_sufficient_depth(4, 7));
    assert!(v.is_spread_acceptable(dec("0.99"), dec("100")));
    assert!(!v.is_spread_acceptable(dec("1"), dec("100")));
    assert!(!v.is_spread_acceptable(dec("2"), dec("100")));
    assert!(!v.is_spread_acceptable(dec("1.01"), dec("100")));
    assert!(!v.is_spread_acceptable(dec("1"), Dec::zero()));
}

#[test]
fn liquidity_validator_outcomes() {
    let v = LiquidityValidator::new(2, dec("150"), dec("20"));
    let levels = vec![level("100", "1"), level("101", "1"), level("102", "5")];
    assert!(matches!(v.validate_depth(&levels[..1], dec("1")), Err(LiquidityError::InsufficientDepth { available: 1, required: 2 })));
    match v.validate_depth(&levels, dec("3")) {
        Err(LiquidityError::InsufficientQuantity { required, available }) => {
            assert_eq!(required, dec("3"));
            assert_eq!(available, dec("2"));
        }
        other => panic!("unexpected {:?}", other),
    }
    // The side offers 100 + 101 + 510 = 711 of liquidity.
    assert_eq!(v.validate_depth(&levels, dec("1")).unwrap(), dec("100"));
    assert_eq!(v.validate_depth(&levels, dec("2")).unwrap(), dec("201"));
    let strict = LiquidityValidator::new(2, dec("800"), dec("20"));
    match strict.validate_depth(&levels, dec("1")) {
        Err(LiquidityError::InsufficientValue { available, required }) => {
            assert_eq!(available, dec("711"));
            assert_eq!(required, dec("800"));
        }
        other => panic!("unexpected {:?}", other),
    }
}

#[test]
fn liquidity_counts_what_the_side_offers() {
    let v = LiquidityValidator::institutional();
    let levels: Vec<PriceLevel> = (0..10).map(|_| level("50000", "10")).collect();
    assert_eq!(v.validate_depth(&levels, dec("0.1")).unwrap(), dec("5000.0"));
    let thin: Vec<PriceLevel> = (0..10).map(|_| level("50000", "0.1")).collect();
    assert!(matches!(v.validate_depth(&thin, dec("0.1")), Err(LiquidityError::InsufficientValue { .. })));
}

#[test]
fn precision_rules_errors() {
    let m = ExchangeRulesManager::new();
    assert!(m.get_rules("Kraken", "BTC/USDT").is_none());
    assert!(matches!(m.validate_order("Binance", "BTC/USDT", dec("50000"), dec("5000")), Err(PrecisionError::QuantityTooLarge { .. })));
    assert!(matches!(m.validate_order("Binance", "BTC/USDT", dec("10"), dec("0.01")), Err(PrecisionError::NotionalTooSmall { .. })));
    assert!(matches!(m.validate_order("Binance", "BTC/USDT", dec("50000"), dec("0.0001")), Err(PrecisionError::QuantityTooSmall { .. })));
    assert!(matches!(m.validate_order("Nowhere", "BTC/USDT", dec("1"), dec("1")), Err(PrecisionError::InvalidLotSize(_))));
    let rules = m.get_rules("Binance", "BTC/USDT").unwrap();
    assert_eq!(rules.round_price(dec("100.26")), dec("100.3"));
    assert_eq!(rules.round_quantity(dec("0.0025")), dec("0.002"));
    assert_eq!(m.adjust_quantity("Binance", "BTC/USDT", dec("0.0039")), dec("0.003"));
    assert_eq!(m.adjust_quantity("Nowhere", "X", dec("0.0039")), dec("0.0039"));
}

// ---------------------------------------------------------------- deduplication and rate limits

#[test]
fn deduplicator_lets_new_keys_through_and_refuses_repeats() {
    let mut d = OpportunityDeduplicator::institutional();
    let a = OpportunityFingerprint::new("Binance", "Bybit", "BTC/USDT", dec("100.4"), dec("101"));
    let a_again = OpportunityFingerprint::new("Binance", "Bybit", "BTC/USDT", dec("99.6"), dec("101.2"));
    let b = OpportunityFingerprint::new("Bybit", "Binance", "BTC/USDT", dec("100"), dec("101"));
    assert!(d.check_and_mark_at(a, 1_000));
    // same rounded prices: the same opportunity
    assert!(!d.check_and_mark_at(a_again, 2_000_000_000));
    assert!(d.check_and_mark_at(b, 2_000_000_000));
    assert_eq!(d.size(), 2);
    d.clear();
    assert_eq!(d.size(), 0);
}

#[test]
fn rate_limiter_refills_up_to_capacity() {
    let mut l = TokenBucketRateLimiter::new_at(3, 2, 0);
    assert!(l.try_acquire_at(3, 0));
    assert!(!l.try_acquire_at(1, 0));
    assert_eq!(l.available_tokens_at(500_000_000), 1);
    assert_eq!(l.available_tokens_at(60_000_000_000), 3);
}

// ---------------------------------------------------------------- fast path

#[test]
fn fast_snapshot_keeps_at_most_32_levels() {
    let bids: Vec<PriceLevel> = (0..40).map(|i| PriceLevel::new(Dec::from_u64(1000 - i), Dec::one())).collect();
    let asks: Vec<PriceLevel> = (0..3).map(|i| PriceLevel::new(Dec::from_u64(1001 + i), Dec::from_u64(2))).collect();
    let fast = FastOrderBookSnapshot::from_snapshot(&snapshot(Exchange::OKX, bids, asks, 5, 9));
    assert_eq!(fast.bids.len(), 32);
    assert_eq!(fast.asks.len(), 3);
    assert_eq!(fast.sequence, 9);
    // buying 3: 2 at 1001 and 1 at 1002
    assert_eq!(fast.vwap(Side::Buy, dec("3")).unwrap(), Dec::from_u64(3004).checked_div_test(Dec::from_u64(3)));
    assert!(fast.vwap(Side::Sell, Dec::zero()).is_none());
}

#[test]
fn fast_trading_state_counts() {
    let mut s = FastTradingState::new();
    assert!(!s.is_enabled());
    s.set_enabled(true);
    s.record_opportunity();
    s.record_opportunity();
    s.record_execution(77);
    assert!(s.is_enabled());
    assert_eq!(s.get_stats(), (2, 1, 77));
}

#[test]
fn fast_validator_checks() {
    assert!(FastValidator::has_depth(5, 5, 5));
    assert!(!FastValidator::has_depth(5, 4, 5));
    assert!(FastValidator::is_spread_valid(dec("1"), dec("1.1")));
    assert!(!FastValidator::is_spread_valid(dec("1"), dec("1")));
    let bid = level("100", "1");
    let ask = level("101", "1");
    assert!(FastValidator::quick_validate(Some(&bid), Some(&ask), 1_000, 1_000));
    assert!(!FastValidator::quick_validate(Some(&ask), Some(&bid), 1_000, 1_000));
    assert!(!FastValidator::quick_validate(Some(&bid), None, 1_000, 1_000));
    assert!(FastValidator::quick_validate(Some(&bid), Some(&ask), 0, 600_000_000));
    assert!(FastValidator::quick_validate(Some(&bid), Some(&ask), 0, 1_000_000_000));
    assert!(!FastValidator::quick_validate(Some(&bid), Some(&ask), 0, 1_000_000_001));
    assert!(FastValidator::is_fresh(400_000_000, 1_000_000_000, 1_000_000_000));
    assert!(!FastValidator::is_fresh(0, 2_000_000_000, 1_000_000_000));
}

#[test]
fn buffer_pool_never_holds_more_than_its_capacity() {
    let mut pool = BufferPool::new(1, 8);
    let a = pool.acquire().unwrap();
    assert!(pool.acquire().is_none());
    pool.release(a);
    pool.release(vec![1, 2, 3]);
    let b = pool.acquire().unwrap();
    assert!(b.is_empty());
    assert!(pool.acquire().is_none());
}

// ---------------------------------------------------------------- fees and opportunities

#[test]
fn fee_net_proceeds() {
    assert_eq!(FeeManager::net_proceeds(Exchange::Bybit, true, dec("2"), dec("100")), dec("199.98"));
    assert_eq!(FeeManager::get_fees(Exchange::Coinbase).taker_fee, dec("0.006"));
}

#[test]
fn opportunity_figures() {
    let o = ArbitrageOpportunity::new(
        Symbol::perpetual("BTC", "USDT"),
        Exchange::Binance,
        Exchange::Bybit,
        dec("100"),
        dec("101"),
        dec("10"),
        dec("1"),
        dec("1"),
        Dec::zero(),
        Dec::zero(),
    );
    assert_eq!(o.gross_profit, dec("10"));
    assert_eq!(o.net_profit, dec("8"));
    assert_eq!(o.profit_bps, dec("80"));
    assert_eq!(o.profit_percentage(), dec("0.8"));
    let plan = o.execution_plan();
    assert_eq!(plan.buy_leg.side, Side::Buy);
    assert_eq!(plan.sell_leg.exchange, Exchange::Bybit);
    assert_eq!(plan.expected_profit, dec("8"));
}

#[test]
fn detector_finds_cross_venue_opportunity() {
    let mut mgr = OrderBookManager::new();
    let now = Timestamp::now().as_nanos();
    mgr.update(snapshot(Exchange::Binance, vec![level("50000", "1.5"), level("49999", "2.0")], vec![level("50001", "1.2"), level("50002", "2.5")], now, 1));
    mgr.update(snapshot(Exchange::Bybit, vec![level("50200", "1.8"), level("50199", "2.2")], vec![level("50211", "1.5"), level("50212", "2.0")], now, 1));
    let detector = ArbitrageDetector::new(ArbitrageConfig::default(), mgr);
    let found = detector.scan_opportunities_at(&Symbol::perpetual("BTC", "USDT"), now);
    assert_eq!(found.len(), 1);
    assert_eq!(found[0].buy_exchange, Exchange::Binance);
    assert_eq!(found[0].sell_exchange, Exchange::Bybit);
    assert_eq!(found[0].timestamp_ns, now);
}

fn deep_book(exchange: Exchange, bid: u64, ask: u64, now: u64) -> OrderBookSnapshot {
    // prices in tenths
    let bids = (0..10).map(|i| PriceLevel::new(Dec::new((bid - i) as i64, 1), Dec::from_u64(1000))).collect();
    let asks = (0..10).map(|i| PriceLevel::new(Dec::new((ask + i) as i64, 1), Dec::from_u64(1000))).collect();
    snapshot(exchange, bids, asks, now, 1)
}

fn enhanced(now: u64) -> EnhancedArbitrageDetector {
    let mut config = ArbitrageConfig::default();
    config.max_position_size = Dec::from_u64(200000);
    let mut d = EnhancedArbitrageDetector::new(config, OrderBookManager::new());
    d.orderbook_manager_mut().update(deep_book(Exchange::Binance, 999, 1000, now));
    d.orderbook_manager_mut().update(deep_book(Exchange::Bybit, 1020, 1021, now));
    d
}

#[test]
fn enhanced_detection_finds_validated_opportunity_once() {
    let now = Timestamp::now().as_nanos();
    let symbol = Symbol::perpetual("BTC", "USDT");
    let mut d = enhanced(now);
    let found = d.scan_opportunities_at(&symbol, now, now);
    assert_eq!(found.len(), 1);
    assert_eq!(found[0].buy_exchange, Exchange::Binance);
    assert_eq!(found[0].quantity, dec("1000"));
    assert_eq!(d.get_deduplicator_stats(), 1);
    // the same opportunity within the cooldown is suppressed
    assert!(d.scan_opportunities_at(&symbol, now + 1, now + 1).is_empty());
    d.clear_deduplicator();
    assert_eq!(d.scan_opportunities_at(&symbol, now + 2, now + 2).len(), 1);
}

#[test]
fn enhanced_detection_respects_inventory() {
    let now = Timestamp::now().as_nanos();
    let symbol = Symbol::perpetual("BTC", "USDT");
    let mut d = enhanced(now).with_inventory_manager(InventoryManager::new(dec("500"), false));
    assert!(d.scan_opportunities_at(&symbol, now, now).is_empty());
    // the rejected opportunity was still remembered
    assert_eq!(d.get_deduplicator_stats(), 1);
}

#[test]
fn enhanced_detection_rejects_thin_books() {
    let now = Timestamp::now().as_nanos();
    let symbol = Symbol::perpetual("BTC", "USDT");
    let mut d = EnhancedArbitrageDetector::new(ArbitrageConfig::default(), OrderBookManager::new());
    d.orderbook_manager_mut().update(snapshot(Exchange::Binance, vec![level("50000", "1.0")], vec![level("50001", "1.0")], now, 1));
    d.orderbook_manager_mut().update(snapshot(Exchange::Bybit, vec![level("50010", "1.0")], vec![level("50011", "1.0")], now, 1));
    assert!(d.scan_opportunities_at(&symbol, now, now).is_empty());
}

#[test]
fn opportunities_sorted_by_profit_stably() {
    let mk = |bps: &str, fee: &str| {
        let mut o = ArbitrageOpportunity::new(Symbol::perpetual("BTC", "USDT"), Exchange::Binance, Exchange::OKX, dec("1"), dec("2"), dec("1"), dec(fee), Dec::zero(), Dec::zero(), Dec::zero());
        o.profit_bps = dec(bps);
        o
    };
    let sorted = sort_opportunities(vec![mk("5", "0.1"), mk("9", "0.2"), mk("5", "0.3"), mk("7", "0.4")]);
    let order: Vec<(Dec, Dec)> = sorted.iter().map(|o| (o.profit_bps, o.buy_fee)).collect();
    assert_eq!(order, vec![(dec("9"), dec("0.2")), (dec("7"), dec("0.4")), (dec("5"), dec("0.1")), (dec("5"), dec("0.3"))]);
}

// ---------------------------------------------------------------- inventory

#[test]
fn inventory_errors_and_summary() {
    let mut m = InventoryManager::new(dec("5"), false);
    let btc = Symbol::perpetual("BTC", "USDT");
    m.update_position(Exchange::Binance, btc.clone(), dec("1"));
    m.update_position(Exchange::Bybit, btc.clone(), dec("-4.5"));
    match m.can_trade(Exchange::Binance, Exchange::Bybit, &btc, dec("1")) {
        Err(InventoryError::ExceedsLimit { exchange, after_trade, .. }) => {
            assert_eq!(exchange, Exchange::Bybit);
            assert_eq!(after_trade, dec("-5.5"));
        }
        other => panic!("unexpected {:?}", other),
    }
    assert_eq!(m.get_net_inventory(&btc), dec("-3.5"));
    assert_eq!(m.get_inventory(Exchange::OKX, &btc), Dec::zero());
    assert!(m.calculate_hedge(&btc).is_none());
    let summary = m.get_summary();
    assert_eq!(summary.total_positions, 2);
    m.reset();
    assert_eq!(m.get_summary().total_positions, 0);
}

// ---------------------------------------------------------------- risk

fn long_position(exchange: Exchange, qty: &str, price: &str) -> Position {
    Position {
        exchange,
        symbol: Symbol::perpetual("BTC", "USDT"),
        quantity: dec(qty),
        entry_price: dec(price),
        current_price: dec(price),
        unrealized_pnl: Dec::zero(),
        realized_pnl: Dec::zero(),
        leverage: Dec::one(),
    }
}

#[test]
fn risk_limit_presets() {
    let c = RiskLimits::conservative();
    assert_eq!(c.max_open_positions, 3);
    assert_eq!(c.max_daily_loss, dec("500"));
    let a = RiskLimits::aggressive();
    assert_eq!(a.max_total_exposure, dec("2000000"));
    assert_eq!(RiskLimits::new().min_profit_bps, dec("5"));
    let d = RiskLimits::new();
    assert_eq!(d.max_position_size, dec("10000"));
    assert_eq!(d.max_total_exposure, dec("500000"));
    assert_eq!(d.max_daily_loss, dec("5000"));
    assert_eq!(d.max_drawdown_pct, dec("10"));
}

#[test]
fn risk_manager_exposure_and_positions() {
    let mut limits = RiskLimits::conservative();
    limits.max_position_size = dec("100000");
    let mut m = RiskManager::new(limits, dec("10000"));
    let btc = Symbol::perpetual("BTC", "USDT");
    m.update_position(long_position(Exchange::Binance, "-2", "100"));
    m.update_position(long_position(Exchange::Bybit, "1", "50"));
    m.update_position(long_position(Exchange::Binance, "3", "100"));
    assert_eq!(m.get_positions().len(), 2);
    assert_eq!(m.calculate_total_exposure(), dec("350"));
    match m.can_trade(Exchange::OKX, &btc, dec("49700"), Dec::zero()) {
        Err(RiskError::TotalExposureExceeded(a, b)) => {
            assert_eq!(a, dec("50050"));
            assert_eq!(b, dec("50000"));
        }
        other => panic!("unexpected {:?}", other),
    }
    m.remove_position(Exchange::Binance, &btc);
    assert_eq!(m.calculate_total_exposure(), dec("50"));
}

#[test]
fn risk_manager_daily_loss_trips_breaker() {
    let mut m = RiskManager::new(RiskLimits::conservative(), dec("10000"));
    let btc = Symbol::perpetual("BTC", "USDT");
    m.record_trade(Exchange::Binance, btc.clone(), dec("-600"), Dec::zero(), dec("1000"), 1);
    match m.can_trade(Exchange::Binance, &btc, dec("10"), Dec::zero()) {
        Err(RiskError::DailyLossExceeded(a, b)) => {
            assert_eq!(a, dec("600"));
            assert_eq!(b, dec("500"));
        }
        other => panic!("unexpected {:?}", other),
    }
    assert!(m.is_circuit_breaker_active());
    match m.can_trade(Exchange::Binance, &btc, dec("10"), Dec::zero()) {
        Err(RiskError::CircuitBreaker(msg)) => assert_eq!(msg, "System halted"),
        other => panic!("unexpected {:?}", other),
    }
    m.reset_circuit_breaker();
    m.reset_daily_pnl();
    // the loss is also a drawdown of 6% from the 10000 peak
    let mut relaxed = RiskLimits::conservative();
    relaxed.max_drawdown_pct = dec("200");
    m.update_limits(relaxed);
    assert!(m.can_trade(Exchange::Binance, &btc, dec("10"), Dec::zero()).is_ok());
    assert!(!m.is_circuit_breaker_active());
}

#[test]
fn risk_manager_position_count_and_drawdown() {
    let mut limits = RiskLimits::conservative();
    limits.max_open_positions = 1;
    let mut m = RiskManager::new(limits, dec("1000"));
    let btc = Symbol::perpetual("BTC", "USDT");
    m.update_position(long_position(Exchange::Kraken, "1", "1"));
    assert!(matches!(m.can_trade(Exchange::OKX, &btc, dec("1"), Dec::zero()), Err(RiskError::MaxPositionsExceeded(1, 1))));
    m.update_limits(RiskLimits::conservative());
    // a loss of 100 on an equity peak of 1000: 10% drawdown (equity 900)
    m.record_trade(Exchange::Binance, btc.clone(), dec("-100"), Dec::zero(), dec("1"), 1);
    assert!(matches!(m.can_trade(Exchange::OKX, &btc, dec("1"), Dec::zero()), Err(RiskError::DrawdownExceeded(_, _))));
    assert!(m.is_circuit_breaker_active());
    assert_eq!(m.get_limits().max_open_positions, 3);
}

#[test]
fn pnl_statistics() {
    let mut t = PnLTracker::new(dec("100"));
    t.record_trade(dec("100"), dec("1"), dec("10"), 1);
    // equity rose from 100 to a new peak of 200
    assert!(t.current_drawdown().is_zero());
    t.record_trade(dec("-50"), dec("1"), dec("10"), 2);
    t.record_trade(Dec::zero(), dec("1"), dec("10"), 3);
    // equity fell from the peak of 200 to 150
    assert_eq!(t.current_drawdown(), dec("25"));
    t.update_unrealized_pnl(dec("150"));
    assert_eq!(t.current_drawdown(), Dec::zero());
    let s = t.get_stats();
    assert_eq!(s.total_trades, 2);
    assert_eq!(s.realized_pnl, dec("50"));
    assert_eq!(s.total_pnl, dec("200"));
    assert_eq!(s.net_pnl, dec("197"));
    assert_eq!(s.avg_profit_per_trade, dec("25"));
    assert_eq!(t.trade_history().len(), 3);
    t.reset_daily_pnl();
    assert_eq!(t.daily_pnl(), Dec::zero());
    assert_eq!(t.total_volume(), dec("30"));
}

#[test]
fn pnl_first_gain_sets_a_new_peak() {
    let mut t = PnLTracker::new(dec("100000"));
    t.record_trade(dec("100"), dec("10"), dec("1000"), 1000);
    assert!(t.current_drawdown().is_zero());
}

#[test]
fn pnl_history_keeps_the_last_ten_thousand() {
    let mut t = PnLTracker::new(dec("100"));
    for i in 0..10_001u64 {
        t.record_trade(Dec::one(), Dec::zero(), Dec::one(), i);
    }
    let h = t.trade_history();
    assert_eq!(h.len(), 10_000);
    assert_eq!(h[0].timestamp_ns, 1);
}

// ---------------------------------------------------------------- execution

#[test]
fn execution_decisions() {
    match missing_api(Exchange::Kraken) {
        ExecutionError::ExchangeError(m) => assert_eq!(m, "No API for exchange Kraken"),
        other => panic!("unexpected {:?}", other),
    }
    let o = ArbitrageOpportunity::new(Symbol::perpetual("BTC", "USDT"), Exchange::Binance, Exchange::Bybit, dec("100"), dec("101"), dec("10"), dec("1"), dec("1"), Dec::zero(), Dec::zero());
    let plan = o.execution_plan();
    match check_balance(&plan, dec("999")) {
        Err(ExecutionError::InsufficientBalance { needed, available }) => {
            assert_eq!(needed, dec("1000"));
            assert_eq!(available, dec("999"));
        }
        other => panic!("unexpected {:?}", other),
    }
    assert!(check_balance(&plan, dec("1000")).is_ok());
    let both = execution_result(&plan, Ok("b1".to_string()), Ok("s1".to_string()));
    assert!(both.cancel.is_none());
    let r = both.result.unwrap();
    assert_eq!(r.buy_order_id, "b1");
    assert_eq!(r.expected_profit, dec("8"));
    assert_eq!(r.actual_profit, Dec::zero());
    let e = execution_result(&plan, Err(ExecutionError::OrderFailed("x".to_string())), Err(ExecutionError::OrderFailed("y".to_string())));
    assert!(matches!(e.result, Err(ExecutionError::OrderFailed(m)) if m == "x"));
    assert!(e.cancel.is_none());
    // one leg failed: the other, placed, leg is cancelled
    let sell_failed = execution_result(&plan, Ok("b1".to_string()), Err(ExecutionError::OrderFailed("y".to_string())));
    assert!(matches!(sell_failed.result, Err(ExecutionError::OrderFailed(m)) if m == "y"));
    let c = sell_failed.cancel.unwrap();
    assert_eq!(c.exchange, Exchange::Binance);
    assert_eq!(c.order_id, "b1");
    assert_eq!(c.symbol.to_string(), Symbol::perpetual("BTC", "USDT").to_string());
    let buy_failed = execution_result(&plan, Err(ExecutionError::OrderFailed("x".to_string())), Ok("s1".to_string()));
    assert!(matches!(buy_failed.result, Err(ExecutionError::OrderFailed(m)) if m == "x"));
    let c = buy_failed.cancel.unwrap();
    assert_eq!(c.exchange, Exchange::Bybit);
    assert_eq!(c.order_id, "s1");
}

// ---------------------------------------------------------------- reconciliation

#[test]
fn reconciler_tracks_orders_and_fills() {
    let mut r = PositionReconciler::institutional();
    let btc = Symbol::perpetual("BTC", "USDT");
    r.track_order_at(Exchange::Binance, btc.clone(), "1".to_string(), Side::Buy, dec("2"), 5);
    r.track_order_at(Exchange::Binance, btc.clone(), "2".to_string(), Side::Sell, dec("0.5"), 6);
    assert_eq!(r.tracked_count(), 1);
    assert_eq!(r.get_pending_orders(Exchange::Binance, &btc).len(), 2);
    r.update_order_fill(Exchange::Binance, &btc, "1", dec("2"), OrderStatus::Filled);
    r.update_order_fill(Exchange::Binance, &btc, "2", dec("0.1"), OrderStatus::PartiallyFilled);
    assert_eq!(r.get_position(Exchange::Binance, &btc).unwrap().quantity, dec("2"));
    r.update_order_fill(Exchange::Binance, &btc, "2", dec("0.5"), OrderStatus::Filled);
    assert_eq!(r.get_position(Exchange::Binance, &btc).unwrap().quantity, dec("1.5"));
    let orders = r.get_pending_orders(Exchange::Binance, &btc);
    assert_eq!(orders[1].status, OrderStatus::Filled);
    assert!(r.get_position(Exchange::OKX, &btc).is_none());
    assert_eq!(r.reconciliation_interval_secs(), 30);
}

#[test]
fn reconciler_syncs_discrepancies() {
    let mut r = PositionReconciler::new(10);
    let btc = Symbol::perpetual("BTC", "USDT");
    r.track_order_at(Exchange::Binance, btc.clone(), "1".to_string(), Side::Buy, dec("2"), 5);
    r.update_order_fill(Exchange::Binance, &btc, "1", dec("2"), OrderStatus::Filled);
    let mut report = ReconciliationReport::default();
    let mut reported = long_position(Exchange::Binance, "2.0000005", "99");
    reported.unrealized_pnl = dec("3");
    r.reconcile_position_at(0, Ok(vec![reported]), 100, &mut report);
    assert_eq!(report.positions_matched, 1);
    r.reconcile_position_at(0, Ok(vec![long_position(Exchange::Binance, "1.5", "98")]), 200, &mut report);
    assert_eq!(report.positions_synced, 1);
    assert_eq!(report.discrepancies[0].difference, dec("0.5"));
    let p = r.get_position(Exchange::Binance, &btc).unwrap();
    assert_eq!(p.quantity, dec("1.5"));
    assert_eq!(p.entry_price, dec("98"));
    r.reconcile_position_at(0, Err("down".to_string()), 300, &mut report);
    assert_eq!(report.errors, 1);
    assert_eq!(r.tracked_exchange(0), Exchange::Binance);
}

// ---------------------------------------------------------------- websocket

#[test]
fn websocket_backoff_and_give_up() {
    let mut ws = WebSocketManager::new("wss://example.test".to_string());
    assert_eq!(ws.next_step(), ConnectStep::Connect);
    let mut waits = Vec::new();
    for _ in 0..9 {
        ws.connection_failed();
        match ws.next_step() {
            ConnectStep::WaitThenConnect(ms) => waits.push(ms),
            other => panic!("unexpected {:?}", other),
        }
    }
    assert_eq!(waits, vec![1000, 2000, 4000, 8000, 16000, 32000, 60000, 60000, 60000]);
    ws.connection_failed();
    assert_eq!(ws.next_step(), ConnectStep::GiveUp);
    assert!(!ws.is_connected());
    ws.connection_succeeded();
    assert!(ws.is_connected());
    assert_eq!(ws.next_step(), ConnectStep::Connect);
    let mut inst = WebSocketManager::institutional("u".to_string());
    let mut inst_waits = Vec::new();
    for _ in 0..4 {
        inst.connection_failed();
        match inst.next_step() {
            ConnectStep::WaitThenConnect(ms) => inst_waits.push(ms),
            other => panic!("unexpected {:?}", other),
        }
    }
    assert_eq!(inst_waits, vec![500, 1000, 2000, 4000]);
    inst.connection_failed();
    assert_eq!(inst.next_step(), ConnectStep::GiveUp);
    inst.reset_reconnect_counter();
    assert_eq!(inst.next_step(), ConnectStep::Connect);
    assert_eq!(inst.url(), "u");
}

#[test]
fn websocket_message_actions() {
    assert!(matches!(incoming_action(Incoming::Text("hi".to_string())), MessageAction::Deliver(t) if t == "hi"));
    assert!(matches!(incoming_action(Incoming::Binary(b"ok".to_vec())), MessageAction::Deliver(t) if t == "ok"));
    assert!(matches!(incoming_action(Incoming::Binary(vec![0xff, 0xfe])), MessageAction::Ignore));
    assert!(matches!(incoming_action(Incoming::Ping(vec![1, 2])), MessageAction::Reply(d) if d == vec![1, 2]));
    assert!(matches!(incoming_action(Incoming::Close), MessageAction::Stop(WebSocketError::ConnectionClosed)));
    assert!(matches!(incoming_action(Incoming::Failure("e".to_string())), MessageAction::Stop(WebSocketError::ReceiveFailed(e)) if e == "e"));
    assert!(matches!(incoming_action(Incoming::Pong(vec![])), MessageAction::Ignore));
}

// ---------------------------------------------------------------- dashboard

#[test]
fn dashboard_book_figures() {
    let s = snapshot(Exchange::Bybit, vec![level("100", "2"), level("99", "1")], vec![level("101", "3")], 1_000, 1);
    let rows = depth_rows(&s.bids, 1);
    assert_eq!(rows.len(), 1);
    assert_eq!(rows[0].total, "200");
    let info = book_info(Exchange::Bybit, &s.symbol, &s, 3_000_500);
    assert_eq!(info.exchange, "Bybit");
    assert_eq!(info.symbol, "BTC/USDT-PERP");
    assert_eq!(info.best_bid.as_deref(), Some("100"));
    assert_eq!(info.spread.as_deref(), Some("1"));
    assert_eq!(info.mid_price.as_deref(), Some("100.50"));
    assert_eq!(info.ask_depth.len(), 1);
    assert_eq!(info.latency_us, 2999);
    let q = venue_quote(&s).unwrap();
    assert_eq!(q.liquidity, dec("602"));
    assert_eq!(q.spread_bps, dec("100"));
    assert!(venue_quote(&snapshot(Exchange::Bybit, vec![], vec![level("1", "1")], 0, 1)).is_none());
}

// ---------------------------------------------------------------- time

#[test]
fn timestamps_convert_and_measure() {
    let t: Timestamp = 5_000_000u64.into();
    let n: u64 = t.into();
    assert_eq!(n, 5_000_000);
    assert_eq!(Timestamp::from_nanos(0).latency_ms_at(t), 5);
    assert_eq!(t.latency_ns_at(Timestamp::from_nanos(1)), 0);
}

#[test]
fn timestamps_order_by_nanoseconds() {
    assert!(Timestamp::from_nanos(1) < Timestamp::from_nanos(2));
    assert!(!(Timestamp::from_nanos(2) < Timestamp::from_nanos(2)));
    assert!(Timestamp::from_nanos(3) > Timestamp::from_nanos(2));
    assert_eq!(u64::from(Timestamp::from(7u64)), 7);
    assert_eq!(Timestamp::from_nanos(9).as_nanos(), 9);
}

#[test]
fn deduplicator_and_limiter_read_their_own_clock() {
    let mut d = OpportunityDeduplicator::new(60_000);
    let fp = OpportunityFingerprint::new("Binance", "Bybit", "BTC/USDT", dec("1"), dec("2"));
    assert!(d.check_and_mark(fp.clone()));
    assert!(!d.check_and_mark(fp));
    let t1 = d.clock_now();
    let t2 = d.clock_now();
    assert!(t2 >= t1);
    let mut l = TokenBucketRateLimiter::new(2, 1);
    assert!(l.try_acquire(1));
    assert!(l.try_acquire(1));
    assert!(!l.try_acquire(1));
}

#[test]
fn fingerprint_prices_go_through_doubles() {
    let symbol = "BTC/USDT";
    // 2^53 + 1 has no double of its own: it reads as 2^53 (ties to even)
    let a = OpportunityFingerprint::new("Binance", "Bybit", symbol, dec("9007199254740993"), dec("1"));
    let b = OpportunityFingerprint::new("Binance", "Bybit", symbol, dec("9007199254740992"), dec("1"));
    assert_eq!(a, b);
    let c = OpportunityFingerprint::new("Binance", "Bybit", symbol, dec("9007199254740994"), dec("1"));
    assert_ne!(a, c);
    // halves round to even before the conversion
    let d = OpportunityFingerprint::new("Binance", "Bybit", symbol, dec("50000.5"), dec("1"));
    let e = OpportunityFingerprint::new("Binance", "Bybit", symbol, dec("50000"), dec("1"));
    assert_eq!(d, e);
}
