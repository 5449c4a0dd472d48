use arbitrage_bot::decimal::Dec;
use arbitrage_bot::deduplication::{OpportunityDeduplicator, OpportunityFingerprint, TokenBucketRateLimiter};
use arbitrage_bot::optimized::{BufferPool, FastOrderBookSnapshot, FastValidator};
use arbitrage_bot::orderbook::{OrderBook, OrderBookManager};
use arbitrage_bot::precision::{ExchangeRules, ExchangeRulesManager};
use arbitrage_bot::timing::Timestamp;
use arbitrage_bot::types::{Exchange, OrderBookSnapshot, PriceLevel, Side, Symbol};
use arbitrage_bot::validation::{LiquidityValidator, OrderBookValidator};
use std::time::{Duration, Instant};

fn dec(s: &str) -> Dec {
    let d: rust_decimal::Decimal = s.parse().unwrap();
    Dec::from_parts(d.mantissa(), d.scale())
}

fn level(price: &str, quantity: &str) -> PriceLevel {
    PriceLevel::new(dec(price), dec(quantity))
}

#[test]
fn test_orderbook_update() {
    let mut book = OrderBook::new(Exchange::Binance, Symbol::perpetual("BTC", "USDT"));

    let snapshot = OrderBookSnapshot {
        exchange: Exchange::Binance,
        symbol: Symbol::perpetual("BTC", "USDT"),
        bids: vec![level("50000", "1.0"), level("49999", "2.0")],
        asks: vec![level("50001", "1.5"), level("50002", "2.5")],
        timestamp_ns: 1000,
        sequence: 1,
    };

    book.update(snapshot);

    assert_eq!(book.best_bid().unwrap().price, dec("50000"));
    assert_eq!(book.best_ask().unwrap().price, dec("50001"));
    assert_eq!(book.spread().unwrap(), dec("1"));
    assert_eq!(book.mid_price().unwrap(), dec("50000.5"));
}

#[test]
fn orderbook_test_vwap_calculation() {
    let mut book = OrderBook::new(Exchange::Binance, Symbol::perpetual("BTC", "USDT"));

    let snapshot = OrderBookSnapshot {
        exchange: Exchange::Binance,
        symbol: Symbol::perpetual("BTC", "USDT"),
        bids: vec![level("50000", "1.0"), level("49999", "2.0")],
        asks: vec![level("50001", "1.0"), level("50002", "2.0")],
        timestamp_ns: 1000,
        sequence: 1,
    };

    book.update(snapshot);

    let vwap = book.calculate_vwap(Side::Buy, dec("2.0")).unwrap();
    // VWAP = (50001 * 1.0 + 50002 * 1.0) / 2.0 = 50001.5
    assert_eq!(vwap, dec("50001.5"));
}

#[test]
fn test_lot_size_adjustment() {
    let rules = ExchangeRules {
        min_quantity: dec("0.001"),
        max_quantity: dec("1000"),
        quantity_step: dec("0.001"),
        min_notional: dec("5"),
        price_tick: dec("0.1"),
        quantity_precision: 3,
        price_precision: 1,
    };

    // 0.0015 should round down to 0.001
    assert_eq!(rules.adjust_to_lot_size(dec("0.0015")), dec("0.001"));

    // 0.0025 should round down to 0.002
    assert_eq!(rules.adjust_to_lot_size(dec("0.0025")), dec("0.002"));
}

#[test]
fn test_order_validation() {
    let manager = ExchangeRulesManager::new();

    // Valid order
    let result = manager.validate_order("Binance", "BTC/USDT", dec("50000"), dec("0.01"));
    assert!(result.is_ok());

    // Too small quantity
    let result = manager.validate_order("Binance", "BTC/USDT", dec("50000"), dec("0.0001"));
    assert!(result.is_err());
}

#[test]
fn test_freshness_validation() {
    let validator = OrderBookValidator::institutional();
    let now = 1000_000_000_000u64;

    assert!(validator.is_fresh(now - 500_000_000, now)); // 500ms old - fresh
    assert!(!validator.is_fresh(now - 2_000_000_000, now)); // 2s old - stale
}

#[test]
fn test_liquidity_validation() {
    let validator = LiquidityValidator::institutional();
    let levels = vec![level("50000", "1.0"), level("50001", "2.0"), level("50002", "3.0")];

    // Not enough depth
    assert!(validator.validate_depth(&levels, dec("1.0")).is_err());
}

#[test]
fn test_deduplication() {
    let mut dedup = OpportunityDeduplicator::new(1000);
    let start = Timestamp::now().as_nanos();

    let fp = OpportunityFingerprint::new("Binance", "Bybit", "BTC/USDT", dec("50000"), dec("50100"));

    // First check should pass
    assert!(dedup.check_and_mark_at(fp.clone(), start));

    // Immediate duplicate should fail
    assert!(!dedup.check_and_mark_at(fp.clone(), start));

    // After cooldown, should pass again
    assert!(dedup.check_and_mark_at(fp, start + 1_100_000_000));
}

#[test]
fn test_rate_limiter() {
    let start = Timestamp::now().as_nanos();
    let mut limiter = TokenBucketRateLimiter::new_at(10, 5, start);

    // Should be able to consume up to capacity
    for _ in 0..10 {
        assert!(limiter.try_acquire_at(1, start));
    }

    // Should fail after exhausting tokens
    assert!(!limiter.try_acquire_at(1, start));

    // Half a second later ~2-3 tokens are back
    assert!(limiter.available_tokens_at(start + 500_000_000) >= 2);
}

#[test]
fn test_fast_snapshot() {
    let snapshot = OrderBookSnapshot {
        exchange: Exchange::Binance,
        symbol: Symbol::perpetual("BTC", "USDT"),
        bids: vec![level("50000", "1.0"), level("49999", "2.0")],
        asks: vec![level("50001", "1.0"), level("50002", "2.0")],
        timestamp_ns: 1000,
        sequence: 1,
    };

    let fast = FastOrderBookSnapshot::from_snapshot(&snapshot);

    assert_eq!(fast.best_bid().unwrap().price, dec("50000"));
    assert_eq!(fast.best_ask().unwrap().price, dec("50001"));
    assert_eq!(fast.spread().unwrap(), dec("1"));
}

#[test]
fn test_fast_validator() {
    let now = 1_000_000_000u64;
    let old = 500_000_000u64;

    assert!(FastValidator::is_fresh(now, now, 1_000_000_000));
    assert!(!FastValidator::is_fresh(old, now, 1_000_000_000));
}

#[test]
fn test_buffer_pool() {
    let mut pool = BufferPool::new(10, 4096);

    let buf1 = pool.acquire().unwrap();
    assert_eq!(buf1.capacity(), 4096);

    pool.release(buf1);

    let buf2 = pool.acquire().unwrap();
    assert_eq!(buf2.len(), 0); // Should be cleared
}

fn create_test_snapshot() -> OrderBookSnapshot {
    OrderBookSnapshot {
        exchange: Exchange::Binance,
        symbol: Symbol::perpetual("BTC", "USDT"),
        bids: vec![level("50000", "1.0"), level("49999", "2.0"), level("49998", "3.0")],
        asks: vec![level("50001", "1.0"), level("50002", "2.0"), level("50003", "3.0")],
        timestamp_ns: Timestamp::now().as_nanos(),
        sequence: 1,
    }
}

#[test]
fn bench_orderbook_update() {
    const ITERATIONS: usize = 10_000;

    let mut mgr = OrderBookManager::new();
    let snapshot = create_test_snapshot();

    let start = Instant::now();
    for _ in 0..ITERATIONS {
        mgr.update(snapshot.clone());
    }
    let elapsed = start.elapsed();

    let avg_ns = elapsed.as_nanos() / ITERATIONS as u128;
    println!("Orderbook update: {} ns/op", avg_ns);

    // Target: < 500ns per update
    assert!(avg_ns < 500, "Orderbook update too slow: {}ns", avg_ns);
}

#[test]
fn bench_best_bid_ask() {
    const ITERATIONS: usize = 10_000;

    let mut mgr = OrderBookManager::new();
    let snapshot = create_test_snapshot();
    mgr.update(snapshot.clone());

    let start = Instant::now();
    for _ in 0..ITERATIONS {
        let _ = mgr.get_best_bid(snapshot.exchange, &snapshot.symbol);
        let _ = mgr.get_best_ask(snapshot.exchange, &snapshot.symbol);
    }
    let elapsed = start.elapsed();

    let avg_ns = elapsed.as_nanos() / (ITERATIONS * 2) as u128;
    println!("Best bid/ask: {} ns/op", avg_ns);

    // Target: < 50ns per lookup
    assert!(avg_ns < 50, "Best bid/ask too slow: {}ns", avg_ns);
}

#[test]
fn bench_validation_quick() {
    const ITERATIONS: usize = 10_000;

    let now = Timestamp::now().as_nanos();

    let start = Instant::now();
    for _ in 0..ITERATIONS {
        let _ = FastValidator::is_fresh(now, now, 1_000_000_000);
    }
    let elapsed = start.elapsed();

    let avg_ns = elapsed.as_nanos() / ITERATIONS as u128;
    println!("Fast validation: {} ns/op", avg_ns);

    // Target: < 10ns per check
    assert!(avg_ns < 10, "Validation too slow: {}ns", avg_ns);
}

#[test]
fn test_timestamp_ordering() {
    let t1 = Timestamp::now();
    let wait = Instant::now();
    while wait.elapsed() < Duration::from_nanos(100) {}
    let t2 = Timestamp::now();
    assert!(t2 > t1);
}

#[test]
fn test_latency_measurement() {
    let ts = Timestamp::now();
    let later = Timestamp::from_nanos(ts.as_nanos() + 100_000);
    let latency_us = ts.latency_us_at(later);
    assert!(latency_us >= 100);
    assert!(latency_us < 1_000); // Should be less than 1ms
}
