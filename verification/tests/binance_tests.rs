use arbitrage_bot::binance::{
    parse_funding_rate,
    cancel_order_params, depth_snapshot, depth_stream_url, format_symbol, limit_order_params,
    market_order_params, parse_levels, parse_positions, premium_index_url, sign, signed_url,
    timestamp_params, usdt_balance, AssetBalance, DepthUpdate, PositionRisk,
};
use arbitrage_bot::decimal::Dec;
use arbitrage_bot::types::{Exchange, InstrumentType, Side, Symbol};

fn dec(s: &str) -> Dec {
    let d: rust_decimal::Decimal = s.parse().unwrap();
    Dec::from_parts(d.mantissa(), d.scale())
}

fn pair(a: &str, b: &str) -> (String, String) {
    (a.to_string(), b.to_string())
}

#[test]
fn binance_signature_matches_the_documented_example() {
    let secret = "NhqPtmdSJYdKjVHjA7PZj4Mge3R5YNiP1e3UZjInClVN65XAbvqqM6A7H5fATj0j";
    let query = "symbol=LTCBTC&side=BUY&type=LIMIT&timeInForce=GTC&quantity=1&price=0.1&recvWindow=5000&timestamp=1499827319559";
    assert_eq!(sign(secret, query), "c8db56825ae71d6d79447849e617115f4a920fa2acdcab2b053c4b2838bd6b71");
}

#[test]
fn binance_queries_and_urls() {
    let btc = Symbol::perpetual("BTC", "USDT");
    assert_eq!(format_symbol(&btc), "BTCUSDT");
    assert_eq!(
        limit_order_params(&btc, Side::Buy, dec("0.010"), dec("50000.5"), 1700000000000),
        "symbol=BTCUSDT&side=BUY&type=LIMIT&timeInForce=GTC&quantity=0.010&price=50000.5&timestamp=1700000000000"
    );
    assert_eq!(
        market_order_params(&btc, Side::Sell, dec("2"), -5),
        "symbol=BTCUSDT&side=SELL&type=MARKET&quantity=2&timestamp=-5"
    );
    assert_eq!(cancel_order_params(&btc, "42", 7), "symbol=BTCUSDT&orderId=42&timestamp=7");
    assert_eq!(timestamp_params(123), "timestamp=123");
    assert_eq!(
        signed_url("/fapi/v1/order", "a=1", "ff"),
        "https://fapi.binance.com/fapi/v1/order?a=1&signature=ff"
    );
    assert_eq!(premium_index_url(&btc), "https://fapi.binance.com/fapi/v1/premiumIndex?symbol=BTCUSDT");
    assert_eq!(depth_stream_url(&btc), "wss://fstream.binance.com/wsbtcusdt@depth20@100ms");
}

#[test]
fn binance_depth_update_skips_unreadable_levels() {
    let raw = vec![pair("100.5", "2"), pair("x", "1"), pair("99", "")];
    let levels = parse_levels(&raw);
    assert_eq!(levels.len(), 1);
    assert_eq!(levels[0].price, dec("100.5"));
    let update = DepthUpdate {
        event_time: 1,
        first_update_id: 2,
        final_update_id: 3,
        bids: raw,
        asks: vec![pair("101", "4")],
    };
    let symbol = Symbol::perpetual("ETH", "USDT");
    let s = depth_snapshot(&update, &symbol, 99);
    assert_eq!(s.exchange, Exchange::Binance);
    assert_eq!(s.sequence, 3);
    assert_eq!(s.timestamp_ns, 99);
    assert_eq!(s.bids.len(), 1);
    assert_eq!(s.asks[0].quantity, dec("4"));
}

fn risk(symbol: &str, amt: &str, entry: &str) -> PositionRisk {
    PositionRisk {
        symbol: symbol.to_string(),
        position_amt: amt.to_string(),
        entry_price: entry.to_string(),
        mark_price: "101".to_string(),
        un_realized_profit: "3.5".to_string(),
        leverage: "20".to_string(),
    }
}

#[test]
fn binance_positions_from_reports() {
    let reports = vec![
        risk("BTCUSDT", "0.5", "100"),
        risk("ETHUSDT", "0", "100"),
        risk("SOLUSDT", "-3", "bad"),
        risk("ETHBUSD", "-1.25", "2000"),
    ];
    let positions = parse_positions(&reports);
    assert_eq!(positions.len(), 2);
    assert_eq!(positions[0].symbol.base, "BTC");
    assert_eq!(positions[0].symbol.quote, "USDT");
    assert!(matches!(positions[0].symbol.instrument_type, InstrumentType::PerpetualFuture));
    assert_eq!(positions[0].current_price, dec("101"));
    assert_eq!(positions[1].quantity, dec("-1.25"));
    assert_eq!(positions[1].leverage, dec("20"));
    assert_eq!(positions[1].realized_pnl, Dec::zero());
}

#[test]
fn binance_usdt_balance() {
    let b = |a: &str, v: &str| AssetBalance { asset: a.to_string(), balance: v.to_string() };
    assert_eq!(usdt_balance(&vec![b("BTC", "1"), b("USDT", "250.75")]), dec("250.75"));
    assert_eq!(usdt_balance(&vec![b("USDT", "oops"), b("USDT", "5")]), Dec::zero());
    assert_eq!(usdt_balance(&vec![]), Dec::zero());
}

#[test]
fn binance_funding_rate_text() {
    assert_eq!(parse_funding_rate("0.00010000"), Some(dec("0.0001")));
    assert_eq!(parse_funding_rate("-0.00025"), Some(dec("-0.00025")));
    assert_eq!(parse_funding_rate("n/a"), None);
}
