use arbitrage_bot::decimal::Dec;
use arbitrage_bot::fees::FeeManager;
use arbitrage_bot::types::Exchange;

fn dec(s: &str) -> Dec {
    let d: rust_decimal::Decimal = s.parse().unwrap();
    Dec::from_parts(d.mantissa(), d.scale())
}

#[test]
fn test_binance_fees() {
    let fees = FeeManager::get_fees(Exchange::Binance);
    assert_eq!(fees.maker_fee, dec("0.0002"));
    assert_eq!(fees.taker_fee, dec("0.0004"));
}

#[test]
fn test_fee_calculation() {
    let fee = FeeManager::calculate_fee(
        Exchange::Binance,
        false, // taker
        dec("1.0"),
        dec("50000.0"),
    );
    // 1.0 * 50000.0 * 0.0004 = 20.0
    assert_eq!(fee, dec("20.0"));
}
