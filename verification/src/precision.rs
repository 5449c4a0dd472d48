//! Exchange-specific order precision: lot sizes, rounding and minimums.
use vstd::prelude::*;
use vstd::string::StringExecFns;
use crate::decimal::{
    Dec, dec_mul, dec_div, decimal_product, decimal_quotient, product_ok, quotient_ok, rounded,
    floored, pow10, unit, max_mantissa, lemma_pow10_positive, lemma_pow10_monotone,
};

verus! {

/// Exchange-specific trading rules and precision requirements
#[derive(Clone, Copy, Debug)]
pub struct ExchangeRules {
    /// Minimum order quantity
    pub min_quantity: Dec,
    /// Maximum order quantity
    pub max_quantity: Dec,
    /// Quantity step size (lot size)
    pub quantity_step: Dec,
    /// Minimum notional value (price * quantity)
    pub min_notional: Dec,
    /// Price tick size
    pub price_tick: Dec,
    /// Number of decimal places for quantity
    pub quantity_precision: u32,
    /// Number of decimal places for price
    pub price_precision: u32,
}

/// 10^places as a decimal of scale 0.
pub open spec fn scale_factor(places: u32) -> Dec {
    Dec::literal(pow10(places as nat), 0)
}

/// `x` rounded to `places` decimal places the way the rules do it: scaled up
/// by 10^places, rounded to an integer (ties to even) and scaled back.
pub open spec fn round_to(x: Dec, places: u32) -> Dec {
    decimal_quotient(rounded(decimal_product(x, scale_factor(places))), scale_factor(places))
}

pub open spec fn round_to_ok(x: Dec, places: u32) -> bool {
    &&& places <= 19
    &&& product_ok(x, scale_factor(places))
    &&& quotient_ok(rounded(decimal_product(x, scale_factor(places))), scale_factor(places))
}

/// `q` brought down to a whole number of lots, then rounded to the
/// quantity precision; unchanged when the lot size is zero.
pub open spec fn lot_adjusted(rules: ExchangeRules, q: Dec) -> Dec {
    if rules.quantity_step.val() == 0 {
        q
    } else {
        round_to(
            decimal_product(floored(decimal_quotient(q, rules.quantity_step)), rules.quantity_step),
            rules.quantity_precision,
        )
    }
}

pub open spec fn lot_adjusted_ok(rules: ExchangeRules, q: Dec) -> bool {
    rules.quantity_step.val() != 0 ==> {
        let lots = floored(decimal_quotient(q, rules.quantity_step));
        &&& quotient_ok(q, rules.quantity_step)
        &&& product_ok(lots, rules.quantity_step)
        &&& round_to_ok(decimal_product(lots, rules.quantity_step), rules.quantity_precision)
    }
}

/// Precision error types
#[derive(Debug)]
pub enum PrecisionError {
    QuantityTooSmall { quantity: Dec, minimum: Dec },
    QuantityTooLarge { quantity: Dec, maximum: Dec },
    NotionalTooSmall { notional: Dec, minimum: Dec },
    InvalidLotSize(String),
}

/// What validating an order at `price` for `q` gives: the lot-adjusted
/// quantity must lie within the limits and its notional reach the minimum.
pub open spec fn order_check(rules: ExchangeRules, price: Dec, q: Dec) -> Result<(), (int, Dec, Dec)> {
    let adjusted = lot_adjusted(rules, q);
    if adjusted.val() < rules.min_quantity.val() {
        Err((0, adjusted, rules.min_quantity))
    } else if adjusted.val() > rules.max_quantity.val() {
        Err((1, adjusted, rules.max_quantity))
    } else if decimal_product(price, adjusted).val() < rules.min_notional.val() {
        Err((2, decimal_product(price, adjusted), rules.min_notional))
    } else {
        Ok(())
    }
}

/// The error `r` is the one `order_check` describes.
pub open spec fn matches_check(r: Result<(), PrecisionError>, c: Result<(), (int, Dec, Dec)>) -> bool {
    match (r, c) {
        (Ok(()), Ok(())) => true,
        (Err(PrecisionError::QuantityTooSmall { quantity, minimum }), Err((k, a, b))) => k == 0
            && quantity == a && minimum == b,
        (Err(PrecisionError::QuantityTooLarge { quantity, maximum }), Err((k, a, b))) => k == 1
            && quantity == a && maximum == b,
        (Err(PrecisionError::NotionalTooSmall { notional, minimum }), Err((k, a, b))) => k == 2
            && notional == a && minimum == b,
        _ => false,
    }
}

pub open spec fn order_check_ok(rules: ExchangeRules, price: Dec, q: Dec) -> bool {
    let adjusted = lot_adjusted(rules, q);
    &&& lot_adjusted_ok(rules, q)
    &&& (rules.min_quantity.val() <= adjusted.val() <= rules.max_quantity.val() ==> product_ok(
        price,
        adjusted,
    ))
}

/// 10^n as a 64-bit integer.
fn pow10_u64(n: u32) -> (r: u64)
    requires
        n <= 19,
    ensures
        r == pow10(n as nat),
{
    let mut r: u64 = 1;
    let mut i: u32 = 0;
    while i < n
        invariant
            0 <= i <= n <= 19,
            r == pow10(i as nat),
        decreases n - i,
    {
        proof {
            lemma_pow10_monotone((i + 1) as nat, 19);
            reveal_with_fuel(pow10, 20);
            assert(pow10(19) == 10000000000000000000);
        }
        r = r * 10;
        i = i + 1;
    }
    r
}

/// `x` rounded to `places` decimal places.
fn round_to_places(x: Dec, places: u32) -> (r: Dec)
    requires
        round_to_ok(x, places),
    ensures
        r == round_to(x, places),
{
    let p = pow10_u64(places);
    let multiplier = Dec::from_u64(p);
    dec_div(dec_mul(x, multiplier).round(), multiplier)
}

impl ExchangeRules {
    /// Round quantity to exchange precision
    pub fn round_quantity(&self, quantity: Dec) -> (r: Dec)
        requires
            round_to_ok(quantity, self.quantity_precision),
        ensures
            r == round_to(quantity, self.quantity_precision),
    {
        round_to_places(quantity, self.quantity_precision)
    }

    /// Round price to exchange precision
    pub fn round_price(&self, price: Dec) -> (r: Dec)
        requires
            round_to_ok(price, self.price_precision),
        ensures
            r == round_to(price, self.price_precision),
    {
        round_to_places(price, self.price_precision)
    }

    /// Adjust quantity to lot size
    pub fn adjust_to_lot_size(&self, quantity: Dec) -> (r: Dec)
        requires
            lot_adjusted_ok(*self, quantity),
        ensures
            r == lot_adjusted(*self, quantity),
    {
        if self.quantity_step.is_zero() {
            return quantity;
        }
        let lots = dec_div(quantity, self.quantity_step).floor();
        let adjusted = dec_mul(lots, self.quantity_step);
        self.round_quantity(adjusted)
    }

    /// Validate if order meets exchange requirements
    pub fn validate_order(&self, price: Dec, quantity: Dec) -> (r: Result<(), PrecisionError>)
        requires
            order_check_ok(*self, price, quantity),
        ensures
            matches_check(r, order_check(*self, price, quantity)),
    {
        let adjusted_qty = self.adjust_to_lot_size(quantity);
        if adjusted_qty.lt(&self.min_quantity) {
            return Err(
                PrecisionError::QuantityTooSmall {
                    quantity: adjusted_qty,
                    minimum: self.min_quantity,
                },
            );
        }
        if adjusted_qty.gt(&self.max_quantity) {
            return Err(
                PrecisionError::QuantityTooLarge {
                    quantity: adjusted_qty,
                    maximum: self.max_quantity,
                },
            );
        }
        let notional = dec_mul(price, adjusted_qty);
        if notional.lt(&self.min_notional) {
            return Err(PrecisionError::NotionalTooSmall { notional, minimum: self.min_notional });
        }
        Ok(())
    }
}

/// The rules configured for an exchange and symbol by default.
pub open spec fn default_rules(exchange: Seq<char>, symbol: Seq<char>) -> Option<ExchangeRules> {
    if exchange == "Binance"@ && symbol == "BTC/USDT"@ {
        Some(
            ExchangeRules {
                min_quantity: Dec::literal(1, 3),
                max_quantity: Dec::literal(1000, 0),
                quantity_step: Dec::literal(1, 3),
                min_notional: Dec::literal(5, 0),
                price_tick: Dec::literal(1, 1),
                quantity_precision: 3,
                price_precision: 1,
            },
        )
    } else if exchange == "Binance"@ && symbol == "ETH/USDT"@ {
        Some(
            ExchangeRules {
                min_quantity: Dec::literal(1, 3),
                max_quantity: Dec::literal(10000, 0),
                quantity_step: Dec::literal(1, 3),
                min_notional: Dec::literal(5, 0),
                price_tick: Dec::literal(1, 2),
                quantity_precision: 3,
                price_precision: 2,
            },
        )
    } else if exchange == "Bybit"@ && symbol == "BTC/USDT"@ {
        Some(
            ExchangeRules {
                min_quantity: Dec::literal(1, 4),
                max_quantity: Dec::literal(500, 0),
                quantity_step: Dec::literal(1, 4),
                min_notional: Dec::literal(10, 0),
                price_tick: Dec::literal(5, 1),
                quantity_precision: 4,
                price_precision: 1,
            },
        )
    } else if exchange == "OKX"@ && symbol == "BTC/USDT"@ {
        Some(
            ExchangeRules {
                min_quantity: Dec::literal(1, 4),
                max_quantity: Dec::literal(1000, 0),
                quantity_step: Dec::literal(1, 4),
                min_notional: Dec::literal(1, 0),
                price_tick: Dec::literal(1, 1),
                quantity_precision: 4,
                price_precision: 1,
            },
        )
    } else {
        None
    }
}

/// The first entry with this exchange and symbol.
pub open spec fn rules_lookup(
    entries: Seq<(String, String, ExchangeRules)>,
    exchange: Seq<char>,
    symbol: Seq<char>,
    i: int,
) -> Option<ExchangeRules>
    decreases entries.len() - i,
{
    if i < 0 || i >= entries.len() {
        None
    } else if entries[i].0@ == exchange && entries[i].1@ == symbol {
        Some(entries[i].2)
    } else {
        rules_lookup(entries, exchange, symbol, i + 1)
    }
}

/// Manager for exchange-specific rules
pub struct ExchangeRulesManager {
    /// (exchange, symbol) -> rules
    rules: Vec<(String, String, ExchangeRules)>,
}

/// What validating an order through the manager gives.
pub open spec fn manager_check(
    rules: Option<ExchangeRules>,
    price: Dec,
    q: Dec,
) -> Option<Result<(Dec, Dec), (int, Dec, Dec)>> {
    match rules {
        None => None,
        Some(r) => {
            let p = round_to(price, r.price_precision);
            let a = lot_adjusted(r, q);
            Some(
                match order_check(r, p, a) {
                    Ok(()) => Ok((p, a)),
                    Err(e) => Err(e),
                },
            )
        },
    }
}

pub open spec fn manager_check_ok(rules: Option<ExchangeRules>, price: Dec, q: Dec) -> bool {
    match rules {
        None => true,
        Some(r) => {
            &&& round_to_ok(price, r.price_precision)
            &&& lot_adjusted_ok(r, q)
            &&& order_check_ok(r, round_to(price, r.price_precision), lot_adjusted(r, q))
        },
    }
}

impl ExchangeRulesManager {
    /// The rules held for an exchange and symbol.
    pub closed spec fn rules_for(&self, exchange: Seq<char>, symbol: Seq<char>) -> Option<
        ExchangeRules,
    > {
        rules_lookup(self.rules@, exchange, symbol, 0)
    }

    fn entry(exchange: &str, symbol: &str, rules: ExchangeRules) -> (r: (String, String, ExchangeRules))
        ensures
            r.0@ == exchange@,
            r.1@ == symbol@,
            r.2 == rules,
    {
        (String::from_str(exchange), String::from_str(symbol), rules)
    }

    /// The default rules: Binance BTC/USDT and ETH/USDT, Bybit BTC/USDT and
    /// OKX BTC/USDT perpetuals.
    pub fn new() -> (r: ExchangeRulesManager)
        ensures
            forall|e: Seq<char>, s: Seq<char>| r.rules_for(e, s) == default_rules(e, s),
    {
        let mut rules: Vec<(String, String, ExchangeRules)> = Vec::new();
        rules.push(
            Self::entry(
                "Binance",
                "BTC/USDT",
                ExchangeRules {
                    min_quantity: Dec::new(1, 3),
                    max_quantity: Dec::new(1000, 0),
                    quantity_step: Dec::new(1, 3),
                    min_notional: Dec::new(5, 0),
                    price_tick: Dec::new(1, 1),
                    quantity_precision: 3,
                    price_precision: 1,
                },
            ),
        );
        rules.push(
            Self::entry(
                "Binance",
                "ETH/USDT",
                ExchangeRules {
                    min_quantity: Dec::new(1, 3),
                    max_quantity: Dec::new(10000, 0),
                    quantity_step: Dec::new(1, 3),
                    min_notional: Dec::new(5, 0),
                    price_tick: Dec::new(1, 2),
                    quantity_precision: 3,
                    price_precision: 2,
                },
            ),
        );
        rules.push(
            Self::entry(
                "Bybit",
                "BTC/USDT",
                ExchangeRules {
                    min_quantity: Dec::new(1, 4),
                    max_quantity: Dec::new(500, 0),
                    quantity_step: Dec::new(1, 4),
                    min_notional: Dec::new(10, 0),
                    price_tick: Dec::new(5, 1),
                    quantity_precision: 4,
                    price_precision: 1,
                },
            ),
        );
        rules.push(
            Self::entry(
                "OKX",
                "BTC/USDT",
                ExchangeRules {
                    min_quantity: Dec::new(1, 4),
                    max_quantity: Dec::new(1000, 0),
                    quantity_step: Dec::new(1, 4),
                    min_notional: Dec::new(1, 0),
                    price_tick: Dec::new(1, 1),
                    quantity_precision: 4,
                    price_precision: 1,
                },
            ),
        );
        let r = ExchangeRulesManager { rules };
        proof {
            reveal_strlit("Binance");
            reveal_strlit("Bybit");
            reveal_strlit("OKX");
            reveal_strlit("BTC/USDT");
            reveal_strlit("ETH/USDT");
            let v = r.rules@;
            assert(v.len() == 4);
            assert(v[0].0@ == "Binance"@ && v[0].1@ == "BTC/USDT"@);
            assert(v[1].0@ == "Binance"@ && v[1].1@ == "ETH/USDT"@);
            assert(v[2].0@ == "Bybit"@ && v[2].1@ == "BTC/USDT"@);
            assert(v[3].0@ == "OKX"@ && v[3].1@ == "BTC/USDT"@);
            assert forall|e: Seq<char>, s: Seq<char>| r.rules_for(e, s) == default_rules(e, s) by {
                let l0 = rules_lookup(v, e, s, 0);
                let l1 = rules_lookup(v, e, s, 1);
                let l2 = rules_lookup(v, e, s, 2);
                let l3 = rules_lookup(v, e, s, 3);
                let l4 = rules_lookup(v, e, s, 4);
                assert(l4 is None);
                assert(l3 == (if v[3].0@ == e && v[3].1@ == s { Some(v[3].2) } else { l4 }));
                assert(l2 == (if v[2].0@ == e && v[2].1@ == s { Some(v[2].2) } else { l3 }));
                assert(l1 == (if v[1].0@ == e && v[1].1@ == s { Some(v[1].2) } else { l2 }));
                assert(l0 == (if v[0].0@ == e && v[0].1@ == s { Some(v[0].2) } else { l1 }));
            }
        }
        r
    }

    pub fn get_rules(&self, exchange: &str, symbol: &str) -> (r: Option<&ExchangeRules>)
        ensures
            r matches Some(x) ==> self.rules_for(exchange@, symbol@) == Some(*x),
            r is None ==> self.rules_for(exchange@, symbol@) is None,
    {
        let e = String::from_str(exchange);
        let s = String::from_str(symbol);
        let mut i: usize = 0;
        while i < self.rules.len()
            invariant
                0 <= i <= self.rules@.len(),
                e@ == exchange@,
                s@ == symbol@,
                rules_lookup(self.rules@, exchange@, symbol@, 0) == rules_lookup(
                    self.rules@,
                    exchange@,
                    symbol@,
                    i as int,
                ),
            decreases self.rules@.len() - i,
        {
            if self.rules[i].0 == e && self.rules[i].1 == s {
                return Some(&self.rules[i].2);
            }
            i = i + 1;
        }
        None
    }

    pub fn adjust_quantity(&self, exchange: &str, symbol: &str, quantity: Dec) -> (r: Dec)
        requires
            self.rules_for(exchange@, symbol@) matches Some(x) ==> lot_adjusted_ok(x, quantity),
        ensures
            r == match self.rules_for(exchange@, symbol@) {
                Some(x) => lot_adjusted(x, quantity),
                None => quantity,
            },
    {
        match self.get_rules(exchange, symbol) {
            Some(rules) => rules.adjust_to_lot_size(quantity),
            None => quantity,
        }
    }

    /// Rounds the price to its precision and the quantity to the lot size,
    /// then validates the order; the adjusted pair when it passes.
    pub fn validate_order(&self, exchange: &str, symbol: &str, price: Dec, quantity: Dec) -> (r:
        Result<(Dec, Dec), PrecisionError>)
        requires
            manager_check_ok(self.rules_for(exchange@, symbol@), price, quantity),
        ensures
            match manager_check(self.rules_for(exchange@, symbol@), price, quantity) {
                None => r matches Err(PrecisionError::InvalidLotSize(m)) && m@ == "Unknown symbol"@,
                Some(Ok(pq)) => r == Ok::<(Dec, Dec), PrecisionError>(pq),
                Some(Err(e)) => r is Err && matches_check(
                    match r {
                        Err(x) => Err(x),
                        Ok(_) => Ok(()),
                    },
                    Err(e),
                ),
            },
    {
        let rules = match self.get_rules(exchange, symbol) {
            Some(x) => x,
            None => return Err(PrecisionError::InvalidLotSize(String::from_str("Unknown symbol"))),
        };
        let adjusted_price = rules.round_price(price);
        let adjusted_quantity = rules.adjust_to_lot_size(quantity);
        match rules.validate_order(adjusted_price, adjusted_quantity) {
            Ok(()) => Ok((adjusted_price, adjusted_quantity)),
            Err(e) => Err(e),
        }
    }
}

} // verus!
