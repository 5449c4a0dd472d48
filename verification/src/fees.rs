//! Trading fees per exchange.
use vstd::prelude::*;
use crate::decimal::{
    Dec, dec_mul, dec_sub, decimal_product, decimal_difference, product_ok, difference_ok,
};
use crate::types::{Exchange, FeeStructure};

verus! {

/// Fee manager for all exchanges
pub struct FeeManager;

/// The (maker, taker) fee rates of an exchange at the retail tier.
pub open spec fn fee_rates(exchange: Exchange) -> (Dec, Dec) {
    match exchange {
        Exchange::Binance => (Dec::literal(2, 4), Dec::literal(4, 4)),
        Exchange::Bybit => (Dec::literal(1, 4), Dec::literal(6, 4)),
        Exchange::OKX => (Dec::literal(2, 4), Dec::literal(5, 4)),
        Exchange::Deribit => (Dec::literal(0, 4), Dec::literal(5, 4)),
        Exchange::Kraken => (Dec::literal(2, 4), Dec::literal(5, 4)),
        Exchange::Coinbase => (Dec::literal(40, 4), Dec::literal(60, 4)),
    }
}

/// The rate charged to a maker or a taker.
pub open spec fn fee_rate(exchange: Exchange, is_maker: bool) -> Dec {
    if is_maker {
        fee_rates(exchange).0
    } else {
        fee_rates(exchange).1
    }
}

/// quantity * price * rate.
pub open spec fn fee_of(exchange: Exchange, is_maker: bool, quantity: Dec, price: Dec) -> Dec {
    decimal_product(decimal_product(quantity, price), fee_rate(exchange, is_maker))
}

pub open spec fn fee_ok(exchange: Exchange, is_maker: bool, quantity: Dec, price: Dec) -> bool {
    &&& product_ok(quantity, price)
    &&& product_ok(decimal_product(quantity, price), fee_rate(exchange, is_maker))
}

/// quantity * price less the fee.
pub open spec fn net_proceeds_of(exchange: Exchange, is_maker: bool, quantity: Dec, price: Dec) -> Dec {
    decimal_difference(decimal_product(quantity, price), fee_of(exchange, is_maker, quantity, price))
}

pub open spec fn net_proceeds_ok(exchange: Exchange, is_maker: bool, quantity: Dec, price: Dec) -> bool {
    &&& fee_ok(exchange, is_maker, quantity, price)
    &&& difference_ok(decimal_product(quantity, price), fee_of(exchange, is_maker, quantity, price))
}

impl FeeManager {
    /// Get fee structure for an exchange (VIP 0 / retail tier)
    pub fn get_fees(exchange: Exchange) -> (r: FeeStructure)
        ensures
            r.exchange == exchange,
            r.maker_fee == fee_rates(exchange).0,
            r.taker_fee == fee_rates(exchange).1,
            r.funding_rate is None,
    {
        match exchange {
            Exchange::Binance => FeeStructure::new(exchange, Dec::new(2, 4), Dec::new(4, 4)),
            Exchange::Bybit => FeeStructure::new(exchange, Dec::new(1, 4), Dec::new(6, 4)),
            Exchange::OKX => FeeStructure::new(exchange, Dec::new(2, 4), Dec::new(5, 4)),
            Exchange::Deribit => FeeStructure::new(exchange, Dec::new(0, 4), Dec::new(5, 4)),
            Exchange::Kraken => FeeStructure::new(exchange, Dec::new(2, 4), Dec::new(5, 4)),
            Exchange::Coinbase => FeeStructure::new(exchange, Dec::new(40, 4), Dec::new(60, 4)),
        }
    }

    /// Calculate total fee for a trade
    pub fn calculate_fee(exchange: Exchange, is_maker: bool, quantity: Dec, price: Dec) -> (r: Dec)
        requires
            fee_ok(exchange, is_maker, quantity, price),
        ensures
            r == fee_of(exchange, is_maker, quantity, price),
    {
        let fees = Self::get_fees(exchange);
        let fee_rate = if is_maker {
            fees.maker_fee
        } else {
            fees.taker_fee
        };
        dec_mul(dec_mul(quantity, price), fee_rate)
    }

    /// Calculate net proceeds after fees
    pub fn net_proceeds(exchange: Exchange, is_maker: bool, quantity: Dec, price: Dec) -> (r: Dec)
        requires
            net_proceeds_ok(exchange, is_maker, quantity, price),
        ensures
            r == net_proceeds_of(exchange, is_maker, quantity, price),
    {
        let gross = dec_mul(quantity, price);
        let fee = Self::calculate_fee(exchange, is_maker, quantity, price);
        dec_sub(gross, fee)
    }
}

} // verus!
