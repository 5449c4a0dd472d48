//! Arbitrage opportunities: the profit of buying on one venue and selling on
//! another after slippage and fees.
use vstd::prelude::*;
use crate::decimal::{
    Dec, dec_add, dec_sub, dec_mul, dec_div, decimal_sum, decimal_difference, decimal_product,
    decimal_quotient, sum_ok, difference_ok, product_ok, quotient_ok,
};
use crate::timing::Timestamp;
use crate::types::{Exchange, Side, Symbol};

verus! {

/// Represents a detected arbitrage opportunity
#[derive(Debug)]
pub struct ArbitrageOpportunity {
    pub symbol: Symbol,
    pub buy_exchange: Exchange,
    pub sell_exchange: Exchange,
    pub buy_price: Dec,
    pub sell_price: Dec,
    pub quantity: Dec,
    pub gross_profit: Dec,
    pub net_profit: Dec,
    /// Basis points (1 bps = 0.01%)
    pub profit_bps: Dec,
    pub buy_fee: Dec,
    pub sell_fee: Dec,
    pub buy_slippage: Dec,
    pub sell_slippage: Dec,
    pub timestamp_ns: u64,
    pub latency_ns: u64,
}

impl Clone for ArbitrageOpportunity {
    fn clone(&self) -> (r: ArbitrageOpportunity)
        ensures
            r == *self,
    {
        ArbitrageOpportunity { symbol: self.symbol.clone(), ..*self }
    }
}

/// The cost of buying: price raised by the slippage, times the quantity.
pub open spec fn buy_cost_of(buy_price: Dec, quantity: Dec, buy_slippage: Dec) -> Dec {
    decimal_product(decimal_product(buy_price, decimal_sum(Dec::literal(1, 0), buy_slippage)), quantity)
}

/// The proceeds of selling: price lowered by the slippage, times the quantity.
pub open spec fn sell_proceeds_of(sell_price: Dec, quantity: Dec, sell_slippage: Dec) -> Dec {
    decimal_product(
        decimal_product(sell_price, decimal_difference(Dec::literal(1, 0), sell_slippage)),
        quantity,
    )
}

/// Proceeds less cost.
pub open spec fn gross_profit_of(
    buy_price: Dec,
    sell_price: Dec,
    quantity: Dec,
    buy_slippage: Dec,
    sell_slippage: Dec,
) -> Dec {
    decimal_difference(
        sell_proceeds_of(sell_price, quantity, sell_slippage),
        buy_cost_of(buy_price, quantity, buy_slippage),
    )
}

/// Gross profit less both fees.
pub open spec fn net_profit_of(
    buy_price: Dec,
    sell_price: Dec,
    quantity: Dec,
    buy_fee: Dec,
    sell_fee: Dec,
    buy_slippage: Dec,
    sell_slippage: Dec,
) -> Dec {
    decimal_difference(
        gross_profit_of(buy_price, sell_price, quantity, buy_slippage, sell_slippage),
        decimal_sum(buy_fee, sell_fee),
    )
}

/// Net profit in basis points of the buy cost; zero without a positive cost.
pub open spec fn profit_bps_of(
    buy_price: Dec,
    sell_price: Dec,
    quantity: Dec,
    buy_fee: Dec,
    sell_fee: Dec,
    buy_slippage: Dec,
    sell_slippage: Dec,
) -> Dec {
    let cost = buy_cost_of(buy_price, quantity, buy_slippage);
    if cost.val() > 0 {
        decimal_product(
            decimal_quotient(
                net_profit_of(
                    buy_price,
                    sell_price,
                    quantity,
                    buy_fee,
                    sell_fee,
                    buy_slippage,
                    sell_slippage,
                ),
                cost,
            ),
            Dec::literal(10000, 0),
        )
    } else {
        Dec::literal(0, 0)
    }
}

/// No step of the profit computation overflows.
pub open spec fn figures_ok(
    buy_price: Dec,
    sell_price: Dec,
    quantity: Dec,
    buy_fee: Dec,
    sell_fee: Dec,
    buy_slippage: Dec,
    sell_slippage: Dec,
) -> bool {
    let up = decimal_sum(Dec::literal(1, 0), buy_slippage);
    let down = decimal_difference(Dec::literal(1, 0), sell_slippage);
    let adj_buy = decimal_product(buy_price, up);
    let adj_sell = decimal_product(sell_price, down);
    let cost = buy_cost_of(buy_price, quantity, buy_slippage);
    let proceeds = sell_proceeds_of(sell_price, quantity, sell_slippage);
    let gross = gross_profit_of(buy_price, sell_price, quantity, buy_slippage, sell_slippage);
    let net = net_profit_of(
        buy_price,
        sell_price,
        quantity,
        buy_fee,
        sell_fee,
        buy_slippage,
        sell_slippage,
    );
    &&& sum_ok(Dec::literal(1, 0), buy_slippage)
    &&& difference_ok(Dec::literal(1, 0), sell_slippage)
    &&& product_ok(buy_price, up)
    &&& product_ok(sell_price, down)
    &&& product_ok(adj_buy, quantity)
    &&& product_ok(adj_sell, quantity)
    &&& sum_ok(buy_fee, sell_fee)
    &&& difference_ok(proceeds, cost)
    &&& difference_ok(gross, decimal_sum(buy_fee, sell_fee))
    &&& (cost.val() > 0 ==> quotient_ok(net, cost) && product_ok(
        decimal_quotient(net, cost),
        Dec::literal(10000, 0),
    ))
}

/// The opportunity with these inputs and the figures computed from them.
pub open spec fn opportunity_of(
    symbol: Symbol,
    buy_exchange: Exchange,
    sell_exchange: Exchange,
    buy_price: Dec,
    sell_price: Dec,
    quantity: Dec,
    buy_fee: Dec,
    sell_fee: Dec,
    buy_slippage: Dec,
    sell_slippage: Dec,
    timestamp_ns: u64,
) -> ArbitrageOpportunity {
    ArbitrageOpportunity {
        symbol,
        buy_exchange,
        sell_exchange,
        buy_price,
        sell_price,
        quantity,
        gross_profit: gross_profit_of(buy_price, sell_price, quantity, buy_slippage, sell_slippage),
        net_profit: net_profit_of(
            buy_price,
            sell_price,
            quantity,
            buy_fee,
            sell_fee,
            buy_slippage,
            sell_slippage,
        ),
        profit_bps: profit_bps_of(
            buy_price,
            sell_price,
            quantity,
            buy_fee,
            sell_fee,
            buy_slippage,
            sell_slippage,
        ),
        buy_fee,
        sell_fee,
        buy_slippage,
        sell_slippage,
        timestamp_ns,
        latency_ns: 0,
    }
}

/// The opportunity is profitable: positive net profit and more than the
/// minimum profit in basis points.
pub open spec fn profitable(o: ArbitrageOpportunity, min_profit_bps: Dec) -> bool {
    o.net_profit.val() > 0 && o.profit_bps.val() > min_profit_bps.val()
}

impl ArbitrageOpportunity {
    /// An opportunity detected at `timestamp_ns`.
    pub fn new_at(
        symbol: Symbol,
        buy_exchange: Exchange,
        sell_exchange: Exchange,
        buy_price: Dec,
        sell_price: Dec,
        quantity: Dec,
        buy_fee: Dec,
        sell_fee: Dec,
        buy_slippage: Dec,
        sell_slippage: Dec,
        timestamp_ns: u64,
    ) -> (r: ArbitrageOpportunity)
        requires
            figures_ok(
                buy_price,
                sell_price,
                quantity,
                buy_fee,
                sell_fee,
                buy_slippage,
                sell_slippage,
            ),
        ensures
            r == opportunity_of(
                symbol,
                buy_exchange,
                sell_exchange,
                buy_price,
                sell_price,
                quantity,
                buy_fee,
                sell_fee,
                buy_slippage,
                sell_slippage,
                timestamp_ns,
            ),
    {
        let adjusted_buy_price = dec_mul(buy_price, dec_add(Dec::one(), buy_slippage));
        let adjusted_sell_price = dec_mul(sell_price, dec_sub(Dec::one(), sell_slippage));
        let buy_cost = dec_mul(adjusted_buy_price, quantity);
        let sell_proceeds = dec_mul(adjusted_sell_price, quantity);
        let total_fees = dec_add(buy_fee, sell_fee);
        let gross_profit = dec_sub(sell_proceeds, buy_cost);
        let net_profit = dec_sub(gross_profit, total_fees);
        let profit_bps = if buy_cost.is_positive() {
            dec_mul(dec_div(net_profit, buy_cost), Dec::from_u64(10000))
        } else {
            Dec::zero()
        };
        ArbitrageOpportunity {
            symbol,
            buy_exchange,
            sell_exchange,
            buy_price,
            sell_price,
            quantity,
            gross_profit,
            net_profit,
            profit_bps,
            buy_fee,
            sell_fee,
            buy_slippage,
            sell_slippage,
            timestamp_ns,
            latency_ns: 0,
        }
    }

    /// An opportunity detected now.
    pub fn new(
        symbol: Symbol,
        buy_exchange: Exchange,
        sell_exchange: Exchange,
        buy_price: Dec,
        sell_price: Dec,
        quantity: Dec,
        buy_fee: Dec,
        sell_fee: Dec,
        buy_slippage: Dec,
        sell_slippage: Dec,
    ) -> (r: ArbitrageOpportunity)
        requires
            figures_ok(
                buy_price,
                sell_price,
                quantity,
                buy_fee,
                sell_fee,
                buy_slippage,
                sell_slippage,
            ),
        ensures
            r == opportunity_of(
                symbol,
                buy_exchange,
                sell_exchange,
                buy_price,
                sell_price,
                quantity,
                buy_fee,
                sell_fee,
                buy_slippage,
                sell_slippage,
                r.timestamp_ns,
            ),
    {
        let now = Timestamp::now();
        Self::new_at(
            symbol,
            buy_exchange,
            sell_exchange,
            buy_price,
            sell_price,
            quantity,
            buy_fee,
            sell_fee,
            buy_slippage,
            sell_slippage,
            now.as_nanos(),
        )
    }

    pub fn with_latency(self, latency_ns: u64) -> (r: ArbitrageOpportunity)
        ensures
            r == (ArbitrageOpportunity { latency_ns, ..self }),
    {
        let mut s = self;
        s.latency_ns = latency_ns;
        s
    }

    pub fn is_profitable(&self, min_profit_bps: Dec) -> (r: bool)
        ensures
            r == profitable(*self, min_profit_bps),
    {
        self.net_profit.is_positive() && self.profit_bps.gt(&min_profit_bps)
    }

    /// The profit in percent: basis points over 100.
    pub fn profit_percentage(&self) -> (r: Dec)
        requires
            quotient_ok(self.profit_bps, Dec::literal(100, 0)),
        ensures
            r == decimal_quotient(self.profit_bps, Dec::literal(100, 0)),
    {
        dec_div(self.profit_bps, Dec::from_u64(100))
    }

    /// Buy the quantity at the buy price on the buy venue, sell it at the sell
    /// price on the sell venue, expecting the net profit.
    pub fn execution_plan(&self) -> (r: ExecutionPlan)
        ensures
            r.buy_leg == (TradeLeg {
                exchange: self.buy_exchange,
                symbol: self.symbol,
                side: Side::Buy,
                price: self.buy_price,
                quantity: self.quantity,
            }),
            r.sell_leg == (TradeLeg {
                exchange: self.sell_exchange,
                symbol: self.symbol,
                side: Side::Sell,
                price: self.sell_price,
                quantity: self.quantity,
            }),
            r.expected_profit == self.net_profit,
    {
        ExecutionPlan {
            buy_leg: TradeLeg {
                exchange: self.buy_exchange,
                symbol: self.symbol.clone(),
                side: Side::Buy,
                price: self.buy_price,
                quantity: self.quantity,
            },
            sell_leg: TradeLeg {
                exchange: self.sell_exchange,
                symbol: self.symbol.clone(),
                side: Side::Sell,
                price: self.sell_price,
                quantity: self.quantity,
            },
            expected_profit: self.net_profit,
        }
    }
}

#[derive(Debug)]
pub struct TradeLeg {
    pub exchange: Exchange,
    pub symbol: Symbol,
    pub side: Side,
    pub price: Dec,
    pub quantity: Dec,
}

impl Clone for TradeLeg {
    fn clone(&self) -> (r: TradeLeg)
        ensures
            r == *self,
    {
        TradeLeg { symbol: self.symbol.clone(), ..*self }
    }
}

#[derive(Debug)]
pub struct ExecutionPlan {
    pub buy_leg: TradeLeg,
    pub sell_leg: TradeLeg,
    pub expected_profit: Dec,
}

impl Clone for ExecutionPlan {
    fn clone(&self) -> (r: ExecutionPlan)
        ensures
            r == *self,
    {
        ExecutionPlan {
            buy_leg: self.buy_leg.clone(),
            sell_leg: self.sell_leg.clone(),
            expected_profit: self.expected_profit,
        }
    }
}

/// Configuration for arbitrage detection
#[derive(Debug)]
pub struct ArbitrageConfig {
    pub min_profit_bps: Dec,
    pub max_position_size: Dec,
    pub max_slippage_bps: Dec,
    pub min_liquidity: Dec,
    pub enabled_exchanges: Vec<Exchange>,
}

impl Clone for ArbitrageConfig {
    fn clone(&self) -> (r: ArbitrageConfig)
        ensures
            r.min_profit_bps == self.min_profit_bps,
            r.max_position_size == self.max_position_size,
            r.max_slippage_bps == self.max_slippage_bps,
            r.min_liquidity == self.min_liquidity,
            r.enabled_exchanges@ == self.enabled_exchanges@,
    {
        let mut ex: Vec<Exchange> = Vec::new();
        let mut i: usize = 0;
        while i < self.enabled_exchanges.len()
            invariant
                0 <= i <= self.enabled_exchanges@.len(),
                ex@ == self.enabled_exchanges@.subrange(0, i as int),
            decreases self.enabled_exchanges@.len() - i,
        {
            ex.push(self.enabled_exchanges[i]);
            i = i + 1;
            assert(ex@ =~= self.enabled_exchanges@.subrange(0, i as int));
        }
        assert(ex@ =~= self.enabled_exchanges@);
        ArbitrageConfig {
            min_profit_bps: self.min_profit_bps,
            max_position_size: self.max_position_size,
            max_slippage_bps: self.max_slippage_bps,
            min_liquidity: self.min_liquidity,
            enabled_exchanges: ex,
        }
    }
}

impl Default for ArbitrageConfig {
    /// 5 bps minimum profit, $10k positions, 10 bps slippage, $50k liquidity,
    /// on Binance, Bybit and OKX.
    fn default() -> (r: ArbitrageConfig)
        ensures
            r.min_profit_bps == Dec::literal(5, 0),
            r.max_position_size == Dec::literal(10000, 0),
            r.max_slippage_bps == Dec::literal(10, 0),
            r.min_liquidity == Dec::literal(50000, 0),
            r.enabled_exchanges@ == seq![Exchange::Binance, Exchange::Bybit, Exchange::OKX],
    {
        let mut ex: Vec<Exchange> = Vec::new();
        ex.push(Exchange::Binance);
        ex.push(Exchange::Bybit);
        ex.push(Exchange::OKX);
        ArbitrageConfig {
            min_profit_bps: Dec::from_u64(5),
            max_position_size: Dec::from_u64(10000),
            max_slippage_bps: Dec::from_u64(10),
            min_liquidity: Dec::from_u64(50000),
            enabled_exchanges: ex,
        }
    }
}

} // verus!
