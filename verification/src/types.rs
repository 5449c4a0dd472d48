//! Market data types: exchanges, instruments, price levels, order books,
//! fees and positions.
use vstd::prelude::*;
use vstd::string::StringExecFns;
use crate::decimal::{Dec, dec_add, dec_sub, dec_mul, dec_div, dec_to_string, decimal_text, decimal_sum, decimal_difference, decimal_product, decimal_quotient, sum_ok, difference_ok, product_ok, quotient_ok};
use crate::text::{int_text, i64_to_string};

verus! {

/// Supported exchanges
#[derive(Clone, Copy, Debug, PartialEq, Eq, Hash, Structural)]
pub enum Exchange {
    Binance,
    Bybit,
    OKX,
    Deribit,
    Kraken,
    Coinbase,
}

/// The name an exchange is shown by.
pub open spec fn exchange_text(e: Exchange) -> Seq<char> {
    match e {
        Exchange::Binance => "Binance"@,
        Exchange::Bybit => "Bybit"@,
        Exchange::OKX => "OKX"@,
        Exchange::Deribit => "Deribit"@,
        Exchange::Kraken => "Kraken"@,
        Exchange::Coinbase => "Coinbase"@,
    }
}

impl Exchange {
    /// The exchange's name ("Binance", "OKX", ...).
    pub fn to_string(&self) -> (r: String)
        ensures
            r@ == exchange_text(*self),
    {
        match self {
            Exchange::Binance => String::from_str("Binance"),
            Exchange::Bybit => String::from_str("Bybit"),
            Exchange::OKX => String::from_str("OKX"),
            Exchange::Deribit => String::from_str("Deribit"),
            Exchange::Kraken => String::from_str("Kraken"),
            Exchange::Coinbase => String::from_str("Coinbase"),
        }
    }
}

/// Instrument type
#[derive(Clone, Copy, Debug)]
pub enum InstrumentType {
    Spot,
    PerpetualFuture,
    Future { expiry: i64 },
    Option { expiry: i64, strike: Dec, is_call: bool },
}

/// Two instrument types are the same, strikes compared by value.
pub open spec fn same_instrument(a: InstrumentType, b: InstrumentType) -> bool {
    match (a, b) {
        (InstrumentType::Spot, InstrumentType::Spot) => true,
        (InstrumentType::PerpetualFuture, InstrumentType::PerpetualFuture) => true,
        (InstrumentType::Future { expiry: x }, InstrumentType::Future { expiry: y }) => x == y,
        (
            InstrumentType::Option { expiry: x, strike: s, is_call: c },
            InstrumentType::Option { expiry: y, strike: t, is_call: d },
        ) => x == y && s.val() == t.val() && c == d,
        _ => false,
    }
}

/// The text of an instrument type: "SPOT", "PERP", "FUT-<expiry>" or
/// "CALL-<strike>-<expiry>" / "PUT-<strike>-<expiry>".
pub open spec fn instrument_text(i: InstrumentType) -> Seq<char> {
    match i {
        InstrumentType::Spot => "SPOT"@,
        InstrumentType::PerpetualFuture => "PERP"@,
        InstrumentType::Future { expiry } => "FUT-"@ + int_text(expiry as int),
        InstrumentType::Option { expiry, strike, is_call } => (if is_call {
            "CALL"@
        } else {
            "PUT"@
        }) + "-"@ + decimal_text(strike) + "-"@ + int_text(expiry as int),
    }
}

impl InstrumentType {
    pub fn same(&self, other: &InstrumentType) -> (r: bool)
        ensures
            r == same_instrument(*self, *other),
    {
        match (self, other) {
            (InstrumentType::Spot, InstrumentType::Spot) => true,
            (InstrumentType::PerpetualFuture, InstrumentType::PerpetualFuture) => true,
            (InstrumentType::Future { expiry: x }, InstrumentType::Future { expiry: y }) => *x == *y,
            (
                InstrumentType::Option { expiry: x, strike: s, is_call: c },
                InstrumentType::Option { expiry: y, strike: t, is_call: d },
            ) => *x == *y && s.eq_val(t) && *c == *d,
            _ => false,
        }
    }

    pub fn to_string(&self) -> (r: String)
        ensures
            r@ == instrument_text(*self),
    {
        match self {
            InstrumentType::Spot => String::from_str("SPOT"),
            InstrumentType::PerpetualFuture => String::from_str("PERP"),
            InstrumentType::Future { expiry } => {
                let mut s = String::from_str("FUT-");
                let e = i64_to_string(*expiry);
                s.append(e.as_str());
                s
            },
            InstrumentType::Option { expiry, strike, is_call } => {
                let mut s = if *is_call {
                    String::from_str("CALL")
                } else {
                    String::from_str("PUT")
                };
                s.append("-");
                let k = dec_to_string(*strike);
                s.append(k.as_str());
                s.append("-");
                let e = i64_to_string(*expiry);
                s.append(e.as_str());
                s
            },
        }
    }
}

/// Trading pair
#[derive(Debug)]
pub struct Symbol {
    pub base: String,
    pub quote: String,
    pub instrument_type: InstrumentType,
}

impl Clone for Symbol {
    fn clone(&self) -> (r: Symbol)
        ensures
            r == *self,
    {
        Symbol {
            base: self.base.clone(),
            quote: self.quote.clone(),
            instrument_type: self.instrument_type,
        }
    }
}

/// Two symbols name the same instrument.
pub open spec fn same_symbol(a: Symbol, b: Symbol) -> bool {
    &&& a.base@ == b.base@
    &&& a.quote@ == b.quote@
    &&& same_instrument(a.instrument_type, b.instrument_type)
}

/// The text of a symbol: "<base>/<quote>-<instrument>".
pub open spec fn symbol_text(s: Symbol) -> Seq<char> {
    s.base@ + "/"@ + s.quote@ + "-"@ + instrument_text(s.instrument_type)
}

impl Symbol {
    pub fn new(base: &str, quote: &str, instrument_type: InstrumentType) -> (r: Symbol)
        ensures
            r.base@ == base@,
            r.quote@ == quote@,
            r.instrument_type == instrument_type,
    {
        Symbol { base: String::from_str(base), quote: String::from_str(quote), instrument_type }
    }

    pub fn perpetual(base: &str, quote: &str) -> (r: Symbol)
        ensures
            r.base@ == base@,
            r.quote@ == quote@,
            r.instrument_type == InstrumentType::PerpetualFuture,
    {
        Self::new(base, quote, InstrumentType::PerpetualFuture)
    }

    /// The same instrument (equality of symbols).
    pub fn same(&self, other: &Symbol) -> (r: bool)
        ensures
            r == same_symbol(*self, *other),
    {
        self.base == other.base && self.quote == other.quote && self.instrument_type.same(
            &other.instrument_type,
        )
    }

    pub fn to_string(&self) -> (r: String)
        ensures
            r@ == symbol_text(*self),
    {
        let mut s = self.base.clone();
        s.append("/");
        s.append(self.quote.as_str());
        s.append("-");
        let i = self.instrument_type.to_string();
        s.append(i.as_str());
        s
    }
}

/// Order side
#[derive(Clone, Copy, Debug, PartialEq, Eq, Structural)]
pub enum Side {
    Buy,
    Sell,
}

impl Side {
    /// "BUY" or "SELL".
    pub fn to_string(&self) -> (r: String)
        ensures
            r@ == (match *self {
                Side::Buy => "BUY"@,
                Side::Sell => "SELL"@,
            }),
    {
        match self {
            Side::Buy => String::from_str("BUY"),
            Side::Sell => String::from_str("SELL"),
        }
    }
}

/// Order type
#[derive(Clone, Copy, Debug, PartialEq, Eq, Structural)]
pub enum OrderType {
    Limit,
    Market,
    PostOnly,
    ImmediateOrCancel,
    FillOrKill,
}

/// Price level in order book
#[derive(Clone, Copy, Debug)]
pub struct PriceLevel {
    pub price: Dec,
    pub quantity: Dec,
}

impl PriceLevel {
    pub fn new(price: Dec, quantity: Dec) -> (r: PriceLevel)
        ensures
            r.price == price,
            r.quantity == quantity,
    {
        PriceLevel { price, quantity }
    }

    /// The level's notional value, price times quantity.
    pub fn value(&self) -> (r: Dec)
        requires
            product_ok(self.price, self.quantity),
        ensures
            r == decimal_product(self.price, self.quantity),
    {
        dec_mul(self.price, self.quantity)
    }
}

/// The first level of a side of the book, if any.
pub open spec fn best_level(levels: Seq<PriceLevel>) -> Option<PriceLevel> {
    if levels.len() > 0 {
        Some(levels[0])
    } else {
        None
    }
}

/// Best ask minus best bid can be computed.
pub open spec fn spread_ok(bids: Seq<PriceLevel>, asks: Seq<PriceLevel>) -> bool {
    bids.len() > 0 && asks.len() > 0 ==> difference_ok(asks[0].price, bids[0].price)
}

/// Best ask minus best bid, when both sides have a level.
pub open spec fn spread_of(bids: Seq<PriceLevel>, asks: Seq<PriceLevel>) -> Option<Dec> {
    if bids.len() > 0 && asks.len() > 0 {
        Some(decimal_difference(asks[0].price, bids[0].price))
    } else {
        None
    }
}

/// The average of best bid and best ask can be computed.
pub open spec fn mid_ok(bids: Seq<PriceLevel>, asks: Seq<PriceLevel>) -> bool {
    bids.len() > 0 && asks.len() > 0 ==> {
        &&& sum_ok(bids[0].price, asks[0].price)
        &&& quotient_ok(decimal_sum(bids[0].price, asks[0].price), Dec::literal(2, 0))
    }
}

/// (best bid + best ask) / 2, when both sides have a level.
pub open spec fn mid_of(bids: Seq<PriceLevel>, asks: Seq<PriceLevel>) -> Option<Dec> {
    if bids.len() > 0 && asks.len() > 0 {
        Some(decimal_quotient(decimal_sum(bids[0].price, asks[0].price), Dec::literal(2, 0)))
    } else {
        None
    }
}

/// The first level of a side, by reference.
pub fn first_level(levels: &Vec<PriceLevel>) -> (r: Option<&PriceLevel>)
    ensures
        r == (if levels@.len() > 0 {
            Some(&levels@[0])
        } else {
            None::<&PriceLevel>
        }),
{
    if levels.len() > 0 {
        Some(&levels[0])
    } else {
        None
    }
}

/// Best ask minus best bid.
pub fn spread_between(bids: &Vec<PriceLevel>, asks: &Vec<PriceLevel>) -> (r: Option<Dec>)
    requires
        spread_ok(bids@, asks@),
    ensures
        r == spread_of(bids@, asks@),
{
    if bids.len() > 0 && asks.len() > 0 {
        Some(dec_sub(asks[0].price, bids[0].price))
    } else {
        None
    }
}

/// (best bid + best ask) / 2.
pub fn mid_between(bids: &Vec<PriceLevel>, asks: &Vec<PriceLevel>) -> (r: Option<Dec>)
    requires
        mid_ok(bids@, asks@),
    ensures
        r == mid_of(bids@, asks@),
{
    if bids.len() > 0 && asks.len() > 0 {
        let s = dec_add(bids[0].price, asks[0].price);
        Some(dec_div(s, Dec::two()))
    } else {
        None
    }
}

/// Order book snapshot
#[derive(Debug)]
pub struct OrderBookSnapshot {
    pub exchange: Exchange,
    pub symbol: Symbol,
    pub bids: Vec<PriceLevel>,
    pub asks: Vec<PriceLevel>,
    pub timestamp_ns: u64,
    pub sequence: u64,
}

impl Clone for OrderBookSnapshot {
    fn clone(&self) -> (r: OrderBookSnapshot)
        ensures
            r.exchange == self.exchange,
            r.symbol == self.symbol,
            r.bids@ == self.bids@,
            r.asks@ == self.asks@,
            r.timestamp_ns == self.timestamp_ns,
            r.sequence == self.sequence,
    {
        let bids = clone_levels(&self.bids);
        let asks = clone_levels(&self.asks);
        OrderBookSnapshot {
            exchange: self.exchange,
            symbol: self.symbol.clone(),
            bids,
            asks,
            timestamp_ns: self.timestamp_ns,
            sequence: self.sequence,
        }
    }
}

/// A copy of a side of the book.
pub fn clone_levels(v: &Vec<PriceLevel>) -> (r: Vec<PriceLevel>)
    ensures
        r@ == v@,
{
    let mut r: Vec<PriceLevel> = Vec::new();
    let mut i: usize = 0;
    while i < v.len()
        invariant
            0 <= i <= v.len(),
            r@ == v@.subrange(0, i as int),
        decreases v.len() - i,
    {
        r.push(v[i]);
        i = i + 1;
        assert(r@ =~= v@.subrange(0, i as int));
    }
    assert(v@ =~= v@.subrange(0, v.len() as int));
    r
}

impl OrderBookSnapshot {
    pub fn best_bid(&self) -> (r: Option<&PriceLevel>)
        ensures
            r == (if self.bids@.len() > 0 {
                Some(&self.bids@[0])
            } else {
                None::<&PriceLevel>
            }),
    {
        first_level(&self.bids)
    }

    pub fn best_ask(&self) -> (r: Option<&PriceLevel>)
        ensures
            r == (if self.asks@.len() > 0 {
                Some(&self.asks@[0])
            } else {
                None::<&PriceLevel>
            }),
    {
        first_level(&self.asks)
    }

    pub fn spread(&self) -> (r: Option<Dec>)
        requires
            spread_ok(self.bids@, self.asks@),
        ensures
            r == spread_of(self.bids@, self.asks@),
    {
        spread_between(&self.bids, &self.asks)
    }

    pub fn mid_price(&self) -> (r: Option<Dec>)
        requires
            mid_ok(self.bids@, self.asks@),
        ensures
            r == mid_of(self.bids@, self.asks@),
    {
        mid_between(&self.bids, &self.asks)
    }
}

/// Fee structure for an exchange
#[derive(Clone, Debug)]
pub struct FeeStructure {
    pub exchange: Exchange,
    pub maker_fee: Dec,
    pub taker_fee: Dec,
    pub funding_rate: Option<Dec>,
}

impl FeeStructure {
    pub fn new(exchange: Exchange, maker_fee: Dec, taker_fee: Dec) -> (r: FeeStructure)
        ensures
            r == (FeeStructure { exchange, maker_fee, taker_fee, funding_rate: None }),
    {
        FeeStructure { exchange, maker_fee, taker_fee, funding_rate: None }
    }

    pub fn with_funding_rate(self, funding_rate: Dec) -> (r: FeeStructure)
        ensures
            r == (FeeStructure { funding_rate: Some(funding_rate), ..self }),
    {
        let mut s = self;
        s.funding_rate = Some(funding_rate);
        s
    }
}

/// Liquidity metrics for a price level
#[derive(Clone, Debug)]
pub struct LiquidityMetrics {
    pub total_bid_liquidity: Dec,
    pub total_ask_liquidity: Dec,
    pub depth_bid_5: Dec,
    pub depth_ask_5: Dec,
    pub depth_bid_10: Dec,
    pub depth_ask_10: Dec,
    /// (bid_liquidity - ask_liquidity) / (bid_liquidity + ask_liquidity)
    pub imbalance: Dec,
}

/// Trade execution result
#[derive(Clone, Debug)]
pub struct TradeExecution {
    pub exchange: Exchange,
    pub symbol: Symbol,
    pub side: Side,
    pub price: Dec,
    pub quantity: Dec,
    pub fee: Dec,
    pub timestamp_ns: u64,
    pub order_id: String,
}

/// Position information
#[derive(Debug)]
pub struct Position {
    pub exchange: Exchange,
    pub symbol: Symbol,
    /// Positive for long, negative for short
    pub quantity: Dec,
    pub entry_price: Dec,
    pub current_price: Dec,
    pub unrealized_pnl: Dec,
    pub realized_pnl: Dec,
    pub leverage: Dec,
}

/// Unrealized profit of a position marked at `price`: quantity times the
/// move from the entry price.
pub open spec fn mark_pnl(p: Position, price: Dec) -> Dec {
    decimal_product(p.quantity, decimal_difference(price, p.entry_price))
}

/// Marking a position at `price` does not overflow.
pub open spec fn mark_ok(p: Position, price: Dec) -> bool {
    &&& difference_ok(price, p.entry_price)
    &&& product_ok(p.quantity, decimal_difference(price, p.entry_price))
}

impl Clone for Position {
    fn clone(&self) -> (r: Position)
        ensures
            r == *self,
    {
        Position {
            exchange: self.exchange,
            symbol: self.symbol.clone(),
            quantity: self.quantity,
            entry_price: self.entry_price,
            current_price: self.current_price,
            unrealized_pnl: self.unrealized_pnl,
            realized_pnl: self.realized_pnl,
            leverage: self.leverage,
        }
    }
}

impl Position {
    pub fn is_long(&self) -> (r: bool)
        ensures
            r == (self.quantity.val() > 0),
    {
        self.quantity.is_positive()
    }

    pub fn is_short(&self) -> (r: bool)
        ensures
            r == (self.quantity.val() < 0),
    {
        self.quantity.is_negative()
    }

    /// Marks the position at `current_price`.
    pub fn update_pnl(&mut self, current_price: Dec)
        requires
            mark_ok(*old(self), current_price),
        ensures
            *final(self) == (Position {
                current_price,
                unrealized_pnl: mark_pnl(*old(self), current_price),
                ..*old(self)
            }),
    {
        self.current_price = current_price;
        let price_diff = dec_sub(current_price, self.entry_price);
        self.unrealized_pnl = dec_mul(self.quantity, price_diff);
    }
}

} // verus!
