//! The figures the dashboard shows for each order book: its top levels as
//! text, best prices, spread and mid price, and the quote of each venue.
use vstd::prelude::*;
use crate::decimal::{
    Dec, dec_add, dec_sub, dec_mul, dec_div, dec_to_string, decimal_sum, decimal_difference,
    decimal_product, decimal_quotient, decimal_text, sum_ok, difference_ok, product_ok, quotient_ok,
};
use crate::levels::{notional_sum, notional_sum_ok, notional_up_to, min_nat};
use crate::timing::saturating_diff;
use crate::types::{
    Exchange, OrderBookSnapshot, PriceLevel, Symbol, exchange_text, symbol_text, spread_of, spread_ok,
    mid_of, mid_ok,
};

verus! {

/// One level of the depth view, as text: price, quantity and their product.
#[derive(Debug)]
pub struct DepthRow {
    pub price: String,
    pub quantity: String,
    pub total: String,
}

/// The text of a level's row.
pub open spec fn row_of(level: PriceLevel) -> (Seq<char>, Seq<char>, Seq<char>) {
    (
        decimal_text(level.price),
        decimal_text(level.quantity),
        decimal_text(decimal_product(level.price, level.quantity)),
    )
}

/// The products of the first `n` levels can be computed.
pub open spec fn rows_ok(levels: Seq<PriceLevel>, n: nat) -> bool {
    forall|i: int| 0 <= i < n && i < levels.len() ==> product_ok(
        #[trigger] levels[i].price,
        levels[i].quantity,
    )
}

/// The rows of the first `depth` levels (all of them when fewer).
pub fn depth_rows(levels: &Vec<PriceLevel>, depth: usize) -> (r: Vec<DepthRow>)
    requires
        rows_ok(levels@, depth as nat),
    ensures
        r@.len() == min_nat(depth as nat, levels@.len()),
        forall|i: int|
            0 <= i < r@.len() ==> (#[trigger] r@[i].price@, r@[i].quantity@, r@[i].total@) == row_of(
                levels@[i],
            ),
{
    let n = if depth < levels.len() {
        depth
    } else {
        levels.len()
    };
    let mut rows: Vec<DepthRow> = Vec::new();
    let mut i: usize = 0;
    while i < n
        invariant
            0 <= i <= n,
            n == min_nat(depth as nat, levels@.len()),
            n <= levels@.len(),
            rows_ok(levels@, depth as nat),
            rows@.len() == i,
            forall|k: int|
                0 <= k < i ==> (#[trigger] rows@[k].price@, rows@[k].quantity@, rows@[k].total@)
                    == row_of(levels@[k]),
        decreases n - i,
    {
        let level = levels[i];
        assert(product_ok(levels@[i as int].price, levels@[i as int].quantity));
        let total = dec_mul(level.price, level.quantity);
        rows.push(
            DepthRow {
                price: dec_to_string(level.price),
                quantity: dec_to_string(level.quantity),
                total: dec_to_string(total),
            },
        );
        i = i + 1;
    }
    rows
}

/// What the dashboard shows of one order book.
#[derive(Debug)]
pub struct OrderBookInfo {
    pub exchange: String,
    pub symbol: String,
    pub best_bid: Option<String>,
    pub best_ask: Option<String>,
    pub spread: Option<String>,
    pub mid_price: Option<String>,
    pub bid_depth: Vec<DepthRow>,
    pub ask_depth: Vec<DepthRow>,
    pub timestamp_ns: u64,
    pub latency_us: u64,
}

/// The text of an optional decimal.
pub open spec fn opt_text(d: Option<Dec>) -> Option<Seq<char>> {
    match d {
        Some(x) => Some(decimal_text(x)),
        None => None,
    }
}

/// The text of the first level's price, if any.
pub open spec fn best_text(levels: Seq<PriceLevel>) -> Option<Seq<char>> {
    if levels.len() > 0 {
        Some(decimal_text(levels[0].price))
    } else {
        None
    }
}

fn opt_string(d: Option<Dec>) -> (r: Option<String>)
    ensures
        match r {
            Some(s) => opt_text(d) == Some(s@),
            None => d is None,
        },
{
    match d {
        Some(x) => Some(dec_to_string(x)),
        None => None,
    }
}

fn best_string(levels: &Vec<PriceLevel>) -> (r: Option<String>)
    ensures
        match r {
            Some(s) => best_text(levels@) == Some(s@),
            None => levels@.len() == 0,
        },
{
    if levels.len() > 0 {
        Some(dec_to_string(levels[0].price))
    } else {
        None
    }
}

/// The book's figures can be computed.
pub open spec fn info_ok(snapshot: OrderBookSnapshot, now_ns: u64) -> bool {
    &&& now_ns >= snapshot.timestamp_ns
    &&& spread_ok(snapshot.bids@, snapshot.asks@)
    &&& mid_ok(snapshot.bids@, snapshot.asks@)
    &&& rows_ok(snapshot.bids@, 10)
    &&& rows_ok(snapshot.asks@, 10)
}

/// The dashboard's view of a book at `now_ns`: its venue and symbol, best
/// prices, spread and mid price as text, its top ten levels on each side,
/// its time and its age in microseconds.
pub fn book_info(exchange: Exchange, symbol: &Symbol, snapshot: &OrderBookSnapshot, now_ns: u64) -> (r:
    OrderBookInfo)
    requires
        info_ok(*snapshot, now_ns),
    ensures
        r.exchange@ == exchange_text(exchange),
        r.symbol@ == symbol_text(*symbol),
        match r.best_bid {
            Some(s) => best_text(snapshot.bids@) == Some(s@),
            None => snapshot.bids@.len() == 0,
        },
        match r.best_ask {
            Some(s) => best_text(snapshot.asks@) == Some(s@),
            None => snapshot.asks@.len() == 0,
        },
        match r.spread {
            Some(s) => opt_text(spread_of(snapshot.bids@, snapshot.asks@)) == Some(s@),
            None => spread_of(snapshot.bids@, snapshot.asks@) is None,
        },
        match r.mid_price {
            Some(s) => opt_text(mid_of(snapshot.bids@, snapshot.asks@)) == Some(s@),
            None => mid_of(snapshot.bids@, snapshot.asks@) is None,
        },
        r.bid_depth@.len() == min_nat(10, snapshot.bids@.len()),
        forall|i: int|
            0 <= i < r.bid_depth@.len() ==> (
                #[trigger] r.bid_depth@[i].price@,
                r.bid_depth@[i].quantity@,
                r.bid_depth@[i].total@,
            ) == row_of(snapshot.bids@[i]),
        r.ask_depth@.len() == min_nat(10, snapshot.asks@.len()),
        forall|i: int|
            0 <= i < r.ask_depth@.len() ==> (
                #[trigger] r.ask_depth@[i].price@,
                r.ask_depth@[i].quantity@,
                r.ask_depth@[i].total@,
            ) == row_of(snapshot.asks@[i]),
        r.timestamp_ns == snapshot.timestamp_ns,
        r.latency_us == (now_ns - snapshot.timestamp_ns) / 1000,
{
    let latency_us = (now_ns - snapshot.timestamp_ns) / 1000;
    OrderBookInfo {
        exchange: exchange.to_string(),
        symbol: symbol.to_string(),
        best_bid: best_string(&snapshot.bids),
        best_ask: best_string(&snapshot.asks),
        spread: opt_string(snapshot.spread()),
        mid_price: opt_string(snapshot.mid_price()),
        bid_depth: depth_rows(&snapshot.bids, 10),
        ask_depth: depth_rows(&snapshot.asks, 10),
        timestamp_ns: snapshot.timestamp_ns,
        latency_us,
    }
}

/// A venue's quote: best bid and ask, the value of its top five levels on
/// both sides, and its spread in basis points of the bid.
#[derive(Clone, Copy, Debug)]
pub struct VenueQuote {
    pub bid: Dec,
    pub ask: Dec,
    pub liquidity: Dec,
    pub spread_bps: Dec,
}

/// The quote of a book with both sides.
pub open spec fn quote_of(bids: Seq<PriceLevel>, asks: Seq<PriceLevel>) -> Option<VenueQuote> {
    if bids.len() > 0 && asks.len() > 0 {
        let bid = bids[0].price;
        let ask = asks[0].price;
        Some(
            VenueQuote {
                bid,
                ask,
                liquidity: decimal_sum(
                    notional_sum(bids, min_nat(5, bids.len())),
                    notional_sum(asks, min_nat(5, asks.len())),
                ),
                spread_bps: decimal_product(
                    decimal_quotient(decimal_difference(ask, bid), bid),
                    Dec::literal(10000, 0),
                ),
            },
        )
    } else {
        None
    }
}

pub open spec fn quote_ok(bids: Seq<PriceLevel>, asks: Seq<PriceLevel>) -> bool {
    bids.len() > 0 && asks.len() > 0 ==> {
        let bid = bids[0].price;
        let ask = asks[0].price;
        &&& notional_sum_ok(bids, min_nat(5, bids.len()))
        &&& notional_sum_ok(asks, min_nat(5, asks.len()))
        &&& sum_ok(
            notional_sum(bids, min_nat(5, bids.len())),
            notional_sum(asks, min_nat(5, asks.len())),
        )
        &&& difference_ok(ask, bid)
        &&& quotient_ok(decimal_difference(ask, bid), bid)
        &&& product_ok(decimal_quotient(decimal_difference(ask, bid), bid), Dec::literal(10000, 0))
    }
}

/// The quote of a book; none unless both sides have a level.
pub fn venue_quote(snapshot: &OrderBookSnapshot) -> (r: Option<VenueQuote>)
    requires
        quote_ok(snapshot.bids@, snapshot.asks@),
    ensures
        r == quote_of(snapshot.bids@, snapshot.asks@),
{
    if snapshot.bids.len() == 0 || snapshot.asks.len() == 0 {
        return None;
    }
    let bid = snapshot.bids[0].price;
    let ask = snapshot.asks[0].price;
    let bid_liquidity = notional_up_to(&snapshot.bids, 5);
    let ask_liquidity = notional_up_to(&snapshot.asks, 5);
    let liquidity = dec_add(bid_liquidity, ask_liquidity);
    let spread = dec_sub(ask, bid);
    let spread_bps = dec_mul(dec_div(spread, bid), Dec::from_u64(10000));
    Some(VenueQuote { bid, ask, liquidity, spread_bps })
}

} // verus!
