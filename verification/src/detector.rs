//! Scanning the order books of several venues for cross-venue arbitrage.
use vstd::prelude::*;
use crate::decimal::{
    Dec, dec_div, dec_min, decimal_quotient, quotient_ok, quotient_close, lemma_within_limit, unit,
};
use crate::fees::{FeeManager, fee_of, fee_ok};
use crate::levels::{vwap_of, vwap_ok, vwap_of_levels, slippage_from, slippage_from_ok, slippage_between};
use crate::opportunity::{
    ArbitrageConfig, ArbitrageOpportunity, opportunity_of, figures_ok, profitable,
};
use crate::orderbook::{OrderBook, OrderBookManager};
use crate::timing::Timestamp;
use crate::types::{Exchange, OrderBookSnapshot, PriceLevel, Symbol};

verus! {

/// Volume-weighted average price of filling `quantity` against `levels`.
pub fn calculate_vwap(levels: &[PriceLevel], quantity: Dec) -> (r: Option<Dec>)
    requires
        vwap_ok(levels@, quantity),
    ensures
        r == vwap_of(levels@, quantity),
{
    vwap_of_levels(levels, quantity)
}

/// The slippage of filling `qty` against a book's asks: distance of the
/// volume-weighted price from the best ask, relative to it; zero without
/// asks or without a fill.
pub open spec fn ask_slippage(asks: Seq<PriceLevel>, qty: Dec) -> Dec {
    if asks.len() == 0 {
        Dec::literal(0, 0)
    } else {
        match vwap_of(asks, qty) {
            Some(v) => slippage_from(asks[0].price, v),
            None => Dec::literal(0, 0),
        }
    }
}

pub open spec fn ask_slippage_ok(asks: Seq<PriceLevel>, qty: Dec) -> bool {
    asks.len() > 0 ==> {
        &&& vwap_ok(asks, qty)
        &&& (vwap_of(asks, qty) matches Some(v) ==> slippage_from_ok(asks[0].price, v))
    }
}

/// Estimate slippage based on order book depth
pub fn estimate_slippage(snapshot: &OrderBookSnapshot, quantity: Dec) -> (r: Dec)
    requires
        ask_slippage_ok(snapshot.asks@, quantity),
    ensures
        r == ask_slippage(snapshot.asks@, quantity),
{
    let best_price = match snapshot.best_ask() {
        Some(ask) => ask.price,
        None => return Dec::zero(),
    };
    let vwap = match calculate_vwap(snapshot.asks.as_slice(), quantity) {
        Some(vwap) => vwap,
        None => return Dec::zero(),
    };
    slippage_between(best_price, vwap)
}

/// The quantity an opportunity trades: the smaller of the two best levels,
/// capped at the maximum position size worth at the ask.
pub open spec fn pair_quantity(ask: PriceLevel, bid: PriceLevel, max_position_size: Dec) -> Dec {
    dec_min(
        dec_min(ask.quantity, bid.quantity),
        decimal_quotient(max_position_size, ask.price),
    )
}

/// The opportunity's position, valued at its buy price, stays within the
/// limit, give or take one unit of rounding per unit of price.
pub open spec fn position_capped(o: ArbitrageOpportunity, max_position_size: Dec) -> bool {
    o.buy_price.val() > 0 ==> o.quantity.val() * o.buy_price.val() <= max_position_size.val()
        * unit() + unit() * o.buy_price.val()
}

/// The quantity a pair trades is no more than either best level offers, and
/// at a positive ask its value is at most the position limit (give or take
/// one unit of rounding per unit of price), whenever the division of the
/// limit by the ask is as accurate as `rust_decimal`'s.
pub proof fn lemma_pair_quantity_capped(ask: PriceLevel, bid: PriceLevel, max_position_size: Dec)
    requires
        ask.price.val() > 0,
        quotient_close(decimal_quotient(max_position_size, ask.price), max_position_size, ask.price),
    ensures
        pair_quantity(ask, bid, max_position_size).val() <= ask.quantity.val(),
        pair_quantity(ask, bid, max_position_size).val() <= bid.quantity.val(),
        pair_quantity(ask, bid, max_position_size).val() * ask.price.val() <= max_position_size.val()
            * unit() + unit() * ask.price.val(),
{
    lemma_within_limit(
        pair_quantity(ask, bid, max_position_size),
        decimal_quotient(max_position_size, ask.price),
        max_position_size,
        ask.price,
    );
}

/// Every opportunity a pair check reports trades no more than either best
/// level offers, and its position at the buy price stays within the limit
/// (give or take one unit of rounding per unit of price), whenever the
/// division of the limit by the ask is as accurate as `rust_decimal`'s.
pub proof fn lemma_pair_opportunity_capped(
    buy_book: OrderBook,
    sell_book: OrderBook,
    buy_exchange: Exchange,
    sell_exchange: Exchange,
    symbol: Symbol,
    min_profit_bps: Dec,
    max_position_size: Dec,
    max_slippage_bps: Dec,
    now_ns: u64,
    o: ArbitrageOpportunity,
)
    requires
        pair_opportunity(
            buy_book,
            sell_book,
            buy_exchange,
            sell_exchange,
            symbol,
            min_profit_bps,
            max_position_size,
            max_slippage_bps,
            now_ns,
        ) == Some(o),
        buy_book.spec_asks().len() > 0 ==> quotient_close(
            decimal_quotient(max_position_size, buy_book.spec_asks()[0].price),
            max_position_size,
            buy_book.spec_asks()[0].price,
        ),
    ensures
        o.quantity.val() <= buy_book.spec_asks()[0].quantity.val(),
        o.quantity.val() <= sell_book.spec_bids()[0].quantity.val(),
        position_capped(o, max_position_size),
{
    let ask = buy_book.spec_asks()[0];
    let bid = sell_book.spec_bids()[0];
    if ask.price.val() > 0 {
        lemma_pair_quantity_capped(ask, bid, max_position_size);
    }
}

/// The largest acceptable slippage as a fraction.
pub open spec fn max_slippage_of(max_slippage_bps: Dec) -> Dec {
    decimal_quotient(max_slippage_bps, Dec::literal(10000, 0))
}

/// The opportunity of buying at the best ask of `buy_book` and selling at
/// the best bid of `sell_book`, if there is a price discrepancy, a positive
/// quantity, acceptable slippage on both books and enough profit.
pub open spec fn pair_opportunity(
    buy_book: OrderBook,
    sell_book: OrderBook,
    buy_exchange: Exchange,
    sell_exchange: Exchange,
    symbol: Symbol,
    min_profit_bps: Dec,
    max_position_size: Dec,
    max_slippage_bps: Dec,
    now_ns: u64,
) -> Option<ArbitrageOpportunity> {
    let asks = buy_book.spec_asks();
    let bids = sell_book.spec_bids();
    if asks.len() == 0 || bids.len() == 0 {
        None
    } else if bids[0].price.val() <= asks[0].price.val() {
        None
    } else {
        let ask = asks[0];
        let bid = bids[0];
        let q = pair_quantity(ask, bid, max_position_size);
        if q.val() <= 0 {
            None
        } else {
            let buy_fee = fee_of(buy_exchange, false, q, ask.price);
            let sell_fee = fee_of(sell_exchange, false, q, bid.price);
            let buy_slip = ask_slippage(buy_book.spec_asks(), q);
            let sell_slip = ask_slippage(sell_book.spec_asks(), q);
            let max_slip = max_slippage_of(max_slippage_bps);
            if buy_slip.val() > max_slip.val() || sell_slip.val() > max_slip.val() {
                None
            } else {
                let o = opportunity_of(
                    symbol,
                    buy_exchange,
                    sell_exchange,
                    ask.price,
                    bid.price,
                    q,
                    buy_fee,
                    sell_fee,
                    buy_slip,
                    sell_slip,
                    now_ns,
                );
                if profitable(o, min_profit_bps) {
                    Some(o)
                } else {
                    None
                }
            }
        }
    }
}

/// What the plain pair check reports: buying at the best ask of the buying
/// book and selling at the best bid of the selling book above it, the
/// quantity the smaller of the two best quantities and of the position
/// limit over the ask (positive), taker fees on both legs, acceptable
/// slippage, and a profit above the minimum.
pub proof fn lemma_pair_opportunity_figures(
    buy_book: OrderBook,
    sell_book: OrderBook,
    buy_exchange: Exchange,
    sell_exchange: Exchange,
    symbol: Symbol,
    min_profit_bps: Dec,
    max_position_size: Dec,
    max_slippage_bps: Dec,
    now_ns: u64,
    o: ArbitrageOpportunity,
)
    requires
        pair_opportunity(
            buy_book,
            sell_book,
            buy_exchange,
            sell_exchange,
            symbol,
            min_profit_bps,
            max_position_size,
            max_slippage_bps,
            now_ns,
        ) == Some(o),
    ensures
        ({
            let ask = buy_book.spec_asks()[0];
            let bid = sell_book.spec_bids()[0];
            &&& buy_book.spec_asks().len() > 0 && sell_book.spec_bids().len() > 0
            &&& bid.price.val() > ask.price.val()
            &&& o.buy_exchange == buy_exchange && o.sell_exchange == sell_exchange
            &&& o.symbol == symbol
            &&& o.buy_price == ask.price && o.sell_price == bid.price
            &&& o.quantity == pair_quantity(ask, bid, max_position_size)
            &&& o.quantity.val() > 0
            &&& o.buy_fee == fee_of(buy_exchange, false, o.quantity, ask.price)
            &&& o.sell_fee == fee_of(sell_exchange, false, o.quantity, bid.price)
            &&& o.buy_slippage.val() <= max_slippage_of(max_slippage_bps).val()
            &&& o.sell_slippage.val() <= max_slippage_of(max_slippage_bps).val()
            &&& o.net_profit.val() > 0
            &&& o.profit_bps.val() > min_profit_bps.val()
            &&& o.timestamp_ns == now_ns
        }),
{
}

/// No step of `pair_opportunity` overflows.
pub open spec fn pair_ok(
    buy_book: OrderBook,
    sell_book: OrderBook,
    buy_exchange: Exchange,
    sell_exchange: Exchange,
    max_position_size: Dec,
    max_slippage_bps: Dec,
) -> bool {
    let asks = buy_book.spec_asks();
    let bids = sell_book.spec_bids();
    asks.len() > 0 && bids.len() > 0 && bids[0].price.val() > asks[0].price.val() ==> {
        let ask = asks[0];
        let bid = bids[0];
        let q = pair_quantity(ask, bid, max_position_size);
        &&& quotient_ok(max_position_size, ask.price)
        &&& (q.val() > 0 ==> {
            let buy_fee = fee_of(buy_exchange, false, q, ask.price);
            let sell_fee = fee_of(sell_exchange, false, q, bid.price);
            let buy_slip = ask_slippage(buy_book.spec_asks(), q);
            let sell_slip = ask_slippage(sell_book.spec_asks(), q);
            let max_slip = max_slippage_of(max_slippage_bps);
            &&& fee_ok(buy_exchange, false, q, ask.price)
            &&& fee_ok(sell_exchange, false, q, bid.price)
            &&& ask_slippage_ok(buy_book.spec_asks(), q)
            &&& ask_slippage_ok(sell_book.spec_asks(), q)
            &&& quotient_ok(max_slippage_bps, Dec::literal(10000, 0))
            &&& (buy_slip.val() <= max_slip.val() && sell_slip.val() <= max_slip.val()
                ==> figures_ok(ask.price, bid.price, q, buy_fee, sell_fee, buy_slip, sell_slip))
        })
    }
}

/// The opportunity between two venues given the manager's books, when both
/// have a book for the symbol.
pub open spec fn venue_pair_opportunity(
    mgr: OrderBookManager,
    buy_exchange: Exchange,
    sell_exchange: Exchange,
    symbol: Symbol,
    cfg: ArbitrageConfig,
    now_ns: u64,
) -> Option<ArbitrageOpportunity> {
    match (mgr.book_for(buy_exchange, symbol), mgr.book_for(sell_exchange, symbol)) {
        (Some(b), Some(s)) => pair_opportunity(
            b,
            s,
            buy_exchange,
            sell_exchange,
            symbol,
            cfg.min_profit_bps,
            cfg.max_position_size,
            cfg.max_slippage_bps,
            now_ns,
        ),
        _ => None,
    }
}

pub open spec fn venue_pair_ok(
    mgr: OrderBookManager,
    buy_exchange: Exchange,
    sell_exchange: Exchange,
    symbol: Symbol,
    cfg: ArbitrageConfig,
) -> bool {
    match (mgr.book_for(buy_exchange, symbol), mgr.book_for(sell_exchange, symbol)) {
        (Some(b), Some(s)) => pair_ok(
            b,
            s,
            buy_exchange,
            sell_exchange,
            cfg.max_position_size,
            cfg.max_slippage_bps,
        ),
        _ => true,
    }
}

/// The opportunity as a sequence of at most one element.
pub open spec fn opt_seq(o: Option<ArbitrageOpportunity>) -> Seq<ArbitrageOpportunity> {
    match o {
        Some(x) => seq![x],
        None => Seq::empty(),
    }
}

/// The opportunities between venue `i` and the venues `i+1 .. j`, each pair
/// checked in both directions.
pub open spec fn scan_row(
    mgr: OrderBookManager,
    venues: Seq<Exchange>,
    symbol: Symbol,
    cfg: ArbitrageConfig,
    now_ns: u64,
    i: int,
    j: int,
) -> Seq<ArbitrageOpportunity>
    decreases j - i,
{
    if j <= i + 1 {
        Seq::empty()
    } else {
        scan_row(mgr, venues, symbol, cfg, now_ns, i, j - 1) + opt_seq(
            venue_pair_opportunity(mgr, venues[i], venues[j - 1], symbol, cfg, now_ns),
        ) + opt_seq(venue_pair_opportunity(mgr, venues[j - 1], venues[i], symbol, cfg, now_ns))
    }
}

/// The opportunities between every pair of the first venues up to `i`,
/// in the order a scan finds them.
pub open spec fn scan_rows(
    mgr: OrderBookManager,
    venues: Seq<Exchange>,
    symbol: Symbol,
    cfg: ArbitrageConfig,
    now_ns: u64,
    i: int,
) -> Seq<ArbitrageOpportunity>
    decreases i,
{
    if i <= 0 {
        Seq::empty()
    } else {
        scan_rows(mgr, venues, symbol, cfg, now_ns, i - 1) + scan_row(
            mgr,
            venues,
            symbol,
            cfg,
            now_ns,
            i - 1,
            venues.len() as int,
        )
    }
}

proof fn lemma_contains_left(s: Seq<ArbitrageOpportunity>, t: Seq<ArbitrageOpportunity>, o: ArbitrageOpportunity)
    requires
        s.contains(o),
    ensures
        (s + t).contains(o),
{
    let k = choose|k: int| 0 <= k < s.len() && s[k] == o;
    assert((s + t)[k] == o);
}

proof fn lemma_contains_right(s: Seq<ArbitrageOpportunity>, t: Seq<ArbitrageOpportunity>, o: ArbitrageOpportunity)
    requires
        t.contains(o),
    ensures
        (s + t).contains(o),
{
    let k = choose|k: int| 0 <= k < t.len() && t[k] == o;
    assert((s + t)[s.len() + k] == o);
}

/// Both directions between venues `i` and `j > i` are in the row of `i`
/// up to any `k > j`.
proof fn lemma_row_has_pair(
    mgr: OrderBookManager,
    venues: Seq<Exchange>,
    symbol: Symbol,
    cfg: ArbitrageConfig,
    now_ns: u64,
    i: int,
    j: int,
    k: int,
    o: ArbitrageOpportunity,
)
    requires
        0 <= i < j < k,
        venue_pair_opportunity(mgr, venues[i], venues[j], symbol, cfg, now_ns) == Some(o)
            || venue_pair_opportunity(mgr, venues[j], venues[i], symbol, cfg, now_ns) == Some(o),
    ensures
        scan_row(mgr, venues, symbol, cfg, now_ns, i, k).contains(o),
    decreases k,
{
    let prev = scan_row(mgr, venues, symbol, cfg, now_ns, i, k - 1);
    let first = opt_seq(venue_pair_opportunity(mgr, venues[i], venues[k - 1], symbol, cfg, now_ns));
    let second = opt_seq(venue_pair_opportunity(mgr, venues[k - 1], venues[i], symbol, cfg, now_ns));
    if k == j + 1 {
        if venue_pair_opportunity(mgr, venues[i], venues[j], symbol, cfg, now_ns) == Some(o) {
            assert(first[0] == o);
            lemma_contains_right(prev, first, o);
            lemma_contains_left(prev + first, second, o);
        } else {
            assert(second[0] == o);
            lemma_contains_right(prev + first, second, o);
        }
    } else {
        lemma_row_has_pair(mgr, venues, symbol, cfg, now_ns, i, j, k - 1, o);
        lemma_contains_left(prev, first, o);
        lemma_contains_left(prev + first, second, o);
    }
}

/// Every opportunity of the row of venue `i` up to the last venue is among
/// the rows up to any `m > i`.
proof fn lemma_rows_have_row(
    mgr: OrderBookManager,
    venues: Seq<Exchange>,
    symbol: Symbol,
    cfg: ArbitrageConfig,
    now_ns: u64,
    i: int,
    m: int,
    o: ArbitrageOpportunity,
)
    requires
        0 <= i < m,
        scan_row(mgr, venues, symbol, cfg, now_ns, i, venues.len() as int).contains(o),
    ensures
        scan_rows(mgr, venues, symbol, cfg, now_ns, m).contains(o),
    decreases m,
{
    let prev = scan_rows(mgr, venues, symbol, cfg, now_ns, m - 1);
    let row = scan_row(mgr, venues, symbol, cfg, now_ns, m - 1, venues.len() as int);
    if m - 1 == i {
        lemma_contains_right(prev, row, o);
    } else {
        lemma_rows_have_row(mgr, venues, symbol, cfg, now_ns, i, m - 1, o);
        lemma_contains_left(prev, row, o);
    }
}

/// A scan checks every ordered pair of distinct enabled venues: whatever
/// buying on one and selling on the other gives is among the opportunities
/// found, whichever of the two comes first in the list.
pub proof fn lemma_scan_both_directions(
    mgr: OrderBookManager,
    venues: Seq<Exchange>,
    symbol: Symbol,
    cfg: ArbitrageConfig,
    now_ns: u64,
    buy: int,
    sell: int,
    o: ArbitrageOpportunity,
)
    requires
        0 <= buy < venues.len(),
        0 <= sell < venues.len(),
        buy != sell,
        venue_pair_opportunity(mgr, venues[buy], venues[sell], symbol, cfg, now_ns) == Some(o),
    ensures
        scan_rows(mgr, venues, symbol, cfg, now_ns, venues.len() as int).contains(o),
{
    let (i, j) = if buy < sell {
        (buy, sell)
    } else {
        (sell, buy)
    };
    lemma_row_has_pair(mgr, venues, symbol, cfg, now_ns, i, j, venues.len() as int, o);
    lemma_rows_have_row(mgr, venues, symbol, cfg, now_ns, i, venues.len() as int, o);
}

/// Every pair of enabled venues can be checked without overflow.
pub open spec fn scan_ok(mgr: OrderBookManager, venues: Seq<Exchange>, symbol: Symbol, cfg: ArbitrageConfig) -> bool {
    forall|i: int, j: int|
        0 <= i < venues.len() && 0 <= j < venues.len() ==> venue_pair_ok(
            mgr,
            #[trigger] venues[i],
            #[trigger] venues[j],
            symbol,
            cfg,
        )
}

/// Arbitrage opportunity detector
pub struct ArbitrageDetector {
    config: ArbitrageConfig,
    orderbook_manager: OrderBookManager,
}

impl ArbitrageDetector {
    pub closed spec fn spec_config(&self) -> ArbitrageConfig {
        self.config
    }

    pub closed spec fn spec_manager(&self) -> OrderBookManager {
        self.orderbook_manager
    }

    pub fn new(config: ArbitrageConfig, orderbook_manager: OrderBookManager) -> (r: ArbitrageDetector)
        ensures
            r.spec_config() == config,
            r.spec_manager() == orderbook_manager,
    {
        ArbitrageDetector { config, orderbook_manager }
    }

    /// The order books the detector scans.
    pub fn orderbook_manager(&self) -> (r: &OrderBookManager)
        ensures
            *r == self.spec_manager(),
    {
        &self.orderbook_manager
    }

    /// The order books, for updating.
    pub fn orderbook_manager_mut(&mut self) -> (r: &mut OrderBookManager)
        ensures
            *r == old(self).spec_manager(),
            final(self).spec_manager() == *final(r),
            final(self).spec_config() == old(self).spec_config(),
    {
        &mut self.orderbook_manager
    }

    /// Scan for arbitrage opportunities across all exchange pairs, stamped
    /// with the current time.
    pub fn scan_opportunities(&self, symbol: &Symbol) -> (r: Vec<ArbitrageOpportunity>)
        requires
            scan_ok(
                self.spec_manager(),
                self.spec_config().enabled_exchanges@,
                *symbol,
                self.spec_config(),
            ),
        ensures
            exists|now_ns: u64|
                r@ == scan_rows(
                    self.spec_manager(),
                    self.spec_config().enabled_exchanges@,
                    *symbol,
                    self.spec_config(),
                    now_ns,
                    self.spec_config().enabled_exchanges@.len() as int,
                ),
    {
        let now = Timestamp::now();
        self.scan_opportunities_at(symbol, now.as_nanos())
    }

    /// Scan for arbitrage opportunities across all exchange pairs: every pair
    /// of enabled venues in order, each checked in both directions.
    pub fn scan_opportunities_at(&self, symbol: &Symbol, now_ns: u64) -> (r: Vec<ArbitrageOpportunity>)
        requires
            scan_ok(
                self.spec_manager(),
                self.spec_config().enabled_exchanges@,
                *symbol,
                self.spec_config(),
            ),
        ensures
            r@ == scan_rows(
                self.spec_manager(),
                self.spec_config().enabled_exchanges@,
                *symbol,
                self.spec_config(),
                now_ns,
                self.spec_config().enabled_exchanges@.len() as int,
            ),
            forall|k: int|
                0 <= k < r@.len() ==> position_capped(
                    #[trigger] r@[k],
                    self.spec_config().max_position_size,
                ),
            forall|buy: int, sell: int|
                0 <= buy < self.spec_config().enabled_exchanges@.len() && 0 <= sell
                    < self.spec_config().enabled_exchanges@.len() && buy != sell ==> (
                venue_pair_opportunity(
                    self.spec_manager(),
                    #[trigger] self.spec_config().enabled_exchanges@[buy],
                    #[trigger] self.spec_config().enabled_exchanges@[sell],
                    *symbol,
                    self.spec_config(),
                    now_ns,
                ) matches Some(o) ==> r@.contains(o)),
    {
        let venues = &self.config.enabled_exchanges;
        let n = venues.len();
        let ghost mgr = self.spec_manager();
        let ghost cfg = self.spec_config();
        let mut opportunities: Vec<ArbitrageOpportunity> = Vec::new();
        let mut i: usize = 0;
        while i < n
            invariant
                0 <= i <= n,
                n == venues@.len(),
                venues@ == cfg.enabled_exchanges@,
                mgr == self.spec_manager(),
                cfg == self.spec_config(),
                scan_ok(mgr, venues@, *symbol, cfg),
                opportunities@ == scan_rows(mgr, venues@, *symbol, cfg, now_ns, i as int),
                forall|k: int|
                    0 <= k < opportunities@.len() ==> position_capped(
                        #[trigger] opportunities@[k],
                        cfg.max_position_size,
                    ),
            decreases n - i,
        {
            let buy_exchange = venues[i];
            let mut j: usize = i + 1;
            let ghost before = opportunities@;
            while j < n
                invariant
                    i < n,
                    i + 1 <= j <= n,
                    n == venues@.len(),
                    venues@ == cfg.enabled_exchanges@,
                    mgr == self.spec_manager(),
                    cfg == self.spec_config(),
                    buy_exchange == venues@[i as int],
                    scan_ok(mgr, venues@, *symbol, cfg),
                    forall|k: int|
                        0 <= k < opportunities@.len() ==> position_capped(
                            #[trigger] opportunities@[k],
                            cfg.max_position_size,
                        ),
                    opportunities@ == before + scan_row(
                        mgr,
                        venues@,
                        *symbol,
                        cfg,
                        now_ns,
                        i as int,
                        j as int,
                    ),
                decreases n - j,
            {
                let sell_exchange = venues[j];
                proof {
                    assert(venue_pair_ok(mgr, venues@[i as int], venues@[j as int], *symbol, cfg));
                    assert(venue_pair_ok(mgr, venues@[j as int], venues@[i as int], *symbol, cfg));
                }
                let ghost mid = opportunities@;
                let first = self.check_pair(buy_exchange, sell_exchange, symbol, now_ns);
                if let Some(opp) = first {
                    opportunities.push(opp);
                }
                let ghost mid2 = opportunities@;
                let second = self.check_pair(sell_exchange, buy_exchange, symbol, now_ns);
                if let Some(opp) = second {
                    opportunities.push(opp);
                }
                proof {
                    assert(mid2 == mid + opt_seq(first));
                    assert(opportunities@ == mid2 + opt_seq(second));
                    assert(opportunities@ =~= before + scan_row(
                        mgr,
                        venues@,
                        *symbol,
                        cfg,
                        now_ns,
                        i as int,
                        j + 1,
                    ));
                }
                j = j + 1;
            }
            proof {
                assert(opportunities@ =~= scan_rows(mgr, venues@, *symbol, cfg, now_ns, i + 1));
            }
            i = i + 1;
        }
        proof {
            let vs = venues@;
            assert forall|buy: int, sell: int|
                0 <= buy < vs.len() && 0 <= sell < vs.len() && buy != sell implies (
            venue_pair_opportunity(
                mgr,
                #[trigger] vs[buy],
                #[trigger] vs[sell],
                *symbol,
                cfg,
                now_ns,
            ) matches Some(o) ==> opportunities@.contains(o)) by {
                if let Some(o) = venue_pair_opportunity(mgr, vs[buy], vs[sell], *symbol, cfg, now_ns) {
                    lemma_scan_both_directions(mgr, vs, *symbol, cfg, now_ns, buy, sell, o);
                }
            }
        }
        opportunities
    }

    /// Check arbitrage opportunity between two exchanges
    fn check_pair(
        &self,
        buy_exchange: Exchange,
        sell_exchange: Exchange,
        symbol: &Symbol,
        now_ns: u64,
    ) -> (r: Option<ArbitrageOpportunity>)
        requires
            venue_pair_ok(
                self.spec_manager(),
                buy_exchange,
                sell_exchange,
                *symbol,
                self.spec_config(),
            ),
        ensures
            r == venue_pair_opportunity(
                self.spec_manager(),
                buy_exchange,
                sell_exchange,
                *symbol,
                self.spec_config(),
                now_ns,
            ),
            r matches Some(o) ==> position_capped(o, self.spec_config().max_position_size),
    {
        let config = &self.config;
        let buy_snapshot = match self.orderbook_manager.get_snapshot(buy_exchange, symbol) {
            Some(s) => s,
            None => return None,
        };
        let sell_snapshot = match self.orderbook_manager.get_snapshot(sell_exchange, symbol) {
            Some(s) => s,
            None => return None,
        };
        let best_ask = match buy_snapshot.best_ask() {
            Some(a) => *a,
            None => return None,
        };
        let best_bid = match sell_snapshot.best_bid() {
            Some(b) => *b,
            None => return None,
        };
        if best_bid.price.le(&best_ask.price) {
            return None;
        }
        let max_quantity = best_ask.quantity.min(best_bid.quantity);
        let quantity = max_quantity.min(dec_div(config.max_position_size, best_ask.price));
        if !quantity.is_positive() {
            return None;
        }
        proof {
            if best_ask.price.val() > 0 {
                lemma_within_limit(
                    quantity,
                    decimal_quotient(config.max_position_size, best_ask.price),
                    config.max_position_size,
                    best_ask.price,
                );
            }
        }
        let buy_fee = FeeManager::calculate_fee(buy_exchange, false, quantity, best_ask.price);
        let sell_fee = FeeManager::calculate_fee(sell_exchange, false, quantity, best_bid.price);
        let buy_slippage = estimate_slippage(&buy_snapshot, quantity);
        let sell_slippage = estimate_slippage(&sell_snapshot, quantity);
        let max_slippage = dec_div(config.max_slippage_bps, Dec::from_u64(10000));
        if buy_slippage.gt(&max_slippage) || sell_slippage.gt(&max_slippage) {
            return None;
        }
        let opportunity = ArbitrageOpportunity::new_at(
            symbol.clone(),
            buy_exchange,
            sell_exchange,
            best_ask.price,
            best_bid.price,
            quantity,
            buy_fee,
            sell_fee,
            buy_slippage,
            sell_slippage,
            now_ns,
        );
        if !opportunity.is_profitable(config.min_profit_bps) {
            return None;
        }
        Some(opportunity)
    }

    pub fn update_config(&mut self, config: ArbitrageConfig)
        ensures
            final(self).spec_config() == config,
            final(self).spec_manager() == old(self).spec_manager(),
    {
        self.config = config;
    }

    pub fn get_config(&self) -> (r: ArbitrageConfig)
        ensures
            r.min_profit_bps == self.spec_config().min_profit_bps,
            r.max_position_size == self.spec_config().max_position_size,
            r.max_slippage_bps == self.spec_config().max_slippage_bps,
            r.min_liquidity == self.spec_config().min_liquidity,
            r.enabled_exchanges@ == self.spec_config().enabled_exchanges@,
    {
        self.config.clone()
    }
}

} // verus!
