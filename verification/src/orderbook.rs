//! Order books per exchange and symbol.
use vstd::prelude::*;
use crate::decimal::{
    unit, abs,
    Dec, dec_add, dec_sub, dec_div, decimal_sum, decimal_difference, decimal_quotient, sum_ok,
    difference_ok, quotient_ok,
};
use crate::levels::{
    fill, fill_exact, levels_bounded, lemma_vwap_bounded, keeps_before,
    sort_levels, sort_levels_in_place, levels_sorted, lemma_sort_levels, notional_sum,
    notional_sum_ok, notional_up_to, min_nat, vwap_of, vwap_ok, vwap_of_levels, slippage_from,
    slippage_from_ok, slippage_between,
};
use crate::types::{
    Exchange, Symbol, PriceLevel, OrderBookSnapshot, LiquidityMetrics, Side, same_symbol,
    spread_ok, spread_of, mid_ok, mid_of, spread_between, mid_between, first_level, clone_levels,
};

verus! {

/// Single order book for one exchange-symbol pair
pub struct OrderBook {
    exchange: Exchange,
    symbol: Symbol,
    bids: Vec<PriceLevel>,
    asks: Vec<PriceLevel>,
    timestamp_ns: u64,
    sequence: u64,
}

/// The side a trade on `side` consumes: a buy takes the asks, a sell the bids.
pub open spec fn side_levels(bids: Seq<PriceLevel>, asks: Seq<PriceLevel>, side: Side) -> Seq<
    PriceLevel,
> {
    match side {
        Side::Buy => asks,
        Side::Sell => bids,
    }
}

/// A trade draws only on the side it consumes: a sell's volume-weighted
/// price and slippage depend on the bids alone, whatever the asks, and a
/// buy's on the asks alone, whatever the bids. A sell's are those of
/// filling against the bids, a buy's those of filling against the asks.
pub proof fn lemma_trade_uses_its_side(
    bids: Seq<PriceLevel>,
    asks: Seq<PriceLevel>,
    other_bids: Seq<PriceLevel>,
    other_asks: Seq<PriceLevel>,
    qty: Dec,
)
    ensures
        vwap_of(side_levels(bids, asks, Side::Sell), qty) == vwap_of(
            side_levels(bids, other_asks, Side::Sell),
            qty,
        ),
        vwap_of(side_levels(bids, asks, Side::Buy), qty) == vwap_of(
            side_levels(other_bids, asks, Side::Buy),
            qty,
        ),
        slippage_of(bids, asks, Side::Sell, qty) == slippage_of(bids, other_asks, Side::Sell, qty),
        slippage_of(bids, asks, Side::Buy, qty) == slippage_of(other_bids, asks, Side::Buy, qty),
        slippage_of(bids, asks, Side::Sell, qty) == levels_slippage(bids, qty),
        slippage_of(bids, asks, Side::Buy, qty) == levels_slippage(asks, qty),
        vwap_of(side_levels(bids, asks, Side::Sell), qty) == vwap_of(bids, qty),
        vwap_of(side_levels(bids, asks, Side::Buy), qty) == vwap_of(asks, qty),
{
}

/// On a sorted book a sell fills at or below the best bid and a buy at or
/// above the best ask: exactly when the fills' products and sums are exact,
/// and give or take `slack` when each final division is within `slack` of
/// the exact quotient. So where the best bid is below the best ask, selling
/// never averages more than buying (up to twice the slack).
pub proof fn lemma_vwap_sides(book: OrderBook, qty: Dec, slack: int, sell: Dec, buy: Dec)
    requires
        book.is_sorted(),
        book.spec_bids().len() > 0,
        book.spec_asks().len() > 0,
        forall|i: int|
            0 <= i < book.spec_bids().len() ==> (#[trigger] book.spec_bids()[i]).quantity.val() >= 0,
        forall|i: int|
            0 <= i < book.spec_asks().len() ==> (#[trigger] book.spec_asks()[i]).quantity.val() >= 0,
        fill_exact(book.spec_bids(), qty, book.spec_bids().len()),
        fill_exact(book.spec_asks(), qty, book.spec_asks().len()),
        slack >= 0,
        vwap_of(side_levels(book.spec_bids(), book.spec_asks(), Side::Sell), qty) == Some(sell),
        vwap_of(side_levels(book.spec_bids(), book.spec_asks(), Side::Buy), qty) == Some(buy),
        ({
            let st = fill(book.spec_bids(), qty, book.spec_bids().len());
            abs(sell.val() * st.filled.val() - st.cost.val() * unit()) <= slack * st.filled.val()
        }),
        ({
            let st = fill(book.spec_asks(), qty, book.spec_asks().len());
            abs(buy.val() * st.filled.val() - st.cost.val() * unit()) <= slack * st.filled.val()
        }),
    ensures
        sell.val() <= book.spec_bids()[0].price.val() + slack,
        buy.val() >= book.spec_asks()[0].price.val() - slack,
        book.spec_bids()[0].price.val() < book.spec_asks()[0].price.val() ==> sell.val()
            < buy.val() + 2 * slack,
{
    let bids = book.spec_bids();
    let asks = book.spec_asks();
    assert(levels_bounded(bids, bids[0].price.val(), true)) by {
        assert forall|i: int| 0 <= i < bids.len() implies (#[trigger] bids[i]).quantity.val() >= 0
            && bids[i].price.val() <= bids[0].price.val() by {
            if i > 0 {
                assert(keeps_before(bids[0], bids[i], true));
            }
        }
    }
    assert(levels_bounded(asks, asks[0].price.val(), false)) by {
        assert forall|i: int| 0 <= i < asks.len() implies (#[trigger] asks[i]).quantity.val() >= 0
            && asks[i].price.val() >= asks[0].price.val() by {
            if i > 0 {
                assert(keeps_before(asks[0], asks[i], false));
            }
        }
    }
    lemma_vwap_bounded(bids, qty, bids[0].price.val(), true, slack, sell);
    lemma_vwap_bounded(asks, qty, asks[0].price.val(), false, slack, buy);
}

/// The liquidity metrics of a book with these sides.
pub open spec fn metrics_of(bids: Seq<PriceLevel>, asks: Seq<PriceLevel>) -> LiquidityMetrics {
    let tb = notional_sum(bids, bids.len());
    let ta = notional_sum(asks, asks.len());
    let total = decimal_sum(tb, ta);
    LiquidityMetrics {
        total_bid_liquidity: tb,
        total_ask_liquidity: ta,
        depth_bid_5: notional_sum(bids, min_nat(5, bids.len())),
        depth_ask_5: notional_sum(asks, min_nat(5, asks.len())),
        depth_bid_10: notional_sum(bids, min_nat(10, bids.len())),
        depth_ask_10: notional_sum(asks, min_nat(10, asks.len())),
        imbalance: if total.val() > 0 {
            decimal_quotient(decimal_difference(tb, ta), total)
        } else {
            Dec::literal(0, 0)
        },
    }
}

/// No step of the liquidity metrics overflows.
pub open spec fn metrics_ok(bids: Seq<PriceLevel>, asks: Seq<PriceLevel>) -> bool {
    let tb = notional_sum(bids, bids.len());
    let ta = notional_sum(asks, asks.len());
    let total = decimal_sum(tb, ta);
    &&& notional_sum_ok(bids, bids.len())
    &&& notional_sum_ok(asks, asks.len())
    &&& sum_ok(tb, ta)
    &&& (total.val() > 0 ==> difference_ok(tb, ta) && quotient_ok(
        decimal_difference(tb, ta),
        total,
    ))
}

/// The slippage of filling `qty` on `side`: the distance of the
/// volume-weighted price from the best price, relative to the best price.
pub open spec fn slippage_of(bids: Seq<PriceLevel>, asks: Seq<PriceLevel>, side: Side, qty: Dec) -> Option<
    Dec,
> {
    let levels = side_levels(bids, asks, side);
    if levels.len() == 0 {
        None
    } else {
        match vwap_of(levels, qty) {
            Some(v) => Some(slippage_from(levels[0].price, v)),
            None => None,
        }
    }
}

/// The slippage of filling `qty` against `levels` from their first price.
pub open spec fn levels_slippage(levels: Seq<PriceLevel>, qty: Dec) -> Option<Dec> {
    if levels.len() == 0 {
        None
    } else {
        match vwap_of(levels, qty) {
            Some(v) => Some(slippage_from(levels[0].price, v)),
            None => None,
        }
    }
}

pub open spec fn slippage_ok(bids: Seq<PriceLevel>, asks: Seq<PriceLevel>, side: Side, qty: Dec) -> bool {
    let levels = side_levels(bids, asks, side);
    levels.len() > 0 ==> {
        &&& vwap_ok(levels, qty)
        &&& (vwap_of(levels, qty) matches Some(v) ==> slippage_from_ok(levels[0].price, v))
    }
}

proof fn lemma_prefix_ok(levels: Seq<PriceLevel>, k: nat, n: nat)
    requires
        k <= n,
        notional_sum_ok(levels, n),
    ensures
        notional_sum_ok(levels, k),
    decreases n - k,
{
    if k < n {
        lemma_prefix_ok(levels, k, (n - 1) as nat);
    }
}

impl OrderBook {
    pub closed spec fn spec_exchange(&self) -> Exchange {
        self.exchange
    }

    pub closed spec fn spec_symbol(&self) -> Symbol {
        self.symbol
    }

    pub closed spec fn spec_bids(&self) -> Seq<PriceLevel> {
        self.bids@
    }

    pub closed spec fn spec_asks(&self) -> Seq<PriceLevel> {
        self.asks@
    }

    pub closed spec fn spec_timestamp(&self) -> u64 {
        self.timestamp_ns
    }

    pub closed spec fn spec_sequence(&self) -> u64 {
        self.sequence
    }

    /// Bids run from the highest price down and asks from the lowest up.
    pub open spec fn is_sorted(&self) -> bool {
        levels_sorted(self.spec_bids(), true) && levels_sorted(self.spec_asks(), false)
    }

    /// An empty book at sequence 0.
    pub fn new(exchange: Exchange, symbol: Symbol) -> (r: OrderBook)
        ensures
            r.spec_exchange() == exchange,
            r.spec_symbol() == symbol,
            r.spec_bids() == Seq::<PriceLevel>::empty(),
            r.spec_asks() == Seq::<PriceLevel>::empty(),
            r.spec_timestamp() == 0,
            r.spec_sequence() == 0,
            r.is_sorted(),
    {
        OrderBook {
            exchange,
            symbol,
            bids: Vec::new(),
            asks: Vec::new(),
            timestamp_ns: 0,
            sequence: 0,
        }
    }

    /// Takes the snapshot's levels, timestamp and sequence when its sequence
    /// is newer than the book's, sorting bids descending and asks ascending
    /// by price; an older or equal sequence leaves the book unchanged.
    pub fn update(&mut self, snapshot: OrderBookSnapshot)
        ensures
            final(self).spec_exchange() == old(self).spec_exchange(),
            final(self).spec_symbol() == old(self).spec_symbol(),
            snapshot.sequence > old(self).spec_sequence() ==> {
                &&& final(self).spec_bids() == sort_levels(snapshot.bids@, true)
                &&& final(self).spec_asks() == sort_levels(snapshot.asks@, false)
                &&& final(self).spec_timestamp() == snapshot.timestamp_ns
                &&& final(self).spec_sequence() == snapshot.sequence
                &&& final(self).is_sorted()
            },
            snapshot.sequence <= old(self).spec_sequence() ==> *final(self) == *old(self),
    {
        if snapshot.sequence > self.sequence {
            proof {
                lemma_sort_levels(snapshot.bids@, true);
                lemma_sort_levels(snapshot.asks@, false);
            }
            self.bids = snapshot.bids;
            self.asks = snapshot.asks;
            self.timestamp_ns = snapshot.timestamp_ns;
            self.sequence = snapshot.sequence;
            sort_levels_in_place(&mut self.bids, true);
            sort_levels_in_place(&mut self.asks, false);
        }
    }

    /// The book as a snapshot.
    pub fn snapshot(&self) -> (r: OrderBookSnapshot)
        ensures
            r.exchange == self.spec_exchange(),
            r.symbol == self.spec_symbol(),
            r.bids@ == self.spec_bids(),
            r.asks@ == self.spec_asks(),
            r.timestamp_ns == self.spec_timestamp(),
            r.sequence == self.spec_sequence(),
    {
        OrderBookSnapshot {
            exchange: self.exchange,
            symbol: self.symbol.clone(),
            bids: clone_levels(&self.bids),
            asks: clone_levels(&self.asks),
            timestamp_ns: self.timestamp_ns,
            sequence: self.sequence,
        }
    }

    pub fn best_bid(&self) -> (r: Option<&PriceLevel>)
        ensures
            r == (if self.spec_bids().len() > 0 {
                Some(&self.spec_bids()[0])
            } else {
                None::<&PriceLevel>
            }),
    {
        first_level(&self.bids)
    }

    pub fn best_ask(&self) -> (r: Option<&PriceLevel>)
        ensures
            r == (if self.spec_asks().len() > 0 {
                Some(&self.spec_asks()[0])
            } else {
                None::<&PriceLevel>
            }),
    {
        first_level(&self.asks)
    }

    pub fn spread(&self) -> (r: Option<Dec>)
        requires
            spread_ok(self.spec_bids(), self.spec_asks()),
        ensures
            r == spread_of(self.spec_bids(), self.spec_asks()),
    {
        spread_between(&self.bids, &self.asks)
    }

    pub fn mid_price(&self) -> (r: Option<Dec>)
        requires
            mid_ok(self.spec_bids(), self.spec_asks()),
        ensures
            r == mid_of(self.spec_bids(), self.spec_asks()),
    {
        mid_between(&self.bids, &self.asks)
    }

    /// Calculate total liquidity up to N levels
    pub fn liquidity_at_depth(&self, depth: usize) -> (r: (Dec, Dec))
        requires
            notional_sum_ok(self.spec_bids(), min_nat(depth as nat, self.spec_bids().len())),
            notional_sum_ok(self.spec_asks(), min_nat(depth as nat, self.spec_asks().len())),
        ensures
            r.0 == notional_sum(self.spec_bids(), min_nat(depth as nat, self.spec_bids().len())),
            r.1 == notional_sum(self.spec_asks(), min_nat(depth as nat, self.spec_asks().len())),
    {
        let bid_liquidity = notional_up_to(&self.bids, depth);
        let ask_liquidity = notional_up_to(&self.asks, depth);
        (bid_liquidity, ask_liquidity)
    }

    /// Calculate comprehensive liquidity metrics
    pub fn liquidity_metrics(&self) -> (r: LiquidityMetrics)
        requires
            metrics_ok(self.spec_bids(), self.spec_asks()),
        ensures
            r == metrics_of(self.spec_bids(), self.spec_asks()),
    {
        proof {
            let nb = self.spec_bids().len();
            let na = self.spec_asks().len();
            lemma_prefix_ok(self.spec_bids(), min_nat(5, nb), nb);
            lemma_prefix_ok(self.spec_asks(), min_nat(5, na), na);
            lemma_prefix_ok(self.spec_bids(), min_nat(10, nb), nb);
            lemma_prefix_ok(self.spec_asks(), min_nat(10, na), na);
        }
        // Both sides fit in memory, so their lengths are at most `usize::MAX`.
        let bid_count = self.bids.len();
        let ask_count = self.asks.len();
        proof {
            assert(min_nat(usize::MAX as nat, bid_count as nat) == self.spec_bids().len());
            assert(min_nat(usize::MAX as nat, ask_count as nat) == self.spec_asks().len());
        }
        let (total_bid, total_ask) = self.liquidity_at_depth(usize::MAX);
        let (bid_5, ask_5) = self.liquidity_at_depth(5);
        let (bid_10, ask_10) = self.liquidity_at_depth(10);
        let total = dec_add(total_bid, total_ask);
        let imbalance = if total.is_positive() {
            let s = dec_add(total_bid, total_ask);
            dec_div(dec_sub(total_bid, total_ask), s)
        } else {
            Dec::zero()
        };
        LiquidityMetrics {
            total_bid_liquidity: total_bid,
            total_ask_liquidity: total_ask,
            depth_bid_5: bid_5,
            depth_ask_5: ask_5,
            depth_bid_10: bid_10,
            depth_ask_10: ask_10,
            imbalance,
        }
    }

    /// Calculate Volume-Weighted Average Price (VWAP) for a given quantity
    pub fn calculate_vwap(&self, side: Side, quantity: Dec) -> (r: Option<Dec>)
        requires
            vwap_ok(side_levels(self.spec_bids(), self.spec_asks(), side), quantity),
        ensures
            r == vwap_of(side_levels(self.spec_bids(), self.spec_asks(), side), quantity),
            side == Side::Sell ==> r == vwap_of(self.spec_bids(), quantity),
            side == Side::Buy ==> r == vwap_of(self.spec_asks(), quantity),
    {
        match side {
            Side::Buy => vwap_of_levels(self.asks.as_slice(), quantity),
            Side::Sell => vwap_of_levels(self.bids.as_slice(), quantity),
        }
    }

    /// Estimate slippage for executing a given quantity
    pub fn estimate_slippage(&self, side: Side, quantity: Dec) -> (r: Option<Dec>)
        requires
            slippage_ok(self.spec_bids(), self.spec_asks(), side, quantity),
        ensures
            r == slippage_of(self.spec_bids(), self.spec_asks(), side, quantity),
            side == Side::Sell ==> r == levels_slippage(self.spec_bids(), quantity),
            side == Side::Buy ==> r == levels_slippage(self.spec_asks(), quantity),
    {
        let best_price = match side {
            Side::Buy => match first_level(&self.asks) {
                Some(l) => l.price,
                None => return None,
            },
            Side::Sell => match first_level(&self.bids) {
                Some(l) => l.price,
                None => return None,
            },
        };
        let vwap = match self.calculate_vwap(side, quantity) {
            Some(v) => v,
            None => return None,
        };
        Some(slippage_between(best_price, vwap))
    }
}

/// The book for `exchange` and `symbol` matches this key.
pub open spec fn book_matches(b: OrderBook, exchange: Exchange, symbol: Symbol) -> bool {
    b.spec_exchange() == exchange && same_symbol(b.spec_symbol(), symbol)
}

/// The index of the first book from `i` on with this key.
pub open spec fn find_book_from(books: Seq<OrderBook>, exchange: Exchange, symbol: Symbol, i: int) -> Option<
    int,
>
    decreases books.len() - i,
{
    if i < 0 || i >= books.len() {
        None
    } else if book_matches(books[i], exchange, symbol) {
        Some(i)
    } else {
        find_book_from(books, exchange, symbol, i + 1)
    }
}

/// The index of the book with this key, if there is one.
pub open spec fn find_book(books: Seq<OrderBook>, exchange: Exchange, symbol: Symbol) -> Option<int> {
    find_book_from(books, exchange, symbol, 0)
}

proof fn lemma_find_book_from(books: Seq<OrderBook>, exchange: Exchange, symbol: Symbol, i: int)
    requires
        0 <= i,
    ensures
        find_book_from(books, exchange, symbol, i) matches Some(k) ==> i <= k < books.len()
            && book_matches(books[k], exchange, symbol) && forall|j: int|
            i <= j < k ==> !book_matches(#[trigger] books[j], exchange, symbol),
        find_book_from(books, exchange, symbol, i) is None ==> forall|j: int|
            i <= j < books.len() ==> !book_matches(#[trigger] books[j], exchange, symbol),
    decreases books.len() - i,
{
    if i < books.len() {
        lemma_find_book_from(books, exchange, symbol, i + 1);
    }
}

/// Order book manager for multiple exchanges and symbols
pub struct OrderBookManager {
    books: Vec<OrderBook>,
}

impl OrderBookManager {
    /// The books held, one per exchange and symbol, in the order first seen.
    pub closed spec fn spec_books(&self) -> Seq<OrderBook> {
        self.books@
    }

    /// The book held for this key.
    pub open spec fn book_for(&self, exchange: Exchange, symbol: Symbol) -> Option<OrderBook> {
        match find_book(self.spec_books(), exchange, symbol) {
            Some(i) => Some(self.spec_books()[i]),
            None => None,
        }
    }

    pub fn new() -> (r: OrderBookManager)
        ensures
            r.spec_books() == Seq::<OrderBook>::empty(),
    {
        OrderBookManager { books: Vec::new() }
    }

    fn find(&self, exchange: Exchange, symbol: &Symbol) -> (r: Option<usize>)
        ensures
            match r {
                Some(i) => find_book(self.spec_books(), exchange, *symbol) == Some(i as int) && i
                    < self.spec_books().len(),
                None => find_book(self.spec_books(), exchange, *symbol) is None,
            },
    {
        let mut i: usize = 0;
        while i < self.books.len()
            invariant
                0 <= i <= self.books@.len(),
                find_book(self.spec_books(), exchange, *symbol) == find_book_from(
                    self.spec_books(),
                    exchange,
                    *symbol,
                    i as int,
                ),
            decreases self.books@.len() - i,
        {
            if self.books[i].exchange == exchange && self.books[i].symbol.same(symbol) {
                return Some(i);
            }
            assert(!book_matches(self.spec_books()[i as int], exchange, *symbol));
            i = i + 1;
        }
        None
    }

    /// Applies a snapshot to the book of its exchange and symbol, creating the
    /// book when there is none yet.
    pub fn update(&mut self, snapshot: OrderBookSnapshot)
        ensures
            manager_updated(*old(self), *final(self), snapshot),
    {
        match self.find(snapshot.exchange, &snapshot.symbol) {
            Some(i) => {
                let mut book = self.books.remove(i);
                book.update(snapshot);
                self.books.insert(i, book);
                proof {
                    assert forall|j: int|
                        0 <= j < old(self).spec_books().len() && j != i implies self.spec_books()[j]
                        == old(self).spec_books()[j] by {}
                }
            },
            None => {
                let mut book = OrderBook::new(snapshot.exchange, snapshot.symbol.clone());
                book.update(snapshot);
                self.books.push(book);
                assert(self.spec_books().drop_last() =~= old(self).spec_books());
            },
        }
    }

    pub fn get_snapshot(&self, exchange: Exchange, symbol: &Symbol) -> (r: Option<OrderBookSnapshot>)
        ensures
            match self.book_for(exchange, *symbol) {
                Some(b) => r matches Some(s) && s.exchange == b.spec_exchange() && s.symbol
                    == b.spec_symbol() && s.bids@ == b.spec_bids() && s.asks@ == b.spec_asks()
                    && s.timestamp_ns == b.spec_timestamp() && s.sequence == b.spec_sequence(),
                None => r is None,
            },
    {
        match self.find(exchange, symbol) {
            Some(i) => Some(self.books[i].snapshot()),
            None => None,
        }
    }

    pub fn get_best_bid(&self, exchange: Exchange, symbol: &Symbol) -> (r: Option<PriceLevel>)
        ensures
            r == (match self.book_for(exchange, *symbol) {
                Some(b) => if b.spec_bids().len() > 0 {
                    Some(b.spec_bids()[0])
                } else {
                    None
                },
                None => None,
            }),
    {
        match self.find(exchange, symbol) {
            Some(i) => match self.books[i].best_bid() {
                Some(l) => Some(*l),
                None => None,
            },
            None => None,
        }
    }

    pub fn get_best_ask(&self, exchange: Exchange, symbol: &Symbol) -> (r: Option<PriceLevel>)
        ensures
            r == (match self.book_for(exchange, *symbol) {
                Some(b) => if b.spec_asks().len() > 0 {
                    Some(b.spec_asks()[0])
                } else {
                    None
                },
                None => None,
            }),
    {
        match self.find(exchange, symbol) {
            Some(i) => match self.books[i].best_ask() {
                Some(l) => Some(*l),
                None => None,
            },
            None => None,
        }
    }

    pub fn get_spread(&self, exchange: Exchange, symbol: &Symbol) -> (r: Option<Dec>)
        requires
            self.book_for(exchange, *symbol) matches Some(b) ==> spread_ok(
                b.spec_bids(),
                b.spec_asks(),
            ),
        ensures
            r == (match self.book_for(exchange, *symbol) {
                Some(b) => spread_of(b.spec_bids(), b.spec_asks()),
                None => None,
            }),
    {
        match self.find(exchange, symbol) {
            Some(i) => self.books[i].spread(),
            None => None,
        }
    }

    pub fn get_mid_price(&self, exchange: Exchange, symbol: &Symbol) -> (r: Option<Dec>)
        requires
            self.book_for(exchange, *symbol) matches Some(b) ==> mid_ok(
                b.spec_bids(),
                b.spec_asks(),
            ),
        ensures
            r == (match self.book_for(exchange, *symbol) {
                Some(b) => mid_of(b.spec_bids(), b.spec_asks()),
                None => None,
            }),
    {
        match self.find(exchange, symbol) {
            Some(i) => self.books[i].mid_price(),
            None => None,
        }
    }

    pub fn calculate_liquidity_metrics(&self, exchange: Exchange, symbol: &Symbol) -> (r: Option<
        LiquidityMetrics,
    >)
        requires
            self.book_for(exchange, *symbol) matches Some(b) ==> metrics_ok(
                b.spec_bids(),
                b.spec_asks(),
            ),
        ensures
            r == (match self.book_for(exchange, *symbol) {
                Some(b) => Some(metrics_of(b.spec_bids(), b.spec_asks())),
                None => None,
            }),
    {
        match self.find(exchange, symbol) {
            Some(i) => Some(self.books[i].liquidity_metrics()),
            None => None,
        }
    }
}

/// `after` is `before` with `snapshot` applied to the book of its key: that
/// book updated in place, or a new book appended when there was none.
pub open spec fn manager_updated(before: OrderBookManager, after: OrderBookManager, snapshot: OrderBookSnapshot) -> bool {
    match find_book(before.spec_books(), snapshot.exchange, snapshot.symbol) {
        Some(i) => {
            &&& after.spec_books().len() == before.spec_books().len()
            &&& forall|j: int|
                0 <= j < before.spec_books().len() && j != i ==> after.spec_books()[j]
                    == before.spec_books()[j]
            &&& updated_book(before.spec_books()[i], after.spec_books()[i], snapshot)
        },
        None => {
            &&& after.spec_books().len() == before.spec_books().len() + 1
            &&& after.spec_books().drop_last() == before.spec_books()
            &&& after.spec_books().last().spec_exchange() == snapshot.exchange
            &&& after.spec_books().last().spec_symbol() == snapshot.symbol
            &&& created_book(after.spec_books().last(), snapshot)
        },
    }
}

/// A snapshot newer than the book held for its key (or, without a book, of a
/// positive sequence) is what that key reads afterwards: its levels sorted,
/// its time and its sequence. An older one leaves the manager's book as it
/// was. Every other exchange and symbol reads as before.
pub proof fn lemma_update_then_read(
    before: OrderBookManager,
    after: OrderBookManager,
    snapshot: OrderBookSnapshot,
    other_exchange: Exchange,
    other_symbol: Symbol,
)
    requires
        manager_updated(before, after, snapshot),
    ensures
        (match before.book_for(snapshot.exchange, snapshot.symbol) {
            Some(b) => snapshot.sequence > b.spec_sequence(),
            None => snapshot.sequence > 0,
        }) ==> (after.book_for(snapshot.exchange, snapshot.symbol) matches Some(b) && b.spec_bids()
            == sort_levels(snapshot.bids@, true) && b.spec_asks() == sort_levels(snapshot.asks@, false)
            && b.spec_timestamp() == snapshot.timestamp_ns && b.spec_sequence() == snapshot.sequence),
        (before.book_for(snapshot.exchange, snapshot.symbol) matches Some(b)
            && snapshot.sequence <= b.spec_sequence()) ==> after.book_for(
            snapshot.exchange,
            snapshot.symbol,
        ) == before.book_for(snapshot.exchange, snapshot.symbol),
        !(other_exchange == snapshot.exchange && same_symbol(other_symbol, snapshot.symbol))
            ==> after.book_for(other_exchange, other_symbol) == before.book_for(
            other_exchange,
            other_symbol,
        ),
{
    if !(other_exchange == snapshot.exchange && same_symbol(other_symbol, snapshot.symbol)) {
        lemma_update_keeps_others(before, after, snapshot, other_exchange, other_symbol);
    }
    let ex = snapshot.exchange;
    let sym = snapshot.symbol;
    let bs = before.spec_books();
    let as_ = after.spec_books();
    lemma_find_book_from(bs, ex, sym, 0);
    match find_book(bs, ex, sym) {
        Some(i) => {
            assert(book_matches(as_[i], ex, sym));
            assert forall|j: int| 0 <= j < i implies !book_matches(#[trigger] as_[j], ex, sym) by {
                assert(as_[j] == bs[j]);
            }
            lemma_find_book_at(as_, ex, sym, 0, i);
        },
        None => {
            let n = bs.len() as int;
            assert(as_.last() == as_[n]);
            assert(book_matches(as_[n], ex, sym));
            assert forall|j: int| 0 <= j < n implies !book_matches(#[trigger] as_[j], ex, sym) by {
                assert(as_[j] == as_.drop_last()[j]);
            }
            lemma_find_book_at(as_, ex, sym, 0, n);
        },
    }
}

proof fn lemma_find_same(bs: Seq<OrderBook>, as_: Seq<OrderBook>, e: Exchange, s: Symbol, k: int)
    requires
        0 <= k,
        bs.len() == as_.len(),
        forall|j: int|
            0 <= j < bs.len() ==> book_matches(#[trigger] as_[j], e, s) == book_matches(bs[j], e, s),
    ensures
        find_book_from(as_, e, s, k) == find_book_from(bs, e, s, k),
    decreases bs.len() - k,
{
    if k < bs.len() {
        lemma_find_same(bs, as_, e, s, k + 1);
    }
}

proof fn lemma_find_push(bs: Seq<OrderBook>, as_: Seq<OrderBook>, e: Exchange, s: Symbol, k: int)
    requires
        0 <= k,
        as_.len() == bs.len() + 1,
        as_.drop_last() == bs,
        !book_matches(as_.last(), e, s),
    ensures
        find_book_from(as_, e, s, k) == find_book_from(bs, e, s, k),
    decreases as_.len() - k,
{
    if k < bs.len() {
        assert(as_[k] == as_.drop_last()[k]);
        assert(as_[k] == bs[k]);
        lemma_find_push(bs, as_, e, s, k + 1);
    } else if k == bs.len() {
        assert(as_[k] == as_.last());
        assert(find_book_from(as_, e, s, k + 1) is None);
    }
}

proof fn lemma_update_keeps_others(
    before: OrderBookManager,
    after: OrderBookManager,
    snapshot: OrderBookSnapshot,
    e: Exchange,
    s: Symbol,
)
    requires
        manager_updated(before, after, snapshot),
        !(e == snapshot.exchange && same_symbol(s, snapshot.symbol)),
    ensures
        after.book_for(e, s) == before.book_for(e, s),
{
    let bs = before.spec_books();
    let as_ = after.spec_books();
    let ex = snapshot.exchange;
    let sym = snapshot.symbol;
    lemma_find_book_from(bs, ex, sym, 0);
    lemma_find_book_from(bs, e, s, 0);
    match find_book(bs, ex, sym) {
        Some(i) => {
            assert forall|j: int| 0 <= j < bs.len() implies book_matches(#[trigger] as_[j], e, s)
                == book_matches(bs[j], e, s) by {
                if j != i {
                    assert(as_[j] == bs[j]);
                }
            }
            lemma_find_same(bs, as_, e, s, 0);
            if find_book(bs, e, s) == Some(i) {
                assert(book_matches(bs[i], e, s));
                assert(book_matches(bs[i], ex, sym));
                assert(same_symbol(s, sym));
            }
        },
        None => {
            lemma_find_push(bs, as_, e, s, 0);
            if let Some(k) = find_book(bs, e, s) {
                assert(as_[k] == as_.drop_last()[k]);
            }
        },
    }
}

proof fn lemma_find_book_at(books: Seq<OrderBook>, exchange: Exchange, symbol: Symbol, k: int, i: int)
    requires
        0 <= k <= i < books.len(),
        book_matches(books[i], exchange, symbol),
        forall|j: int| 0 <= j < i ==> !book_matches(#[trigger] books[j], exchange, symbol),
    ensures
        find_book_from(books, exchange, symbol, k) == Some(i),
    decreases i - k,
{
    if k < i {
        lemma_find_book_at(books, exchange, symbol, k + 1, i);
    }
}

/// `after` is a new book for the snapshot's key with the snapshot applied.
pub open spec fn created_book(after: OrderBook, snapshot: OrderBookSnapshot) -> bool {
    &&& after.spec_exchange() == snapshot.exchange
    &&& after.spec_symbol() == snapshot.symbol
    &&& if snapshot.sequence > 0 {
        &&& after.spec_bids() == sort_levels(snapshot.bids@, true)
        &&& after.spec_asks() == sort_levels(snapshot.asks@, false)
        &&& after.spec_timestamp() == snapshot.timestamp_ns
        &&& after.spec_sequence() == snapshot.sequence
    } else {
        &&& after.spec_bids() == Seq::<PriceLevel>::empty()
        &&& after.spec_asks() == Seq::<PriceLevel>::empty()
        &&& after.spec_timestamp() == 0
        &&& after.spec_sequence() == 0
    }
}

/// `after` is `before` with `snapshot` applied by `OrderBook::update`.
pub open spec fn updated_book(before: OrderBook, after: OrderBook, snapshot: OrderBookSnapshot) -> bool {
    &&& after.spec_exchange() == before.spec_exchange()
    &&& after.spec_symbol() == before.spec_symbol()
    &&& if snapshot.sequence > before.spec_sequence() {
        &&& after.spec_bids() == sort_levels(snapshot.bids@, true)
        &&& after.spec_asks() == sort_levels(snapshot.asks@, false)
        &&& after.spec_timestamp() == snapshot.timestamp_ns
        &&& after.spec_sequence() == snapshot.sequence
    } else {
        after == before
    }
}

} // verus!
