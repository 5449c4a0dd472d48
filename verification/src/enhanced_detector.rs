//! Arbitrage detection with validation of every step: fresh and deep books,
//! a sane spread, enough liquidity, bounded slippage, enough profit, no
//! repeated signal and room in the inventory; the survivors best first.
use vstd::prelude::*;
use crate::decimal::{Dec, dec_div, dec_min, quotient_ok, decimal_quotient, lemma_within_limit};
use crate::deduplication::{
    OpportunityDeduplicator, OpportunityFingerprint, FingerprintKey, check_outcome, price_key,
};
use crate::detector::{
    estimate_slippage, pair_quantity, max_slippage_of, ask_slippage, ask_slippage_ok,
    pair_opportunity, position_capped,
};
use crate::fees::{FeeManager, fee_of, fee_ok};
use crate::inventory::{InventoryManager, trade_check, trade_check_ok};
use crate::opportunity::{ArbitrageConfig, ArbitrageOpportunity, opportunity_of, figures_ok, profitable};
use crate::orderbook::{OrderBook, OrderBookManager};
use crate::timing::{Timestamp, saturating_diff};
use crate::types::{
    Exchange, PriceLevel, Symbol, exchange_text, symbol_text, spread_of, spread_ok, mid_of, mid_ok,
};
use crate::validation::{
    OrderBookValidator, LiquidityValidator, spread_bps_of, spread_bps_ok, depth_result,
    depth_result_ok,
};

verus! {

// ---------------------------------------------------------------------------
// The checks on one pair of books

/// The book was updated no longer ago than the validator allows.
pub open spec fn book_fresh(v: OrderBookValidator, b: OrderBook, now_ns: u64) -> bool {
    saturating_diff(now_ns, b.spec_timestamp()) / 1_000_000 <= v.spec_max_age_ms()
}

/// Both sides of the book have the validator's minimum depth.
pub open spec fn book_deep(v: OrderBookValidator, b: OrderBook) -> bool {
    b.spec_bids().len() >= v.spec_min_depth() && b.spec_asks().len() >= v.spec_min_depth()
}

/// The spread of the book, in basis points of its mid price, is below the
/// validator's maximum; a book without both sides passes.
pub open spec fn spread_sane(v: OrderBookValidator, b: OrderBook) -> bool {
    match (spread_of(b.spec_bids(), b.spec_asks()), mid_of(b.spec_bids(), b.spec_asks())) {
        (Some(spread), Some(mid)) => mid.val() != 0 && spread_bps_of(spread, mid).val()
            < v.spec_max_spread_bps().val(),
        _ => true,
    }
}

/// Taking `qty` from the levels passes the liquidity validator.
pub open spec fn liquid(v: LiquidityValidator, levels: Seq<PriceLevel>, qty: Dec) -> bool {
    depth_result(v.spec_min_depth_levels(), v.spec_min_total_liquidity(), levels, qty) is Ok
}

/// The later of two times.
pub open spec fn later(a: u64, b: u64) -> u64 {
    if a >= b {
        a
    } else {
        b
    }
}

/// The opportunity of buying at the best ask of `buy_book` and selling at the
/// best bid of `sell_book`, after checking in turn: both books fresh and
/// deep, a price discrepancy, a sane spread on the buying book, a positive
/// quantity, enough liquidity on both sides, acceptable slippage, and enough
/// profit. Its latency is the age of the later book.
pub open spec fn validated_pair(
    buy_book: OrderBook,
    sell_book: OrderBook,
    obv: OrderBookValidator,
    lv: LiquidityValidator,
    buy_exchange: Exchange,
    sell_exchange: Exchange,
    symbol: Symbol,
    cfg: ArbitrageConfig,
    now_ns: u64,
) -> Option<ArbitrageOpportunity> {
    let asks = buy_book.spec_asks();
    let bids = sell_book.spec_bids();
    if !book_fresh(obv, buy_book, now_ns) || !book_fresh(obv, sell_book, now_ns) {
        None
    } else if !book_deep(obv, buy_book) || !book_deep(obv, sell_book) {
        None
    } else if asks.len() == 0 || bids.len() == 0 {
        None
    } else if bids[0].price.val() <= asks[0].price.val() {
        None
    } else if !spread_sane(obv, buy_book) {
        None
    } else {
        let ask = asks[0];
        let bid = bids[0];
        let q = pair_quantity(ask, bid, cfg.max_position_size);
        if q.val() <= 0 {
            None
        } else if !liquid(lv, asks, q) || !liquid(lv, bids, q) {
            None
        } else {
            let buy_fee = fee_of(buy_exchange, false, q, ask.price);
            let sell_fee = fee_of(sell_exchange, false, q, bid.price);
            let buy_slip = ask_slippage(asks, q);
            let sell_slip = ask_slippage(sell_book.spec_asks(), q);
            let max_slip = max_slippage_of(cfg.max_slippage_bps);
            if buy_slip.val() > max_slip.val() || sell_slip.val() > max_slip.val() {
                None
            } else {
                let latency = saturating_diff(
                    now_ns,
                    later(buy_book.spec_timestamp(), sell_book.spec_timestamp()),
                ) as u64;
                let o = ArbitrageOpportunity {
                    latency_ns: latency,
                    ..opportunity_of(
                        symbol,
                        buy_exchange,
                        sell_exchange,
                        ask.price,
                        bid.price,
                        q,
                        buy_fee,
                        sell_fee,
                        buy_slip,
                        sell_slip,
                        now_ns,
                    )
                };
                if profitable(o, cfg.min_profit_bps) {
                    Some(o)
                } else {
                    None
                }
            }
        }
    }
}

/// No step of `validated_pair` overflows.
pub open spec fn validated_ok(
    buy_book: OrderBook,
    sell_book: OrderBook,
    obv: OrderBookValidator,
    lv: LiquidityValidator,
    buy_exchange: Exchange,
    sell_exchange: Exchange,
    cfg: ArbitrageConfig,
    now_ns: u64,
) -> bool {
    let asks = buy_book.spec_asks();
    let bids = sell_book.spec_bids();
    book_fresh(obv, buy_book, now_ns) && book_fresh(obv, sell_book, now_ns) && book_deep(
        obv,
        buy_book,
    ) && book_deep(obv, sell_book) && asks.len() > 0 && bids.len() > 0 && bids[0].price.val()
        > asks[0].price.val() ==> {
        let ask = asks[0];
        let bid = bids[0];
        let q = pair_quantity(ask, bid, cfg.max_position_size);
        &&& spread_ok(buy_book.spec_bids(), asks)
        &&& mid_ok(buy_book.spec_bids(), asks)
        &&& (spread_of(buy_book.spec_bids(), asks) matches Some(spread) ==> (mid_of(
            buy_book.spec_bids(),
            asks,
        ) matches Some(mid) ==> spread_bps_ok(spread, mid)))
        &&& (spread_sane(obv, buy_book) ==> {
            &&& quotient_ok(cfg.max_position_size, ask.price)
            &&& (q.val() > 0 ==> {
                &&& depth_result_ok(lv.spec_min_depth_levels(), asks, q)
                &&& depth_result_ok(lv.spec_min_depth_levels(), bids, q)
                &&& (liquid(lv, asks, q) && liquid(lv, bids, q) ==> {
                    let buy_fee = fee_of(buy_exchange, false, q, ask.price);
                    let sell_fee = fee_of(sell_exchange, false, q, bid.price);
                    let buy_slip = ask_slippage(asks, q);
                    let sell_slip = ask_slippage(sell_book.spec_asks(), q);
                    let max_slip = max_slippage_of(cfg.max_slippage_bps);
                    &&& fee_ok(buy_exchange, false, q, ask.price)
                    &&& fee_ok(sell_exchange, false, q, bid.price)
                    &&& ask_slippage_ok(asks, q)
                    &&& ask_slippage_ok(sell_book.spec_asks(), q)
                    &&& quotient_ok(cfg.max_slippage_bps, Dec::literal(10000, 0))
                    &&& (buy_slip.val() <= max_slip.val() && sell_slip.val() <= max_slip.val()
                        ==> figures_ok(
                        ask.price,
                        bid.price,
                        q,
                        buy_fee,
                        sell_fee,
                        buy_slip,
                        sell_slip,
                    ))
                })
            })
        })
    }
}

/// What identifies an opportunity for deduplication: the venues' names, the
/// symbol's text and the prices' whole-unit keys.
pub open spec fn fingerprint_key(o: ArbitrageOpportunity, symbol: Symbol) -> FingerprintKey {
    (
        exchange_text(o.buy_exchange),
        exchange_text(o.sell_exchange),
        symbol_text(symbol),
        price_key(o.buy_price),
        price_key(o.sell_price),
    )
}

/// The inventory, if one is kept, has room for the opportunity.
pub open spec fn inventory_allows(
    inventory: Option<InventoryManager>,
    o: ArbitrageOpportunity,
    symbol: Symbol,
) -> bool {
    match inventory {
        Some(m) => trade_check(
            m.spec_positions(),
            m.spec_max(),
            o.buy_exchange,
            o.sell_exchange,
            symbol,
            o.quantity,
        ) is Ok,
        None => true,
    }
}

/// The inventory check of an opportunity does not overflow.
pub open spec fn inventory_ok(inventory: Option<InventoryManager>, o: ArbitrageOpportunity, symbol: Symbol) -> bool {
    match inventory {
        Some(m) => trade_check_ok(
            m.spec_positions(),
            o.buy_exchange,
            o.sell_exchange,
            symbol,
            o.quantity,
        ),
        None => true,
    }
}

/// The candidates screened in order: each is checked against the
/// deduplicator's entries (which the check updates), then against the
/// inventory. The opportunities kept and the entries afterwards.
pub open spec fn screen(
    candidates: Seq<ArbitrageOpportunity>,
    seen: Map<FingerprintKey, u64>,
    symbol: Symbol,
    now_ns: u64,
    cooldown_ns: int,
    inventory: Option<InventoryManager>,
) -> (Seq<ArbitrageOpportunity>, Map<FingerprintKey, u64>)
    decreases candidates.len(),
{
    if candidates.len() == 0 {
        (Seq::empty(), seen)
    } else {
        let prev = screen(candidates.drop_last(), seen, symbol, now_ns, cooldown_ns, inventory);
        let o = candidates.last();
        let (fresh, after) = check_outcome(prev.1, fingerprint_key(o, symbol), now_ns, cooldown_ns);
        if fresh && inventory_allows(inventory, o, symbol) {
            (prev.0.push(o), after)
        } else {
            (prev.0, after)
        }
    }
}

/// Every opportunity kept so far is held in the entries, marked `now`.
pub open spec fn kept_marked(
    kept: Seq<ArbitrageOpportunity>,
    seen: Map<FingerprintKey, u64>,
    symbol: Symbol,
    now_ns: u64,
) -> bool {
    forall|i: int|
        0 <= i < kept.len() ==> seen.dom().contains(#[trigger] fingerprint_key(kept[i], symbol))
            && seen[fingerprint_key(kept[i], symbol)] == now_ns
}

/// No two opportunities share a fingerprint.
pub open spec fn keys_distinct(kept: Seq<ArbitrageOpportunity>, symbol: Symbol) -> bool {
    forall|i: int, j: int|
        0 <= i < j < kept.len() ==> fingerprint_key(#[trigger] kept[i], symbol) != fingerprint_key(
            #[trigger] kept[j],
            symbol,
        )
}

proof fn lemma_screen_marked(
    candidates: Seq<ArbitrageOpportunity>,
    seen: Map<FingerprintKey, u64>,
    symbol: Symbol,
    now_ns: u64,
    cooldown_ns: int,
    inventory: Option<InventoryManager>,
)
    requires
        cooldown_ns >= 0,
    ensures
        kept_marked(
            screen(candidates, seen, symbol, now_ns, cooldown_ns, inventory).0,
            screen(candidates, seen, symbol, now_ns, cooldown_ns, inventory).1,
            symbol,
            now_ns,
        ),
        keys_distinct(screen(candidates, seen, symbol, now_ns, cooldown_ns, inventory).0, symbol),
    decreases candidates.len(),
{
    if candidates.len() > 0 {
        let prev = screen(candidates.drop_last(), seen, symbol, now_ns, cooldown_ns, inventory);
        lemma_screen_marked(candidates.drop_last(), seen, symbol, now_ns, cooldown_ns, inventory);
        let o = candidates.last();
        let k = fingerprint_key(o, symbol);
        let s = crate::deduplication::cleaned(prev.1, now_ns, cooldown_ns);
        assert(kept_marked(prev.0, s, symbol, now_ns)) by {
            assert forall|i: int| 0 <= i < prev.0.len() implies s.dom().contains(
                #[trigger] fingerprint_key(prev.0[i], symbol),
            ) && s[fingerprint_key(prev.0[i], symbol)] == now_ns by {
                assert(prev.1.dom().contains(fingerprint_key(prev.0[i], symbol)));
            }
        }
        let (fresh, after) = check_outcome(prev.1, k, now_ns, cooldown_ns);
        if fresh {
            assert forall|i: int| 0 <= i < prev.0.len() implies fingerprint_key(prev.0[i], symbol)
                != k by {
                assert(s.dom().contains(fingerprint_key(prev.0[i], symbol)));
            }
        }
        let next = screen(candidates, seen, symbol, now_ns, cooldown_ns, inventory);
        if fresh && inventory_allows(inventory, o, symbol) {
            assert(next.0 == prev.0.push(o));
            assert forall|i: int, j: int| 0 <= i < j < next.0.len() implies fingerprint_key(
                #[trigger] next.0[i],
                symbol,
            ) != fingerprint_key(#[trigger] next.0[j], symbol) by {
                if j == prev.0.len() {
                    assert(next.0[i] == prev.0[i]);
                } else {
                    assert(next.0[i] == prev.0[i]);
                    assert(next.0[j] == prev.0[j]);
                }
            }
            assert forall|i: int| 0 <= i < next.0.len() implies next.1.dom().contains(
                #[trigger] fingerprint_key(next.0[i], symbol),
            ) && next.1[fingerprint_key(next.0[i], symbol)] == now_ns by {
                if i < prev.0.len() {
                    assert(next.0[i] == prev.0[i]);
                }
            }
        }
    }
}

/// Within one scan no opportunity is reported twice: the opportunities that
/// survive screening have distinct fingerprints.
pub proof fn lemma_screen_distinct(
    candidates: Seq<ArbitrageOpportunity>,
    seen: Map<FingerprintKey, u64>,
    symbol: Symbol,
    now_ns: u64,
    cooldown_ns: int,
    inventory: Option<InventoryManager>,
)
    requires
        cooldown_ns >= 0,
    ensures
        keys_distinct(screen(candidates, seen, symbol, now_ns, cooldown_ns, inventory).0, symbol),
{
    lemma_screen_marked(candidates, seen, symbol, now_ns, cooldown_ns, inventory);
}

/// Screening keeps out every candidate whose fingerprint `key` was let
/// through at `marked`, no more than the cooldown before `now_ns`; the entry
/// stays as it was.
proof fn lemma_screen_keeps_out(
    candidates: Seq<ArbitrageOpportunity>,
    seen: Map<FingerprintKey, u64>,
    symbol: Symbol,
    now_ns: u64,
    cooldown_ns: int,
    inventory: Option<InventoryManager>,
    key: FingerprintKey,
    marked: u64,
)
    requires
        cooldown_ns >= 0,
        marked <= now_ns,
        now_ns - marked <= cooldown_ns,
        seen.dom().contains(key),
        seen[key] == marked,
    ensures
        ({
            let r = screen(candidates, seen, symbol, now_ns, cooldown_ns, inventory);
            &&& r.1.dom().contains(key)
            &&& r.1[key] == marked
            &&& forall|i: int|
                0 <= i < r.0.len() ==> fingerprint_key(#[trigger] r.0[i], symbol) != key
        }),
    decreases candidates.len(),
{
    if candidates.len() > 0 {
        lemma_screen_keeps_out(
            candidates.drop_last(),
            seen,
            symbol,
            now_ns,
            cooldown_ns,
            inventory,
            key,
            marked,
        );
        let prev = screen(candidates.drop_last(), seen, symbol, now_ns, cooldown_ns, inventory);
        let s = crate::deduplication::cleaned(prev.1, now_ns, cooldown_ns);
        assert(s.dom().contains(key) && s[key] == marked);
    }
}

/// A scan within the cooldown of an earlier one reports none of the
/// opportunities the earlier scan reported: if screening `first` at
/// `earlier` kept an opportunity, screening any candidates at `later`, from
/// the entries the first screening left, keeps none with its fingerprint.
pub proof fn lemma_scan_cooldown(
    first: Seq<ArbitrageOpportunity>,
    second: Seq<ArbitrageOpportunity>,
    seen: Map<FingerprintKey, u64>,
    symbol: Symbol,
    earlier: u64,
    later: u64,
    cooldown_ns: int,
    inventory: Option<InventoryManager>,
)
    requires
        cooldown_ns >= 0,
        earlier <= later,
        later - earlier <= cooldown_ns,
    ensures
        ({
            let r1 = screen(first, seen, symbol, earlier, cooldown_ns, inventory);
            let r2 = screen(second, r1.1, symbol, later, cooldown_ns, inventory);
            forall|i: int, j: int|
                0 <= i < r1.0.len() && 0 <= j < r2.0.len() ==> fingerprint_key(
                    #[trigger] r1.0[i],
                    symbol,
                ) != fingerprint_key(#[trigger] r2.0[j], symbol)
        }),
{
    let r1 = screen(first, seen, symbol, earlier, cooldown_ns, inventory);
    let r2 = screen(second, r1.1, symbol, later, cooldown_ns, inventory);
    lemma_screen_marked(first, seen, symbol, earlier, cooldown_ns, inventory);
    assert forall|i: int, j: int|
        0 <= i < r1.0.len() && 0 <= j < r2.0.len() implies fingerprint_key(
        #[trigger] r1.0[i],
        symbol,
    ) != fingerprint_key(#[trigger] r2.0[j], symbol) by {
        let k = fingerprint_key(r1.0[i], symbol);
        assert(r1.1.dom().contains(k) && r1.1[k] == earlier);
        lemma_screen_keeps_out(second, r1.1, symbol, later, cooldown_ns, inventory, k, earlier);
    }
}

/// What a validated pair reports: buying at the best ask of the buying book
/// and selling at the best bid of the selling book, both books fresh and
/// deep, a sane spread on the buying book, the quantity the smaller of the
/// two best quantities and of the position limit over the ask (positive),
/// enough liquidity on both sides, taker fees on both legs, acceptable
/// slippage, a profit above the minimum, and the latency of the later book.
pub proof fn lemma_validated_pair_figures(
    buy_book: OrderBook,
    sell_book: OrderBook,
    obv: OrderBookValidator,
    lv: LiquidityValidator,
    buy_exchange: Exchange,
    sell_exchange: Exchange,
    symbol: Symbol,
    cfg: ArbitrageConfig,
    now_ns: u64,
    o: ArbitrageOpportunity,
)
    requires
        validated_pair(
            buy_book,
            sell_book,
            obv,
            lv,
            buy_exchange,
            sell_exchange,
            symbol,
            cfg,
            now_ns,
        ) == Some(o),
    ensures
        ({
            let ask = buy_book.spec_asks()[0];
            let bid = sell_book.spec_bids()[0];
            &&& buy_book.spec_asks().len() > 0 && sell_book.spec_bids().len() > 0
            &&& book_fresh(obv, buy_book, now_ns) && book_fresh(obv, sell_book, now_ns)
            &&& book_deep(obv, buy_book) && book_deep(obv, sell_book)
            &&& spread_sane(obv, buy_book)
            &&& bid.price.val() > ask.price.val()
            &&& o.buy_exchange == buy_exchange && o.sell_exchange == sell_exchange
            &&& o.symbol == symbol
            &&& o.buy_price == ask.price && o.sell_price == bid.price
            &&& o.quantity == pair_quantity(ask, bid, cfg.max_position_size)
            &&& o.quantity.val() > 0
            &&& liquid(lv, buy_book.spec_asks(), o.quantity)
            &&& liquid(lv, sell_book.spec_bids(), o.quantity)
            &&& o.buy_fee == fee_of(buy_exchange, false, o.quantity, ask.price)
            &&& o.sell_fee == fee_of(sell_exchange, false, o.quantity, bid.price)
            &&& o.buy_slippage.val() <= max_slippage_of(cfg.max_slippage_bps).val()
            &&& o.sell_slippage.val() <= max_slippage_of(cfg.max_slippage_bps).val()
            &&& profitable(o, cfg.min_profit_bps)
            &&& o.net_profit.val() > 0
            &&& o.profit_bps.val() > cfg.min_profit_bps.val()
            &&& o.latency_ns == saturating_diff(
                now_ns,
                later(buy_book.spec_timestamp(), sell_book.spec_timestamp()),
            )
        }),
{
}

/// Every opportunity the validated check reports, the plain pair check
/// reports too on the same books and settings, with the same figures; only
/// the latency, which the plain check leaves at zero, differs.
pub proof fn lemma_validated_refines_plain(
    buy_book: OrderBook,
    sell_book: OrderBook,
    obv: OrderBookValidator,
    lv: LiquidityValidator,
    buy_exchange: Exchange,
    sell_exchange: Exchange,
    symbol: Symbol,
    cfg: ArbitrageConfig,
    now_ns: u64,
    o: ArbitrageOpportunity,
)
    requires
        validated_pair(
            buy_book,
            sell_book,
            obv,
            lv,
            buy_exchange,
            sell_exchange,
            symbol,
            cfg,
            now_ns,
        ) == Some(o),
    ensures
        pair_opportunity(
            buy_book,
            sell_book,
            buy_exchange,
            sell_exchange,
            symbol,
            cfg.min_profit_bps,
            cfg.max_position_size,
            cfg.max_slippage_bps,
            now_ns,
        ) == Some(ArbitrageOpportunity { latency_ns: 0, ..o }),
{
}

// ---------------------------------------------------------------------------
// Ordering by profit

/// `p` may stay ahead of `x` when ordering by profit, best first.
pub open spec fn keeps_ahead(p: ArbitrageOpportunity, x: ArbitrageOpportunity) -> bool {
    p.profit_bps.val() >= x.profit_bps.val()
}

/// `x` inserted into a list ordered by profit after every opportunity it
/// need not precede.
pub open spec fn insert_by_profit(sorted: Seq<ArbitrageOpportunity>, x: ArbitrageOpportunity) -> Seq<
    ArbitrageOpportunity,
>
    decreases sorted.len(),
{
    if sorted.len() == 0 {
        seq![x]
    } else if keeps_ahead(sorted.last(), x) {
        sorted.push(x)
    } else {
        insert_by_profit(sorted.drop_last(), x).push(sorted.last())
    }
}

/// The opportunities ordered by profit in basis points, best first, equal
/// profits in the order given: what a stable sort gives.
pub open spec fn sort_by_profit(s: Seq<ArbitrageOpportunity>) -> Seq<ArbitrageOpportunity>
    decreases s.len(),
{
    if s.len() == 0 {
        s
    } else {
        insert_by_profit(sort_by_profit(s.drop_last()), s.last())
    }
}

/// Every opportunity may stay ahead of every later one.
pub open spec fn profit_ordered(s: Seq<ArbitrageOpportunity>) -> bool {
    forall|i: int, j: int| 0 <= i < j < s.len() ==> keeps_ahead(s[i], s[j])
}

proof fn lemma_insert_past(a: Seq<ArbitrageOpportunity>, b: Seq<ArbitrageOpportunity>, x: ArbitrageOpportunity)
    requires
        forall|k: int| 0 <= k < b.len() ==> !keeps_ahead(#[trigger] b[k], x),
    ensures
        insert_by_profit(a + b, x) == insert_by_profit(a, x) + b,
    decreases b.len(),
{
    if b.len() == 0 {
        assert(a + b == a);
    } else {
        let ab = a + b;
        assert(ab.last() == b.last());
        assert(ab.drop_last() == a + b.drop_last());
        lemma_insert_past(a, b.drop_last(), x);
        assert(insert_by_profit(a, x) + b == (insert_by_profit(a, x) + b.drop_last()).push(
            b.last(),
        ));
    }
}

proof fn lemma_insert_ordered(s: Seq<ArbitrageOpportunity>, x: ArbitrageOpportunity)
    requires
        profit_ordered(s),
    ensures
        profit_ordered(insert_by_profit(s, x)),
        insert_by_profit(s, x).to_multiset() == s.to_multiset().insert(x),
    decreases s.len(),
{
    broadcast use vstd::seq_lib::group_to_multiset_ensures;

    if s.len() == 0 {
        assert(seq![x] == s.push(x));
    } else if keeps_ahead(s.last(), x) {
        let r = s.push(x);
        assert forall|i: int, j: int| 0 <= i < j < r.len() implies keeps_ahead(r[i], r[j]) by {
            if j == s.len() && i < s.len() - 1 {
                assert(keeps_ahead(s[i], s[s.len() - 1]));
            }
        }
    } else {
        let p = s.drop_last();
        lemma_insert_ordered(p, x);
        let q = insert_by_profit(p, x);
        let r = q.push(s.last());
        assert(s == p.push(s.last()));
        assert forall|i: int, j: int| 0 <= i < j < r.len() implies keeps_ahead(r[i], r[j]) by {
            if j == q.len() {
                assert(q.to_multiset().count(r[i]) > 0) by {
                    assert(q.contains(r[i]));
                }
                if r[i] != x {
                    assert(p.to_multiset().count(r[i]) > 0);
                    assert(p.contains(r[i]));
                    let k = choose|k: int| 0 <= k < p.len() && p[k] == r[i];
                    assert(keeps_ahead(s[k], s[s.len() - 1]));
                }
            }
        }
    }
}

/// Ordering by profit puts the best first and keeps every opportunity.
pub proof fn lemma_sort_by_profit(s: Seq<ArbitrageOpportunity>)
    ensures
        profit_ordered(sort_by_profit(s)),
        sort_by_profit(s).to_multiset() == s.to_multiset(),
    decreases s.len(),
{
    broadcast use vstd::seq_lib::group_to_multiset_ensures;

    if s.len() > 0 {
        lemma_sort_by_profit(s.drop_last());
        lemma_insert_ordered(sort_by_profit(s.drop_last()), s.last());
        assert(s == s.drop_last().push(s.last()));
    }
}

fn keeps_ahead_exec(p: &ArbitrageOpportunity, x: &ArbitrageOpportunity) -> (r: bool)
    ensures
        r == keeps_ahead(*p, *x),
{
    p.profit_bps.ge(&x.profit_bps)
}

/// The opportunities ordered by profit, best first, keeping the order of
/// equal profits.
pub fn sort_opportunities(v: Vec<ArbitrageOpportunity>) -> (r: Vec<ArbitrageOpportunity>)
    ensures
        r@ == sort_by_profit(v@),
{
    let mut out: Vec<ArbitrageOpportunity> = Vec::new();
    let n = v.len();
    let mut i: usize = 0;
    while i < n
        invariant
            0 <= i <= n,
            n == v@.len(),
            out@ == sort_by_profit(v@.subrange(0, i as int)),
        decreases n - i,
    {
        let x = v[i].clone();
        let mut k: usize = out.len();
        while k > 0 && !keeps_ahead_exec(&out[k - 1], &x)
            invariant
                0 <= k <= out@.len(),
                forall|m: int| k <= m < out@.len() ==> !keeps_ahead(#[trigger] out@[m], x),
            decreases k,
        {
            k = k - 1;
        }
        proof {
            let a = out@.subrange(0, k as int);
            let b = out@.subrange(k as int, out@.len() as int);
            assert(out@ =~= a + b);
            lemma_insert_past(a, b, x);
            if k > 0 {
                assert(a.last() == out@[k - 1]);
                assert(insert_by_profit(a, x) == a.push(x));
            } else {
                assert(a.len() == 0);
                assert(insert_by_profit(a, x) == seq![x]);
            }
            let o = v@.subrange(0, i as int + 1);
            assert(o.drop_last() =~= v@.subrange(0, i as int));
            assert(o.last() == x);
        }
        let ghost before = out@;
        out.insert(k, x);
        proof {
            let a = before.subrange(0, k as int);
            let b = before.subrange(k as int, before.len() as int);
            assert(out@ =~= a.push(x) + b);
        }
        i = i + 1;
    }
    assert(v@.subrange(0, n as int) =~= v@);
    out
}

// ---------------------------------------------------------------------------
// Scanning every pair of venues

/// The candidate between two venues given the manager's books, when both
/// have a book for the symbol.
pub open spec fn venue_candidate(
    mgr: OrderBookManager,
    obv: OrderBookValidator,
    lv: LiquidityValidator,
    buy_exchange: Exchange,
    sell_exchange: Exchange,
    symbol: Symbol,
    cfg: ArbitrageConfig,
    now_ns: u64,
) -> Option<ArbitrageOpportunity> {
    match (mgr.book_for(buy_exchange, symbol), mgr.book_for(sell_exchange, symbol)) {
        (Some(b), Some(s)) => validated_pair(
            b,
            s,
            obv,
            lv,
            buy_exchange,
            sell_exchange,
            symbol,
            cfg,
            now_ns,
        ),
        _ => None,
    }
}

pub open spec fn venue_candidate_ok(
    mgr: OrderBookManager,
    obv: OrderBookValidator,
    lv: LiquidityValidator,
    buy_exchange: Exchange,
    sell_exchange: Exchange,
    symbol: Symbol,
    cfg: ArbitrageConfig,
    now_ns: u64,
    inventory: Option<InventoryManager>,
) -> bool {
    &&& match (mgr.book_for(buy_exchange, symbol), mgr.book_for(sell_exchange, symbol)) {
        (Some(b), Some(s)) => validated_ok(b, s, obv, lv, buy_exchange, sell_exchange, cfg, now_ns),
        _ => true,
    }
    &&& (venue_candidate(mgr, obv, lv, buy_exchange, sell_exchange, symbol, cfg, now_ns) matches Some(
        o,
    ) ==> inventory_ok(inventory, o, symbol))
}

/// The opportunity as a sequence of at most one element.
pub open spec fn opt_seq(o: Option<ArbitrageOpportunity>) -> Seq<ArbitrageOpportunity> {
    match o {
        Some(x) => seq![x],
        None => Seq::empty(),
    }
}

/// The candidates between venue `i` and the venues `i+1 .. j`, each pair
/// checked in both directions.
pub open spec fn candidate_row(
    mgr: OrderBookManager,
    obv: OrderBookValidator,
    lv: LiquidityValidator,
    venues: Seq<Exchange>,
    symbol: Symbol,
    cfg: ArbitrageConfig,
    now_ns: u64,
    i: int,
    j: int,
) -> Seq<ArbitrageOpportunity>
    decreases j - i,
{
    if j <= i + 1 {
        Seq::empty()
    } else {
        candidate_row(mgr, obv, lv, venues, symbol, cfg, now_ns, i, j - 1) + opt_seq(
            venue_candidate(mgr, obv, lv, venues[i], venues[j - 1], symbol, cfg, now_ns),
        ) + opt_seq(venue_candidate(mgr, obv, lv, venues[j - 1], venues[i], symbol, cfg, now_ns))
    }
}

/// The candidates between every pair of the first venues up to `i`, in the
/// order a scan meets them.
pub open spec fn candidate_rows(
    mgr: OrderBookManager,
    obv: OrderBookValidator,
    lv: LiquidityValidator,
    venues: Seq<Exchange>,
    symbol: Symbol,
    cfg: ArbitrageConfig,
    now_ns: u64,
    i: int,
) -> Seq<ArbitrageOpportunity>
    decreases i,
{
    if i <= 0 {
        Seq::empty()
    } else {
        candidate_rows(mgr, obv, lv, venues, symbol, cfg, now_ns, i - 1) + candidate_row(
            mgr,
            obv,
            lv,
            venues,
            symbol,
            cfg,
            now_ns,
            i - 1,
            venues.len() as int,
        )
    }
}

/// Enhanced arbitrage detector with comprehensive validation
pub struct EnhancedArbitrageDetector {
    config: ArbitrageConfig,
    orderbook_manager: OrderBookManager,
    orderbook_validator: OrderBookValidator,
    liquidity_validator: LiquidityValidator,
    deduplicator: OpportunityDeduplicator,
    inventory_manager: Option<InventoryManager>,
}

impl EnhancedArbitrageDetector {
    pub closed spec fn spec_config(&self) -> ArbitrageConfig {
        self.config
    }

    pub closed spec fn spec_manager(&self) -> OrderBookManager {
        self.orderbook_manager
    }

    pub closed spec fn spec_book_validator(&self) -> OrderBookValidator {
        self.orderbook_validator
    }

    pub closed spec fn spec_liquidity_validator(&self) -> LiquidityValidator {
        self.liquidity_validator
    }

    pub closed spec fn spec_deduplicator(&self) -> OpportunityDeduplicator {
        self.deduplicator
    }

    pub closed spec fn spec_inventory(&self) -> Option<InventoryManager> {
        self.inventory_manager
    }

    /// Every pair of enabled venues can be checked without overflow at
    /// `now_ns`.
    pub open spec fn scan_ok(&self, symbol: Symbol, now_ns: u64) -> bool {
        let venues = self.spec_config().enabled_exchanges@;
        forall|i: int, j: int|
            0 <= i < venues.len() && 0 <= j < venues.len() ==> venue_candidate_ok(
                self.spec_manager(),
                self.spec_book_validator(),
                self.spec_liquidity_validator(),
                #[trigger] venues[i],
                #[trigger] venues[j],
                symbol,
                self.spec_config(),
                now_ns,
                self.spec_inventory(),
            )
    }

    /// The candidates of a scan at `now_ns`, before deduplication and the
    /// inventory check.
    pub open spec fn candidates(&self, symbol: Symbol, now_ns: u64) -> Seq<ArbitrageOpportunity> {
        candidate_rows(
            self.spec_manager(),
            self.spec_book_validator(),
            self.spec_liquidity_validator(),
            self.spec_config().enabled_exchanges@,
            symbol,
            self.spec_config(),
            now_ns,
            self.spec_config().enabled_exchanges@.len() as int,
        )
    }

    /// The candidates screened against the deduplicator and the inventory.
    pub open spec fn screened(&self, symbol: Symbol, now_ns: u64, clock_ns: u64) -> (
        Seq<ArbitrageOpportunity>,
        Map<FingerprintKey, u64>,
    ) {
        screen(
            self.candidates(symbol, now_ns),
            self.spec_deduplicator().spec_seen(),
            symbol,
            clock_ns,
            self.spec_deduplicator().cooldown_ns(),
            self.spec_inventory(),
        )
    }

    /// With the institutional validators and deduplicator, and no inventory.
    pub fn new(config: ArbitrageConfig, orderbook_manager: OrderBookManager) -> (r:
        EnhancedArbitrageDetector)
        ensures
            r.spec_config() == config,
            r.spec_manager() == orderbook_manager,
            r.spec_book_validator().spec_max_age_ms() == 1000,
            r.spec_book_validator().spec_min_depth() == 5,
            r.spec_book_validator().spec_max_spread_bps() == Dec::literal(100, 0),
            r.spec_liquidity_validator().spec_min_depth_levels() == 10,
            r.spec_liquidity_validator().spec_min_total_liquidity() == Dec::literal(100000, 0),
            r.spec_liquidity_validator().spec_max_slippage_bps() == Dec::literal(20, 0),
            r.spec_deduplicator().spec_seen().len() == 0,
            r.spec_deduplicator().spec_cooldown_ms() == 5000,
            r.spec_inventory() is None,
    {
        EnhancedArbitrageDetector {
            config,
            orderbook_manager,
            orderbook_validator: OrderBookValidator::institutional(),
            liquidity_validator: LiquidityValidator::institutional(),
            deduplicator: OpportunityDeduplicator::institutional(),
            inventory_manager: None,
        }
    }

    /// The same detector, checking opportunities against `inventory_manager`.
    pub fn with_inventory_manager(self, inventory_manager: InventoryManager) -> (r:
        EnhancedArbitrageDetector)
        ensures
            r.spec_inventory() == Some(inventory_manager),
            r.spec_config() == self.spec_config(),
            r.spec_manager() == self.spec_manager(),
            r.spec_book_validator() == self.spec_book_validator(),
            r.spec_liquidity_validator() == self.spec_liquidity_validator(),
            r.spec_deduplicator() == self.spec_deduplicator(),
    {
        let mut s = self;
        s.inventory_manager = Some(inventory_manager);
        s
    }

    /// The order books the detector scans.
    pub fn orderbook_manager(&self) -> (r: &OrderBookManager)
        ensures
            *r == self.spec_manager(),
    {
        &self.orderbook_manager
    }

    /// The order books, for updating.
    pub fn orderbook_manager_mut(&mut self) -> (r: &mut OrderBookManager)
        ensures
            *r == old(self).spec_manager(),
            final(self).spec_manager() == *final(r),
            final(self).spec_config() == old(self).spec_config(),
            final(self).spec_book_validator() == old(self).spec_book_validator(),
            final(self).spec_liquidity_validator() == old(self).spec_liquidity_validator(),
            final(self).spec_deduplicator() == old(self).spec_deduplicator(),
            final(self).spec_inventory() == old(self).spec_inventory(),
    {
        &mut self.orderbook_manager
    }

    /// Scan for arbitrage opportunities with comprehensive validation, at
    /// the current time.
    pub fn scan_opportunities(&mut self, symbol: &Symbol) -> (r: Vec<ArbitrageOpportunity>)
        requires
            forall|now_ns: u64| old(self).scan_ok(*symbol, now_ns),
        ensures
            exists|now_ns: u64, clock_ns: u64|
                {
                    &&& r@ == sort_by_profit(old(self).screened(*symbol, now_ns, clock_ns).0)
                    &&& final(self).spec_deduplicator().spec_seen() == old(self).screened(
                        *symbol,
                        now_ns,
                        clock_ns,
                    ).1
                },
            final(self).spec_deduplicator().spec_cooldown_ms()
                == old(self).spec_deduplicator().spec_cooldown_ms(),
            final(self).spec_config() == old(self).spec_config(),
            final(self).spec_manager() == old(self).spec_manager(),
            final(self).spec_book_validator() == old(self).spec_book_validator(),
            final(self).spec_liquidity_validator() == old(self).spec_liquidity_validator(),
            final(self).spec_inventory() == old(self).spec_inventory(),
    {
        let now_ns = Timestamp::now().as_nanos();
        let clock_ns = self.deduplicator.clock_now();
        self.scan_opportunities_at(symbol, now_ns, clock_ns)
    }

    /// Scan at `now_ns` (wall clock, for the books' freshness and the
    /// opportunities' times) and `clock_ns` (the deduplicator's monotonic
    /// clock): every pair of enabled venues in order, each checked in both
    /// directions; the candidates screened against the deduplicator (which
    /// remembers them) and the inventory; the survivors ordered by profit,
    /// best first.
    #[verifier::rlimit(40)]
    pub fn scan_opportunities_at(&mut self, symbol: &Symbol, now_ns: u64, clock_ns: u64) -> (r: Vec<
        ArbitrageOpportunity,
    >)
        requires
            old(self).scan_ok(*symbol, now_ns),
        ensures
            r@ == sort_by_profit(old(self).screened(*symbol, now_ns, clock_ns).0),
            profit_ordered(r@),
            r@.to_multiset() == old(self).screened(*symbol, now_ns, clock_ns).0.to_multiset(),
            forall|k: int|
                0 <= k < r@.len() ==> position_capped(
                    #[trigger] r@[k],
                    old(self).spec_config().max_position_size,
                ),
            final(self).spec_deduplicator().spec_seen() == old(self).screened(*symbol, now_ns, clock_ns).1,
            final(self).spec_deduplicator().spec_cooldown_ms()
                == old(self).spec_deduplicator().spec_cooldown_ms(),
            final(self).spec_config() == old(self).spec_config(),
            final(self).spec_manager() == old(self).spec_manager(),
            final(self).spec_book_validator() == old(self).spec_book_validator(),
            final(self).spec_liquidity_validator() == old(self).spec_liquidity_validator(),
            final(self).spec_inventory() == old(self).spec_inventory(),
    {
        let venues = self.config.clone().enabled_exchanges;
        let n = venues.len();
        let ghost mgr = self.spec_manager();
        let ghost cfg = self.spec_config();
        let ghost obv = self.spec_book_validator();
        let ghost lv = self.spec_liquidity_validator();
        let ghost inv = self.spec_inventory();
        let ghost seen0 = self.spec_deduplicator().spec_seen();
        let ghost cd = self.spec_deduplicator().cooldown_ns();
        let ghost start = *old(self);
        let mut opportunities: Vec<ArbitrageOpportunity> = Vec::new();
        let mut i: usize = 0;
        assert(screen(Seq::empty(), seen0, *symbol, clock_ns, cd, inv).0 =~= Seq::<
            ArbitrageOpportunity,
        >::empty());
        while i < n
            invariant
                0 <= i <= n,
                n == venues@.len(),
                venues@ == cfg.enabled_exchanges@,
                mgr == self.spec_manager(),
                cfg == self.spec_config(),
                obv == self.spec_book_validator(),
                lv == self.spec_liquidity_validator(),
                inv == self.spec_inventory(),
                cd == self.spec_deduplicator().cooldown_ns(),
                self.spec_deduplicator().spec_cooldown_ms() == start.spec_deduplicator().spec_cooldown_ms(),
                mgr == start.spec_manager(),
                cfg == start.spec_config(),
                obv == start.spec_book_validator(),
                lv == start.spec_liquidity_validator(),
                inv == start.spec_inventory(),
                seen0 == start.spec_deduplicator().spec_seen(),
                start.scan_ok(*symbol, now_ns),
                forall|k: int|
                    0 <= k < opportunities@.len() ==> position_capped(
                        #[trigger] opportunities@[k],
                        cfg.max_position_size,
                    ),
                (opportunities@, self.spec_deduplicator().spec_seen()) == screen(
                    candidate_rows(mgr, obv, lv, venues@, *symbol, cfg, now_ns, i as int),
                    seen0,
                    *symbol,
                    clock_ns,
                    cd,
                    inv,
                ),
            decreases n - i,
        {
            let buy_exchange = venues[i];
            let mut j: usize = i + 1;
            let ghost before = candidate_rows(mgr, obv, lv, venues@, *symbol, cfg, now_ns, i as int);
            while j < n
                invariant
                    i < n,
                    i + 1 <= j <= n,
                    n == venues@.len(),
                    venues@ == cfg.enabled_exchanges@,
                    mgr == self.spec_manager(),
                    cfg == self.spec_config(),
                    obv == self.spec_book_validator(),
                    lv == self.spec_liquidity_validator(),
                    inv == self.spec_inventory(),
                    cd == self.spec_deduplicator().cooldown_ns(),
                    self.spec_deduplicator().spec_cooldown_ms() == start.spec_deduplicator().spec_cooldown_ms(),
                    mgr == start.spec_manager(),
                    cfg == start.spec_config(),
                    obv == start.spec_book_validator(),
                    lv == start.spec_liquidity_validator(),
                    inv == start.spec_inventory(),
                    seen0 == start.spec_deduplicator().spec_seen(),
                    start.scan_ok(*symbol, now_ns),
                    forall|k: int|
                        0 <= k < opportunities@.len() ==> position_capped(
                            #[trigger] opportunities@[k],
                            cfg.max_position_size,
                        ),
                    buy_exchange == venues@[i as int],
                    before == candidate_rows(mgr, obv, lv, venues@, *symbol, cfg, now_ns, i as int),
                    (opportunities@, self.spec_deduplicator().spec_seen()) == screen(
                        before + candidate_row(
                            mgr,
                            obv,
                            lv,
                            venues@,
                            *symbol,
                            cfg,
                            now_ns,
                            i as int,
                            j as int,
                        ),
                        seen0,
                        *symbol,
                        clock_ns,
                        cd,
                        inv,
                    ),
                decreases n - j,
            {
                let sell_exchange = venues[j];
                let ghost row = candidate_row(
                    mgr,
                    obv,
                    lv,
                    venues@,
                    *symbol,
                    cfg,
                    now_ns,
                    i as int,
                    j as int,
                );
                proof {
                    assert(venue_candidate_ok(
                        mgr,
                        obv,
                        lv,
                        venues@[i as int],
                        venues@[j as int],
                        *symbol,
                        cfg,
                        now_ns,
                        inv,
                    ));
                    assert(venue_candidate_ok(
                        mgr,
                        obv,
                        lv,
                        venues@[j as int],
                        venues@[i as int],
                        *symbol,
                        cfg,
                        now_ns,
                        inv,
                    ));
                }
                let ghost c1 = venue_candidate(mgr, obv, lv, buy_exchange, sell_exchange, *symbol, cfg, now_ns);
                let ghost c2 = venue_candidate(mgr, obv, lv, sell_exchange, buy_exchange, *symbol, cfg, now_ns);
                let first = self.check_pair_with_validation(buy_exchange, sell_exchange, symbol, now_ns, clock_ns);
                if let Some(opp) = first {
                    opportunities.push(opp);
                }
                proof {
                    lemma_screen_step(before + row, c1, seen0, *symbol, clock_ns, cd, inv);
                }
                let second = self.check_pair_with_validation(sell_exchange, buy_exchange, symbol, now_ns, clock_ns);
                if let Some(opp) = second {
                    opportunities.push(opp);
                }
                proof {
                    lemma_screen_step(before + row + opt_seq(c1), c2, seen0, *symbol, clock_ns, cd, inv);
                    assert(before + candidate_row(
                        mgr,
                        obv,
                        lv,
                        venues@,
                        *symbol,
                        cfg,
                        now_ns,
                        i as int,
                        j + 1,
                    ) =~= before + row + opt_seq(c1) + opt_seq(c2));
                }
                j = j + 1;
            }
            proof {
                assert(candidate_rows(mgr, obv, lv, venues@, *symbol, cfg, now_ns, i + 1) =~= before
                    + candidate_row(mgr, obv, lv, venues@, *symbol, cfg, now_ns, i as int, n as int));
            }
            i = i + 1;
        }
        proof {
            lemma_sort_by_profit(opportunities@);
        }
        let ghost found = opportunities@;
        let sorted = sort_opportunities(opportunities);
        proof {
            broadcast use vstd::seq_lib::group_to_multiset_ensures;

            assert forall|k: int| 0 <= k < sorted@.len() implies position_capped(
                #[trigger] sorted@[k],
                cfg.max_position_size,
            ) by {
                let x = sorted@[k];
                assert(sorted@.contains(x));
                assert(sorted@.to_multiset().count(x) > 0);
                assert(found.to_multiset().count(x) > 0);
                assert(found.contains(x));
                let m = choose|m: int| 0 <= m < found.len() && found[m] == x;
                assert(position_capped(found[m], cfg.max_position_size));
            }
        }
        sorted
    }

    /// One pair checked at `now_ns`: the candidate, if any, is checked
    /// against the deduplicator (which remembers it) at `clock_ns` on its
    /// clock, and then the inventory.
    fn check_pair_with_validation(
        &mut self,
        buy_exchange: Exchange,
        sell_exchange: Exchange,
        symbol: &Symbol,
        now_ns: u64,
        clock_ns: u64,
    ) -> (r: Option<ArbitrageOpportunity>)
        requires
            venue_candidate_ok(
                old(self).spec_manager(),
                old(self).spec_book_validator(),
                old(self).spec_liquidity_validator(),
                buy_exchange,
                sell_exchange,
                *symbol,
                old(self).spec_config(),
                now_ns,
                old(self).spec_inventory(),
            ),
        ensures
            ({
                let c = venue_candidate(
                    old(self).spec_manager(),
                    old(self).spec_book_validator(),
                    old(self).spec_liquidity_validator(),
                    buy_exchange,
                    sell_exchange,
                    *symbol,
                    old(self).spec_config(),
                    now_ns,
                );
                let seen = old(self).spec_deduplicator().spec_seen();
                match c {
                    Some(o) => {
                        let (fresh, after) = check_outcome(
                            seen,
                            fingerprint_key(o, *symbol),
                            clock_ns,
                            old(self).spec_deduplicator().cooldown_ns(),
                        );
                        &&& final(self).spec_deduplicator().spec_seen() == after
                        &&& r == if fresh && inventory_allows(old(self).spec_inventory(), o, *symbol) {
                            Some(o)
                        } else {
                            None
                        }
                    },
                    None => {
                        &&& r is None
                        &&& final(self).spec_deduplicator().spec_seen() == seen
                    },
                }
            }),
            r matches Some(o) ==> position_capped(o, old(self).spec_config().max_position_size),
            final(self).spec_deduplicator().spec_cooldown_ms()
                == old(self).spec_deduplicator().spec_cooldown_ms(),
            final(self).spec_config() == old(self).spec_config(),
            final(self).spec_manager() == old(self).spec_manager(),
            final(self).spec_book_validator() == old(self).spec_book_validator(),
            final(self).spec_liquidity_validator() == old(self).spec_liquidity_validator(),
            final(self).spec_inventory() == old(self).spec_inventory(),
    {
        let candidate = self.validated_candidate(buy_exchange, sell_exchange, symbol, now_ns);
        let opportunity = match candidate {
            Some(o) => o,
            None => return None,
        };
        let buy_name = buy_exchange.to_string();
        let sell_name = sell_exchange.to_string();
        let symbol_name = symbol.to_string();
        let fingerprint = OpportunityFingerprint::new(
            buy_name.as_str(),
            sell_name.as_str(),
            symbol_name.as_str(),
            opportunity.buy_price,
            opportunity.sell_price,
        );
        if !self.deduplicator.check_and_mark_at(fingerprint, clock_ns) {
            return None;
        }
        if let Some(inventory_mgr) = &self.inventory_manager {
            if inventory_mgr.can_trade(buy_exchange, sell_exchange, symbol, opportunity.quantity).is_err() {
                return None;
            }
        }
        Some(opportunity)
    }

    /// Validations of one pair, up to the profit check.
    fn validated_candidate(
        &self,
        buy_exchange: Exchange,
        sell_exchange: Exchange,
        symbol: &Symbol,
        now_ns: u64,
    ) -> (r: Option<ArbitrageOpportunity>)
        requires
            venue_candidate_ok(
                self.spec_manager(),
                self.spec_book_validator(),
                self.spec_liquidity_validator(),
                buy_exchange,
                sell_exchange,
                *symbol,
                self.spec_config(),
                now_ns,
                self.spec_inventory(),
            ),
        ensures
            r == venue_candidate(
                self.spec_manager(),
                self.spec_book_validator(),
                self.spec_liquidity_validator(),
                buy_exchange,
                sell_exchange,
                *symbol,
                self.spec_config(),
                now_ns,
            ),
            r matches Some(o) ==> position_capped(o, self.spec_config().max_position_size),
    {
        let config = &self.config;
        let buy_snapshot = match self.orderbook_manager.get_snapshot(buy_exchange, symbol) {
            Some(s) => s,
            None => return None,
        };
        let sell_snapshot = match self.orderbook_manager.get_snapshot(sell_exchange, symbol) {
            Some(s) => s,
            None => return None,
        };
        if !self.orderbook_validator.is_fresh(buy_snapshot.timestamp_ns, now_ns) {
            return None;
        }
        if !self.orderbook_validator.is_fresh(sell_snapshot.timestamp_ns, now_ns) {
            return None;
        }
        if !self.orderbook_validator.has_sufficient_depth(
            buy_snapshot.bids.len(),
            buy_snapshot.asks.len(),
        ) {
            return None;
        }
        if !self.orderbook_validator.has_sufficient_depth(
            sell_snapshot.bids.len(),
            sell_snapshot.asks.len(),
        ) {
            return None;
        }
        let best_ask = match buy_snapshot.best_ask() {
            Some(a) => *a,
            None => return None,
        };
        let best_bid = match sell_snapshot.best_bid() {
            Some(b) => *b,
            None => return None,
        };
        if best_bid.price.le(&best_ask.price) {
            return None;
        }
        if let Some(buy_spread) = buy_snapshot.spread() {
            if let Some(buy_mid) = buy_snapshot.mid_price() {
                if !self.orderbook_validator.is_spread_acceptable(buy_spread, buy_mid) {
                    return None;
                }
            }
        }
        let max_quantity = best_ask.quantity.min(best_bid.quantity);
        let quantity = max_quantity.min(dec_div(config.max_position_size, best_ask.price));
        if !quantity.is_positive() {
            return None;
        }
        proof {
            if best_ask.price.val() > 0 {
                lemma_within_limit(
                    quantity,
                    decimal_quotient(config.max_position_size, best_ask.price),
                    config.max_position_size,
                    best_ask.price,
                );
            }
        }
        if self.liquidity_validator.validate_depth(buy_snapshot.asks.as_slice(), quantity).is_err() {
            return None;
        }
        if self.liquidity_validator.validate_depth(sell_snapshot.bids.as_slice(), quantity).is_err() {
            return None;
        }
        let buy_fee = FeeManager::calculate_fee(buy_exchange, false, quantity, best_ask.price);
        let sell_fee = FeeManager::calculate_fee(sell_exchange, false, quantity, best_bid.price);
        let buy_slippage = estimate_slippage(&buy_snapshot, quantity);
        let sell_slippage = estimate_slippage(&sell_snapshot, quantity);
        let max_slippage = dec_div(config.max_slippage_bps, Dec::from_u64(10000));
        if buy_slippage.gt(&max_slippage) || sell_slippage.gt(&max_slippage) {
            return None;
        }
        let opportunity = ArbitrageOpportunity::new_at(
            symbol.clone(),
            buy_exchange,
            sell_exchange,
            best_ask.price,
            best_bid.price,
            quantity,
            buy_fee,
            sell_fee,
            buy_slippage,
            sell_slippage,
            now_ns,
        );
        let newest = if buy_snapshot.timestamp_ns >= sell_snapshot.timestamp_ns {
            buy_snapshot.timestamp_ns
        } else {
            sell_snapshot.timestamp_ns
        };
        let detection_latency = now_ns.saturating_sub(newest);
        let opportunity = opportunity.with_latency(detection_latency);
        if !opportunity.is_profitable(config.min_profit_bps) {
            return None;
        }
        Some(opportunity)
    }

    pub fn update_config(&mut self, config: ArbitrageConfig)
        ensures
            final(self).spec_config() == config,
            final(self).spec_manager() == old(self).spec_manager(),
            final(self).spec_book_validator() == old(self).spec_book_validator(),
            final(self).spec_liquidity_validator() == old(self).spec_liquidity_validator(),
            final(self).spec_deduplicator() == old(self).spec_deduplicator(),
            final(self).spec_inventory() == old(self).spec_inventory(),
    {
        self.config = config;
    }

    pub fn get_config(&self) -> (r: ArbitrageConfig)
        ensures
            r.min_profit_bps == self.spec_config().min_profit_bps,
            r.max_position_size == self.spec_config().max_position_size,
            r.max_slippage_bps == self.spec_config().max_slippage_bps,
            r.min_liquidity == self.spec_config().min_liquidity,
            r.enabled_exchanges@ == self.spec_config().enabled_exchanges@,
    {
        self.config.clone()
    }

    /// The number of fingerprints the deduplicator holds.
    pub fn get_deduplicator_stats(&self) -> (r: usize)
        ensures
            r == self.spec_deduplicator().spec_seen().len(),
    {
        self.deduplicator.size()
    }

    pub fn clear_deduplicator(&mut self)
        ensures
            final(self).spec_deduplicator().spec_seen().len() == 0,
            final(self).spec_deduplicator().spec_cooldown_ms()
                == old(self).spec_deduplicator().spec_cooldown_ms(),
            final(self).spec_config() == old(self).spec_config(),
            final(self).spec_manager() == old(self).spec_manager(),
            final(self).spec_book_validator() == old(self).spec_book_validator(),
            final(self).spec_liquidity_validator() == old(self).spec_liquidity_validator(),
            final(self).spec_inventory() == old(self).spec_inventory(),
    {
        self.deduplicator.clear();
    }
}

/// Screening one more candidate (or none) continues the screening.
proof fn lemma_screen_step(
    cands: Seq<ArbitrageOpportunity>,
    c: Option<ArbitrageOpportunity>,
    seen: Map<FingerprintKey, u64>,
    symbol: Symbol,
    now_ns: u64,
    cd: int,
    inv: Option<InventoryManager>,
)
    ensures
        screen(cands + opt_seq(c), seen, symbol, now_ns, cd, inv) == match c {
            Some(o) => {
                let prev = screen(cands, seen, symbol, now_ns, cd, inv);
                let (fresh, after) = check_outcome(prev.1, fingerprint_key(o, symbol), now_ns, cd);
                if fresh && inventory_allows(inv, o, symbol) {
                    (prev.0.push(o), after)
                } else {
                    (prev.0, after)
                }
            },
            None => screen(cands, seen, symbol, now_ns, cd, inv),
        },
{
    match c {
        Some(o) => {
            let s = cands + opt_seq(c);
            assert(s.drop_last() =~= cands);
            assert(s.last() == o);
        },
        None => {
            assert(cands + opt_seq(c) =~= cands);
        },
    }
}

} // verus!
