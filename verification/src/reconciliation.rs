//! Tracking order fills locally and reconciling the positions with what the
//! exchanges report.
use vstd::prelude::*;
use vstd::string::StringExecFns;
use crate::decimal::{Dec, dec_add, dec_sub, decimal_sum, decimal_difference, sum_ok, difference_ok, abs};
use crate::timing::Timestamp;
use crate::types::{Exchange, Position, Side, Symbol, same_symbol};

verus! {

#[derive(Clone, Copy, Debug, PartialEq, Eq, Structural)]
pub enum OrderStatus {
    Pending,
    PartiallyFilled,
    Filled,
    Cancelled,
    Failed,
}

#[derive(Debug)]
pub struct PendingOrder {
    pub order_id: String,
    pub side: Side,
    pub quantity: Dec,
    pub filled_quantity: Dec,
    pub status: OrderStatus,
    pub timestamp_ns: u64,
}

impl Clone for PendingOrder {
    fn clone(&self) -> (r: PendingOrder)
        ensures
            r == *self,
    {
        PendingOrder { order_id: self.order_id.clone(), ..*self }
    }
}

#[derive(Debug)]
pub struct TrackedPosition {
    pub position: Position,
    pub pending_orders: Vec<PendingOrder>,
    pub last_reconciled_ns: u64,
    pub reconciliation_errors: u32,
}

#[derive(Debug)]
pub struct PositionDiscrepancy {
    pub exchange: Exchange,
    pub symbol: Symbol,
    pub local_quantity: Dec,
    pub exchange_quantity: Dec,
    pub difference: Dec,
}

#[derive(Debug)]
pub struct ReconciliationReport {
    pub positions_matched: u32,
    pub positions_synced: u32,
    pub discrepancies: Vec<PositionDiscrepancy>,
    pub errors: u32,
}

impl Default for ReconciliationReport {
    fn default() -> (r: ReconciliationReport)
        ensures
            r.positions_matched == 0,
            r.positions_synced == 0,
            r.discrepancies@.len() == 0,
            r.errors == 0,
    {
        ReconciliationReport {
            positions_matched: 0,
            positions_synced: 0,
            discrepancies: Vec::new(),
            errors: 0,
        }
    }
}

#[derive(Debug)]
pub enum ReconciliationError {
    FetchFailed(String),
    PositionNotFound,
}

/// The tracked position is held on `exchange` for `symbol`.
pub open spec fn tracked_matches(t: TrackedPosition, exchange: Exchange, symbol: Symbol) -> bool {
    t.position.exchange == exchange && same_symbol(t.position.symbol, symbol)
}

/// The first tracked position from `i` on held on `exchange` for `symbol`.
pub open spec fn find_tracked(s: Seq<TrackedPosition>, exchange: Exchange, symbol: Symbol, i: int) -> Option<int>
    decreases s.len() - i,
{
    if i < 0 || i >= s.len() {
        None
    } else if tracked_matches(s[i], exchange, symbol) {
        Some(i)
    } else {
        find_tracked(s, exchange, symbol, i + 1)
    }
}

proof fn lemma_find_tracked(s: Seq<TrackedPosition>, exchange: Exchange, symbol: Symbol, i: int)
    requires
        0 <= i,
    ensures
        find_tracked(s, exchange, symbol, i) matches Some(k) ==> i <= k < s.len()
            && tracked_matches(s[k], exchange, symbol),
        find_tracked(s, exchange, symbol, i) is None ==> forall|k: int|
            i <= k < s.len() ==> !tracked_matches(#[trigger] s[k], exchange, symbol),
    decreases s.len() - i,
{
    if i < s.len() {
        lemma_find_tracked(s, exchange, symbol, i + 1);
    }
}

/// No two tracked positions share an exchange and symbol.
pub open spec fn tracked_unique(s: Seq<TrackedPosition>) -> bool {
    forall|i: int, j: int|
        0 <= i < j < s.len() ==> !tracked_matches(
            #[trigger] s[j],
            s[i].position.exchange,
            #[trigger] s[i].position.symbol,
        )
}

/// The first order from `k` on with this id.
pub open spec fn find_order(orders: Seq<PendingOrder>, order_id: Seq<char>, k: int) -> Option<int>
    decreases orders.len() - k,
{
    if k < 0 || k >= orders.len() {
        None
    } else if orders[k].order_id@ == order_id {
        Some(k)
    } else {
        find_order(orders, order_id, k + 1)
    }
}

/// A new order, nothing filled yet.
pub open spec fn new_order(order_id: String, side: Side, quantity: Dec, now_ns: u64) -> PendingOrder {
    PendingOrder {
        order_id,
        side,
        quantity,
        filled_quantity: Dec::literal(0, 0),
        status: OrderStatus::Pending,
        timestamp_ns: now_ns,
    }
}

/// The empty position a first order opens: no quantity, prices or profit,
/// leverage one.
pub open spec fn empty_position(exchange: Exchange, symbol: Symbol) -> Position {
    Position {
        exchange,
        symbol,
        quantity: Dec::literal(0, 0),
        entry_price: Dec::literal(0, 0),
        current_price: Dec::literal(0, 0),
        unrealized_pnl: Dec::literal(0, 0),
        realized_pnl: Dec::literal(0, 0),
        leverage: Dec::literal(1, 0),
    }
}

/// The change a filled order makes to the position's quantity.
pub open spec fn fill_change(o: PendingOrder) -> Dec {
    match o.side {
        Side::Buy => o.quantity,
        Side::Sell => o.quantity.negated(),
    }
}

/// The first position with the symbol among those an exchange reported.
pub open spec fn find_reported(reported: Seq<Position>, symbol: Symbol, k: int) -> Option<int>
    decreases reported.len() - k,
{
    if k < 0 || k >= reported.len() {
        None
    } else if same_symbol(reported[k].symbol, symbol) {
        Some(k)
    } else {
        find_reported(reported, symbol, k + 1)
    }
}

proof fn lemma_find_reported(reported: Seq<Position>, symbol: Symbol, k: int)
    requires
        0 <= k,
    ensures
        find_reported(reported, symbol, k) matches Some(m) ==> k <= m < reported.len(),
    decreases reported.len() - k,
{
    if k < reported.len() {
        lemma_find_reported(reported, symbol, k + 1);
    }
}

/// The largest difference between local and reported quantities taken for a
/// match: 0.000001.
pub open spec fn tolerance() -> Dec {
    Dec::literal(1, 6)
}

/// Tracks order fills and reconciles with exchange state
pub struct PositionReconciler {
    local_positions: Vec<TrackedPosition>,
    reconciliation_interval_secs: u64,
}

impl PositionReconciler {
    #[verifier::type_invariant]
    spec fn inv(self) -> bool {
        tracked_unique(self.local_positions@)
    }

    /// The tracked positions, in the order first tracked.
    pub closed spec fn spec_tracked(&self) -> Seq<TrackedPosition> {
        self.local_positions@
    }

    pub closed spec fn spec_interval_secs(&self) -> u64 {
        self.reconciliation_interval_secs
    }

    /// The tracked position for this key.
    pub open spec fn tracked_for(&self, exchange: Exchange, symbol: Symbol) -> Option<TrackedPosition> {
        match find_tracked(self.spec_tracked(), exchange, symbol, 0) {
            Some(i) => Some(self.spec_tracked()[i]),
            None => None,
        }
    }

    pub fn new(reconciliation_interval_secs: u64) -> (r: PositionReconciler)
        ensures
            r.spec_tracked().len() == 0,
            r.spec_interval_secs() == reconciliation_interval_secs,
    {
        PositionReconciler { local_positions: Vec::new(), reconciliation_interval_secs }
    }

    /// Reconciles every 30 seconds.
    pub fn institutional() -> (r: PositionReconciler)
        ensures
            r.spec_tracked().len() == 0,
            r.spec_interval_secs() == 30,
    {
        Self::new(30)
    }

    /// Seconds between automatic reconciliations.
    pub fn reconciliation_interval_secs(&self) -> (r: u64)
        ensures
            r == self.spec_interval_secs(),
    {
        self.reconciliation_interval_secs
    }

    /// The number of tracked positions.
    pub fn tracked_count(&self) -> (r: usize)
        ensures
            r == self.spec_tracked().len(),
    {
        self.local_positions.len()
    }

    /// The exchange of the tracked position at `index`.
    pub fn tracked_exchange(&self, index: usize) -> (r: Exchange)
        requires
            index < self.spec_tracked().len(),
        ensures
            r == self.spec_tracked()[index as int].position.exchange,
    {
        self.local_positions[index].position.exchange
    }

    /// The position tracked at `index`.
    pub fn tracked_position(&self, index: usize) -> (r: Position)
        requires
            index < self.spec_tracked().len(),
        ensures
            r == self.spec_tracked()[index as int].position,
    {
        self.local_positions[index].position.clone()
    }

    /// The failed fetches in a row for the position tracked at `index`.
    pub fn tracked_errors(&self, index: usize) -> (r: u32)
        requires
            index < self.spec_tracked().len(),
        ensures
            r == self.spec_tracked()[index as int].reconciliation_errors,
    {
        self.local_positions[index].reconciliation_errors
    }

    fn find(&self, exchange: Exchange, symbol: &Symbol) -> (r: Option<usize>)
        ensures
            r matches Some(i) ==> find_tracked(self.spec_tracked(), exchange, *symbol, 0) == Some(
                i as int,
            ),
            r is None ==> find_tracked(self.spec_tracked(), exchange, *symbol, 0) is None,
    {
        let n = self.local_positions.len();
        let mut i: usize = 0;
        while i < n
            invariant
                0 <= i <= n,
                n == self.spec_tracked().len(),
                find_tracked(self.spec_tracked(), exchange, *symbol, 0) == find_tracked(
                    self.spec_tracked(),
                    exchange,
                    *symbol,
                    i as int,
                ),
            decreases n - i,
        {
            if self.local_positions[i].position.exchange == exchange
                && self.local_positions[i].position.symbol.same(symbol) {
                return Some(i);
            }
            i = i + 1;
        }
        None
    }

    /// Track a new order at the current time.
    pub fn track_order(
        &mut self,
        exchange: Exchange,
        symbol: Symbol,
        order_id: String,
        side: Side,
        quantity: Dec,
    )
        ensures
            exists|now_ns: u64| Self::tracked_order(*old(self), *final(self), exchange, symbol, order_id, side, quantity, now_ns),
    {
        let now = Timestamp::now();
        self.track_order_at(exchange, symbol, order_id, side, quantity, now.as_nanos())
    }

    /// `after` is `before` with the order tracked at `now_ns`: appended to the
    /// orders of the position held for its key, or opening an empty position
    /// with it when none is.
    pub open spec fn tracked_order(
        before: PositionReconciler,
        after: PositionReconciler,
        exchange: Exchange,
        symbol: Symbol,
        order_id: String,
        side: Side,
        quantity: Dec,
        now_ns: u64,
    ) -> bool {
        let s = before.spec_tracked();
        let o = new_order(order_id, side, quantity, now_ns);
        &&& after.spec_interval_secs() == before.spec_interval_secs()
        &&& tracked_unique(after.spec_tracked())
        &&& match find_tracked(s, exchange, symbol, 0) {
            Some(i) => {
                &&& after.spec_tracked().len() == s.len()
                &&& forall|j: int| 0 <= j < s.len() && j != i ==> after.spec_tracked()[j] == s[j]
                &&& after.spec_tracked()[i].position == s[i].position
                &&& after.spec_tracked()[i].pending_orders@ == s[i].pending_orders@.push(o)
                &&& after.spec_tracked()[i].last_reconciled_ns == s[i].last_reconciled_ns
                &&& after.spec_tracked()[i].reconciliation_errors == s[i].reconciliation_errors
            },
            None => {
                &&& after.spec_tracked().len() == s.len() + 1
                &&& after.spec_tracked().subrange(0, s.len() as int) == s
                &&& after.spec_tracked()[s.len() as int].position == empty_position(exchange, symbol)
                &&& after.spec_tracked()[s.len() as int].pending_orders@ == seq![o]
                &&& after.spec_tracked()[s.len() as int].last_reconciled_ns == now_ns
                &&& after.spec_tracked()[s.len() as int].reconciliation_errors == 0
            },
        }
    }

    /// Track a new order at `now_ns`.
    pub fn track_order_at(
        &mut self,
        exchange: Exchange,
        symbol: Symbol,
        order_id: String,
        side: Side,
        quantity: Dec,
        now_ns: u64,
    )
        ensures
            Self::tracked_order(*old(self), *final(self), exchange, symbol, order_id, side, quantity, now_ns),
    {
        proof {
            use_type_invariant(&*self);
            lemma_find_tracked(self.local_positions@, exchange, symbol, 0);
        }
        let ghost s = self.local_positions@;
        let ghost oid = order_id;
        let found = self.find(exchange, &symbol);
        let order = PendingOrder {
            order_id,
            side,
            quantity,
            filled_quantity: Dec::zero(),
            status: OrderStatus::Pending,
            timestamp_ns: now_ns,
        };
        let mut positions = Vec::new();
        std::mem::swap(&mut positions, &mut self.local_positions);
        match found {
            Some(i) => {
                let mut t = positions.remove(i);
                t.pending_orders.push(order);
                positions.insert(i, t);
                proof {
                    assert forall|j: int| 0 <= j < s.len() && j != i implies positions@[j] == s[j] by {
                        if j < i {
                        } else {
                        }
                    }
                    assert forall|a: int, b: int| 0 <= a < b < positions@.len() implies !tracked_matches(
                        #[trigger] positions@[b],
                        positions@[a].position.exchange,
                        #[trigger] positions@[a].position.symbol,
                    ) by {
                        assert(positions@[a].position == s[a].position);
                        assert(positions@[b].position == s[b].position);
                        assert(!tracked_matches(s[b], s[a].position.exchange, s[a].position.symbol));
                    }
                }
            },
            None => {
                let mut orders: Vec<PendingOrder> = Vec::new();
                orders.push(order);
                let t = TrackedPosition {
                    position: Position {
                        exchange,
                        symbol: symbol,
                        quantity: Dec::zero(),
                        entry_price: Dec::zero(),
                        current_price: Dec::zero(),
                        unrealized_pnl: Dec::zero(),
                        realized_pnl: Dec::zero(),
                        leverage: Dec::one(),
                    },
                    pending_orders: orders,
                    last_reconciled_ns: now_ns,
                    reconciliation_errors: 0,
                };
                positions.push(t);
                proof {
                    assert(positions@.subrange(0, s.len() as int) =~= s);
                    assert forall|a: int, b: int| 0 <= a < b < positions@.len() implies !tracked_matches(
                        #[trigger] positions@[b],
                        positions@[a].position.exchange,
                        #[trigger] positions@[a].position.symbol,
                    ) by {
                        if b == s.len() {
                            assert(!tracked_matches(s[a], exchange, symbol));
                        } else {
                            assert(!tracked_matches(s[b], s[a].position.exchange, s[a].position.symbol));
                        }
                    }
                }
            },
        }
        self.local_positions = positions;
    }

    /// `after` is `before` with the order's fill recorded: in the position
    /// held for the key, the first order with the id gets the filled quantity
    /// and status, and a `Filled` status moves the position's quantity by the
    /// order's quantity (up for a buy, down for a sell). Without such a
    /// position or order nothing changes.
    pub open spec fn fill_recorded(
        before: PositionReconciler,
        after: PositionReconciler,
        exchange: Exchange,
        symbol: Symbol,
        order_id: Seq<char>,
        filled_quantity: Dec,
        status: OrderStatus,
    ) -> bool {
        let s = before.spec_tracked();
        &&& after.spec_interval_secs() == before.spec_interval_secs()
        &&& match find_tracked(s, exchange, symbol, 0) {
            Some(i) => match find_order(s[i].pending_orders@, order_id, 0) {
                Some(k) => {
                    let o = s[i].pending_orders@[k];
                    let t = after.spec_tracked()[i];
                    &&& after.spec_tracked().len() == s.len()
                    &&& forall|j: int| 0 <= j < s.len() && j != i ==> after.spec_tracked()[j] == s[j]
                    &&& t.pending_orders@ == s[i].pending_orders@.update(
                        k,
                        PendingOrder { filled_quantity, status, ..o },
                    )
                    &&& t.position == if status == OrderStatus::Filled {
                        Position {
                            quantity: decimal_sum(s[i].position.quantity, fill_change(o)),
                            ..s[i].position
                        }
                    } else {
                        s[i].position
                    }
                    &&& t.last_reconciled_ns == s[i].last_reconciled_ns
                    &&& t.reconciliation_errors == s[i].reconciliation_errors
                },
                None => after.spec_tracked() == s,
            },
            None => after.spec_tracked() == s,
        }
    }

    /// Adding the filled order's quantity to the position does not overflow.
    pub open spec fn fill_ok(&self, exchange: Exchange, symbol: Symbol, order_id: Seq<char>, status: OrderStatus) -> bool {
        let s = self.spec_tracked();
        status == OrderStatus::Filled ==> match find_tracked(s, exchange, symbol, 0) {
            Some(i) => match find_order(s[i].pending_orders@, order_id, 0) {
                Some(k) => sum_ok(s[i].position.quantity, fill_change(s[i].pending_orders@[k])),
                None => true,
            },
            None => true,
        }
    }

    /// Update order fill status
    pub fn update_order_fill(
        &mut self,
        exchange: Exchange,
        symbol: &Symbol,
        order_id: &str,
        filled_quantity: Dec,
        status: OrderStatus,
    )
        requires
            old(self).fill_ok(exchange, *symbol, order_id@, status),
        ensures
            Self::fill_recorded(*old(self), *final(self), exchange, *symbol, order_id@, filled_quantity, status),
    {
        proof {
            use_type_invariant(&*self);
            lemma_find_tracked(self.local_positions@, exchange, *symbol, 0);
        }
        let ghost s = self.local_positions@;
        let i = match self.find(exchange, symbol) {
            Some(i) => i,
            None => return,
        };
        let k = match find_order_index(&self.local_positions[i].pending_orders, order_id) {
            Some(k) => k,
            None => return,
        };
        let mut positions = Vec::new();
        std::mem::swap(&mut positions, &mut self.local_positions);
        let mut t = positions.remove(i);
        let ghost t0 = t;
        let mut order = t.pending_orders.remove(k);
        let ghost o = order;
        order.filled_quantity = filled_quantity;
        order.status = status;
        if order.status == OrderStatus::Filled {
            let qty_change = match order.side {
                Side::Buy => order.quantity,
                Side::Sell => order.quantity.neg(),
            };
            t.position.quantity = dec_add(t.position.quantity, qty_change);
        }
        t.pending_orders.insert(k, order);
        proof {
            assert(t.pending_orders@ =~= t0.pending_orders@.update(
                k as int,
                PendingOrder { filled_quantity, status, ..o },
            ));
        }
        positions.insert(i, t);
        proof {
            assert forall|j: int| 0 <= j < s.len() && j != i implies positions@[j] == s[j] by {
                if j < i {
                } else {
                }
            }
            assert forall|a: int, b: int| 0 <= a < b < positions@.len() implies !tracked_matches(
                #[trigger] positions@[b],
                positions@[a].position.exchange,
                #[trigger] positions@[a].position.symbol,
            ) by {
                assert(positions@[a].position.exchange == s[a].position.exchange);
                assert(positions@[a].position.symbol == s[a].position.symbol);
                assert(positions@[b].position.exchange == s[b].position.exchange);
                assert(positions@[b].position.symbol == s[b].position.symbol);
                assert(!tracked_matches(s[b], s[a].position.exchange, s[a].position.symbol));
            }
        }
        self.local_positions = positions;
    }

    /// `after` and `report_after` are `before` and `report` once the tracked
    /// position at `index` is reconciled with what its exchange reported
    /// (`Err` when the positions could not be fetched). A position reported
    /// for the same symbol is matched when the quantities differ by at most
    /// the tolerance; otherwise the difference is reported and the local
    /// quantity, entry price and unrealized profit are taken from the
    /// exchange. A successful fetch records the time and clears the error
    /// count; a failed one counts an error.
    pub open spec fn reconciled(
        before: PositionReconciler,
        after: PositionReconciler,
        report: ReconciliationReport,
        report_after: ReconciliationReport,
        index: int,
        fetched: Result<Vec<Position>, String>,
        now_ns: u64,
    ) -> bool {
        let s = before.spec_tracked();
        let t = s[index];
        let u = after.spec_tracked()[index];
        &&& after.spec_interval_secs() == before.spec_interval_secs()
        &&& after.spec_tracked().len() == s.len()
        &&& forall|j: int| 0 <= j < s.len() && j != index ==> after.spec_tracked()[j] == s[j]
        &&& u.pending_orders == t.pending_orders
        &&& match fetched {
            Ok(reported) => {
                &&& u.last_reconciled_ns == now_ns
                &&& u.reconciliation_errors == 0
                &&& report_after.errors == report.errors
                &&& match find_reported(reported@, t.position.symbol, 0) {
                    Some(m) => {
                        let p = reported@[m];
                        let local = t.position.quantity;
                        let difference = decimal_difference(local, p.quantity);
                        if abs(difference.val()) > tolerance().val() {
                            &&& u.position == Position {
                                quantity: p.quantity,
                                entry_price: p.entry_price,
                                unrealized_pnl: p.unrealized_pnl,
                                ..t.position
                            }
                            &&& report_after.discrepancies@ == report.discrepancies@.push(
                                PositionDiscrepancy {
                                    exchange: t.position.exchange,
                                    symbol: t.position.symbol,
                                    local_quantity: local,
                                    exchange_quantity: p.quantity,
                                    difference,
                                },
                            )
                            &&& report_after.positions_synced == report.positions_synced + 1
                            &&& report_after.positions_matched == report.positions_matched
                        } else {
                            &&& u.position == t.position
                            &&& report_after.discrepancies@ == report.discrepancies@
                            &&& report_after.positions_synced == report.positions_synced
                            &&& report_after.positions_matched == report.positions_matched + 1
                        }
                    },
                    None => {
                        &&& u.position == t.position
                        &&& report_after.discrepancies@ == report.discrepancies@
                        &&& report_after.positions_synced == report.positions_synced
                        &&& report_after.positions_matched == report.positions_matched
                    },
                }
            },
            Err(_) => {
                &&& u.position == t.position
                &&& u.last_reconciled_ns == t.last_reconciled_ns
                &&& u.reconciliation_errors == t.reconciliation_errors + 1
                &&& report_after.errors == report.errors + 1
                &&& report_after.discrepancies@ == report.discrepancies@
                &&& report_after.positions_synced == report.positions_synced
                &&& report_after.positions_matched == report.positions_matched
            },
        }
    }

    /// Reconciles the tracked position at `index` with what its exchange
    /// reported.
    pub fn reconcile_position_at(
        &mut self,
        index: usize,
        fetched: Result<Vec<Position>, String>,
        now_ns: u64,
        report: &mut ReconciliationReport,
    )
        requires
            index < old(self).spec_tracked().len(),
            old(report).positions_matched < u32::MAX,
            old(report).positions_synced < u32::MAX,
            old(report).errors < u32::MAX,
            old(self).spec_tracked()[index as int].reconciliation_errors < u32::MAX,
            fetched matches Ok(reported) ==> (find_reported(
                reported@,
                old(self).spec_tracked()[index as int].position.symbol,
                0,
            ) matches Some(m) ==> difference_ok(
                old(self).spec_tracked()[index as int].position.quantity,
                reported@[m].quantity,
            )),
        ensures
            Self::reconciled(*old(self), *final(self), *old(report), *final(report), index as int, fetched, now_ns),
    {
        proof {
            use_type_invariant(&*self);
        }
        let ghost s = self.local_positions@;
        let mut positions = Vec::new();
        std::mem::swap(&mut positions, &mut self.local_positions);
        let mut t = positions.remove(index);
        let ghost t0 = t;
        match fetched {
            Ok(reported) => {
                t.last_reconciled_ns = now_ns;
                match find_reported_index(&reported, &t.position.symbol) {
                    Some(m) => {
                        let local_qty = t.position.quantity;
                        let exchange_qty = reported[m].quantity;
                        let difference = dec_sub(local_qty, exchange_qty);
                        proof {
                            use_type_invariant(&difference);
                            difference.lemma_well_formed();
                            difference.lemma_magnitude();
                        }
                        if difference.abs().gt(&Dec::new(1, 6)) {
                            report.discrepancies.push(
                                PositionDiscrepancy {
                                    exchange: t.position.exchange,
                                    symbol: t.position.symbol.clone(),
                                    local_quantity: local_qty,
                                    exchange_quantity: exchange_qty,
                                    difference,
                                },
                            );
                            t.position.quantity = exchange_qty;
                            t.position.entry_price = reported[m].entry_price;
                            t.position.unrealized_pnl = reported[m].unrealized_pnl;
                            report.positions_synced = report.positions_synced + 1;
                        } else {
                            report.positions_matched = report.positions_matched + 1;
                        }
                    },
                    None => {},
                }
                t.reconciliation_errors = 0;
            },
            Err(_) => {
                t.reconciliation_errors = t.reconciliation_errors + 1;
                report.errors = report.errors + 1;
            },
        }
        positions.insert(index, t);
        proof {
            assert forall|j: int| 0 <= j < s.len() && j != index implies positions@[j] == s[j] by {
                if j < index {
                } else {
                }
            }
            assert forall|a: int, b: int| 0 <= a < b < positions@.len() implies !tracked_matches(
                #[trigger] positions@[b],
                positions@[a].position.exchange,
                #[trigger] positions@[a].position.symbol,
            ) by {
                assert(positions@[a].position.exchange == s[a].position.exchange);
                assert(positions@[a].position.symbol == s[a].position.symbol);
                assert(positions@[b].position.exchange == s[b].position.exchange);
                assert(positions@[b].position.symbol == s[b].position.symbol);
                assert(!tracked_matches(s[b], s[a].position.exchange, s[a].position.symbol));
            }
        }
        self.local_positions = positions;
    }

    /// Get current tracked position
    pub fn get_position(&self, exchange: Exchange, symbol: &Symbol) -> (r: Option<Position>)
        ensures
            r == match self.tracked_for(exchange, *symbol) {
                Some(t) => Some(t.position),
                None => None::<Position>,
            },
    {
        proof {
            lemma_find_tracked(self.local_positions@, exchange, *symbol, 0);
        }
        match self.find(exchange, symbol) {
            Some(i) => Some(self.local_positions[i].position.clone()),
            None => None,
        }
    }

    /// Get pending orders for a position; none when it is not tracked.
    pub fn get_pending_orders(&self, exchange: Exchange, symbol: &Symbol) -> (r: Vec<PendingOrder>)
        ensures
            r@ == match self.tracked_for(exchange, *symbol) {
                Some(t) => t.pending_orders@,
                None => Seq::<PendingOrder>::empty(),
            },
    {
        proof {
            lemma_find_tracked(self.local_positions@, exchange, *symbol, 0);
        }
        match self.find(exchange, symbol) {
            Some(i) => {
                let orders = &self.local_positions[i].pending_orders;
                let mut v: Vec<PendingOrder> = Vec::new();
                let mut k: usize = 0;
                while k < orders.len()
                    invariant
                        0 <= k <= orders@.len(),
                        v@ == orders@.subrange(0, k as int),
                    decreases orders@.len() - k,
                {
                    v.push(orders[k].clone());
                    k = k + 1;
                    assert(v@ =~= orders@.subrange(0, k as int));
                }
                assert(orders@.subrange(0, orders@.len() as int) =~= orders@);
                v
            },
            None => Vec::new(),
        }
    }
}

/// The index of the first order with this id.
fn find_order_index(orders: &Vec<PendingOrder>, order_id: &str) -> (r: Option<usize>)
    ensures
        r matches Some(k) ==> find_order(orders@, order_id@, 0) == Some(k as int) && k
            < orders@.len(),
        r is None ==> find_order(orders@, order_id@, 0) is None,
{
    let target = String::from_str(order_id);
    let n = orders.len();
    let mut k: usize = 0;
    while k < n
        invariant
            0 <= k <= n,
            n == orders@.len(),
            target@ == order_id@,
            find_order(orders@, order_id@, 0) == find_order(orders@, order_id@, k as int),
        decreases n - k,
    {
        if orders[k].order_id == target {
            return Some(k);
        }
        k = k + 1;
    }
    None
}

/// The index of the first reported position with this symbol.
fn find_reported_index(reported: &Vec<Position>, symbol: &Symbol) -> (r: Option<usize>)
    ensures
        r matches Some(m) ==> find_reported(reported@, *symbol, 0) == Some(m as int) && m
            < reported@.len(),
        r is None ==> find_reported(reported@, *symbol, 0) is None,
{
    let n = reported.len();
    let mut k: usize = 0;
    while k < n
        invariant
            0 <= k <= n,
            n == reported@.len(),
            find_reported(reported@, *symbol, 0) == find_reported(reported@, *symbol, k as int),
        decreases n - k,
    {
        if reported[k].symbol.same(symbol) {
            return Some(k);
        }
        k = k + 1;
    }
    None
}

proof fn lemma_find_tracked_same(
    bs: Seq<TrackedPosition>,
    as_: Seq<TrackedPosition>,
    e: Exchange,
    s: Symbol,
    k: int,
)
    requires
        0 <= k,
        bs.len() == as_.len(),
        forall|j: int|
            0 <= j < bs.len() ==> tracked_matches(#[trigger] as_[j], e, s) == tracked_matches(
                bs[j],
                e,
                s,
            ),
    ensures
        find_tracked(as_, e, s, k) == find_tracked(bs, e, s, k),
    decreases bs.len() - k,
{
    if k < bs.len() {
        lemma_find_tracked_same(bs, as_, e, s, k + 1);
    }
}

proof fn lemma_find_tracked_push(
    bs: Seq<TrackedPosition>,
    as_: Seq<TrackedPosition>,
    e: Exchange,
    s: Symbol,
    k: int,
)
    requires
        0 <= k,
        as_.len() == bs.len() + 1,
        as_.subrange(0, bs.len() as int) == bs,
        !tracked_matches(as_[bs.len() as int], e, s),
    ensures
        find_tracked(as_, e, s, k) == find_tracked(bs, e, s, k),
    decreases as_.len() - k,
{
    if k < bs.len() {
        assert(as_[k] == as_.subrange(0, bs.len() as int)[k]);
        assert(as_[k] == bs[k]);
        lemma_find_tracked_push(bs, as_, e, s, k + 1);
    } else if k == bs.len() {
        assert(find_tracked(as_, e, s, k + 1) is None);
    }
}

/// Tracking an order for one exchange and symbol leaves the position
/// tracked for every other exchange and symbol as it was.
pub proof fn lemma_track_keeps_others(
    before: PositionReconciler,
    after: PositionReconciler,
    exchange: Exchange,
    symbol: Symbol,
    order_id: String,
    side: Side,
    quantity: Dec,
    now_ns: u64,
    other_exchange: Exchange,
    other_symbol: Symbol,
)
    requires
        PositionReconciler::tracked_order(
            before,
            after,
            exchange,
            symbol,
            order_id,
            side,
            quantity,
            now_ns,
        ),
        !(other_exchange == exchange && same_symbol(other_symbol, symbol)),
    ensures
        after.tracked_for(other_exchange, other_symbol) == before.tracked_for(
            other_exchange,
            other_symbol,
        ),
{
    let bs = before.spec_tracked();
    let as_ = after.spec_tracked();
    lemma_find_tracked(bs, exchange, symbol, 0);
    lemma_find_tracked(bs, other_exchange, other_symbol, 0);
    match find_tracked(bs, exchange, symbol, 0) {
        Some(i) => {
            assert forall|j: int| 0 <= j < bs.len() implies tracked_matches(
                #[trigger] as_[j],
                other_exchange,
                other_symbol,
            ) == tracked_matches(bs[j], other_exchange, other_symbol) by {
                if j != i {
                    assert(as_[j] == bs[j]);
                }
            }
            lemma_find_tracked_same(bs, as_, other_exchange, other_symbol, 0);
            if find_tracked(bs, other_exchange, other_symbol, 0) == Some(i) {
                assert(tracked_matches(bs[i], exchange, symbol));
                assert(same_symbol(other_symbol, symbol));
            }
        },
        None => {
            lemma_find_tracked_push(bs, as_, other_exchange, other_symbol, 0);
            if let Some(k) = find_tracked(bs, other_exchange, other_symbol, 0) {
                assert(as_[k] == as_.subrange(0, bs.len() as int)[k]);
            }
        },
    }
}

/// Recording a fill for one exchange and symbol leaves the position
/// tracked for every other exchange and symbol as it was.
pub proof fn lemma_fill_keeps_others(
    before: PositionReconciler,
    after: PositionReconciler,
    exchange: Exchange,
    symbol: Symbol,
    order_id: Seq<char>,
    filled_quantity: Dec,
    status: OrderStatus,
    other_exchange: Exchange,
    other_symbol: Symbol,
)
    requires
        PositionReconciler::fill_recorded(
            before,
            after,
            exchange,
            symbol,
            order_id,
            filled_quantity,
            status,
        ),
        !(other_exchange == exchange && same_symbol(other_symbol, symbol)),
    ensures
        after.tracked_for(other_exchange, other_symbol) == before.tracked_for(
            other_exchange,
            other_symbol,
        ),
{
    let bs = before.spec_tracked();
    let as_ = after.spec_tracked();
    lemma_find_tracked(bs, exchange, symbol, 0);
    lemma_find_tracked(bs, other_exchange, other_symbol, 0);
    if let Some(i) = find_tracked(bs, exchange, symbol, 0) {
        if let Some(k) = find_order(bs[i].pending_orders@, order_id, 0) {
            assert forall|j: int| 0 <= j < bs.len() implies tracked_matches(
                #[trigger] as_[j],
                other_exchange,
                other_symbol,
            ) == tracked_matches(bs[j], other_exchange, other_symbol) by {
                if j != i {
                    assert(as_[j] == bs[j]);
                }
            }
            lemma_find_tracked_same(bs, as_, other_exchange, other_symbol, 0);
            if find_tracked(bs, other_exchange, other_symbol, 0) == Some(i) {
                assert(tracked_matches(bs[i], exchange, symbol));
                assert(same_symbol(other_symbol, symbol));
            }
        }
    }
}

} // verus!
