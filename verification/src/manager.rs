//! The risk manager: limits, profit tracking, open positions and the
//! circuit breaker that halts trading.
use vstd::prelude::*;
use vstd::string::StringExecFns;
use crate::decimal::{
    Dec, dec_add, dec_mul, decimal_sum, decimal_product, sum_ok, product_ok,
};
use crate::types::{Exchange, Position, Symbol, same_symbol};
use crate::limits::RiskLimits;
use crate::pnl::{PnLTracker, PnLStats, trade_recorded, daily_reset, stats_of, stats_ok};

verus! {

#[derive(Debug)]
pub enum RiskError {
    PositionSizeExceeded(Dec, Dec),
    TotalExposureExceeded(Dec, Dec),
    DailyLossExceeded(Dec, Dec),
    DrawdownExceeded(Dec, Dec),
    MaxPositionsExceeded(usize, usize),
    ProfitBelowThreshold(Dec, Dec),
    CircuitBreaker(String),
}

/// The position is held on `exchange` for `symbol`.
pub open spec fn position_matches(p: Position, exchange: Exchange, symbol: Symbol) -> bool {
    p.exchange == exchange && same_symbol(p.symbol, symbol)
}

/// The first position from `i` on that is held on `exchange` for `symbol`.
pub open spec fn find_position(s: Seq<Position>, exchange: Exchange, symbol: Symbol, i: int) -> Option<int>
    decreases s.len() - i,
{
    if i < 0 || i >= s.len() {
        None
    } else if position_matches(s[i], exchange, symbol) {
        Some(i)
    } else {
        find_position(s, exchange, symbol, i + 1)
    }
}

proof fn lemma_find_position(s: Seq<Position>, exchange: Exchange, symbol: Symbol, i: int)
    requires
        0 <= i,
    ensures
        find_position(s, exchange, symbol, i) matches Some(k) ==> i <= k < s.len()
            && position_matches(s[k], exchange, symbol),
        find_position(s, exchange, symbol, i) is None ==> forall|k: int|
            i <= k < s.len() ==> !position_matches(#[trigger] s[k], exchange, symbol),
    decreases s.len() - i,
{
    if i < s.len() {
        lemma_find_position(s, exchange, symbol, i + 1);
    }
}

/// No two positions are held on the same exchange for the same symbol.
pub open spec fn keys_unique(s: Seq<Position>) -> bool {
    forall|i: int, j: int|
        0 <= i < j < s.len() ==> !position_matches(#[trigger] s[j], s[i].exchange, #[trigger] s[i].symbol)
}

/// The exposure of one position: its absolute quantity times its current
/// price.
pub open spec fn position_exposure(p: Position) -> Dec {
    decimal_product(p.quantity.magnitude(), p.current_price)
}

/// The exposures of the first `n` positions, summed from zero in order.
pub open spec fn exposure_of(s: Seq<Position>, n: nat) -> Dec
    decreases n,
{
    if n == 0 {
        Dec::literal(0, 0)
    } else {
        decimal_sum(exposure_of(s, (n - 1) as nat), position_exposure(s[n - 1]))
    }
}

/// Summing the exposures of the first `n` positions does not overflow.
pub open spec fn exposure_ok(s: Seq<Position>, n: nat) -> bool
    decreases n,
{
    n == 0 || {
        &&& exposure_ok(s, (n - 1) as nat)
        &&& product_ok(s[n - 1].quantity.magnitude(), s[n - 1].current_price)
        &&& sum_ok(exposure_of(s, (n - 1) as nat), position_exposure(s[n - 1]))
    }
}

proof fn lemma_exposure_ok_prefix(s: Seq<Position>, k: nat, n: nat)
    requires
        k <= n,
        exposure_ok(s, n),
    ensures
        exposure_ok(s, k),
    decreases n - k,
{
    if k < n {
        lemma_exposure_ok_prefix(s, k, (n - 1) as nat);
    }
}

/// Risk manager for the arbitrage system
pub struct RiskManager {
    limits: RiskLimits,
    pnl_tracker: PnLTracker,
    positions: Vec<Position>,
    circuit_breaker_active: bool,
}

impl RiskManager {
    #[verifier::type_invariant]
    spec fn inv(self) -> bool {
        keys_unique(self.positions@)
    }

    pub closed spec fn spec_limits(&self) -> RiskLimits {
        self.limits
    }

    pub closed spec fn spec_pnl(&self) -> PnLTracker {
        self.pnl_tracker
    }

    /// The open positions, in the order they were first stored.
    pub closed spec fn spec_positions(&self) -> Seq<Position> {
        self.positions@
    }

    pub closed spec fn spec_breaker(&self) -> bool {
        self.circuit_breaker_active
    }

    /// The total exposure over the open positions.
    pub open spec fn exposure(&self) -> Dec {
        exposure_of(self.spec_positions(), self.spec_positions().len())
    }

    pub fn new(limits: RiskLimits, initial_equity: Dec) -> (r: RiskManager)
        ensures
            r.spec_limits() == limits,
            r.spec_pnl().spec_realized() == Dec::literal(0, 0),
            r.spec_pnl().spec_unrealized() == Dec::literal(0, 0),
            r.spec_pnl().spec_fees() == Dec::literal(0, 0),
            r.spec_pnl().spec_volume() == Dec::literal(0, 0),
            r.spec_pnl().spec_winning() == 0,
            r.spec_pnl().spec_losing() == 0,
            r.spec_pnl().spec_history().len() == 0,
            r.spec_pnl().spec_daily() == Dec::literal(0, 0),
            r.spec_pnl().spec_initial() == initial_equity,
            r.spec_pnl().spec_peak() == initial_equity,
            r.spec_pnl().spec_drawdown() == Dec::literal(0, 0),
            r.spec_positions() == Seq::<Position>::empty(),
            !r.spec_breaker(),
            keys_unique(r.spec_positions()),
    {
        RiskManager {
            limits,
            pnl_tracker: PnLTracker::new(initial_equity),
            positions: Vec::new(),
            circuit_breaker_active: false,
        }
    }

    /// Check if a trade is allowed based on risk limits. The checks come in
    /// this order: the circuit breaker, the position size, the total exposure
    /// with the new position, the number of open positions, the daily loss
    /// and the drawdown; the first that fails gives the error, and the last
    /// two also trip the circuit breaker.
    pub fn can_trade(
        &mut self,
        exchange: Exchange,
        symbol: &Symbol,
        position_size: Dec,
        expected_profit: Dec,
    ) -> (r: Result<(), RiskError>)
        requires
            !old(self).spec_breaker() && position_size.val()
                <= old(self).spec_limits().max_position_size.val() ==> {
                &&& exposure_ok(old(self).spec_positions(), old(self).spec_positions().len())
                &&& sum_ok(old(self).exposure(), position_size)
            },
        ensures
            ({
                let l = old(self).spec_limits();
                let breaker = old(self).spec_breaker();
                let size_ok = position_size.val() <= l.max_position_size.val();
                let new_exposure = decimal_sum(old(self).exposure(), position_size);
                let exposure_fine = new_exposure.val() <= l.max_total_exposure.val();
                let open = old(self).spec_positions().len();
                let count_ok = open < l.max_open_positions;
                let daily = old(self).spec_pnl().spec_daily();
                let daily_ok = !(daily.val() < -l.max_daily_loss.val());
                let drawdown = old(self).spec_pnl().spec_drawdown();
                let drawdown_ok = drawdown.val() <= l.max_drawdown_pct.val();
                match r {
                    Ok(()) => !breaker && size_ok && exposure_fine && count_ok && daily_ok
                        && drawdown_ok,
                    Err(RiskError::CircuitBreaker(m)) => breaker && m@ == "System halted"@,
                    Err(RiskError::PositionSizeExceeded(a, b)) => !breaker && !size_ok && a
                        == position_size && b == l.max_position_size,
                    Err(RiskError::TotalExposureExceeded(a, b)) => !breaker && size_ok
                        && !exposure_fine && a == new_exposure && b == l.max_total_exposure,
                    Err(RiskError::MaxPositionsExceeded(a, b)) => !breaker && size_ok
                        && exposure_fine && !count_ok && a == open && b == l.max_open_positions,
                    Err(RiskError::DailyLossExceeded(a, b)) => !breaker && size_ok && exposure_fine
                        && count_ok && !daily_ok && a == daily.magnitude() && b
                        == l.max_daily_loss,
                    Err(RiskError::DrawdownExceeded(a, b)) => !breaker && size_ok && exposure_fine
                        && count_ok && daily_ok && !drawdown_ok && a == drawdown && b
                        == l.max_drawdown_pct,
                    Err(RiskError::ProfitBelowThreshold(_, _)) => false,
                }
            }),
            final(self).spec_breaker() == (old(self).spec_breaker() || r matches Err(
                RiskError::DailyLossExceeded(_, _),
            ) || r matches Err(RiskError::DrawdownExceeded(_, _))),
            final(self).spec_limits() == old(self).spec_limits(),
            final(self).spec_pnl() == old(self).spec_pnl(),
            final(self).spec_positions() == old(self).spec_positions(),
    {
        if self.circuit_breaker_active {
            return Err(RiskError::CircuitBreaker(String::from_str("System halted")));
        }
        if position_size.gt(&self.limits.max_position_size) {
            return Err(RiskError::PositionSizeExceeded(position_size, self.limits.max_position_size));
        }
        let current_exposure = self.calculate_total_exposure();
        let new_exposure = dec_add(current_exposure, position_size);
        if new_exposure.gt(&self.limits.max_total_exposure) {
            return Err(RiskError::TotalExposureExceeded(new_exposure, self.limits.max_total_exposure));
        }
        let open_positions = self.positions.len();
        if open_positions >= self.limits.max_open_positions {
            return Err(RiskError::MaxPositionsExceeded(open_positions, self.limits.max_open_positions));
        }
        let daily_pnl = self.pnl_tracker.daily_pnl();
        let floor = self.limits.max_daily_loss.neg();
        if daily_pnl.lt(&floor) {
            let limit = self.limits.max_daily_loss;
            self.trigger_circuit_breaker("Daily loss limit exceeded");
            return Err(RiskError::DailyLossExceeded(daily_pnl.abs(), limit));
        }
        let drawdown = self.pnl_tracker.current_drawdown();
        if drawdown.gt(&self.limits.max_drawdown_pct) {
            let limit = self.limits.max_drawdown_pct;
            self.trigger_circuit_breaker("Drawdown limit exceeded");
            return Err(RiskError::DrawdownExceeded(drawdown, limit));
        }
        Ok(())
    }

    /// Record a completed trade
    pub fn record_trade(
        &mut self,
        exchange: Exchange,
        symbol: Symbol,
        profit: Dec,
        fees: Dec,
        volume: Dec,
        timestamp_ns: u64,
    )
        requires
            old(self).spec_pnl().record_ok(profit, fees, volume) || old(self).spec_pnl().record_fits(
                profit,
                fees,
                volume,
            ),
        ensures
            trade_recorded(
                old(self).spec_pnl(),
                final(self).spec_pnl(),
                profit,
                fees,
                volume,
                timestamp_ns,
            ),
            final(self).spec_limits() == old(self).spec_limits(),
            final(self).spec_positions() == old(self).spec_positions(),
            final(self).spec_breaker() == old(self).spec_breaker(),
    {
        proof {
            use_type_invariant(&*self);
        }
        let mut tracker = PnLTracker::new(Dec::zero());
        std::mem::swap(&mut tracker, &mut self.pnl_tracker);
        tracker.record_trade(profit, fees, volume, timestamp_ns);
        self.pnl_tracker = tracker;
    }

    fn find(&self, exchange: Exchange, symbol: &Symbol) -> (r: Option<usize>)
        ensures
            r matches Some(i) ==> find_position(self.spec_positions(), exchange, *symbol, 0)
                == Some(i as int),
            r is None ==> find_position(self.spec_positions(), exchange, *symbol, 0) is None,
    {
        let n = self.positions.len();
        let mut i: usize = 0;
        while i < n
            invariant
                0 <= i <= n,
                n == self.spec_positions().len(),
                find_position(self.spec_positions(), exchange, *symbol, 0) == find_position(
                    self.spec_positions(),
                    exchange,
                    *symbol,
                    i as int,
                ),
            decreases n - i,
        {
            if self.positions[i].exchange == exchange && self.positions[i].symbol.same(symbol) {
                return Some(i);
            }
            i = i + 1;
        }
        None
    }

    /// Stores the position under its exchange and symbol, replacing the one
    /// held there before, if any.
    pub fn update_position(&mut self, position: Position)
        ensures
            match find_position(old(self).spec_positions(), position.exchange, position.symbol, 0) {
                Some(i) => final(self).spec_positions() == old(self).spec_positions().update(
                    i,
                    position,
                ),
                None => final(self).spec_positions() == old(self).spec_positions().push(position),
            },
            keys_unique(final(self).spec_positions()),
            final(self).spec_limits() == old(self).spec_limits(),
            final(self).spec_pnl() == old(self).spec_pnl(),
            final(self).spec_breaker() == old(self).spec_breaker(),
    {
        proof {
            use_type_invariant(&*self);
            lemma_find_position(self.positions@, position.exchange, position.symbol, 0);
        }
        let found = self.find(position.exchange, &position.symbol);
        let ghost s = self.positions@;
        let mut positions = Vec::new();
        std::mem::swap(&mut positions, &mut self.positions);
        match found {
            Some(i) => {
                positions.set(i, position);
                proof {
                    assert forall|a: int, b: int| 0 <= a < b < positions@.len() implies !position_matches(
                        #[trigger] positions@[b],
                        positions@[a].exchange,
                        #[trigger] positions@[a].symbol,
                    ) by {
                        if a == i as int {
                            assert(!position_matches(s[b], s[a].exchange, s[a].symbol));
                        } else if b == i as int {
                            assert(!position_matches(s[b], s[a].exchange, s[a].symbol));
                        }
                    }
                }
            },
            None => {
                positions.push(position);
                proof {
                    assert forall|a: int, b: int| 0 <= a < b < positions@.len() implies !position_matches(
                        #[trigger] positions@[b],
                        positions@[a].exchange,
                        #[trigger] positions@[a].symbol,
                    ) by {
                        if b == s.len() {
                            assert(!position_matches(s[a], position.exchange, position.symbol));
                        } else {
                            assert(!position_matches(s[b], s[a].exchange, s[a].symbol));
                        }
                    }
                }
            },
        }
        self.positions = positions;
    }

    /// Removes the position held on `exchange` for `symbol`, if any.
    pub fn remove_position(&mut self, exchange: Exchange, symbol: &Symbol)
        ensures
            match find_position(old(self).spec_positions(), exchange, *symbol, 0) {
                Some(i) => final(self).spec_positions() == old(self).spec_positions().remove(i),
                None => final(self).spec_positions() == old(self).spec_positions(),
            },
            keys_unique(final(self).spec_positions()),
            final(self).spec_limits() == old(self).spec_limits(),
            final(self).spec_pnl() == old(self).spec_pnl(),
            final(self).spec_breaker() == old(self).spec_breaker(),
    {
        proof {
            use_type_invariant(&*self);
            lemma_find_position(self.positions@, exchange, *symbol, 0);
        }
        let found = self.find(exchange, symbol);
        let ghost s = self.positions@;
        if let Some(i) = found {
            let mut positions = Vec::new();
            std::mem::swap(&mut positions, &mut self.positions);
            positions.remove(i);
            proof {
                assert forall|a: int, b: int| 0 <= a < b < positions@.len() implies !position_matches(
                    #[trigger] positions@[b],
                    positions@[a].exchange,
                    #[trigger] positions@[a].symbol,
                ) by {
                    let a0 = if a < i { a } else { a + 1 };
                    let b0 = if b < i { b } else { b + 1 };
                    assert(positions@[a] == s[a0]);
                    assert(positions@[b] == s[b0]);
                    assert(!position_matches(s[b0], s[a0].exchange, s[a0].symbol));
                }
            }
            self.positions = positions;
        }
    }

    /// All open positions; no two are held on the same exchange for the
    /// same symbol.
    pub fn get_positions(&self) -> (r: Vec<Position>)
        ensures
            r@ == self.spec_positions(),
            keys_unique(r@),
    {
        proof {
            use_type_invariant(self);
        }
        let n = self.positions.len();
        let mut v: Vec<Position> = Vec::new();
        let mut i: usize = 0;
        while i < n
            invariant
                0 <= i <= n,
                n == self.spec_positions().len(),
                v@ == self.spec_positions().subrange(0, i as int),
            decreases n - i,
        {
            v.push(self.positions[i].clone());
            i = i + 1;
            assert(v@ =~= self.spec_positions().subrange(0, i as int));
        }
        assert(self.spec_positions().subrange(0, n as int) =~= self.spec_positions());
        v
    }

    /// Calculate total exposure across all positions
    pub fn calculate_total_exposure(&self) -> (r: Dec)
        requires
            exposure_ok(self.spec_positions(), self.spec_positions().len()),
        ensures
            r == self.exposure(),
    {
        let n = self.positions.len();
        let mut total = Dec::zero();
        let mut i: usize = 0;
        while i < n
            invariant
                0 <= i <= n,
                n == self.spec_positions().len(),
                exposure_ok(self.spec_positions(), n as nat),
                total == exposure_of(self.spec_positions(), i as nat),
            decreases n - i,
        {
            proof {
                lemma_exposure_ok_prefix(self.spec_positions(), (i + 1) as nat, n as nat);
            }
            let p = &self.positions[i];
            let e = dec_mul(p.quantity.abs(), p.current_price);
            total = dec_add(total, e);
            i = i + 1;
        }
        total
    }

    /// Trigger circuit breaker
    pub fn trigger_circuit_breaker(&mut self, reason: &str)
        ensures
            final(self).spec_breaker(),
            final(self).spec_limits() == old(self).spec_limits(),
            final(self).spec_pnl() == old(self).spec_pnl(),
            final(self).spec_positions() == old(self).spec_positions(),
    {
        proof {
            use_type_invariant(&*self);
        }
        self.circuit_breaker_active = true;
    }

    /// Reset circuit breaker
    pub fn reset_circuit_breaker(&mut self)
        ensures
            !final(self).spec_breaker(),
            final(self).spec_limits() == old(self).spec_limits(),
            final(self).spec_pnl() == old(self).spec_pnl(),
            final(self).spec_positions() == old(self).spec_positions(),
    {
        proof {
            use_type_invariant(&*self);
        }
        self.circuit_breaker_active = false;
    }

    /// Check if circuit breaker is active
    pub fn is_circuit_breaker_active(&self) -> (r: bool)
        ensures
            r == self.spec_breaker(),
    {
        self.circuit_breaker_active
    }

    /// Reset daily PnL (call at start of each day)
    pub fn reset_daily_pnl(&mut self)
        ensures
            daily_reset(old(self).spec_pnl(), final(self).spec_pnl()),
            final(self).spec_limits() == old(self).spec_limits(),
            final(self).spec_positions() == old(self).spec_positions(),
            final(self).spec_breaker() == old(self).spec_breaker(),
    {
        proof {
            use_type_invariant(&*self);
        }
        let mut tracker = PnLTracker::new(Dec::zero());
        std::mem::swap(&mut tracker, &mut self.pnl_tracker);
        tracker.reset_daily_pnl();
        self.pnl_tracker = tracker;
    }

    /// Get PnL stats
    pub fn get_pnl_stats(&self) -> (r: PnLStats)
        requires
            stats_ok(self.spec_pnl()),
        ensures
            r == stats_of(self.spec_pnl()),
    {
        self.pnl_tracker.get_stats()
    }

    /// Update risk limits
    pub fn update_limits(&mut self, limits: RiskLimits)
        ensures
            final(self).spec_limits() == limits,
            final(self).spec_pnl() == old(self).spec_pnl(),
            final(self).spec_positions() == old(self).spec_positions(),
            final(self).spec_breaker() == old(self).spec_breaker(),
    {
        proof {
            use_type_invariant(&*self);
        }
        self.limits = limits;
    }

    /// Get current risk limits
    pub fn get_limits(&self) -> (r: RiskLimits)
        ensures
            r == self.spec_limits(),
    {
        self.limits
    }
}

} // verus!
