//! Profit and loss tracking: realized and unrealized profit, fees, the
//! trade history and the drawdown from the equity peak.
use vstd::prelude::*;
use std::collections::VecDeque;
use crate::decimal::{
    abs, unit, max_val, lemma_pow10_28,
    Dec, dec_add, dec_sub, dec_mul, dec_div, decimal_sum, decimal_difference, decimal_product,
    decimal_quotient, sum_ok, difference_ok, product_ok, quotient_ok, sum_fits,
};

verus! {

#[derive(Clone, Copy, Debug)]
pub struct TradeRecord {
    pub timestamp_ns: u64,
    pub profit: Dec,
    pub fees: Dec,
    pub volume: Dec,
}

/// The longest trade history kept.
pub open spec fn history_limit() -> int {
    10000
}

/// PnL (Profit and Loss) tracker
#[derive(Debug)]
pub struct PnLTracker {
    realized_pnl: Dec,
    unrealized_pnl: Dec,
    total_fees_paid: Dec,
    total_volume: Dec,
    winning_trades: usize,
    losing_trades: usize,
    trade_history: VecDeque<TradeRecord>,
    daily_pnl: Dec,
    initial_equity: Dec,
    peak_equity: Dec,
    current_drawdown: Dec,
}

#[derive(Clone, Copy, Debug)]
pub struct PnLStats {
    pub realized_pnl: Dec,
    pub unrealized_pnl: Dec,
    pub total_pnl: Dec,
    pub net_pnl: Dec,
    pub total_fees: Dec,
    pub total_volume: Dec,
    pub winning_trades: usize,
    pub losing_trades: usize,
    pub total_trades: usize,
    pub avg_profit_per_trade: Dec,
    pub daily_pnl: Dec,
    pub current_drawdown: Dec,
}

/// The peak and drawdown after the equity becomes `equity`: a new peak
/// resets the drawdown, otherwise it is the fall from the peak in percent
/// of the peak.
pub open spec fn drawdown_after(peak: Dec, equity: Dec) -> (Dec, Dec) {
    if equity.val() > peak.val() {
        (equity, Dec::literal(0, 0))
    } else {
        (
            peak,
            decimal_product(
                decimal_quotient(decimal_difference(peak, equity), peak),
                Dec::literal(100, 0),
            ),
        )
    }
}

pub open spec fn drawdown_ok(peak: Dec, equity: Dec) -> bool {
    equity.val() <= peak.val() ==> {
        &&& difference_ok(peak, equity)
        &&& quotient_ok(decimal_difference(peak, equity), peak)
        &&& product_ok(
            decimal_quotient(decimal_difference(peak, equity), peak),
            Dec::literal(100, 0),
        )
    }
}

/// The drawdown of `peak` against an equity within `slack` units of the
/// exact value `e` is computable, however the sums round: the equity is
/// clear of the peak from above, or the peak is at least one in size and the
/// fall from it at most about a hundredth of the largest decimal.
pub open spec fn drawdown_room(peak: Dec, e: int, slack: int) -> bool {
    ||| e > peak.val() + slack * unit()
    ||| (abs(peak.val()) >= unit() && 100 * abs(peak.val() - e) + (1000 + 100 * slack) * unit()
        <= max_val())
}

/// A fall from a peak of size at least one, itself well inside the largest
/// decimal, can be divided by the peak.
proof fn lemma_quotient_room(fall: Dec, peak: Dec, e: int)
    requires
        abs(peak.val()) >= unit(),
        abs(fall.val() - (peak.val() - e)) <= 3 * unit(),
        100 * abs(peak.val() - e) + 1200 * unit() <= max_val(),
    ensures
        quotient_ok(fall, peak),
{
    let f = abs(fall.val());
    let p = abs(peak.val());
    assert(f + unit() <= max_val());
    assert(f * unit() + unit() * p <= max_val() * p) by (nonlinear_arith)
        requires
            p >= unit(),
            f + unit() <= max_val(),
            unit() > 0,
            f >= 0,
    ;
}

/// The share a fall is of a peak of size at least one is at most the fall
/// plus one, so a hundred times it fits.
proof fn lemma_product_room(share: Dec, fall: Dec, peak: Dec, e: int, hundred: Dec)
    requires
        abs(peak.val()) >= unit(),
        abs(fall.val() - (peak.val() - e)) <= 3 * unit(),
        100 * abs(peak.val() - e) + 1200 * unit() <= max_val(),
        abs(share.val() * peak.val() - fall.val() * unit()) <= unit() * abs(peak.val()),
        hundred.val() == 100 * unit(),
    ensures
        product_ok(share, hundred),
{
    let q = share.val();
    let p = peak.val();
    let f = fall.val();
    assert(abs(q) <= abs(f) + unit()) by (nonlinear_arith)
        requires
            abs(p) >= unit(),
            abs(q * p - f * unit()) <= unit() * abs(p),
            unit() > 0,
    {
        assert(abs(q) * abs(p) == abs(q * p)) by (nonlinear_arith);
        assert(abs(f * unit()) == abs(f) * unit()) by (nonlinear_arith)
            requires
                unit() > 0,
        ;
        assert(abs(q) * abs(p) <= abs(f) * unit() + unit() * abs(p));
        assert(abs(f) * unit() <= abs(f) * abs(p)) by (nonlinear_arith)
            requires
                abs(p) >= unit(),
        ;
        assert(abs(q) * abs(p) <= (abs(f) + unit()) * abs(p));
    }
    assert(abs(q * (100 * unit())) == 100 * unit() * abs(q)) by (nonlinear_arith)
        requires
            unit() > 0,
    ;
    assert(100 * abs(q) + unit() <= max_val());
    assert(100 * unit() * abs(q) + unit() * unit() <= max_val() * unit()) by (nonlinear_arith)
        requires
            100 * abs(q) + unit() <= max_val(),
            unit() > 0,
    ;
}

/// `after` is `before` with the trade recorded: profit added to the realized
/// and daily profit, fees and volume to their totals, the trade counted as
/// won or lost by the sign of its profit, appended to the history (of which
/// the last 10000 are kept), and the peak and drawdown updated from the new
/// equity. Where a sum fits, it is exact.
pub open spec fn trade_recorded(
    before: PnLTracker,
    after: PnLTracker,
    profit: Dec,
    fees: Dec,
    volume: Dec,
    timestamp_ns: u64,
) -> bool {
    let record = TradeRecord { timestamp_ns, profit, fees, volume };
    &&& after.spec_realized() == decimal_sum(before.spec_realized(), profit)
    &&& after.spec_unrealized() == before.spec_unrealized()
    &&& after.spec_initial() == before.spec_initial()
    &&& after.spec_fees() == decimal_sum(before.spec_fees(), fees)
    &&& after.spec_volume() == decimal_sum(before.spec_volume(), volume)
    &&& after.spec_daily() == decimal_sum(before.spec_daily(), profit)
    &&& after.spec_winning() == before.spec_winning() + if profit.val() > 0 {
        1int
    } else {
        0
    }
    &&& after.spec_losing() == before.spec_losing() + if profit.val() < 0 {
        1int
    } else {
        0
    }
    &&& after.spec_history() == if before.spec_history().len() + 1 > history_limit() {
        before.spec_history().push(record).drop_first()
    } else {
        before.spec_history().push(record)
    }
    &&& (after.spec_peak(), after.spec_drawdown()) == drawdown_after(
        before.spec_peak(),
        after.equity(),
    )
    &&& sum_fits(before.spec_realized().val() + profit.val(), before.spec_realized(), profit)
        ==> after.spec_realized().val() == before.spec_realized().val() + profit.val()
    &&& sum_fits(before.spec_fees().val() + fees.val(), before.spec_fees(), fees)
        ==> after.spec_fees().val() == before.spec_fees().val() + fees.val()
    &&& sum_fits(before.spec_volume().val() + volume.val(), before.spec_volume(), volume)
        ==> after.spec_volume().val() == before.spec_volume().val() + volume.val()
    &&& sum_fits(before.spec_daily().val() + profit.val(), before.spec_daily(), profit)
        ==> after.spec_daily().val() == before.spec_daily().val() + profit.val()
}

/// `after` is `before` with the daily profit set to zero.
pub open spec fn daily_reset(before: PnLTracker, after: PnLTracker) -> bool {
    &&& after.spec_daily() == Dec::literal(0, 0)
    &&& after.spec_realized() == before.spec_realized()
    &&& after.spec_unrealized() == before.spec_unrealized()
    &&& after.spec_initial() == before.spec_initial()
    &&& after.spec_fees() == before.spec_fees()
    &&& after.spec_volume() == before.spec_volume()
    &&& after.spec_winning() == before.spec_winning()
    &&& after.spec_losing() == before.spec_losing()
    &&& after.spec_history() == before.spec_history()
    &&& after.spec_peak() == before.spec_peak()
    &&& after.spec_drawdown() == before.spec_drawdown()
}

/// The average realized profit per counted trade; zero before any.
pub open spec fn average_of(t: PnLTracker) -> Dec {
    if t.spec_winning() + t.spec_losing() == 0 {
        Dec::literal(0, 0)
    } else {
        decimal_quotient(t.spec_realized(), Dec::literal(t.spec_winning() + t.spec_losing(), 0))
    }
}

/// The statistics are computed without overflow.
pub open spec fn stats_ok(t: PnLTracker) -> bool {
    &&& sum_ok(t.spec_realized(), t.spec_unrealized())
    &&& difference_ok(t.pnl_total(), t.spec_fees())
    &&& t.spec_winning() + t.spec_losing() <= usize::MAX
    &&& t.spec_winning() + t.spec_losing() > 0 ==> quotient_ok(
        t.spec_realized(),
        Dec::literal(t.spec_winning() + t.spec_losing(), 0),
    )
}

/// Every figure of a tracker.
pub open spec fn stats_of(t: PnLTracker) -> PnLStats {
    PnLStats {
        realized_pnl: t.spec_realized(),
        unrealized_pnl: t.spec_unrealized(),
        total_pnl: t.pnl_total(),
        net_pnl: decimal_difference(t.pnl_total(), t.spec_fees()),
        total_fees: t.spec_fees(),
        total_volume: t.spec_volume(),
        winning_trades: t.spec_winning(),
        losing_trades: t.spec_losing(),
        total_trades: (t.spec_winning() + t.spec_losing()) as usize,
        avg_profit_per_trade: average_of(t),
        daily_pnl: t.spec_daily(),
        current_drawdown: t.spec_drawdown(),
    }
}

impl PnLTracker {
    pub closed spec fn spec_realized(&self) -> Dec {
        self.realized_pnl
    }

    pub closed spec fn spec_unrealized(&self) -> Dec {
        self.unrealized_pnl
    }

    pub closed spec fn spec_fees(&self) -> Dec {
        self.total_fees_paid
    }

    pub closed spec fn spec_volume(&self) -> Dec {
        self.total_volume
    }

    pub closed spec fn spec_winning(&self) -> usize {
        self.winning_trades
    }

    pub closed spec fn spec_losing(&self) -> usize {
        self.losing_trades
    }

    pub closed spec fn spec_history(&self) -> Seq<TradeRecord> {
        self.trade_history@
    }

    pub closed spec fn spec_daily(&self) -> Dec {
        self.daily_pnl
    }

    pub closed spec fn spec_peak(&self) -> Dec {
        self.peak_equity
    }

    pub closed spec fn spec_drawdown(&self) -> Dec {
        self.current_drawdown
    }

    /// The equity the tracker started with.
    pub closed spec fn spec_initial(&self) -> Dec {
        self.initial_equity
    }

    /// Realized plus unrealized profit.
    pub open spec fn pnl_total(&self) -> Dec {
        decimal_sum(self.spec_realized(), self.spec_unrealized())
    }

    /// The account's equity: the starting equity plus realized and
    /// unrealized profit.
    pub open spec fn equity(&self) -> Dec {
        decimal_sum(self.spec_initial(), self.pnl_total())
    }

    pub fn new(initial_equity: Dec) -> (r: PnLTracker)
        ensures
            r.spec_realized() == Dec::literal(0, 0),
            r.spec_unrealized() == Dec::literal(0, 0),
            r.spec_fees() == Dec::literal(0, 0),
            r.spec_volume() == Dec::literal(0, 0),
            r.spec_winning() == 0,
            r.spec_losing() == 0,
            r.spec_history() == Seq::<TradeRecord>::empty(),
            r.spec_daily() == Dec::literal(0, 0),
            r.spec_initial() == initial_equity,
            r.spec_peak() == initial_equity,
            r.spec_drawdown() == Dec::literal(0, 0),
    {
        PnLTracker {
            realized_pnl: Dec::zero(),
            unrealized_pnl: Dec::zero(),
            total_fees_paid: Dec::zero(),
            total_volume: Dec::zero(),
            winning_trades: 0,
            losing_trades: 0,
            trade_history: VecDeque::new(),
            daily_pnl: Dec::zero(),
            initial_equity,
            peak_equity: initial_equity,
            current_drawdown: Dec::zero(),
        }
    }

    /// Recording a trade does not overflow.
    pub open spec fn record_ok(&self, profit: Dec, fees: Dec, volume: Dec) -> bool {
        let realized = decimal_sum(self.spec_realized(), profit);
        let total = decimal_sum(realized, self.spec_unrealized());
        let equity = decimal_sum(self.spec_initial(), total);
        &&& sum_ok(self.spec_realized(), profit)
        &&& sum_ok(self.spec_fees(), fees)
        &&& sum_ok(self.spec_volume(), volume)
        &&& sum_ok(self.spec_daily(), profit)
        &&& self.spec_winning() < usize::MAX
        &&& self.spec_losing() < usize::MAX
        &&& sum_ok(realized, self.spec_unrealized())
        &&& sum_ok(self.spec_initial(), total)
        &&& drawdown_ok(self.spec_peak(), equity)
    }

    /// Recording a trade fits, stated over exact values: every sum stays
    /// clear of the largest decimal and the drawdown is computable.
    pub open spec fn record_fits(&self, profit: Dec, fees: Dec, volume: Dec) -> bool {
        let t = self.spec_realized().val() + profit.val() + self.spec_unrealized().val();
        let e = self.spec_initial().val() + t;
        &&& sum_ok(self.spec_realized(), profit)
        &&& sum_ok(self.spec_fees(), fees)
        &&& sum_ok(self.spec_volume(), volume)
        &&& sum_ok(self.spec_daily(), profit)
        &&& self.spec_winning() < usize::MAX
        &&& self.spec_losing() < usize::MAX
        &&& abs(t) + 2 * unit() <= max_val()
        &&& abs(e) + 3 * unit() <= max_val()
        &&& drawdown_room(self.spec_peak(), e, 3)
    }

    /// The drawdown update fits, stated over exact values.
    pub open spec fn drawdown_fits(&self) -> bool {
        let t = self.spec_realized().val() + self.spec_unrealized().val();
        let e = self.spec_initial().val() + t;
        &&& abs(t) + unit() <= max_val()
        &&& abs(e) + 2 * unit() <= max_val()
        &&& drawdown_room(self.spec_peak(), e, 2)
    }

    /// Adds the trade's profit to the realized and daily profit, its fees and
    /// volume to the totals, counts it as won or lost by the sign of the
    /// profit, keeps it in the history (the last 10000 only) and updates the
    /// drawdown.
    pub fn record_trade(&mut self, profit: Dec, fees: Dec, volume: Dec, timestamp_ns: u64)
        requires
            old(self).record_ok(profit, fees, volume) || old(self).record_fits(profit, fees, volume),
        ensures
            trade_recorded(*old(self), *final(self), profit, fees, volume, timestamp_ns),
    {
        self.realized_pnl = dec_add(self.realized_pnl, profit);
        proof {
            if old(self).record_fits(profit, fees, volume) {
                assert(self.drawdown_fits());
            }
        }
        self.total_fees_paid = dec_add(self.total_fees_paid, fees);
        self.total_volume = dec_add(self.total_volume, volume);
        self.daily_pnl = dec_add(self.daily_pnl, profit);
        if profit.is_positive() {
            self.winning_trades = self.winning_trades + 1;
        } else if profit.is_negative() {
            self.losing_trades = self.losing_trades + 1;
        }
        self.trade_history.push_back(TradeRecord { timestamp_ns, profit, fees, volume });
        if self.trade_history.len() > 10000 {
            self.trade_history.pop_front();
        }
        self.update_drawdown();
    }

    /// Sets the unrealized profit and updates the drawdown.
    pub fn update_unrealized_pnl(&mut self, unrealized: Dec)
        requires
            ({
                &&& sum_ok(old(self).spec_realized(), unrealized)
                &&& sum_ok(
                    old(self).spec_initial(),
                    decimal_sum(old(self).spec_realized(), unrealized),
                )
                &&& drawdown_ok(
                    old(self).spec_peak(),
                    decimal_sum(
                        old(self).spec_initial(),
                        decimal_sum(old(self).spec_realized(), unrealized),
                    ),
                )
            }) || ({
                let t = old(self).spec_realized().val() + unrealized.val();
                let e = old(self).spec_initial().val() + t;
                &&& abs(t) + unit() <= max_val()
                &&& abs(e) + 2 * unit() <= max_val()
                &&& drawdown_room(old(self).spec_peak(), e, 2)
            }),
        ensures
            final(self).spec_unrealized() == unrealized,
            final(self).spec_realized() == old(self).spec_realized(),
            final(self).spec_initial() == old(self).spec_initial(),
            final(self).spec_fees() == old(self).spec_fees(),
            final(self).spec_volume() == old(self).spec_volume(),
            final(self).spec_daily() == old(self).spec_daily(),
            final(self).spec_winning() == old(self).spec_winning(),
            final(self).spec_losing() == old(self).spec_losing(),
            final(self).spec_history() == old(self).spec_history(),
            (final(self).spec_peak(), final(self).spec_drawdown()) == drawdown_after(
                old(self).spec_peak(),
                final(self).equity(),
            ),
    {
        self.unrealized_pnl = unrealized;
        self.update_drawdown();
    }

    fn update_drawdown(&mut self)
        requires
            ({
                &&& sum_ok(old(self).spec_realized(), old(self).spec_unrealized())
                &&& sum_ok(old(self).spec_initial(), old(self).pnl_total())
                &&& drawdown_ok(old(self).spec_peak(), old(self).equity())
            }) || old(self).drawdown_fits(),
        ensures
            (final(self).spec_peak(), final(self).spec_drawdown()) == drawdown_after(
                old(self).spec_peak(),
                old(self).equity(),
            ),
            final(self).spec_unrealized() == old(self).spec_unrealized(),
            final(self).spec_realized() == old(self).spec_realized(),
            final(self).spec_initial() == old(self).spec_initial(),
            final(self).spec_fees() == old(self).spec_fees(),
            final(self).spec_volume() == old(self).spec_volume(),
            final(self).spec_daily() == old(self).spec_daily(),
            final(self).spec_winning() == old(self).spec_winning(),
            final(self).spec_losing() == old(self).spec_losing(),
            final(self).spec_history() == old(self).spec_history(),
    {
        let ghost fits = old(self).drawdown_fits();
        let total = dec_add(self.realized_pnl, self.unrealized_pnl);
        let current_equity = dec_add(self.initial_equity, total);
        if current_equity.gt(&self.peak_equity) {
            self.peak_equity = current_equity;
            self.current_drawdown = Dec::zero();
        } else {
            let peak = self.peak_equity;
            let ghost e = self.spec_initial().val() + self.spec_realized().val()
                + self.spec_unrealized().val();
            proof {
                if fits {
                    assert(difference_ok(peak, current_equity));
                }
            }
            let fall = dec_sub(peak, current_equity);
            proof {
                if fits {
                    lemma_quotient_room(fall, peak, e);
                }
            }
            let share = dec_div(fall, peak);
            let hundred = Dec::from_u64(100);
            proof {
                if fits {
                    lemma_pow10_28();
                    Dec::lemma_literal(100, 0);
                    lemma_product_room(share, fall, peak, e, hundred);
                }
            }
            self.current_drawdown = dec_mul(share, hundred);
        }
    }

    pub fn reset_daily_pnl(&mut self)
        ensures
            daily_reset(*old(self), *final(self)),
    {
        self.daily_pnl = Dec::zero();
    }

    pub fn total_pnl(&self) -> (r: Dec)
        requires
            sum_ok(self.spec_realized(), self.spec_unrealized()),
        ensures
            r == self.pnl_total(),
    {
        dec_add(self.realized_pnl, self.unrealized_pnl)
    }

    /// Total profit less the fees paid.
    pub fn net_pnl(&self) -> (r: Dec)
        requires
            sum_ok(self.spec_realized(), self.spec_unrealized()),
            difference_ok(self.pnl_total(), self.spec_fees()),
        ensures
            r == decimal_difference(self.pnl_total(), self.spec_fees()),
    {
        dec_sub(self.total_pnl(), self.total_fees_paid)
    }

    /// Realized profit per counted trade; zero before any.
    pub fn average_profit_per_trade(&self) -> (r: Dec)
        requires
            self.spec_winning() + self.spec_losing() <= usize::MAX,
            self.spec_winning() + self.spec_losing() > 0 ==> quotient_ok(
                self.spec_realized(),
                Dec::literal(self.spec_winning() + self.spec_losing(), 0),
            ),
        ensures
            r == average_of(*self),
    {
        let total_trades = self.winning_trades + self.losing_trades;
        if total_trades == 0 {
            Dec::zero()
        } else {
            let n = Dec::from_usize(total_trades);
            dec_div(self.realized_pnl, n)
        }
    }

    pub fn realized_pnl(&self) -> (r: Dec)
        ensures
            r == self.spec_realized(),
    {
        self.realized_pnl
    }

    pub fn unrealized_pnl(&self) -> (r: Dec)
        ensures
            r == self.spec_unrealized(),
    {
        self.unrealized_pnl
    }

    pub fn daily_pnl(&self) -> (r: Dec)
        ensures
            r == self.spec_daily(),
    {
        self.daily_pnl
    }

    pub fn current_drawdown(&self) -> (r: Dec)
        ensures
            r == self.spec_drawdown(),
    {
        self.current_drawdown
    }

    pub fn total_fees(&self) -> (r: Dec)
        ensures
            r == self.spec_fees(),
    {
        self.total_fees_paid
    }

    pub fn total_volume(&self) -> (r: Dec)
        ensures
            r == self.spec_volume(),
    {
        self.total_volume
    }

    pub fn winning_trades(&self) -> (r: usize)
        ensures
            r == self.spec_winning(),
    {
        self.winning_trades
    }

    pub fn losing_trades(&self) -> (r: usize)
        ensures
            r == self.spec_losing(),
    {
        self.losing_trades
    }

    pub fn total_trades(&self) -> (r: usize)
        requires
            self.spec_winning() + self.spec_losing() <= usize::MAX,
        ensures
            r == self.spec_winning() + self.spec_losing(),
    {
        self.winning_trades + self.losing_trades
    }

    /// The trades kept, oldest first.
    pub fn trade_history(&self) -> (r: Vec<TradeRecord>)
        ensures
            r@ == self.spec_history(),
    {
        let mut v: Vec<TradeRecord> = Vec::new();
        let n = self.trade_history.len();
        let mut i: usize = 0;
        while i < n
            invariant
                0 <= i <= n,
                n == self.spec_history().len(),
                v@ == self.spec_history().subrange(0, i as int),
            decreases n - i,
        {
            v.push(self.trade_history[i]);
            i = i + 1;
            assert(v@ =~= self.spec_history().subrange(0, i as int));
        }
        assert(self.spec_history().subrange(0, n as int) =~= self.spec_history());
        v
    }

    /// Every figure of the tracker at once.
    pub fn get_stats(&self) -> (r: PnLStats)
        requires
            stats_ok(*self),
        ensures
            r == stats_of(*self),
    {
        PnLStats {
            realized_pnl: self.realized_pnl,
            unrealized_pnl: self.unrealized_pnl,
            total_pnl: self.total_pnl(),
            net_pnl: self.net_pnl(),
            total_fees: self.total_fees_paid,
            total_volume: self.total_volume,
            winning_trades: self.winning_trades,
            losing_trades: self.losing_trades,
            total_trades: self.total_trades(),
            avg_profit_per_trade: self.average_profit_per_trade(),
            daily_pnl: self.daily_pnl,
            current_drawdown: self.current_drawdown,
        }
    }
}

} // verus!
