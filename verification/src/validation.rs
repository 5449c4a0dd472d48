//! Quality checks on order book data and on the liquidity available to fill
//! an order.
use vstd::prelude::*;
use crate::decimal::{
    Dec, dec_add, dec_sub, dec_mul, dec_div, dec_min, decimal_sum, decimal_difference,
    decimal_product, decimal_quotient, sum_ok, difference_ok, product_ok, quotient_ok,
};
use crate::timing::saturating_diff;
use crate::types::PriceLevel;
use crate::levels::{notional_sum, notional_sum_ok, lemma_notional_ok_prefix};

verus! {

/// Validates orderbook data freshness and quality
pub struct OrderBookValidator {
    max_age_ms: u64,
    min_depth: usize,
    max_spread_bps: Dec,
}

/// The spread in basis points of the mid price: spread / mid * 10000.
pub open spec fn spread_bps_of(spread: Dec, mid: Dec) -> Dec {
    decimal_product(decimal_quotient(spread, mid), Dec::literal(10000, 0))
}

pub open spec fn spread_bps_ok(spread: Dec, mid: Dec) -> bool {
    mid.val() != 0 ==> {
        &&& quotient_ok(spread, mid)
        &&& product_ok(decimal_quotient(spread, mid), Dec::literal(10000, 0))
    }
}

impl OrderBookValidator {
    pub closed spec fn spec_max_age_ms(&self) -> u64 {
        self.max_age_ms
    }

    pub closed spec fn spec_min_depth(&self) -> usize {
        self.min_depth
    }

    pub closed spec fn spec_max_spread_bps(&self) -> Dec {
        self.max_spread_bps
    }

    pub fn new(max_age_ms: u64, min_depth: usize, max_spread_bps: Dec) -> (r: OrderBookValidator)
        ensures
            r.spec_max_age_ms() == max_age_ms,
            r.spec_min_depth() == min_depth,
            r.spec_max_spread_bps() == max_spread_bps,
    {
        OrderBookValidator { max_age_ms, min_depth, max_spread_bps }
    }

    /// One second of staleness, five levels and a 100 bps spread at most.
    pub fn institutional() -> (r: OrderBookValidator)
        ensures
            r.spec_max_age_ms() == 1000,
            r.spec_min_depth() == 5,
            r.spec_max_spread_bps() == Dec::literal(100, 0),
    {
        OrderBookValidator { max_age_ms: 1000, min_depth: 5, max_spread_bps: Dec::from_u64(100) }
    }

    /// The data is at most the maximum age old, in whole milliseconds.
    pub fn is_fresh(&self, timestamp_ns: u64, now_ns: u64) -> (r: bool)
        ensures
            r == (saturating_diff(now_ns, timestamp_ns) / 1_000_000 <= self.spec_max_age_ms()),
    {
        let age_ms = (now_ns.saturating_sub(timestamp_ns)) / 1_000_000;
        age_ms <= self.max_age_ms
    }

    pub fn has_sufficient_depth(&self, bid_levels: usize, ask_levels: usize) -> (r: bool)
        ensures
            r == (bid_levels >= self.spec_min_depth() && ask_levels >= self.spec_min_depth()),
    {
        bid_levels >= self.min_depth && ask_levels >= self.min_depth
    }

    /// The spread, in basis points of the mid price, is below the maximum;
    /// never with a zero mid price.
    pub fn is_spread_acceptable(&self, spread: Dec, mid_price: Dec) -> (r: bool)
        requires
            spread_bps_ok(spread, mid_price),
        ensures
            r == (mid_price.val() != 0 && spread_bps_of(spread, mid_price).val()
                < self.spec_max_spread_bps().val()),
    {
        if mid_price.is_zero() {
            return false;
        }
        let spread_bps = dec_mul(dec_div(spread, mid_price), Dec::from_u64(10000));
        spread_bps.lt(&self.max_spread_bps)
    }
}

/// Validates liquidity depth for trade execution
pub struct LiquidityValidator {
    min_depth_levels: usize,
    min_total_liquidity: Dec,
    max_slippage_bps: Dec,
}

#[derive(Debug)]
pub enum LiquidityError {
    InsufficientDepth { available: usize, required: usize },
    InsufficientQuantity { required: Dec, available: Dec },
    InsufficientValue { available: Dec, required: Dec },
}

/// What remains to take and the value taken so far.
pub struct Take {
    pub remaining: Dec,
    pub value: Dec,
}

pub open spec fn take_step(st: Take, level: PriceLevel) -> Take {
    let q = dec_min(st.remaining, level.quantity);
    Take {
        remaining: decimal_difference(st.remaining, q),
        value: decimal_sum(st.value, decimal_product(q, level.price)),
    }
}

pub open spec fn take_step_ok(st: Take, level: PriceLevel) -> bool {
    let q = dec_min(st.remaining, level.quantity);
    &&& product_ok(q, level.price)
    &&& sum_ok(st.value, decimal_product(q, level.price))
    &&& difference_ok(st.remaining, q)
}

/// Taking `qty` from the first `n` levels in order: each level gives as
/// much as remains, and taking stops after the level that leaves nothing.
pub open spec fn take(levels: Seq<PriceLevel>, qty: Dec, n: nat) -> Take
    decreases n,
{
    if n == 0 {
        Take { remaining: qty, value: Dec::literal(0, 0) }
    } else {
        let st = take(levels, qty, (n - 1) as nat);
        if n - 1 > 0 && st.remaining.val() <= 0 {
            st
        } else {
            take_step(st, levels[n - 1])
        }
    }
}

pub open spec fn take_ok(levels: Seq<PriceLevel>, qty: Dec, n: nat) -> bool
    decreases n,
{
    n == 0 || {
        let st = take(levels, qty, (n - 1) as nat);
        &&& take_ok(levels, qty, (n - 1) as nat)
        &&& (!(n - 1 > 0 && st.remaining.val() <= 0) ==> take_step_ok(st, levels[n - 1]))
    }
}

proof fn lemma_take_ok_prefix(levels: Seq<PriceLevel>, qty: Dec, k: nat, n: nat)
    requires
        k <= n,
        take_ok(levels, qty, n),
    ensures
        take_ok(levels, qty, k),
    decreases n - k,
{
    if k < n {
        lemma_take_ok_prefix(levels, qty, k, (n - 1) as nat);
    }
}

proof fn lemma_take_stays(levels: Seq<PriceLevel>, qty: Dec, k: nat, n: nat)
    requires
        0 < k <= n,
        take(levels, qty, k).remaining.val() <= 0,
    ensures
        take(levels, qty, n) == take(levels, qty, k),
    decreases n - k,
{
    if k < n {
        lemma_take_stays(levels, qty, k, (n - 1) as nat);
    }
}

/// The outcome of validating `levels` for `qty` against these minimums.
pub open spec fn depth_result(
    min_levels: usize,
    min_total: Dec,
    levels: Seq<PriceLevel>,
    qty: Dec,
) -> Result<Dec, LiquidityError> {
    if levels.len() < min_levels {
        Err(LiquidityError::InsufficientDepth { available: levels.len() as usize, required: min_levels })
    } else {
        let st = take(levels, qty, min_levels as nat);
        if st.remaining.val() > 0 {
            Err(
                LiquidityError::InsufficientQuantity {
                    required: qty,
                    available: decimal_difference(qty, st.remaining),
                },
            )
        } else if notional_sum(levels, levels.len()).val() < min_total.val() {
            Err(
                LiquidityError::InsufficientValue {
                    available: notional_sum(levels, levels.len()),
                    required: min_total,
                },
            )
        } else {
            Ok(st.value)
        }
    }
}

pub open spec fn depth_result_ok(min_levels: usize, levels: Seq<PriceLevel>, qty: Dec) -> bool {
    levels.len() >= min_levels ==> {
        let st = take(levels, qty, min_levels as nat);
        &&& take_ok(levels, qty, min_levels as nat)
        &&& (st.remaining.val() > 0 ==> difference_ok(qty, st.remaining))
        &&& (st.remaining.val() <= 0 ==> notional_sum_ok(levels, levels.len()))
    }
}

/// The liquidity a side offers: price times quantity summed over its levels.
pub fn side_value(levels: &[PriceLevel]) -> (r: Dec)
    requires
        notional_sum_ok(levels@, levels@.len()),
    ensures
        r == notional_sum(levels@, levels@.len()),
{
    let n = levels.len();
    let mut sum = Dec::zero();
    let mut i: usize = 0;
    while i < n
        invariant
            0 <= i <= n,
            n == levels@.len(),
            notional_sum_ok(levels@, n as nat),
            sum == notional_sum(levels@, i as nat),
        decreases n - i,
    {
        proof {
            lemma_notional_ok_prefix(levels@, (i + 1) as nat, n as nat);
        }
        let v = levels[i].value();
        sum = dec_add(sum, v);
        i = i + 1;
    }
    sum
}

impl LiquidityValidator {
    pub closed spec fn spec_min_depth_levels(&self) -> usize {
        self.min_depth_levels
    }

    pub closed spec fn spec_min_total_liquidity(&self) -> Dec {
        self.min_total_liquidity
    }

    pub closed spec fn spec_max_slippage_bps(&self) -> Dec {
        self.max_slippage_bps
    }

    pub fn new(min_depth_levels: usize, min_total_liquidity: Dec, max_slippage_bps: Dec) -> (r:
        LiquidityValidator)
        ensures
            r.spec_min_depth_levels() == min_depth_levels,
            r.spec_min_total_liquidity() == min_total_liquidity,
            r.spec_max_slippage_bps() == max_slippage_bps,
    {
        LiquidityValidator { min_depth_levels, min_total_liquidity, max_slippage_bps }
    }

    /// Ten levels, $100k of liquidity and 20 bps of slippage at most.
    pub fn institutional() -> (r: LiquidityValidator)
        ensures
            r.spec_min_depth_levels() == 10,
            r.spec_min_total_liquidity() == Dec::literal(100000, 0),
            r.spec_max_slippage_bps() == Dec::literal(20, 0),
    {
        LiquidityValidator {
            min_depth_levels: 10,
            min_total_liquidity: Dec::from_u64(100000),
            max_slippage_bps: Dec::from_u64(20),
        }
    }

    /// The value of taking `required_quantity` from the first levels, when
    /// there are enough levels, they hold the quantity and the whole side
    /// offers at least the minimum liquidity (price times quantity summed
    /// over its levels).
    pub fn validate_depth(&self, levels: &[PriceLevel], required_quantity: Dec) -> (r: Result<
        Dec,
        LiquidityError,
    >)
        requires
            depth_result_ok(self.spec_min_depth_levels(), levels@, required_quantity),
        ensures
            r == depth_result(
                self.spec_min_depth_levels(),
                self.spec_min_total_liquidity(),
                levels@,
                required_quantity,
            ),
    {
        if levels.len() < self.min_depth_levels {
            return Err(
                LiquidityError::InsufficientDepth {
                    available: levels.len(),
                    required: self.min_depth_levels,
                },
            );
        }
        let n = self.min_depth_levels;
        let mut remaining = required_quantity;
        let mut total_value = Dec::zero();
        let mut i: usize = 0;
        while i < n
            invariant_except_break
                0 <= i <= n <= levels@.len(),
                n == self.min_depth_levels,
                take_ok(levels@, required_quantity, n as nat),
                (Take { remaining, value: total_value }) == take(
                    levels@,
                    required_quantity,
                    i as nat,
                ),
                i > 0 ==> remaining.val() > 0,
            ensures
                (Take { remaining, value: total_value }) == take(
                    levels@,
                    required_quantity,
                    n as nat,
                ),
            decreases n - i,
        {
            proof {
                lemma_take_ok_prefix(levels@, required_quantity, (i + 1) as nat, n as nat);
            }
            let level = levels[i];
            let qty = remaining.min(level.quantity);
            total_value = dec_add(total_value, dec_mul(qty, level.price));
            remaining = dec_sub(remaining, qty);
            i = i + 1;
            if !remaining.is_positive() {
                proof {
                    lemma_take_stays(levels@, required_quantity, i as nat, n as nat);
                }
                break;
            }
        }
        if remaining.is_positive() {
            return Err(
                LiquidityError::InsufficientQuantity {
                    required: required_quantity,
                    available: dec_sub(required_quantity, remaining),
                },
            );
        }
        let offered = side_value(levels);
        if offered.lt(&self.min_total_liquidity) {
            return Err(
                LiquidityError::InsufficientValue {
                    available: offered,
                    required: self.min_total_liquidity,
                },
            );
        }
        Ok(total_value)
    }
}

} // verus!
