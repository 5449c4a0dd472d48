//! Computations over the price levels of one side of an order book:
//! stable sorting by price, notional sums, volume-weighted fills and slippage.
use vstd::prelude::*;
use crate::decimal::{
    Dec, dec_add, dec_sub, dec_mul, dec_div, dec_min, decimal_sum, decimal_difference,
    decimal_product, decimal_quotient, sum_ok, difference_ok, product_ok, quotient_ok, unit, abs,
};
use crate::types::PriceLevel;

verus! {

// ---------------------------------------------------------------------------
// Sorting

/// `p` may stay in front of `x` in a side sorted descending (bids) or
/// ascending (asks) by price.
pub open spec fn keeps_before(p: PriceLevel, x: PriceLevel, descending: bool) -> bool {
    if descending {
        p.price.val() >= x.price.val()
    } else {
        p.price.val() <= x.price.val()
    }
}

/// `x` inserted into a sorted side after every level it need not precede.
pub open spec fn insert_level(sorted: Seq<PriceLevel>, x: PriceLevel, descending: bool) -> Seq<
    PriceLevel,
>
    decreases sorted.len(),
{
    if sorted.len() == 0 {
        seq![x]
    } else if keeps_before(sorted.last(), x, descending) {
        sorted.push(x)
    } else {
        insert_level(sorted.drop_last(), x, descending).push(sorted.last())
    }
}

/// The levels sorted by price, equal prices in the order given: what a
/// stable sort gives.
pub open spec fn sort_levels(s: Seq<PriceLevel>, descending: bool) -> Seq<PriceLevel>
    decreases s.len(),
{
    if s.len() == 0 {
        s
    } else {
        insert_level(sort_levels(s.drop_last(), descending), s.last(), descending)
    }
}

/// Every level may stay in front of every later one.
pub open spec fn levels_sorted(s: Seq<PriceLevel>, descending: bool) -> bool {
    forall|i: int, j: int| 0 <= i < j < s.len() ==> keeps_before(s[i], s[j], descending)
}

proof fn lemma_insert_past(a: Seq<PriceLevel>, b: Seq<PriceLevel>, x: PriceLevel, descending: bool)
    requires
        forall|k: int| 0 <= k < b.len() ==> !keeps_before(#[trigger] b[k], x, descending),
    ensures
        insert_level(a + b, x, descending) == insert_level(a, x, descending) + b,
    decreases b.len(),
{
    if b.len() == 0 {
        assert(a + b == a);
    } else {
        let ab = a + b;
        assert(ab.last() == b.last());
        assert(ab.drop_last() == a + b.drop_last());
        lemma_insert_past(a, b.drop_last(), x, descending);
        assert(insert_level(a, x, descending) + b == (insert_level(a, x, descending)
            + b.drop_last()).push(b.last()));
    }
}

proof fn lemma_insert_sorted(s: Seq<PriceLevel>, x: PriceLevel, descending: bool)
    requires
        levels_sorted(s, descending),
    ensures
        levels_sorted(insert_level(s, x, descending), descending),
        insert_level(s, x, descending).len() == s.len() + 1,
        insert_level(s, x, descending).to_multiset() == s.to_multiset().insert(x),
    decreases s.len(),
{
    broadcast use vstd::seq_lib::group_to_multiset_ensures;

    if s.len() == 0 {
        assert(seq![x].to_multiset() == s.to_multiset().insert(x)) by {
            assert(seq![x] == s.push(x));
        }
    } else if keeps_before(s.last(), x, descending) {
        let r = s.push(x);
        assert forall|i: int, j: int| 0 <= i < j < r.len() implies keeps_before(
            r[i],
            r[j],
            descending,
        ) by {
            if j == s.len() {
                assert(keeps_before(s[i], s.last(), descending) || i == s.len() - 1);
            }
        }
    } else {
        let p = s.drop_last();
        assert(levels_sorted(p, descending));
        lemma_insert_sorted(p, x, descending);
        let q = insert_level(p, x, descending);
        let r = q.push(s.last());
        assert(s == p.push(s.last()));
        assert forall|i: int, j: int| 0 <= i < j < r.len() implies keeps_before(
            r[i],
            r[j],
            descending,
        ) by {
            if j == q.len() {
                // every element of q is either x or an element of p
                assert(q.to_multiset().count(r[i]) > 0) by {
                    assert(q.contains(r[i]));
                }
                if r[i] == x {
                } else {
                    assert(p.to_multiset().count(r[i]) > 0);
                    assert(p.contains(r[i]));
                    let k = choose|k: int| 0 <= k < p.len() && p[k] == r[i];
                    assert(keeps_before(s[k], s[s.len() - 1], descending));
                }
            }
        }
    }
}

/// Sorting orders the levels and keeps every one of them.
pub proof fn lemma_sort_levels(s: Seq<PriceLevel>, descending: bool)
    ensures
        levels_sorted(sort_levels(s, descending), descending),
        sort_levels(s, descending).len() == s.len(),
        sort_levels(s, descending).to_multiset() == s.to_multiset(),
    decreases s.len(),
{
    broadcast use vstd::seq_lib::group_to_multiset_ensures;

    if s.len() > 0 {
        lemma_sort_levels(s.drop_last(), descending);
        lemma_insert_sorted(sort_levels(s.drop_last(), descending), s.last(), descending);
        assert(s == s.drop_last().push(s.last()));
    }
}

/// Sorts `v` by price, descending or ascending, keeping equal prices in order.
pub fn sort_levels_in_place(v: &mut Vec<PriceLevel>, descending: bool)
    ensures
        final(v)@ == sort_levels(old(v)@, descending),
{
    let ghost orig = v@;
    let n = v.len();
    if n == 0 {
        return ;
    }
    let mut i: usize = 1;
    proof {
        let s1 = orig.subrange(0, 1);
        assert(s1.drop_last() =~= Seq::<PriceLevel>::empty());
        assert(sort_levels(s1.drop_last(), descending) == Seq::<PriceLevel>::empty());
        assert(insert_level(Seq::<PriceLevel>::empty(), s1.last(), descending) == seq![s1.last()]);
        assert(sort_levels(s1, descending) == seq![orig[0]]);
        assert(v@.subrange(0, 1) =~= seq![orig[0]]);
        assert(v@.subrange(1, n as int) =~= orig.subrange(1, n as int));
    }
    while i < n
        invariant
            1 <= i <= n,
            n == v.len(),
            orig.len() == n,
            v@.subrange(0, i as int) == sort_levels(orig.subrange(0, i as int), descending),
            v@.subrange(i as int, n as int) == orig.subrange(i as int, n as int),
        decreases n - i,
    {
        let ghost prefix = v@.subrange(0, i as int);
        let ghost x = orig[i as int];
        proof {
            assert(v@[i as int] == v@.subrange(i as int, n as int)[0]);
            assert(orig[i as int] == orig.subrange(i as int, n as int)[0]);
            assert(v@.subrange(0, i as int) =~= prefix.subrange(0, i as int));
            assert(v@.subrange(i as int + 1, i as int + 1) =~= prefix.subrange(i as int, i as int));
            assert forall|k: int| 0 <= k < n - (i + 1) implies #[trigger] v@.subrange(
                i as int + 1,
                n as int,
            )[k] == orig.subrange(i as int + 1, n as int)[k] by {
                assert(v@.subrange(i as int, n as int)[k + 1] == orig.subrange(i as int, n as int)[k + 1]);
            }
            assert(v@.subrange(i as int + 1, n as int) =~= orig.subrange(i as int + 1, n as int));
        }
        let mut j: usize = i;
        while j > 0 && !keeps_before_exec(&v[j - 1], &v[j], descending)
            invariant
                0 <= j <= i < n,
                n == v.len(),
                prefix.len() == i,
                v@[j as int] == x,
                v@.subrange(0, j as int) == prefix.subrange(0, j as int),
                v@.subrange(j as int + 1, i as int + 1) == prefix.subrange(j as int, i as int),
                v@.subrange(i as int + 1, n as int) == orig.subrange(i as int + 1, n as int),
                forall|k: int|
                    j <= k < i ==> !keeps_before(#[trigger] prefix[k], x, descending),
            decreases j,
        {
            let ghost old_v = v@;
            proof {
                assert(old_v[j - 1] == old_v.subrange(0, j as int)[j - 1]);
                assert(old_v[j - 1] == prefix[j - 1]);
            }
            let a = v[j - 1];
            let b = v[j];
            v.set(j - 1, b);
            v.set(j, a);
            j = j - 1;
            proof {
                assert forall|k: int| 0 <= k < j implies v@[k] == prefix[k] by {
                    assert(old_v.subrange(0, j as int + 1)[k] == prefix.subrange(0, j as int + 1)[k]);
                }
                assert(v@.subrange(0, j as int) =~= prefix.subrange(0, j as int));
                assert forall|k: int| 0 <= k < i - j implies #[trigger] v@.subrange(
                    j as int + 1,
                    i as int + 1,
                )[k] == prefix.subrange(j as int, i as int)[k] by {
                    if k > 0 {
                        assert(old_v.subrange(j as int + 2, i as int + 1)[k - 1] == prefix.subrange(
                            j as int + 1,
                            i as int,
                        )[k - 1]);
                    }
                }
                assert(v@.subrange(j as int + 1, i as int + 1) =~= prefix.subrange(j as int, i as int));
                assert forall|k: int| 0 <= k < n - (i + 1) implies #[trigger] v@.subrange(
                    i as int + 1,
                    n as int,
                )[k] == orig.subrange(i as int + 1, n as int)[k] by {
                    assert(old_v.subrange(i as int + 1, n as int)[k] == orig.subrange(i as int + 1, n as int)[k]);
                }
                assert(v@.subrange(i as int + 1, n as int) =~= orig.subrange(i as int + 1, n as int));
            }
        }
        proof {
            let a = prefix.subrange(0, j as int);
            let b = prefix.subrange(j as int, i as int);
            assert(prefix =~= a + b);
            lemma_insert_past(a, b, x, descending);
            if j > 0 {
                assert(v@[j - 1] == v@.subrange(0, j as int)[j - 1]);
                assert(keeps_before(a.last(), x, descending));
                assert(insert_level(a, x, descending) == a.push(x));
            } else {
                assert(a.len() == 0);
                assert(insert_level(a, x, descending) == seq![x]);
            }
            assert forall|k: int| 0 <= k < i + 1 implies #[trigger] v@.subrange(0, i as int + 1)[k]
                == (insert_level(a, x, descending) + b)[k] by {
                if k < j {
                    assert(v@.subrange(0, j as int)[k] == a[k]);
                } else if k > j {
                    assert(v@.subrange(j as int + 1, i as int + 1)[k - j - 1] == b[k - j - 1]);
                }
            }
            assert(v@.subrange(0, i as int + 1) =~= insert_level(a, x, descending) + b);
            let o = orig.subrange(0, i as int + 1);
            assert(o.drop_last() =~= orig.subrange(0, i as int));
            assert(o.last() == x);
            assert(sort_levels(o, descending) == insert_level(prefix, x, descending));
        }
        i = i + 1;
    }
    assert(v@ =~= v@.subrange(0, n as int));
    assert(orig =~= orig.subrange(0, n as int));
}

fn keeps_before_exec(p: &PriceLevel, x: &PriceLevel, descending: bool) -> (r: bool)
    ensures
        r == keeps_before(*p, *x, descending),
{
    if descending {
        p.price.ge(&x.price)
    } else {
        p.price.le(&x.price)
    }
}

// ---------------------------------------------------------------------------
// Notional sums

/// The sum of price times quantity over the first `n` levels, accumulated from
/// zero in order, as `Iterator::sum` does.
pub open spec fn notional_sum(levels: Seq<PriceLevel>, n: nat) -> Dec
    decreases n,
{
    if n == 0 {
        Dec::literal(0, 0)
    } else {
        decimal_sum(
            notional_sum(levels, (n - 1) as nat),
            decimal_product(levels[n - 1].price, levels[n - 1].quantity),
        )
    }
}

/// No step of `notional_sum(levels, n)` overflows.
pub open spec fn notional_sum_ok(levels: Seq<PriceLevel>, n: nat) -> bool
    decreases n,
{
    n == 0 || {
        &&& notional_sum_ok(levels, (n - 1) as nat)
        &&& product_ok(levels[n - 1].price, levels[n - 1].quantity)
        &&& sum_ok(
            notional_sum(levels, (n - 1) as nat),
            decimal_product(levels[n - 1].price, levels[n - 1].quantity),
        )
    }
}

pub open spec fn min_nat(a: nat, b: nat) -> nat {
    if a <= b {
        a
    } else {
        b
    }
}

/// The notional value of the first `depth` levels (all of them when fewer).
pub fn notional_up_to(levels: &Vec<PriceLevel>, depth: usize) -> (r: Dec)
    requires
        notional_sum_ok(levels@, min_nat(depth as nat, levels@.len())),
    ensures
        r == notional_sum(levels@, min_nat(depth as nat, levels@.len())),
{
    let n = if depth < levels.len() {
        depth
    } else {
        levels.len()
    };
    let mut sum = Dec::zero();
    let mut i: usize = 0;
    while i < n
        invariant
            0 <= i <= n,
            n == min_nat(depth as nat, levels@.len()),
            n <= levels@.len(),
            notional_sum_ok(levels@, n as nat),
            sum == notional_sum(levels@, i as nat),
        decreases n - i,
    {
        proof {
            lemma_notional_ok_prefix(levels@, (i + 1) as nat, n as nat);
        }
        let v = levels[i].value();
        sum = dec_add(sum, v);
        i = i + 1;
    }
    sum
}

pub proof fn lemma_notional_ok_prefix(levels: Seq<PriceLevel>, k: nat, n: nat)
    requires
        k <= n,
        notional_sum_ok(levels, n),
    ensures
        notional_sum_ok(levels, k),
    decreases n - k,
{
    if k < n {
        lemma_notional_ok_prefix(levels, k, (n - 1) as nat);
    }
}

// ---------------------------------------------------------------------------
// Filling a quantity against the levels

/// What remains to fill, the cost so far and the quantity filled so far.
pub struct Fill {
    pub remaining: Dec,
    pub cost: Dec,
    pub filled: Dec,
}

/// One level taken: as much of it as remains to fill.
pub open spec fn fill_step(st: Fill, level: PriceLevel) -> Fill {
    let q = dec_min(st.remaining, level.quantity);
    Fill {
        remaining: decimal_difference(st.remaining, q),
        cost: decimal_sum(st.cost, decimal_product(q, level.price)),
        filled: decimal_sum(st.filled, q),
    }
}

pub open spec fn fill_step_ok(st: Fill, level: PriceLevel) -> bool {
    let q = dec_min(st.remaining, level.quantity);
    &&& product_ok(q, level.price)
    &&& sum_ok(st.cost, decimal_product(q, level.price))
    &&& sum_ok(st.filled, q)
    &&& difference_ok(st.remaining, q)
}

/// The fill of `qty` against the first `n` levels, walking the levels in
/// order and stopping once nothing remains.
pub open spec fn fill(levels: Seq<PriceLevel>, qty: Dec, n: nat) -> Fill
    decreases n,
{
    if n == 0 {
        Fill { remaining: qty, cost: Dec::literal(0, 0), filled: Dec::literal(0, 0) }
    } else {
        let st = fill(levels, qty, (n - 1) as nat);
        if st.remaining.val() <= 0 {
            st
        } else {
            fill_step(st, levels[n - 1])
        }
    }
}

pub open spec fn fill_ok(levels: Seq<PriceLevel>, qty: Dec, n: nat) -> bool
    decreases n,
{
    n == 0 || {
        let st = fill(levels, qty, (n - 1) as nat);
        &&& fill_ok(levels, qty, (n - 1) as nat)
        &&& (st.remaining.val() > 0 ==> fill_step_ok(st, levels[n - 1]))
    }
}

/// The volume-weighted average price of filling `qty`: cost over quantity
/// filled, `None` when nothing is filled.
pub open spec fn vwap_of(levels: Seq<PriceLevel>, qty: Dec) -> Option<Dec> {
    let st = fill(levels, qty, levels.len());
    if st.filled.val() > 0 {
        Some(decimal_quotient(st.cost, st.filled))
    } else {
        None
    }
}

pub open spec fn vwap_ok(levels: Seq<PriceLevel>, qty: Dec) -> bool {
    let st = fill(levels, qty, levels.len());
    &&& fill_ok(levels, qty, levels.len())
    &&& (st.filled.val() > 0 ==> quotient_ok(st.cost, st.filled))
}

proof fn lemma_fill_ok_prefix(levels: Seq<PriceLevel>, qty: Dec, k: nat, n: nat)
    requires
        k <= n,
        fill_ok(levels, qty, n),
    ensures
        fill_ok(levels, qty, k),
    decreases n - k,
{
    if k < n {
        lemma_fill_ok_prefix(levels, qty, k, (n - 1) as nat);
    }
}

/// Volume-weighted average price of filling `quantity` against `levels`.
pub fn vwap_of_levels(levels: &[PriceLevel], quantity: Dec) -> (r: Option<Dec>)
    requires
        vwap_ok(levels@, quantity),
    ensures
        r == vwap_of(levels@, quantity),
{
    let mut remaining = quantity;
    let mut total_cost = Dec::zero();
    let mut total_qty = Dec::zero();
    let n = levels.len();
    let mut i: usize = 0;
    while i < n
        invariant_except_break
            0 <= i <= n,
            n == levels@.len(),
            fill_ok(levels@, quantity, n as nat),
            (Fill { remaining, cost: total_cost, filled: total_qty }) == fill(
                levels@,
                quantity,
                i as nat,
            ),
        ensures
            (Fill { remaining, cost: total_cost, filled: total_qty }) == fill(
                levels@,
                quantity,
                n as nat,
            ),
        decreases n - i,
    {
        proof {
            lemma_fill_ok_prefix(levels@, quantity, (i + 1) as nat, n as nat);
        }
        if !remaining.is_positive() {
            proof {
                lemma_fill_stays(levels@, quantity, i as nat, n as nat);
            }
            break;
        }
        let level = levels[i];
        let qty = remaining.min(level.quantity);
        total_cost = dec_add(total_cost, dec_mul(qty, level.price));
        total_qty = dec_add(total_qty, qty);
        remaining = dec_sub(remaining, qty);
        i = i + 1;
    }
    if total_qty.is_positive() {
        Some(dec_div(total_cost, total_qty))
    } else {
        None
    }
}

/// Once nothing remains to fill, later levels change nothing.
proof fn lemma_fill_stays(levels: Seq<PriceLevel>, qty: Dec, k: nat, n: nat)
    requires
        k <= n,
        fill(levels, qty, k).remaining.val() <= 0,
    ensures
        fill(levels, qty, n) == fill(levels, qty, k),
    decreases n - k,
{
    if k < n {
        lemma_fill_stays(levels, qty, k, (n - 1) as nat);
    }
}

/// Every step of the fill of `qty` over the first `n` levels is exact: the
/// products and sums carry no rounding.
pub open spec fn fill_exact(levels: Seq<PriceLevel>, qty: Dec, n: nat) -> bool
    decreases n,
{
    n == 0 || {
        let st = fill(levels, qty, (n - 1) as nat);
        let level = levels[n - 1];
        let q = dec_min(st.remaining, level.quantity);
        &&& fill_exact(levels, qty, (n - 1) as nat)
        &&& (st.remaining.val() > 0 ==> {
            &&& decimal_product(q, level.price).val() * unit() == q.val() * level.price.val()
            &&& decimal_sum(st.cost, decimal_product(q, level.price)).val() == st.cost.val()
                + decimal_product(q, level.price).val()
            &&& decimal_sum(st.filled, q).val() == st.filled.val() + q.val()
        })
    }
}

/// Every level of `levels` is priced at most `top` (when `below`) or at
/// least `top` (otherwise), and none has a negative quantity.
pub open spec fn levels_bounded(levels: Seq<PriceLevel>, top: int, below: bool) -> bool {
    forall|i: int|
        0 <= i < levels.len() ==> (#[trigger] levels[i]).quantity.val() >= 0 && if below {
            levels[i].price.val() <= top
        } else {
            levels[i].price.val() >= top
        }
}

proof fn lemma_fill_cost_bound(levels: Seq<PriceLevel>, qty: Dec, n: nat, top: int, below: bool)
    requires
        n <= levels.len(),
        levels_bounded(levels, top, below),
        fill_exact(levels, qty, n),
    ensures
        fill(levels, qty, n).filled.val() >= 0,
        below ==> fill(levels, qty, n).cost.val() * unit() <= fill(levels, qty, n).filled.val()
            * top,
        !below ==> fill(levels, qty, n).cost.val() * unit() >= fill(levels, qty, n).filled.val()
            * top,
    decreases n,
{
    if n == 0 {
        Dec::lemma_literal(0, 0);
        assert(Dec::literal(0, 0).val() == 0);
        assert(fill(levels, qty, n).cost.val() == 0);
        assert(fill(levels, qty, n).filled.val() == 0);
    } else {
        lemma_fill_cost_bound(levels, qty, (n - 1) as nat, top, below);
        let st = fill(levels, qty, (n - 1) as nat);
        if st.remaining.val() > 0 {
            let level = levels[n - 1];
            let q = dec_min(st.remaining, level.quantity);
            let p = level.price.val();
            let prod = decimal_product(q, level.price);
            assert(levels_bounded(levels, top, below) ==> level.quantity.val() >= 0);
            assert(q.val() >= 0);
            let c = st.cost.val();
            let f = st.filled.val();
            assert((c + prod.val()) * unit() == c * unit() + prod.val() * unit()) by (nonlinear_arith);
            assert((f + q.val()) * top == f * top + q.val() * top) by (nonlinear_arith);
            let next = fill(levels, qty, n);
            assert(next == fill_step(st, level));
            assert(next.cost.val() == c + prod.val());
            assert(next.filled.val() == f + q.val());
            assert(next.cost.val() * unit() == c * unit() + q.val() * p);
            if below {
                assert(p <= top);
                assert(q.val() * p <= q.val() * top) by (nonlinear_arith)
                    requires
                        q.val() >= 0,
                        p <= top,
                ;
                assert(c * unit() <= f * top);
            } else {
                assert(p >= top);
                assert(q.val() * p >= q.val() * top) by (nonlinear_arith)
                    requires
                        q.val() >= 0,
                        p >= top,
                ;
                assert(c * unit() >= f * top);
            }
        }
    }
}

/// Filling against levels priced at most `top` (a sell walking the bids
/// from the best down) gives a volume-weighted price of at most `top`, and
/// against levels priced at least `top` (a buy walking the asks from the
/// best up) at least `top`: exactly when the fill's products and sums are
/// exact, and give or take `slack` when the final division is within
/// `slack` of the exact quotient.
pub proof fn lemma_vwap_bounded(levels: Seq<PriceLevel>, qty: Dec, top: int, below: bool, slack: int, v: Dec)
    requires
        levels_bounded(levels, top, below),
        fill_exact(levels, qty, levels.len()),
        vwap_of(levels, qty) == Some(v),
        slack >= 0,
        abs(v.val() * fill(levels, qty, levels.len()).filled.val() - fill(
            levels,
            qty,
            levels.len(),
        ).cost.val() * unit()) <= slack * fill(levels, qty, levels.len()).filled.val(),
    ensures
        below ==> v.val() <= top + slack,
        !below ==> v.val() >= top - slack,
{
    lemma_fill_cost_bound(levels, qty, levels.len(), top, below);
    let st = fill(levels, qty, levels.len());
    let f = st.filled.val();
    let c = st.cost.val();
    let x = v.val();
    assert(f > 0);
    if below {
        assert(x * f <= c * unit() + slack * f);
        assert(x * f <= (top + slack) * f) by (nonlinear_arith)
            requires
                x * f <= c * unit() + slack * f,
                c * unit() <= f * top,
        ;
        assert(x <= top + slack) by (nonlinear_arith)
            requires
                x * f <= (top + slack) * f,
                f > 0,
        ;
    } else {
        assert(x * f >= c * unit() - slack * f);
        assert(x * f >= (top - slack) * f) by (nonlinear_arith)
            requires
                x * f >= c * unit() - slack * f,
                c * unit() >= f * top,
        ;
        assert(x >= top - slack) by (nonlinear_arith)
            requires
                x * f >= (top - slack) * f,
                f > 0,
        ;
    }
}

// ---------------------------------------------------------------------------
// Slippage

/// |vwap - best| / best.
pub open spec fn slippage_from(best: Dec, vwap: Dec) -> Dec {
    decimal_quotient(decimal_difference(vwap, best).magnitude(), best)
}

pub open spec fn slippage_from_ok(best: Dec, vwap: Dec) -> bool {
    &&& difference_ok(vwap, best)
    &&& quotient_ok(decimal_difference(vwap, best).magnitude(), best)
}

/// |vwap - best| / best.
pub fn slippage_between(best: Dec, vwap: Dec) -> (r: Dec)
    requires
        slippage_from_ok(best, vwap),
    ensures
        r == slippage_from(best, vwap),
{
    let d = dec_sub(vwap, best);
    dec_div(d.abs(), best)
}

} // verus!
