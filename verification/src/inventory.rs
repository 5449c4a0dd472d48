//! Inventory across exchanges, its limits and the hedge that brings it back
//! to target.
use vstd::prelude::*;
use vstd::string::StringExecFns;
use crate::decimal::{
    Dec, dec_add, dec_sub, dec_to_string, decimal_sum, decimal_difference, decimal_text, sum_ok,
    difference_ok, lemma_pow10_positive,
};
use crate::types::{Exchange, Side, Symbol, same_symbol};

verus! {

/// An inventory entry: exchange, symbol and quantity held.
pub type InventoryEntry = (Exchange, Symbol, Dec);

pub open spec fn entry_matches(e: InventoryEntry, exchange: Exchange, symbol: Symbol) -> bool {
    e.0 == exchange && same_symbol(e.1, symbol)
}

/// The first entry from `i` on for this exchange and symbol.
pub open spec fn find_entry(s: Seq<InventoryEntry>, exchange: Exchange, symbol: Symbol, i: int) -> Option<int>
    decreases s.len() - i,
{
    if i < 0 || i >= s.len() {
        None
    } else if entry_matches(s[i], exchange, symbol) {
        Some(i)
    } else {
        find_entry(s, exchange, symbol, i + 1)
    }
}

proof fn lemma_find_entry(s: Seq<InventoryEntry>, exchange: Exchange, symbol: Symbol, i: int)
    requires
        0 <= i,
    ensures
        find_entry(s, exchange, symbol, i) matches Some(k) ==> i <= k < s.len(),
    decreases s.len() - i,
{
    if i < s.len() {
        lemma_find_entry(s, exchange, symbol, i + 1);
    }
}

/// The quantity held on an exchange for a symbol, zero when none.
pub open spec fn inventory_of(s: Seq<InventoryEntry>, exchange: Exchange, symbol: Symbol) -> Dec {
    match find_entry(s, exchange, symbol, 0) {
        Some(i) => s[i].2,
        None => Dec::literal(0, 0),
    }
}

/// The sum of the quantities held for a symbol over the first `n` entries,
/// accumulated from zero in order.
pub open spec fn net_of(s: Seq<InventoryEntry>, symbol: Symbol, n: nat) -> Dec
    decreases n,
{
    if n == 0 {
        Dec::literal(0, 0)
    } else if same_symbol(s[n - 1].1, symbol) {
        decimal_sum(net_of(s, symbol, (n - 1) as nat), s[n - 1].2)
    } else {
        net_of(s, symbol, (n - 1) as nat)
    }
}

pub open spec fn net_ok(s: Seq<InventoryEntry>, symbol: Symbol, n: nat) -> bool
    decreases n,
{
    n == 0 || {
        &&& net_ok(s, symbol, (n - 1) as nat)
        &&& (same_symbol(s[n - 1].1, symbol) ==> sum_ok(net_of(s, symbol, (n - 1) as nat), s[n - 1].2))
    }
}

proof fn lemma_net_ok_prefix(s: Seq<InventoryEntry>, symbol: Symbol, k: nat, n: nat)
    requires
        k <= n,
        net_ok(s, symbol, n),
    ensures
        net_ok(s, symbol, k),
    decreases n - k,
{
    if k < n {
        lemma_net_ok_prefix(s, symbol, k, (n - 1) as nat);
    }
}

/// Among the first `n` entries for the symbol, the one with the largest
/// magnitude above the running maximum (starting at zero, first one on
/// ties): its index and quantity.
pub open spec fn largest_holding(s: Seq<InventoryEntry>, symbol: Symbol, n: nat) -> (Option<int>, Dec)
    decreases n,
{
    if n == 0 {
        (None, Dec::literal(0, 0))
    } else {
        let prev = largest_holding(s, symbol, (n - 1) as nat);
        let e = s[n - 1];
        if same_symbol(e.1, symbol) && abs_val(e.2) > abs_val(prev.1) {
            (Some(n - 1), e.2)
        } else {
            prev
        }
    }
}

pub open spec fn abs_val(d: Dec) -> int {
    if d.val() < 0 {
        -d.val()
    } else {
        d.val()
    }
}

#[derive(Debug)]
pub enum InventoryError {
    ExceedsLimit { exchange: Exchange, current: Dec, after_trade: Dec, limit: Dec },
    NetInventoryExceeded { current: Dec, limit: Dec },
}

#[derive(Debug)]
pub struct HedgeRecommendation {
    pub exchange: Exchange,
    pub symbol: Symbol,
    pub side: Side,
    pub quantity: Dec,
    pub reason: String,
}

#[derive(Debug)]
pub struct InventorySummary {
    pub total_positions: usize,
    pub net_by_symbol: Vec<(Symbol, Dec)>,
    pub total_by_exchange: Vec<(Exchange, Dec)>,
}

/// Manages inventory across exchanges to prevent accumulation risk
pub struct InventoryManager {
    positions: Vec<InventoryEntry>,
    max_inventory: Dec,
    target_inventory: Dec,
    auto_hedge_enabled: bool,
}

/// What checking a trade of `q` bought on `buy` and sold on `sell` gives.
pub open spec fn trade_check(
    s: Seq<InventoryEntry>,
    max: Dec,
    buy: Exchange,
    sell: Exchange,
    symbol: Symbol,
    q: Dec,
) -> Result<(), InventoryError> {
    let bi = inventory_of(s, buy, symbol);
    let si = inventory_of(s, sell, symbol);
    let nb = decimal_sum(bi, q);
    let ns = decimal_difference(si, q);
    let net = net_of(s, symbol, s.len());
    let new_net = decimal_sum(net, Dec::literal(0, 0));
    if abs_val(nb) > max.val() {
        Err(InventoryError::ExceedsLimit { exchange: buy, current: bi, after_trade: nb, limit: max })
    } else if abs_val(ns) > max.val() {
        Err(InventoryError::ExceedsLimit { exchange: sell, current: si, after_trade: ns, limit: max })
    } else if abs_val(new_net) > max.val() {
        Err(InventoryError::NetInventoryExceeded { current: net, limit: max })
    } else {
        Ok(())
    }
}

pub open spec fn trade_check_ok(s: Seq<InventoryEntry>, buy: Exchange, sell: Exchange, symbol: Symbol, q: Dec) -> bool {
    &&& sum_ok(inventory_of(s, buy, symbol), q)
    &&& difference_ok(inventory_of(s, sell, symbol), q)
    &&& net_ok(s, symbol, s.len())
    &&& sum_ok(net_of(s, symbol, s.len()), Dec::literal(0, 0))
}

/// The hedge that brings the net inventory of a symbol back to target:
/// on the exchange with the largest holding, the side against the
/// deviation, for its size; none when auto-hedging is off, the deviation is
/// below 0.01, or no holding is non-zero.
pub open spec fn hedge_of(m: InventoryManager, symbol: Symbol) -> Option<(Exchange, Side, Dec, Seq<char>)> {
    let s = m.spec_positions();
    let net = net_of(s, symbol, s.len());
    let deviation = decimal_difference(net, m.spec_target());
    if !m.spec_auto_hedge() {
        None
    } else if abs_val(deviation) < Dec::literal(1, 2).val() {
        None
    } else {
        match largest_holding(s, symbol, s.len()).0 {
            Some(i) => Some(
                (
                    s[i].0,
                    if deviation.val() > 0 {
                        Side::Sell
                    } else {
                        Side::Buy
                    },
                    deviation.magnitude(),
                    "Net inventory "@ + decimal_text(net) + " exceeds target "@ + decimal_text(
                        m.spec_target(),
                    ),
                ),
            ),
            None => None,
        }
    }
}

/// The deviation of a symbol's net inventory from target.
pub open spec fn deviation_of(m: InventoryManager, symbol: Symbol) -> Dec {
    decimal_difference(net_of(m.spec_positions(), symbol, m.spec_positions().len()), m.spec_target())
}

/// A hedge works against the deviation from target: it sells only when the
/// net inventory is above target and buys only when it is below, always for
/// the size of the deviation; within 0.01 of target there is none.
pub proof fn lemma_hedge_against_deviation(m: InventoryManager, symbol: Symbol)
    ensures
        hedge_of(m, symbol) matches Some(h) ==> {
            &&& (h.1 == Side::Sell ==> deviation_of(m, symbol).val() > 0)
            &&& (h.1 == Side::Buy ==> deviation_of(m, symbol).val() < 0)
            &&& h.2 == deviation_of(m, symbol).magnitude()
            &&& abs_val(deviation_of(m, symbol)) >= Dec::literal(1, 2).val()
        },
{
    Dec::lemma_literal(1, 2);
    lemma_pow10_positive(26);
}

pub open spec fn hedge_ok(m: InventoryManager, symbol: Symbol) -> bool {
    let s = m.spec_positions();
    &&& net_ok(s, symbol, s.len())
    &&& difference_ok(net_of(s, symbol, s.len()), m.spec_target())
}

/// The per-symbol net and per-exchange gross totals over the first `n`
/// entries, each listed in the order first met.
pub open spec fn summary_of(s: Seq<InventoryEntry>, n: nat) -> (Seq<(Symbol, Dec)>, Seq<(Exchange, Dec)>)
    decreases n,
{
    if n == 0 {
        (Seq::empty(), Seq::empty())
    } else {
        let prev = summary_of(s, (n - 1) as nat);
        let e = s[n - 1];
        (add_to_symbol(prev.0, e.1, e.2), add_to_exchange(prev.1, e.0, e.2.magnitude()))
    }
}

pub open spec fn find_symbol_total(t: Seq<(Symbol, Dec)>, symbol: Symbol, i: int) -> Option<int>
    decreases t.len() - i,
{
    if i < 0 || i >= t.len() {
        None
    } else if same_symbol(t[i].0, symbol) {
        Some(i)
    } else {
        find_symbol_total(t, symbol, i + 1)
    }
}

pub open spec fn find_exchange_total(t: Seq<(Exchange, Dec)>, exchange: Exchange, i: int) -> Option<int>
    decreases t.len() - i,
{
    if i < 0 || i >= t.len() {
        None
    } else if t[i].0 == exchange {
        Some(i)
    } else {
        find_exchange_total(t, exchange, i + 1)
    }
}

pub open spec fn add_to_symbol(t: Seq<(Symbol, Dec)>, symbol: Symbol, q: Dec) -> Seq<(Symbol, Dec)> {
    match find_symbol_total(t, symbol, 0) {
        Some(k) => t.update(k, (t[k].0, decimal_sum(t[k].1, q))),
        None => t.push((symbol, q)),
    }
}

pub open spec fn add_to_exchange(t: Seq<(Exchange, Dec)>, exchange: Exchange, q: Dec) -> Seq<
    (Exchange, Dec),
> {
    match find_exchange_total(t, exchange, 0) {
        Some(k) => t.update(k, (t[k].0, decimal_sum(t[k].1, q))),
        None => t.push((exchange, q)),
    }
}

pub open spec fn summary_ok(s: Seq<InventoryEntry>, n: nat) -> bool
    decreases n,
{
    n == 0 || {
        let prev = summary_of(s, (n - 1) as nat);
        let e = s[n - 1];
        &&& summary_ok(s, (n - 1) as nat)
        &&& (find_symbol_total(prev.0, e.1, 0) matches Some(k) ==> sum_ok(prev.0[k].1, e.2))
        &&& (find_exchange_total(prev.1, e.0, 0) matches Some(k) ==> sum_ok(
            prev.1[k].1,
            e.2.magnitude(),
        ))
    }
}

proof fn lemma_summary_ok_prefix(s: Seq<InventoryEntry>, k: nat, n: nat)
    requires
        k <= n,
        summary_ok(s, n),
    ensures
        summary_ok(s, k),
    decreases n - k,
{
    if k < n {
        lemma_summary_ok_prefix(s, k, (n - 1) as nat);
    }
}

impl InventoryManager {
    /// The quantity held per exchange and symbol, in the order first set.
    pub closed spec fn spec_positions(&self) -> Seq<InventoryEntry> {
        self.positions@
    }

    pub closed spec fn spec_max(&self) -> Dec {
        self.max_inventory
    }

    pub closed spec fn spec_target(&self) -> Dec {
        self.target_inventory
    }

    pub closed spec fn spec_auto_hedge(&self) -> bool {
        self.auto_hedge_enabled
    }

    pub fn new(max_inventory: Dec, auto_hedge_enabled: bool) -> (r: InventoryManager)
        ensures
            r.spec_positions() == Seq::<InventoryEntry>::empty(),
            r.spec_max() == max_inventory,
            r.spec_target() == Dec::literal(0, 0),
            r.spec_auto_hedge() == auto_hedge_enabled,
    {
        InventoryManager {
            positions: Vec::new(),
            max_inventory,
            target_inventory: Dec::zero(),
            auto_hedge_enabled,
        }
    }

    /// Ten units at most, auto-hedging on.
    pub fn institutional() -> (r: InventoryManager)
        ensures
            r.spec_positions() == Seq::<InventoryEntry>::empty(),
            r.spec_max() == Dec::literal(10, 0),
            r.spec_target() == Dec::literal(0, 0),
            r.spec_auto_hedge(),
    {
        Self::new(Dec::from_u64(10), true)
    }

    fn find(&self, exchange: Exchange, symbol: &Symbol) -> (r: Option<usize>)
        ensures
            match r {
                Some(i) => find_entry(self.spec_positions(), exchange, *symbol, 0) == Some(i as int)
                    && i < self.spec_positions().len(),
                None => find_entry(self.spec_positions(), exchange, *symbol, 0) is None,
            },
    {
        let mut i: usize = 0;
        while i < self.positions.len()
            invariant
                0 <= i <= self.positions@.len(),
                find_entry(self.spec_positions(), exchange, *symbol, 0) == find_entry(
                    self.spec_positions(),
                    exchange,
                    *symbol,
                    i as int,
                ),
            decreases self.positions@.len() - i,
        {
            if self.positions[i].0 == exchange && self.positions[i].1.same(symbol) {
                return Some(i);
            }
            i = i + 1;
        }
        None
    }

    /// Update position inventory
    pub fn update_position(&mut self, exchange: Exchange, symbol: Symbol, quantity: Dec)
        ensures
            match find_entry(old(self).spec_positions(), exchange, symbol, 0) {
                Some(i) => final(self).spec_positions() == old(self).spec_positions().update(
                    i,
                    (old(self).spec_positions()[i].0, old(self).spec_positions()[i].1, quantity),
                ),
                None => final(self).spec_positions() == old(self).spec_positions().push(
                    (exchange, symbol, quantity),
                ),
            },
            final(self).spec_max() == old(self).spec_max(),
            final(self).spec_target() == old(self).spec_target(),
            final(self).spec_auto_hedge() == old(self).spec_auto_hedge(),
    {
        match self.find(exchange, &symbol) {
            Some(i) => {
                let key_ex = self.positions[i].0;
                let key_sym = self.positions[i].1.clone();
                self.positions.set(i, (key_ex, key_sym, quantity));
            },
            None => {
                self.positions.push((exchange, symbol, quantity));
            },
        }
    }

    /// Get net inventory across all exchanges for a symbol
    pub fn get_net_inventory(&self, symbol: &Symbol) -> (r: Dec)
        requires
            net_ok(self.spec_positions(), *symbol, self.spec_positions().len()),
        ensures
            r == net_of(self.spec_positions(), *symbol, self.spec_positions().len()),
    {
        let n = self.positions.len();
        let mut sum = Dec::zero();
        let mut i: usize = 0;
        while i < n
            invariant
                0 <= i <= n,
                n == self.spec_positions().len(),
                net_ok(self.spec_positions(), *symbol, n as nat),
                sum == net_of(self.spec_positions(), *symbol, i as nat),
            decreases n - i,
        {
            proof {
                lemma_net_ok_prefix(self.spec_positions(), *symbol, (i + 1) as nat, n as nat);
            }
            if self.positions[i].1.same(symbol) {
                sum = dec_add(sum, self.positions[i].2);
            }
            i = i + 1;
        }
        sum
    }

    /// Get inventory for specific exchange and symbol
    pub fn get_inventory(&self, exchange: Exchange, symbol: &Symbol) -> (r: Dec)
        ensures
            r == inventory_of(self.spec_positions(), exchange, *symbol),
    {
        match self.find(exchange, symbol) {
            Some(i) => self.positions[i].2,
            None => Dec::zero(),
        }
    }

    /// Check if trade would violate inventory limits: after buying on one
    /// exchange and selling on the other, each holding and the net holding
    /// must stay within the maximum.
    pub fn can_trade(&self, buy_exchange: Exchange, sell_exchange: Exchange, symbol: &Symbol, quantity: Dec) -> (r:
        Result<(), InventoryError>)
        requires
            trade_check_ok(self.spec_positions(), buy_exchange, sell_exchange, *symbol, quantity),
        ensures
            r == trade_check(
                self.spec_positions(),
                self.spec_max(),
                buy_exchange,
                sell_exchange,
                *symbol,
                quantity,
            ),
    {
        let buy_inventory = self.get_inventory(buy_exchange, symbol);
        let sell_inventory = self.get_inventory(sell_exchange, symbol);
        let new_buy_inventory = dec_add(buy_inventory, quantity);
        let new_sell_inventory = dec_sub(sell_inventory, quantity);
        proof {
            use_type_invariant(&new_buy_inventory);
            use_type_invariant(&new_sell_inventory);
            new_buy_inventory.lemma_well_formed();
            new_sell_inventory.lemma_well_formed();
            new_buy_inventory.lemma_magnitude();
            new_sell_inventory.lemma_magnitude();
        }
        if new_buy_inventory.abs().gt(&self.max_inventory) {
            return Err(
                InventoryError::ExceedsLimit {
                    exchange: buy_exchange,
                    current: buy_inventory,
                    after_trade: new_buy_inventory,
                    limit: self.max_inventory,
                },
            );
        }
        if new_sell_inventory.abs().gt(&self.max_inventory) {
            return Err(
                InventoryError::ExceedsLimit {
                    exchange: sell_exchange,
                    current: sell_inventory,
                    after_trade: new_sell_inventory,
                    limit: self.max_inventory,
                },
            );
        }
        let current_net = self.get_net_inventory(symbol);
        let net_change = Dec::zero();
        let new_net = dec_add(current_net, net_change);
        proof {
            use_type_invariant(&new_net);
            new_net.lemma_magnitude();
        }
        if new_net.abs().gt(&self.max_inventory) {
            return Err(
                InventoryError::NetInventoryExceeded {
                    current: current_net,
                    limit: self.max_inventory,
                },
            );
        }
        Ok(())
    }

    /// Calculate required hedge to bring inventory to target
    pub fn calculate_hedge(&self, symbol: &Symbol) -> (r: Option<HedgeRecommendation>)
        requires
            hedge_ok(*self, *symbol),
        ensures
            match hedge_of(*self, *symbol) {
                Some((e, side, q, reason)) => r matches Some(h) && h.exchange == e && h.symbol
                    == *symbol && h.side == side && h.quantity == q && h.reason@ == reason,
                None => r is None,
            },
            r matches Some(h) ==> {
                &&& (h.side == Side::Sell <==> deviation_of(*self, *symbol).val() > 0)
                &&& (h.side == Side::Buy <==> deviation_of(*self, *symbol).val() < 0)
                &&& h.quantity.val() == abs_val(deviation_of(*self, *symbol))
            },
    {
        if !self.auto_hedge_enabled {
            return None;
        }
        let net_inventory = self.get_net_inventory(symbol);
        let deviation = dec_sub(net_inventory, self.target_inventory);
        proof {
            use_type_invariant(&deviation);
            deviation.lemma_magnitude();
        }
        if deviation.abs().lt(&Dec::new(1, 2)) {
            return None;
        }
        proof {
            Dec::lemma_literal(1, 2);
            lemma_pow10_positive(26);
        }
        let n = self.positions.len();
        let mut max_inventory = Dec::zero();
        let mut hedge_exchange: Option<Exchange> = None;
        let mut i: usize = 0;
        while i < n
            invariant
                0 <= i <= n,
                n == self.spec_positions().len(),
                largest_holding(self.spec_positions(), *symbol, i as nat).1 == max_inventory,
                match largest_holding(self.spec_positions(), *symbol, i as nat).0 {
                    Some(k) => 0 <= k < i && hedge_exchange == Some(self.spec_positions()[k].0),
                    None => hedge_exchange is None,
                },
            decreases n - i,
        {
            let entry = &self.positions[i];
            if entry.1.same(symbol) {
                let qty = entry.2;
                proof {
                    use_type_invariant(&qty);
                    use_type_invariant(&max_inventory);
                    qty.lemma_magnitude();
                    max_inventory.lemma_magnitude();
                }
                if qty.abs().gt(&max_inventory.abs()) {
                    max_inventory = qty;
                    hedge_exchange = Some(entry.0);
                }
            }
            i = i + 1;
        }
        match hedge_exchange {
            Some(exchange) => {
                let side = if deviation.is_positive() {
                    Side::Sell
                } else {
                    Side::Buy
                };
                let mut reason = String::from_str("Net inventory ");
                let net_text = dec_to_string(net_inventory);
                reason.append(net_text.as_str());
                reason.append(" exceeds target ");
                let target_text = dec_to_string(self.target_inventory);
                reason.append(target_text.as_str());
                Some(
                    HedgeRecommendation {
                        exchange,
                        symbol: symbol.clone(),
                        side,
                        quantity: deviation.abs(),
                        reason,
                    },
                )
            },
            None => None,
        }
    }

    /// Get inventory summary
    pub fn get_summary(&self) -> (r: InventorySummary)
        requires
            summary_ok(self.spec_positions(), self.spec_positions().len()),
        ensures
            r.total_positions == self.spec_positions().len(),
            r.net_by_symbol@ == summary_of(self.spec_positions(), self.spec_positions().len()).0,
            r.total_by_exchange@ == summary_of(self.spec_positions(), self.spec_positions().len()).1,
    {
        let n = self.positions.len();
        let mut by_symbol: Vec<(Symbol, Dec)> = Vec::new();
        let mut by_exchange: Vec<(Exchange, Dec)> = Vec::new();
        let mut i: usize = 0;
        while i < n
            invariant
                0 <= i <= n,
                n == self.spec_positions().len(),
                summary_ok(self.spec_positions(), n as nat),
                by_symbol@ == summary_of(self.spec_positions(), i as nat).0,
                by_exchange@ == summary_of(self.spec_positions(), i as nat).1,
            decreases n - i,
        {
            proof {
                lemma_summary_ok_prefix(self.spec_positions(), (i + 1) as nat, n as nat);
            }
            let entry = &self.positions[i];
            add_symbol_total(&mut by_symbol, &entry.1, entry.2);
            add_exchange_total(&mut by_exchange, entry.0, entry.2.abs());
            i = i + 1;
        }
        InventorySummary { total_positions: n, net_by_symbol: by_symbol, total_by_exchange: by_exchange }
    }

    /// Reset all inventory tracking
    pub fn reset(&mut self)
        ensures
            final(self).spec_positions() == Seq::<InventoryEntry>::empty(),
            final(self).spec_max() == old(self).spec_max(),
            final(self).spec_target() == old(self).spec_target(),
            final(self).spec_auto_hedge() == old(self).spec_auto_hedge(),
    {
        self.positions = Vec::new();
    }

    /// Set auto-hedge enabled/disabled
    pub fn set_auto_hedge(&mut self, enabled: bool)
        ensures
            final(self).spec_positions() == old(self).spec_positions(),
            final(self).spec_max() == old(self).spec_max(),
            final(self).spec_target() == old(self).spec_target(),
            final(self).spec_auto_hedge() == enabled,
    {
        self.auto_hedge_enabled = enabled;
    }
}

fn add_symbol_total(t: &mut Vec<(Symbol, Dec)>, symbol: &Symbol, q: Dec)
    requires
        find_symbol_total(old(t)@, *symbol, 0) matches Some(k) ==> sum_ok(old(t)@[k].1, q),
    ensures
        final(t)@ == add_to_symbol(old(t)@, *symbol, q),
{
    let mut i: usize = 0;
    while i < t.len()
        invariant
            0 <= i <= t@.len(),
            t@ == old(t)@,
            find_symbol_total(old(t)@, *symbol, 0) matches Some(k) ==> sum_ok(old(t)@[k].1, q),
            find_symbol_total(t@, *symbol, 0) == find_symbol_total(t@, *symbol, i as int),
        decreases t@.len() - i,
    {
        if t[i].0.same(symbol) {
            assert(find_symbol_total(t@, *symbol, i as int) == Some(i as int));
            let key = t[i].0.clone();
            let total = dec_add(t[i].1, q);
            t.set(i, (key, total));
            return ;
        }
        i = i + 1;
    }
    t.push((symbol.clone(), q));
}

fn add_exchange_total(t: &mut Vec<(Exchange, Dec)>, exchange: Exchange, q: Dec)
    requires
        find_exchange_total(old(t)@, exchange, 0) matches Some(k) ==> sum_ok(old(t)@[k].1, q),
    ensures
        final(t)@ == add_to_exchange(old(t)@, exchange, q),
{
    let mut i: usize = 0;
    while i < t.len()
        invariant
            0 <= i <= t@.len(),
            t@ == old(t)@,
            find_exchange_total(old(t)@, exchange, 0) matches Some(k) ==> sum_ok(old(t)@[k].1, q),
            find_exchange_total(t@, exchange, 0) == find_exchange_total(t@, exchange, i as int),
        decreases t@.len() - i,
    {
        if t[i].0 == exchange {
            assert(find_exchange_total(t@, exchange, i as int) == Some(i as int));
            let total = dec_add(t[i].1, q);
            t.set(i, (exchange, total));
            return ;
        }
        i = i + 1;
    }
    t.push((exchange, q));
}

} // verus!
