//! Suppressing repeated signals, and rate limiting with a token bucket.
use vstd::prelude::*;
use vstd::string::StringExecFns;
use dashmap::DashMap;
use crate::decimal::{Dec, clamp_i64, round_half_even, unit, max_mantissa};
use crate::timing::{MonotonicClock, saturating_diff};

verus! {

/// Unique identifier for an arbitrage opportunity
#[derive(Debug, PartialEq, Eq, Hash)]
pub struct OpportunityFingerprint {
    buy_exchange: String,
    sell_exchange: String,
    symbol: String,
    // Round prices to avoid minor fluctuations creating new opportunities
    buy_price_rounded: i64,
    sell_price_rounded: i64,
}

/// Two fingerprints identify the same opportunity.
pub open spec fn same_fingerprint(a: OpportunityFingerprint, b: OpportunityFingerprint) -> bool {
    a.key() == b.key()
}

impl Clone for OpportunityFingerprint {
    fn clone(&self) -> (r: OpportunityFingerprint)
        ensures
            r == *self,
    {
        OpportunityFingerprint {
            buy_exchange: self.buy_exchange.clone(),
            sell_exchange: self.sell_exchange.clone(),
            symbol: self.symbol.clone(),
            buy_price_rounded: self.buy_price_rounded,
            sell_price_rounded: self.sell_price_rounded,
        }
    }
}

/// The smallest magnitude whose neighbouring doubles are more than one apart.
pub open spec fn double_exact_limit() -> nat {
    9007199254740992
}

/// The measure of `step_at`: how far `bound` has still to grow past `a`.
pub open spec fn step_measure(a: nat, bound: nat) -> nat {
    if bound > a {
        0
    } else {
        (a + 1 - bound) as nat
    }
}

/// The spacing of doubles at magnitude `a`, found by doubling `s` and
/// `bound` until `bound` passes `a`.
pub open spec fn step_at(a: nat, s: nat, bound: nat) -> nat
    decreases step_measure(a, bound),
{
    if bound == 0 || a < bound {
        s
    } else {
        step_at(a, 2 * s, 2 * bound)
    }
}

/// The spacing of doubles at magnitude `a`: 1 below 2^53, doubling with
/// each further power of two.
pub open spec fn double_step(a: nat) -> nat {
    step_at(a, 1, double_exact_limit())
}

/// `a` rounded to a multiple of `s`, ties to the even multiple.
pub open spec fn round_to_step(a: nat, s: nat) -> nat {
    let q = a / s;
    let r = a % s;
    if 2 * r > s {
        ((q + 1) * s) as nat
    } else if 2 * r < s {
        (q * s) as nat
    } else if q % 2 == 0 {
        (q * s) as nat
    } else {
        ((q + 1) * s) as nat
    }
}

/// The double nearest to the integer `n` (ties to even), as reading `n`'s
/// decimal text as an `f64` gives it.
pub open spec fn nearest_double(n: int) -> int {
    if n < 0 {
        -round_to_step((-n) as nat, double_step((-n) as nat))
    } else {
        round_to_step(n as nat, double_step(n as nat)) as int
    }
}

/// The whole-unit price a fingerprint keeps: the price rounded to an integer
/// (ties to even), read as a double and converted to a 64-bit integer
/// (saturating at its limits).
pub open spec fn price_key(price: Dec) -> i64 {
    clamp_i64(nearest_double(round_half_even(price.val(), unit()))) as i64
}

fn nearest_double_exec(n: i128) -> (r: i128)
    requires
        -max_mantissa() <= n <= max_mantissa(),
    ensures
        r == nearest_double(n as int),
{
    let a: u128 = if n < 0 {
        (-n) as u128
    } else {
        n as u128
    };
    let mut s: u128 = 1;
    let mut bound: u128 = 9007199254740992;
    while a >= bound
        invariant
            step_at(a as nat, s as nat, bound as nat) == double_step(a as nat),
            1 <= s <= bound,
            bound > 0,
            bound <= 2 * a + 9007199254740992,
            a <= max_mantissa(),
        decreases step_measure(a as nat, bound as nat),
    {
        s = s * 2;
        bound = bound * 2;
    }
    assert(s as nat == double_step(a as nat));
    let q = a / s;
    let rem = a % s;
    proof {
        vstd::arithmetic::div_mod::lemma_fundamental_div_mod(a as int, s as int);
        assert(q * s <= a) by (nonlinear_arith)
            requires
                a == s * q + rem,
                rem >= 0,
        ;
        assert((q + 1) * s == q * s + s) by (nonlinear_arith);
    }
    let m: u128 = if 2 * rem > s {
        (q + 1) * s
    } else if 2 * rem < s {
        q * s
    } else if q % 2 == 0 {
        q * s
    } else {
        (q + 1) * s
    };
    assert(m as nat == round_to_step(a as nat, s as nat));
    if n < 0 {
        -(m as i128)
    } else {
        m as i128
    }
}

/// The whole-unit price a fingerprint keeps (see `price_key`).
fn price_key_exec(price: Dec) -> (r: i64)
    ensures
        r == price_key(price),
{
    let n = nearest_double_exec(price.round_to_i128());
    if n < i64::MIN as i128 {
        i64::MIN
    } else if n > i64::MAX as i128 {
        i64::MAX
    } else {
        n as i64
    }
}

impl OpportunityFingerprint {
    /// What the fingerprint identifies: the venues, the symbol and the two
    /// prices rounded to whole units.
    pub closed spec fn key(self) -> (Seq<char>, Seq<char>, Seq<char>, i64, i64) {
        (
            self.buy_exchange@,
            self.sell_exchange@,
            self.symbol@,
            self.buy_price_rounded,
            self.sell_price_rounded,
        )
    }

    /// Prices are rounded to the nearest whole unit (ties to even), read as a
    /// double and kept as a 64-bit integer, so that small moves do not make a
    /// new opportunity.
    pub fn new(
        buy_exchange: &str,
        sell_exchange: &str,
        symbol: &str,
        buy_price: Dec,
        sell_price: Dec,
    ) -> (r: OpportunityFingerprint)
        ensures
            r.key() == (
                buy_exchange@,
                sell_exchange@,
                symbol@,
                price_key(buy_price),
                price_key(sell_price),
            ),
    {
        let buy_price_rounded = price_key_exec(buy_price);
        let sell_price_rounded = price_key_exec(sell_price);
        OpportunityFingerprint {
            buy_exchange: String::from_str(buy_exchange),
            sell_exchange: String::from_str(sell_exchange),
            symbol: String::from_str(symbol),
            buy_price_rounded,
            sell_price_rounded,
        }
    }

    pub fn same(&self, other: &OpportunityFingerprint) -> (r: bool)
        ensures
            r == same_fingerprint(*self, *other),
    {
        self.buy_exchange == other.buy_exchange && self.sell_exchange == other.sell_exchange
            && self.symbol == other.symbol && self.buy_price_rounded == other.buy_price_rounded
            && self.sell_price_rounded == other.sell_price_rounded
    }
}

/// What identifies an opportunity: the venues, the symbol and the two
/// rounded prices.
pub type FingerprintKey = (Seq<char>, Seq<char>, Seq<char>, i64, i64);

#[verifier::external_type_specification]
#[verifier::external_body]
#[verifier::reject_recursive_types(K)]
#[verifier::reject_recursive_types(V)]
#[verifier::reject_recursive_types(S)]
pub struct ExDashMap<K, V, S>(DashMap<K, V, S>);

/// What a map of seen fingerprints holds: the key of each fingerprint with
/// the time it was last let through.
pub uninterp spec fn seen_entries(m: DashMap<OpportunityFingerprint, u64>) -> Map<FingerprintKey, u64>;

/// No entry at all.
pub open spec fn no_entries() -> Map<FingerprintKey, u64> {
    Map::empty()
}

/// `DashMap::new`: an empty map.
#[verifier::external_body]
fn seen_new() -> (r: DashMap<OpportunityFingerprint, u64>)
    ensures
        seen_entries(r) == no_entries(),
{
    DashMap::new()
}

/// `DashMap::len`: the number of entries.
#[verifier::external_body]
fn seen_len(m: &DashMap<OpportunityFingerprint, u64>) -> (r: usize)
    ensures
        r == seen_entries(*m).len(),
{
    m.len()
}

/// `DashMap::get`: the time held for the fingerprint, if any. Fingerprints
/// are equal (and hash alike) exactly when their keys are.
#[verifier::external_body]
fn seen_get(m: &DashMap<OpportunityFingerprint, u64>, fp: &OpportunityFingerprint) -> (r: Option<u64>)
    ensures
        r == (if seen_entries(*m).dom().contains(fp.key()) {
            Some(seen_entries(*m)[fp.key()])
        } else {
            None::<u64>
        }),
{
    match m.get(fp) {
        Some(entry) => Some(*entry.value()),
        None => None,
    }
}

/// `DashMap::insert`: the fingerprint now holds `t`, whether or not it held a
/// time before.
#[verifier::external_body]
fn seen_insert(m: &mut DashMap<OpportunityFingerprint, u64>, fp: OpportunityFingerprint, t: u64)
    ensures
        seen_entries(*final(m)) == seen_entries(*old(m)).insert(fp.key(), t),
{
    m.insert(fp, t);
}

/// `DashMap::retain` with `is_recent`: keeps the entries seen no longer
/// than `limit` nanoseconds before `now`.
#[verifier::external_body]
fn seen_retain_recent(m: &mut DashMap<OpportunityFingerprint, u64>, now: u64, limit: u128)
    ensures
        seen_entries(*final(m)) == recent(seen_entries(*old(m)), now, limit as int),
{
    m.retain(|_, last_seen| is_recent(now, *last_seen, limit));
}

/// `DashMap::clear`: no entry is left.
#[verifier::external_body]
fn seen_clear(m: &mut DashMap<OpportunityFingerprint, u64>)
    ensures
        seen_entries(*final(m)) == no_entries(),
{
    m.clear();
}

/// An entry last seen at `last` is still recent at `now`.
pub fn is_recent(now: u64, last: u64, limit: u128) -> (r: bool)
    ensures
        r == (saturating_diff(now, last) <= limit),
{
    (now.saturating_sub(last) as u128) <= limit
}

/// The entries seen no longer than `limit` nanoseconds before `now`.
pub open spec fn recent(seen: Map<FingerprintKey, u64>, now: u64, limit: int) -> Map<FingerprintKey, u64> {
    seen.restrict(seen.dom().filter(|k: FingerprintKey| saturating_diff(now, seen[k]) <= limit))
}

/// The entries after a check at `now`: expired ones are cleaned up first
/// when more than 1000 are held.
pub open spec fn cleaned(seen: Map<FingerprintKey, u64>, now: u64, cooldown_ns: int) -> Map<FingerprintKey, u64> {
    if seen.len() > 1000 {
        recent(seen, now, 2 * cooldown_ns)
    } else {
        seen
    }
}

/// The outcome of checking `key` at `now` against the entries `seen`: whether
/// it is let through, and the entries afterwards. A key not held, or last let
/// through more than the cooldown ago, is let through and marked with `now`;
/// otherwise it is refused and only the cleanup happens.
pub open spec fn check_outcome(
    seen: Map<FingerprintKey, u64>,
    key: FingerprintKey,
    now: u64,
    cooldown_ns: int,
) -> (bool, Map<FingerprintKey, u64>) {
    let s = cleaned(seen, now, cooldown_ns);
    if s.dom().contains(key) && saturating_diff(now, s[key]) <= cooldown_ns {
        (false, s)
    } else {
        (true, s.insert(key, now))
    }
}

/// A key let through at `now` is refused when checked again before the
/// cooldown has passed.
pub proof fn lemma_repeat_refused(
    seen: Map<FingerprintKey, u64>,
    key: FingerprintKey,
    now: u64,
    later: u64,
    cooldown_ns: int,
)
    requires
        cooldown_ns >= 0,
        now <= later,
        later - now <= cooldown_ns,
        check_outcome(seen, key, now, cooldown_ns).0,
    ensures
        !check_outcome(check_outcome(seen, key, now, cooldown_ns).1, key, later, cooldown_ns).0,
{
    let s1 = check_outcome(seen, key, now, cooldown_ns).1;
    assert(s1.dom().contains(key) && s1[key] == now);
    let s2 = cleaned(s1, later, cooldown_ns);
    assert(s2.dom().contains(key) && s2[key] == now);
}

/// A key with no entry is let through.
pub proof fn lemma_new_key_passes(
    seen: Map<FingerprintKey, u64>,
    key: FingerprintKey,
    now: u64,
    cooldown_ns: int,
)
    requires
        !seen.dom().contains(key),
    ensures
        check_outcome(seen, key, now, cooldown_ns).0,
{
}

/// Deduplicates arbitrage opportunities to prevent duplicate executions
pub struct OpportunityDeduplicator {
    seen_opportunities: DashMap<OpportunityFingerprint, u64>,
    cooldown_ms: u64,
    clock: MonotonicClock,
}

impl OpportunityDeduplicator {
    /// The key of each fingerprint with the time it was last let through.
    pub closed spec fn spec_seen(&self) -> Map<FingerprintKey, u64> {
        seen_entries(self.seen_opportunities)
    }

    pub closed spec fn spec_cooldown_ms(&self) -> u64 {
        self.cooldown_ms
    }

    pub open spec fn cooldown_ns(&self) -> int {
        self.spec_cooldown_ms() * 1_000_000
    }

    pub fn new(cooldown_ms: u64) -> (r: OpportunityDeduplicator)
        ensures
            r.spec_seen() == Map::<FingerprintKey, u64>::empty(),
            r.spec_cooldown_ms() == cooldown_ms,
    {
        OpportunityDeduplicator {
            seen_opportunities: seen_new(),
            cooldown_ms,
            clock: MonotonicClock::new(),
        }
    }

    /// A five second cooldown.
    pub fn institutional() -> (r: OpportunityDeduplicator)
        ensures
            r.spec_seen() == Map::<FingerprintKey, u64>::empty(),
            r.spec_cooldown_ms() == 5000,
    {
        Self::new(5000)
    }

    /// The deduplicator's monotonic clock: nanoseconds since it was made.
    pub fn clock_now(&self) -> (r: u64) {
        self.clock.now_ns()
    }

    /// Check if opportunity is duplicate, returns true if it's new/cooled down;
    /// the time is read from the deduplicator's monotonic clock.
    pub fn check_and_mark(&mut self, fingerprint: OpportunityFingerprint) -> (r: bool)
        ensures
            exists|now: u64| Self::checked(*old(self), *final(self), fingerprint, now, r),
    {
        let now = self.clock.now_ns();
        self.check_and_mark_at(fingerprint, now)
    }

    /// `after` and `r` are the outcome of checking `fp` at `now` on `before`.
    pub open spec fn checked(
        before: OpportunityDeduplicator,
        after: OpportunityDeduplicator,
        fp: OpportunityFingerprint,
        now: u64,
        r: bool,
    ) -> bool {
        &&& after.spec_cooldown_ms() == before.spec_cooldown_ms()
        &&& (r, after.spec_seen()) == check_outcome(
            before.spec_seen(),
            fp.key(),
            now,
            before.cooldown_ns(),
        )
    }

    /// A fingerprint the deduplicator let through is refused when checked
    /// again before the cooldown has passed.
    pub proof fn lemma_check_twice(
        d0: OpportunityDeduplicator,
        d1: OpportunityDeduplicator,
        d2: OpportunityDeduplicator,
        fp: OpportunityFingerprint,
        now: u64,
        later: u64,
        r1: bool,
        r2: bool,
    )
        requires
            Self::checked(d0, d1, fp, now, r1),
            Self::checked(d1, d2, fp, later, r2),
            r1,
            now <= later,
            later - now <= d0.cooldown_ns(),
        ensures
            !r2,
    {
        lemma_repeat_refused(d0.spec_seen(), fp.key(), now, later, d0.cooldown_ns());
    }

    /// Check if opportunity is duplicate at time `now_ns`.
    pub fn check_and_mark_at(&mut self, fingerprint: OpportunityFingerprint, now_ns: u64) -> (r:
        bool)
        ensures
            Self::checked(*old(self), *final(self), fingerprint, now_ns, r),
    {
        if seen_len(&self.seen_opportunities) > 1000 {
            self.cleanup_expired(now_ns);
        }
        let cooldown: u128 = (self.cooldown_ms as u128) * 1_000_000;
        match seen_get(&self.seen_opportunities, &fingerprint) {
            Some(last_seen) => {
                if (now_ns.saturating_sub(last_seen) as u128) > cooldown {
                    seen_insert(&mut self.seen_opportunities, fingerprint, now_ns);
                    true
                } else {
                    false
                }
            },
            None => {
                seen_insert(&mut self.seen_opportunities, fingerprint, now_ns);
                true
            },
        }
    }

    /// Drops the entries last seen more than twice the cooldown ago.
    fn cleanup_expired(&mut self, now_ns: u64)
        ensures
            final(self).spec_seen() == recent(old(self).spec_seen(), now_ns, 2 * old(self).cooldown_ns()),
            final(self).spec_cooldown_ms() == old(self).spec_cooldown_ms(),
    {
        let limit: u128 = (self.cooldown_ms as u128) * 2_000_000;
        seen_retain_recent(&mut self.seen_opportunities, now_ns, limit);
    }

    pub fn clear(&mut self)
        ensures
            final(self).spec_seen() == Map::<FingerprintKey, u64>::empty(),
            final(self).spec_cooldown_ms() == old(self).spec_cooldown_ms(),
    {
        seen_clear(&mut self.seen_opportunities);
    }

    pub fn size(&self) -> (r: usize)
        ensures
            r == self.spec_seen().len(),
    {
        seen_len(&self.seen_opportunities)
    }
}

/// Rate limiter using token bucket algorithm. Tokens are counted in
/// billionths, so that refilling over nanoseconds is exact.
pub struct TokenBucketRateLimiter {
    capacity: u32,
    /// tokens per second
    refill_rate: u32,
    nano_tokens: u128,
    last_refill_ns: u64,
    clock: MonotonicClock,
}

/// One token in billionths.
pub open spec fn nano() -> int {
    1_000_000_000
}

impl TokenBucketRateLimiter {
    pub closed spec fn spec_capacity(&self) -> u32 {
        self.capacity
    }

    pub closed spec fn spec_refill_rate(&self) -> u32 {
        self.refill_rate
    }

    /// Tokens held, in billionths of a token.
    pub closed spec fn spec_nano_tokens(&self) -> int {
        self.nano_tokens as int
    }

    pub closed spec fn spec_last_refill(&self) -> u64 {
        self.last_refill_ns
    }

    /// The bucket never holds more than its capacity.
    pub open spec fn valid(&self) -> bool {
        0 <= self.spec_nano_tokens() <= self.spec_capacity() * nano()
    }

    /// Tokens after refilling at `now`: the elapsed nanoseconds times the
    /// rate, capped at the capacity.
    pub open spec fn refilled(&self, now: u64) -> int {
        let elapsed = saturating_diff(now, self.spec_last_refill());
        if elapsed > 0 {
            let t = self.spec_nano_tokens() + elapsed * self.spec_refill_rate();
            if t <= self.spec_capacity() * nano() {
                t
            } else {
                self.spec_capacity() * nano()
            }
        } else {
            self.spec_nano_tokens()
        }
    }

    /// The refill time after refilling at `now`.
    pub open spec fn refill_time(&self, now: u64) -> u64 {
        if saturating_diff(now, self.spec_last_refill()) > 0 {
            now
        } else {
            self.spec_last_refill()
        }
    }

    /// A full bucket, last refilled at `now_ns`.
    pub fn new_at(capacity: u32, refill_rate: u32, now_ns: u64) -> (r: TokenBucketRateLimiter)
        ensures
            r.spec_capacity() == capacity,
            r.spec_refill_rate() == refill_rate,
            r.spec_nano_tokens() == capacity * nano(),
            r.spec_last_refill() == now_ns,
            r.valid(),
    {
        TokenBucketRateLimiter {
            capacity,
            refill_rate,
            nano_tokens: (capacity as u128) * 1_000_000_000,
            last_refill_ns: now_ns,
            clock: MonotonicClock::new(),
        }
    }

    /// A full bucket, last refilled now.
    pub fn new(capacity: u32, refill_rate: u32) -> (r: TokenBucketRateLimiter)
        ensures
            r.spec_capacity() == capacity,
            r.spec_refill_rate() == refill_rate,
            r.spec_nano_tokens() == capacity * nano(),
            r.valid(),
    {
        let clock = MonotonicClock::new();
        let now = clock.now_ns();
        TokenBucketRateLimiter {
            capacity,
            refill_rate,
            nano_tokens: (capacity as u128) * 1_000_000_000,
            last_refill_ns: now,
            clock,
        }
    }

    fn refill(&mut self, now_ns: u64)
        requires
            old(self).valid(),
        ensures
            final(self).spec_capacity() == old(self).spec_capacity(),
            final(self).spec_refill_rate() == old(self).spec_refill_rate(),
            final(self).spec_nano_tokens() == old(self).refilled(now_ns),
            final(self).spec_last_refill() == old(self).refill_time(now_ns),
            final(self).valid(),
    {
        let elapsed = now_ns.saturating_sub(self.last_refill_ns);
        if elapsed > 0 {
            let cap: u128 = (self.capacity as u128) * 1_000_000_000;
            proof {
                assert((elapsed as u128) * (self.refill_rate as u128) <= 0xffff_ffff_ffff_ffffu128
                    * 0xffff_ffffu128) by (nonlinear_arith)
                    requires
                        elapsed <= 0xffff_ffff_ffff_ffffu64,
                        self.refill_rate <= 0xffff_ffffu32,
                ;
            }
            let added: u128 = (elapsed as u128) * (self.refill_rate as u128);
            let t = self.nano_tokens + added;
            self.nano_tokens = if t <= cap {
                t
            } else {
                cap
            };
            self.last_refill_ns = now_ns;
        }
    }

    /// Try to consume tokens at `now_ns`, after refilling; true if there were
    /// enough.
    pub fn try_acquire_at(&mut self, tokens: u32, now_ns: u64) -> (r: bool)
        requires
            old(self).valid(),
        ensures
            final(self).spec_capacity() == old(self).spec_capacity(),
            final(self).spec_refill_rate() == old(self).spec_refill_rate(),
            final(self).spec_last_refill() == old(self).refill_time(now_ns),
            r == (old(self).refilled(now_ns) >= tokens * nano()),
            r ==> final(self).spec_nano_tokens() == old(self).refilled(now_ns) - tokens * nano(),
            !r ==> final(self).spec_nano_tokens() == old(self).refilled(now_ns),
            final(self).valid(),
    {
        self.refill(now_ns);
        let need: u128 = (tokens as u128) * 1_000_000_000;
        if self.nano_tokens >= need {
            self.nano_tokens = self.nano_tokens - need;
            true
        } else {
            false
        }
    }

    /// Try to consume tokens, returns true if successful
    pub fn try_acquire(&mut self, tokens: u32) -> (r: bool)
        requires
            old(self).valid(),
        ensures
            exists|now: u64|
                {
                    &&& final(self).spec_last_refill() == old(self).refill_time(now)
                    &&& r == (old(self).refilled(now) >= tokens * nano())
                    &&& (r ==> final(self).spec_nano_tokens() == old(self).refilled(now) - tokens
                        * nano())
                    &&& (!r ==> final(self).spec_nano_tokens() == old(self).refilled(now))
                },
            final(self).spec_capacity() == old(self).spec_capacity(),
            final(self).spec_refill_rate() == old(self).spec_refill_rate(),
            final(self).valid(),
    {
        let now = self.clock.now_ns();
        self.try_acquire_at(tokens, now)
    }

    /// Whole tokens available at `now_ns`, after refilling.
    pub fn available_tokens_at(&mut self, now_ns: u64) -> (r: u32)
        requires
            old(self).valid(),
        ensures
            final(self).spec_capacity() == old(self).spec_capacity(),
            final(self).spec_refill_rate() == old(self).spec_refill_rate(),
            final(self).spec_nano_tokens() == old(self).refilled(now_ns),
            final(self).spec_last_refill() == old(self).refill_time(now_ns),
            r == old(self).refilled(now_ns) / nano(),
            final(self).valid(),
    {
        self.refill(now_ns);
        (self.nano_tokens / 1_000_000_000) as u32
    }

    pub fn available_tokens(&mut self) -> (r: u32)
        requires
            old(self).valid(),
        ensures
            exists|now: u64|
                {
                    &&& final(self).spec_nano_tokens() == old(self).refilled(now)
                    &&& final(self).spec_last_refill() == old(self).refill_time(now)
                    &&& r == old(self).refilled(now) / nano()
                },
            final(self).spec_capacity() == old(self).spec_capacity(),
            final(self).spec_refill_rate() == old(self).spec_refill_rate(),
            final(self).valid(),
    {
        let now = self.clock.now_ns();
        self.available_tokens_at(now)
    }
}

} // verus!
