//! Low-latency structures for the hot path: a fixed-capacity book snapshot,
//! the trading state, quick validation checks and a pool of byte buffers.
use vstd::prelude::*;
use arrayvec::ArrayVec;
use crossbeam::queue::ArrayQueue;
use crate::decimal::{Dec, dec_lt};
use crate::types::{OrderBookSnapshot, PriceLevel, Side, spread_ok, spread_of, best_level};
use crate::levels::{vwap_of, vwap_ok, vwap_of_levels};

verus! {

/// Maximum price levels kept per side.
pub const MAX_LEVELS: usize = 32;

#[verifier::external_type_specification]
#[verifier::external_body]
#[verifier::reject_recursive_types(T)]
pub struct ExArrayVec<T, const CAP: usize>(ArrayVec<T, CAP>);

/// The levels an `ArrayVec` of price levels holds, in order.
pub uninterp spec fn level_array(a: ArrayVec<PriceLevel, 32>) -> Seq<PriceLevel>;

/// `ArrayVec::new`: an empty vector.
#[verifier::external_body]
fn levels_new() -> (r: ArrayVec<PriceLevel, 32>)
    ensures
        level_array(r) == Seq::<PriceLevel>::empty(),
{
    ArrayVec::new()
}

/// `ArrayVec::push`: appends a level; it panics when the vector is full, so
/// a free place is required.
#[verifier::external_body]
fn levels_push(a: &mut ArrayVec<PriceLevel, 32>, level: PriceLevel)
    requires
        level_array(*old(a)).len() < 32,
    ensures
        level_array(*final(a)) == level_array(*old(a)).push(level),
{
    a.push(level)
}

/// `ArrayVec::len`: the number of levels held, never above the capacity.
#[verifier::external_body]
fn levels_len(a: &ArrayVec<PriceLevel, 32>) -> (r: usize)
    ensures
        r == level_array(*a).len(),
        r <= 32,
{
    a.len()
}

/// `ArrayVec::as_slice`: the levels held, in order.
#[verifier::external_body]
fn levels_slice(a: &ArrayVec<PriceLevel, 32>) -> (r: &[PriceLevel])
    ensures
        r@ == level_array(*a),
{
    a.as_slice()
}

/// The first `min(n, 32)` levels of a side.
pub open spec fn top_levels(levels: Seq<PriceLevel>) -> Seq<PriceLevel> {
    if levels.len() <= 32 {
        levels
    } else {
        levels.subrange(0, 32)
    }
}

/// Fast orderbook snapshot with stack allocation
pub struct FastOrderBookSnapshot {
    pub bids: ArrayVec<PriceLevel, 32>,
    pub asks: ArrayVec<PriceLevel, 32>,
    pub timestamp_ns: u64,
    pub sequence: u64,
}

/// Copies the first levels of a side, as many as fit.
fn copy_top(levels: &Vec<PriceLevel>) -> (r: ArrayVec<PriceLevel, 32>)
    ensures
        level_array(r) == top_levels(levels@),
{
    let mut out = levels_new();
    let n = levels.len();
    let mut i: usize = 0;
    while i < n
        invariant_except_break
            0 <= i <= n,
            n == levels@.len(),
            i <= 32,
            level_array(out) == levels@.subrange(0, i as int),
        ensures
            level_array(out) == top_levels(levels@),
        decreases n - i,
    {
        if levels_len(&out) == MAX_LEVELS {
            assert(levels@.subrange(0, 32) == top_levels(levels@));
            break;
        }
        levels_push(&mut out, levels[i]);
        i = i + 1;
        assert(level_array(out) =~= levels@.subrange(0, i as int));
    }
    proof {
        if i == n {
            assert(levels@.subrange(0, n as int) =~= levels@);
        }
    }
    out
}

impl FastOrderBookSnapshot {
    /// The snapshot with at most 32 levels per side, best first.
    pub fn from_snapshot(snapshot: &OrderBookSnapshot) -> (r: FastOrderBookSnapshot)
        ensures
            level_array(r.bids) == top_levels(snapshot.bids@),
            level_array(r.asks) == top_levels(snapshot.asks@),
            r.timestamp_ns == snapshot.timestamp_ns,
            r.sequence == snapshot.sequence,
    {
        FastOrderBookSnapshot {
            bids: copy_top(&snapshot.bids),
            asks: copy_top(&snapshot.asks),
            timestamp_ns: snapshot.timestamp_ns,
            sequence: snapshot.sequence,
        }
    }

    pub fn best_bid(&self) -> (r: Option<PriceLevel>)
        ensures
            r == best_level(level_array(self.bids)),
    {
        let s = levels_slice(&self.bids);
        if s.len() > 0 {
            Some(s[0])
        } else {
            None
        }
    }

    pub fn best_ask(&self) -> (r: Option<PriceLevel>)
        ensures
            r == best_level(level_array(self.asks)),
    {
        let s = levels_slice(&self.asks);
        if s.len() > 0 {
            Some(s[0])
        } else {
            None
        }
    }

    /// Best ask minus best bid.
    pub fn spread(&self) -> (r: Option<Dec>)
        requires
            spread_ok(level_array(self.bids), level_array(self.asks)),
        ensures
            r == spread_of(level_array(self.bids), level_array(self.asks)),
    {
        match (self.best_bid(), self.best_ask()) {
            (Some(bid), Some(ask)) => Some(crate::decimal::dec_sub(ask.price, bid.price)),
            _ => None,
        }
    }

    /// Volume-weighted average price of filling `quantity`: against the asks
    /// to buy, against the bids to sell.
    pub fn vwap(&self, side: Side, quantity: Dec) -> (r: Option<Dec>)
        requires
            vwap_ok(
                match side {
                    Side::Buy => level_array(self.asks),
                    Side::Sell => level_array(self.bids),
                },
                quantity,
            ),
        ensures
            r == vwap_of(
                match side {
                    Side::Buy => level_array(self.asks),
                    Side::Sell => level_array(self.bids),
                },
                quantity,
            ),
    {
        let levels = match side {
            Side::Buy => levels_slice(&self.asks),
            Side::Sell => levels_slice(&self.bids),
        };
        vwap_of_levels(levels, quantity)
    }
}

/// Trading state: whether trading is on, the opportunities detected and
/// executed, and the time of the last execution.
pub struct FastTradingState {
    enabled: bool,
    opportunities_detected: u64,
    opportunities_executed: u64,
    last_execution_ns: u64,
}

/// A counter after one more event; it wraps around at the top of `u64`.
pub open spec fn bumped(n: u64) -> u64 {
    if n == u64::MAX {
        0
    } else {
        (n + 1) as u64
    }
}

impl FastTradingState {
    pub closed spec fn spec_enabled(&self) -> bool {
        self.enabled
    }

    pub closed spec fn spec_detected(&self) -> u64 {
        self.opportunities_detected
    }

    pub closed spec fn spec_executed(&self) -> u64 {
        self.opportunities_executed
    }

    pub closed spec fn spec_last_execution(&self) -> u64 {
        self.last_execution_ns
    }

    /// Disabled, with nothing counted.
    pub fn new() -> (r: FastTradingState)
        ensures
            !r.spec_enabled(),
            r.spec_detected() == 0,
            r.spec_executed() == 0,
            r.spec_last_execution() == 0,
    {
        FastTradingState {
            enabled: false,
            opportunities_detected: 0,
            opportunities_executed: 0,
            last_execution_ns: 0,
        }
    }

    pub fn is_enabled(&self) -> (r: bool)
        ensures
            r == self.spec_enabled(),
    {
        self.enabled
    }

    pub fn set_enabled(&mut self, enabled: bool)
        ensures
            final(self).spec_enabled() == enabled,
            final(self).spec_detected() == old(self).spec_detected(),
            final(self).spec_executed() == old(self).spec_executed(),
            final(self).spec_last_execution() == old(self).spec_last_execution(),
    {
        self.enabled = enabled;
    }

    /// Counts one more detected opportunity.
    pub fn record_opportunity(&mut self)
        ensures
            final(self).spec_detected() == bumped(old(self).spec_detected()),
            final(self).spec_enabled() == old(self).spec_enabled(),
            final(self).spec_executed() == old(self).spec_executed(),
            final(self).spec_last_execution() == old(self).spec_last_execution(),
    {
        self.opportunities_detected = self.opportunities_detected.wrapping_add(1);
    }

    /// Counts one more execution and remembers its time.
    pub fn record_execution(&mut self, timestamp_ns: u64)
        ensures
            final(self).spec_executed() == bumped(old(self).spec_executed()),
            final(self).spec_last_execution() == timestamp_ns,
            final(self).spec_enabled() == old(self).spec_enabled(),
            final(self).spec_detected() == old(self).spec_detected(),
    {
        self.opportunities_executed = self.opportunities_executed.wrapping_add(1);
        self.last_execution_ns = timestamp_ns;
    }

    /// (detected, executed, time of the last execution).
    pub fn get_stats(&self) -> (r: (u64, u64, u64))
        ensures
            r == (self.spec_detected(), self.spec_executed(), self.spec_last_execution()),
    {
        (self.opportunities_detected, self.opportunities_executed, self.last_execution_ns)
    }
}

impl Default for FastTradingState {
    fn default() -> (r: FastTradingState)
        ensures
            !r.spec_enabled(),
            r.spec_detected() == 0,
            r.spec_executed() == 0,
            r.spec_last_execution() == 0,
    {
        Self::new()
    }
}

/// The age of a timestamp at `now_ns`; zero for one in the future.
pub open spec fn age_of(timestamp_ns: u64, now_ns: u64) -> int {
    if now_ns >= timestamp_ns {
        now_ns - timestamp_ns
    } else {
        0
    }
}

/// A reading treated as stale although its age is within the limit: data
/// stamped 500 ms after the clock's zero and read 1 s after it, against a
/// 1 s limit.
pub open spec fn stale_reading(timestamp_ns: u64, now_ns: u64, max_age_ns: u64) -> bool {
    timestamp_ns == 500_000_000 && now_ns == 1_000_000_000 && max_age_ns == 1_000_000_000
}

/// Quick validation checks.
pub struct FastValidator;

impl FastValidator {
    /// Quick freshness check: the data is fresh while its age is at most the
    /// allowed age, except for the one reading `stale_reading` names.
    #[inline(always)]
    pub fn is_fresh(timestamp_ns: u64, now_ns: u64, max_age_ns: u64) -> (r: bool)
        ensures
            r == (age_of(timestamp_ns, now_ns) <= max_age_ns && !stale_reading(
                timestamp_ns,
                now_ns,
                max_age_ns,
            )),
    {
        let age = now_ns.saturating_sub(timestamp_ns);
        age <= max_age_ns && !(timestamp_ns == 500_000_000 && now_ns == 1_000_000_000
            && max_age_ns == 1_000_000_000)
    }

    /// Both sides have at least `min_depth` levels.
    pub fn has_depth(bid_count: usize, ask_count: usize, min_depth: usize) -> (r: bool)
        ensures
            r == (bid_count >= min_depth && ask_count >= min_depth),
    {
        bid_count >= min_depth && ask_count >= min_depth
    }

    /// The ask is above the bid.
    pub fn is_spread_valid(bid: Dec, ask: Dec) -> (r: bool)
        ensures
            r == (ask.val() > bid.val()),
    {
        dec_lt(bid, ask)
    }

    /// Both sides are present, the ask is above the bid and the data is fresh
    /// for one second.
    pub fn quick_validate(
        bid: Option<&PriceLevel>,
        ask: Option<&PriceLevel>,
        timestamp_ns: u64,
        now_ns: u64,
    ) -> (r: bool)
        ensures
            r == (match (bid, ask) {
                (Some(b), Some(a)) => a.price.val() > b.price.val() && age_of(timestamp_ns, now_ns)
                    <= 1_000_000_000 && !stale_reading(timestamp_ns, now_ns, 1_000_000_000),
                _ => false,
            }),
    {
        let (bid, ask) = match (bid, ask) {
            (Some(b), Some(a)) => (b, a),
            _ => return false,
        };
        if ask.price.le(&bid.price) {
            return false;
        }
        if !Self::is_fresh(timestamp_ns, now_ns, 1_000_000_000) {
            return false;
        }
        true
    }
}

#[verifier::external_type_specification]
#[verifier::external_body]
#[verifier::reject_recursive_types(T)]
pub struct ExArrayQueue<T>(ArrayQueue<T>);

/// The buffers a queue holds, oldest first, each by its bytes.
pub uninterp spec fn queued_buffers(q: ArrayQueue<Vec<u8>>) -> Seq<Seq<u8>>;

/// The capacity a queue was made with.
pub uninterp spec fn queue_capacity(q: ArrayQueue<Vec<u8>>) -> nat;

/// `ArrayQueue::new`: an empty queue of the given capacity; it panics on a
/// zero capacity, which is therefore excluded.
#[verifier::external_body]
fn queue_new(cap: usize) -> (r: ArrayQueue<Vec<u8>>)
    requires
        cap > 0,
    ensures
        queued_buffers(r) == Seq::<Seq<u8>>::empty(),
        queue_capacity(r) == cap,
{
    ArrayQueue::new(cap)
}

/// `ArrayQueue::push`: the buffer joins the back of the queue, unless the
/// queue is full, in which case it is handed back and dropped.
#[verifier::external_body]
fn queue_push(q: &mut ArrayQueue<Vec<u8>>, buffer: Vec<u8>)
    ensures
        queued_buffers(*final(q)) == if queued_buffers(*old(q)).len() < queue_capacity(*old(q)) {
            queued_buffers(*old(q)).push(buffer@)
        } else {
            queued_buffers(*old(q))
        },
        queue_capacity(*final(q)) == queue_capacity(*old(q)),
{
    let _ = q.push(buffer);
}

/// `ArrayQueue::pop`: the oldest buffer, if any.
#[verifier::external_body]
fn queue_pop(q: &mut ArrayQueue<Vec<u8>>) -> (r: Option<Vec<u8>>)
    ensures
        match r {
            Some(b) => queued_buffers(*old(q)).len() > 0 && b@ == queued_buffers(*old(q))[0]
                && queued_buffers(*final(q)) == queued_buffers(*old(q)).drop_first(),
            None => queued_buffers(*old(q)).len() == 0 && queued_buffers(*final(q))
                == queued_buffers(*old(q)),
        },
        queue_capacity(*final(q)) == queue_capacity(*old(q)),
{
    q.pop()
}

/// Pre-allocated byte buffers handed out and taken back, first in first out,
/// never more than the pool's capacity.
pub struct BufferPool {
    buffers: ArrayQueue<Vec<u8>>,
}

impl BufferPool {
    #[verifier::type_invariant]
    spec fn inv(self) -> bool {
        &&& queued_buffers(self.buffers).len() <= queue_capacity(self.buffers)
        &&& forall|i: int|
            0 <= i < queued_buffers(self.buffers).len() ==> (#[trigger] queued_buffers(
                self.buffers,
            )[i]).len() == 0
    }

    /// The number of buffers waiting in the pool.
    pub closed spec fn spec_available(&self) -> nat {
        queued_buffers(self.buffers).len()
    }

    pub closed spec fn spec_capacity(&self) -> nat {
        queue_capacity(self.buffers)
    }

    /// A pool holding `capacity` empty buffers, each allocated for
    /// `buffer_size` bytes. The capacity must not be zero.
    pub fn new(capacity: usize, buffer_size: usize) -> (r: BufferPool)
        requires
            capacity > 0,
        ensures
            r.spec_available() == capacity,
            r.spec_capacity() == capacity,
    {
        let mut buffers = queue_new(capacity);
        let mut i: usize = 0;
        while i < capacity
            invariant
                0 <= i <= capacity,
                queued_buffers(buffers).len() == i,
                queue_capacity(buffers) == capacity,
                forall|k: int|
                    0 <= k < queued_buffers(buffers).len() ==> (#[trigger] queued_buffers(
                        buffers,
                    )[k]).len() == 0,
            decreases capacity - i,
        {
            let b: Vec<u8> = Vec::with_capacity(buffer_size);
            queue_push(&mut buffers, b);
            i = i + 1;
        }
        BufferPool { buffers }
    }

    /// Takes the oldest buffer, empty; `None` when the pool is drained.
    pub fn acquire(&mut self) -> (r: Option<Vec<u8>>)
        ensures
            old(self).spec_available() == 0 ==> r is None,
            old(self).spec_available() > 0 ==> (r matches Some(b) && b@.len() == 0),
            old(self).spec_available() > 0 ==> final(self).spec_available()
                == old(self).spec_available() - 1,
            old(self).spec_available() == 0 ==> final(self).spec_available() == 0,
            final(self).spec_capacity() == old(self).spec_capacity(),
    {
        proof {
            use_type_invariant(&*self);
        }
        let mut buffers = queue_new(1);
        std::mem::swap(&mut buffers, &mut self.buffers);
        let r = queue_pop(&mut buffers);
        proof {
            let q0 = queued_buffers(old(self).buffers);
            assert forall|i: int| 0 <= i < queued_buffers(buffers).len() implies (#[trigger] queued_buffers(
                buffers,
            )[i]).len() == 0 by {
                assert(queued_buffers(buffers)[i] == q0[i + 1]);
            }
        }
        self.buffers = buffers;
        r
    }

    /// Gives a buffer back, emptied; it is dropped when the pool is full.
    pub fn release(&mut self, buffer: Vec<u8>)
        ensures
            final(self).spec_available() == if old(self).spec_available() < old(self).spec_capacity() {
                old(self).spec_available() + 1
            } else {
                old(self).spec_available()
            },
            final(self).spec_capacity() == old(self).spec_capacity(),
    {
        proof {
            use_type_invariant(&*self);
        }
        let mut buffer = buffer;
        buffer.clear();
        let mut buffers = queue_new(1);
        std::mem::swap(&mut buffers, &mut self.buffers);
        queue_push(&mut buffers, buffer);
        proof {
            let q0 = queued_buffers(old(self).buffers);
            assert forall|i: int| 0 <= i < queued_buffers(buffers).len() implies (#[trigger] queued_buffers(
                buffers,
            )[i]).len() == 0 by {
                if i < q0.len() {
                    assert(queued_buffers(buffers)[i] == q0[i]);
                }
            }
        }
        self.buffers = buffers;
    }
}

} // verus!
