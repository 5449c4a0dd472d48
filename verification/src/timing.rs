//! Nanosecond timestamps and latency measurement.
use vstd::prelude::*;
use vstd::string::StringExecFns;
use core::time::Duration;
use std::time::{Instant, SystemTime};
use core::cmp::Ordering;

verus! {

#[verifier::external_type_specification]
#[verifier::external_body]
pub struct ExSystemTime(SystemTime);

/// The wall clock now (`SystemTime::now`); nothing is known of its value.
#[verifier::external_body]
fn system_now() -> SystemTime {
    SystemTime::now()
}

/// Time elapsed since the UNIX epoch (`SystemTime::duration_since`), `None`
/// when the clock reads earlier than the epoch.
#[verifier::external_body]
fn since_unix_epoch(t: &SystemTime) -> Option<Duration> {
    match t.duration_since(std::time::UNIX_EPOCH) {
        Ok(d) => Some(d),
        Err(_) => None,
    }
}

/// The whole nanoseconds of a duration (`Duration::as_nanos`).
#[verifier::external_body]
fn duration_nanos(d: &Duration) -> u128 {
    d.as_nanos()
}

#[verifier::external_type_specification]
#[verifier::external_body]
pub struct ExInstant(Instant);

/// The monotonic clock now (`Instant::now`); nothing is known of its value.
#[verifier::external_body]
fn instant_now() -> Instant {
    Instant::now()
}

/// The whole nanoseconds from `earlier` to `later`
/// (`Instant::saturating_duration_since`, then `Duration::as_nanos`); zero
/// when `later` is the earlier one. Its value rests on the clock readings.
#[verifier::external_body]
fn nanos_between(later: &Instant, earlier: &Instant) -> u128 {
    later.saturating_duration_since(*earlier).as_nanos()
}

/// A monotonic clock counting nanoseconds from the moment it was made; it
/// never goes back, unlike the wall clock.
pub struct MonotonicClock {
    origin: Instant,
}

impl MonotonicClock {
    /// A clock starting now.
    pub fn new() -> (r: MonotonicClock) {
        MonotonicClock { origin: instant_now() }
    }

    /// Nanoseconds since the clock was made (the largest `u64` after about
    /// 584 years).
    pub fn now_ns(&self) -> (r: u64) {
        let now = instant_now();
        let n = nanos_between(&now, &self.origin);
        if n > 0xffff_ffff_ffff_ffffu128 {
            0xffff_ffff_ffff_ffffu64
        } else {
            n as u64
        }
    }
}

/// `a - b`, or 0 when `b > a`.
pub open spec fn saturating_diff(a: u64, b: u64) -> u64 {
    if a >= b {
        (a - b) as u64
    } else {
        0
    }
}

/// High-precision timestamp in nanoseconds since UNIX epoch
#[derive(Clone, Copy, Debug, PartialEq, Eq, Ord, Hash, Structural)]
pub struct Timestamp(u64);

impl Timestamp {
    /// The nanoseconds the timestamp holds.
    pub closed spec fn nanos(self) -> u64 {
        self.0
    }

    /// The timestamp holding `n` nanoseconds.
    pub closed spec fn of_nanos(n: u64) -> Timestamp {
        Timestamp(n)
    }

    pub proof fn lemma_of_nanos(n: u64)
        ensures
            Timestamp::of_nanos(n).nanos() == n,
    {
    }

    /// The current time. A clock that reads before the epoch gives 0.
    pub fn now() -> (r: Timestamp) {
        let t = system_now();
        match since_unix_epoch(&t) {
            Some(d) => {
                let n = duration_nanos(&d);
                Timestamp(n as u64)
            },
            None => Timestamp(0),
        }
    }

    /// Create timestamp from nanoseconds
    pub fn from_nanos(nanos: u64) -> (r: Timestamp)
        ensures
            r.nanos() == nanos,
    {
        Timestamp(nanos)
    }

    /// Get nanoseconds value
    pub fn as_nanos(&self) -> (r: u64)
        ensures
            r == self.nanos(),
    {
        self.0
    }

    /// Nanoseconds from this timestamp to `now`; 0 when `now` is earlier.
    pub fn latency_ns_at(&self, now: Timestamp) -> (r: u64)
        ensures
            r == saturating_diff(now.nanos(), self.nanos()),
    {
        now.0.saturating_sub(self.0)
    }

    /// Whole microseconds from this timestamp to `now`.
    pub fn latency_us_at(&self, now: Timestamp) -> (r: u64)
        ensures
            r == saturating_diff(now.nanos(), self.nanos()) / 1000,
    {
        self.latency_ns_at(now) / 1_000
    }

    /// Whole milliseconds from this timestamp to `now`.
    pub fn latency_ms_at(&self, now: Timestamp) -> (r: u64)
        ensures
            r == saturating_diff(now.nanos(), self.nanos()) / 1_000_000,
    {
        self.latency_ns_at(now) / 1_000_000
    }

    /// Calculate latency in nanoseconds from this timestamp to now
    pub fn latency_ns(&self) -> (r: u64)
        ensures
            exists|now: Timestamp| r == saturating_diff(now.nanos(), self.nanos()),
    {
        let now = Self::now();
        self.latency_ns_at(now)
    }

    /// Calculate latency in microseconds from this timestamp to now
    pub fn latency_us(&self) -> (r: u64)
        ensures
            exists|now: Timestamp| r == saturating_diff(now.nanos(), self.nanos()) / 1000,
    {
        let now = Self::now();
        self.latency_us_at(now)
    }

    /// Calculate latency in milliseconds from this timestamp to now
    pub fn latency_ms(&self) -> (r: u64)
        ensures
            exists|now: Timestamp| r == saturating_diff(now.nanos(), self.nanos()) / 1_000_000,
    {
        let now = Self::now();
        self.latency_ms_at(now)
    }
}

impl From<u64> for Timestamp {
    fn from(nanos: u64) -> (r: Timestamp) {
        Timestamp(nanos)
    }
}

impl vstd::std_specs::convert::FromSpecImpl<u64> for Timestamp {
    open spec fn obeys_from_spec() -> bool {
        true
    }

    open spec fn from_spec(v: u64) -> Timestamp {
        Timestamp::of_nanos(v)
    }
}

impl From<Timestamp> for u64 {
    fn from(ts: Timestamp) -> (r: u64) {
        ts.0
    }
}

impl vstd::std_specs::convert::FromSpecImpl<Timestamp> for u64 {
    open spec fn obeys_from_spec() -> bool {
        true
    }

    open spec fn from_spec(v: Timestamp) -> u64 {
        v.nanos()
    }
}

/// The order of two timestamps: the order of their nanoseconds.
pub open spec fn timestamp_order(a: Timestamp, b: Timestamp) -> Option<Ordering> {
    if a.nanos() < b.nanos() {
        Some(Ordering::Less)
    } else if a.nanos() == b.nanos() {
        Some(Ordering::Equal)
    } else {
        Some(Ordering::Greater)
    }
}

impl PartialOrd for Timestamp {
    fn partial_cmp(&self, other: &Timestamp) -> (r: Option<Ordering>) {
        if self.0 < other.0 {
            Some(Ordering::Less)
        } else if self.0 == other.0 {
            Some(Ordering::Equal)
        } else {
            Some(Ordering::Greater)
        }
    }
}

impl vstd::std_specs::cmp::PartialOrdSpecImpl for Timestamp {
    open spec fn obeys_partial_cmp_spec() -> bool {
        true
    }

    open spec fn partial_cmp_spec(&self, other: &Timestamp) -> Option<Ordering> {
        timestamp_order(*self, *other)
    }
}

/// Timestamps are ordered as their nanoseconds are: the one made from `a`
/// comes before the one made from `b` exactly when `a < b`.
pub proof fn lemma_timestamp_order(a: u64, b: u64)
    ensures
        (timestamp_order(Timestamp::of_nanos(a), Timestamp::of_nanos(b)) == Some(Ordering::Less))
            <==> a < b,
        (timestamp_order(Timestamp::of_nanos(a), Timestamp::of_nanos(b)) == Some(Ordering::Equal))
            <==> a == b,
        (timestamp_order(Timestamp::of_nanos(a), Timestamp::of_nanos(b)) == Some(
            Ordering::Greater,
        )) <==> a > b,
{
}

/// One latency measurement of a tracker, for logging.
#[derive(Clone, Debug)]
pub struct LatencyMeasurement {
    pub name: String,
    pub elapsed_ns: u64,
    pub elapsed_us: u64,
}

/// Latency tracker for measuring system performance
pub struct LatencyTracker {
    name: String,
    start: Timestamp,
}

impl LatencyTracker {
    pub closed spec fn spec_name(&self) -> Seq<char> {
        self.name@
    }

    pub closed spec fn spec_start(&self) -> Timestamp {
        self.start
    }

    /// A tracker named `name`, started now.
    pub fn new(name: &str) -> (r: LatencyTracker)
        ensures
            r.spec_name() == name@,
    {
        LatencyTracker { name: String::from_str(name), start: Timestamp::now() }
    }

    /// A tracker named `name`, started at `start`.
    pub fn started_at(name: &str, start: Timestamp) -> (r: LatencyTracker)
        ensures
            r.spec_name() == name@,
            r.spec_start() == start,
    {
        LatencyTracker { name: String::from_str(name), start }
    }

    pub fn start(&self) -> (r: Timestamp)
        ensures
            r == self.spec_start(),
    {
        self.start
    }

    pub fn elapsed_ns(&self) -> (r: u64)
        ensures
            exists|now: Timestamp| r == saturating_diff(now.nanos(), self.spec_start().nanos()),
    {
        let r = self.start.latency_ns();
        proof {
            let w = choose|now: Timestamp| r == saturating_diff(now.nanos(), self.start.nanos());
            assert(r == saturating_diff(w.nanos(), self.spec_start().nanos()));
        }
        r
    }

    pub fn elapsed_us(&self) -> (r: u64)
        ensures
            exists|now: Timestamp| r == saturating_diff(now.nanos(), self.spec_start().nanos())
                / 1000,
    {
        let r = self.start.latency_us();
        proof {
            let w = choose|now: Timestamp| r == saturating_diff(now.nanos(), self.start.nanos()) / 1000;
            assert(r == saturating_diff(w.nanos(), self.spec_start().nanos()) / 1000);
        }
        r
    }

    /// The measurement that is logged: the tracker's name with the elapsed
    /// nanoseconds and microseconds, each read from the clock.
    pub fn log_elapsed(&self) -> (r: LatencyMeasurement)
        ensures
            r.name@ == self.spec_name(),
            exists|now: Timestamp| r.elapsed_ns == saturating_diff(now.nanos(), self.spec_start().nanos()),
            exists|now: Timestamp| r.elapsed_us == saturating_diff(now.nanos(), self.spec_start().nanos())
                / 1000,
    {
        LatencyMeasurement {
            name: self.name.clone(),
            elapsed_ns: self.elapsed_ns(),
            elapsed_us: self.elapsed_us(),
        }
    }
}

} // verus!
