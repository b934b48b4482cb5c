//! Database metrics: counters for queries started, completed, rejected, and
//! the accumulated latency of completed queries.

use std::time::{Duration, Instant};
use vstd::prelude::*;

verus! {

#[verifier::external_type_specification]
#[verifier::external_body]
pub struct ExInstant(Instant);

/// Reads the monotonic clock (`std::time::Instant::now`). Nothing is promised
/// of the instant that comes back: it depends on the machine's clock.
#[verifier::external_body]
fn clock_now() -> (t: Instant) {
    Instant::now()
}

/// Time passed since `start` (`std::time::Instant::elapsed`). Nothing is
/// promised of the duration: it depends on the machine's clock.
#[verifier::external_body]
fn elapsed_since(start: &Instant) -> (d: Duration) {
    start.elapsed()
}

/// Whole microseconds of a duration (`std::time::Duration::as_micros`). The
/// duration is opaque here, so nothing is stated of the count.
#[verifier::external_body]
fn whole_micros(d: &Duration) -> (us: u128) {
    d.as_micros()
}

/// Abstract state of [`DatabaseMetrics`]: the six counters, and whether a
/// query start time has been recorded.
pub ghost struct MetricsView {
    pub queries_started: u64,
    pub queries_succeeded: u64,
    pub queries_failed: u64,
    pub queries_rejected: u64,
    pub circuit_opens: u64,
    pub total_latency_us: u64,
    pub timing: bool,
}

/// Database metrics collector.
///
/// Counters wrap around on overflow, as the atomic counters they model do.
pub struct DatabaseMetrics {
    queries_started: u64,
    queries_succeeded: u64,
    queries_failed: u64,
    queries_rejected: u64,
    circuit_opens: u64,
    total_latency_us: u64,
    last_query_start: Option<Instant>,
}

impl View for DatabaseMetrics {
    type V = MetricsView;

    closed spec fn view(&self) -> MetricsView {
        MetricsView {
            queries_started: self.queries_started,
            queries_succeeded: self.queries_succeeded,
            queries_failed: self.queries_failed,
            queries_rejected: self.queries_rejected,
            circuit_opens: self.circuit_opens,
            total_latency_us: self.total_latency_us,
            timing: self.last_query_start is Some,
        }
    }
}

/// The state of a fresh collector: every counter at zero, no start recorded.
pub open spec fn fresh_metrics() -> MetricsView {
    MetricsView {
        queries_started: 0,
        queries_succeeded: 0,
        queries_failed: 0,
        queries_rejected: 0,
        circuit_opens: 0,
        total_latency_us: 0,
        timing: false,
    }
}

/// Latency accounting after a completed query: without a recorded start
/// nothing is added; with one, some measured number of microseconds is.
pub open spec fn latency_recorded(before: MetricsView, after_total: u64) -> bool {
    if before.timing {
        exists|l: u64| after_total == before.total_latency_us.wrapping_add(l)
    } else {
        after_total == before.total_latency_us
    }
}

/// Average latency over completed queries, zero when none completed.
pub open spec fn average_latency(m: MetricsView) -> u64 {
    let completed = m.queries_succeeded + m.queries_failed;
    if completed > 0 {
        (m.total_latency_us as int / completed) as u64
    } else {
        0
    }
}

/// Law: the average latency is the latency total shared over the completed
/// queries (succeeded and failed), rounded down: it times their number is at
/// most the total, and one more would exceed it; with no completed query it is
/// zero. Queries started and still in flight, rejections and circuit opens do
/// not count.
pub proof fn law_average_over_completed(m: MetricsView, in_flight: u64, rejected: u64, opens: u64)
    ensures
        m.queries_succeeded + m.queries_failed == 0 ==> average_latency(m) == 0,
        m.queries_succeeded + m.queries_failed > 0 ==> {
            let c = m.queries_succeeded + m.queries_failed;
            &&& average_latency(m) * c <= m.total_latency_us
            &&& m.total_latency_us < (average_latency(m) + 1) * c
        },
        average_latency(m) == average_latency(MetricsView {
            queries_started: in_flight,
            queries_rejected: rejected,
            circuit_opens: opens,
            ..m
        }),
{
    let c = m.queries_succeeded + m.queries_failed;
    if c > 0 {
        let t = m.total_latency_us as int;
        let q = t / c;
        assert(q * c <= t && t < (q + 1) * c) by (nonlinear_arith)
            requires
                c > 0,
                t >= 0,
                q == t / c,
        ;
        assert(q <= t) by (nonlinear_arith)
            requires
                c >= 1,
                t >= 0,
                q == t / c,
        ;
        assert(average_latency(m) == q);
    }
}

impl Default for DatabaseMetrics {
    fn default() -> (m: Self)
        ensures
            m@ == fresh_metrics(),
    {
        Self::new()
    }
}

impl DatabaseMetrics {
    /// Create a new metrics collector.
    pub fn new() -> (m: Self)
        ensures
            m@ == fresh_metrics(),
    {
        Self {
            queries_started: 0,
            queries_succeeded: 0,
            queries_failed: 0,
            queries_rejected: 0,
            circuit_opens: 0,
            total_latency_us: 0,
            last_query_start: None,
        }
    }

    /// Record query start: count it and remember when it started.
    pub fn record_query_start(&mut self)
        ensures
            final(self)@ == (MetricsView {
                queries_started: old(self)@.queries_started.wrapping_add(1),
                timing: true,
                ..old(self)@
            }),
    {
        self.queries_started = self.queries_started.wrapping_add(1);
        self.last_query_start = Some(clock_now());
    }

    /// Record successful query completion.
    pub fn record_query_success(&mut self)
        ensures
            final(self)@.queries_succeeded == old(self)@.queries_succeeded.wrapping_add(1),
            final(self)@.queries_started == old(self)@.queries_started,
            final(self)@.queries_failed == old(self)@.queries_failed,
            final(self)@.queries_rejected == old(self)@.queries_rejected,
            final(self)@.circuit_opens == old(self)@.circuit_opens,
            final(self)@.timing == old(self)@.timing,
            latency_recorded(old(self)@, final(self)@.total_latency_us),
    {
        let ghost before = self@;
        self.queries_succeeded = self.queries_succeeded.wrapping_add(1);
        let ghost mid = self@;
        self.record_latency();
        proof {
            if before.timing {
                let l = choose|l: u64| self@.total_latency_us == mid.total_latency_us.wrapping_add(l);
                assert(self@.total_latency_us == before.total_latency_us.wrapping_add(l));
            }
        }
    }

    /// Record failed query.
    pub fn record_query_failure(&mut self)
        ensures
            final(self)@.queries_failed == old(self)@.queries_failed.wrapping_add(1),
            final(self)@.queries_started == old(self)@.queries_started,
            final(self)@.queries_succeeded == old(self)@.queries_succeeded,
            final(self)@.queries_rejected == old(self)@.queries_rejected,
            final(self)@.circuit_opens == old(self)@.circuit_opens,
            final(self)@.timing == old(self)@.timing,
            latency_recorded(old(self)@, final(self)@.total_latency_us),
    {
        let ghost before = self@;
        self.queries_failed = self.queries_failed.wrapping_add(1);
        let ghost mid = self@;
        self.record_latency();
        proof {
            if before.timing {
                let l = choose|l: u64| self@.total_latency_us == mid.total_latency_us.wrapping_add(l);
                assert(self@.total_latency_us == before.total_latency_us.wrapping_add(l));
            }
        }
    }

    /// Record query rejection by circuit breaker.
    pub fn record_query_rejected(&mut self)
        ensures
            final(self)@ == (MetricsView {
                queries_rejected: old(self)@.queries_rejected.wrapping_add(1),
                ..old(self)@
            }),
    {
        self.queries_rejected = self.queries_rejected.wrapping_add(1);
    }

    /// Record circuit breaker open event.
    pub fn record_circuit_open(&mut self)
        ensures
            final(self)@ == (MetricsView {
                circuit_opens: old(self)@.circuit_opens.wrapping_add(1),
                ..old(self)@
            }),
    {
        self.circuit_opens = self.circuit_opens.wrapping_add(1);
    }

    /// Add a measured latency to the total.
    pub fn accumulate_latency(&mut self, latency_us: u64)
        ensures
            final(self)@ == (MetricsView {
                total_latency_us: old(self)@.total_latency_us.wrapping_add(latency_us),
                ..old(self)@
            }),
    {
        self.total_latency_us = self.total_latency_us.wrapping_add(latency_us);
    }

    /// Record latency from last query start.
    fn record_latency(&mut self)
        ensures
            final(self)@ == (MetricsView { total_latency_us: final(self)@.total_latency_us, ..old(self)@ }),
            latency_recorded(old(self)@, final(self)@.total_latency_us),
    {
        match &self.last_query_start {
            Some(start) => {
                let elapsed = elapsed_since(start);
                let micros = whole_micros(&elapsed);
                self.accumulate_latency(micros as u64);
            },
            None => {},
        }
    }

    /// Get total queries started.
    pub fn queries_started(&self) -> (n: u64)
        ensures
            n == self@.queries_started,
    {
        self.queries_started
    }

    /// Get successful query count.
    pub fn queries_succeeded(&self) -> (n: u64)
        ensures
            n == self@.queries_succeeded,
    {
        self.queries_succeeded
    }

    /// Get failed query count.
    pub fn queries_failed(&self) -> (n: u64)
        ensures
            n == self@.queries_failed,
    {
        self.queries_failed
    }

    /// Get rejected query count.
    pub fn queries_rejected(&self) -> (n: u64)
        ensures
            n == self@.queries_rejected,
    {
        self.queries_rejected
    }

    /// Get circuit open count.
    pub fn circuit_opens(&self) -> (n: u64)
        ensures
            n == self@.circuit_opens,
    {
        self.circuit_opens
    }

    /// Get the accumulated latency in microseconds.
    pub fn total_latency_us(&self) -> (n: u64)
        ensures
            n == self@.total_latency_us,
    {
        self.total_latency_us
    }

    /// Get average latency in microseconds over completed queries.
    pub fn average_latency_us(&self) -> (avg: u64)
        requires
            self@.queries_succeeded + self@.queries_failed <= u64::MAX,
        ensures
            avg == average_latency(self@),
            self@.queries_succeeded + self@.queries_failed == 0 ==> avg == 0,
            self@.queries_succeeded + self@.queries_failed > 0 ==> {
                &&& avg * (self@.queries_succeeded + self@.queries_failed) <= self@.total_latency_us
                &&& self@.total_latency_us < (avg + 1) * (self@.queries_succeeded + self@.queries_failed)
            },
    {
        proof {
            law_average_over_completed(self@, 0, 0, 0);
        }
        let total = self.total_latency_us;
        let completed = self.queries_succeeded() + self.queries_failed();
        if completed > 0 {
            total / completed
        } else {
            0
        }
    }

    /// Reset all counters; a recorded start time is kept.
    pub fn reset(&mut self)
        ensures
            final(self)@ == (MetricsView { timing: old(self)@.timing, ..fresh_metrics() }),
    {
        self.queries_started = 0;
        self.queries_succeeded = 0;
        self.queries_failed = 0;
        self.queries_rejected = 0;
        self.circuit_opens = 0;
        self.total_latency_us = 0;
    }
}

} // verus!
