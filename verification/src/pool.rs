//! The decisions of the resilient database pool around one query: how the
//! circuit breaker's outcome is counted and reported, and the pool's
//! statistics line.

use vstd::prelude::*;
use crate::metrics::{DatabaseMetrics, latency_recorded};
use crate::text::{decimal, push_decimal, push_text};

verus! {

/// Why the circuit breaker did not deliver a query result.
pub enum BreakerFailure {
    /// The breaker is open and refused the call.
    Rejected,
    /// The query ran and failed; `source` describes the failure.
    ExecutionFailed { source: String },
    /// The query did not finish within `timeout_ms` milliseconds.
    TimedOut { timeout_ms: u64 },
}

/// A failed pool operation, as reported to callers.
pub enum PoolFailure {
    /// "Database circuit breaker is open".
    CircuitOpen,
    /// "Database operation failed: <source>".
    OperationFailed(String),
    /// "Database operation timed out after <timeout>".
    TimedOut { timeout_ms: u64 },
}

/// The report of a failed pool operation.
pub open spec fn reported_failure(f: BreakerFailure) -> PoolFailure {
    match f {
        BreakerFailure::Rejected => PoolFailure::CircuitOpen,
        BreakerFailure::ExecutionFailed { source } => PoolFailure::OperationFailed(source),
        BreakerFailure::TimedOut { timeout_ms } => PoolFailure::TimedOut { timeout_ms },
    }
}

/// Settle a query that went through the circuit breaker: count a success or
/// a failure (with its latency), count an open circuit when the breaker
/// refused the call, and report the failure.
pub fn settle_query<T>(metrics: &mut DatabaseMetrics, outcome: Result<T, BreakerFailure>) -> (r: Result<T, PoolFailure>)
    ensures
        final(metrics)@.queries_started == old(metrics)@.queries_started,
        final(metrics)@.queries_rejected == old(metrics)@.queries_rejected,
        final(metrics)@.timing == old(metrics)@.timing,
        latency_recorded(old(metrics)@, final(metrics)@.total_latency_us),
        outcome is Ok ==> final(metrics)@.queries_succeeded == old(metrics)@.queries_succeeded.wrapping_add(1),
        outcome is Ok ==> final(metrics)@.queries_failed == old(metrics)@.queries_failed,
        outcome is Ok ==> final(metrics)@.circuit_opens == old(metrics)@.circuit_opens,
        outcome is Err ==> final(metrics)@.queries_failed == old(metrics)@.queries_failed.wrapping_add(1),
        outcome is Err ==> final(metrics)@.queries_succeeded == old(metrics)@.queries_succeeded,
        final(metrics)@.circuit_opens == if outcome matches Err(BreakerFailure::Rejected) {
            old(metrics)@.circuit_opens.wrapping_add(1)
        } else {
            old(metrics)@.circuit_opens
        },
        outcome matches Ok(v) ==> r == Ok::<T, PoolFailure>(v),
        outcome matches Err(f) ==> r == Err::<T, PoolFailure>(reported_failure(f)),
{
    match outcome {
        Ok(v) => {
            metrics.record_query_success();
            Ok(v)
        },
        Err(f) => {
            metrics.record_query_failure();
            match f {
                BreakerFailure::Rejected => {
                    metrics.record_circuit_open();
                    Err(PoolFailure::CircuitOpen)
                },
                BreakerFailure::ExecutionFailed { source } => Err(PoolFailure::OperationFailed(source)),
                BreakerFailure::TimedOut { timeout_ms } => Err(PoolFailure::TimedOut { timeout_ms }),
            }
        },
    }
}

/// Pool statistics for monitoring.
pub struct PoolStats {
    pub size: u32,
    pub idle: usize,
    pub max_connections: u32,
    pub bulkhead_available: usize,
    pub bulkhead_max: usize,
}

/// The monitoring line of pool statistics.
pub open spec fn pool_stats_line(s: PoolStats) -> Seq<char> {
    "Pool[size="@ + decimal(s.size as nat) + "/"@ + decimal(s.max_connections as nat) + ", idle="@
        + decimal(s.idle as nat) + ", bulkhead="@ + decimal(s.bulkhead_available as nat) + "/"@
        + decimal(s.bulkhead_max as nat) + "]"@
}

impl PoolStats {
    /// The monitoring line: "Pool[size=<size>/<max>, idle=<idle>, bulkhead=<available>/<max>]".
    pub fn describe(&self) -> (line: String)
        ensures
            line@ == pool_stats_line(*self),
    {
        let mut line = String::from_str("Pool[size=");
        push_decimal(&mut line, self.size as u64);
        push_text(&mut line, "/");
        push_decimal(&mut line, self.max_connections as u64);
        push_text(&mut line, ", idle=");
        push_decimal(&mut line, self.idle as u64);
        push_text(&mut line, ", bulkhead=");
        push_decimal(&mut line, self.bulkhead_available as u64);
        push_text(&mut line, "/");
        push_decimal(&mut line, self.bulkhead_max as u64);
        push_text(&mut line, "]");
        proof {
            assert(line@ =~= pool_stats_line(*self));
        }
        line
    }
}

} // verus!
