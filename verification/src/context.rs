//! Per-operation metrics and the context that accumulates them over a run.

use crate::string_map::StringMap;
use std::time::{Duration, Instant};
use vstd::prelude::*;

verus! {

/// Nanoseconds in one second.
pub const NANOS_PER_SECOND: u128 = 1_000_000_000;

/// What one operation did to one dataset, and how long it took.
#[derive(Debug, Clone)]
pub struct OperationMetrics {
    /// Name of the operation.
    pub operation_name: String,
    /// Time that the operation took.
    pub duration: Duration,
    /// Rows that went in.
    pub input_rows: usize,
    /// Rows that came out.
    pub output_rows: usize,
    /// Feature columns that went in.
    pub input_columns: usize,
    /// Feature columns that came out.
    pub output_columns: usize,
}

impl OperationMetrics {
    /// Whole input rows per second: zero for a duration of zero, else the input rows
    /// divided by the duration in seconds, rounded down.
    pub open spec fn rate(&self) -> nat {
        if crate::clock::duration_nanos(self.duration) == 0 {
            0
        } else {
            (self.input_rows * NANOS_PER_SECOND) as nat / crate::clock::duration_nanos(
                self.duration,
            )
        }
    }

    /// Metrics for the operation of that name, with every counter and the duration at zero.
    pub fn new(operation_name: String) -> (r: Self)
        ensures
            r.operation_name == operation_name,
            crate::clock::duration_nanos(r.duration) == 0,
            r.input_rows == 0,
            r.output_rows == 0,
            r.input_columns == 0,
            r.output_columns == 0,
    {
        OperationMetrics {
            operation_name,
            duration: Duration::from_secs(0),
            input_rows: 0,
            output_rows: 0,
            input_columns: 0,
            output_columns: 0,
        }
    }

    /// Throughput in whole rows per second; zero when the operation took no time.
    pub fn throughput(&self) -> (r: u128)
        ensures
            r == self.rate(),
            r <= usize::MAX * NANOS_PER_SECOND,
    {
        let nanos = self.duration.as_nanos();
        if nanos == 0 {
            0
        } else {
            let scaled: u128 = (self.input_rows as u128) * NANOS_PER_SECOND;
            proof {
                vstd::arithmetic::div_mod::lemma_div_is_ordered_by_denominator(
                    scaled as int,
                    1,
                    nanos as int,
                );
                vstd::arithmetic::div_mod::lemma_div_basics(scaled as int);
            }
            scaled / nanos
        }
    }
}

/// The sum of the rates of the recorded operations.
pub open spec fn total_rate(metrics: Seq<OperationMetrics>) -> nat
    decreases metrics.len(),
{
    if metrics.len() == 0 {
        0
    } else {
        total_rate(metrics.drop_last()) + metrics.last().rate()
    }
}

/// The mean of the rates of the recorded operations, rounded down; zero when there are none.
pub open spec fn mean_rate(metrics: Seq<OperationMetrics>) -> nat {
    if metrics.len() == 0 {
        0
    } else {
        total_rate(metrics) / metrics.len()
    }
}

/// The input rows of the first recorded operation; zero when there is none.
pub open spec fn rows_entering(metrics: Seq<OperationMetrics>) -> nat {
    if metrics.len() == 0 {
        0
    } else {
        metrics[0].input_rows as nat
    }
}

/// What a run amounted to.
#[derive(Debug, Clone)]
pub struct ExecutionSummary {
    /// Number of operations recorded.
    pub total_operations: usize,
    /// Time since the context was made.
    pub total_duration: Duration,
    /// Rows that entered the first operation.
    pub total_rows_processed: usize,
    /// Mean of the operations' throughputs, in whole rows per second.
    pub average_throughput: u128,
}

/// Accumulates the metrics of the operations of a run, in the order in which they ran.
pub struct ExecutionContext {
    metrics: Vec<OperationMetrics>,
    start_time: Instant,
    metadata: StringMap<String>,
}

impl ExecutionContext {
    /// The metrics recorded so far, oldest first.
    pub closed spec fn recorded(&self) -> Seq<OperationMetrics> {
        self.metrics@
    }

    /// The caller's annotations.
    pub closed spec fn annotations(&self) -> Map<Seq<char>, String> {
        self.metadata@
    }

    /// The reading of the clock taken when the context was made.
    pub closed spec fn started(&self) -> Instant {
        self.start_time
    }

    /// A context with nothing recorded and no annotation, whose start is the reading
    /// that the clock gives at the call.
    pub fn new() -> (r: Self)
        ensures
            r.recorded() == Seq::<OperationMetrics>::empty(),
            r.annotations() == Map::<Seq<char>, String>::empty(),
            call_ensures(Instant::now, (), r.started()),
    {
        ExecutionContext {
            metrics: Vec::new(),
            start_time: Instant::now(),
            metadata: StringMap::new(),
        }
    }

    /// Appends the metrics of one operation. Earlier records stay as they are.
    pub fn record_metrics(&mut self, metrics: OperationMetrics)
        ensures
            final(self).recorded() == old(self).recorded().push(metrics),
            final(self).annotations() == old(self).annotations(),
            final(self).started() == old(self).started(),
    {
        self.metrics.push(metrics);
    }

    /// All recorded metrics, oldest first.
    pub fn metrics(&self) -> (r: &[OperationMetrics])
        ensures
            r@ == self.recorded(),
    {
        self.metrics.as_slice()
    }

    /// Wall-clock time since the context was made: what the clock measures, at the
    /// call, from the context's start. This is not the sum of the recorded durations,
    /// and it grows from one call to the next.
    pub fn total_duration(&self) -> (r: Duration)
        ensures
            call_ensures(Instant::elapsed, (&self.started(),), r),
    {
        self.start_time.elapsed()
    }

    /// The rows that entered the pipeline: the input rows of the first recorded operation.
    pub fn total_rows_processed(&self) -> (r: usize)
        ensures
            r == rows_entering(self.recorded()),
    {
        if self.metrics.len() == 0 {
            0
        } else {
            self.metrics[0].input_rows
        }
    }

    /// Stores an annotation, replacing an earlier one under the same key.
    pub fn add_metadata(&mut self, key: String, value: String)
        ensures
            final(self).annotations() == old(self).annotations().insert(key@, value),
            final(self).recorded() == old(self).recorded(),
            final(self).started() == old(self).started(),
    {
        self.metadata.insert(key, value);
    }

    /// The annotation stored under `key`, if there is one.
    pub fn get_metadata(&self, key: &str) -> (r: Option<&str>)
        ensures
            match r {
                Some(v) => self.annotations().contains_key(key@) && v@ == self.annotations()[key@]@,
                None => !self.annotations().contains_key(key@),
            },
    {
        match self.metadata.get(key) {
            Some(v) => Some(v.as_str()),
            None => None,
        }
    }

    /// All annotations.
    pub fn metadata(&self) -> (r: &StringMap<String>)
        ensures
            r@ == self.annotations(),
    {
        &self.metadata
    }

    /// The mean of the recorded operations' throughputs.
    pub fn average_throughput(&self) -> (r: u128)
        ensures
            r == mean_rate(self.recorded()),
    {
        let count = self.metrics.len();
        if count == 0 {
            return 0;
        }
        let n: u128 = count as u128;
        let ghost cap: nat = (usize::MAX * NANOS_PER_SECOND) as nat;
        let mut quotients: u128 = 0;
        let mut remainders: u128 = 0;
        let mut i: usize = 0;
        while i < count
            invariant
                count == self.metrics@.len(),
                n == count,
                0 < n <= usize::MAX,
                cap == usize::MAX * NANOS_PER_SECOND,
                i <= count,
                total_rate(self.metrics@.take(i as int)) == n * quotients + remainders,
                total_rate(self.metrics@.take(i as int)) <= i * cap,
                remainders <= i * (n - 1),
            decreases count - i,
        {
            let t = self.metrics[i].throughput();
            let q = t / n;
            let m = t % n;
            proof {
                let done = self.metrics@.take(i as int);
                let next = self.metrics@.take(i + 1);
                assert(next.drop_last() =~= done);
                assert(next.last() == self.metrics@[i as int]);
                assert(total_rate(next) == total_rate(done) + t);
                vstd::arithmetic::div_mod::lemma_fundamental_div_mod(t as int, n as int);
                assert(t == n * q + m);
                assert(n * (quotients + q) == n * quotients + n * q) by (nonlinear_arith);
                assert(total_rate(next) == n * (quotients + q) + (remainders + m));
                assert((i + 1) * cap == i * cap + cap) by (nonlinear_arith);
                assert((i + 1) * (n - 1) == i * (n - 1) + (n - 1)) by (nonlinear_arith);
                assert((i + 1) * cap <= n * cap) by (nonlinear_arith)
                    requires
                        i + 1 <= n,
                        cap >= 0,
                ;
                assert(quotients + q <= cap) by (nonlinear_arith)
                    requires
                        n * (quotients + q) <= n * cap,
                        n > 0,
                ;
                assert((i + 1) * (n - 1) <= usize::MAX * usize::MAX) by (nonlinear_arith)
                    requires
                        i + 1 <= n,
                        0 < n <= usize::MAX,
                ;
                assert(usize::MAX * usize::MAX < u128::MAX) by (nonlinear_arith)
                    requires
                        usize::MAX <= u64::MAX,
                ;
                assert(cap < u128::MAX) by (nonlinear_arith)
                    requires
                        cap == usize::MAX * NANOS_PER_SECOND,
                        usize::MAX <= u64::MAX,
                        NANOS_PER_SECOND == 1_000_000_000,
                ;
            }
            quotients = quotients + q;
            remainders = remainders + m;
            i = i + 1;
        }
        proof {
            assert(self.metrics@.take(count as int) =~= self.metrics@);
            let total = total_rate(self.metrics@) as int;
            let q = remainders as int / n as int;
            let m = remainders as int % n as int;
            vstd::arithmetic::div_mod::lemma_fundamental_div_mod(remainders as int, n as int);
            assert(n * (quotients + q) + m == n * quotients + (n * q + m)) by (nonlinear_arith);
            vstd::arithmetic::div_mod::lemma_fundamental_div_mod_converse(
                total,
                n as int,
                quotients as int + q,
                m,
            );
            assert(quotients + q <= cap) by (nonlinear_arith)
                requires
                    n * (quotients + q) + m <= n * cap,
                    m >= 0,
                    n > 0,
            ;
            assert(cap < u128::MAX) by (nonlinear_arith)
                requires
                    cap == usize::MAX * NANOS_PER_SECOND,
                    usize::MAX <= u64::MAX,
                    NANOS_PER_SECOND == 1_000_000_000,
            ;
        }
        quotients + remainders / n
    }

    /// The summary of the run for a given reading of the elapsed time.
    pub fn summary_at(&self, elapsed: Duration) -> (r: ExecutionSummary)
        ensures
            r.total_operations == self.recorded().len(),
            r.total_duration == elapsed,
            r.total_rows_processed == rows_entering(self.recorded()),
            r.average_throughput == mean_rate(self.recorded()),
    {
        ExecutionSummary {
            total_operations: self.metrics.len(),
            total_duration: elapsed,
            total_rows_processed: self.total_rows_processed(),
            average_throughput: self.average_throughput(),
        }
    }

    /// The summary of the run so far. The context is left as it is. The total duration
    /// is what the clock measures, at the call, from the context's start.
    pub fn summary(&self) -> (r: ExecutionSummary)
        ensures
            r.total_operations == self.recorded().len(),
            call_ensures(Instant::elapsed, (&self.started(),), r.total_duration),
            r.total_rows_processed == rows_entering(self.recorded()),
            r.average_throughput == mean_rate(self.recorded()),
    {
        let elapsed = self.total_duration();
        self.summary_at(elapsed)
    }
}

impl Default for ExecutionContext {
    fn default() -> (r: Self)
        ensures
            r.recorded() == Seq::<OperationMetrics>::empty(),
            r.annotations() == Map::<Seq<char>, String>::empty(),
            call_ensures(Instant::now, (), r.started()),
    {
        ExecutionContext::new()
    }
}

} // verus!
