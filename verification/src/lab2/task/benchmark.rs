use super::executable::RunMode;
use crate::clock::{duration_secs, duration_subsec_nanos};
use crate::text::{decimal, decimal_spec, format_seconds, seconds_text};
use std::time::Duration;
use vstd::prelude::*;

verus! {

/// A way to run a task, with its parameters.
#[derive(Debug, Clone, Copy, PartialEq, Eq, Structural)]
pub enum BenchmarkKind {
    Sequential,
    MapReduce { partitions: usize },
    ForkJoin { threshold: usize },
    WorkerPool { workers: usize },
    Pipeline { buffer_capacity: usize, max_threads: usize },
    ProducerConsumer { buffer_capacity: usize, consumers: usize, producers: usize },
}

/// The time a way of running a task took.
#[derive(Debug, Clone, Copy, PartialEq, Eq, Structural)]
pub struct BenchmarkResult {
    pub kind: BenchmarkKind,
    pub secs: u64,
    pub subsec_nanos: u32,
}

/// A task asked to run in a way it does not support.
#[derive(Debug, Clone, Copy, PartialEq, Eq, Structural)]
pub enum BenchmarkError {
    MethodIsNotSupported(RunMode),
}

/// `n` in decimal.
pub open spec fn num(n: usize) -> Seq<char> {
    decimal_spec(n as nat)
}

/// The label of a way to run a task, with its parameters.
pub open spec fn kind_text(kind: BenchmarkKind) -> Seq<char> {
    match kind {
        BenchmarkKind::Sequential => "Sequential"@,
        BenchmarkKind::MapReduce { partitions } => "Map-Reduce with "@ + num(partitions)
            + " partitions"@,
        BenchmarkKind::ForkJoin { threshold } => "Fork-Join with threshold of "@ + num(threshold),
        BenchmarkKind::WorkerPool { workers } => "Worker Pool with "@ + num(workers) + " workers"@,
        BenchmarkKind::Pipeline { buffer_capacity, max_threads } => "Pipeline with buffer capacity of "@
            + num(buffer_capacity) + " and max "@ + num(max_threads) + " threads"@,
        BenchmarkKind::ProducerConsumer { buffer_capacity, consumers, producers } =>
            "Producer-Consumer with buffer capacity of "@ + num(buffer_capacity) + ", "@ + num(
            consumers,
        ) + " consumers and "@ + num(producers) + " producers"@,
    }
}

/// The line of a result: `<label>: <seconds> seconds.`.
pub open spec fn result_text(result: BenchmarkResult) -> Seq<char> {
    kind_text(result.kind) + ": "@ + seconds_text(result.secs, result.subsec_nanos) + " seconds."@
}

/// The way to run a task that a benchmark uses.
pub open spec fn mode_of(kind: BenchmarkKind) -> RunMode {
    match kind {
        BenchmarkKind::Sequential => RunMode::Sequential,
        BenchmarkKind::MapReduce { .. } => RunMode::MapReduce,
        BenchmarkKind::ForkJoin { .. } => RunMode::ForkJoin,
        BenchmarkKind::WorkerPool { .. } => RunMode::WorkerPool,
        BenchmarkKind::Pipeline { .. } => RunMode::Pipeline,
        BenchmarkKind::ProducerConsumer { .. } => RunMode::ProducerConsumer,
    }
}

/// The mode of the first benchmark whose mode is not among `supported`, if any.
pub open spec fn first_unsupported(benchmarks: Seq<BenchmarkKind>, supported: Seq<RunMode>) -> Option<
    RunMode,
>
    decreases benchmarks.len(),
{
    if benchmarks.len() == 0 {
        None
    } else {
        match first_unsupported(benchmarks.drop_last(), supported) {
            Some(mode) => Some(mode),
            None => if supported.contains(mode_of(benchmarks.last())) {
                None
            } else {
                Some(mode_of(benchmarks.last()))
            },
        }
    }
}

impl From<&BenchmarkKind> for RunMode {
    fn from(kind: &BenchmarkKind) -> (r: Self) {
        match kind {
            BenchmarkKind::Sequential => RunMode::Sequential,
            BenchmarkKind::MapReduce { .. } => RunMode::MapReduce,
            BenchmarkKind::ForkJoin { .. } => RunMode::ForkJoin,
            BenchmarkKind::WorkerPool { .. } => RunMode::WorkerPool,
            BenchmarkKind::Pipeline { .. } => RunMode::Pipeline,
            BenchmarkKind::ProducerConsumer { .. } => RunMode::ProducerConsumer,
        }
    }
}

impl vstd::std_specs::convert::FromSpecImpl<&BenchmarkKind> for RunMode {
    open spec fn obeys_from_spec() -> bool {
        true
    }

    open spec fn from_spec(kind: &BenchmarkKind) -> Self {
        mode_of(*kind)
    }
}

/// Whether `mode` is among `modes`.
fn contains_mode(modes: &[RunMode], mode: RunMode) -> (r: bool)
    ensures
        r == modes@.contains(mode),
{
    let mut i: usize = 0;
    while i < modes.len()
        invariant
            i <= modes@.len(),
            forall|j: int| 0 <= j < i ==> modes@[j] != mode,
        decreases modes@.len() - i,
    {
        if modes[i] == mode {
            return true;
        }
        i = i + 1;
    }
    false
}

/// Checks that every benchmark runs in one of the `supported` modes; the mode of the first that
/// does not is the error.
pub fn check_supported(benchmarks: &[BenchmarkKind], supported: &[RunMode]) -> (r: Result<
    (),
    BenchmarkError,
>)
    ensures
        r is Ok <==> first_unsupported(benchmarks@, supported@) is None,
        r matches Err(BenchmarkError::MethodIsNotSupported(mode)) ==> first_unsupported(
            benchmarks@,
            supported@,
        ) == Some(mode),
{
    let mut i: usize = 0;
    while i < benchmarks.len()
        invariant
            i <= benchmarks@.len(),
            first_unsupported(benchmarks@.take(i as int), supported@) is None,
        decreases benchmarks@.len() - i,
    {
        assert(benchmarks@.take(i + 1).drop_last() =~= benchmarks@.take(i as int));
        let mode = RunMode::from(&benchmarks[i]);
        if !contains_mode(supported, mode) {
            proof {
                lemma_first_unsupported_stays(benchmarks@, supported@, i as int + 1);
            }
            return Err(BenchmarkError::MethodIsNotSupported(mode));
        }
        i = i + 1;
    }
    assert(benchmarks@.take(benchmarks@.len() as int) =~= benchmarks@);
    Ok(())
}

/// Once a benchmark of the first `k` is unsupported, the first unsupported mode stays.
proof fn lemma_first_unsupported_stays(benchmarks: Seq<BenchmarkKind>, supported: Seq<RunMode>, k: int)
    requires
        0 <= k <= benchmarks.len(),
        first_unsupported(benchmarks.take(k), supported) is Some,
    ensures
        first_unsupported(benchmarks, supported) == first_unsupported(benchmarks.take(k), supported),
    decreases benchmarks.len() - k,
{
    if k < benchmarks.len() {
        assert(benchmarks.take(k + 1).drop_last() =~= benchmarks.take(k));
        lemma_first_unsupported_stays(benchmarks, supported, k + 1);
    } else {
        assert(benchmarks.take(k) =~= benchmarks);
    }
}

impl BenchmarkKind {
    /// The label of the benchmark, with its parameters.
    pub fn text(&self) -> (r: String)
        ensures
            r@ == kind_text(*self),
    {
        match self {
            Self::Sequential => String::from_str("Sequential"),
            Self::MapReduce { partitions } => {
                let mut r = String::from_str("Map-Reduce with ");
                r.append(decimal(*partitions as u64).as_str());
                r.append(" partitions");
                r
            },
            Self::ForkJoin { threshold } => {
                let mut r = String::from_str("Fork-Join with threshold of ");
                r.append(decimal(*threshold as u64).as_str());
                r
            },
            Self::WorkerPool { workers } => {
                let mut r = String::from_str("Worker Pool with ");
                r.append(decimal(*workers as u64).as_str());
                r.append(" workers");
                r
            },
            Self::Pipeline { buffer_capacity, max_threads } => {
                let mut r = String::from_str("Pipeline with buffer capacity of ");
                r.append(decimal(*buffer_capacity as u64).as_str());
                r.append(" and max ");
                r.append(decimal(*max_threads as u64).as_str());
                r.append(" threads");
                r
            },
            Self::ProducerConsumer { buffer_capacity, consumers, producers } => {
                let mut r = String::from_str("Producer-Consumer with buffer capacity of ");
                r.append(decimal(*buffer_capacity as u64).as_str());
                r.append(", ");
                r.append(decimal(*consumers as u64).as_str());
                r.append(" consumers and ");
                r.append(decimal(*producers as u64).as_str());
                r.append(" producers");
                r
            },
        }
    }
}

impl BenchmarkResult {
    /// The result of `kind` that took `duration`.
    pub fn from_duration(kind: BenchmarkKind, duration: Duration) -> (r: Self)
        ensures
            r.kind == kind,
            r.subsec_nanos < 1_000_000_000,
    {
        let secs = duration_secs(&duration);
        let subsec_nanos = duration_subsec_nanos(&duration);
        BenchmarkResult { kind, secs, subsec_nanos }
    }

    /// The line of the result: `<label>: <seconds> seconds.`.
    pub fn text(&self) -> (r: String)
        requires
            self.subsec_nanos < 1_000_000_000,
        ensures
            r@ == result_text(*self),
    {
        let mut r = self.kind.text();
        r.append(": ");
        r.append(format_seconds(self.secs, self.subsec_nanos).as_str());
        r.append(" seconds.");
        r
    }
}

} // verus!
