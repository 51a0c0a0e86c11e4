use crate::clock::{duration_secs, duration_subsec_nanos};
use crate::lab1::benchmark::Benchmarker;
use crate::lab1::task::lifecycle::Manageable;
use crate::lab1::tasks::TaskExecution;
use crate::text::{decimal, decimal_spec, format_seconds, seconds_text};
use std::time::Duration;
use vstd::prelude::*;

verus! {

/// The ways a task is run.
#[derive(Debug, Clone, Copy, PartialEq, Eq, Structural)]
pub enum BenchmarkKind {
    Sequential,
    Threads,
    Workers,
    Processes,
}

/// A way of running a task, with the number of threads, workers or processes.
#[derive(Debug, Clone, Copy, PartialEq, Eq, Structural)]
pub enum BenchmarkMetadata {
    Sequential,
    Threads(usize),
    Workers(usize),
    Processes(usize),
}

/// The time one way of running a task took.
#[derive(Debug, Clone, Copy, PartialEq, Eq, Structural)]
pub struct BenchmarkResult {
    pub metadata: BenchmarkMetadata,
    pub secs: u64,
    pub subsec_nanos: u32,
}

/// The label of a kind.
pub open spec fn kind_text(kind: BenchmarkKind) -> Seq<char> {
    match kind {
        BenchmarkKind::Sequential => "Sequential"@,
        BenchmarkKind::Threads => "Multi-thread"@,
        BenchmarkKind::Workers => "Worker pool"@,
        BenchmarkKind::Processes => "Multi-process"@,
    }
}

/// The kind of a way of running a task.
pub open spec fn kind_of(metadata: BenchmarkMetadata) -> BenchmarkKind {
    match metadata {
        BenchmarkMetadata::Sequential => BenchmarkKind::Sequential,
        BenchmarkMetadata::Threads(_) => BenchmarkKind::Threads,
        BenchmarkMetadata::Workers(_) => BenchmarkKind::Workers,
        BenchmarkMetadata::Processes(_) => BenchmarkKind::Processes,
    }
}

/// The label of a way of running a task: `Sequential`, or the number and the units.
pub open spec fn metadata_text(metadata: BenchmarkMetadata) -> Seq<char> {
    match metadata {
        BenchmarkMetadata::Sequential => "Sequential"@,
        BenchmarkMetadata::Threads(n) => decimal_spec(n as nat) + " threads"@,
        BenchmarkMetadata::Workers(n) => decimal_spec(n as nat) + " workers"@,
        BenchmarkMetadata::Processes(n) => decimal_spec(n as nat) + " processes"@,
    }
}

/// The line of a result: `<label>: <seconds> seconds`.
pub open spec fn result_text(result: BenchmarkResult) -> Seq<char> {
    metadata_text(result.metadata) + ": "@ + seconds_text(result.secs, result.subsec_nanos)
        + " seconds"@
}

/// The results of the given kind, in their order.
pub open spec fn results_of_kind(results: Seq<BenchmarkResult>, kind: BenchmarkKind) -> Seq<
    BenchmarkResult,
>
    decreases results.len(),
{
    if results.len() == 0 {
        Seq::empty()
    } else {
        let rest = results_of_kind(results.drop_last(), kind);
        if kind_of(results.last().metadata) == kind {
            rest.push(results.last())
        } else {
            rest
        }
    }
}

impl BenchmarkKind {
    /// The label of the kind.
    pub fn text(&self) -> (r: &'static str)
        ensures
            r@ == kind_text(*self),
    {
        match self {
            BenchmarkKind::Sequential => "Sequential",
            BenchmarkKind::Threads => "Multi-thread",
            BenchmarkKind::Workers => "Worker pool",
            BenchmarkKind::Processes => "Multi-process",
        }
    }
}

impl BenchmarkMetadata {
    /// The kind of this way of running a task.
    pub fn kind(&self) -> (r: BenchmarkKind)
        ensures
            r == kind_of(*self),
    {
        match self {
            Self::Sequential => BenchmarkKind::Sequential,
            Self::Threads(_) => BenchmarkKind::Threads,
            Self::Workers(_) => BenchmarkKind::Workers,
            Self::Processes(_) => BenchmarkKind::Processes,
        }
    }

    /// The label of this way of running a task.
    pub fn text(&self) -> (r: String)
        ensures
            r@ == metadata_text(*self),
    {
        match self {
            Self::Sequential => String::from_str("Sequential"),
            Self::Threads(units) => {
                let mut r = decimal(*units as u64);
                r.append(" threads");
                r
            },
            Self::Workers(units) => {
                let mut r = decimal(*units as u64);
                r.append(" workers");
                r
            },
            Self::Processes(units) => {
                let mut r = decimal(*units as u64);
                r.append(" processes");
                r
            },
        }
    }
}

impl BenchmarkResult {
    /// A result for `metadata` that took `secs` seconds and `subsec_nanos` nanoseconds.
    pub fn new(metadata: BenchmarkMetadata, secs: u64, subsec_nanos: u32) -> (r: Self)
        ensures
            r == (BenchmarkResult { metadata, secs, subsec_nanos }),
    {
        BenchmarkResult { metadata, secs, subsec_nanos }
    }

    /// The results of the given kind, in their order.
    pub fn filter_by_kind(benchmarks: &[Self], kind: &BenchmarkKind) -> (r: Vec<Self>)
        ensures
            r@ == results_of_kind(benchmarks@, *kind),
    {
        let mut r: Vec<Self> = Vec::new();
        let mut i: usize = 0;
        while i < benchmarks.len()
            invariant
                i <= benchmarks@.len(),
                r@ == results_of_kind(benchmarks@.take(i as int), *kind),
            decreases benchmarks@.len() - i,
        {
            assert(benchmarks@.take(i + 1).drop_last() =~= benchmarks@.take(i as int));
            let result = benchmarks[i];
            if result.metadata.kind() == *kind {
                r.push(result);
            }
            i = i + 1;
        }
        assert(benchmarks@.take(benchmarks@.len() as int) =~= benchmarks@);
        r
    }

    /// The line of the result: `<label>: <seconds> seconds`.
    pub fn text(&self) -> (r: String)
        requires
            self.subsec_nanos < 1_000_000_000,
        ensures
            r@ == result_text(*self),
    {
        let mut r = self.metadata.text();
        r.append(": ");
        let seconds = format_seconds(self.secs, self.subsec_nanos);
        r.append(seconds.as_str());
        r.append(" seconds");
        r
    }
}

impl BenchmarkResult {
    /// The result of `metadata` that took `duration`.
    pub fn from_duration(metadata: BenchmarkMetadata, duration: Duration) -> (r: Self)
        ensures
            r.metadata == metadata,
            r.subsec_nanos < 1_000_000_000,
    {
        let secs = duration_secs(&duration);
        let subsec_nanos = duration_subsec_nanos(&duration);
        BenchmarkResult { metadata, secs, subsec_nanos }
    }
}

/// The ways every task is run, in order: sequentially, then on 2, 4 and 8 threads, workers and
/// processes.
pub open spec fn benchmark_plan() -> Seq<BenchmarkMetadata> {
    seq![
        BenchmarkMetadata::Sequential,
        BenchmarkMetadata::Threads(2),
        BenchmarkMetadata::Threads(4),
        BenchmarkMetadata::Threads(8),
        BenchmarkMetadata::Workers(2),
        BenchmarkMetadata::Workers(4),
        BenchmarkMetadata::Workers(8),
        BenchmarkMetadata::Processes(2),
        BenchmarkMetadata::Processes(4),
        BenchmarkMetadata::Processes(8),
    ]
}

/// The ways every task is run, in order.
pub fn benchmarks() -> (r: Vec<BenchmarkMetadata>)
    ensures
        r@ == benchmark_plan(),
{
    let r = vec![
        BenchmarkMetadata::Sequential,
        BenchmarkMetadata::Threads(2),
        BenchmarkMetadata::Threads(4),
        BenchmarkMetadata::Threads(8),
        BenchmarkMetadata::Workers(2),
        BenchmarkMetadata::Workers(4),
        BenchmarkMetadata::Workers(8),
        BenchmarkMetadata::Processes(2),
        BenchmarkMetadata::Processes(4),
        BenchmarkMetadata::Processes(8),
    ];
    assert(r@ =~= benchmark_plan());
    r
}

/// Results that follow `plan`: one for each way, in its order, each below a second past its
/// whole seconds.
pub open spec fn follows_plan(results: Seq<BenchmarkResult>, plan: Seq<BenchmarkMetadata>) -> bool {
    &&& results.len() == plan.len()
    &&& forall|i: int| 0 <= i < results.len() ==> (#[trigger] results[i]).metadata == plan[i]
    &&& forall|i: int| 0 <= i < results.len() ==> (#[trigger] results[i]).subsec_nanos < 1_000_000_000
}

/// A task that can be timed in each of the ways of the plan.
pub trait Benchmarkable: Manageable + TaskExecution + Sized {
    /// The ways the task is run, in order.
    fn benchmark_tasks(&self) -> (r: Vec<BenchmarkMetadata>)
        ensures
            r@ == benchmark_plan(),
    {
        benchmarks()
    }

    /// Times the task in each way of `benchmark_tasks`, in order.
    fn benchmark(&mut self) -> (r: Vec<BenchmarkResult>)
        ensures
            follows_plan(r@, benchmark_plan()),
    {
        let plan = self.benchmark_tasks();
        let mut results: Vec<BenchmarkResult> = Vec::new();
        let mut i: usize = 0;
        while i < plan.len()
            invariant
                i <= plan@.len(),
                plan@ == benchmark_plan(),
                follows_plan(results@, plan@.take(i as int)),
            decreases plan@.len() - i,
        {
            let metadata = plan[i];
            let duration = match metadata {
                BenchmarkMetadata::Sequential => Benchmarker::measure_sequential(self),
                BenchmarkMetadata::Threads(units) => Benchmarker::measure_threads(self, units),
                BenchmarkMetadata::Workers(units) => Benchmarker::measure_workers(self, units),
                BenchmarkMetadata::Processes(units) => Benchmarker::measure_processes(self, units),
            };
            results.push(BenchmarkResult::from_duration(metadata, duration));
            i = i + 1;
        }
        assert(plan@.take(plan@.len() as int) =~= plan@);
        results
    }
}

} // verus!
