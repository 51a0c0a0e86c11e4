use vstd::prelude::*;

verus! {

/// The parallel patterns a task can be run with.
#[derive(Debug, Clone, Copy, PartialEq, Eq, Structural)]
pub enum ParallelismMethod {
    MapReduce,
    ForkJoin,
    WorkerPool,
    Pipeline,
    ProducerConsumer,
}

/// The ways a task can be run: sequentially or with one of the parallel patterns.
#[derive(Debug, Clone, Copy, PartialEq, Eq, Structural)]
pub enum RunMode {
    Sequential,
    MapReduce,
    ForkJoin,
    WorkerPool,
    Pipeline,
    ProducerConsumer,
}

/// The name of a parallel pattern.
pub open spec fn method_text(method: ParallelismMethod) -> Seq<char> {
    match method {
        ParallelismMethod::MapReduce => "Map-Reduce"@,
        ParallelismMethod::ForkJoin => "Fork-Join"@,
        ParallelismMethod::WorkerPool => "Worker Pool"@,
        ParallelismMethod::Pipeline => "Pipeline"@,
        ParallelismMethod::ProducerConsumer => "Producer-Consumer"@,
    }
}

/// The name of a way to run a task.
pub open spec fn mode_text(mode: RunMode) -> Seq<char> {
    match mode {
        RunMode::Sequential => "Sequential"@,
        RunMode::MapReduce => "Map-Reduce"@,
        RunMode::ForkJoin => "Fork-Join"@,
        RunMode::WorkerPool => "Worker Pool"@,
        RunMode::Pipeline => "Pipeline"@,
        RunMode::ProducerConsumer => "Producer-Consumer"@,
    }
}

impl ParallelismMethod {
    /// The name of the pattern.
    pub fn text(&self) -> (r: &'static str)
        ensures
            r@ == method_text(*self),
    {
        match self {
            Self::MapReduce => "Map-Reduce",
            Self::ForkJoin => "Fork-Join",
            Self::WorkerPool => "Worker Pool",
            Self::Pipeline => "Pipeline",
            Self::ProducerConsumer => "Producer-Consumer",
        }
    }
}

impl RunMode {
    /// The name of the way to run a task.
    pub fn text(&self) -> (r: &'static str)
        ensures
            r@ == mode_text(*self),
    {
        match self {
            Self::Sequential => "Sequential",
            Self::MapReduce => "Map-Reduce",
            Self::ForkJoin => "Fork-Join",
            Self::WorkerPool => "Worker Pool",
            Self::Pipeline => "Pipeline",
            Self::ProducerConsumer => "Producer-Consumer",
        }
    }
}

} // verus!
