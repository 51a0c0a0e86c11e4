use crate::clock::{duration_secs, duration_subsec_nanos};
use crate::lab3::errors::Error;
use crate::lab3::task::executable::RunMode;
use crate::lab3::task::measure::Measurable;
use crate::text::{format_seconds, seconds_text};
use std::time::Duration;
use vstd::prelude::*;

verus! {

/// A way to run a task.
#[derive(Debug, Clone, Copy, PartialEq, Eq, Structural)]
pub enum BenchmarkKind {
    RaceCondition,
    Deadlock,
    MutexFixed,
    IpcPipes,
    IpcSharedMemory,
    IpcTcp,
}

/// The time a way of running a task took.
#[derive(Debug, Clone, Copy, PartialEq, Eq, Structural)]
pub struct BenchmarkResult {
    pub kind: BenchmarkKind,
    pub secs: u64,
    pub subsec_nanos: u32,
}

/// A task asked to run in a way it does not support.
#[derive(Debug, Clone, Copy, PartialEq, Eq, Structural)]
pub enum BenchmarkError {
    MethodIsNotSupported(RunMode),
}

/// The label of a way to run a task.
pub open spec fn kind_text(kind: BenchmarkKind) -> Seq<char> {
    match kind {
        BenchmarkKind::RaceCondition => "Race Condition"@,
        BenchmarkKind::Deadlock => "Deadlock"@,
        BenchmarkKind::MutexFixed => "Mutex (Fixed)"@,
        BenchmarkKind::IpcPipes => "IPC: Named Pipes"@,
        BenchmarkKind::IpcSharedMemory => "IPC: Shared Memory"@,
        BenchmarkKind::IpcTcp => "IPC: TCP Sockets"@,
    }
}

/// The line of a result: `<label>: <seconds> seconds.`.
pub open spec fn result_text(result: BenchmarkResult) -> Seq<char> {
    kind_text(result.kind) + ": "@ + seconds_text(result.secs, result.subsec_nanos) + " seconds."@
}

/// The way to run a task that a benchmark uses.
pub open spec fn run_mode_of(kind: BenchmarkKind) -> RunMode {
    match kind {
        BenchmarkKind::RaceCondition => RunMode::RaceCondition,
        BenchmarkKind::Deadlock => RunMode::Deadlock,
        BenchmarkKind::MutexFixed => RunMode::MutexFixed,
        BenchmarkKind::IpcPipes => RunMode::IpcPipes,
        BenchmarkKind::IpcSharedMemory => RunMode::IpcSharedMemory,
        BenchmarkKind::IpcTcp => RunMode::IpcTcp,
    }
}

/// The mode of the first benchmark whose mode is not among `supported`, if any.
pub open spec fn first_unsupported(benchmarks: Seq<BenchmarkKind>, supported: Seq<RunMode>) -> Option<
    RunMode,
>
    decreases benchmarks.len(),
{
    if benchmarks.len() == 0 {
        None
    } else {
        match first_unsupported(benchmarks.drop_last(), supported) {
            Some(mode) => Some(mode),
            None => if supported.contains(run_mode_of(benchmarks.last())) {
                None
            } else {
                Some(run_mode_of(benchmarks.last()))
            },
        }
    }
}

/// Whether `mode` is among `modes`.
fn contains_mode(modes: &[RunMode], mode: RunMode) -> (r: bool)
    ensures
        r == modes@.contains(mode),
{
    let mut i: usize = 0;
    while i < modes.len()
        invariant
            i <= modes@.len(),
            forall|j: int| 0 <= j < i ==> modes@[j] != mode,
        decreases modes@.len() - i,
    {
        if modes[i] == mode {
            return true;
        }
        i = i + 1;
    }
    false
}

/// Once a benchmark of the first `k` is unsupported, the first unsupported mode stays.
proof fn lemma_first_unsupported_stays(benchmarks: Seq<BenchmarkKind>, supported: Seq<RunMode>, k: int)
    requires
        0 <= k <= benchmarks.len(),
        first_unsupported(benchmarks.take(k), supported) is Some,
    ensures
        first_unsupported(benchmarks, supported) == first_unsupported(benchmarks.take(k), supported),
    decreases benchmarks.len() - k,
{
    if k < benchmarks.len() {
        assert(benchmarks.take(k + 1).drop_last() =~= benchmarks.take(k));
        lemma_first_unsupported_stays(benchmarks, supported, k + 1);
    } else {
        assert(benchmarks.take(k) =~= benchmarks);
    }
}

/// Checks that every benchmark runs in one of the `supported` modes; the mode of the first that
/// does not is the error.
pub fn check_supported(benchmarks: &[BenchmarkKind], supported: &[RunMode]) -> (r: Result<
    (),
    BenchmarkError,
>)
    ensures
        r is Ok <==> first_unsupported(benchmarks@, supported@) is None,
        r matches Err(BenchmarkError::MethodIsNotSupported(mode)) ==> first_unsupported(
            benchmarks@,
            supported@,
        ) == Some(mode),
{
    let mut i: usize = 0;
    while i < benchmarks.len()
        invariant
            i <= benchmarks@.len(),
            first_unsupported(benchmarks@.take(i as int), supported@) is None,
        decreases benchmarks@.len() - i,
    {
        assert(benchmarks@.take(i + 1).drop_last() =~= benchmarks@.take(i as int));
        let mode = benchmarks[i].run_mode();
        if !contains_mode(supported, mode) {
            proof {
                lemma_first_unsupported_stays(benchmarks@, supported@, i as int + 1);
            }
            return Err(BenchmarkError::MethodIsNotSupported(mode));
        }
        i = i + 1;
    }
    assert(benchmarks@.take(benchmarks@.len() as int) =~= benchmarks@);
    Ok(())
}

impl BenchmarkKind {
    /// The way to run a task that the benchmark uses.
    pub fn run_mode(&self) -> (r: RunMode)
        ensures
            r == run_mode_of(*self),
    {
        match self {
            Self::RaceCondition => RunMode::RaceCondition,
            Self::Deadlock => RunMode::Deadlock,
            Self::MutexFixed => RunMode::MutexFixed,
            Self::IpcPipes => RunMode::IpcPipes,
            Self::IpcSharedMemory => RunMode::IpcSharedMemory,
            Self::IpcTcp => RunMode::IpcTcp,
        }
    }

    /// The label of the benchmark.
    pub fn text(&self) -> (r: &'static str)
        ensures
            r@ == kind_text(*self),
    {
        match self {
            Self::RaceCondition => "Race Condition",
            Self::Deadlock => "Deadlock",
            Self::MutexFixed => "Mutex (Fixed)",
            Self::IpcPipes => "IPC: Named Pipes",
            Self::IpcSharedMemory => "IPC: Shared Memory",
            Self::IpcTcp => "IPC: TCP Sockets",
        }
    }
}

impl BenchmarkResult {
    /// The result of `kind` that took `duration`.
    pub fn from_duration(kind: BenchmarkKind, duration: Duration) -> (r: Self)
        ensures
            r.kind == kind,
            r.subsec_nanos < 1_000_000_000,
    {
        let secs = duration_secs(&duration);
        let subsec_nanos = duration_subsec_nanos(&duration);
        BenchmarkResult { kind, secs, subsec_nanos }
    }

    /// The line of the result: `<label>: <seconds> seconds.`.
    pub fn text(&self) -> (r: String)
        requires
            self.subsec_nanos < 1_000_000_000,
        ensures
            r@ == result_text(*self),
    {
        let mut r = String::from_str(self.kind.text());
        r.append(": ");
        r.append(format_seconds(self.secs, self.subsec_nanos).as_str());
        r.append(" seconds.");
        r
    }
}

/// Results of `kinds`, one for each, in order, each below a second past its whole seconds.
pub open spec fn results_of(results: Seq<BenchmarkResult>, kinds: Seq<BenchmarkKind>) -> bool {
    &&& results.len() == kinds.len()
    &&& forall|i: int| 0 <= i < results.len() ==> (#[trigger] results[i]).kind == kinds[i]
    &&& forall|i: int| 0 <= i < results.len() ==> (#[trigger] results[i]).subsec_nanos < 1_000_000_000
}

/// Every result is below a second past its whole seconds.
pub open spec fn valid_results(results: Seq<BenchmarkResult>) -> bool {
    forall|i: int| 0 <= i < results.len() ==> (#[trigger] results[i]).subsec_nanos < 1_000_000_000
}

/// What running the benchmarks `kinds` on a task that supports `modes` may give: the first
/// unsupported mode as the error when there is one; otherwise, on success, one result for each
/// benchmark, in order.
pub open spec fn run_outcome(
    kinds: Seq<BenchmarkKind>,
    modes: Seq<RunMode>,
    r: Result<Vec<BenchmarkResult>, Error>,
) -> bool {
    &&& first_unsupported(kinds, modes) matches Some(mode) ==> r == Err::<
        Vec<BenchmarkResult>,
        Error,
    >(Error::Benchmark(BenchmarkError::MethodIsNotSupported(mode)))
    &&& r matches Ok(results) ==> first_unsupported(kinds, modes) is None && results_of(
        results@,
        kinds,
    )
}

/// A task with a list of benchmarks.
pub trait Benchmarkable: Measurable + Sized {
    /// The ways the task is benchmarked, in order.
    fn benchmarks(&self) -> Vec<BenchmarkKind>;

    /// Checks that the task supports every benchmark, then times each in order: what
    /// `run_benchmark_list` does with the task's own lists of benchmarks and modes (so all that
    /// its contract states holds of the result: the measurements in list order, the first
    /// failure stopping the run).
    fn run_benchmarks(&mut self) -> (r: Result<Vec<BenchmarkResult>, Error>)
        ensures
            r matches Ok(results) ==> valid_results(results@),
        default_ensures
            exists|kinds: Vec<BenchmarkKind>, modes: Vec<RunMode>|
                #[trigger] call_ensures(Self::benchmarks, (&*old(self),), kinds)
                    && #[trigger] call_ensures(Self::supported_modes, (&*old(self),), modes)
                    && (exists|a: &mut Self|
                    *a == *old(self) && *final(a) == *final(self) && #[trigger] call_ensures(
                        run_benchmark_list::<Self>,
                        (a, &kinds, &modes),
                        r,
                    )) && run_outcome(kinds@, modes@, r) && (first_unsupported(kinds@, modes@) is Some
                    ==> *final(self) == *old(self)) && (r matches Err(e) ==> first_unsupported(
                    kinds@,
                    modes@,
                ) is Some || exists|a: &mut Self, k: BenchmarkKind|
                    kinds@.contains(k) && #[trigger] call_ensures(
                        Self::measure,
                        (a, k),
                        Err::<Duration, Error>(e),
                    )),
    {
        let kinds = self.benchmarks();
        let modes = self.supported_modes();
        run_benchmark_list(self, &kinds, &modes)
    }
}

/// Position `j` of a run of `n` measurements.
pub open spec fn in_run(j: int, n: int) -> bool {
    0 <= j < n
}

/// Checks that every benchmark of `kinds` runs in one of `modes`, then times each on `task`, in
/// order. An unsupported benchmark is reported before any is run, and the task is then left as
/// it was; a failed measurement stops the
/// run with its error, and otherwise there is one result for each benchmark.
pub fn run_benchmark_list<T: Measurable>(
    task: &mut T,
    kinds: &Vec<BenchmarkKind>,
    modes: &Vec<RunMode>,
) -> (r: Result<Vec<BenchmarkResult>, Error>)
    ensures
        run_outcome(kinds@, modes@, r),
        first_unsupported(kinds@, modes@) is Some ==> *final(task) == *old(task),
        r matches Err(e) ==> first_unsupported(kinds@, modes@) is Some || exists|
            a: &mut T,
            k: BenchmarkKind,
        | kinds@.contains(k) && #[trigger] call_ensures(T::measure, (a, k), Err::<Duration, Error>(e)),
        r is Ok ==> exists|states: Seq<T>|
            #![trigger states.len()]
            states.len() == kinds@.len() + 1 && states[0] == *old(task) && states.last() == *final(task)
                && (forall|j: int|
                #![trigger in_run(j, kinds@.len() as int)]
                in_run(j, kinds@.len() as int) ==> exists|a: &mut T, d: Duration|
                    *a == states[j] && *final(a) == states[j + 1] && #[trigger] call_ensures(
                        T::measure,
                        (a, kinds@[j]),
                        Ok::<Duration, Error>(d),
                    )),
        first_unsupported(kinds@, modes@) is None ==> (r matches Err(e) ==> exists|
            states: Seq<T>,
            k: int,
            c: &mut T,
        |
            #![trigger states.len(), call_ensures(T::measure, (c, kinds@[k]), Err::<Duration, Error>(e))]
            0 <= k < kinds@.len() && states.len() == k + 1 && states[0] == *old(task)
                && (forall|j: int|
                #![trigger in_run(j, k)]
                in_run(j, k) ==> exists|a: &mut T, d: Duration|
                    *a == states[j] && *final(a) == states[j + 1] && #[trigger] call_ensures(
                        T::measure,
                        (a, kinds@[j]),
                        Ok::<Duration, Error>(d),
                    )) && *c == states[k] && *final(c) == *final(task)
                && call_ensures(T::measure, (c, kinds@[k]), Err::<Duration, Error>(e))),
{
    match check_supported(kinds.as_slice(), modes.as_slice()) {
        Ok(()) => {},
        Err(e) => {
            return Err(Error::Benchmark(e));
        },
    }
    let mut results: Vec<BenchmarkResult> = Vec::new();
    let mut i: usize = 0;
    let ghost mut states: Seq<T> = seq![*task];
    while i < kinds.len()
        invariant
            i <= kinds@.len(),
            first_unsupported(kinds@, modes@) is None,
            results_of(results@, kinds@.take(i as int)),
            states.len() == i + 1,
            states[0] == *old(task),
            states[i as int] == *task,
            (forall|j: int|
                #![trigger in_run(j, i as int)]
                in_run(j, i as int) ==> exists|a: &mut T, d: Duration|
                    *a == states[j] && *final(a) == states[j + 1] && #[trigger] call_ensures(
                        T::measure,
                        (a, kinds@[j]),
                        Ok::<Duration, Error>(d),
                    )),
        decreases kinds@.len() - i,
    {
        let kind = kinds[i];
        let duration = match task.measure(kind) {
            Ok(d) => d,
            Err(e) => {
                proof {
                    assert(exists|c: &mut T|
                        *c == states[i as int] && *final(c) == *task && #[trigger] call_ensures(
                            T::measure,
                            (c, kinds@[i as int]),
                            Err::<Duration, Error>(e),
                        ));
                }
                return Err(e);
            },
        };
        proof {
            let before = states;
            states = before.push(*task);
            let next: int = i + 1;
            assert forall|j: int| #[trigger] in_run(j, next) implies exists|a: &mut T, d: Duration|
                *a == states[j] && *final(a) == states[j + 1] && #[trigger] call_ensures(
                    T::measure,
                    (a, kinds@[j]),
                    Ok::<Duration, Error>(d),
                ) by {
                if j < i {
                    assert(in_run(j, i as int));
                    assert(before[j] == states[j] && before[j + 1] == states[j + 1]);
                } else {
                    assert(states[j] == before[i as int] && states[j + 1] == *task);
                    assert(kinds@[j] == kind);
                    assert(exists|a: &mut T, d: Duration|
                        *a == before[i as int] && *final(a) == *task && #[trigger] call_ensures(
                            T::measure,
                            (a, kind),
                            Ok::<Duration, Error>(d),
                        ));
                }
            }
        }
        results.push(BenchmarkResult::from_duration(kind, duration));
        i = i + 1;
    }
    assert(kinds@.take(kinds@.len() as int) =~= kinds@);
    assert(states.last() == *task);
    Ok(results)
}

} // verus!
