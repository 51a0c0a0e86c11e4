use crate::lab1::errors::Error;
use crate::lab1::task::lifecycle::Manageable;
use crate::lab1::tasks::TaskExecution;
use crate::clock::{elapsed, now};
use std::time::Duration;
use vstd::prelude::*;

verus! {

/// Times the ways of running a task, each between the task's setup and teardown.
pub struct Benchmarker;

impl Benchmarker {
    /// Prepares the task, times its sequential run and cleans up: the run sees the task as setup
    /// left it, and teardown takes it from there. The time is what the clock gives, so nothing is
    /// stated of it; a failed setup or teardown does not stop the run.
    pub fn measure_sequential<T: Manageable + TaskExecution>(task: &mut T) -> (r: Duration)
        ensures
            exists|s: &mut T, u: Result<(), Error>, t: &mut T, v: Result<(), Error>|
                *s == *old(task) && #[trigger] call_ensures(T::setup, (s,), u) && call_ensures(
                    T::run_sequential,
                    (&*final(s),),
                    (),
                ) && *t == *final(s) && #[trigger] call_ensures(T::teardown, (t,), v) && *final(task)
                    == *final(t),
    {
        let _ = task.setup();
        let start = now();
        task.run_sequential();
        let time = elapsed(&start);
        let _ = task.teardown();
        time
    }

    /// Prepares the task, times its run on `num_threads` threads and cleans up.
    pub fn measure_threads<T: Manageable + TaskExecution>(task: &mut T, num_threads: usize) -> (r:
        Duration)
        ensures
            exists|s: &mut T, u: Result<(), Error>, t: &mut T, v: Result<(), Error>|
                *s == *old(task) && #[trigger] call_ensures(T::setup, (s,), u) && call_ensures(
                    T::run_threads,
                    (&*final(s), num_threads),
                    (),
                ) && *t == *final(s) && #[trigger] call_ensures(T::teardown, (t,), v) && *final(task)
                    == *final(t),
    {
        let _ = task.setup();
        let start = now();
        task.run_threads(num_threads);
        let time = elapsed(&start);
        let _ = task.teardown();
        time
    }

    /// Prepares the task, times its run on `num_workers` pooled workers and cleans up.
    pub fn measure_workers<T: Manageable + TaskExecution>(task: &mut T, num_workers: usize) -> (r:
        Duration)
        ensures
            exists|s: &mut T, u: Result<(), Error>, t: &mut T, v: Result<(), Error>|
                *s == *old(task) && #[trigger] call_ensures(T::setup, (s,), u) && call_ensures(
                    T::run_workers,
                    (&*final(s), num_workers),
                    (),
                ) && *t == *final(s) && #[trigger] call_ensures(T::teardown, (t,), v) && *final(task)
                    == *final(t),
    {
        let _ = task.setup();
        let start = now();
        task.run_workers(num_workers);
        let time = elapsed(&start);
        let _ = task.teardown();
        time
    }

    /// Prepares the task, times its run in `num_processes` child processes and cleans up.
    pub fn measure_processes<T: Manageable + TaskExecution>(task: &mut T, num_processes: usize) -> (r:
        Duration)
        ensures
            exists|s: &mut T, u: Result<(), Error>, t: &mut T, v: Result<(), Error>|
                *s == *old(task) && #[trigger] call_ensures(T::setup, (s,), u) && call_ensures(
                    T::run_processes,
                    (&*final(s), num_processes),
                    (),
                ) && *t == *final(s) && #[trigger] call_ensures(T::teardown, (t,), v) && *final(task)
                    == *final(t),
    {
        let _ = task.setup();
        let start = now();
        task.run_processes(num_processes);
        let time = elapsed(&start);
        let _ = task.teardown();
        time
    }
}

} // verus!
