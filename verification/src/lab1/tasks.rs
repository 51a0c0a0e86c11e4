pub mod child_outputs;
pub mod factorization;
pub mod io;
pub mod monte_carlo;
pub mod number_theory;
pub mod primes;
pub mod transpose;

use vstd::prelude::*;

verus! {

/// The four ways a task can be run.
pub trait TaskExecution {
    /// Runs the task sequentially, in the calling thread.
    fn run_sequential(&self);

    /// Runs the task on `threads` threads.
    fn run_threads(&self, threads: usize);

    /// Runs the task on a pool of `workers` work-stealing workers.
    fn run_workers(&self, workers: usize);

    /// Runs the task in `processes` child processes.
    fn run_processes(&self, processes: usize);
}

} // verus!
