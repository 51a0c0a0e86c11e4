use crate::lab3::errors::Error;
pub use crate::lab3::task::mode::RunMode;
use crate::lab3::task::benchmark::BenchmarkKind;
use vstd::prelude::*;

verus! {

/// A task that can be run in some of the ways.
pub trait Executable {
    /// The ways the task can be run.
    fn supported_modes(&self) -> Vec<RunMode>;

    /// Runs the task in the way of `kind`.
    fn run(&self, kind: BenchmarkKind) -> Result<(), Error>;
}

} // verus!
