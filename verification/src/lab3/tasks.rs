pub mod bank;

use vstd::prelude::*;

verus! {

/// `core::array::TryFromSliceError`, carried when bytes read back do not form a number.
#[verifier::external_type_specification]
#[verifier::external_body]
pub struct ExTryFromSliceError(core::array::TryFromSliceError);

/// A failure of a task's own logic.
#[derive(Debug)]
pub enum TaskLogicError {
    JoinThreadFailed,
    MutexPoisoned,
    ChildProcessStatus(String),
    ChildAnswer(std::io::Error),
    FloatFromMemory(core::array::TryFromSliceError),
}

} // verus!
