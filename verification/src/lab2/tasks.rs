pub mod generated;
pub mod html;
pub mod tag_counts;
pub mod video;

use vstd::prelude::*;

verus! {

/// A failure of a task's own logic.
#[derive(Debug, Clone, Copy, PartialEq, Eq, Structural)]
pub enum TaskLogicError {
    IndexOutOfBounds(usize),
}

} // verus!
