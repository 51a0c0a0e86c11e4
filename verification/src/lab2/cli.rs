use vstd::prelude::*;

verus! {

/// The command line: the number of the task to run, from one.
#[derive(Debug, Clone, Copy, PartialEq, Eq, Structural)]
pub struct InputArgs {
    pub task: usize,
}

/// A task number that names no task.
#[derive(Debug, Clone, Copy, PartialEq, Eq, Structural)]
pub enum CliError {
    UnknownTask(usize),
}

impl InputArgs {
    /// The position in a list of `tasks` tasks of the task that the command line names: its
    /// number less one, when the number is in `1..=tasks`.
    pub fn task_position(&self, tasks: usize) -> (r: Result<usize, CliError>)
        ensures
            r is Ok <==> 1 <= self.task <= tasks,
            r matches Ok(i) ==> i == self.task - 1,
            r matches Err(e) ==> e == CliError::UnknownTask(self.task),
    {
        if 1 <= self.task && self.task <= tasks {
            Ok(self.task - 1)
        } else {
            Err(CliError::UnknownTask(self.task))
        }
    }
}

} // verus!
