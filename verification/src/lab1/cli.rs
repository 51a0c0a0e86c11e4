use crate::lab1::errors::CliError;
use crate::text::{decimal, decimal_spec};
use vstd::prelude::*;

verus! {

/// The command line: the number of the task and, for a child process, its place among the
/// processes.
#[derive(Debug, Clone, Copy, PartialEq, Eq, Structural)]
pub struct InputArgs {
    pub task: u8,
    pub processes_mode: bool,
    pub process_index: Option<usize>,
    pub total_processes: Option<usize>,
}

/// What a run of the program does.
#[derive(Debug, Clone, Copy, PartialEq, Eq, Structural)]
pub enum RunPlan {
    /// Benchmark the task at this position of the task list and print its report.
    Report { task: usize },
    /// As a child process, run the chunk `process_index` of `total_processes` of the task at this
    /// position.
    ProcessChunk { task: usize, process_index: usize, total_processes: usize },
}

/// What a command line asks for, when `tasks` tasks are known: the task number must be in
/// `1..=tasks`; a child process needs its index and the number of processes.
pub open spec fn run_plan_spec(args: InputArgs, tasks: usize) -> Result<RunPlan, CliError> {
    if !(1 <= args.task <= tasks) {
        Err(CliError::InvalidTaskNumber(args.task as usize))
    } else if args.processes_mode {
        match (args.process_index, args.total_processes) {
            (None, _) => Err(CliError::MissingProcessIndex),
            (Some(_), None) => Err(CliError::MissingTotalProcesses),
            (Some(p), Some(t)) => Ok(
                RunPlan::ProcessChunk {
                    task: (args.task - 1) as usize,
                    process_index: p,
                    total_processes: t,
                },
            ),
        }
    } else {
        Ok(RunPlan::Report { task: (args.task - 1) as usize })
    }
}

impl InputArgs {
    /// Checks the command line against the `tasks` known tasks and says what to run.
    pub fn run_plan(&self, tasks: usize) -> (r: Result<RunPlan, CliError>)
        ensures
            r == run_plan_spec(*self, tasks),
    {
        let task = self.task as usize;
        if !(1 <= task && task <= tasks) {
            return Err(CliError::InvalidTaskNumber(task));
        }
        if self.processes_mode {
            let process_index = match self.process_index {
                Some(p) => p,
                None => {
                    return Err(CliError::MissingProcessIndex);
                },
            };
            let total_processes = match self.total_processes {
                Some(t) => t,
                None => {
                    return Err(CliError::MissingTotalProcesses);
                },
            };
            return Ok(RunPlan::ProcessChunk { task: task - 1, process_index, total_processes });
        }
        Ok(RunPlan::Report { task: task - 1 })
    }
}

/// The arguments that start the child process `process_index` of `total_processes` for the
/// task numbered `task`: `--task <task> --processes-mode --process-index <process_index>
/// --total-processes <total_processes>`.
pub open spec fn child_args_spec(task: u8, process_index: usize, total_processes: usize) -> Seq<
    Seq<char>,
> {
    seq![
        "--task"@,
        decimal_spec(task as nat),
        "--processes-mode"@,
        "--process-index"@,
        decimal_spec(process_index as nat),
        "--total-processes"@,
        decimal_spec(total_processes as nat),
    ]
}

/// The arguments that start a child process on one chunk of a task (see `child_args_spec`).
pub fn child_args(task: u8, process_index: usize, total_processes: usize) -> (r: Vec<String>)
    ensures
        r@.map_values(|s: String| s@) == child_args_spec(task, process_index, total_processes),
{
    let r = vec![
        String::from_str("--task"),
        decimal(task as u64),
        String::from_str("--processes-mode"),
        String::from_str("--process-index"),
        decimal(process_index as u64),
        String::from_str("--total-processes"),
        decimal(total_processes as u64),
    ];
    assert(r@.map_values(|s: String| s@) =~= child_args_spec(task, process_index, total_processes));
    r
}

} // verus!
