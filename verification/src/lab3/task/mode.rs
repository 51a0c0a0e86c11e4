use crate::lab3::task::benchmark::{run_mode_of, BenchmarkKind};
use vstd::prelude::*;

verus! {

/// The ways a task can be run: the three ways of the bank transfers and the three channels of
/// inter-process communication.
#[derive(Debug, Clone, Copy, PartialEq, Eq, Structural)]
pub enum RunMode {
    RaceCondition,
    Deadlock,
    MutexFixed,
    IpcPipes,
    IpcSharedMemory,
    IpcTcp,
}

/// The name of a way to run a task.
pub open spec fn mode_text(mode: RunMode) -> Seq<char> {
    match mode {
        RunMode::RaceCondition => "Race Condition (Lost Updates)"@,
        RunMode::Deadlock => "Deadlock (Circular Wait)"@,
        RunMode::MutexFixed => "Fixed (Ordered Mutexes)"@,
        RunMode::IpcPipes => "IPC: Named Pipes"@,
        RunMode::IpcSharedMemory => "IPC: Shared Memory"@,
        RunMode::IpcTcp => "IPC: TCP Sockets"@,
    }
}

impl RunMode {
    /// The name of the way to run a task.
    pub fn text(&self) -> (r: &'static str)
        ensures
            r@ == mode_text(*self),
    {
        match self {
            Self::RaceCondition => "Race Condition (Lost Updates)",
            Self::Deadlock => "Deadlock (Circular Wait)",
            Self::MutexFixed => "Fixed (Ordered Mutexes)",
            Self::IpcPipes => "IPC: Named Pipes",
            Self::IpcSharedMemory => "IPC: Shared Memory",
            Self::IpcTcp => "IPC: TCP Sockets",
        }
    }
}

impl<'a> From<&'a BenchmarkKind> for RunMode {
    fn from(kind: &'a BenchmarkKind) -> (r: Self) {
        match kind {
            BenchmarkKind::RaceCondition => RunMode::RaceCondition,
            BenchmarkKind::Deadlock => RunMode::Deadlock,
            BenchmarkKind::MutexFixed => RunMode::MutexFixed,
            BenchmarkKind::IpcPipes => RunMode::IpcPipes,
            BenchmarkKind::IpcSharedMemory => RunMode::IpcSharedMemory,
            BenchmarkKind::IpcTcp => RunMode::IpcTcp,
        }
    }
}

impl<'a> vstd::std_specs::convert::FromSpecImpl<&'a BenchmarkKind> for RunMode {
    open spec fn obeys_from_spec() -> bool {
        true
    }

    open spec fn from_spec(kind: &'a BenchmarkKind) -> Self {
        run_mode_of(*kind)
    }
}

} // verus!
