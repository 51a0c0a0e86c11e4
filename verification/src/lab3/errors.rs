use crate::lab3::task::benchmark::BenchmarkError;
use crate::lab3::tasks::TaskLogicError;
use vstd::prelude::*;

verus! {

/// Any failure of a run of the benchmarks.
#[derive(Debug)]
pub enum Error {
    Benchmark(BenchmarkError),
    System(SystemError),
    TaskLogic(TaskLogicError),
}

/// A failure of the system around a task: buffers, processes, shared memory, sockets, pipes.
#[derive(Debug)]
pub enum SystemError {
    BufferRead(std::io::Error),
    BufferWrite(std::io::Error),
    CurrentExe(std::io::Error),
    ChildProcess(std::io::Error),
    StdIn,
    StdOut,
    SharedMemoryFile(std::io::Error),
    SharedMemoryFileLength(std::io::Error),
    SharedMemoryFileObject(std::io::Error),
    TcpBind(std::io::Error),
    TcpLocalAddr(std::io::Error),
    TcpConnection(std::io::Error),
    Pipe(std::io::Error),
}

} // verus!
