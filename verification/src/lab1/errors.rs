use vstd::prelude::*;

verus! {

/// `std::io::Error`, carried by the errors of the steps that read and write files.
#[verifier::external_type_specification]
#[verifier::external_body]
pub struct ExIoError(std::io::Error);

/// `rayon::ThreadPoolBuildError`, carried when a worker pool cannot be built.
#[verifier::external_type_specification]
#[verifier::external_body]
pub struct ExThreadPoolBuildError(rayon::ThreadPoolBuildError);

/// Any failure of a run of the benchmarks.
#[derive(Debug)]
pub enum Error {
    Cli(CliError),
    Setup(SetupError),
    Teardown(TeardownError),
    System(SystemError),
    Task(TaskError),
}

/// A command line that names no task or lacks what processes mode needs.
#[derive(Debug, PartialEq, Eq, Structural)]
pub enum CliError {
    InvalidTaskNumber(usize),
    MissingProcessIndex,
    MissingTotalProcesses,
}

/// A failure while preparing the files of a task.
#[derive(Debug)]
pub enum SetupError {
    CreateFolder(std::io::Error),
    FileCreation(std::io::Error),
    FileWrite(std::io::Error),
    TemporaryDirectoryCreate(std::io::Error),
}

/// A failure while removing the files of a task.
#[derive(Debug)]
pub enum TeardownError {
    TemporaryDirectoryDelete(std::io::Error),
}

/// A failure of the system around a task: processes, directories, files, threads.
#[derive(Debug)]
pub enum SystemError {
    CurrentExe(std::io::Error),
    ChildProcess(std::io::Error),
    DirectoryRead(std::io::Error),
    DirectoryExpected(String),
    DirectoryEntry(std::io::Error),
    FailedParsingChildOutput(String),
    FileOpen(std::io::Error),
    FileRead(std::io::Error),
    RayonPoolBuild(rayon::ThreadPoolBuildError),
    ThreadPanicked,
    WaitingForChildProcess(std::io::Error),
}

/// An index outside the data that a task reads.
#[derive(Debug, PartialEq, Eq, Structural)]
pub enum TaskError {
    IndexingOutOfBounds(usize),
    ChunkOutOfBounds(usize, usize),
}

} // verus!
