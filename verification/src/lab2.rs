pub mod cli;
pub mod task;
pub mod tasks;
