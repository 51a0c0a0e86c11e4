pub mod benchmark;
pub mod cli;
pub mod errors;
pub mod task;
pub mod tasks;
