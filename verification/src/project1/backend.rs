pub mod bugs;
pub mod commands;
pub mod crystal;
pub mod engine;
pub mod field;
pub mod simulation;
pub mod snapshot;
