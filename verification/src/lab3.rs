pub mod errors;
pub mod task;
pub mod tasks;
