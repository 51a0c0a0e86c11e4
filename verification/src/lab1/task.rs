pub mod benchmark;
pub mod report;
pub mod lifecycle;
