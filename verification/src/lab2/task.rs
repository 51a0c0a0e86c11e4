pub mod benchmark;
pub mod executable;
