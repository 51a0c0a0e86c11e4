pub mod benchmark;
pub mod executable;
pub mod lifecycle;
pub mod measure;
pub mod mode;
pub mod report;
