pub mod clock;
pub mod lab1;
pub mod lab2;
pub mod lab3;
pub mod parallel;
pub mod project1;
pub mod text;
