pub mod backend;
pub mod graphics;
pub mod ui;
