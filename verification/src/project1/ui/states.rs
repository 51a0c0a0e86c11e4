pub mod player;
pub mod settings;
