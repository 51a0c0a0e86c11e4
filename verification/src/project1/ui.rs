pub mod states;
