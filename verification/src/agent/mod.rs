pub mod runner;
pub mod types;
