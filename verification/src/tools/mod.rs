pub mod function;
pub mod registry;
