pub mod env;
pub mod text;
