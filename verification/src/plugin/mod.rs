pub mod loader;
pub mod traits;
