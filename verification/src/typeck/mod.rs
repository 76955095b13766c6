pub mod types;
pub mod env;
