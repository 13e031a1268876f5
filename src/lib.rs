pub mod contract;
pub mod draw;
pub mod laws;
mod random;
pub mod registry;
pub mod token;
pub mod types;
