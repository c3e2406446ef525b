//! Extracting archives into a storage.

pub mod types;
pub mod utils;
pub mod handlers;
