//! Search over the storages' indexes.

pub mod types;
pub mod admin;
pub mod query;
