//! Shares: public links to a file or a directory, with an optional
//! extraction code, expiry and access limit.

pub mod types;
pub mod public;
pub mod admin;
