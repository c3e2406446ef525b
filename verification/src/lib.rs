//! Core logic of a multi-storage file listing server: path normalisation,
//! mount resolution, access rules, request parsing and listing plans.

pub mod text;
pub mod utils;
pub mod models;
pub mod num;
pub mod bytes;
pub mod encoding;
pub mod sorting;
pub mod clock;
pub mod digest;
pub mod config;
pub mod api;
pub mod auth;
pub mod db;
