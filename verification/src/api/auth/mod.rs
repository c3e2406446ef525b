//! Accounts: registration, login, and the hashing of passwords.

pub mod types;
pub mod register;
pub mod login;
pub mod two_factor;
pub mod password;
