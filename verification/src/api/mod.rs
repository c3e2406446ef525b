//! Request-level logic of the HTTP API.

pub mod files;
pub mod file_resolver;
pub mod archive;
pub mod extract;
pub mod backup;
pub mod direct_links;
pub mod settings;
pub mod auth;
pub mod shares;
pub mod notification;
pub mod tasks;
pub mod server;
pub mod oauth;
pub mod meta;
pub mod users;
pub mod groups;
pub mod load_balance;
pub mod search;
pub mod webdav;
pub mod drivers;
pub mod stats;

use vstd::prelude::*;

verus! {

/// A request answered with an error code and a message in place of data.
#[derive(Debug)]
pub struct Refusal {
    pub code: u16,
    pub message: String,
}

/// A refusal with the given code and message.
pub fn refuse(code: u16, message: &str) -> (r: Refusal)
    ensures
        r.code == code,
        r.message@ == message@,
{
    Refusal { code, message: String::from_str(message) }
}

/// The envelope of most JSON answers: a status code, a message and,
/// on success, the data.
pub struct ApiResponse<T> {
    pub code: i32,
    pub message: String,
    pub data: Option<T>,
}

impl<T> ApiResponse<T> {
    /// Code 200, message `success`, the data.
    pub fn success(data: T) -> (r: Self)
        ensures
            r.code == 200,
            r.message@ == "success"@,
            r.data == Some(data),
    {
        ApiResponse { code: 200, message: String::from_str("success"), data: Some(data) }
    }

    /// Code 400, the message, no data.
    pub fn error(message: &str) -> (r: Self)
        ensures
            r.code == 400,
            r.message@ == message@,
            r.data.is_none(),
    {
        ApiResponse { code: 400, message: String::from_str(message), data: None }
    }
}

} // verus!
