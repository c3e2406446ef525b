//! The records and requests of shares.

use vstd::prelude::*;
use crate::api::direct_links::{sign_charset, generate_sign};

verus! {

/// A stored share.
#[derive(Debug)]
pub struct Share {
    pub id: i64,
    pub user_id: Option<String>,
    pub short_id: String,
    pub path: String,
    pub name: String,
    pub is_dir: bool,
    pub password: Option<String>,
    pub expires_at: Option<String>,
    pub max_access_count: Option<i64>,
    pub access_count: i64,
    pub enabled: bool,
    pub created_at: String,
    pub updated_at: String,
}

/// A share with the name of the user who created it.
#[derive(Debug)]
pub struct ShareWithCreator {
    pub id: i64,
    pub user_id: Option<String>,
    pub short_id: String,
    pub path: String,
    pub name: String,
    pub is_dir: bool,
    pub password: Option<String>,
    pub expires_at: Option<String>,
    pub max_access_count: Option<i64>,
    pub access_count: i64,
    pub enabled: bool,
    pub created_at: String,
    pub updated_at: String,
    pub creator_name: Option<String>,
}

/// A request to share a path.
#[derive(Debug)]
pub struct CreateShareRequest {
    pub path: String,
    pub password: Option<String>,
    pub expires_at: Option<String>,
    pub max_access_count: Option<i64>,
}

/// A request to change a share.
#[derive(Debug)]
pub struct UpdateShareRequest {
    pub password: Option<String>,
    pub expires_at: Option<String>,
    pub max_access_count: Option<i64>,
    pub enabled: Option<bool>,
}

/// A request for a page of shares.
#[derive(Debug)]
pub struct ListSharesQuery {
    pub page: Option<i64>,
    pub per_page: Option<i64>,
    pub search: Option<String>,
}

/// A request for the files of a share.
#[derive(Debug)]
pub struct ShareFileRequest {
    pub password: Option<String>,
    pub sub_path: Option<String>,
    pub page: Option<i64>,
    pub per_page: Option<i64>,
}

/// A random short id of `length` characters of the link alphabet.
pub fn generate_short_id(length: usize) -> (r: String)
    ensures
        r@.len() == length,
        forall|k: int| 0 <= k < length ==> sign_charset().contains(#[trigger] r@[k]),
{
    generate_sign(length)
}

} // verus!
