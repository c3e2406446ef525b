//! The values the search endpoints exchange.

use vstd::prelude::*;
use crate::text::copy_str;

verus! {

/// The permission that matters to search: seeing hidden files.
#[derive(Debug, Clone, Copy)]
pub struct SearchUserPermissions {
    pub show_hidden_files: bool,
}

impl Default for SearchUserPermissions {
    fn default() -> (r: SearchUserPermissions)
        ensures
            !r.show_hidden_files,
    {
        SearchUserPermissions { show_hidden_files: false }
    }
}

/// Who searches: the permission and the root the user is confined to.
#[derive(Debug)]
pub struct SearchUserContext {
    pub permissions: SearchUserPermissions,
    pub root_path: String,
}

impl Default for SearchUserContext {
    fn default() -> (r: SearchUserContext)
        ensures
            !r.permissions.show_hidden_files,
            r.root_path@ == seq!['/'],
    {
        let mut root = String::new();
        crate::text::push_char(&mut root, '/');
        SearchUserContext { permissions: SearchUserPermissions::default(), root_path: root }
    }
}

/// The answer envelope of a search: success with data, or an error.
#[derive(Debug)]
pub struct ApiResponse<T> {
    pub success: bool,
    pub data: Option<T>,
    pub error: Option<String>,
}

impl<T> ApiResponse<T> {
    /// A success with the data.
    pub fn success(data: T) -> (r: Self)
        ensures
            r.success,
            r.data == Some(data),
            r.error.is_none(),
    {
        ApiResponse { success: true, data: Some(data), error: None }
    }

    /// A failure with the message.
    pub fn error(message: &str) -> (r: Self)
        ensures
            !r.success,
            r.data.is_none(),
            r.error matches Some(e) && e@ == message@,
    {
        ApiResponse { success: false, data: None, error: Some(copy_str(message)) }
    }
}

/// The state of an index.
#[derive(Debug)]
pub struct IndexStatus {
    pub status: String,
    pub object_count: u64,
    pub index_size: u64,
    pub last_updated: Option<String>,
    pub error_message: Option<String>,
}

/// The search settings.
#[derive(Debug)]
pub struct SearchSettings {
    pub enabled: bool,
    pub max_results: i64,
    pub search_content: bool,
    pub index_hidden: bool,
}

/// A search: the words, the page and its size, the directory the user is
/// in (its results come first), and whether only files or folders are
/// wanted.
#[derive(Debug)]
pub struct SearchRequest {
    pub query: String,
    pub limit: usize,
    pub page: usize,
    pub current_path: Option<String>,
    pub filter_type: Option<String>,
}

/// The page size of a search when none is asked for.
pub fn default_limit() -> (r: usize)
    ensures
        r == 50,
{
    50
}

/// The page of a search when none is asked for.
pub fn default_page() -> (r: usize)
    ensures
        r == 1,
{
    1
}

/// One result of a search.
#[derive(Debug)]
pub struct SearchResultItem {
    pub path: String,
    pub name: String,
    pub is_dir: bool,
    pub size: i64,
    pub modified: i64,
}

/// A page of results and how many matched in all.
#[derive(Debug)]
pub struct SearchResponse {
    pub results: Vec<SearchResultItem>,
    pub total: usize,
    pub total_matched: usize,
}

} // verus!
