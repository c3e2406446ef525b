//! The server: its status and the WebDAV settings.

use vstd::prelude::*;

verus! {

/// Whether WebDAV is served, and where.
#[derive(Debug, Clone)]
pub struct ServerStatus {
    pub webdav_enabled: bool,
    pub webdav_listen: String,
}

/// A change of the WebDAV settings.
#[derive(Debug, Clone)]
pub struct UpdateWebDavConfigRequest {
    pub enabled: Option<bool>,
    pub listen: Option<String>,
    pub prefix: Option<String>,
}

} // verus!
