//! User groups: the requests that list, create and change them.

use vstd::prelude::*;

verus! {

/// A request for a page of groups.
#[derive(Debug)]
pub struct ListGroupsQuery {
    pub page: i64,
    pub page_size: i64,
    pub search: Option<String>,
}

/// A new group and its permissions; every permission is off unless given,
/// but reading files, which is on.
#[derive(Debug)]
pub struct CreateGroupRequest {
    pub name: String,
    pub description: Option<String>,
    pub is_admin: bool,
    pub allow_direct_link: bool,
    pub allow_share: bool,
    pub show_hidden_files: bool,
    pub no_password_access: bool,
    pub add_offline_download: bool,
    pub create_upload: bool,
    pub rename_files: bool,
    pub move_files: bool,
    pub copy_files: bool,
    pub delete_files: bool,
    pub read_files: bool,
    pub read_compressed: bool,
    pub extract_files: bool,
    pub webdav_enabled: bool,
    pub ftp_enabled: bool,
    pub root_path: Option<String>,
}

/// A change of a group: each field given is changed.
#[derive(Debug)]
pub struct UpdateGroupRequest {
    pub name: Option<String>,
    pub description: Option<String>,
    pub is_admin: Option<bool>,
    pub allow_direct_link: Option<bool>,
    pub allow_share: Option<bool>,
    pub show_hidden_files: Option<bool>,
    pub no_password_access: Option<bool>,
    pub add_offline_download: Option<bool>,
    pub create_upload: Option<bool>,
    pub rename_files: Option<bool>,
    pub move_files: Option<bool>,
    pub copy_files: Option<bool>,
    pub delete_files: Option<bool>,
    pub read_files: Option<bool>,
    pub read_compressed: Option<bool>,
    pub extract_files: Option<bool>,
    pub webdav_enabled: Option<bool>,
    pub ftp_enabled: Option<bool>,
    pub root_path: Option<String>,
}

/// What can be changed of a stored group: its name, description,
/// permissions and root.
#[derive(Debug)]
pub struct GroupFields {
    pub name: String,
    pub description: Option<String>,
    pub is_admin: bool,
    pub allow_direct_link: bool,
    pub allow_share: bool,
    pub show_hidden_files: bool,
    pub no_password_access: bool,
    pub add_offline_download: bool,
    pub create_upload: bool,
    pub rename_files: bool,
    pub move_files: bool,
    pub copy_files: bool,
    pub delete_files: bool,
    pub read_files: bool,
    pub read_compressed: bool,
    pub extract_files: bool,
    pub webdav_enabled: bool,
    pub ftp_enabled: bool,
    pub root_path: Option<String>,
}

/// `new` when it is given, else `old`.
pub open spec fn given_or<T>(new: Option<T>, old: T) -> T {
    match new {
        Some(v) => v,
        None => old,
    }
}

/// A group after a change: each field the change gives takes the new
/// value, the others keep theirs.
pub fn merge_group(current: GroupFields, req: UpdateGroupRequest) -> (r: GroupFields)
    ensures
        r.name == given_or(req.name, current.name),
        r.description == (if req.description is Some { req.description } else { current.description }),
        r.is_admin == given_or(req.is_admin, current.is_admin),
        r.allow_direct_link == given_or(req.allow_direct_link, current.allow_direct_link),
        r.allow_share == given_or(req.allow_share, current.allow_share),
        r.show_hidden_files == given_or(req.show_hidden_files, current.show_hidden_files),
        r.no_password_access == given_or(req.no_password_access, current.no_password_access),
        r.add_offline_download == given_or(req.add_offline_download, current.add_offline_download),
        r.create_upload == given_or(req.create_upload, current.create_upload),
        r.rename_files == given_or(req.rename_files, current.rename_files),
        r.move_files == given_or(req.move_files, current.move_files),
        r.copy_files == given_or(req.copy_files, current.copy_files),
        r.delete_files == given_or(req.delete_files, current.delete_files),
        r.read_files == given_or(req.read_files, current.read_files),
        r.read_compressed == given_or(req.read_compressed, current.read_compressed),
        r.extract_files == given_or(req.extract_files, current.extract_files),
        r.webdav_enabled == given_or(req.webdav_enabled, current.webdav_enabled),
        r.ftp_enabled == given_or(req.ftp_enabled, current.ftp_enabled),
        r.root_path == (if req.root_path is Some { req.root_path } else { current.root_path }),
{
    GroupFields {
        name: match req.name { Some(v) => v, None => current.name },
        description: match req.description { Some(v) => Some(v), None => current.description },
        is_admin: match req.is_admin { Some(v) => v, None => current.is_admin },
        allow_direct_link: match req.allow_direct_link { Some(v) => v, None => current.allow_direct_link },
        allow_share: match req.allow_share { Some(v) => v, None => current.allow_share },
        show_hidden_files: match req.show_hidden_files { Some(v) => v, None => current.show_hidden_files },
        no_password_access: match req.no_password_access { Some(v) => v, None => current.no_password_access },
        add_offline_download: match req.add_offline_download { Some(v) => v, None => current.add_offline_download },
        create_upload: match req.create_upload { Some(v) => v, None => current.create_upload },
        rename_files: match req.rename_files { Some(v) => v, None => current.rename_files },
        move_files: match req.move_files { Some(v) => v, None => current.move_files },
        copy_files: match req.copy_files { Some(v) => v, None => current.copy_files },
        delete_files: match req.delete_files { Some(v) => v, None => current.delete_files },
        read_files: match req.read_files { Some(v) => v, None => current.read_files },
        read_compressed: match req.read_compressed { Some(v) => v, None => current.read_compressed },
        extract_files: match req.extract_files { Some(v) => v, None => current.extract_files },
        webdav_enabled: match req.webdav_enabled { Some(v) => v, None => current.webdav_enabled },
        ftp_enabled: match req.ftp_enabled { Some(v) => v, None => current.ftp_enabled },
        root_path: match req.root_path { Some(v) => Some(v), None => current.root_path },
    }
}

/// The page of a list when none is asked for.
pub fn default_page() -> (r: i64)
    ensures
        r == 1,
{
    1
}

/// The page size of a list when none is asked for.
pub fn default_page_size() -> (r: i64)
    ensures
        r == 10,
{
    10
}

/// Reading files is granted unless a new group says otherwise.
pub fn default_true() -> (r: bool)
    ensures
        r,
{
    true
}

} // verus!
