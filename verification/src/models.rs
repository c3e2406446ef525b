//! Records shared by the request handlers.

use vstd::prelude::*;

verus! {

/// What a user may do; each flag is the most permissive value over the
/// user's groups.
#[derive(Debug, Clone, Copy, PartialEq, Eq)]
pub struct UserPermissions {
    pub read_files: bool,
    pub create_upload: bool,
    pub rename_files: bool,
    pub move_files: bool,
    pub copy_files: bool,
    pub delete_files: bool,
    pub allow_direct_link: bool,
    pub allow_share: bool,
    pub is_admin: bool,
    pub show_hidden_files: bool,
    pub extract_files: bool,
}

impl UserPermissions {
    /// No permission at all.
    pub fn none() -> (p: UserPermissions)
        ensures
            !p.read_files && !p.create_upload && !p.rename_files && !p.move_files,
            !p.copy_files && !p.delete_files && !p.allow_direct_link && !p.allow_share,
            !p.is_admin && !p.show_hidden_files && !p.extract_files,
    {
        UserPermissions {
            read_files: false,
            create_upload: false,
            rename_files: false,
            move_files: false,
            copy_files: false,
            delete_files: false,
            allow_direct_link: false,
            allow_share: false,
            is_admin: false,
            show_hidden_files: false,
            extract_files: false,
        }
    }
}

impl Default for UserPermissions {
    fn default() -> (p: UserPermissions)
        ensures
            p == UserPermissions::none_spec(),
    {
        UserPermissions::none()
    }
}

impl UserPermissions {
    pub open spec fn none_spec() -> UserPermissions {
        UserPermissions {
            read_files: false,
            create_upload: false,
            rename_files: false,
            move_files: false,
            copy_files: false,
            delete_files: false,
            allow_direct_link: false,
            allow_share: false,
            is_admin: false,
            show_hidden_files: false,
            extract_files: false,
        }
    }
}

/// Per-path settings: an access password, write permission, hiding rules,
/// readme and header text; each `*_sub` flag extends the setting to the
/// paths below.
#[derive(Debug, Clone)]
pub struct Meta {
    pub id: i64,
    pub path: String,
    pub password: Option<String>,
    pub p_sub: bool,
    pub write: bool,
    pub w_sub: bool,
    pub hide: Option<String>,
    pub h_sub: bool,
    pub readme: Option<String>,
    pub r_sub: bool,
    pub header: Option<String>,
    pub header_sub: bool,
    pub created_at: String,
    pub updated_at: String,
}

} // verus!
