//! Users: the request for a page of users, and what a change of a user
//! writes and whether it ends the session of the one who made it.

use vstd::prelude::*;
use crate::text::str_eq;

verus! {

/// A request for a page of users, optionally searched.
#[derive(Debug)]
pub struct PaginationQuery {
    pub page: i64,
    pub page_size: i64,
    pub search: Option<String>,
}

/// The page of a list when none is asked for.
pub fn default_page() -> (r: i64)
    ensures
        r == 1,
{
    1
}

/// The page size of a list when none is asked for.
pub fn default_page_size() -> (r: i64)
    ensures
        r == 10,
{
    10
}

/// A change of a user made by an administrator: each field given is
/// written.
#[derive(Debug)]
pub struct UpdateUserRequest {
    pub username: Option<String>,
    pub email: Option<String>,
    pub phone: Option<String>,
    pub password: Option<String>,
    pub root_path: Option<String>,
    pub enabled: Option<bool>,
    pub two_factor_enabled: Option<bool>,
    pub group_ids: Option<Vec<String>>,
}

/// A part of a user that a change writes.
#[derive(Debug, Clone, Copy, PartialEq, Eq, Structural)]
pub enum UserField {
    Username,
    Email,
    Phone,
    RootPath,
    Password,
    Enabled,
    TwoFactor,
    Groups,
}

/// `f` when `given`, else nothing.
pub open spec fn field_if(given: bool, f: UserField) -> Seq<UserField> {
    if given { seq![f] } else { Seq::empty() }
}

/// The parts a change writes, in the order they are written.
pub open spec fn written_fields(req: UpdateUserRequest) -> Seq<UserField> {
    field_if(req.username is Some, UserField::Username)
        + field_if(req.email is Some, UserField::Email)
        + field_if(req.phone is Some, UserField::Phone)
        + field_if(req.root_path is Some, UserField::RootPath)
        + field_if(req.password is Some, UserField::Password)
        + field_if(req.enabled is Some, UserField::Enabled)
        + field_if(req.two_factor_enabled is Some, UserField::TwoFactor)
        + field_if(req.group_ids is Some, UserField::Groups)
}

/// What a change of a user does: the parts written, in order, and whether
/// it ends the sessions of the user and logs the requester out.
#[derive(Debug)]
pub struct UserUpdatePlan {
    pub fields: Vec<UserField>,
    pub logout: bool,
}

fn push_if(v: &mut Vec<UserField>, given: bool, f: UserField)
    ensures
        final(v)@ == old(v)@ + field_if(given, f),
{
    if given {
        v.push(f);
    } else {
        assert(old(v)@ + field_if(given, f) =~= old(v)@);
    }
}

/// Plans a change of user `id` requested in session of `session_user`: a
/// new password for one's own account ends that account's sessions and
/// logs the requester out.
pub fn update_user_plan(req: &UpdateUserRequest, session_user: Option<&str>, id: &str) -> (r: UserUpdatePlan)
    ensures
        r.fields@ == written_fields(*req),
        r.logout == (req.password is Some && (session_user matches Some(u) && u@ == id@)),
{
    let mut v: Vec<UserField> = Vec::new();
    push_if(&mut v, req.username.is_some(), UserField::Username);
    push_if(&mut v, req.email.is_some(), UserField::Email);
    push_if(&mut v, req.phone.is_some(), UserField::Phone);
    push_if(&mut v, req.root_path.is_some(), UserField::RootPath);
    push_if(&mut v, req.password.is_some(), UserField::Password);
    push_if(&mut v, req.enabled.is_some(), UserField::Enabled);
    push_if(&mut v, req.two_factor_enabled.is_some(), UserField::TwoFactor);
    push_if(&mut v, req.group_ids.is_some(), UserField::Groups);
    assert(v@ =~= written_fields(*req));
    let logout = req.password.is_some() && match session_user {
        Some(u) => str_eq(u, id),
        None => false,
    };
    UserUpdatePlan { fields: v, logout }
}

} // verus!
