//! Load-balance groups: several storages serving one content, and the
//! requests that manage them.

use vstd::prelude::*;
use crate::text::chars_of;

verus! {

/// The answer envelope of the load-balance endpoints.
#[derive(Debug)]
pub struct ApiResponse<T> {
    pub code: i32,
    pub message: String,
    pub data: Option<T>,
}

impl<T> ApiResponse<T> {
    /// Code 200, message `success`, the data.
    pub fn success(data: T) -> (r: Self)
        ensures
            r.code == 200,
            r.message@ == "success"@,
            r.data == Some(data),
    {
        ApiResponse { code: 200, message: String::from_str("success"), data: Some(data) }
    }

    /// Code 400, the message, no data.
    pub fn error(msg: &str) -> (r: Self)
        ensures
            r.code == 400,
            r.message@ == msg@,
            r.data.is_none(),
    {
        ApiResponse { code: 400, message: String::from_str(msg), data: None }
    }
}

/// A new (or changed) group: its name, its balancing mode, its storages.
#[derive(Debug)]
pub struct CreateGroupRequest {
    pub name: String,
    pub mode: String,
    pub drivers: Vec<DriverConfig>,
    pub enabled: bool,
}

/// A storage of a group.
#[derive(Debug)]
pub struct DriverConfig {
    pub driver_id: String,
    pub driver_name: String,
    pub mount_path: String,
    pub weight: u32,
    pub order: i32,
    pub is_china_node: bool,
    pub can_redirect: bool,
}

/// A request to delete a group.
#[derive(Debug)]
pub struct DeleteGroupRequest {
    pub name: String,
}

/// A request for what is known of an address.
#[derive(Debug)]
pub struct LookupIpRequest {
    pub ip: String,
}

/// A balancing mode as shown.
#[derive(Debug)]
pub struct ModeInfo {
    pub id: String,
    pub name: String,
    pub description: String,
}

/// A group is enabled unless it says otherwise.
pub fn default_true() -> (r: bool)
    ensures
        r,
{
    true
}

/// A storage's weight when none is given.
pub fn default_weight() -> (r: u32)
    ensures
        r == 1,
{
    1
}

/// A new group must have a name.
pub fn check_group_name(name: &str) -> (r: Result<(), ApiResponse<()>>)
    ensures
        name@.len() > 0 <==> r is Ok,
        r matches Err(e) ==> e.code == 400 && e.message@ == "组名不能为空"@ && e.data.is_none(),
{
    if chars_of(name).len() == 0 {
        Err(ApiResponse::error("组名不能为空"))
    } else {
        Ok(())
    }
}

/// The balancing modes offered: weighted round robin, and sending users
/// in mainland China and elsewhere to different storages.
pub fn list_modes() -> (r: Vec<ModeInfo>)
    ensures
        r@.len() == 2,
        r@[0].id@ == "weighted_round_robin"@ && r@[0].name@ == "加权轮询"@ && r@[0].description@ == "按权重比例轮询分配请求"@,
        r@[1].id@ == "geo_region"@ && r@[1].name@ == "地区分流"@ && r@[1].description@ == "中国大陆/海外用户分流到不同驱动"@,
{
    let mut v: Vec<ModeInfo> = Vec::new();
    v.push(ModeInfo {
        id: String::from_str("weighted_round_robin"),
        name: String::from_str("加权轮询"),
        description: String::from_str("按权重比例轮询分配请求"),
    });
    v.push(ModeInfo {
        id: String::from_str("geo_region"),
        name: String::from_str("地区分流"),
        description: String::from_str("中国大陆/海外用户分流到不同驱动"),
    });
    v
}

/// What a storage of a group can do: redirect when its configuration says
/// so, read ranges always, and hand out direct links exactly when it
/// redirects.
#[derive(Debug, Clone, Copy, PartialEq, Eq, Structural)]
pub struct DriverCapability {
    pub can_redirect: bool,
    pub can_range_read: bool,
    pub can_direct_link: bool,
}

/// The capability of a storage as a group's request describes it.
pub fn driver_capability(d: &DriverConfig) -> (r: DriverCapability)
    ensures
        r.can_redirect == d.can_redirect,
        r.can_range_read,
        r.can_direct_link == d.can_redirect,
{
    DriverCapability { can_redirect: d.can_redirect, can_range_read: true, can_direct_link: d.can_redirect }
}

} // verus!
