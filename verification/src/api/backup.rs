//! Backups of the site's settings: what a backup holds, who may take or
//! restore one, in which order a restore writes its items, which password
//! the restoring administrator keeps, and the summary of a restore.

use vstd::prelude::*;
use crate::api::{Refusal, refuse};
use crate::text::{chars_of, string_of, concat_chars, str_eq, copy_str};
use crate::num::{decimal, u64_to_decimal};

verus! {

/// Everything a backup holds.
#[derive(Debug)]
pub struct BackupData {
    pub version: String,
    pub created_at: String,
    pub site_settings: Vec<SiteSettingBackup>,
    pub users: Vec<UserBackup>,
    pub user_groups: Vec<UserGroupBackup>,
    pub user_group_members: Vec<UserGroupMemberBackup>,
    pub drivers: Vec<DriverBackup>,
    pub mounts: Vec<MountBackup>,
    pub metas: Vec<MetaBackup>,
    pub shares: Vec<ShareBackup>,
}

/// A site setting.
#[derive(Debug)]
pub struct SiteSettingBackup {
    pub key: String,
    pub value: String,
}

/// A user, with the hash of the password.
#[derive(Debug)]
pub struct UserBackup {
    pub id: String,
    pub unique_id: String,
    pub username: String,
    pub password_hash: String,
    pub email: Option<String>,
    pub phone: Option<String>,
    pub root_path: Option<String>,
    pub is_admin: bool,
    pub enabled: bool,
    pub two_factor_enabled: bool,
    pub two_factor_secret: Option<String>,
    pub created_at: String,
    pub updated_at: String,
}

/// A user group and its permissions.
#[derive(Debug)]
pub struct UserGroupBackup {
    pub id: i64,
    pub name: String,
    pub description: Option<String>,
    pub is_admin: bool,
    pub allow_direct_link: bool,
    pub allow_share: bool,
    pub show_hidden_files: bool,
    pub no_password_access: bool,
    pub add_offline_download: bool,
    pub create_upload: bool,
    pub rename_files: bool,
    pub move_files: bool,
    pub copy_files: bool,
    pub delete_files: bool,
    pub read_files: bool,
    pub read_compressed: bool,
    pub extract_files: bool,
    pub webdav_enabled: bool,
    pub ftp_enabled: bool,
    pub root_path: Option<String>,
    pub created_at: String,
    pub updated_at: String,
}

/// A user's membership of a group.
#[derive(Debug)]
pub struct UserGroupMemberBackup {
    pub user_id: String,
    pub group_id: String,
}

/// A configured storage.
#[derive(Debug)]
pub struct DriverBackup {
    pub name: String,
    pub version: String,
    pub description: String,
    pub enabled: bool,
    pub config: Option<String>,
    pub created_at: String,
    pub updated_at: String,
}

/// A mount of a storage.
#[derive(Debug)]
pub struct MountBackup {
    pub id: String,
    pub name: String,
    pub driver: String,
    pub mount_path: String,
    pub config: String,
    pub enabled: bool,
    pub created_at: String,
    pub updated_at: String,
}

/// Per-path settings.
#[derive(Debug)]
pub struct MetaBackup {
    pub id: i64,
    pub path: String,
    pub password: Option<String>,
    pub hide: Option<String>,
    pub readme: Option<String>,
    pub header: Option<String>,
    pub created_at: String,
    pub updated_at: String,
}

/// A share.
#[derive(Debug)]
pub struct ShareBackup {
    pub id: i64,
    pub path: String,
    pub password: Option<String>,
    pub expire_at: Option<String>,
    pub created_at: String,
}

/// A restore: the backup, and whether it replaces existing records.
#[derive(Debug)]
pub struct RestoreRequest {
    pub data: BackupData,
    pub override_existing: bool,
}

/// What the session lookup of a backup request found: the user and whether
/// the user is an administrator.
pub open spec fn admin_outcome(lookup: Option<Result<Option<(Seq<char>, bool)>, ()>>) -> Result<Seq<char>, (u16, Seq<char>)> {
    match lookup {
        None => Err((401, "未登录"@)),
        Some(Err(())) => Err((500, "服务器错误"@)),
        Some(Ok(None)) => Err((401, "会话无效"@)),
        Some(Ok(Some((id, admin)))) => if admin { Ok(id) } else { Err((403, "需要管理员权限"@)) },
    }
}

/// Decides whether a backup request comes from an administrator: `None`
/// when the request has no session, else the result of looking the valid
/// session's enabled user up.
pub fn require_admin(lookup: Option<Result<Option<(String, bool)>, ()>>) -> (r: Result<String, Refusal>)
    ensures
        match admin_outcome(match lookup {
            None => None,
            Some(Err(())) => Some(Err(())),
            Some(Ok(None)) => Some(Ok(None)),
            Some(Ok(Some((id, a)))) => Some(Ok(Some((id@, a)))),
        }) {
            Ok(id) => r matches Ok(u) && u@ == id,
            Err((code, msg)) => r matches Err(e) && e.code == code && e.message@ == msg,
        },
{
    match lookup {
        None => Err(refuse(401, "未登录")),
        Some(Err(())) => Err(refuse(500, "服务器错误")),
        Some(Ok(None)) => Err(refuse(401, "会话无效")),
        Some(Ok(Some((id, admin)))) => {
            if admin {
                Ok(id)
            } else {
                Err(refuse(403, "需要管理员权限"))
            }
        },
    }
}

/// The kinds of records a restore writes, in the order it writes them.
#[derive(Debug, Clone, Copy, PartialEq, Eq, Structural)]
pub enum RestoreKind {
    Setting,
    UserGroup,
    User,
    GroupMember,
    Driver,
    Meta,
    Share,
}

/// One record to restore: its kind and its index in the backup's list of
/// that kind.
#[derive(Debug, Clone, Copy, PartialEq, Eq, Structural)]
pub struct RestoreItem {
    pub kind: RestoreKind,
    pub index: usize,
}

/// The records of one kind, in order.
pub open spec fn items_of(kind: RestoreKind, n: nat) -> Seq<RestoreItem> {
    Seq::new(n, |i: int| RestoreItem { kind, index: i as usize })
}

/// The order of a restore: the settings, the groups, the users, the
/// memberships, the storages, the per-path settings, the shares; each list
/// in its order. Mounts are not restored.
pub open spec fn restore_order(data: BackupData) -> Seq<RestoreItem> {
    items_of(RestoreKind::Setting, data.site_settings@.len())
        + items_of(RestoreKind::UserGroup, data.user_groups@.len())
        + items_of(RestoreKind::User, data.users@.len())
        + items_of(RestoreKind::GroupMember, data.user_group_members@.len())
        + items_of(RestoreKind::Driver, data.drivers@.len())
        + items_of(RestoreKind::Meta, data.metas@.len())
        + items_of(RestoreKind::Share, data.shares@.len())
}

fn push_items(out: &mut Vec<RestoreItem>, kind: RestoreKind, n: usize)
    ensures
        final(out)@ == old(out)@ + items_of(kind, n as nat),
{
    let ghost start = out@;
    let mut i: usize = 0;
    while i < n
        invariant
            i <= n,
            out@ == start + items_of(kind, i as nat),
        decreases n - i,
    {
        out.push(RestoreItem { kind, index: i });
        assert(items_of(kind, (i + 1) as nat) =~= items_of(kind, i as nat).push(RestoreItem { kind, index: i }));
        assert(start + items_of(kind, (i + 1) as nat) =~= (start + items_of(kind, i as nat)).push(RestoreItem { kind, index: i }));
        i = i + 1;
    }
}

/// Lists the records a restore writes, in order.
pub fn restore_plan(data: &BackupData) -> (r: Vec<RestoreItem>)
    ensures
        r@ == restore_order(*data),
{
    let mut out: Vec<RestoreItem> = Vec::new();
    push_items(&mut out, RestoreKind::Setting, data.site_settings.len());
    push_items(&mut out, RestoreKind::UserGroup, data.user_groups.len());
    push_items(&mut out, RestoreKind::User, data.users.len());
    push_items(&mut out, RestoreKind::GroupMember, data.user_group_members.len());
    push_items(&mut out, RestoreKind::Driver, data.drivers.len());
    push_items(&mut out, RestoreKind::Meta, data.metas.len());
    push_items(&mut out, RestoreKind::Share, data.shares.len());
    assert(out@ =~= restore_order(*data));
    out
}

/// The password hash a restored user gets: the restoring administrator
/// keeps the current one when it is known; every other user gets the one
/// in the backup.
pub open spec fn restored_hash(user_id: Seq<char>, backup_hash: Seq<char>, admin_id: Seq<char>, admin_hash: Option<Seq<char>>) -> Seq<char> {
    if user_id == admin_id {
        match admin_hash {
            Some(h) => h,
            None => backup_hash,
        }
    } else {
        backup_hash
    }
}

/// Picks the password hash written for a restored user.
pub fn restored_password_hash(user: &UserBackup, admin_id: &str, admin_hash: Option<&str>) -> (r: String)
    ensures
        r@ == restored_hash(user.id@, user.password_hash@, admin_id@, match admin_hash { Some(h) => Some(h@), None => None }),
{
    if str_eq(user.id.as_str(), admin_id) {
        match admin_hash {
            Some(h) => copy_str(h),
            None => copy_str(user.password_hash.as_str()),
        }
    } else {
        copy_str(user.password_hash.as_str())
    }
}

/// Law: restoring never changes the password of the administrator who
/// restores, when that password is known.
pub proof fn lemma_restore_keeps_admin_password(backup_hash: Seq<char>, admin_id: Seq<char>, admin_hash: Seq<char>)
    ensures
        restored_hash(admin_id, backup_hash, admin_id, Some(admin_hash)) == admin_hash,
{
}

/// The number of `true` flags.
pub open spec fn count_true(s: Seq<bool>) -> nat
    decreases s.len(),
{
    if s.len() == 0 {
        0
    } else {
        count_true(s.drop_last()) + if s.last() { 1nat } else { 0nat }
    }
}

proof fn lemma_count_true_bound(s: Seq<bool>)
    ensures
        count_true(s) <= s.len(),
    decreases s.len(),
{
    if s.len() > 0 {
        lemma_count_true_bound(s.drop_last());
    }
}

/// The outcome of a restore.
#[derive(Debug)]
pub struct RestoreSummary {
    pub success_count: usize,
    pub error_count: usize,
    pub message: String,
}

/// The message that ends a restore.
pub open spec fn summary_message(ok: nat, failed: nat) -> Seq<char> {
    "恢复完成：成功 "@ + decimal(ok) + " 项，失败 "@ + decimal(failed) + " 项"@
}

/// Counts the records a restore wrote (`true`) and failed to write.
pub fn restore_summary(results: &Vec<bool>) -> (r: RestoreSummary)
    ensures
        r.success_count == count_true(results@),
        r.error_count == results@.len() - count_true(results@),
        r.message@ == summary_message(r.success_count as nat, r.error_count as nat),
{
    let mut ok: usize = 0;
    let mut i: usize = 0;
    while i < results.len()
        invariant
            i <= results.len(),
            ok == count_true(results@.take(i as int)),
            ok <= i,
        decreases results.len() - i,
    {
        assert(results@.take(i + 1).drop_last() =~= results@.take(i as int));
        if results[i] {
            ok = ok + 1;
        }
        i = i + 1;
    }
    assert(results@.take(results.len() as int) =~= results@);
    let failed = results.len() - ok;
    let a = concat_chars(&chars_of("恢复完成：成功 "), &u64_to_decimal(ok as u64));
    let b = concat_chars(&a, &chars_of(" 项，失败 "));
    let c = concat_chars(&b, &u64_to_decimal(failed as u64));
    let d = concat_chars(&c, &chars_of(" 项"));
    RestoreSummary { success_count: ok, error_count: failed, message: string_of(&d) }
}

/// Law: every record of a restore is counted once, as written or as failed.
pub proof fn lemma_summary_counts_all(results: Seq<bool>)
    ensures
        count_true(results) + (results.len() - count_true(results)) == results.len(),
        count_true(results) <= results.len(),
{
    lemma_count_true_bound(results);
}

} // verus!
