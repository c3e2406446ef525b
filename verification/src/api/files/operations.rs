//! Changes to files: creating directories and files, removing and
//! renaming; who may make them and where in which storage they happen.

use vstd::prelude::*;
use crate::api::{Refusal, refuse};
use crate::api::file_resolver::{MountInfo, get_first_mount, matching_mounts, lemma_matching_mounts_serve,
    lemma_serving_mount_cut};
use crate::api::files::common::{join_user_path, join_user_path_spec, illegal_path_message,
    lemma_join_user_path_clean};
use crate::models::UserPermissions;
use crate::utils::{fix_and_clean_path, clean_path};
use crate::text::{chars_of, string_of, sub_chars, copy_str, byte_len_of, byte_tail, str_tail, str_byte_len};

verus! {

/// A request to create a directory.
#[derive(Debug)]
pub struct FsMkdirReq {
    pub path: String,
}

/// A request to create or overwrite a text file.
#[derive(Debug)]
pub struct FsWriteReq {
    pub path: String,
    pub content: String,
}

/// A request to remove a file or directory.
#[derive(Debug)]
pub struct FsRemoveReq {
    pub path: String,
}

/// A request to rename a file or directory.
#[derive(Debug)]
pub struct FsRenameReq {
    pub path: String,
    pub name: String,
}

/// The changes to files.
#[derive(Debug, Clone, Copy, PartialEq, Eq, Structural)]
pub enum FileOp {
    Mkdir,
    Write,
    Remove,
    Rename,
}

/// Whether the permissions allow a change: creating needs the upload
/// permission, removing the delete one, renaming the rename one; an
/// administrator may make every change.
pub open spec fn op_allowed(op: FileOp, p: UserPermissions) -> bool {
    p.is_admin || match op {
        FileOp::Mkdir => p.create_upload,
        FileOp::Write => p.create_upload,
        FileOp::Remove => p.delete_files,
        FileOp::Rename => p.rename_files,
    }
}

/// The refusal of a change the user may not make.
pub open spec fn op_denied_message(op: FileOp) -> Seq<char> {
    match op {
        FileOp::Mkdir => "没有创建目录的权限"@,
        FileOp::Write => "没有创建文件的权限"@,
        FileOp::Remove => "没有删除文件的权限"@,
        FileOp::Rename => "没有重命名文件的权限"@,
    }
}

/// The refusal of a change to the root of a storage (only removing and
/// renaming are refused there).
pub open spec fn mount_root_message(op: FileOp) -> Option<Seq<char>> {
    match op {
        FileOp::Remove => Some("不能删除根目录"@),
        FileOp::Rename => Some("不能重命名根目录"@),
        _ => None,
    }
}

/// Where a change happens: the storage and the path inside it.
#[derive(Debug)]
pub struct OpTarget {
    pub mount_id: String,
    pub actual_path: String,
}

/// The outcome of locating a change at the full path `path`: the storage
/// and the inner path, or the refusal (code and message).
pub open spec fn op_outcome(op: FileOp, path: Seq<char>, mounts: Seq<MountInfo>) -> Result<(Seq<char>, Seq<char>), (u16, Seq<char>)> {
    let ms = matching_mounts(mounts, path);
    if ms.len() == 0 {
        Err((404, "路径不存在"@))
    } else {
        let m = clean_path(ms[0].mount_path@);
        if byte_len_of(path) > byte_len_of(m) {
            Ok((ms[0].id@, clean_path(byte_tail(path, byte_len_of(m) as int))))
        } else {
            match mount_root_message(op) {
                Some(msg) => Err((403, msg)),
                None => Ok((ms[0].id@, seq!['/'])),
            }
        }
    }
}

/// Locates a change requested by a user: refused when the user may not
/// make it or the path leaves the user's root; then the storage that serves
/// the path (404 when none does) and the path inside it. Removing or
/// renaming the root of a storage is refused.
pub fn operation_target(
    op: FileOp,
    perms: &UserPermissions,
    root_path: &str,
    req_path: &str,
    mounts: &[MountInfo],
) -> (r: Result<OpTarget, Refusal>)
    ensures
        !op_allowed(op, *perms) ==> (r matches Err(e) && e.code == 403 && e.message@ == op_denied_message(op)),
        op_allowed(op, *perms) ==> match join_user_path_spec(root_path@, clean_path(req_path@)) {
            None => r matches Err(e) && e.code == 403 && e.message@ == illegal_path_message(),
            Some(path) => match op_outcome(op, path, mounts@) {
                Ok((id, inner)) => r matches Ok(t) && t.mount_id@ == id && t.actual_path@ == inner,
                Err((code, msg)) => r matches Err(e) && e.code == code && e.message@ == msg,
            },
        },
{
    let allowed = perms.is_admin || match op {
        FileOp::Mkdir => perms.create_upload,
        FileOp::Write => perms.create_upload,
        FileOp::Remove => perms.delete_files,
        FileOp::Rename => perms.rename_files,
    };
    if !allowed {
        let msg = match op {
            FileOp::Mkdir => "没有创建目录的权限",
            FileOp::Write => "没有创建文件的权限",
            FileOp::Remove => "没有删除文件的权限",
            FileOp::Rename => "没有重命名文件的权限",
        };
        return Err(refuse(403, msg));
    }
    let req = fix_and_clean_path(req_path);
    let path = match join_user_path(root_path, req.as_str()) {
        Ok(p) => p,
        Err(e) => {
            return Err(Refusal { code: 403, message: e });
        },
    };
    let mount = match get_first_mount(path.as_str(), mounts) {
        Some(m) => m,
        None => {
            return Err(refuse(404, "路径不存在"));
        },
    };
    let mp = fix_and_clean_path(mount.mount_path.as_str());
    proof {
        lemma_join_user_path_clean(root_path@, req@);
        lemma_matching_mounts_serve(mounts@, path@);
        lemma_serving_mount_cut(*mount, path@);
    }
    let pl = str_byte_len(path.as_str());
    let ml = str_byte_len(mp.as_str());
    let actual = if pl > ml {
        fix_and_clean_path(str_tail(path.as_str(), ml).as_str())
    } else {
        match op {
            FileOp::Remove => {
                return Err(refuse(403, "不能删除根目录"));
            },
            FileOp::Rename => {
                return Err(refuse(403, "不能重命名根目录"));
            },
            _ => {
                let root = vec!['/'];
                assert(root@ =~= seq!['/']);
                string_of(&root)
            },
        }
    };
    Ok(OpTarget { mount_id: copy_str(mount.id.as_str()), actual_path: actual })
}

/// Law: a storage's own root is never removed or renamed: a removal or a
/// renaming is only located at a path longer than its storage's mount path
/// (in bytes, and, for a clean path, in characters).
pub proof fn lemma_mount_root_protected(op: FileOp, path: Seq<char>, mounts: Seq<MountInfo>)
    requires
        op == FileOp::Remove || op == FileOp::Rename,
        op_outcome(op, path, mounts) is Ok,
    ensures
        byte_len_of(path) > byte_len_of(clean_path(matching_mounts(mounts, path)[0].mount_path@)),
        clean_path(path) == path ==> path.len() > clean_path(matching_mounts(mounts, path)[0].mount_path@).len(),
{
    if clean_path(path) == path {
        lemma_matching_mounts_serve(mounts, path);
        lemma_serving_mount_cut(matching_mounts(mounts, path)[0], path);
    }
}

} // verus!
