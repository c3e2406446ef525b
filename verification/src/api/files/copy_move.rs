//! Moving and copying: who may, between which directories, the name of the
//! task, and the plan of which entry goes where under a conflict strategy.

use vstd::prelude::*;
use crate::api::{Refusal, refuse};
use crate::api::files::{child_path, child_of};
use crate::api::files::common::{join_user_path, join_user_path_spec, illegal_path_message};
use crate::api::files::upload::ConflictStrategy;
use crate::models::UserPermissions;
use crate::num::{decimal, u64_to_decimal};
use crate::utils::{fix_and_clean_path, clean_path};
use crate::text::{chars_of, string_of, sub_chars, concat_chars, str_eq, copy_str, byte_len_of, byte_tail,
    cut_at_boundary, str_tail, str_byte_len};

verus! {

/// A request to move (or copy) entries of one directory into another.
#[derive(Debug)]
pub struct FsMoveReq {
    pub src_dir: String,
    pub dst_dir: String,
    pub names: Vec<String>,
    pub conflict_strategy: Option<String>,
}

/// The strategy of a move or copy: `overwrite`, `skip`, else renaming.
pub open spec fn transfer_strategy_of(s: Option<Seq<char>>) -> ConflictStrategy {
    match s {
        Some(t) => if t == "overwrite"@ {
            ConflictStrategy::Overwrite
        } else if t == "skip"@ {
            ConflictStrategy::Skip
        } else {
            ConflictStrategy::AutoRename
        },
        None => ConflictStrategy::AutoRename,
    }
}

/// The two full directories of a move (`is_move`) or copy: refused when
/// the user may not, or when either leaves the user's root (the source is
/// checked first).
pub fn transfer_dirs(
    is_move: bool,
    perms: &UserPermissions,
    root_path: &str,
    src_dir: &str,
    dst_dir: &str,
) -> (r: Result<(String, String), Refusal>)
    ensures
        !(perms.is_admin || (if is_move { perms.move_files } else { perms.copy_files })) ==> (r matches Err(e)
            && e.code == 403 && e.message@ == (if is_move { "没有移动文件的权限"@ } else { "没有复制文件的权限"@ })),
        (perms.is_admin || (if is_move { perms.move_files } else { perms.copy_files })) ==> match (
            join_user_path_spec(root_path@, clean_path(src_dir@)),
            join_user_path_spec(root_path@, clean_path(dst_dir@)),
        ) {
            (Some(s), Some(d)) => r matches Ok((a, b)) && a@ == s && b@ == d,
            _ => r matches Err(e) && e.code == 403 && e.message@ == illegal_path_message(),
        },
{
    let allowed = perms.is_admin || (if is_move { perms.move_files } else { perms.copy_files });
    if !allowed {
        if is_move {
            return Err(refuse(403, "没有移动文件的权限"));
        } else {
            return Err(refuse(403, "没有复制文件的权限"));
        }
    }
    let s = fix_and_clean_path(src_dir);
    let d = fix_and_clean_path(dst_dir);
    let src = match join_user_path(root_path, s.as_str()) {
        Ok(p) => p,
        Err(e) => {
            return Err(Refusal { code: 403, message: e });
        },
    };
    let dst = match join_user_path(root_path, d.as_str()) {
        Ok(p) => p,
        Err(e) => {
            return Err(Refusal { code: 403, message: e });
        },
    };
    Ok((src, dst))
}

/// Reads the strategy of a move or copy.
pub fn transfer_strategy(s: Option<&str>) -> (r: ConflictStrategy)
    ensures
        r == transfer_strategy_of(match s { Some(t) => Some(t@), None => None }),
{
    match s {
        Some(t) => if str_eq(t, "overwrite") {
            ConflictStrategy::Overwrite
        } else if str_eq(t, "skip") {
            ConflictStrategy::Skip
        } else {
            ConflictStrategy::AutoRename
        },
        None => ConflictStrategy::AutoRename,
    }
}

/// The name of a move or copy task: the verb and the entry's name for one
/// entry, else the verb and the number of entries.
pub open spec fn transfer_task_name_of(is_move: bool, names: Seq<Seq<char>>) -> Seq<char> {
    let verb = if is_move { "移动 "@ } else { "复制 "@ };
    if names.len() == 1 {
        verb + names[0]
    } else {
        verb + decimal(names.len()) + " 个项目"@
    }
}

/// Names a move or copy task.
pub fn transfer_task_name(is_move: bool, names: &Vec<String>) -> (r: String)
    ensures
        r@ == transfer_task_name_of(is_move, names@.map_values(|n: String| n@)),
{
    let verb = if is_move { chars_of("移动 ") } else { chars_of("复制 ") };
    if names.len() == 1 {
        string_of(&concat_chars(&verb, &chars_of(names[0].as_str())))
    } else {
        let head = concat_chars(&verb, &u64_to_decimal(names.len() as u64));
        string_of(&concat_chars(&head, &chars_of(" 个项目")))
    }
}

/// The path inside the storage mounted at `mount_path` of `full`: what
/// follows the clean mount path's bytes, cleaned, when `full` is longer in
/// bytes; else `fallback`.
pub open spec fn inner_path(full: Seq<char>, mount_path: Seq<char>, fallback: Seq<char>) -> Seq<char> {
    let m = clean_path(mount_path);
    if byte_len_of(full) > byte_len_of(m) { clean_path(byte_tail(full, byte_len_of(m) as int)) } else { fallback }
}

/// `full` is cut after the clean mount path's bytes without splitting a
/// character (where it is cut at all).
pub open spec fn inner_cut_ok(full: Seq<char>, mount_path: Seq<char>) -> bool {
    let m = clean_path(mount_path);
    byte_len_of(full) > byte_len_of(m) ==> cut_at_boundary(full, byte_len_of(m) as int)
}

fn inner_of(full: &str, mount_path: &str, fallback: &str) -> (r: String)
    requires
        inner_cut_ok(full@, mount_path@),
    ensures
        r@ == inner_path(full@, mount_path@, fallback@),
{
    let m = fix_and_clean_path(mount_path);
    let fl = str_byte_len(full);
    let ml = str_byte_len(m.as_str());
    if fl > ml {
        fix_and_clean_path(str_tail(full, ml).as_str())
    } else {
        copy_str(fallback)
    }
}

/// Every entry of a transfer is cut after its storages' mount paths
/// without splitting a character: its source path, and its destination
/// path under the name it is given there.
pub open spec fn transfer_cuts_ok(src_dir: Seq<char>, dst_dir: Seq<char>, names: Seq<Seq<char>>,
    strategy: ConflictStrategy, renamed: Seq<Seq<char>>, src_mount: Seq<char>, dst_mount: Seq<char>) -> bool {
    forall|i: int| 0 <= i < names.len() ==> {
        &&& inner_cut_ok(child_path(src_dir, #[trigger] names[i]), src_mount)
        &&& inner_cut_ok(child_path(dst_dir, if strategy == ConflictStrategy::Overwrite
            || strategy == ConflictStrategy::Skip { names[i] } else { renamed[i] }), dst_mount)
    }
}

/// One entry of a move or copy: its name, its name at the destination, and
/// its paths inside the source and destination storages.
#[derive(Debug)]
pub struct TransferItem {
    pub name: String,
    pub final_name: String,
    pub src_actual: String,
    pub dst_actual: String,
}

pub open spec fn item_view(t: TransferItem) -> (Seq<char>, Seq<char>, Seq<char>, Seq<char>) {
    (t.name@, t.final_name@, t.src_actual@, t.dst_actual@)
}

/// The entries moved or copied and where: each name keeps its name unless
/// conflicts are resolved by renaming (`renamed[i]`), and is left out when
/// conflicts are skipped and the name is taken at the destination.
pub open spec fn transfer_plan_of(
    src_dir: Seq<char>,
    dst_dir: Seq<char>,
    names: Seq<Seq<char>>,
    strategy: ConflictStrategy,
    existing: Seq<Seq<char>>,
    renamed: Seq<Seq<char>>,
    src_mount: Seq<char>,
    dst_mount: Seq<char>,
) -> Seq<(Seq<char>, Seq<char>, Seq<char>, Seq<char>)>
    decreases names.len(),
{
    if names.len() == 0 {
        Seq::empty()
    } else {
        let n = names.len() - 1;
        let rest = transfer_plan_of(src_dir, dst_dir, names.take(n), strategy, existing, renamed, src_mount, dst_mount);
        let name = names[n];
        if strategy == ConflictStrategy::Skip && existing.contains(name) {
            rest
        } else {
            let final_name = if strategy == ConflictStrategy::Overwrite || strategy == ConflictStrategy::Skip {
                name
            } else {
                renamed[n]
            };
            rest.push((
                name,
                final_name,
                inner_path(child_path(src_dir, name), src_mount, seq!['/']),
                inner_path(child_path(dst_dir, final_name), dst_mount, seq!['/'] + final_name),
            ))
        }
    }
}

/// Plans a move or copy of `names` from `src_dir` to `dst_dir`, whose
/// storages are mounted at `src_mount` and `dst_mount`.
pub fn plan_transfer(
    src_dir: &str,
    dst_dir: &str,
    names: &Vec<String>,
    strategy: ConflictStrategy,
    existing: &Vec<String>,
    renamed: &Vec<String>,
    src_mount: &str,
    dst_mount: &str,
) -> (r: Vec<TransferItem>)
    requires
        renamed@.len() == names@.len(),
        transfer_cuts_ok(src_dir@, dst_dir@, names@.map_values(|n: String| n@), strategy,
            renamed@.map_values(|n: String| n@), src_mount@, dst_mount@),
    ensures
        r@.map_values(|t: TransferItem| item_view(t)) == transfer_plan_of(
            src_dir@, dst_dir@, names@.map_values(|n: String| n@), strategy,
            existing@.map_values(|n: String| n@), renamed@.map_values(|n: String| n@), src_mount@, dst_mount@),
{
    let ghost nv = names@.map_values(|n: String| n@);
    let ghost ev = existing@.map_values(|n: String| n@);
    let ghost rv = renamed@.map_values(|n: String| n@);
    let mut out: Vec<TransferItem> = Vec::new();
    let mut i: usize = 0;
    while i < names.len()
        invariant
            i <= names.len(),
            renamed@.len() == names@.len(),
            nv == names@.map_values(|n: String| n@),
            ev == existing@.map_values(|n: String| n@),
            rv == renamed@.map_values(|n: String| n@),
            transfer_cuts_ok(src_dir@, dst_dir@, nv, strategy, rv, src_mount@, dst_mount@),
            out@.map_values(|t: TransferItem| item_view(t))
                == transfer_plan_of(src_dir@, dst_dir@, nv.take(i as int), strategy, ev, rv, src_mount@, dst_mount@),
        decreases names.len() - i,
    {
        let name = names[i].as_str();
        assert(nv.take(i + 1).take(i as int) =~= nv.take(i as int));
        assert(nv.take(i + 1)[i as int] == name@);
        let ghost before = out@.map_values(|t: TransferItem| item_view(t));
        let taken = crate::api::files::upload::names_contain(existing, name);
        assert(taken == ev.contains(nv[i as int]));
        if strategy == ConflictStrategy::Skip && taken {
            assert(out@.map_values(|t: TransferItem| item_view(t))
                == transfer_plan_of(src_dir@, dst_dir@, nv.take(i + 1), strategy, ev, rv, src_mount@, dst_mount@));
        } else {
            let final_name = if strategy == ConflictStrategy::Overwrite || strategy == ConflictStrategy::Skip {
                copy_str(name)
            } else {
                assert(rv[i as int] == renamed@[i as int]@);
                copy_str(renamed[i].as_str())
            };
            let src_full = child_of(src_dir, name);
            let dst_full = child_of(dst_dir, final_name.as_str());
            let slash = vec!['/'];
            assert(slash@ =~= seq!['/']);
            proof { reveal_strlit("/"); }
            let src_actual = inner_of(src_full.as_str(), src_mount, "/");
            let fallback = string_of(&concat_chars(&slash, &chars_of(final_name.as_str())));
            let dst_actual = inner_of(dst_full.as_str(), dst_mount, fallback.as_str());
            let item = TransferItem { name: copy_str(name), final_name, src_actual, dst_actual };
            let ghost iv = item_view(item);
            assert(iv.2 == inner_path(child_path(src_dir@, nv[i as int]), src_mount@, seq!['/']));
            assert(iv.3 == inner_path(child_path(dst_dir@, iv.1), dst_mount@, seq!['/'] + iv.1));
            out.push(item);
            assert(out@.map_values(|t: TransferItem| item_view(t)) =~= before.push(iv));
        }
        i = i + 1;
    }
    assert(nv.take(names.len() as int) =~= nv);
    out
}


/// What the outside work of a move reports: the move may go on with the
/// planned item `index`, or the item `index` was moved within its storage,
/// copied to the other storage, or its source deleted, with whether that
/// succeeded.
#[derive(Debug, Clone, Copy, PartialEq, Eq, Structural)]
pub enum MoveEvent {
    Next { index: usize },
    Moved { index: usize, ok: bool },
    Copied { index: usize, ok: bool },
    Deleted { index: usize, ok: bool },
}

/// What a move does next with its planned items: move the item within its
/// storage, copy it to the other storage, delete its source once copied,
/// stop with a failure, or end.
#[derive(Debug, Clone, Copy, PartialEq, Eq, Structural)]
pub enum MoveAction {
    MoveWithin { index: usize },
    Copy { index: usize },
    DeleteSource { index: usize },
    Fail,
    Done,
}

/// The first action on the planned item `index` of `total`.
pub open spec fn move_item_action(same_storage: bool, total: usize, index: int) -> MoveAction {
    if index >= total {
        MoveAction::Done
    } else if same_storage {
        MoveAction::MoveWithin { index: index as usize }
    } else {
        MoveAction::Copy { index: index as usize }
    }
}

fn item_action(same_storage: bool, total: usize, index: usize) -> (r: MoveAction)
    ensures
        r == move_item_action(same_storage, total, index as int),
{
    if index >= total {
        MoveAction::Done
    } else if same_storage {
        MoveAction::MoveWithin { index }
    } else {
        MoveAction::Copy { index }
    }
}

/// One step of moving `total` planned items between directories, within
/// one storage (`same_storage`) or across two: within a storage each item
/// is moved; across storages each item is copied and, once the copy
/// succeeded, its source deleted. Any failure stops the move: a failed
/// copy deletes nothing and no later item is taken.
pub fn move_step(same_storage: bool, total: usize, event: MoveEvent) -> (r: MoveAction)
    requires
        match event {
            MoveEvent::Next { index } => true,
            MoveEvent::Moved { index, ok } => index < total,
            MoveEvent::Copied { index, ok } => index < total,
            MoveEvent::Deleted { index, ok } => index < total,
        },
    ensures
        match event {
            MoveEvent::Next { index } => r == move_item_action(same_storage, total, index as int),
            MoveEvent::Moved { index, ok } => r == if ok { move_item_action(same_storage, total, index + 1) } else { MoveAction::Fail },
            MoveEvent::Copied { index, ok } => r == if ok { MoveAction::DeleteSource { index } } else { MoveAction::Fail },
            MoveEvent::Deleted { index, ok } => r == if ok { move_item_action(same_storage, total, index + 1) } else { MoveAction::Fail },
        },
        // a source is deleted only right after its own copy succeeded
        r matches MoveAction::DeleteSource { index } ==> event == (MoveEvent::Copied { index, ok: true }),
{
    match event {
        MoveEvent::Next { index } => item_action(same_storage, total, index),
        MoveEvent::Moved { index, ok } => if ok { item_action(same_storage, total, index + 1) } else { MoveAction::Fail },
        MoveEvent::Copied { index, ok } => if ok { MoveAction::DeleteSource { index } } else { MoveAction::Fail },
        MoveEvent::Deleted { index, ok } => if ok { item_action(same_storage, total, index + 1) } else { MoveAction::Fail },
    }
}

} // verus!
