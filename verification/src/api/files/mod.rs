//! File browsing and file operations.

pub mod common;
pub mod download;
pub mod list;
pub mod upload;
pub mod operations;
pub mod copy_move;

use vstd::prelude::*;
use crate::api::file_resolver::MountInfo;
use crate::text::{chars_of, chars_eq, chars_starts_with, is_prefix, sub_chars, string_of, concat_chars,
    trim_start_chars, trim_start_char};
use crate::utils::{fix_and_clean_path, clean_path, lemma_clean_idempotent, add_sep, with_trailing_sep};

verus! {

/// A directory listing request.
#[derive(Debug)]
pub struct FsListReq {
    pub path: Option<String>,
    pub password: Option<String>,
    pub page: Option<i32>,
    pub per_page: Option<i32>,
    pub refresh: Option<bool>,
    pub sort_by: Option<String>,
    pub sort_order: Option<String>,
}

/// One entry of a listing.
#[derive(Debug)]
pub struct FileInfo {
    pub name: String,
    pub size: i64,
    pub is_dir: bool,
    pub modified: String,
    pub created: String,
}

/// A listing answer.
#[derive(Debug)]
pub struct FsListResp {
    pub content: Vec<FileInfo>,
    pub total: i64,
    pub readme: String,
    pub write: bool,
    pub provider: String,
}

/// A directory that exists only because a storage is mounted below it;
/// `driver_id` is set when the directory is itself a mount point.
#[derive(Debug)]
pub struct VirtualDir {
    pub name: String,
    pub driver_id: Option<String>,
}

/// Up to the first `/` (the whole sequence when there is none).
pub open spec fn first_segment(s: Seq<char>) -> Seq<char>
    decreases s.len(),
{
    if s.len() == 0 {
        s
    } else if s[0] == '/' {
        Seq::empty()
    } else {
        seq![s[0]] + first_segment(s.drop_first())
    }
}

/// What a mount contributes to the listing of `path` (clean): when the
/// mount lies below the path (by whole components), the name of the next
/// directory on the way to it and whether that directory is the mount
/// point itself.
pub open spec fn virtual_entry(mount_path: Seq<char>, path: Seq<char>) -> Option<(Seq<char>, bool)> {
    let mp = clean_path(mount_path);
    if is_prefix(add_sep(path), mp) && mp != path {
        let relative = if path == seq!['/'] {
            mp.subrange(1, mp.len() as int)
        } else {
            trim_start_char(mp.subrange(path.len() as int, mp.len() as int), '/')
        };
        let next = first_segment(relative);
        if next.len() > 0 { Some((next, relative == next)) } else { None }
    } else {
        None
    }
}

/// The virtual directories of `path`, by name: a mount point records its
/// storage (the last such mount wins); a mere ancestor of a mount records none.
pub open spec fn virtual_map(mounts: Seq<MountInfo>, path: Seq<char>) -> Map<Seq<char>, Option<Seq<char>>>
    decreases mounts.len(),
{
    if mounts.len() == 0 {
        Map::empty()
    } else {
        let m0 = virtual_map(mounts.drop_last(), path);
        let m = mounts.last();
        match virtual_entry(m.mount_path@, path) {
            None => m0,
            Some(e) => if e.1 {
                m0.insert(e.0, Some(m.id@))
            } else if m0.contains_key(e.0) {
                m0
            } else {
                m0.insert(e.0, None)
            },
        }
    }
}

pub open spec fn vdir_view(d: VirtualDir) -> (Seq<char>, Option<Seq<char>>) {
    (d.name@, match d.driver_id { Some(i) => Some(i@), None => None })
}

/// The entries as a map from name to storage.
pub open spec fn vdirs_map(v: Seq<VirtualDir>) -> Map<Seq<char>, Option<Seq<char>>> {
    Map::new(
        |n: Seq<char>| exists|k: int| 0 <= k < v.len() && (#[trigger] v[k]).name@ == n,
        |n: Seq<char>| vdir_view(v[choose|k: int| 0 <= k < v.len() && (#[trigger] v[k]).name@ == n]).1,
    )
}

pub open spec fn distinct_names(v: Seq<VirtualDir>) -> bool {
    forall|i: int, j: int| 0 <= i < j < v.len() ==> (#[trigger] v[i]).name@ != (#[trigger] v[j]).name@
}

pub fn first_segment_of(s: &Vec<char>) -> (r: Vec<char>)
    ensures
        r@ == first_segment(s@),
{
    let mut i: usize = 0;
    while i < s.len() && s[i] != '/'
        invariant
            i <= s.len(),
            forall|k: int| 0 <= k < i ==> s@[k] != '/',
        decreases s.len() - i,
    {
        i = i + 1;
    }
    proof { lemma_first_segment(s@, i as int); }
    sub_chars(s, 0, i)
}

proof fn lemma_first_segment(s: Seq<char>, i: int)
    requires
        0 <= i <= s.len(),
        forall|k: int| 0 <= k < i ==> s[k] != '/',
        i == s.len() || s[i] == '/',
    ensures
        first_segment(s) == s.subrange(0, i),
    decreases s.len(),
{
    if s.len() == 0 {
    } else if s[0] == '/' {
        assert(i == 0);
    } else {
        let t = s.drop_first();
        assert forall|k: int| 0 <= k < i - 1 implies t[k] != '/' by { assert(t[k] == s[k + 1]); }
        if i < s.len() { assert(t[i - 1] == s[i]); }
        lemma_first_segment(t, i - 1);
        assert(seq![s[0]] + t.subrange(0, i - 1) =~= s.subrange(0, i));
    }
}

/// The directories shown at `path` because storages are mounted below it.
pub fn get_virtual_files_by_path(path: &str, mounts: &[MountInfo]) -> (r: Vec<VirtualDir>)
    ensures
        distinct_names(r@),
        vdirs_map(r@) == virtual_map(mounts@, clean_path(path@)),
{
    let p = fix_and_clean_path(path);
    let pc = chars_of(p.as_str());
    let root = vec!['/'];
    assert(root@ =~= seq!['/']);
    let mut out: Vec<VirtualDir> = Vec::new();
    let mut i: usize = 0;
    while i < mounts.len()
        invariant
            i <= mounts.len(),
            pc@ == clean_path(path@),
            root@ == seq!['/'],
            distinct_names(out@),
            vdirs_map(out@) == virtual_map(mounts@.take(i as int), clean_path(path@)),
        decreases mounts.len() - i,
    {
        assert(mounts@.take((i + 1) as int).drop_last() =~= mounts@.take(i as int));
        assert(mounts@.take((i + 1) as int).last() == mounts@[i as int]);
        let mount = &mounts[i];
        let mp = chars_of(fix_and_clean_path(mount.mount_path.as_str()).as_str());
        if chars_starts_with(&mp, &with_trailing_sep(&pc)) && !chars_eq(&mp, &pc) {
            let relative = if chars_eq(&pc, &root) {
                sub_chars(&mp, 1, mp.len())
            } else {
                trim_start_chars(&sub_chars(&mp, pc.len(), mp.len()), '/')
            };
            let next = first_segment_of(&relative);
            if next.len() > 0 {
                let is_mount_point = chars_eq(&relative, &next);
                let ghost before = out@;
                // find an entry of that name
                let mut j: usize = 0;
                let mut found = false;
                while j < out.len()
                    invariant_except_break
                        !found,
                    invariant
                        j <= out.len(),
                        out@ == before,
                        forall|k: int| 0 <= k < j ==> (#[trigger] out@[k]).name@ != next@,
                    ensures
                        found ==> j < out.len() && out@[j as int].name@ == next@,
                        !found ==> forall|k: int| 0 <= k < out@.len() ==> (#[trigger] out@[k]).name@ != next@,
                    decreases out.len() - j,
                {
                    let nc = chars_of(out[j].name.as_str());
                    if chars_eq(&nc, &next) {
                        found = true;
                        break;
                    }
                    j = j + 1;
                }
                assert(found ==> j < out.len() && out@[j as int].name@ == next@);
                assert(!found ==> forall|k: int| 0 <= k < out@.len() ==> (#[trigger] out@[k]).name@ != next@);
                assert(vdirs_map(before).contains_key(next@) == found) by {
                    if found {
                        assert(before[j as int].name@ == next@);
                    }
                }
                if is_mount_point {
                    let entry = VirtualDir { name: string_of(&next), driver_id: Some(mount.id.clone()) };
                    if found {
                        out.set(j, entry);
                        proof { lemma_vdirs_set(before, j as int, out@); }
                    } else {
                        out.push(entry);
                        proof { lemma_vdirs_push(before, out@); }
                    }
                } else if !found {
                    let entry = VirtualDir { name: string_of(&next), driver_id: None };
                    out.push(entry);
                    proof { lemma_vdirs_push(before, out@); }
                }
            }
        }
        i = i + 1;
    }
    assert(mounts@.take(mounts.len() as int) =~= mounts@);
    out
}

proof fn lemma_vdirs_set(before: Seq<VirtualDir>, j: int, after: Seq<VirtualDir>)
    requires
        distinct_names(before),
        0 <= j < before.len(),
        after.len() == before.len(),
        after[j].name@ == before[j].name@,
        forall|k: int| 0 <= k < before.len() && k != j ==> after[k] == before[k],
    ensures
        distinct_names(after),
        vdirs_map(after) == vdirs_map(before).insert(before[j].name@, vdir_view(after[j]).1),
{
    assert forall|a: int, b: int| 0 <= a < b < after.len() implies (#[trigger] after[a]).name@ != (#[trigger] after[b]).name@ by {
        assert(before[a].name@ != before[b].name@);
    }
    let n = before[j].name@;
    assert(vdirs_map(after).dom() =~= vdirs_map(before).insert(n, vdir_view(after[j]).1).dom()) by {
        assert forall|x: Seq<char>| vdirs_map(after).dom().contains(x) <==> vdirs_map(before).insert(n, vdir_view(after[j]).1).dom().contains(x) by {
            if exists|k: int| 0 <= k < after.len() && (#[trigger] after[k]).name@ == x {
                let k = choose|k: int| 0 <= k < after.len() && (#[trigger] after[k]).name@ == x;
                if k != j { assert(before[k].name@ == x); }
            }
            if exists|k: int| 0 <= k < before.len() && (#[trigger] before[k]).name@ == x {
                let k = choose|k: int| 0 <= k < before.len() && (#[trigger] before[k]).name@ == x;
                if k != j { assert(after[k].name@ == x); }
            }
            if x == n { assert(after[j].name@ == x); }
        }
    }
    assert forall|x: Seq<char>| #[trigger] vdirs_map(after).dom().contains(x) implies vdirs_map(after)[x] == vdirs_map(before).insert(n, vdir_view(after[j]).1)[x] by {
        let ka = choose|k: int| 0 <= k < after.len() && (#[trigger] after[k]).name@ == x;
        if x == n {
            assert(ka == j);
        } else {
            let kb = choose|k: int| 0 <= k < before.len() && (#[trigger] before[k]).name@ == x;
            assert(ka != j);
            assert(after[ka] == before[ka]);
            assert(ka == kb);
        }
    }
    assert(vdirs_map(after) =~= vdirs_map(before).insert(n, vdir_view(after[j]).1));
}

proof fn lemma_vdirs_push(before: Seq<VirtualDir>, after: Seq<VirtualDir>)
    requires
        distinct_names(before),
        after.len() == before.len() + 1,
        forall|k: int| 0 <= k < before.len() ==> after[k] == before[k],
        forall|k: int| 0 <= k < before.len() ==> (#[trigger] before[k]).name@ != after.last().name@,
    ensures
        distinct_names(after),
        vdirs_map(after) == vdirs_map(before).insert(after.last().name@, vdir_view(after.last()).1),
{
    let j = before.len() as int;
    let n = after.last().name@;
    assert forall|a: int, b: int| 0 <= a < b < after.len() implies (#[trigger] after[a]).name@ != (#[trigger] after[b]).name@ by {
        if b < j { assert(before[a].name@ != before[b].name@); } else { assert(after[a] == before[a]); }
    }
    let target = vdirs_map(before).insert(n, vdir_view(after.last()).1);
    assert(vdirs_map(after).dom() =~= target.dom()) by {
        assert forall|x: Seq<char>| vdirs_map(after).dom().contains(x) <==> target.dom().contains(x) by {
            if exists|k: int| 0 <= k < after.len() && (#[trigger] after[k]).name@ == x {
                let k = choose|k: int| 0 <= k < after.len() && (#[trigger] after[k]).name@ == x;
                if k != j { assert(before[k].name@ == x); }
            }
            if exists|k: int| 0 <= k < before.len() && (#[trigger] before[k]).name@ == x {
                let k = choose|k: int| 0 <= k < before.len() && (#[trigger] before[k]).name@ == x;
                assert(after[k].name@ == x);
            }
            if x == n { assert(after[j].name@ == x); }
        }
    }
    assert forall|x: Seq<char>| #[trigger] vdirs_map(after).dom().contains(x) implies vdirs_map(after)[x] == target[x] by {
        let ka = choose|k: int| 0 <= k < after.len() && (#[trigger] after[k]).name@ == x;
        if x == n {
            assert(ka == j);
        } else {
            let kb = choose|k: int| 0 <= k < before.len() && (#[trigger] before[k]).name@ == x;
            assert(ka != j);
            assert(after[ka] == before[ka]);
            assert(ka == kb);
        }
    }
    assert(vdirs_map(after) =~= target);
}

/// The path of the entry `name` in the directory `dir`.
pub open spec fn child_path(dir: Seq<char>, name: Seq<char>) -> Seq<char> {
    if dir == seq!['/'] { seq!['/'] + name } else { dir + seq!['/'] + name }
}

/// Joins a directory and an entry name with one `/`.
pub fn child_of(dir: &str, name: &str) -> (r: String)
    ensures
        r@ == child_path(dir@, name@),
{
    let d = chars_of(dir);
    let root = vec!['/'];
    assert(root@ =~= seq!['/']);
    let n = chars_of(name);
    if chars_eq(&d, &root) {
        string_of(&concat_chars(&root, &n))
    } else {
        string_of(&concat_chars(&concat_chars(&d, &root), &n))
    }
}

} // verus!
