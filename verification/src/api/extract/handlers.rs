//! Decisions of the extraction request: which archives can be extracted,
//! where the files go.

use vstd::prelude::*;
use super::types::{ArchiveFormat, MountInfo};
use crate::api::{Refusal, refuse};
use crate::utils::{fix_and_clean_path, clean_path, is_sub_path, is_sub_path_spec, add_sep, lemma_clean_idempotent};
use crate::api::files::list::{parent_of, split_parent};
use super::utils::{ends_with_lit, equals_lit};
use crate::api::archive::{after_last};
use crate::text::{chars_of, is_suffix, lowercase, to_lowercase, string_of, sub_chars, trim_end_chars,
    trim_end_char, concat_chars, is_prefix, byte_len_of, byte_tail, str_tail, str_byte_len, lemma_prefix_cut};

verus! {

/// The format of an archive to extract, by the ending of its (lowercased)
/// name.
pub open spec fn extract_format(lower: Seq<char>) -> Option<ArchiveFormat> {
    if is_suffix(".tar.gz"@, lower) || is_suffix(".tgz"@, lower) {
        Some(ArchiveFormat::TarGz)
    } else if is_suffix(".tar.bz2"@, lower) || is_suffix(".tbz2"@, lower) {
        Some(ArchiveFormat::TarBz2)
    } else {
        let ext = after_last(lower, '.');
        if ext == "zip"@ || ext == "jar"@ || ext == "war"@ || ext == "apk"@ || ext == "ipa"@
            || ext == "epub"@ || ext == "zipx"@ {
            Some(ArchiveFormat::Zip)
        } else if ext == "tar"@ {
            Some(ArchiveFormat::Tar)
        } else if ext == "7z"@ {
            Some(ArchiveFormat::SevenZip)
        } else {
            None
        }
    }
}

/// The format of an archive to extract, by its name (case ignored).
pub fn get_archive_format(filename: &str) -> (r: Option<ArchiveFormat>)
    ensures
        r == extract_format(lowercase(filename@)),
{
    let lower = chars_of(to_lowercase(filename).as_str());
    if ends_with_lit(&lower, ".tar.gz") || ends_with_lit(&lower, ".tgz") {
        return Some(ArchiveFormat::TarGz);
    }
    if ends_with_lit(&lower, ".tar.bz2") || ends_with_lit(&lower, ".tbz2") {
        return Some(ArchiveFormat::TarBz2);
    }
    let ext = crate::api::archive::after_last_of(&lower, '.');
    if equals_lit(&ext, "zip") || equals_lit(&ext, "jar") || equals_lit(&ext, "war") || equals_lit(&ext, "apk")
        || equals_lit(&ext, "ipa") || equals_lit(&ext, "epub") || equals_lit(&ext, "zipx") {
        Some(ArchiveFormat::Zip)
    } else if equals_lit(&ext, "tar") {
        Some(ArchiveFormat::Tar)
    } else if equals_lit(&ext, "7z") {
        Some(ArchiveFormat::SevenZip)
    } else {
        None
    }
}

/// The text before the last `.` (all of it when there is none).
pub open spec fn before_last_dot(s: Seq<char>) -> Seq<char> {
    let ext = after_last(s, '.');
    if ext.len() < s.len() { s.subrange(0, s.len() - ext.len() - 1) } else { s }
}

/// The name of an archive without its last extension, used for the new
/// directory an archive can be extracted into.
pub fn archive_base_name(filename: &str) -> (r: String)
    ensures
        r@ == before_last_dot(filename@),
{
    let v = chars_of(filename);
    let ext = crate::api::archive::after_last_of(&v, '.');
    proof { crate::api::archive::lemma_after_last_len(v@, '.'); }
    if ext.len() < v.len() {
        string_of(&sub_chars(&v, 0, v.len() - ext.len() - 1))
    } else {
        string_of(&v)
    }
}

/// The directory the files are written to: a new directory named after the
/// archive inside the target, or the target itself.
pub open spec fn extract_destination(dst: Seq<char>, archive_name: Seq<char>, put_into_new_dir: bool) -> Seq<char> {
    if put_into_new_dir { trim_end_char(dst, '/') + seq!['/'] + archive_name } else { dst }
}

/// Where the files of an extraction are written.
pub fn extract_base_path(dst_path: &str, archive_name: &str, put_into_new_dir: bool) -> (r: String)
    ensures
        r@ == extract_destination(dst_path@, archive_name@, put_into_new_dir),
{
    let d = chars_of(dst_path);
    if put_into_new_dir {
        let mut t = trim_end_chars(&d, '/');
        t.push('/');
        let a = chars_of(archive_name);
        string_of(&concat_chars(&t, &a))
    } else {
        string_of(&d)
    }
}

/// The mount with the longest mount path that holds `path` (the first one
/// among equals), as a position in the list.
pub open spec fn storage_index(mounts: Seq<MountInfo>, path: Seq<char>) -> Option<int>
    decreases mounts.len(),
{
    if mounts.len() == 0 {
        None
    } else {
        let prev = storage_index(mounts.drop_last(), path);
        let m = mounts.last();
        let mp = clean_path(m.mount_path@);
        let best_len: int = match prev { Some(i) => clean_path(mounts[i].mount_path@).len() as int, None => 0 };
        if is_sub_path_spec(mp, path) && mp.len() > best_len { Some(mounts.len() - 1) } else { prev }
    }
}

proof fn lemma_storage_index_bound(mounts: Seq<MountInfo>, path: Seq<char>)
    ensures
        storage_index(mounts, path) matches Some(k) ==> 0 <= k < mounts.len(),
    decreases mounts.len(),
{
    if mounts.len() > 0 {
        lemma_storage_index_bound(mounts.drop_last(), path);
    }
}

fn storage_for_path(path: &str, mounts: &[MountInfo]) -> (r: Option<usize>)
    ensures
        match storage_index(mounts@, path@) {
            Some(i) => r == Some(i as usize),
            None => r is None,
        },
{
    let mut best: Option<usize> = None;
    let mut best_len: usize = 0;
    let mut i: usize = 0;
    while i < mounts.len()
        invariant
            i <= mounts.len(),
            match storage_index(mounts@.take(i as int), path@) {
                Some(k) => best == Some(k as usize) && k < i
                    && best_len == clean_path(mounts@[k].mount_path@).len(),
                None => best is None && best_len == 0,
            },
        decreases mounts.len() - i,
    {
        assert(mounts@.take((i + 1) as int).drop_last() =~= mounts@.take(i as int));
        assert(mounts@.take((i + 1) as int).last() == mounts@[i as int]);
        let mp = fix_and_clean_path(mounts[i].mount_path.as_str());
        let l = chars_of(mp.as_str()).len();
        proof {
            lemma_storage_index_bound(mounts@.take(i as int), path@);
            lemma_storage_index_bound(mounts@.take((i + 1) as int), path@);
        }
        if is_sub_path(mp.as_str(), path) && l > best_len {
            best = Some(i);
            best_len = l;
        }
        i = i + 1;
    }
    assert(mounts@.take(mounts.len() as int) =~= mounts@);
    best
}

/// The path inside the storage mounted at `mount_path` of `full`: what
/// follows the clean mount path's bytes, cleaned, when `full` is longer in
/// bytes; else the storage's root.
pub open spec fn path_in_mount(full: Seq<char>, mount_path: Seq<char>) -> Seq<char> {
    let m = clean_path(mount_path);
    if byte_len_of(full) > byte_len_of(m) { clean_path(byte_tail(full, byte_len_of(m) as int)) } else { seq!['/'] }
}

proof fn lemma_storage_index_holds(mounts: Seq<MountInfo>, path: Seq<char>)
    ensures
        storage_index(mounts, path) matches Some(k) ==> 0 <= k < mounts.len()
            && is_sub_path_spec(clean_path(mounts[k].mount_path@), path),
    decreases mounts.len(),
{
    if mounts.len() > 0 {
        lemma_storage_index_holds(mounts.drop_last(), path);
        if let Some(k) = storage_index(mounts.drop_last(), path) {
            assert(mounts.drop_last()[k] == mounts[k]);
        }
    }
}

/// A clean path at or below a clean mount path begins with it.
proof fn lemma_sub_path_prefix(m: Seq<char>, q: Seq<char>)
    requires
        clean_path(m) == m,
        clean_path(q) == q,
        is_sub_path_spec(m, q),
    ensures
        is_prefix(m, q),
{
    if m == q {
        assert(q.subrange(0, m.len() as int) =~= m);
    } else {
        let a = add_sep(m);
        assert(is_prefix(a, q));
        if !(m.len() > 0 && m.last() == '/') {
            assert(q.subrange(0, m.len() as int) =~= a.subrange(0, m.len() as int));
            assert(a.subrange(0, m.len() as int) =~= m);
        }
    }
}

fn in_mount(full: &str, mount_path: &str) -> (r: String)
    requires
        clean_path(full@) == full@,
        is_sub_path_spec(clean_path(mount_path@), full@),
    ensures
        r@ == path_in_mount(full@, mount_path@),
{
    let m = fix_and_clean_path(mount_path);
    proof {
        lemma_clean_idempotent(mount_path@);
        lemma_sub_path_prefix(m@, full@);
        lemma_prefix_cut(m@, full@);
    }
    let fl = str_byte_len(full);
    let ml = str_byte_len(m.as_str());
    if fl > ml {
        fix_and_clean_path(str_tail(full, ml).as_str())
    } else {
        let root = vec!['/'];
        assert(root@ =~= seq!['/']);
        string_of(&root)
    }
}

/// An extraction located in the storages.
#[derive(Debug)]
pub struct ExtractPlan {
    pub src_path: String,
    pub dst_path: String,
    pub format: ArchiveFormat,
    pub src_mount: usize,
    pub dst_mount: usize,
    /// The archive's path inside its storage.
    pub src_actual: String,
    /// The directory listed to find the archive, inside its storage.
    pub src_parent: String,
    /// The target directory inside its storage.
    pub dst_actual: String,
    /// The archive's file name.
    pub filename: String,
    pub task_name: String,
}

/// The refusal of an archive whose name no supported format has.
pub open spec fn unsupported_format_message() -> Seq<char> {
    "不支持的压缩格式，支持: zip, tar, tar.gz, tgz, tar.bz2, 7z"@
}

/// Locates an extraction: refused (403) without the extract permission,
/// (400) when the archive's name has no supported format, (404) when no
/// storage holds the archive or the target; otherwise the storages (by
/// position), the inner paths, and the task name
/// `解压 <archive name> 到 <target>`.
pub fn plan_extraction(extract_files: bool, src_path: &str, dst_path: &str, mounts: &[MountInfo]) -> (r: Result<ExtractPlan, Refusal>)
    ensures
        ({
            let src = clean_path(src_path@);
            let dst = clean_path(dst_path@);
            let name = after_last(src, '/');
            if !extract_files {
                r matches Err(e) && e.code == 403 && e.message@ == "没有解压缩权限"@
            } else if extract_format(lowercase(name)) is None {
                r matches Err(e) && e.code == 400 && e.message@ == unsupported_format_message()
            } else if storage_index(mounts@, src) is None {
                r matches Err(e) && e.code == 404 && e.message@ == "未找到源文件的挂载点"@
            } else if storage_index(mounts@, dst) is None {
                r matches Err(e) && e.code == 404 && e.message@ == "未找到目标目录的挂载点"@
            } else {
                let si = storage_index(mounts@, src)->0;
                let di = storage_index(mounts@, dst)->0;
                let sa = path_in_mount(src, mounts@[si].mount_path@);
                r matches Ok(p) && {
                    &&& p.src_path@ == src
                    &&& p.dst_path@ == dst
                    &&& Some(p.format) == extract_format(lowercase(name))
                    &&& p.src_mount == si
                    &&& p.dst_mount == di
                    &&& p.src_actual@ == sa
                    &&& p.src_parent@ == parent_of(sa)
                    &&& p.dst_actual@ == path_in_mount(dst, mounts@[di].mount_path@)
                    &&& p.filename@ == name
                    &&& p.task_name@ == "解压 "@ + name + " 到 "@ + dst
                }
            }
        }),
{
    let src = fix_and_clean_path(src_path);
    let dst = fix_and_clean_path(dst_path);
    if !extract_files {
        return Err(refuse(403, "没有解压缩权限"));
    }
    let name = string_of(&crate::api::archive::after_last_of(&chars_of(src.as_str()), '/'));
    let format = match get_archive_format(name.as_str()) {
        Some(f) => f,
        None => {
            return Err(refuse(400, "不支持的压缩格式，支持: zip, tar, tar.gz, tgz, tar.bz2, 7z"));
        },
    };
    let si = match storage_for_path(src.as_str(), mounts) {
        Some(i) => i,
        None => {
            return Err(refuse(404, "未找到源文件的挂载点"));
        },
    };
    let di = match storage_for_path(dst.as_str(), mounts) {
        Some(i) => i,
        None => {
            return Err(refuse(404, "未找到目标目录的挂载点"));
        },
    };
    proof {
        lemma_storage_index_bound(mounts@, src@);
        lemma_storage_index_bound(mounts@, dst@);
        lemma_storage_index_holds(mounts@, src@);
        lemma_storage_index_holds(mounts@, dst@);
        lemma_clean_idempotent(src_path@);
        lemma_clean_idempotent(dst_path@);
    }
    let src_actual = in_mount(src.as_str(), mounts[si].mount_path.as_str());
    let (src_parent, _) = split_parent(src_actual.as_str());
    let dst_actual = in_mount(dst.as_str(), mounts[di].mount_path.as_str());
    let a = concat_chars(&chars_of("解压 "), &chars_of(name.as_str()));
    let b = concat_chars(&a, &chars_of(" 到 "));
    let task_name = string_of(&concat_chars(&b, &chars_of(dst.as_str())));
    Ok(ExtractPlan {
        src_path: src,
        dst_path: dst,
        format,
        src_mount: si,
        dst_mount: di,
        src_actual,
        src_parent,
        dst_actual,
        filename: name,
        task_name,
    })
}

} // verus!
