//! The administration of search: its settings, the state of an index,
//! and the rows an index holds for the entries of a directory.

use vstd::prelude::*;
use crate::clock::{parse_rfc3339, rfc3339_instant, rfc3339_text, rfc3339_written};
use crate::text::{chars_of, string_of, concat_chars, copy_str, str_eq, trim_end_chars, trim_end_char};

verus! {

/// The search settings an administrator sets.
#[derive(Debug)]
pub struct SearchSettings {
    pub enabled: bool,
    pub auto_update_index: bool,
    pub ignore_paths: String,
    pub max_index_depth: i32,
}

/// The state of an index.
#[derive(Debug)]
pub struct IndexStatus {
    pub status: String,
    pub object_count: u64,
    pub index_size: u64,
    pub last_updated: Option<String>,
    pub error_message: Option<String>,
}

/// The answer envelope of the search administration.
#[derive(Debug)]
pub struct ApiResponse<T> {
    pub code: i32,
    pub message: String,
    pub data: Option<T>,
}

impl<T> ApiResponse<T> {
    /// Code 200, message `success`, the data.
    pub fn success(data: T) -> (r: Self)
        ensures
            r.code == 200,
            r.message@ == "success"@,
            r.data == Some(data),
    {
        ApiResponse { code: 200, message: String::from_str("success"), data: Some(data) }
    }

    /// Code 500, the message, no data.
    pub fn error(message: &str) -> (r: Self)
        ensures
            r.code == 500,
            r.message@ == message@,
            r.data.is_none(),
    {
        ApiResponse { code: 500, message: String::from_str(message), data: None }
    }
}

/// What the state of the index reads of one storage's index.
#[derive(Debug)]
pub struct DriverIndexStats {
    pub file_count: u64,
    pub dir_count: u64,
    pub last_updated: Option<i64>,
}

/// The files of all storages' indexes.
pub open spec fn files_total(s: Seq<DriverIndexStats>) -> int
    decreases s.len(),
{
    if s.len() == 0 { 0 } else { files_total(s.drop_last()) + s.last().file_count }
}

/// The directories of all storages' indexes.
pub open spec fn dirs_total(s: Seq<DriverIndexStats>) -> int
    decreases s.len(),
{
    if s.len() == 0 { 0 } else { dirs_total(s.drop_last()) + s.last().dir_count }
}

/// The latest update of any storage's index.
pub open spec fn latest_update(s: Seq<DriverIndexStats>) -> Option<i64>
    decreases s.len(),
{
    if s.len() == 0 {
        None
    } else {
        match (latest_update(s.drop_last()), s.last().last_updated) {
            (Some(a), Some(b)) => Some(if a < b { b } else { a }),
            (Some(a), None) => Some(a),
            (None, b) => b,
        }
    }
}

proof fn lemma_totals_grow(s: Seq<DriverIndexStats>, i: int)
    requires
        0 <= i <= s.len(),
    ensures
        files_total(s.take(i)) <= files_total(s),
        dirs_total(s.take(i)) <= dirs_total(s),
        files_total(s.take(i)) >= 0,
        dirs_total(s.take(i)) >= 0,
    decreases s.len() - i,
{
    if i < s.len() {
        lemma_totals_grow(s, i + 1);
        assert(s.take(i + 1).drop_last() =~= s.take(i));
        lemma_totals_nonneg(s.take(i));
    } else {
        assert(s.take(i) =~= s);
        lemma_totals_nonneg(s);
    }
}

proof fn lemma_totals_nonneg(s: Seq<DriverIndexStats>)
    ensures
        files_total(s) >= 0,
        dirs_total(s) >= 0,
    decreases s.len(),
{
    if s.len() > 0 {
        lemma_totals_nonneg(s.drop_last());
    }
}

/// Sums the files and directories of all storages' indexes and finds the
/// latest update.
pub fn index_totals(stats: &Vec<DriverIndexStats>) -> (r: (u64, u64, Option<i64>))
    requires
        files_total(stats@) <= u64::MAX,
        dirs_total(stats@) <= u64::MAX,
    ensures
        r.0 == files_total(stats@),
        r.1 == dirs_total(stats@),
        r.2 == latest_update(stats@),
{
    let mut files: u64 = 0;
    let mut dirs: u64 = 0;
    let mut latest: Option<i64> = None;
    let mut i: usize = 0;
    assert(stats@.take(0) =~= Seq::<DriverIndexStats>::empty());
    while i < stats.len()
        invariant
            i <= stats.len(),
            files_total(stats@) <= u64::MAX,
            dirs_total(stats@) <= u64::MAX,
            files == files_total(stats@.take(i as int)),
            dirs == dirs_total(stats@.take(i as int)),
            latest == latest_update(stats@.take(i as int)),
        decreases stats.len() - i,
    {
        assert(stats@.take(i + 1).drop_last() =~= stats@.take(i as int));
        proof { lemma_totals_grow(stats@, i + 1); }
        let s = &stats[i];
        files = files + s.file_count;
        dirs = dirs + s.dir_count;
        latest = match (latest, s.last_updated) {
            (Some(a), Some(b)) => Some(if a < b { b } else { a }),
            (Some(a), None) => Some(a),
            (None, b) => b,
        };
        i = i + 1;
    }
    assert(stats@.take(stats.len() as int) =~= stats@);
    (files, dirs, latest)
}

/// The state of the index: being built, failed, never built, or idle.
pub open spec fn index_label(running: bool, has_error: bool, has_index: bool) -> Seq<char> {
    if running { "indexing"@ } else if has_error { "error"@ } else if !has_index { "not_built"@ } else { "idle"@ }
}

/// The state of the index as shown to an administrator: while it is being
/// built, the live count and no update time; else the count of the stored
/// indexes and their latest update written in RFC 3339 (empty when it
/// cannot be written).
pub fn get_index_status(running: bool, progress_count: u64, error: Option<String>, has_index: bool,
    index_size: u64, stats: &Vec<DriverIndexStats>) -> (r: IndexStatus)
    requires
        files_total(stats@) + dirs_total(stats@) <= u64::MAX,
    ensures
        r.status@ == index_label(running, error is Some, has_index),
        r.object_count == (if running { progress_count as int } else { files_total(stats@) + dirs_total(stats@) }),
        r.index_size == index_size,
        running ==> r.last_updated is None,
        !running ==> (match latest_update(stats@) {
            None => r.last_updated is None,
            Some(ts) => r.last_updated matches Some(t) && t@ == (match rfc3339_written(ts, 0) {
                Some(w) => w,
                None => Seq::empty(),
            }),
        }),
        r.error_message == error,
{
    proof { lemma_totals_nonneg(stats@); }
    let (files, dirs, latest) = index_totals(stats);
    let label = if running {
        "indexing"
    } else if error.is_some() {
        "error"
    } else if !has_index {
        "not_built"
    } else {
        "idle"
    };
    let object_count = if running { progress_count } else { files + dirs };
    let last_updated = if running {
        None
    } else {
        match latest {
            None => None,
            Some(ts) => match rfc3339_text(ts, 0) {
                Some(t) => Some(t),
                None => Some(String::new()),
            },
        }
    };
    IndexStatus { status: copy_str(label), object_count, index_size, last_updated, error_message: error }
}

/// One row of a storage's index: the entry's full path (the mount path
/// without trailing slashes, then its path in the storage), its name,
/// whether it is a directory, its size and its modification time in
/// seconds (0 when it has none or it is not RFC 3339).
#[derive(Debug)]
pub struct IndexRow {
    pub path: String,
    pub name: String,
    pub is_dir: bool,
    pub size: i64,
    pub modified: i64,
}

/// The path in the storage of an entry named `name` in directory `dir`.
pub open spec fn entry_path(dir: Seq<char>, name: Seq<char>) -> Seq<char> {
    if dir == "/"@ { seq!['/'] + name } else { dir + seq!['/'] + name }
}

/// The modification time in seconds of an entry's date text.
pub open spec fn modified_secs(modified: Option<Seq<char>>) -> i64 {
    match modified {
        Some(m) => match rfc3339_instant(m) {
            Some(t) => t.0,
            None => 0,
        },
        None => 0,
    }
}

/// The index row of an entry of directory `dir` of a storage mounted at
/// `mount_path`.
pub fn index_row(mount_path: &str, dir: &str, name: &str, is_dir: bool, size: u64, modified: Option<&str>)
    -> (r: IndexRow)
    ensures
        r.path@ == trim_end_char(mount_path@, '/') + entry_path(dir@, name@),
        r.name@ == name@,
        r.is_dir == is_dir,
        r.size == size as i64,
        r.modified == modified_secs(match modified { Some(m) => Some(m@), None => None }),
{
    proof { reveal_strlit("/"); }
    let file_path = if str_eq(dir, "/") {
        let p = vec!['/'];
        concat_chars(&p, &chars_of(name))
    } else {
        let mut p = chars_of(dir);
        p.push('/');
        concat_chars(&p, &chars_of(name))
    };
    let full = concat_chars(&trim_end_chars(&chars_of(mount_path), '/'), &file_path);
    let ts = match modified {
        Some(m) => match parse_rfc3339(m) {
            Some(t) => t.0,
            None => 0,
        },
        None => 0,
    };
    IndexRow { path: string_of(&full), name: copy_str(name), is_dir, size: size as i64, modified: ts }
}

} // verus!
