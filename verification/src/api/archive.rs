//! Listing the content of a ZIP archive from its central directory alone:
//! locating the end-of-central-directory record (also in ZIP64 form),
//! reading the entry names and building one directory level of the listing.

use vstd::prelude::*;
use crate::api::{Refusal, refuse};
use crate::bytes::{le_value, read_le, sig_at, last_sig, last_sig_pos};
use crate::encoding::{decode_bytes, decoded_text, utf8_text, TextEncoding, encoding_code};
use crate::text::{chars_of, chars_eq, chars_starts_with, chars_contains, is_prefix, string_of,
    sub_chars, trim_end_chars, trim_end_char, trim_start_chars, trim_start_char, concat_chars,
    to_lowercase, lowercase, lex_lt, chars_lt, lemma_lex_lt_total, lemma_lex_not_lt_transitive};
use crate::api::files::{first_segment, first_segment_of};
use crate::utils::{fix_and_clean_path, clean_path, is_sub_path, is_sub_path_spec, lemma_clean_idempotent};

verus! {

/// A request to list a directory inside an archive.
#[derive(Debug)]
pub struct ArchiveListRequest {
    pub path: String,
    pub inner_path: String,
}

/// One entry of an archive listing.
#[derive(Debug)]
pub struct ArchiveEntry {
    pub name: String,
    pub path: String,
    pub is_dir: bool,
}

/// A storage and its mount path.
#[derive(Debug)]
pub struct MountInfo {
    pub id: String,
    pub mount_path: String,
}

/// The text after the last `c` (all of it when there is none).
pub open spec fn after_last(s: Seq<char>, c: char) -> Seq<char>
    decreases s.len(),
{
    if s.len() == 0 {
        s
    } else if s.last() == c {
        Seq::empty()
    } else {
        after_last(s.drop_last(), c).push(s.last())
    }
}

pub fn after_last_of(s: &Vec<char>, c: char) -> (r: Vec<char>)
    ensures
        r@ == after_last(s@, c),
{
    let mut i: usize = s.len();
    while i > 0 && s[i - 1] != c
        invariant
            i <= s.len(),
            forall|k: int| i <= k < s.len() ==> s@[k] != c,
        decreases i,
    {
        i = i - 1;
    }
    proof { lemma_after_last(s@, c, i as int); }
    sub_chars(s, i, s.len())
}

proof fn lemma_after_last(s: Seq<char>, c: char, i: int)
    requires
        0 <= i <= s.len(),
        forall|k: int| i <= k < s.len() ==> s[k] != c,
        i == 0 || s[i - 1] == c,
    ensures
        after_last(s, c) == s.subrange(i, s.len() as int),
    decreases s.len(),
{
    if s.len() == 0 {
    } else if s.last() == c {
        assert(i == s.len());
    } else {
        lemma_after_last(s.drop_last(), c, i);
        assert(s.drop_last().subrange(i, s.len() - 1).push(s.last()) =~= s.subrange(i, s.len() as int));
    }
}

pub proof fn lemma_after_last_len(s: Seq<char>, c: char)
    ensures
        after_last(s, c).len() <= s.len(),
        after_last(s, c).len() < s.len() ==> s[s.len() - after_last(s, c).len() - 1] == c,
        after_last(s, c) == s.subrange(s.len() - after_last(s, c).len(), s.len() as int),
    decreases s.len(),
{
    if s.len() > 0 && s.last() != c {
        lemma_after_last_len(s.drop_last(), c);
        let a = after_last(s.drop_last(), c);
        assert(s.drop_last().subrange(s.len() - 1 - a.len(), s.len() - 1).push(s.last()) =~= s.subrange(s.len() - a.len() - 1, s.len() as int));
        if a.len() < s.len() - 1 {
            assert(s[s.len() - a.len() - 2] == s.drop_last()[s.len() - 1 - a.len() - 1]);
        }
    } else if s.len() > 0 {
        assert(s.subrange(s.len() as int, s.len() as int) =~= Seq::<char>::empty());
    }
}

/// The archive kind that can be listed: ZIP and formats built on it.
pub open spec fn archive_kind(ext_lower: Seq<char>) -> Option<Seq<char>> {
    if ext_lower == "zip"@ || ext_lower == "jar"@ || ext_lower == "war"@ || ext_lower == "apk"@
        || ext_lower == "ipa"@ || ext_lower == "epub"@ {
        Some("zip"@)
    } else {
        None
    }
}

/// The refusal of a file that is no supported archive.
pub open spec fn unsupported_archive_message() -> Seq<char> {
    "不支持的压缩格式，目前仅支持 ZIP"@
}

/// The archive kind of the file at `path`, from the extension of its last
/// segment; a file of no supported kind is refused (400).
pub fn archive_format_of_path(path: &str) -> (r: Result<&'static str, Refusal>)
    ensures
        match archive_kind(lowercase(after_last(after_last(path@, '/'), '.'))) {
            Some(k) => r matches Ok(x) && x@ == k,
            None => r matches Err(e) && e.code == 400 && e.message@ == unsupported_archive_message(),
        },
{
    let name = string_of(&after_last_of(&chars_of(path), '/'));
    match get_archive_format(name.as_str()) {
        Some(f) => Ok(f),
        None => Err(refuse(400, "不支持的压缩格式，目前仅支持 ZIP")),
    }
}

/// The archive kind of a lowercased extension.
pub fn archive_kind_of_extension(ext_lower: &str) -> (r: Option<&'static str>)
    ensures
        match archive_kind(ext_lower@) {
            Some(k) => r matches Some(x) && x@ == k,
            None => r is None,
        },
{
    let e = chars_of(ext_lower);
    if str_is(&e, "zip") || str_is(&e, "jar") || str_is(&e, "war") || str_is(&e, "apk")
        || str_is(&e, "ipa") || str_is(&e, "epub") {
        Some("zip")
    } else {
        None
    }
}

fn str_is(v: &Vec<char>, lit: &str) -> (r: bool)
    ensures
        r == (v@ == lit@),
{
    let l = chars_of(lit);
    chars_eq(v, &l)
}

/// The archive kind of a file name, from its extension (case ignored).
pub fn get_archive_format(filename: &str) -> (r: Option<&'static str>)
    ensures
        match archive_kind(lowercase(after_last(filename@, '.'))) {
            Some(k) => r matches Some(x) && x@ == k,
            None => r is None,
        },
{
    let name = chars_of(filename);
    let ext = string_of(&after_last_of(&name, '.'));
    let lower = to_lowercase(ext.as_str());
    archive_kind_of_extension(lower.as_str())
}

/// The mount with the longest mount path that holds `path` (the first one
/// among equals), as a position in the list.
pub open spec fn best_mount_index(mounts: Seq<MountInfo>, path: Seq<char>) -> Option<int>
    decreases mounts.len(),
{
    if mounts.len() == 0 {
        None
    } else {
        let prev = best_mount_index(mounts.drop_last(), path);
        let m = mounts.last();
        let mp = clean_path(m.mount_path@);
        let best_len: int = match prev { Some(i) => clean_path(mounts[i].mount_path@).len() as int, None => 0 };
        if is_sub_path_spec(mp, path) && mp.len() > best_len { Some(mounts.len() - 1) } else { prev }
    }
}

proof fn lemma_best_mount_index_bound(mounts: Seq<MountInfo>, path: Seq<char>)
    ensures
        best_mount_index(mounts, path) matches Some(k) ==> 0 <= k < mounts.len(),
    decreases mounts.len(),
{
    if mounts.len() > 0 {
        lemma_best_mount_index_bound(mounts.drop_last(), path);
    }
}

/// The storage whose mount path is the longest one holding `path`.
pub fn get_storage_by_path<'a>(path: &str, mounts: &'a [MountInfo]) -> (r: Option<&'a MountInfo>)
    ensures
        match best_mount_index(mounts@, path@) {
            Some(i) => r matches Some(m) && *m == mounts@[i],
            None => r is None,
        },
{
    let mut best: Option<usize> = None;
    let mut best_len: usize = 0;
    let mut i: usize = 0;
    while i < mounts.len()
        invariant
            i <= mounts.len(),
            match best_mount_index(mounts@.take(i as int), path@) {
                Some(k) => best == Some(k as usize) && k < i
                    && best_len == clean_path(mounts@[k].mount_path@).len(),
                None => best is None && best_len == 0,
            },
        decreases mounts.len() - i,
    {
        assert(mounts@.take((i + 1) as int).drop_last() =~= mounts@.take(i as int));
        assert(mounts@.take((i + 1) as int).last() == mounts@[i as int]);
        let mp = fix_and_clean_path(mounts[i].mount_path.as_str());
        let l = chars_of(mp.as_str()).len();
        proof {
            lemma_best_mount_index_bound(mounts@.take(i as int), path@);
            lemma_best_mount_index_bound(mounts@.take((i + 1) as int), path@);
        }
        if is_sub_path(mp.as_str(), path) && l > best_len {
            best = Some(i);
            best_len = l;
        }
        i = i + 1;
    }
    assert(mounts@.take(mounts.len() as int) =~= mounts@);
    proof { lemma_best_mount_index_bound(mounts@, path@); }
    match best {
        Some(k) => Some(&mounts[k]),
        None => None,
    }
}


/// Why an archive cannot be listed.
#[derive(Debug, Clone, Copy, PartialEq, Eq)]
pub enum ZipError {
    /// No end-of-central-directory record in the tail of the file.
    NoEndRecord,
    /// The record is cut off.
    TruncatedEndRecord,
}

/// Where the central directory lies, and where a ZIP64 end record that
/// overrides it lies, when the archive says it has one.
#[derive(Debug, Clone, Copy)]
pub struct CentralDirectory {
    pub size: u64,
    pub offset: u64,
    pub zip64_end_offset: Option<u64>,
}

pub open spec fn end_record_sig() -> Seq<u8> {
    seq![0x50u8, 0x4bu8, 0x05u8, 0x06u8]
}

pub open spec fn zip64_locator_sig() -> Seq<u8> {
    seq![0x50u8, 0x4bu8, 0x06u8, 0x07u8]
}

pub open spec fn zip64_end_sig() -> Seq<u8> {
    seq![0x50u8, 0x4bu8, 0x06u8, 0x06u8]
}

/// The little-endian field of `n` bytes at `pos`.
pub open spec fn field(d: Seq<u8>, pos: int, n: int) -> nat {
    le_value(d.subrange(pos, pos + n))
}

/// The central directory that the tail of an archive describes.
pub open spec fn central_directory_spec(tail: Seq<u8>) -> Result<(u64, u64, Option<u64>), ZipError> {
    match last_sig(tail, end_record_sig()) {
        None => Err(ZipError::NoEndRecord),
        Some(p) => if tail.len() < p + 22 {
            Err(ZipError::TruncatedEndRecord)
        } else {
            let size = field(tail, p + 12, 4);
            let offset = field(tail, p + 16, 4);
            let zip64 = if size == 0xFFFF_FFFF || offset == 0xFFFF_FFFF {
                match last_sig(tail, zip64_locator_sig()) {
                    Some(l) => if l + 20 <= tail.len() { Some(field(tail, l + 8, 8) as u64) } else { None },
                    None => None,
                }
            } else {
                None
            };
            Ok((size as u64, offset as u64, zip64))
        },
    }
}

/// Where to look for the end record: the last 64 KiB of the file (all of
/// a smaller file), as the first byte to read.
pub fn end_record_search_start(file_size: u64) -> (r: u64)
    ensures
        r == if file_size <= 65536 { 0 } else { file_size - 65536 },
{
    let n: u64 = if 65536 < file_size { 65536 } else { file_size };
    file_size - n
}

/// Reads the end-of-central-directory record in the tail of an archive.
pub fn locate_central_directory(tail: &[u8]) -> (r: Result<CentralDirectory, ZipError>)
    ensures
        match central_directory_spec(tail@) {
            Ok(t) => r matches Ok(d) && d.size == t.0 && d.offset == t.1 && d.zip64_end_offset == t.2,
            Err(e) => r == Err::<CentralDirectory, ZipError>(e),
        },
{
    let sig: [u8; 4] = [0x50, 0x4b, 0x05, 0x06];
    assert(sig@ =~= end_record_sig());
    let p = match last_sig_pos(tail, sig) {
        Some(p) => p,
        None => {
            return Err(ZipError::NoEndRecord);
        },
    };
    if tail.len() - p < 22 {
        return Err(ZipError::TruncatedEndRecord);
    }
    let size = read_le(tail, p + 12, 4);
    let offset = read_le(tail, p + 16, 4);
    let mut zip64: Option<u64> = None;
    if size == 0xFFFF_FFFF || offset == 0xFFFF_FFFF {
        let lsig: [u8; 4] = [0x50, 0x4b, 0x06, 0x07];
        assert(lsig@ =~= zip64_locator_sig());
        if let Some(l) = last_sig_pos(tail, lsig) {
            if tail.len() - l >= 20 {
                zip64 = Some(read_le(tail, l + 8, 8));
            }
        }
    }
    Ok(CentralDirectory { size, offset, zip64_end_offset: zip64 })
}

/// The size and offset of the central directory once the ZIP64 end record
/// (read at the offset the locator gave) is taken into account: its values
/// when the record is whole and signed, else the ones of the plain record.
pub fn apply_zip64_end_record(dir: CentralDirectory, record: &[u8]) -> (r: (u64, u64))
    ensures
        r == if record@.len() >= 56 && record@.subrange(0, 4) == zip64_end_sig() {
            (field(record@, 40, 8) as u64, field(record@, 48, 8) as u64)
        } else {
            (dir.size, dir.offset)
        },
{
    if record.len() >= 56 && record[0] == 0x50 && record[1] == 0x4b && record[2] == 0x06 && record[3] == 0x06 {
        assert(record@.subrange(0, 4) =~= zip64_end_sig());
        (read_le(record, 40, 8), read_le(record, 48, 8))
    } else {
        proof {
            if record@.len() >= 56 && record@.subrange(0, 4) == zip64_end_sig() {
                assert(record@.subrange(0, 4)[0] == record@[0]);
                assert(record@.subrange(0, 4)[1] == record@[1]);
                assert(record@.subrange(0, 4)[2] == record@[2]);
                assert(record@.subrange(0, 4)[3] == record@[3]);
            }
        }
        (dir.size, dir.offset)
    }
}


pub open spec fn central_header_sig() -> Seq<u8> {
    seq![0x50u8, 0x4bu8, 0x01u8, 0x02u8]
}

pub open spec fn remaining(d: Seq<u8>, pos: int) -> int {
    if pos <= d.len() { d.len() - pos } else { 0 }
}

/// The entries of a central directory from `pos` on: each raw name and
/// whether the name ends with `/` (a directory). Reading stops at the first
/// header that is missing or cut off.
pub open spec fn cd_records(d: Seq<u8>, pos: int) -> Seq<(Seq<u8>, bool)>
    decreases remaining(d, pos),
{
    if pos >= 0 && pos + 46 <= d.len() && d.subrange(pos, pos + 4) == central_header_sig() {
        let f = field(d, pos + 28, 2) as int;
        let e = field(d, pos + 30, 2) as int;
        let c = field(d, pos + 32, 2) as int;
        if pos + 46 + f > d.len() {
            Seq::empty()
        } else {
            let name = d.subrange(pos + 46, pos + 46 + f);
            let is_dir = f > 0 && name.last() == 0x2fu8;
            seq![(name, is_dir)] + cd_records(d, pos + 46 + f + e + c)
        }
    } else {
        Seq::empty()
    }
}

/// An entry name as text: UTF-8 when valid, else GBK.
pub open spec fn entry_name_text(b: Seq<u8>) -> Seq<char> {
    if vstd::utf8::valid_utf8(b) { vstd::utf8::decode_utf8(b) } else { decoded_text(1, b) }
}

/// The names (without trailing `/`) and directory flags of the entries.
pub open spec fn cd_names(d: Seq<u8>) -> Seq<(Seq<char>, bool)> {
    cd_records(d, 0).map_values(|r: (Seq<u8>, bool)| (trim_end_char(entry_name_text(r.0), '/'), r.1))
}

fn is_header_at(data: &[u8], pos: usize) -> (r: bool)
    requires
        pos + 46 <= data@.len(),
    ensures
        r == (data@.subrange(pos as int, pos + 4) == central_header_sig()),
{
    let r = data[pos] == 0x50 && data[pos + 1] == 0x4b && data[pos + 2] == 0x01 && data[pos + 3] == 0x02;
    proof {
        let w = data@.subrange(pos as int, pos + 4);
        assert(w[0] == data@[pos as int] && w[1] == data@[pos + 1] && w[2] == data@[pos + 2] && w[3] == data@[pos + 3]);
        if r { assert(w =~= central_header_sig()); }
    }
    r
}

/// The entry name of a raw name: decoded text without trailing `/`.
pub fn entry_name(raw: &[u8]) -> (r: String)
    ensures
        r@ == trim_end_char(entry_name_text(raw@), '/'),
{
    let text = match utf8_text(raw) {
        Some(t) => t,
        None => decode_bytes(TextEncoding::Gbk, raw),
    };
    assert(encoding_code(TextEncoding::Gbk) == 1);
    let v = chars_of(text.as_str());
    string_of(&trim_end_chars(&v, '/'))
}

/// The entry names and directory flags of a central directory.
pub fn central_directory_names(data: &[u8]) -> (r: Vec<(String, bool)>)
    ensures
        r@.len() == cd_records(data@, 0).len(),
        forall|k: int| 0 <= k < r@.len() ==>
            (#[trigger] r@[k]).0@ == trim_end_char(entry_name_text(cd_records(data@, 0)[k].0), '/')
            && r@[k].1 == cd_records(data@, 0)[k].1,
{
    let mut out: Vec<(String, bool)> = Vec::new();
    let mut pos: usize = 0;
    let ghost all = cd_records(data@, 0);
    let ghost mut taken: Seq<(Seq<u8>, bool)> = Seq::empty();
    assert(taken + cd_records(data@, 0) =~= all);
    loop
        invariant_except_break
            taken + cd_records(data@, pos as int) == all,
        invariant
            data@.len() == data.len(),
            pos <= data.len(),
            all == cd_records(data@, 0),
            out@.len() == taken.len(),
            forall|k: int| 0 <= k < out@.len() ==> (#[trigger] out@[k]).0@ == trim_end_char(entry_name_text(taken[k].0), '/')
                && out@[k].1 == taken[k].1,
        ensures
            taken == all,
            out@.len() == taken.len(),
            forall|k: int| 0 <= k < out@.len() ==> (#[trigger] out@[k]).0@ == trim_end_char(entry_name_text(taken[k].0), '/')
                && out@[k].1 == taken[k].1,
        decreases data.len() - pos,
    {
        if data.len() - pos < 46 {
            assert(cd_records(data@, pos as int) =~= Seq::<(Seq<u8>, bool)>::empty());
            assert(taken + Seq::<(Seq<u8>, bool)>::empty() =~= taken);
            break;
        }
        if !is_header_at(data, pos) {
            assert(cd_records(data@, pos as int) =~= Seq::<(Seq<u8>, bool)>::empty());
            assert(taken + Seq::<(Seq<u8>, bool)>::empty() =~= taken);
            break;
        }
        let f = read_le(data, pos + 28, 2) as usize;
        let e = read_le(data, pos + 30, 2) as usize;
        let c = read_le(data, pos + 32, 2) as usize;
        proof {
            crate::bytes::lemma_le_value_bound(data@.subrange(pos + 28, pos + 30));
            crate::bytes::lemma_le_value_bound(data@.subrange(pos + 30, pos + 32));
            crate::bytes::lemma_le_value_bound(data@.subrange(pos + 32, pos + 34));
            reveal_with_fuel(crate::bytes::pow256, 3);
        }
        if data.len() - (pos + 46) < f {
            assert(cd_records(data@, pos as int) =~= Seq::<(Seq<u8>, bool)>::empty());
            assert(taken + Seq::<(Seq<u8>, bool)>::empty() =~= taken);
            break;
        }
        let start = pos + 46;
        let end = start + f;
        let name = vstd::slice::slice_subrange(data, start, end);
        let is_dir = f > 0 && name[f - 1] == 0x2f;
        let entry = entry_name(name);
        let ghost rec = (name@, is_dir);
        let ghost next_pos: int = pos + 46 + f + e + c;
        assert(cd_records(data@, pos as int) == seq![rec] + cd_records(data@, next_pos)) by {
            if f > 0 {
                assert(name@.last() == name@[f - 1]);
            }
        }
        out.push((entry, is_dir));
        proof {
            let old_taken = taken;
            taken = taken.push(rec);
            assert(old_taken + (seq![rec] + cd_records(data@, next_pos)) =~= taken + cd_records(data@, next_pos));
        }
        let rest = data.len() - end;
        if e + c > rest {
            assert(cd_records(data@, next_pos) =~= Seq::<(Seq<u8>, bool)>::empty());
            assert(taken + Seq::<(Seq<u8>, bool)>::empty() =~= taken);
            break;
        }
        pos = end + e + c;
    }
    out
}


pub open spec fn entry_view(e: ArchiveEntry) -> (Seq<char>, Seq<char>, bool) {
    (e.name@, e.path@, e.is_dir)
}

/// The directory inside the archive that is listed, without outer `/`.
pub open spec fn trim_slashes(s: Seq<char>) -> Seq<char> {
    trim_end_char(trim_start_char(s, '/'), '/')
}

/// What an entry name must start with to lie inside the listed directory.
pub open spec fn level_prefix(inner: Seq<char>) -> Seq<char> {
    if inner.len() == 0 { Seq::empty() } else { inner.push('/') }
}

/// One entry name applied to the listing so far (entries, directory names
/// already shown): entries directly inside the listed directory are shown,
/// an entry deeper down shows its top directory once.
pub open spec fn level_step(
    st: (Seq<(Seq<char>, Seq<char>, bool)>, Set<Seq<char>>),
    full: Seq<char>,
    is_dir: bool,
    inner: Seq<char>,
) -> (Seq<(Seq<char>, Seq<char>, bool)>, Set<Seq<char>>) {
    let prefix = level_prefix(inner);
    let inside = prefix.len() == 0 || is_prefix(prefix, full) || full == inner;
    if !(inside && full.len() > 0) {
        st
    } else {
        let rel = if prefix.len() == 0 {
            full
        } else if full.len() > prefix.len() {
            full.subrange(prefix.len() as int, full.len() as int)
        } else {
            Seq::empty()
        };
        if rel.len() == 0 {
            st
        } else if rel.contains('/') {
            let dir = first_segment(rel);
            if st.1.contains(dir) { st } else { (st.0.push((dir, prefix + dir, true)), st.1.insert(dir)) }
        } else if !is_dir || !st.1.contains(rel) {
            (st.0.push((rel, full, is_dir)), if is_dir { st.1.insert(rel) } else { st.1 })
        } else {
            st
        }
    }
}

/// The listing of one directory level built from the entry names in order.
pub open spec fn archive_level(items: Seq<(Seq<char>, bool)>, inner: Seq<char>)
    -> (Seq<(Seq<char>, Seq<char>, bool)>, Set<Seq<char>>)
    decreases items.len(),
{
    if items.len() == 0 {
        (Seq::empty(), Set::empty())
    } else {
        level_step(archive_level(items.drop_last(), inner), items.last().0, items.last().1, inner)
    }
}

/// The directory names shown so far are exactly those recorded as seen,
/// and no directory is shown twice.
pub open spec fn level_dirs_ok(st: (Seq<(Seq<char>, Seq<char>, bool)>, Set<Seq<char>>)) -> bool {
    &&& forall|x: Seq<char>| st.1.contains(x) <==> exists|k: int| 0 <= k < st.0.len() && (#[trigger] st.0[k]).2 && st.0[k].0 == x
    &&& forall|i: int, j: int| 0 <= i < j < st.0.len() && (#[trigger] st.0[i]).2 && (#[trigger] st.0[j]).2 ==> st.0[i].0 != st.0[j].0
}

proof fn lemma_level_push_dir(st: (Seq<(Seq<char>, Seq<char>, bool)>, Set<Seq<char>>), e: (Seq<char>, Seq<char>, bool))
    requires
        level_dirs_ok(st),
        e.2,
        !st.1.contains(e.0),
    ensures
        level_dirs_ok((st.0.push(e), st.1.insert(e.0))),
{
    let st2 = (st.0.push(e), st.1.insert(e.0));
    assert forall|x: Seq<char>| st2.1.contains(x) <==> exists|k: int| 0 <= k < st2.0.len() && (#[trigger] st2.0[k]).2 && st2.0[k].0 == x by {
        if st.1.contains(x) {
            let k = choose|k: int| 0 <= k < st.0.len() && (#[trigger] st.0[k]).2 && st.0[k].0 == x;
            assert(st2.0[k] == st.0[k]);
        }
        if x == e.0 {
            assert(st2.0[st.0.len() as int] == e);
        }
        if exists|k: int| 0 <= k < st2.0.len() && (#[trigger] st2.0[k]).2 && st2.0[k].0 == x {
            let k = choose|k: int| 0 <= k < st2.0.len() && (#[trigger] st2.0[k]).2 && st2.0[k].0 == x;
            if k < st.0.len() {
                assert(st2.0[k] == st.0[k]);
            }
        }
    }
    assert forall|i: int, j: int| 0 <= i < j < st2.0.len() && (#[trigger] st2.0[i]).2 && (#[trigger] st2.0[j]).2 implies st2.0[i].0 != st2.0[j].0 by {
        assert(st2.0[i] == st.0[i]);
        if j < st.0.len() {
            assert(st2.0[j] == st.0[j]);
        } else {
            assert(st2.0[j] == e);
            assert(st.1.contains(st.0[i].0));
        }
    }
}

proof fn lemma_level_push_file(st: (Seq<(Seq<char>, Seq<char>, bool)>, Set<Seq<char>>), e: (Seq<char>, Seq<char>, bool))
    requires
        level_dirs_ok(st),
        !e.2,
    ensures
        level_dirs_ok((st.0.push(e), st.1)),
{
    let st2 = (st.0.push(e), st.1);
    assert forall|x: Seq<char>| st2.1.contains(x) <==> exists|k: int| 0 <= k < st2.0.len() && (#[trigger] st2.0[k]).2 && st2.0[k].0 == x by {
        if st.1.contains(x) {
            let k = choose|k: int| 0 <= k < st.0.len() && (#[trigger] st.0[k]).2 && st.0[k].0 == x;
            assert(st2.0[k] == st.0[k]);
        }
        if exists|k: int| 0 <= k < st2.0.len() && (#[trigger] st2.0[k]).2 && st2.0[k].0 == x {
            let k = choose|k: int| 0 <= k < st2.0.len() && (#[trigger] st2.0[k]).2 && st2.0[k].0 == x;
            if k < st.0.len() {
                assert(st2.0[k] == st.0[k]);
            } else {
                assert(st2.0[k] == e);
            }
        }
    }
    assert forall|i: int, j: int| 0 <= i < j < st2.0.len() && (#[trigger] st2.0[i]).2 && (#[trigger] st2.0[j]).2 implies st2.0[i].0 != st2.0[j].0 by {
        assert(st2.0[i] == st.0[i]);
        if j < st.0.len() {
            assert(st2.0[j] == st.0[j]);
        } else {
            assert(st2.0[j] == e);
        }
    }
}

proof fn lemma_archive_level_ok(items: Seq<(Seq<char>, bool)>, inner: Seq<char>)
    ensures
        level_dirs_ok(archive_level(items, inner)),
    decreases items.len(),
{
    if items.len() == 0 {
        let st = archive_level(items, inner);
        assert forall|x: Seq<char>| st.1.contains(x) <==> exists|k: int| 0 <= k < st.0.len() && (#[trigger] st.0[k]).2 && st.0[k].0 == x by {}
    } else {
        lemma_archive_level_ok(items.drop_last(), inner);
        let st = archive_level(items.drop_last(), inner);
        let full = items.last().0;
        let is_dir = items.last().1;
        let prefix = level_prefix(inner);
        let inside = prefix.len() == 0 || is_prefix(prefix, full) || full == inner;
        if inside && full.len() > 0 {
            let rel = if prefix.len() == 0 {
                full
            } else if full.len() > prefix.len() {
                full.subrange(prefix.len() as int, full.len() as int)
            } else {
                Seq::empty()
            };
            if rel.len() > 0 {
                if rel.contains('/') {
                    let dir = first_segment(rel);
                    if !st.1.contains(dir) {
                        lemma_level_push_dir(st, (dir, prefix + dir, true));
                    }
                } else if !is_dir || !st.1.contains(rel) {
                    if is_dir {
                        lemma_level_push_dir(st, (rel, full, is_dir));
                    } else {
                        lemma_level_push_file(st, (rel, full, is_dir));
                    }
                }
            }
        }
    }
}

/// Law: one level of an archive listing shows each directory once: no two
/// directory entries have the same name, however many entries below a
/// directory imply it and whether or not it has an entry of its own.
pub proof fn lemma_archive_level_dirs_distinct(items: Seq<(Seq<char>, bool)>, inner: Seq<char>)
    ensures
        forall|i: int, j: int| 0 <= i < j < archive_level(items, inner).0.len()
            && (#[trigger] archive_level(items, inner).0[i]).2 && (#[trigger] archive_level(items, inner).0[j]).2
            ==> archive_level(items, inner).0[i].0 != archive_level(items, inner).0[j].0,
{
    lemma_archive_level_ok(items, inner);
}

pub open spec fn items_view(items: Seq<(String, bool)>) -> Seq<(Seq<char>, bool)> {
    items.map_values(|x: (String, bool)| (x.0@, x.1))
}

fn seen_contains(seen: &Vec<Vec<char>>, x: &Vec<char>) -> (r: bool)
    ensures
        r == exists|k: int| 0 <= k < seen@.len() && (#[trigger] seen@[k])@ == x@,
{
    let mut i: usize = 0;
    while i < seen.len()
        invariant
            i <= seen.len(),
            forall|k: int| 0 <= k < i ==> (#[trigger] seen@[k])@ != x@,
        decreases seen.len() - i,
    {
        if chars_eq(&seen[i], x) {
            assert(seen@[i as int]@ == x@);
            return true;
        }
        i = i + 1;
    }
    false
}

pub open spec fn seen_set(seen: Seq<Vec<char>>) -> Set<Seq<char>> {
    Set::new(|x: Seq<char>| exists|k: int| 0 <= k < seen.len() && (#[trigger] seen[k])@ == x)
}

proof fn lemma_seen_push(seen: Seq<Vec<char>>, v: Vec<char>)
    ensures
        seen_set(seen.push(v)) == seen_set(seen).insert(v@),
{
    assert forall|x: Seq<char>| seen_set(seen.push(v)).contains(x) <==> seen_set(seen).insert(v@).contains(x) by {
        if seen_set(seen.push(v)).contains(x) {
            let k = choose|k: int| 0 <= k < seen.push(v).len() && (#[trigger] seen.push(v)[k])@ == x;
            if k < seen.len() { assert(seen.push(v)[k] == seen[k]); }
        }
        if seen_set(seen).contains(x) {
            let k = choose|k: int| 0 <= k < seen.len() && (#[trigger] seen[k])@ == x;
            assert(seen.push(v)[k] == seen[k]);
        }
        if x == v@ {
            assert(seen.push(v)[seen.len() as int] == v);
        }
    }
    assert(seen_set(seen.push(v)) =~= seen_set(seen).insert(v@));
}

/// The entries of one directory level of an archive, from the entry names
/// in central-directory order (unsorted).
pub fn archive_level_entries(items: &Vec<(String, bool)>, inner_path: &str) -> (r: Vec<ArchiveEntry>)
    ensures
        r@.map_values(|e: ArchiveEntry| entry_view(e)) == archive_level(items_view(items@), trim_slashes(inner_path@)).0,
{
    let iv = chars_of(inner_path);
    let inner = trim_end_chars(&trim_start_chars(&iv, '/'), '/');
    let mut prefix = inner.clone();
    if inner.len() > 0 {
        prefix.push('/');
    }
    assert(prefix@ == level_prefix(inner@));
    let mut entries: Vec<ArchiveEntry> = Vec::new();
    let mut seen: Vec<Vec<char>> = Vec::new();
    let mut i: usize = 0;
    while i < items.len()
        invariant
            i <= items.len(),
            inner@ == trim_slashes(inner_path@),
            prefix@ == level_prefix(inner@),
            (entries@.map_values(|e: ArchiveEntry| entry_view(e)), seen_set(seen@))
                == archive_level(items_view(items@).take(i as int), inner@),
        decreases items.len() - i,
    {
        let ghost before = archive_level(items_view(items@).take(i as int), inner@);
        assert(items_view(items@).take((i + 1) as int).drop_last() =~= items_view(items@).take(i as int));
        assert(items_view(items@).take((i + 1) as int).last() == (items@[i as int].0@, items@[i as int].1));
        let full = chars_of(items[i].0.as_str());
        let is_dir = items[i].1;
        let ghost old_entries = entries@;
        let ghost old_seen = seen@;
        let inside = prefix.len() == 0 || chars_starts_with(&full, &prefix) || chars_eq(&full, &inner);
        if inside && full.len() > 0 {
            let rel: Vec<char> = if prefix.len() == 0 {
                full.clone()
            } else if full.len() > prefix.len() {
                sub_chars(&full, prefix.len(), full.len())
            } else {
                Vec::new()
            };
            if rel.len() > 0 {
                if chars_contains(&rel, '/') {
                    let dir = first_segment_of(&rel);
                    if !seen_contains(&seen, &dir) {
                        let p = concat_chars(&prefix, &dir);
                        entries.push(ArchiveEntry { name: string_of(&dir), path: string_of(&p), is_dir: true });
                        seen.push(dir);
                        proof {
                            lemma_seen_push(old_seen, seen@[seen@.len() - 1]);
                            assert(seen@ == old_seen.push(seen@[seen@.len() - 1]));
                            assert(entries@.map_values(|e: ArchiveEntry| entry_view(e)) =~=
                                old_entries.map_values(|e: ArchiveEntry| entry_view(e)).push(entry_view(entries@[entries@.len() - 1])));
                        }
                    }
                } else {
                    let shown = seen_contains(&seen, &rel);
                    if !is_dir || !shown {
                        entries.push(ArchiveEntry { name: string_of(&rel), path: string_of(&full), is_dir });
                        proof {
                            assert(entries@.map_values(|e: ArchiveEntry| entry_view(e)) =~=
                                old_entries.map_values(|e: ArchiveEntry| entry_view(e)).push(entry_view(entries@[entries@.len() - 1])));
                        }
                        if is_dir {
                            seen.push(rel);
                            proof {
                                lemma_seen_push(old_seen, seen@[seen@.len() - 1]);
                                assert(seen@ == old_seen.push(seen@[seen@.len() - 1]));
                            }
                        }
                    }
                }
            }
        }
        i = i + 1;
    }
    assert(items_view(items@).take(items.len() as int) =~= items_view(items@));
    entries
}


/// `a` is listed strictly before `b`: directories first, then by
/// lowercased name.
pub open spec fn archive_before(a: (Seq<char>, Seq<char>, bool), b: (Seq<char>, Seq<char>, bool)) -> bool {
    (a.2 && !b.2) || (a.2 == b.2 && lex_lt(lowercase(a.0), lowercase(b.0)))
}

/// `m` placed after every entry it does not come strictly before.
pub open spec fn insert_archive(sorted: Seq<(Seq<char>, Seq<char>, bool)>, m: (Seq<char>, Seq<char>, bool))
    -> Seq<(Seq<char>, Seq<char>, bool)>
    decreases sorted.len(),
{
    if sorted.len() == 0 {
        seq![m]
    } else if !archive_before(m, sorted.last()) {
        sorted.push(m)
    } else {
        insert_archive(sorted.drop_last(), m).push(sorted.last())
    }
}

/// The stable sort of archive entries: directories first, then by name.
pub open spec fn sort_archive(s: Seq<(Seq<char>, Seq<char>, bool)>) -> Seq<(Seq<char>, Seq<char>, bool)>
    decreases s.len(),
{
    if s.len() == 0 { Seq::empty() } else { insert_archive(sort_archive(s.drop_last()), s.last()) }
}

proof fn lemma_insert_archive_at(s: Seq<(Seq<char>, Seq<char>, bool)>, m: (Seq<char>, Seq<char>, bool), j: int)
    requires
        0 <= j <= s.len(),
        forall|k: int| j <= k < s.len() ==> archive_before(m, #[trigger] s[k]),
        j == 0 || !archive_before(m, s[j - 1]),
    ensures
        insert_archive(s, m) == s.insert(j, m),
    decreases s.len(),
{
    if s.len() == 0 {
        assert(s.insert(j, m) =~= seq![m]);
    } else if j == s.len() {
        assert(s.insert(j, m) =~= s.push(m));
    } else {
        let d = s.drop_last();
        assert(archive_before(m, s[s.len() - 1]));
        assert forall|k: int| j <= k < d.len() implies archive_before(m, #[trigger] d[k]) by {
            assert(d[k] == s[k]);
        }
        if j > 0 { assert(d[j - 1] == s[j - 1]); }
        lemma_insert_archive_at(d, m, j);
        assert(d.insert(j, m).push(s.last()) =~= s.insert(j, m));
    }
}

fn before_exec(dir_a: bool, key_a: &Vec<char>, dir_b: bool, key_b: &Vec<char>) -> (r: bool)
    ensures
        r == ((dir_a && !dir_b) || (dir_a == dir_b && lex_lt(key_a@, key_b@))),
{
    if dir_a && !dir_b {
        true
    } else if dir_a == dir_b {
        chars_lt(key_a, key_b)
    } else {
        false
    }
}

/// Sorts archive entries: directories first, then by lowercased name;
/// entries that compare equal keep their order.
pub fn sort_archive_entries(v: Vec<ArchiveEntry>) -> (r: Vec<ArchiveEntry>)
    ensures
        r@.map_values(|e: ArchiveEntry| entry_view(e)) == sort_archive(v@.map_values(|e: ArchiveEntry| entry_view(e))),
{
    let ghost input = v@.map_values(|e: ArchiveEntry| entry_view(e));
    let mut rest = v;
    let mut sorted: Vec<ArchiveEntry> = Vec::new();
    let mut keys: Vec<Vec<char>> = Vec::new();
    let mut i: usize = 0;
    let n = rest.len();
    while rest.len() > 0
        invariant
            i + rest@.len() == n,
            n == input.len(),
            forall|k: int| 0 <= k < rest@.len() ==> entry_view(#[trigger] rest@[k]) == input[i + k],
            keys@.len() == sorted@.len(),
            forall|k: int| 0 <= k < keys@.len() ==> (#[trigger] keys@[k])@ == lowercase(sorted@[k].name@),
            sorted@.map_values(|e: ArchiveEntry| entry_view(e)) == sort_archive(input.take(i as int)),
        decreases rest.len(),
    {
        let m = rest.remove(0);
        assert(entry_view(m) == input[i as int]);
        assert(input.take((i + 1) as int).drop_last() =~= input.take(i as int));
        assert(input.take((i + 1) as int).last() == input[i as int]);
        let key = chars_of(to_lowercase(m.name.as_str()).as_str());
        let ghost before = sorted@.map_values(|e: ArchiveEntry| entry_view(e));
        let mut j = sorted.len();
        while j > 0 && before_exec(m.is_dir, &key, sorted[j - 1].is_dir, &keys[j - 1])
            invariant
                j <= sorted.len(),
                keys@.len() == sorted@.len(),
                forall|k: int| 0 <= k < keys@.len() ==> (#[trigger] keys@[k])@ == lowercase(sorted@[k].name@),
                key@ == lowercase(m.name@),
                before == sorted@.map_values(|e: ArchiveEntry| entry_view(e)),
                forall|k: int| j <= k < before.len() ==> archive_before(entry_view(m), #[trigger] before[k]),
            decreases j,
        {
            assert(before[j - 1] == entry_view(sorted@[j - 1]));
            j = j - 1;
        }
        proof {
            if j > 0 {
                assert(before[j - 1] == entry_view(sorted@[j - 1]));
            }
            lemma_insert_archive_at(before, entry_view(m), j as int);
        }
        let ghost old_sorted = sorted@;
        let ghost old_keys = keys@;
        sorted.insert(j, m);
        keys.insert(j, key);
        assert(sorted@.map_values(|e: ArchiveEntry| entry_view(e)) =~= before.insert(j as int, entry_view(sorted@[j as int])));
        assert forall|k: int| 0 <= k < keys@.len() implies (#[trigger] keys@[k])@ == lowercase(sorted@[k].name@) by {
            if k < j {
                assert(keys@[k] == old_keys[k] && sorted@[k] == old_sorted[k]);
            } else if k > j {
                assert(keys@[k] == old_keys[k - 1] && sorted@[k] == old_sorted[k - 1]);
            }
        }
        assert forall|k: int| 0 <= k < rest@.len() implies entry_view(#[trigger] rest@[k]) == input[i + 1 + k] by {
        }
        i = i + 1;
    }
    assert(input.take(n as int) =~= input);
    sorted
}

/// The entries of one directory level of a ZIP central directory, sorted.
pub fn parse_central_directory(data: &[u8], inner_path: &str) -> (r: Vec<ArchiveEntry>)
    ensures
        r@.map_values(|e: ArchiveEntry| entry_view(e)) == sort_archive(
            archive_level(cd_names(data@), trim_slashes(inner_path@)).0),
{
    let names = central_directory_names(data);
    assert(items_view(names@) =~= cd_names(data@));
    let level = archive_level_entries(&names, inner_path);
    sort_archive_entries(level)
}


proof fn lemma_archive_asymmetric(a: (Seq<char>, Seq<char>, bool), b: (Seq<char>, Seq<char>, bool))
    ensures
        !(archive_before(a, b) && archive_before(b, a)),
{
    lemma_lex_lt_total(lowercase(a.0), lowercase(b.0));
}

proof fn lemma_archive_not_before_transitive(x: (Seq<char>, Seq<char>, bool), y: (Seq<char>, Seq<char>, bool), z: (Seq<char>, Seq<char>, bool))
    ensures
        (!archive_before(x, y) && !archive_before(y, z)) ==> !archive_before(x, z),
{
    lemma_lex_lt_total(lowercase(x.0), lowercase(y.0));
    lemma_lex_lt_total(lowercase(y.0), lowercase(z.0));
    lemma_lex_lt_total(lowercase(x.0), lowercase(z.0));
    lemma_lex_not_lt_transitive(lowercase(z.0), lowercase(y.0), lowercase(x.0));
}

/// No entry comes strictly before one placed ahead of it.
pub open spec fn archive_sorted(s: Seq<(Seq<char>, Seq<char>, bool)>) -> bool {
    forall|i: int, j: int| 0 <= i < j < s.len() ==> !archive_before(#[trigger] s[j], #[trigger] s[i])
}

proof fn lemma_insert_archive_keeps(s: Seq<(Seq<char>, Seq<char>, bool)>, m: (Seq<char>, Seq<char>, bool), q: spec_fn((Seq<char>, Seq<char>, bool)) -> bool)
    requires
        forall|i: int| 0 <= i < s.len() ==> q(#[trigger] s[i]),
        q(m),
    ensures
        forall|i: int| 0 <= i < insert_archive(s, m).len() ==> q(#[trigger] insert_archive(s, m)[i]),
    decreases s.len(),
{
    if s.len() == 0 {
    } else if !archive_before(m, s.last()) {
        let r = s.push(m);
        assert forall|i: int| 0 <= i < r.len() implies q(#[trigger] r[i]) by {
            if i < s.len() { assert(r[i] == s[i]); }
        }
    } else {
        let d = s.drop_last();
        assert forall|i: int| 0 <= i < d.len() implies q(#[trigger] d[i]) by { assert(d[i] == s[i]); }
        lemma_insert_archive_keeps(d, m, q);
        let t = insert_archive(d, m);
        let r = t.push(s.last());
        assert forall|i: int| 0 <= i < r.len() implies q(#[trigger] r[i]) by {
            if i < t.len() { assert(r[i] == t[i]); } else { assert(r[i] == s[s.len() - 1]); }
        }
    }
}

proof fn lemma_insert_archive_sorted(s: Seq<(Seq<char>, Seq<char>, bool)>, m: (Seq<char>, Seq<char>, bool))
    requires
        archive_sorted(s),
    ensures
        archive_sorted(insert_archive(s, m)),
        insert_archive(s, m).to_multiset() == s.to_multiset().insert(m),
    decreases s.len(),
{
    broadcast use vstd::seq_lib::to_multiset_build;
    if s.len() == 0 {
        assert(seq![m] =~= s.push(m));
    } else if !archive_before(m, s.last()) {
        let r = s.push(m);
        assert forall|i: int, j: int| 0 <= i < j < r.len() implies !archive_before(#[trigger] r[j], #[trigger] r[i]) by {
            assert(r[i] == s[i]);
            if j < s.len() {
                assert(r[j] == s[j]);
            } else if i < s.len() - 1 {
                lemma_archive_not_before_transitive(m, s[s.len() - 1], s[i]);
            }
        }
    } else {
        let d = s.drop_last();
        let last = s.last();
        assert forall|i: int, j: int| 0 <= i < j < d.len() implies !archive_before(#[trigger] d[j], #[trigger] d[i]) by {
            assert(d[i] == s[i] && d[j] == s[j]);
        }
        lemma_insert_archive_sorted(d, m);
        let t = insert_archive(d, m);
        let q = |x: (Seq<char>, Seq<char>, bool)| !archive_before(last, x);
        assert forall|i: int| 0 <= i < d.len() implies q(#[trigger] d[i]) by {
            assert(d[i] == s[i]);
            assert(s[s.len() - 1] == last);
        }
        lemma_archive_asymmetric(m, last);
        lemma_insert_archive_keeps(d, m, q);
        let r = t.push(last);
        assert forall|i: int, j: int| 0 <= i < j < r.len() implies !archive_before(#[trigger] r[j], #[trigger] r[i]) by {
            assert(r[i] == t[i]);
            if j < t.len() {
                assert(r[j] == t[j]);
            } else {
                assert(q(t[i]));
            }
        }
        assert(s =~= d.push(last));
    }
}

/// Law: the sorted archive entries are in order (directories first, then by lowercased name) and are exactly the entries given.
pub proof fn lemma_sort_archive_sorted(s: Seq<(Seq<char>, Seq<char>, bool)>)
    ensures
        archive_sorted(sort_archive(s)),
        sort_archive(s).to_multiset() == s.to_multiset(),
    decreases s.len(),
{
    broadcast use vstd::seq_lib::to_multiset_build;
    if s.len() == 0 {
        assert(s =~= Seq::<(Seq<char>, Seq<char>, bool)>::empty());
    } else {
        lemma_sort_archive_sorted(s.drop_last());
        lemma_insert_archive_sorted(sort_archive(s.drop_last()), s.last());
        assert(s =~= s.drop_last().push(s.last()));
    }
}

} // verus!
