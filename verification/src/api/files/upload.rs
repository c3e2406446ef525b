//! Uploads: where an uploaded file goes, what is done with each chunk, the
//! names under which pieces are kept, and the plan of a batch upload with
//! its name conflicts.

use vstd::prelude::*;
use crate::api::{Refusal, refuse};
use crate::api::file_resolver::{MountInfo, get_first_mount, matching_mounts, lemma_matching_mounts_serve,
    lemma_serving_mount_cut};
use crate::api::files::{child_path, child_of};
use crate::api::files::common::{join_user_path, join_user_path_spec, illegal_path_message};
use crate::api::archive::{after_last, after_last_of};
use crate::models::UserPermissions;
use crate::utils::{fix_and_clean_path, clean_path};
use crate::text::{str_cut_ok, chars_of, chars_eq, string_of, sub_chars, concat_chars, str_eq, copy_str, byte_len_of, byte_tail,
    cut_at_boundary, str_tail, str_byte_len};
use crate::num::{decimal, u64_to_decimal, parse_int_spec, parse_u64_spec, parse_i64, parse_u64};

verus! {

/// A question about the chunks of a file already received.
#[derive(Debug)]
pub struct UploadStatusReq {
    pub path: String,
    pub filename: String,
    pub total_chunks: i64,
}

/// One file announced in a batch upload.
#[derive(Debug)]
pub struct BatchUploadFileInfo {
    pub path: String,
    pub size: u64,
}

/// A batch upload request.
#[derive(Debug)]
pub struct CreateBatchUploadReq {
    pub target_path: String,
    pub files: Vec<BatchUploadFileInfo>,
    pub conflict_strategy: Option<String>,
}

/// Progress reported for one file of a batch.
#[derive(Debug)]
pub struct UpdateUploadProgressReq {
    pub task_id: String,
    pub file_path: String,
    pub uploaded_size: u64,
    pub chunk_index: Option<u32>,
}

/// One file of a batch reported complete.
#[derive(Debug)]
pub struct CompleteFileReq {
    pub task_id: String,
    pub file_path: String,
}

/// Where an uploaded file goes.
#[derive(Debug)]
pub struct UploadTarget {
    /// The directory within the user's root.
    pub dir: String,
    /// The full path of the file.
    pub file_path: String,
    /// The storage that receives it.
    pub mount_id: String,
    /// The file's path inside that storage.
    pub actual_path: String,
    /// The path under which a batch task knows the file.
    pub batch_file_path: String,
}

/// Why an upload cannot start.
#[derive(Debug)]
pub enum UploadError {
    Refused(Refusal),
    MountNotFound,
}

/// A field of an upload form as read from the request: text, or the
/// content of a `file`/`files` field with the file name the client gave.
#[derive(Debug)]
pub enum FormField {
    Text { name: String, value: String },
    File { file_name: Option<String>, data: Vec<u8> },
}

/// Whether a form field holds the uploaded content (`file` or `files`)
/// rather than text.
pub fn is_file_field(name: &str) -> (r: bool)
    ensures
        r == (name@ == "file"@ || name@ == "files"@),
{
    str_eq(name, "file") || str_eq(name, "files")
}

/// What an upload form says: the target directory, the file name, the
/// chunk index (-1 for a whole file), the number of chunks, the total size,
/// the task it belongs to, and the content.
#[derive(Debug)]
pub struct UploadForm {
    pub target_path: String,
    pub filename: String,
    pub chunk_index: i64,
    pub total_chunks: i64,
    pub total_size: u64,
    pub task_id: Option<String>,
    pub data: Vec<u8>,
}

/// The form read so far: target, file name, chunk index, chunk count,
/// total size, task, content.
pub type FormState = (Seq<char>, Seq<char>, i64, i64, u64, Option<Seq<char>>, Option<Seq<u8>>);

/// A parsed integer, or the default when the text does not read as one.
pub open spec fn i64_or(t: Seq<char>, default: i64) -> i64 {
    match parse_int_spec(t, i64::MIN as int, i64::MAX as int) {
        Some(n) => n as i64,
        None => default,
    }
}

/// What one field adds to the form read so far: a known text field sets its
/// value (numbers that do not read take their defaults), other text fields
/// are ignored; the content sets the data, and the client's file name (else
/// `unknown`) when no file name was given before.
pub open spec fn form_step(st: FormState, f: FormField) -> FormState {
    match f {
        FormField::Text { name, value } => {
            let v = value@;
            if name@ == "path"@ {
                (v, st.1, st.2, st.3, st.4, st.5, st.6)
            } else if name@ == "filename"@ {
                (st.0, v, st.2, st.3, st.4, st.5, st.6)
            } else if name@ == "chunkIndex"@ {
                (st.0, st.1, i64_or(v, -1i64), st.3, st.4, st.5, st.6)
            } else if name@ == "totalChunks"@ {
                (st.0, st.1, st.2, i64_or(v, 1i64), st.4, st.5, st.6)
            } else if name@ == "totalSize"@ {
                (st.0, st.1, st.2, st.3, match parse_u64_spec(v) { Some(n) => n, None => 0u64 }, st.5, st.6)
            } else if name@ == "taskId"@ {
                (st.0, st.1, st.2, st.3, st.4, Some(v), st.6)
            } else {
                st
            }
        },
        FormField::File { file_name, data } => {
            let n = if st.1.len() == 0 {
                match file_name { Some(x) => x@, None => "unknown"@ }
            } else {
                st.1
            };
            (st.0, n, st.2, st.3, st.4, st.5, Some(data@))
        },
    }
}

/// The form after the fields `fs`, in order.
pub open spec fn form_fold(fs: Seq<FormField>) -> FormState
    decreases fs.len(),
{
    if fs.len() == 0 {
        (Seq::empty(), Seq::empty(), -1i64, 1i64, 0u64, None, None)
    } else {
        form_step(form_fold(fs.drop_last()), fs.last())
    }
}

pub open spec fn form_view(f: UploadForm) -> FormState {
    (f.target_path@, f.filename@, f.chunk_index, f.total_chunks, f.total_size,
        match f.task_id { Some(t) => Some(t@), None => None }, Some(f.data@))
}

/// Reads an upload form from its fields: refused (400) when no field holds
/// content; an empty target directory is the root.
pub fn upload_form(fields: &Vec<FormField>) -> (r: Result<UploadForm, u16>)
    ensures
        ({
            let st = form_fold(fields@);
            match st.6 {
                None => r == Err::<UploadForm, u16>(400),
                Some(d) => r matches Ok(f) && form_view(f) == (
                    if st.0.len() == 0 { seq!['/'] } else { st.0 }, st.1, st.2, st.3, st.4, st.5, Some(d)),
            }
        }),
{
    let mut target: String = String::new();
    let mut filename: String = String::new();
    let mut chunk_index: i64 = -1;
    let mut total_chunks: i64 = 1;
    let mut total_size: u64 = 0;
    let mut task_id: Option<String> = None;
    let mut data: Option<Vec<u8>> = None;
    let mut i: usize = 0;
    assert(fields@.take(0) =~= Seq::<FormField>::empty());
    while i < fields.len()
        invariant
            i <= fields.len(),
            form_fold(fields@.take(i as int)) == (target@, filename@, chunk_index, total_chunks, total_size,
                match task_id { Some(t) => Some(t@), None => None }, match data { Some(d) => Some(d@), None => None }),
        decreases fields.len() - i,
    {
        assert(fields@.take((i + 1) as int).drop_last() =~= fields@.take(i as int));
        assert(fields@.take((i + 1) as int).last() == fields@[i as int]);
        match &fields[i] {
            FormField::Text { name, value } => {
                let n = name.as_str();
                if str_eq(n, "path") {
                    target = copy_str(value.as_str());
                } else if str_eq(n, "filename") {
                    filename = copy_str(value.as_str());
                } else if str_eq(n, "chunkIndex") {
                    chunk_index = match parse_i64(&chars_of(value.as_str())) { Some(v) => v, None => -1 };
                } else if str_eq(n, "totalChunks") {
                    total_chunks = match parse_i64(&chars_of(value.as_str())) { Some(v) => v, None => 1 };
                } else if str_eq(n, "totalSize") {
                    total_size = match parse_u64(&chars_of(value.as_str())) { Some(v) => v, None => 0 };
                } else if str_eq(n, "taskId") {
                    task_id = Some(copy_str(value.as_str()));
                }
            },
            FormField::File { file_name, data: d } => {
                if chars_of(filename.as_str()).len() == 0 {
                    filename = match file_name {
                        Some(x) => copy_str(x.as_str()),
                        None => String::from_str("unknown"),
                    };
                }
                let mut copy: Vec<u8> = Vec::new();
                let mut k: usize = 0;
                while k < d.len()
                    invariant
                        k <= d.len(),
                        copy@ == d@.take(k as int),
                    decreases d.len() - k,
                {
                    copy.push(d[k]);
                    assert(d@.take((k + 1) as int) =~= d@.take(k as int).push(d@[k as int]));
                    k = k + 1;
                }
                assert(d@.take(d.len() as int) =~= d@);
                data = Some(copy);
            },
        }
        i = i + 1;
    }
    assert(fields@.take(fields.len() as int) =~= fields@);
    let d = match data {
        Some(d) => d,
        None => {
            return Err(400);
        },
    };
    if chars_of(target.as_str()).len() == 0 {
        target = String::from_str("/");
        proof { reveal_strlit("/"); }
        assert(target@ =~= seq!['/']);
    }
    Ok(UploadForm { target_path: target, filename, chunk_index, total_chunks, total_size, task_id, data: d })
}

/// The refusal of an upload by a user who may not upload.
pub open spec fn upload_denied_message() -> Seq<char> {
    "没有上传文件的权限"@
}

/// The path inside the storage mounted at `mount_path` of the uploaded
/// file `file_path`; a file at the mount point itself is named by its
/// file name.
pub open spec fn upload_actual_path(file_path: Seq<char>, mount_path: Seq<char>, filename: Seq<char>) -> Seq<char> {
    let m = clean_path(mount_path);
    if byte_len_of(file_path) > byte_len_of(m) {
        clean_path(byte_tail(file_path, byte_len_of(m) as int))
    } else {
        seq!['/'] + filename
    }
}

/// The file's path can be cut after the mount path of the storage that
/// receives it without splitting a character (where it is cut at all).
pub open spec fn upload_cut_ok(file_path: Seq<char>, mounts: Seq<MountInfo>) -> bool {
    let ms = matching_mounts(mounts, file_path);
    ms.len() > 0 && byte_len_of(file_path) > byte_len_of(clean_path(ms[0].mount_path@))
        ==> cut_at_boundary(file_path, byte_len_of(clean_path(ms[0].mount_path@)) as int)
}

/// A clean file path is always cut after its storage's mount path without
/// splitting a character.
pub proof fn lemma_clean_upload_cut(file_path: Seq<char>, mounts: Seq<MountInfo>)
    requires
        clean_path(file_path) == file_path,
    ensures
        upload_cut_ok(file_path, mounts),
{
    lemma_matching_mounts_serve(mounts, file_path);
    let ms = matching_mounts(mounts, file_path);
    if ms.len() > 0 {
        lemma_serving_mount_cut(ms[0], file_path);
    }
}

/// What an upload into `target_path` of `filename` gives (see
/// `upload_target`).
pub open spec fn upload_outcome(
    perms: UserPermissions,
    root_path: Seq<char>,
    target_path: Seq<char>,
    filename: Seq<char>,
    mounts: Seq<MountInfo>,
    r: Result<UploadTarget, UploadError>,
) -> bool {
    &&& !(perms.create_upload || perms.is_admin) ==> (r matches Err(UploadError::Refused(e))
        && e.code == 403 && e.message@ == upload_denied_message())
    &&& (perms.create_upload || perms.is_admin) ==> match join_user_path_spec(root_path, clean_path(target_path)) {
        None => r matches Err(UploadError::Refused(e)) && e.code == 403 && e.message@ == illegal_path_message(),
        Some(dir) => {
            let fp = child_path(dir, filename);
            let ms = matching_mounts(mounts, fp);
            if ms.len() == 0 {
                r matches Err(UploadError::MountNotFound)
            } else {
                r matches Ok(t) && {
                    &&& t.dir@ == dir
                    &&& t.file_path@ == fp
                    &&& t.mount_id@ == ms[0].id@
                    &&& t.actual_path@ == upload_actual_path(fp, ms[0].mount_path@, filename)
                    &&& t.batch_file_path@ == child_path(dir, after_last(filename, '/'))
                }
            }
        },
    }
}

/// The upload cuts its file path after the storage's mount path inside a
/// character (the case `upload_target` leaves out).
pub open spec fn upload_cut_splits(perms: UserPermissions, root_path: Seq<char>, target_path: Seq<char>,
    filename: Seq<char>, mounts: Seq<MountInfo>) -> bool {
    (perms.create_upload || perms.is_admin) && (join_user_path_spec(root_path, clean_path(target_path)) matches Some(dir)
        && !upload_cut_ok(child_path(dir, filename), mounts))
}

/// Where the file `filename` uploaded into `target_path` goes: refused to a
/// user who may neither upload nor administer, refused when the path leaves
/// the user's root; otherwise the first storage mounted at the longest
/// mount path that serves the file receives it.
pub fn upload_target(
    perms: &UserPermissions,
    root_path: &str,
    target_path: &str,
    filename: &str,
    mounts: &[MountInfo],
) -> (r: Result<UploadTarget, UploadError>)
    requires
        join_user_path_spec(root_path@, clean_path(target_path@)) matches Some(dir)
            ==> upload_cut_ok(child_path(dir, filename@), mounts@),
    ensures
        !(perms.create_upload || perms.is_admin) ==> (r matches Err(UploadError::Refused(e))
            && e.code == 403 && e.message@ == upload_denied_message()),
        (perms.create_upload || perms.is_admin) ==> match join_user_path_spec(root_path@, clean_path(target_path@)) {
            None => r matches Err(UploadError::Refused(e)) && e.code == 403 && e.message@ == illegal_path_message(),
            Some(dir) => {
                let fp = child_path(dir, filename@);
                let ms = matching_mounts(mounts@, fp);
                if ms.len() == 0 {
                    r matches Err(UploadError::MountNotFound)
                } else {
                    r matches Ok(t) && {
                        &&& t.dir@ == dir
                        &&& t.file_path@ == fp
                        &&& t.mount_id@ == ms[0].id@
                        &&& t.actual_path@ == upload_actual_path(fp, ms[0].mount_path@, filename@)
                        &&& t.batch_file_path@ == child_path(dir, after_last(filename@, '/'))
                    }
                }
            },
        },
{
    if !perms.create_upload && !perms.is_admin {
        return Err(UploadError::Refused(refuse(403, "没有上传文件的权限")));
    }
    let req = fix_and_clean_path(target_path);
    let dir = match join_user_path(root_path, req.as_str()) {
        Ok(p) => p,
        Err(e) => {
            return Err(UploadError::Refused(Refusal { code: 403, message: e }));
        },
    };
    let file_path = child_of(dir.as_str(), filename);
    let mount = match get_first_mount(file_path.as_str(), mounts) {
        Some(m) => m,
        None => {
            return Err(UploadError::MountNotFound);
        },
    };
    let mp = fix_and_clean_path(mount.mount_path.as_str());
    let fl = str_byte_len(file_path.as_str());
    let ml = str_byte_len(mp.as_str());
    let actual = if fl > ml {
        let rest = str_tail(file_path.as_str(), ml);
        fix_and_clean_path(rest.as_str())
    } else {
        let slash = vec!['/'];
        string_of(&concat_chars(&slash, &chars_of(filename)))
    };
    let simple = string_of(&after_last_of(&chars_of(filename), '/'));
    let batch_file_path = child_of(dir.as_str(), simple.as_str());
    let mount_id = copy_str(mount.id.as_str());
    Ok(UploadTarget { dir, file_path, mount_id, actual_path: actual, batch_file_path })
}

/// `s` with every `from` replaced by `to`.
pub open spec fn replace_char(s: Seq<char>, from: char, to: char) -> Seq<char> {
    s.map_values(|c: char| if c == from { to } else { c })
}

fn replace_chars(s: &str, from: char, to: char) -> (r: String)
    ensures
        r@ == replace_char(s@, from, to),
{
    let v = chars_of(s);
    let mut out: Vec<char> = Vec::new();
    let mut i: usize = 0;
    while i < v.len()
        invariant
            i <= v.len(),
            out@ == replace_char(v@.take(i as int), from, to),
        decreases v.len() - i,
    {
        let c = v[i];
        out.push(if c == from { to } else { c });
        assert(replace_char(v@.take(i + 1), from, to) =~= replace_char(v@.take(i as int), from, to).push(
            if c == from { to } else { c }));
        i = i + 1;
    }
    assert(v@.take(v.len() as int) =~= v@);
    string_of(&out)
}

/// The key under which the open writer of a chunked upload is kept:
/// the task, `_`, and the file name with `/` made `_`.
pub open spec fn writer_key_of(task_id: Seq<char>, filename: Seq<char>) -> Seq<char> {
    task_id + seq!['_'] + replace_char(filename, '/', '_')
}

/// The name of the stored piece `index` of a chunked upload: the writer
/// key, `.part` and the index in decimal.
pub open spec fn part_name_of(task_id: Seq<char>, filename: Seq<char>, index: nat) -> Seq<char> {
    writer_key_of(task_id, filename) + ".part"@ + decimal(index)
}

/// The key of the writer of a chunked upload.
pub fn writer_key(task_id: &str, filename: &str) -> (r: String)
    ensures
        r@ == writer_key_of(task_id@, filename@),
{
    let under = vec!['_'];
    let t = concat_chars(&chars_of(task_id), &under);
    let f = chars_of(replace_chars(filename, '/', '_').as_str());
    string_of(&concat_chars(&t, &f))
}

/// The name of a stored piece of a chunked upload.
pub fn part_name(task_id: &str, filename: &str, index: u64) -> (r: String)
    ensures
        r@ == part_name_of(task_id@, filename@, index as nat),
{
    let key = chars_of(writer_key(task_id, filename).as_str());
    let with_ext = concat_chars(&key, &chars_of(".part"));
    string_of(&concat_chars(&with_ext, &u64_to_decimal(index)))
}

/// What is done with one received chunk (or a whole file).
#[derive(Debug)]
pub enum ChunkAction {
    /// Keep the piece under `part`; after the last one, merge the pieces
    /// and store the file.
    StorePart { part: String, last: bool },
    /// Write the piece to the writer kept under `key`, opening it for the
    /// first piece and closing it after the last.
    WritePiece { key: String, open: bool, close: bool },
    /// Write the whole file through one writer.
    WriteWhole,
}

/// A chunk belongs to a chunked upload: a chunk index is given and the file
/// has more than one chunk.
pub open spec fn is_chunked(chunk_index: i64, total_chunks: i64) -> bool {
    chunk_index >= 0 && total_chunks > 1
}

/// What to do with chunk `chunk_index` of `total_chunks`: a storage that
/// needs the whole file keeps the pieces, another one is written piece by
/// piece, and a file sent at once is written whole.
pub fn chunk_action(task_id: &str, filename: &str, chunk_index: i64, total_chunks: i64, needs_local_cache: bool) -> (r: ChunkAction)
    ensures
        !is_chunked(chunk_index, total_chunks) ==> r is WriteWhole,
        is_chunked(chunk_index, total_chunks) && needs_local_cache ==> (r matches ChunkAction::StorePart { part, last }
            && part@ == part_name_of(task_id@, filename@, chunk_index as nat)
            && last == (chunk_index == total_chunks - 1)),
        is_chunked(chunk_index, total_chunks) && !needs_local_cache ==> (r matches ChunkAction::WritePiece { key, open, close }
            && key@ == writer_key_of(task_id@, filename@)
            && open == (chunk_index == 0)
            && close == (chunk_index == total_chunks - 1)),
{
    if !(chunk_index >= 0 && total_chunks > 1) {
        return ChunkAction::WriteWhole;
    }
    let last = chunk_index == total_chunks - 1;
    if needs_local_cache {
        ChunkAction::StorePart { part: part_name(task_id, filename, chunk_index as u64), last }
    } else {
        ChunkAction::WritePiece { key: writer_key(task_id, filename), open: chunk_index == 0, close: last }
    }
}

/// The state of a task's controls as last read.
#[derive(Debug, Clone, Copy, PartialEq, Eq, Structural)]
pub enum ControlState {
    Running,
    Paused,
    Cancelled,
}

/// The answer to a chunk of a task that was cancelled (499) or paused
/// (498); none while it runs or has no controls.
pub fn control_refusal(state: Option<ControlState>) -> (r: Option<Refusal>)
    ensures
        state == Some(ControlState::Cancelled) ==> (r matches Some(e) && e.code == 499 && e.message@ == "任务已取消"@),
        state == Some(ControlState::Paused) ==> (r matches Some(e) && e.code == 498 && e.message@ == "任务已暂停"@),
        !(state == Some(ControlState::Cancelled) || state == Some(ControlState::Paused)) ==> r is None,
{
    match state {
        Some(ControlState::Cancelled) => Some(refuse(499, "任务已取消")),
        Some(ControlState::Paused) => Some(refuse(498, "任务已暂停")),
        _ => None,
    }
}

/// The most written to a storage writer at once.
pub const STREAM_BUFFER_SIZE: usize = 1048576;

/// The pieces `[start, end)` in which `len` bytes are written: in order,
/// back to back from 0 to `len`, each of `STREAM_BUFFER_SIZE` bytes but the
/// last, which holds the rest.
pub open spec fn pieces_cover(p: Seq<(usize, usize)>, len: nat) -> bool {
    &&& (len == 0 <==> p.len() == 0)
    &&& p.len() > 0 ==> p[0].0 == 0 && p.last().1 == len
    &&& forall|k: int| 0 <= k < p.len() - 1 ==> (#[trigger] p[k]).1 == p[k + 1].0
    &&& forall|k: int| 0 <= k < p.len() - 1 ==> (#[trigger] p[k]).1 - p[k].0 == STREAM_BUFFER_SIZE
    &&& forall|k: int| 0 <= k < p.len() ==> 0 < (#[trigger] p[k]).1 - p[k].0 <= STREAM_BUFFER_SIZE
}

/// Cuts `len` bytes into the pieces written one after the other.
pub fn stream_pieces(len: usize) -> (r: Vec<(usize, usize)>)
    ensures
        pieces_cover(r@, len as nat),
{
    let mut out: Vec<(usize, usize)> = Vec::new();
    let mut offset: usize = 0;
    while offset < len
        invariant
            offset <= len,
            offset == 0 <==> out@.len() == 0,
            out@.len() > 0 ==> out@[0].0 == 0 && out@.last().1 == offset,
            forall|k: int| 0 <= k < out@.len() - 1 ==> (#[trigger] out@[k]).1 == out@[k + 1].0,
            forall|k: int| 0 <= k < out@.len() - 1 ==> (#[trigger] out@[k]).1 - out@[k].0 == STREAM_BUFFER_SIZE,
            forall|k: int| 0 <= k < out@.len() ==> 0 < (#[trigger] out@[k]).1 - out@[k].0 <= STREAM_BUFFER_SIZE,
            out@.len() > 0 && offset < len ==> out@.last().1 - out@.last().0 == STREAM_BUFFER_SIZE,
        decreases len - offset,
    {
        let end = if len - offset > STREAM_BUFFER_SIZE { offset + STREAM_BUFFER_SIZE } else { len };
        let ghost before = out@;
        out.push((offset, end));
        assert forall|k: int| 0 <= k < out@.len() - 1 implies (#[trigger] out@[k]).1 == out@[k + 1].0 by {
            if k < before.len() - 1 {
                assert(out@[k] == before[k] && out@[k + 1] == before[k + 1]);
            } else {
                assert(out@[k] == before.last());
            }
        }
        assert forall|k: int| 0 <= k < out@.len() - 1 implies (#[trigger] out@[k]).1 - out@[k].0 == STREAM_BUFFER_SIZE by {
            if k < before.len() - 1 {
                assert(out@[k] == before[k]);
            } else {
                assert(out@[k] == before.last());
            }
        }
        assert forall|k: int| 0 <= k < out@.len() implies 0 < (#[trigger] out@[k]).1 - out@[k].0 <= STREAM_BUFFER_SIZE by {
            if k < before.len() {
                assert(out@[k] == before[k]);
            }
        }
        offset = end;
    }
    out
}

/// What to do with a file whose name is taken in the target directory.
#[derive(Debug, Clone, Copy, PartialEq, Eq, Structural)]
pub enum ConflictStrategy {
    AutoRename,
    Overwrite,
    Skip,
    Error,
}

/// The strategy a request names: `overwrite`, `skip`, `error`, else
/// renaming.
pub open spec fn strategy_of(s: Option<Seq<char>>) -> ConflictStrategy {
    match s {
        Some(t) => if t == "overwrite"@ {
            ConflictStrategy::Overwrite
        } else if t == "skip"@ {
            ConflictStrategy::Skip
        } else if t == "error"@ {
            ConflictStrategy::Error
        } else {
            ConflictStrategy::AutoRename
        },
        None => ConflictStrategy::AutoRename,
    }
}

/// Reads the conflict strategy of a request.
pub fn parse_conflict_strategy(s: Option<&str>) -> (r: ConflictStrategy)
    ensures
        r == strategy_of(match s { Some(t) => Some(t@), None => None }),
{
    match s {
        Some(t) => {
            if str_eq(t, "overwrite") {
                ConflictStrategy::Overwrite
            } else if str_eq(t, "skip") {
                ConflictStrategy::Skip
            } else if str_eq(t, "error") {
                ConflictStrategy::Error
            } else {
                ConflictStrategy::AutoRename
            }
        },
        None => ConflictStrategy::AutoRename,
    }
}

/// A file of a batch to receive, at its final path.
#[derive(Debug)]
pub struct PlannedUpload {
    pub path: String,
    pub size: u64,
}

/// What became of an announced file: its final path, or skipped.
#[derive(Debug)]
pub struct ResolvedFile {
    pub original: String,
    pub resolved: Option<String>,
    pub skipped: bool,
}

/// The plan of a batch upload.
#[derive(Debug)]
pub struct BatchPlan {
    pub uploads: Vec<PlannedUpload>,
    pub resolved: Vec<ResolvedFile>,
}

pub open spec fn upload_view(u: PlannedUpload) -> (Seq<char>, u64) {
    (u.path@, u.size)
}

pub open spec fn resolved_view(r: ResolvedFile) -> (Seq<char>, Option<Seq<char>>, bool) {
    (r.original@, match r.resolved { Some(p) => Some(p@), None => None }, r.skipped)
}

pub open spec fn file_view(f: BatchUploadFileInfo) -> (Seq<char>, u64) {
    (f.path@, f.size)
}

/// The plan of a batch upload into `target` (the views of the uploads and
/// of the answers per file), or the name of the first file that is taken
/// when conflicts are errors. `renamed[i]` is the free name found for file
/// `i` when conflicts are resolved by renaming.
pub open spec fn batch_outcome(
    target: Seq<char>,
    files: Seq<(Seq<char>, u64)>,
    strategy: ConflictStrategy,
    existing: Seq<Seq<char>>,
    renamed: Seq<Seq<char>>,
) -> Result<(Seq<(Seq<char>, u64)>, Seq<(Seq<char>, Option<Seq<char>>, bool)>), Seq<char>>
    decreases files.len(),
{
    if files.len() == 0 {
        Ok((Seq::empty(), Seq::empty()))
    } else {
        let n = files.len() - 1;
        match batch_outcome(target, files.take(n), strategy, existing, renamed) {
            Err(e) => Err(e),
            Ok((ups, res)) => {
                let f = files[n];
                let name = after_last(f.0, '/');
                let taken = existing.contains(name);
                if strategy == ConflictStrategy::Error && taken {
                    Err(name)
                } else if strategy == ConflictStrategy::Skip && taken {
                    Ok((ups, res.push((f.0, None, true))))
                } else {
                    let final_name = if strategy == ConflictStrategy::AutoRename { renamed[n] } else { name };
                    let full = child_path(target, final_name);
                    Ok((ups.push((full, f.1)), res.push((f.0, Some(full), false))))
                }
            },
        }
    }
}

proof fn lemma_batch_error_stays(
    target: Seq<char>,
    files: Seq<(Seq<char>, u64)>,
    strategy: ConflictStrategy,
    existing: Seq<Seq<char>>,
    renamed: Seq<Seq<char>>,
    j: int,
)
    requires
        0 <= j <= files.len(),
        batch_outcome(target, files.take(j), strategy, existing, renamed) is Err,
    ensures
        batch_outcome(target, files, strategy, existing, renamed)
            == batch_outcome(target, files.take(j), strategy, existing, renamed),
    decreases files.len(),
{
    if j == files.len() {
        assert(files.take(j) =~= files);
    } else {
        let n = files.len() - 1;
        assert(files.take(n).take(j) =~= files.take(j));
        lemma_batch_error_stays(target, files.take(n), strategy, existing, renamed, j);
    }
}

/// Every upload lands in `target` on a name `existing` does not hold.
pub open spec fn lands_on_free_names(target: Seq<char>, ups: Seq<(Seq<char>, u64)>, existing: Seq<Seq<char>>) -> bool {
    forall|k: int| 0 <= k < ups.len() ==>
        exists|n: Seq<char>| !existing.contains(n) && (#[trigger] ups[k]).0 == child_path(target, n)
}

/// Law: when taken names are skipped or refused, no planned upload lands on
/// a name the target directory already holds.
pub proof fn lemma_batch_never_overwrites(
    target: Seq<char>,
    files: Seq<(Seq<char>, u64)>,
    strategy: ConflictStrategy,
    existing: Seq<Seq<char>>,
    renamed: Seq<Seq<char>>,
)
    requires
        strategy == ConflictStrategy::Skip || strategy == ConflictStrategy::Error,
    ensures
        match batch_outcome(target, files, strategy, existing, renamed) {
            Ok(p) => lands_on_free_names(target, p.0, existing),
            Err(_) => true,
        },
    decreases files.len(),
{
    if files.len() > 0 {
        let n = files.len() - 1;
        lemma_batch_never_overwrites(target, files.take(n), strategy, existing, renamed);
        match batch_outcome(target, files.take(n), strategy, existing, renamed) {
            Err(e) => {
                assert(batch_outcome(target, files, strategy, existing, renamed) is Err);
            },
            Ok((ups, res)) => {
                let f = files[n];
                let name = after_last(f.0, '/');
                let taken = existing.contains(name);
                if !(strategy == ConflictStrategy::Error && taken) && !(strategy == ConflictStrategy::Skip && taken) {
                    let full = child_path(target, name);
                    let ups2 = ups.push((full, f.1));
                    assert(!taken);
                    assert(batch_outcome(target, files, strategy, existing, renamed)
                        == Ok::<(Seq<(Seq<char>, u64)>, Seq<(Seq<char>, Option<Seq<char>>, bool)>), Seq<char>>(
                            (ups2, res.push((f.0, Some(full), false)))));
                    assert forall|k: int| 0 <= k < ups2.len() implies
                        exists|m: Seq<char>| !existing.contains(m) && (#[trigger] ups2[k]).0 == child_path(target, m) by {
                        if k < ups.len() {
                            assert(ups2[k] == ups[k]);
                        } else {
                            assert(ups2[k].0 == child_path(target, name));
                        }
                    }
                    assert(lands_on_free_names(target, ups2, existing));
                } else if strategy == ConflictStrategy::Skip && taken {
                    assert(batch_outcome(target, files, strategy, existing, renamed)
                        == Ok::<(Seq<(Seq<char>, u64)>, Seq<(Seq<char>, Option<Seq<char>>, bool)>), Seq<char>>(
                            (ups, res.push((f.0, None, true)))));
                } else {
                    assert(batch_outcome(target, files, strategy, existing, renamed) is Err);
                }
            },
        }
    }
}

pub(crate) fn names_contain(names: &Vec<String>, name: &str) -> (r: bool)
    ensures
        r == names@.map_values(|n: String| n@).contains(name@),
{
    let mut i: usize = 0;
    while i < names.len()
        invariant
            i <= names.len(),
            forall|k: int| 0 <= k < i ==> (#[trigger] names@[k])@ != name@,
        decreases names.len() - i,
    {
        if str_eq(names[i].as_str(), name) {
            assert(names@.map_values(|n: String| n@)[i as int] == name@);
            return true;
        }
        i = i + 1;
    }
    let ghost nv = names@.map_values(|n: String| n@);
    assert forall|k: int| 0 <= k < nv.len() implies #[trigger] nv[k] != name@ by {
        assert(names@[k]@ != name@);
    }
    false
}

/// The refusal of a batch when a name is taken and conflicts are errors.
pub open spec fn file_exists_message(name: Seq<char>) -> Seq<char> {
    "文件已存在: "@ + name
}

/// Plans a batch upload into `target`: each file keeps its last path
/// segment as name, renamed (to `renamed[i]`) when conflicts are resolved
/// by renaming, skipped when its name is taken and conflicts are skipped;
/// the batch is refused (409) at the first taken name when conflicts are
/// errors.
pub fn plan_batch_upload(
    target: &str,
    files: &Vec<BatchUploadFileInfo>,
    strategy: ConflictStrategy,
    existing: &Vec<String>,
    renamed: &Vec<String>,
) -> (r: Result<BatchPlan, Refusal>)
    requires
        renamed@.len() == files@.len(),
    ensures
        match batch_outcome(
            target@,
            files@.map_values(|f: BatchUploadFileInfo| file_view(f)),
            strategy,
            existing@.map_values(|n: String| n@),
            renamed@.map_values(|n: String| n@),
        ) {
            Err(name) => r matches Err(e) && e.code == 409 && e.message@ == file_exists_message(name),
            Ok((ups, res)) => r matches Ok(p)
                && p.uploads@.map_values(|u: PlannedUpload| upload_view(u)) == ups
                && p.resolved@.map_values(|x: ResolvedFile| resolved_view(x)) == res,
        },
{
    let ghost fv = files@.map_values(|f: BatchUploadFileInfo| file_view(f));
    let ghost ev = existing@.map_values(|n: String| n@);
    let ghost rv = renamed@.map_values(|n: String| n@);
    let mut uploads: Vec<PlannedUpload> = Vec::new();
    let mut resolved: Vec<ResolvedFile> = Vec::new();
    let mut i: usize = 0;
    while i < files.len()
        invariant
            i <= files.len(),
            renamed@.len() == files@.len(),
            fv == files@.map_values(|f: BatchUploadFileInfo| file_view(f)),
            ev == existing@.map_values(|n: String| n@),
            rv == renamed@.map_values(|n: String| n@),
            batch_outcome(target@, fv.take(i as int), strategy, ev, rv) matches Ok((ups, res))
                && uploads@.map_values(|u: PlannedUpload| upload_view(u)) == ups
                && resolved@.map_values(|x: ResolvedFile| resolved_view(x)) == res,
        decreases files.len() - i,
    {
        let f = &files[i];
        assert(fv.take(i + 1).take(i as int) =~= fv.take(i as int));
        assert(fv.take(i + 1)[i as int] == file_view(*f));
        let ghost ups0 = uploads@.map_values(|u: PlannedUpload| upload_view(u));
        let ghost res0 = resolved@.map_values(|x: ResolvedFile| resolved_view(x));
        let name = string_of(&after_last_of(&chars_of(f.path.as_str()), '/'));
        let taken = names_contain(existing, name.as_str());
        if strategy == ConflictStrategy::Error && taken {
            proof { lemma_batch_error_stays(target@, fv, strategy, ev, rv, i + 1); }
            let msg = concat_chars(&chars_of("文件已存在: "), &chars_of(name.as_str()));
            return Err(Refusal { code: 409, message: string_of(&msg) });
        }
        if strategy == ConflictStrategy::Skip && taken {
            resolved.push(ResolvedFile { original: copy_str(f.path.as_str()), resolved: None, skipped: true });
            assert(resolved@.map_values(|x: ResolvedFile| resolved_view(x)) =~= res0.push((f.path@, None, true)));
        } else {
            let final_name = if strategy == ConflictStrategy::AutoRename {
                assert(rv[i as int] == renamed@[i as int]@);
                copy_str(renamed[i].as_str())
            } else {
                name
            };
            let full = child_of(target, final_name.as_str());
            uploads.push(PlannedUpload { path: copy_str(full.as_str()), size: f.size });
            resolved.push(ResolvedFile { original: copy_str(f.path.as_str()), resolved: Some(full), skipped: false });
            assert(uploads@.map_values(|u: PlannedUpload| upload_view(u)) =~= ups0.push((child_path(target@, final_name@), f.size)));
            assert(resolved@.map_values(|x: ResolvedFile| resolved_view(x)) =~= res0.push((f.path@, Some(child_path(target@, final_name@)), false)));
        }
        i = i + 1;
    }
    assert(fv.take(files.len() as int) =~= fv);
    Ok(BatchPlan { uploads, resolved })
}

/// The name of a batch task: the file's name for one file, else the
/// number of files.
pub open spec fn batch_task_name_of(paths: Seq<Seq<char>>) -> Seq<char> {
    if paths.len() == 1 {
        after_last(paths[0], '/')
    } else {
        "上传 "@ + decimal(paths.len()) + " 个文件"@
    }
}

/// Names the task of a planned batch.
pub fn batch_task_name(uploads: &Vec<PlannedUpload>) -> (r: String)
    ensures
        r@ == batch_task_name_of(uploads@.map_values(|u: PlannedUpload| u.path@)),
{
    if uploads.len() == 1 {
        string_of(&after_last_of(&chars_of(uploads[0].path.as_str()), '/'))
    } else {
        let count = u64_to_decimal(uploads.len() as u64);
        let head = concat_chars(&chars_of("上传 "), &count);
        string_of(&concat_chars(&head, &chars_of(" 个文件")))
    }
}


/// `upload_target` for any input: `None` exactly where the file path would
/// be cut after its storage's mount path inside a character (which
/// `upload_target` does not take), else what `upload_target` gives.
pub fn upload_target_checked(
    perms: &UserPermissions,
    root_path: &str,
    target_path: &str,
    filename: &str,
    mounts: &[MountInfo],
) -> (r: Option<Result<UploadTarget, UploadError>>)
    ensures
        match r {
            None => upload_cut_splits(*perms, root_path@, target_path@, filename@, mounts@),
            Some(x) => !upload_cut_splits(*perms, root_path@, target_path@, filename@, mounts@)
                && upload_outcome(*perms, root_path@, target_path@, filename@, mounts@, x),
        },
{
    if !perms.create_upload && !perms.is_admin {
        return Some(Err(UploadError::Refused(refuse(403, "没有上传文件的权限"))));
    }
    let req = fix_and_clean_path(target_path);
    let dir = match join_user_path(root_path, req.as_str()) {
        Ok(p) => p,
        Err(_) => {
            return Some(upload_target(perms, root_path, target_path, filename, mounts));
        },
    };
    let file_path = child_of(dir.as_str(), filename);
    match get_first_mount(file_path.as_str(), mounts) {
        None => {},
        Some(m) => {
            let mp = fix_and_clean_path(m.mount_path.as_str());
            let fl = str_byte_len(file_path.as_str());
            let ml = str_byte_len(mp.as_str());
            if fl > ml && !str_cut_ok(file_path.as_str(), ml) {
                return None;
            }
        },
    }
    Some(upload_target(perms, root_path, target_path, filename, mounts))
}

} // verus!
