//! Which storage serves a path: longest-prefix mount matching, several
//! storages on one mount path, and the default choice among the storages
//! that hold a file (direct-link capable first, then in turn).

use vstd::prelude::*;
use crate::models::UserPermissions;
use crate::text::{chars_of, chars_eq, chars_starts_with, is_prefix, sub_chars, string_of,
    trim_end_chars, trim_end_char, concat_chars, copy_str, str_eq, byte_len_of, byte_tail, cut_at_boundary,
    str_tail, str_byte_len, lemma_prefix_cut};
use crate::utils::{fix_and_clean_path, clean_path, lemma_clean_idempotent};

verus! {

/// A storage and the path it is mounted at.
#[derive(Debug)]
pub struct MountInfo {
    pub id: String,
    pub mount_path: String,
    pub order: i32,
}

/// What `serde_json` reads from a text under `key`: `None` when the text
/// is not JSON; else the string under `key` of the object it holds, `None`
/// when it is not an object, has no such key, or the value is no string.
pub uninterp spec fn json_str_field(config: Seq<char>, key: Seq<char>) -> Option<Option<Seq<char>>>;

/// What `serde_json` reads from a text under `key`: `None` when the text
/// is not JSON; else the integer under `key` of the object it holds, `None`
/// when it is not an object, has no such key, or the value is no integer
/// that fits in `i64`.
pub uninterp spec fn json_i64_field(config: Seq<char>, key: Seq<char>) -> Option<Option<i64>>;

/// `serde_json::from_str::<Value>`, then `get(key)` and `as_str`. Claimed:
/// the result is the named function of the text and the key.
#[verifier::external_body]
fn config_str_field(config: &str, key: &str) -> (r: Option<Option<String>>)
    ensures
        match r {
            None => json_str_field(config@, key@) is None,
            Some(None) => json_str_field(config@, key@) == Some(None::<Seq<char>>),
            Some(Some(v)) => json_str_field(config@, key@) == Some(Some(v@)),
        },
{
    serde_json::from_str::<serde_json::Value>(config)
        .ok()
        .map(|v| v.get(key).and_then(|x| x.as_str()).map(|x| x.to_string()))
}

/// `serde_json::from_str::<Value>`, then `get(key)` and `as_i64`. Claimed:
/// the result is the named function of the text and the key.
#[verifier::external_body]
fn config_i64_field(config: &str, key: &str) -> (r: Option<Option<i64>>)
    ensures
        r == json_i64_field(config@, key@),
{
    serde_json::from_str::<serde_json::Value>(config).ok().map(|v| v.get(key).and_then(|x| x.as_i64()))
}

/// A mount as plain values: the storage's id, its mount path, its order.
pub open spec fn mount_view(m: MountInfo) -> (Seq<char>, Seq<char>, i32) {
    (m.id@, m.mount_path@, m.order)
}

/// The mount a stored driver row `(id, config)` describes: the config
/// read as JSON, its `mount_path` string, and (when `ordered`) its `order`
/// (0 when there is none, cut to 32 bits); none when the config does not
/// read or has no mount path.
pub open spec fn mount_of(row: (Seq<char>, Seq<char>), ordered: bool) -> Option<(Seq<char>, Seq<char>, i32)> {
    match json_str_field(row.1, "mount_path"@) {
        Some(Some(mp)) => Some((row.0, mp, if ordered {
            match json_i64_field(row.1, "order"@) {
                Some(Some(n)) => n as i32,
                _ => 0i32,
            }
        } else {
            0i32
        })),
        _ => None,
    }
}

/// The mounts of the stored driver rows, in the rows' order.
pub open spec fn mounts_of(rows: Seq<(Seq<char>, Seq<char>)>, ordered: bool) -> Seq<(Seq<char>, Seq<char>, i32)>
    decreases rows.len(),
{
    if rows.len() == 0 {
        Seq::empty()
    } else {
        let r = mounts_of(rows.drop_last(), ordered);
        match mount_of(rows.last(), ordered) {
            Some(m) => r.push(m),
            None => r,
        }
    }
}

pub open spec fn rows_view(rows: Seq<(String, String)>) -> Seq<(Seq<char>, Seq<char>)> {
    rows.map_values(|r: (String, String)| (r.0@, r.1@))
}

fn read_mounts(rows: &Vec<(String, String)>, ordered: bool) -> (r: Vec<MountInfo>)
    ensures
        r@.map_values(|m: MountInfo| mount_view(m)) == mounts_of(rows_view(rows@), ordered),
{
    let mut out: Vec<MountInfo> = Vec::new();
    let mut i: usize = 0;
    while i < rows.len()
        invariant
            i <= rows.len(),
            out@.map_values(|m: MountInfo| mount_view(m)) == mounts_of(rows_view(rows@).take(i as int), ordered),
        decreases rows.len() - i,
    {
        let ghost pre = rows_view(rows@).take(i as int);
        assert(rows_view(rows@).take((i + 1) as int).drop_last() =~= pre);
        assert(rows_view(rows@).take((i + 1) as int).last() == (rows@[i as int].0@, rows@[i as int].1@));
        let row = &rows[i];
        let ghost before = out@.map_values(|m: MountInfo| mount_view(m));
        match config_str_field(row.1.as_str(), "mount_path") {
            Some(Some(mp)) => {
                let order: i32 = if ordered {
                    match config_i64_field(row.1.as_str(), "order") {
                        Some(Some(n)) => n as i32,
                        _ => 0,
                    }
                } else {
                    0
                };
                let m = MountInfo { id: copy_str(row.0.as_str()), mount_path: mp, order };
                out.push(m);
                assert(out@.map_values(|m: MountInfo| mount_view(m)) =~= before.push(mount_view(m)));
            },
            _ => {},
        }
        i = i + 1;
    }
    assert(rows_view(rows@).take(rows.len() as int) =~= rows_view(rows@));
    out
}

/// The mounts of the enabled drivers, read from their stored `(id,
/// config)` rows: rows whose config is not JSON or names no mount path are
/// left out, the others keep their order, and each takes the config's
/// `order` (0 when there is none, cut to 32 bits).
pub fn mounts_from_rows(rows: &Vec<(String, String)>) -> (r: Vec<MountInfo>)
    ensures
        r@.map_values(|m: MountInfo| mount_view(m)) == mounts_of(rows_view(rows@), true),
{
    read_mounts(rows, true)
}

/// The mounts of the stored driver rows as the file operations read them:
/// as `mounts_from_rows`, but every mount in order 0.
pub fn mounts_from_rows_unordered(rows: &Vec<(String, String)>) -> (r: Vec<MountInfo>)
    ensures
        r@.map_values(|m: MountInfo| mount_view(m)) == mounts_of(rows_view(rows@), false),
{
    read_mounts(rows, false)
}

/// A storage that holds a requested file.
#[derive(Debug)]
pub struct DriverMatch {
    pub mount: MountInfo,
    pub can_direct_link: bool,
    pub actual_path: String,
}

/// Who makes a request: permissions and the root the user is confined to.
#[derive(Debug)]
pub struct UserContext {
    pub permissions: UserPermissions,
    pub root_path: String,
    pub is_guest: bool,
}

impl Default for UserContext {
    fn default() -> (c: UserContext)
        ensures
            c.permissions == UserPermissions::none_spec(),
            c.root_path@ == seq!['/'],
            c.is_guest,
    {
        let mut root = String::new();
        crate::text::push_char(&mut root, '/');
        UserContext { permissions: UserPermissions::none(), root_path: root, is_guest: true }
    }
}

/// The storage chosen to serve a download.
#[derive(Debug)]
pub struct SelectedDriver {
    pub driver_id: String,
    pub internal_path: String,
    pub can_direct_link: bool,
}

/// The root a user is confined to: the user's own root unless it is empty
/// or `/`, else the group's root, else `/`.
pub open spec fn chosen_root(user_root: Option<Seq<char>>, group_root: Option<Seq<char>>) -> Seq<char> {
    match user_root {
        Some(u) if u.len() > 0 && u != seq!['/'] => u,
        _ => match group_root {
            Some(g) => g,
            None => seq!['/'],
        },
    }
}

/// Picks the root path of a user from the user's and the group's settings.
pub fn choose_root_path(user_root: Option<String>, group_root: Option<String>) -> (r: String)
    ensures
        r@ == chosen_root(
            match user_root { Some(u) => Some(u@), None => None },
            match group_root { Some(g) => Some(g@), None => None },
        ),
{
    if let Some(u) = user_root {
        let uc = chars_of(u.as_str());
        let root = vec!['/'];
        assert(root@ =~= seq!['/']);
        if uc.len() > 0 && !chars_eq(&uc, &root) {
            return u;
        }
    }
    match group_root {
        Some(g) => g,
        None => {
            let mut r = String::new();
            crate::text::push_char(&mut r, '/');
            assert(r@ =~= seq!['/']);
            r
        },
    }
}

/// `child` is `parent` or below it; both clean. Every path is below `/`.
pub open spec fn below(parent: Seq<char>, child: Seq<char>) -> bool {
    parent == seq!['/'] || child == parent || is_prefix(parent.push('/'), child)
}

fn is_sub_path(parent: &str, child: &str) -> (r: bool)
    ensures
        r == below(clean_path(parent@), clean_path(child@)),
{
    let p = chars_of(fix_and_clean_path(parent).as_str());
    let c = chars_of(fix_and_clean_path(child).as_str());
    let root = vec!['/'];
    assert(root@ =~= seq!['/']);
    if chars_eq(&p, &root) {
        return true;
    }
    let mut ps = p.clone();
    ps.push('/');
    chars_eq(&c, &p) || chars_starts_with(&c, &ps)
}

/// The path inside a storage mounted at `mount_path` of the full path
/// `full_path`, both clean: the full path itself under a mount at the
/// root; else what follows the mount path's bytes, cleaned, when the full
/// path is longer in bytes; else the storage's root.
pub open spec fn internal_path(mount_path: Seq<char>, full_path: Seq<char>) -> Seq<char> {
    let m = clean_path(mount_path);
    let f = clean_path(full_path);
    if m == seq!['/'] {
        f
    } else if byte_len_of(f) > byte_len_of(m) {
        clean_path(byte_tail(f, byte_len_of(m) as int))
    } else {
        seq!['/']
    }
}

/// Cutting the full path after the mount path's bytes does not split a
/// character (where the cut is made at all).
pub open spec fn internal_cut_ok(mount_path: Seq<char>, full_path: Seq<char>) -> bool {
    let m = clean_path(mount_path);
    let f = clean_path(full_path);
    m != seq!['/'] && byte_len_of(f) > byte_len_of(m) ==> cut_at_boundary(f, byte_len_of(m) as int)
}

/// A full path at or below the mount path is cut without splitting a
/// character, and what follows the mount path is its tail in characters.
pub proof fn lemma_internal_path_below(mount_path: Seq<char>, full_path: Seq<char>)
    requires
        below(clean_path(mount_path), clean_path(full_path)),
    ensures
        internal_cut_ok(mount_path, full_path),
        clean_path(mount_path) != seq!['/'] ==> internal_path(mount_path, full_path) == (
            if clean_path(full_path).len() > clean_path(mount_path).len() {
                clean_path(clean_path(full_path).subrange(clean_path(mount_path).len() as int, clean_path(full_path).len() as int))
            } else {
                seq!['/']
            }),
{
    let m = clean_path(mount_path);
    let f = clean_path(full_path);
    if m != seq!['/'] {
        if f == m {
            assert(m.subrange(0, m.len() as int) =~= m);
        } else {
            assert(is_prefix(m.push('/'), f));
            assert(f.subrange(0, m.len() as int) =~= m.push('/').subrange(0, m.len() as int));
            assert(m.push('/').subrange(0, m.len() as int) =~= m);
        }
        lemma_prefix_cut(m, f);
    }
}

/// The path inside the storage mounted at `mount_path` of `full_path`.
pub fn calculate_internal_path(mount_path: &str, full_path: &str) -> (r: String)
    requires
        internal_cut_ok(mount_path@, full_path@),
    ensures
        r@ == internal_path(mount_path@, full_path@),
{
    let m = fix_and_clean_path(mount_path);
    let f = fix_and_clean_path(full_path);
    let mc = chars_of(m.as_str());
    let root = vec!['/'];
    assert(root@ =~= seq!['/']);
    if chars_eq(&mc, &root) {
        return f;
    }
    let fl = str_byte_len(f.as_str());
    let ml = str_byte_len(m.as_str());
    if fl > ml {
        let rest = str_tail(f.as_str(), ml);
        fix_and_clean_path(rest.as_str())
    } else {
        let mut r = String::new();
        crate::text::push_char(&mut r, '/');
        assert(r@ =~= seq!['/']);
        r
    }
}

/// The message of a request that leaves the user's root.
pub open spec fn out_of_root_message() -> Seq<char> {
    "路径越权"@
}

/// The joined path of a request below `user_root`, before the final check.
pub open spec fn combined_path(user_root: Seq<char>, req_path: Seq<char>) -> Seq<char> {
    let u = clean_path(user_root);
    let r = clean_path(req_path);
    if r == seq!['/'] { clean_path(u) } else { clean_path(trim_end_char(u, '/') + r) }
}

/// Joins a request path to a user's root; refuses a result outside the root.
pub fn join_user_path(user_root: &str, req_path: &str) -> (r: Result<String, &'static str>)
    ensures
        clean_path(user_root@) == seq!['/'] ==> (r matches Ok(p) && p@ == clean_path(req_path@)),
        clean_path(user_root@) != seq!['/'] ==> {
            let c = combined_path(user_root@, req_path@);
            let u = clean_path(user_root@);
            if !is_prefix(u, c) && c != u {
                r matches Err(e) && e@ == out_of_root_message()
            } else {
                r matches Ok(p) && p@ == c
            }
        },
{
    let u = fix_and_clean_path(user_root);
    let q = fix_and_clean_path(req_path);
    let uc = chars_of(u.as_str());
    let qc = chars_of(q.as_str());
    let root = vec!['/'];
    assert(root@ =~= seq!['/']);
    if chars_eq(&uc, &root) {
        return Ok(q);
    }
    let combined_raw = if chars_eq(&qc, &root) {
        u.clone()
    } else {
        string_of(&concat_chars(&trim_end_chars(&uc, '/'), &qc))
    };
    let combined = fix_and_clean_path(combined_raw.as_str());
    let cc = chars_of(combined.as_str());
    if !chars_starts_with(&cc, &uc) && !chars_eq(&cc, &uc) {
        return Err("路径越权");
    }
    Ok(combined)
}


/// The mount serves `path`: its clean mount path is `path` or an ancestor.
pub open spec fn mount_matches(m: MountInfo, path: Seq<char>) -> bool {
    below(clean_path(m.mount_path@), clean_path(path))
}

/// The length of the longest mount path among the mounts that serve `path`
/// (0 when none does).
pub open spec fn best_len(mounts: Seq<MountInfo>, path: Seq<char>) -> nat
    decreases mounts.len(),
{
    if mounts.len() == 0 {
        0
    } else {
        let b = best_len(mounts.drop_last(), path);
        let m = mounts.last();
        let l = clean_path(m.mount_path@).len();
        if mount_matches(m, path) && l > b { l } else { b }
    }
}

/// The mounts that serve `path` with a mount path of length `best`, in order.
pub open spec fn longest_matches(mounts: Seq<MountInfo>, path: Seq<char>, best: nat) -> Seq<MountInfo>
    decreases mounts.len(),
{
    if mounts.len() == 0 {
        Seq::empty()
    } else {
        let rest = longest_matches(mounts.drop_last(), path, best);
        let m = mounts.last();
        if mount_matches(m, path) && clean_path(m.mount_path@).len() == best { rest.push(m) } else { rest }
    }
}

/// `m` placed into `sorted` after every mount of no greater order.
pub open spec fn insert_by_order(sorted: Seq<MountInfo>, m: MountInfo) -> Seq<MountInfo>
    decreases sorted.len(),
{
    if sorted.len() == 0 {
        seq![m]
    } else if sorted.last().order <= m.order {
        sorted.push(m)
    } else {
        insert_by_order(sorted.drop_last(), m).push(sorted.last())
    }
}

/// The mounts ordered by `order`; mounts of equal order keep their order.
pub open spec fn sort_by_order(s: Seq<MountInfo>) -> Seq<MountInfo>
    decreases s.len(),
{
    if s.len() == 0 { Seq::empty() } else { insert_by_order(sort_by_order(s.drop_last()), s.last()) }
}

/// All storages mounted at the longest mount path that serves `path`,
/// ordered by their `order`.
pub open spec fn matching_mounts(mounts: Seq<MountInfo>, path: Seq<char>) -> Seq<MountInfo> {
    sort_by_order(longest_matches(mounts, path, best_len(mounts, path)))
}

pub open spec fn deref_all(v: Seq<&MountInfo>) -> Seq<MountInfo> {
    Seq::new(v.len(), |k: int| *v[k])
}

proof fn lemma_insert_by_order_at(s: Seq<MountInfo>, m: MountInfo, j: int)
    requires
        0 <= j <= s.len(),
        forall|k: int| j <= k < s.len() ==> (#[trigger] s[k]).order > m.order,
        j == 0 || s[j - 1].order <= m.order,
    ensures
        insert_by_order(s, m) == s.insert(j, m),
    decreases s.len(),
{
    if s.len() == 0 {
        assert(s.insert(j, m) =~= seq![m]);
    } else if j == s.len() {
        assert(s.last().order <= m.order);
        assert(s.insert(j, m) =~= s.push(m));
    } else {
        assert(s.last().order > m.order);
        let d = s.drop_last();
        assert forall|k: int| j <= k < d.len() implies (#[trigger] d[k]).order > m.order by {
            assert(d[k] == s[k]);
        }
        if j > 0 {
            assert(d[j - 1] == s[j - 1]);
        }
        lemma_insert_by_order_at(d, m, j);
        assert(d.insert(j, m).push(s.last()) =~= s.insert(j, m));
    }
}

proof fn lemma_longest_matches_serve(mounts: Seq<MountInfo>, path: Seq<char>, best: nat)
    ensures
        forall|k: int| 0 <= k < longest_matches(mounts, path, best).len()
            ==> mount_matches(#[trigger] longest_matches(mounts, path, best)[k], path),
    decreases mounts.len(),
{
    if mounts.len() > 0 {
        lemma_longest_matches_serve(mounts.drop_last(), path, best);
        let rest = longest_matches(mounts.drop_last(), path, best);
        let lm = longest_matches(mounts, path, best);
        assert forall|k: int| 0 <= k < lm.len() implies mount_matches(#[trigger] lm[k], path) by {
            if k < rest.len() {
                assert(lm[k] == rest[k]);
            }
        }
    }
}

proof fn lemma_insert_keeps(sorted: Seq<MountInfo>, m: MountInfo, path: Seq<char>)
    requires
        forall|k: int| 0 <= k < sorted.len() ==> mount_matches(#[trigger] sorted[k], path),
        mount_matches(m, path),
    ensures
        forall|k: int| 0 <= k < insert_by_order(sorted, m).len() ==> mount_matches(#[trigger] insert_by_order(sorted, m)[k], path),
    decreases sorted.len(),
{
    if sorted.len() > 0 && sorted.last().order > m.order {
        let d = sorted.drop_last();
        assert forall|k: int| 0 <= k < d.len() implies mount_matches(#[trigger] d[k], path) by {
            assert(d[k] == sorted[k]);
        }
        lemma_insert_keeps(d, m, path);
        let ins = insert_by_order(d, m);
        let r = insert_by_order(sorted, m);
        assert forall|k: int| 0 <= k < r.len() implies mount_matches(#[trigger] r[k], path) by {
            if k < ins.len() {
                assert(r[k] == ins[k]);
            } else {
                assert(r[k] == sorted.last());
                assert(sorted[sorted.len() - 1] == sorted.last());
            }
        }
    } else if sorted.len() > 0 {
        let r = insert_by_order(sorted, m);
        assert forall|k: int| 0 <= k < r.len() implies mount_matches(#[trigger] r[k], path) by {
            if k < sorted.len() {
                assert(r[k] == sorted[k]);
            }
        }
    }
}

proof fn lemma_sort_keeps(s: Seq<MountInfo>, path: Seq<char>)
    requires
        forall|k: int| 0 <= k < s.len() ==> mount_matches(#[trigger] s[k], path),
    ensures
        forall|k: int| 0 <= k < sort_by_order(s).len() ==> mount_matches(#[trigger] sort_by_order(s)[k], path),
    decreases s.len(),
{
    if s.len() > 0 {
        let d = s.drop_last();
        assert forall|k: int| 0 <= k < d.len() implies mount_matches(#[trigger] d[k], path) by {
            assert(d[k] == s[k]);
        }
        lemma_sort_keeps(d, path);
        lemma_insert_keeps(sort_by_order(d), s.last(), path);
    }
}

/// Every storage chosen for `path` serves it.
pub proof fn lemma_matching_mounts_serve(mounts: Seq<MountInfo>, path: Seq<char>)
    ensures
        forall|k: int| 0 <= k < matching_mounts(mounts, path).len()
            ==> mount_matches(#[trigger] matching_mounts(mounts, path)[k], path),
{
    let b = best_len(mounts, path);
    lemma_longest_matches_serve(mounts, path, b);
    lemma_sort_keeps(longest_matches(mounts, path, b), path);
}

/// A clean path is cut after the mount path of a storage that serves it
/// without splitting a character, and the cut leaves what follows the
/// mount path in characters.
pub proof fn lemma_serving_mount_cut(m: MountInfo, path: Seq<char>)
    requires
        clean_path(path) == path,
        mount_matches(m, path),
    ensures
        cut_at_boundary(path, byte_len_of(clean_path(m.mount_path@)) as int),
        byte_tail(path, byte_len_of(clean_path(m.mount_path@)) as int)
            == path.subrange(clean_path(m.mount_path@).len() as int, path.len() as int),
        byte_len_of(path) > byte_len_of(clean_path(m.mount_path@)) <==> path.len() > clean_path(m.mount_path@).len(),
{
    let c = clean_path(m.mount_path@);
    crate::utils::lemma_clean_path_rooted(path);
    crate::utils::lemma_clean_path_rooted(m.mount_path@);
    if c == seq!['/'] {
        assert(path.subrange(0, 1) =~= seq!['/']);
    } else if path == c {
        assert(path.subrange(0, c.len() as int) =~= c);
    } else {
        assert(is_prefix(c.push('/'), path));
        assert(path.subrange(0, c.len() as int) =~= c.push('/').subrange(0, c.len() as int));
        assert(c.push('/').subrange(0, c.len() as int) =~= c);
    }
    lemma_prefix_cut(c, path);
}

/// All mounts at the longest mount path serving `path` (several storages
/// can share one mount path), ordered by their `order`.
pub fn get_matching_mounts<'a>(path: &str, mounts: &'a [MountInfo]) -> (r: Vec<&'a MountInfo>)
    ensures
        deref_all(r@) == matching_mounts(mounts@, path@),
{
    let p = fix_and_clean_path(path);
    proof { lemma_clean_idempotent(path@); }
    let mut best: usize = 0;
    let mut i: usize = 0;
    while i < mounts.len()
        invariant
            i <= mounts.len(),
            p@ == clean_path(path@),
            clean_path(clean_path(path@)) == clean_path(path@),
            best as nat == best_len(mounts@.take(i as int), path@),
        decreases mounts.len() - i,
    {
        let mp = fix_and_clean_path(mounts[i].mount_path.as_str());
        let l = chars_of(mp.as_str()).len();
        proof { lemma_clean_idempotent(mounts@[i as int].mount_path@); }
        let ok = is_sub_path(mp.as_str(), p.as_str());
        assert(mounts@.take((i + 1) as int).drop_last() =~= mounts@.take(i as int));
        assert(mounts@.take((i + 1) as int).last() == mounts@[i as int]);
        assert(ok == mount_matches(mounts@[i as int], path@));
        assert(l == clean_path(mounts@[i as int].mount_path@).len());
        if ok && l > best {
            best = l;
        }
        i = i + 1;
    }
    assert(mounts@.take(mounts.len() as int) =~= mounts@);
    let ghost b = best_len(mounts@, path@);
    let mut sorted: Vec<&'a MountInfo> = Vec::new();
    let mut i: usize = 0;
    while i < mounts.len()
        invariant
            i <= mounts.len(),
            p@ == clean_path(path@),
            clean_path(clean_path(path@)) == clean_path(path@),
            best as nat == b,
            deref_all(sorted@) == sort_by_order(longest_matches(mounts@.take(i as int), path@, b)),
        decreases mounts.len() - i,
    {
        let m: &'a MountInfo = &mounts[i];
        let mp = fix_and_clean_path(m.mount_path.as_str());
        let l = chars_of(mp.as_str()).len();
        proof { lemma_clean_idempotent(m.mount_path@); }
        let ok = is_sub_path(mp.as_str(), p.as_str());
        assert(mounts@.take((i + 1) as int).drop_last() =~= mounts@.take(i as int));
        assert(mounts@.take((i + 1) as int).last() == mounts@[i as int]);
        assert(*m == mounts@[i as int]);
        assert(ok == mount_matches(mounts@[i as int], path@));
        assert(l == clean_path(mounts@[i as int].mount_path@).len());
        let ghost prev = longest_matches(mounts@.take(i as int), path@, b);
        if ok && l == best {
            assert(longest_matches(mounts@.take((i + 1) as int), path@, b) == prev.push(*m));
            assert(prev.push(*m).drop_last() =~= prev);
            assert(sort_by_order(prev.push(*m)) == insert_by_order(sort_by_order(prev), *m));
            let ghost before = deref_all(sorted@);
            let mut j = sorted.len();
            while j > 0 && sorted[j - 1].order > m.order
                invariant
                    j <= sorted.len(),
                    forall|k: int| j <= k < sorted.len() ==> (#[trigger] sorted@[k]).order > m.order,
                decreases j,
            {
                j = j - 1;
            }
            assert forall|k: int| j <= k < before.len() implies (#[trigger] before[k]).order > m.order by {
                assert(before[k] == *sorted@[k]);
            }
            proof { lemma_insert_by_order_at(before, *m, j as int); }
            sorted.insert(j, m);
            assert(deref_all(sorted@) =~= before.insert(j as int, *m));
        } else {
            assert(longest_matches(mounts@.take((i + 1) as int), path@, b) == prev);
        }
        i = i + 1;
    }
    assert(mounts@.take(mounts.len() as int) =~= mounts@);
    sorted
}

/// The first of the matching mounts (used for writes).
pub fn get_first_mount<'a>(path: &str, mounts: &'a [MountInfo]) -> (r: Option<&'a MountInfo>)
    ensures
        matching_mounts(mounts@, path@).len() == 0 ==> r.is_none(),
        matching_mounts(mounts@, path@).len() > 0 ==> (r matches Some(m) && *m == matching_mounts(mounts@, path@)[0]),
{
    let v = get_matching_mounts(path, mounts);
    if v.len() == 0 {
        None
    } else {
        assert(deref_all(v@)[0] == *v@[0]);
        Some(v[0])
    }
}


/// The storages able to answer with a direct link, in order.
pub open spec fn direct_link_drivers(d: Seq<DriverMatch>) -> Seq<DriverMatch>
    decreases d.len(),
{
    if d.len() == 0 {
        Seq::empty()
    } else {
        let rest = direct_link_drivers(d.drop_last());
        if d.last().can_direct_link { rest.push(d.last()) } else { rest }
    }
}

/// The storages taken in turn: the direct-link capable ones when there are
/// any, else all of them.
pub open spec fn candidates(d: Seq<DriverMatch>) -> Seq<DriverMatch> {
    if direct_link_drivers(d).len() > 0 { direct_link_drivers(d) } else { d }
}

/// Default choice among the storages holding a file: direct-link capable
/// storages first, and in turn by `counter` among the candidates.
pub fn select_driver_default_with_counter(drivers: &[DriverMatch], counter: u64) -> (r: Option<&DriverMatch>)
    ensures
        drivers@.len() == 0 ==> r.is_none(),
        drivers@.len() > 0 ==> (r matches Some(x) && *x == candidates(drivers@)[
            (counter as usize) as int % candidates(drivers@).len() as int]),
{
    if drivers.len() == 0 {
        return None;
    }
    let mut redirect: Vec<&DriverMatch> = Vec::new();
    let mut i: usize = 0;
    while i < drivers.len()
        invariant
            i <= drivers.len(),
            redirect@.len() == direct_link_drivers(drivers@.take(i as int)).len(),
            forall|k: int| 0 <= k < redirect@.len() ==> *redirect@[k] == #[trigger] direct_link_drivers(drivers@.take(i as int))[k],
        decreases drivers.len() - i,
    {
        assert(drivers@.take((i + 1) as int).drop_last() =~= drivers@.take(i as int));
        assert(drivers@.take((i + 1) as int).last() == drivers@[i as int]);
        if drivers[i].can_direct_link {
            redirect.push(&drivers[i]);
        }
        i = i + 1;
    }
    assert(drivers@.take(drivers.len() as int) =~= drivers@);
    let idx = counter as usize;
    if redirect.len() > 0 {
        let k = idx % redirect.len();
        Some(redirect[k])
    } else {
        let k = idx % drivers.len();
        Some(&drivers[k])
    }
}

proof fn lemma_direct_link_drivers_capable(d: Seq<DriverMatch>)
    ensures
        forall|k: int| 0 <= k < direct_link_drivers(d).len() ==> (#[trigger] direct_link_drivers(d)[k]).can_direct_link,
        (exists|k: int| 0 <= k < d.len() && (#[trigger] d[k]).can_direct_link) ==> direct_link_drivers(d).len() > 0,
    decreases d.len(),
{
    if d.len() > 0 {
        lemma_direct_link_drivers_capable(d.drop_last());
        let r = direct_link_drivers(d.drop_last());
        if d.last().can_direct_link {
            assert forall|k: int| 0 <= k < r.push(d.last()).len() implies (#[trigger] r.push(d.last())[k]).can_direct_link by {
                if k < r.len() { assert(r.push(d.last())[k] == r[k]); }
            }
        }
        if exists|k: int| 0 <= k < d.len() && (#[trigger] d[k]).can_direct_link {
            let k = choose|k: int| 0 <= k < d.len() && (#[trigger] d[k]).can_direct_link;
            if k < d.len() - 1 {
                assert(d.drop_last()[k] == d[k]);
            }
        }
    }
}

/// What the choice of a download's storage reads of a load-balancing
/// group: whether it is on, and the storages in it.
#[derive(Debug)]
pub struct BalanceGroupView {
    pub enabled: bool,
    pub driver_ids: Vec<String>,
}

/// A group is consulted for a download when it is on and holds one of the
/// storages that have the file.
pub open spec fn group_serves(g: BalanceGroupView, drivers: Seq<DriverMatch>) -> bool {
    g.enabled && exists|a: int, b: int| 0 <= a < g.driver_ids.len() && 0 <= b < drivers.len()
        && #[trigger] g.driver_ids[a]@ == #[trigger] drivers[b].mount.id@
}

fn holds_any(ids: &Vec<String>, drivers: &[DriverMatch]) -> (r: bool)
    ensures
        r == exists|a: int, b: int| 0 <= a < ids@.len() && 0 <= b < drivers@.len()
            && #[trigger] ids@[a]@ == #[trigger] drivers@[b].mount.id@,
{
    let mut a: usize = 0;
    while a < ids.len()
        invariant
            a <= ids.len(),
            forall|x: int, y: int| 0 <= x < a && 0 <= y < drivers@.len() ==> #[trigger] ids@[x]@ != #[trigger] drivers@[y].mount.id@,
        decreases ids.len() - a,
    {
        let mut b: usize = 0;
        while b < drivers.len()
            invariant
                a < ids.len(),
                b <= drivers.len(),
                forall|x: int, y: int| 0 <= x < a && 0 <= y < drivers@.len() ==> #[trigger] ids@[x]@ != #[trigger] drivers@[y].mount.id@,
                forall|y: int| 0 <= y < b ==> ids@[a as int]@ != #[trigger] drivers@[y].mount.id@,
            decreases drivers.len() - b,
        {
            if str_eq(ids[a].as_str(), drivers[b].mount.id.as_str()) {
                return true;
            }
            b = b + 1;
        }
        a = a + 1;
    }
    false
}

/// The next group, from position `from` on, to ask for a download's
/// storage: the first that is on and holds one of the storages that have
/// the file.
pub fn next_balance_group(groups: &Vec<BalanceGroupView>, drivers: &[DriverMatch], from: usize) -> (r: Option<usize>)
    ensures
        r matches Some(i) ==> from <= i < groups@.len() && group_serves(groups@[i as int], drivers@)
            && forall|j: int| from <= j < i ==> !group_serves(#[trigger] groups@[j], drivers@),
        r is None ==> forall|j: int| from <= j < groups@.len() ==> !group_serves(#[trigger] groups@[j], drivers@),
{
    let mut i = from;
    while i < groups.len()
        invariant
            from <= i,
            forall|j: int| from <= j < i && j < groups@.len() ==> !group_serves(#[trigger] groups@[j], drivers@),
        decreases groups.len() - i,
    {
        if groups[i].enabled && holds_any(&groups[i].driver_ids, drivers) {
            return Some(i);
        }
        i = i + 1;
    }
    None
}

/// The first storage with id `id` among those that have the file.
pub fn driver_with_id(drivers: &[DriverMatch], id: &str) -> (r: Option<usize>)
    ensures
        r matches Some(i) ==> i < drivers@.len() && drivers@[i as int].mount.id@ == id@
            && forall|j: int| 0 <= j < i ==> (#[trigger] drivers@[j]).mount.id@ != id@,
        r is None ==> forall|j: int| 0 <= j < drivers@.len() ==> (#[trigger] drivers@[j]).mount.id@ != id@,
{
    let mut i: usize = 0;
    while i < drivers.len()
        invariant
            i <= drivers.len(),
            forall|j: int| 0 <= j < i ==> (#[trigger] drivers@[j]).mount.id@ != id@,
        decreases drivers.len() - i,
    {
        if str_eq(drivers[i].mount.id.as_str(), id) {
            return Some(i);
        }
        i = i + 1;
    }
    None
}

/// The download's storage as chosen: its id, the file's path inside it,
/// and whether it can hand out a direct link.
pub fn selected_driver(d: &DriverMatch) -> (r: SelectedDriver)
    ensures
        r.driver_id@ == d.mount.id@,
        r.internal_path@ == d.actual_path@,
        r.can_direct_link == d.can_direct_link,
{
    SelectedDriver {
        driver_id: copy_str(d.mount.id.as_str()),
        internal_path: copy_str(d.actual_path.as_str()),
        can_direct_link: d.can_direct_link,
    }
}

/// Law: when some storage holding the file can answer with a direct link,
/// the default choice can.
pub proof fn lemma_selection_prefers_direct_link(d: Seq<DriverMatch>, counter: u64)
    requires
        exists|k: int| 0 <= k < d.len() && (#[trigger] d[k]).can_direct_link,
    ensures
        candidates(d)[(counter as usize) as int % candidates(d).len() as int].can_direct_link,
{
    lemma_direct_link_drivers_capable(d);
    let c = candidates(d);
    let i = (counter as usize) as int % c.len() as int;
    assert(0 <= i < c.len());
}

/// Law: consecutive counters take the candidates in turn, wrapping around.
pub proof fn lemma_selection_round_robin(d: Seq<DriverMatch>, counter: u64)
    requires
        d.len() > 0,
        counter < u64::MAX,
        (counter as usize) < usize::MAX,
        ((counter + 1) as u64) as usize == (counter as usize) + 1,
    ensures
        ((counter + 1) as u64 as usize) as int % candidates(d).len() as int
            == ((counter as usize) as int % candidates(d).len() as int + 1) % candidates(d).len() as int,
{
    let n = candidates(d).len() as int;
    assert(n > 0);
    let c = (counter as usize) as int;
    vstd::arithmetic::div_mod::lemma_add_mod_noop(c, 1, n);
    vstd::arithmetic::div_mod::lemma_add_mod_noop(c % n, 1, n);
    vstd::arithmetic::div_mod::lemma_mod_twice(c, n);
}

/// The candidate that the `j`-th counter from `k` selects among `n`.
pub open spec fn turn_index(k: u64, j: int, n: int) -> int {
    ((k + j) as u64 as usize) as int % n
}

/// Some of the `n` counters from `k` selects the candidate `i`.
pub open spec fn selected_in_turn(k: u64, n: int, i: int) -> bool {
    exists|j: int| 0 <= j < n && #[trigger] turn_index(k, j, n) == i
}

proof fn lemma_residue_hit(k: int, n: int, i: int) -> (j: int)
    requires
        n > 0,
        k >= 0,
        0 <= i < n,
    ensures
        0 <= j < n,
        (k + j) % n == i,
{
    let q = k / n;
    let c = k % n;
    vstd::arithmetic::div_mod::lemma_fundamental_div_mod(k, n);
    assert(k == q * n + c) by (nonlinear_arith)
        requires k == n * (k / n) + (k % n), q == k / n, c == k % n;
    if i >= c {
        let j = i - c;
        assert(k + j == q * n + i);
        vstd::arithmetic::div_mod::lemma_fundamental_div_mod_converse_mod(k + j, n, q, i);
        j
    } else {
        let j = i - c + n;
        assert(k + j == (q + 1) * n + i) by (nonlinear_arith)
            requires k == q * n + c, j == i - c + n;
        vstd::arithmetic::div_mod::lemma_fundamental_div_mod_converse_mod(k + j, n, q + 1, i);
        j
    }
}

proof fn lemma_residues_differ(k: int, n: int, j1: int, j2: int)
    requires
        n > 0,
        k >= 0,
        0 <= j1 < j2 < n,
    ensures
        (k + j1) % n != (k + j2) % n,
{
    let a = (k + j1) / n;
    let b = (k + j2) / n;
    vstd::arithmetic::div_mod::lemma_fundamental_div_mod(k + j1, n);
    vstd::arithmetic::div_mod::lemma_fundamental_div_mod(k + j2, n);
    if (k + j1) % n == (k + j2) % n {
        assert(j2 - j1 == n * (b - a)) by (nonlinear_arith)
            requires k + j1 == n * a + (k + j1) % n, k + j2 == n * b + (k + j2) % n,
                (k + j1) % n == (k + j2) % n;
        assert(false) by (nonlinear_arith)
            requires j2 - j1 == n * (b - a), 0 < j2 - j1 < n, n > 0;
    }
}

/// Law: `n` consecutive counters from `k`, where `n` is the number of
/// candidates, select each candidate exactly once.
pub proof fn lemma_selection_each_once(d: Seq<DriverMatch>, k: u64)
    requires
        d.len() > 0,
        k + candidates(d).len() <= usize::MAX,
    ensures
        forall|i: int| 0 <= i < candidates(d).len() ==> #[trigger] selected_in_turn(k, candidates(d).len() as int, i),
        forall|j1: int, j2: int| 0 <= j1 < j2 < candidates(d).len() ==>
            #[trigger] turn_index(k, j1, candidates(d).len() as int)
            != #[trigger] turn_index(k, j2, candidates(d).len() as int),
{
    let n = candidates(d).len() as int;
    assert forall|i: int| 0 <= i < n implies #[trigger] selected_in_turn(k, n, i) by {
        let j = lemma_residue_hit(k as int, n, i);
        assert(((k + j) as u64 as usize) as int == k + j);
        assert(turn_index(k, j, n) == i);
    }
    assert forall|j1: int, j2: int| 0 <= j1 < j2 < n implies
        #[trigger] turn_index(k, j1, n) != #[trigger] turn_index(k, j2, n) by {
        assert(((k + j1) as u64 as usize) as int == k + j1);
        assert(((k + j2) as u64 as usize) as int == k + j2);
        lemma_residues_differ(k as int, n, j1, j2);
    }
}

/// The path inside a storage of a file found in the directory
/// `actual_parent` of that storage: the directory without trailing
/// slashes, `/`, the file name, cleaned.
pub fn found_file_path(actual_parent: &str, filename: &str) -> (r: String)
    ensures
        r@ == clean_path(trim_end_char(actual_parent@, '/') + seq!['/'] + filename@),
{
    let mut p = trim_end_chars(&chars_of(actual_parent), '/');
    p.push('/');
    let full = concat_chars(&p, &chars_of(filename));
    assert(full@ =~= trim_end_char(actual_parent@, '/') + seq!['/'] + filename@);
    let joined = string_of(&full);
    fix_and_clean_path(joined.as_str())
}


proof fn lemma_order_asymmetric(a: MountInfo, b: MountInfo)
    ensures
        !(((a).order < (b).order) && ((b).order < (a).order)),
{

}

proof fn lemma_order_not_before_transitive(x: MountInfo, y: MountInfo, z: MountInfo)
    ensures
        (!((x).order < (y).order) && !((y).order < (z).order)) ==> !((x).order < (z).order),
{

}

/// No entry comes strictly before one placed ahead of it.
pub open spec fn order_sorted(s: Seq<MountInfo>) -> bool {
    forall|i: int, j: int| 0 <= i < j < s.len() ==> !((#[trigger] s[j]).order < (#[trigger] s[i]).order)
}

proof fn lemma_insert_by_order_keeps(s: Seq<MountInfo>, m: MountInfo, q: spec_fn(MountInfo) -> bool)
    requires
        forall|i: int| 0 <= i < s.len() ==> q(#[trigger] s[i]),
        q(m),
    ensures
        forall|i: int| 0 <= i < insert_by_order(s, m).len() ==> q(#[trigger] insert_by_order(s, m)[i]),
    decreases s.len(),
{
    if s.len() == 0 {
    } else if !((m).order < (s.last()).order) {
        let r = s.push(m);
        assert forall|i: int| 0 <= i < r.len() implies q(#[trigger] r[i]) by {
            if i < s.len() { assert(r[i] == s[i]); }
        }
    } else {
        let d = s.drop_last();
        assert forall|i: int| 0 <= i < d.len() implies q(#[trigger] d[i]) by { assert(d[i] == s[i]); }
        lemma_insert_by_order_keeps(d, m, q);
        let t = insert_by_order(d, m);
        let r = t.push(s.last());
        assert forall|i: int| 0 <= i < r.len() implies q(#[trigger] r[i]) by {
            if i < t.len() { assert(r[i] == t[i]); } else { assert(r[i] == s[s.len() - 1]); }
        }
    }
}

proof fn lemma_insert_by_order_sorted(s: Seq<MountInfo>, m: MountInfo)
    requires
        order_sorted(s),
    ensures
        order_sorted(insert_by_order(s, m)),
        insert_by_order(s, m).to_multiset() == s.to_multiset().insert(m),
    decreases s.len(),
{
    broadcast use vstd::seq_lib::to_multiset_build;
    if s.len() == 0 {
        assert(seq![m] =~= s.push(m));
    } else if !((m).order < (s.last()).order) {
        let r = s.push(m);
        assert forall|i: int, j: int| 0 <= i < j < r.len() implies !((#[trigger] r[j]).order < (#[trigger] r[i]).order) by {
            assert(r[i] == s[i]);
            if j < s.len() {
                assert(r[j] == s[j]);
            } else if i < s.len() - 1 {
                lemma_order_not_before_transitive(m, s[s.len() - 1], s[i]);
            }
        }
    } else {
        let d = s.drop_last();
        let last = s.last();
        assert forall|i: int, j: int| 0 <= i < j < d.len() implies !((#[trigger] d[j]).order < (#[trigger] d[i]).order) by {
            assert(d[i] == s[i] && d[j] == s[j]);
        }
        lemma_insert_by_order_sorted(d, m);
        let t = insert_by_order(d, m);
        let q = |x: MountInfo| !((last).order < (x).order);
        assert forall|i: int| 0 <= i < d.len() implies q(#[trigger] d[i]) by {
            assert(d[i] == s[i]);
            assert(s[s.len() - 1] == last);
        }
        lemma_order_asymmetric(m, last);
        lemma_insert_by_order_keeps(d, m, q);
        let r = t.push(last);
        assert forall|i: int, j: int| 0 <= i < j < r.len() implies !((#[trigger] r[j]).order < (#[trigger] r[i]).order) by {
            assert(r[i] == t[i]);
            if j < t.len() {
                assert(r[j] == t[j]);
            } else {
                assert(q(t[i]));
            }
        }
        assert(s =~= d.push(last));
    }
}

/// Law: the mounts sorted by order are in ascending order and are exactly the mounts given.
pub proof fn lemma_sort_by_order_sorted(s: Seq<MountInfo>)
    ensures
        order_sorted(sort_by_order(s)),
        sort_by_order(s).to_multiset() == s.to_multiset(),
    decreases s.len(),
{
    broadcast use vstd::seq_lib::to_multiset_build;
    if s.len() == 0 {
        assert(s =~= Seq::<MountInfo>::empty());
    } else {
        lemma_sort_by_order_sorted(s.drop_last());
        lemma_insert_by_order_sorted(sort_by_order(s.drop_last()), s.last());
        assert(s =~= s.drop_last().push(s.last()));
    }
}

} // verus!
