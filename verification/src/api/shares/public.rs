//! The public side of shares: whether a share may be opened, its
//! extraction code, the directory a visitor asks for inside it, and the
//! ordered pages of its entries.

use vstd::prelude::*;
use crate::api::direct_links::LinkDenial;
use crate::api::files::list::{ListEntry, SortField, sort_field_of, is_desc, has_name};
use crate::api::files::common::text_or_empty;
use crate::clock::{expired_at, is_expired, rfc3339_instant, before};
use crate::sorting::{SortKey, key_view, sort_keyed, keyed, firsts, sort_by_keys, lemma_sort_keyed_keeps,
    lemma_sort_keyed_dirs_first};
use crate::text::{chars_of, string_of, concat_chars, str_eq, to_lowercase, lowercase, is_prefix,
    chars_starts_with, chars_eq, trim_start_chars, trim_start_char};
use crate::utils::{fix_and_clean_path, clean_path, lemma_clean_idempotent, add_sep, with_trailing_sep};

verus! {

/// A visitor's extraction code.
#[derive(Debug)]
pub struct VerifyShareRequest {
    pub password: Option<String>,
}

/// A visitor's request for entries of a shared directory.
#[derive(Debug)]
pub struct ShareFileRequest {
    pub sub_path: Option<String>,
    pub page: Option<i64>,
    pub per_page: Option<i64>,
    pub sort_by: Option<String>,
    pub sort_order: Option<String>,
}

/// Whether and why a share cannot be opened at `now`: unknown (404, with
/// the given message), then disabled (403), then expired (410), then used
/// up (410). `expiry_checked` is off for the listing of a share's files,
/// which looks at neither the expiry nor the access count.
pub open spec fn share_denial(
    found: bool,
    enabled: bool,
    expires_at: Option<Seq<char>>,
    max_access_count: Option<i64>,
    access_count: i64,
    now: (i64, u32),
    not_found_message: Seq<char>,
    expiry_checked: bool,
) -> Option<(u16, Seq<char>, Seq<char>)> {
    if !found {
        Some((404, "NOT_FOUND"@, not_found_message))
    } else if !enabled {
        Some((403, "DISABLED"@, "分享已被禁用"@))
    } else if expiry_checked && (expires_at matches Some(e) && expired_at(e, now)) {
        Some((410, "EXPIRED"@, "分享已过期"@))
    } else if expiry_checked && (max_access_count matches Some(m) && access_count >= m) {
        Some((410, "EXHAUSTED"@, "分享访问次数已达上限"@))
    } else {
        None
    }
}

/// Law: an enabled share opens when its access limit is not reached and
/// its expiry (read as RFC 3339) is not before the present; a share is
/// refused as expired only when an expiry it has has passed.
pub proof fn lemma_share_opens_until_expiry(
    expires: Option<Seq<char>>,
    max_access_count: Option<i64>,
    access_count: i64,
    now: (i64, u32),
    not_found_message: Seq<char>,
    expiry_checked: bool,
)
    ensures
        (expires matches Some(e) && rfc3339_instant(e) matches Some(t) && !before(t, now))
            && (max_access_count matches Some(m) ==> access_count < m)
            ==> share_denial(true, true, expires, max_access_count, access_count, now, not_found_message, expiry_checked) is None,
        (expires is None && (max_access_count matches Some(m) ==> access_count < m))
            ==> share_denial(true, true, expires, max_access_count, access_count, now, not_found_message, expiry_checked) is None,
        share_denial(true, true, expires, max_access_count, access_count, now, not_found_message, expiry_checked)
            matches Some(d) && d.0 == 410 && d.1 == "EXPIRED"@
            ==> (expiry_checked && (expires matches Some(e) && expired_at(e, now))),
        expiry_checked && expires is None && (max_access_count matches Some(m) && access_count >= m)
            ==> share_denial(true, true, expires, max_access_count, access_count, now, not_found_message, expiry_checked)
                == Some((410u16, "EXHAUSTED"@, "分享访问次数已达上限"@)),
        share_denial(true, false, expires, max_access_count, access_count, now, not_found_message, expiry_checked)
            == Some((403u16, "DISABLED"@, "分享已被禁用"@)),
{
    reveal_strlit("EXPIRED");
    reveal_strlit("EXHAUSTED");
    assert("EXPIRED"@ != "EXHAUSTED"@) by {
        assert("EXPIRED"@[2] != "EXHAUSTED"@[2]);
    }
}

fn denial(status: u16, code: &str, message: &str) -> (r: LinkDenial)
    ensures
        r.status == status,
        r.code@ == code@,
        r.message@ == message@,
{
    LinkDenial { status, code: String::from_str(code), message: String::from_str(message) }
}

/// Decides whether a share may be opened. The share's state is given as
/// `(enabled, expires_at, max_access_count, access_count)`, or `None`
/// when no share has the id.
pub fn check_share(
    share: Option<(bool, Option<&str>, Option<i64>, i64)>,
    now: (i64, u32),
    not_found_message: &str,
    expiry_checked: bool,
) -> (r: Result<(), LinkDenial>)
    ensures
        ({
            let d = match share {
                None => share_denial(false, false, None, None, 0, now, not_found_message@, expiry_checked),
                Some((en, ex, mx, ac)) => share_denial(true, en, match ex { Some(e) => Some(e@), None => None },
                    mx, ac, now, not_found_message@, expiry_checked),
            };
            match d {
                None => r is Ok,
                Some((status, code, message)) => r matches Err(x) && x.status == status && x.code@ == code
                    && x.message@ == message,
            }
        }),
{
    let (enabled, expires_at, max_access_count, access_count) = match share {
        None => {
            return Err(denial(404, "NOT_FOUND", not_found_message));
        },
        Some(s) => s,
    };
    if !enabled {
        return Err(denial(403, "DISABLED", "分享已被禁用"));
    }
    if expiry_checked {
        if let Some(e) = expires_at {
            if is_expired(e, now) {
                return Err(denial(410, "EXPIRED", "分享已过期"));
            }
        }
        if let Some(m) = max_access_count {
            if access_count >= m {
                return Err(denial(410, "EXHAUSTED", "分享访问次数已达上限"));
            }
        }
    }
    Ok(())
}

/// Checks the extraction code a visitor gives (none given counts as
/// empty) against the share's, when it has one.
pub fn check_share_password(share_password: Option<&str>, given: Option<&str>) -> (r: Result<(), LinkDenial>)
    ensures
        match share_password {
            None => r is Ok,
            Some(p) => {
                let g = match given { Some(x) => x@, None => Seq::<char>::empty() };
                if g == p@ {
                    r is Ok
                } else {
                    r matches Err(x) && x.status == 403 && x.code@ == "WRONG_PASSWORD"@ && x.message@ == "提取码错误"@
                }
            },
        },
{
    match share_password {
        None => Ok(()),
        Some(p) => {
            let g = match given {
                Some(x) => chars_of(x),
                None => Vec::new(),
            };
            if chars_eq(&g, &chars_of(p)) {
                Ok(())
            } else {
                Err(denial(403, "WRONG_PASSWORD", "提取码错误"))
            }
        },
    }
}

/// The path a visitor asks for inside a shared directory at `base`
/// (clean): the sub-path without its leading `/` joined below the base,
/// then cleaned; refused unless the result is the base or lies below it.
pub open spec fn share_dir_path_of(base: Seq<char>, sub_path: Option<Seq<char>>) -> Option<Seq<char>> {
    let joined = match sub_path {
        Some(s) => {
            let t = trim_start_char(s, '/');
            if t.len() == 0 { base } else { base + seq!['/'] + t }
        },
        None => base,
    };
    let c = clean_path(joined);
    if c == base || is_prefix(add_sep(base), c) { Some(c) } else { None }
}

/// The path a visitor asks for inside a shared directory.
pub fn share_dir_path(base: &str, sub_path: Option<&str>) -> (r: Result<String, LinkDenial>)
    ensures
        match share_dir_path_of(base@, match sub_path { Some(s) => Some(s@), None => None }) {
            Some(p) => r matches Ok(q) && q@ == p,
            None => r matches Err(x) && x.status == 403 && x.code@ == "FORBIDDEN"@ && x.message@ == "无权访问此路径"@,
        },
{
    let b = chars_of(base);
    let joined = match sub_path {
        Some(s) => {
            let t = trim_start_chars(&chars_of(s), '/');
            if t.len() == 0 {
                string_of(&b)
            } else {
                let slash = vec!['/'];
                assert(slash@ =~= seq!['/']);
                string_of(&concat_chars(&concat_chars(&b, &slash), &t))
            }
        },
        None => string_of(&b),
    };
    let c = fix_and_clean_path(joined.as_str());
    let cc = chars_of(c.as_str());
    if chars_eq(&cc, &b) || chars_starts_with(&cc, &with_trailing_sep(&b)) {
        Ok(c)
    } else {
        Err(denial(403, "FORBIDDEN", "无权访问此路径"))
    }
}

/// Law: what a visitor may open of a shared directory is the shared path
/// or lies below it.
pub proof fn lemma_share_path_within(base: Seq<char>, sub_path: Option<Seq<char>>)
    requires
        share_dir_path_of(base, sub_path) is Some,
    ensures
        ({
            let p = share_dir_path_of(base, sub_path)->0;
            p == base || is_prefix(add_sep(base), p)
        }),
{
}


/// The path of a file a visitor downloads from a share at `base`: in a
/// shared directory, the file name below the sub-path (its leading `/`
/// dropped) below the cleaned base, cleaned, and refused unless it is the
/// cleaned base or lies below it; of a shared file, only the file's own name, which
/// gives the cleaned base.
pub open spec fn share_download_path_of(
    base: Seq<char>,
    is_dir: bool,
    share_name: Seq<char>,
    sub_path: Option<Seq<char>>,
    filename: Seq<char>,
) -> Option<Seq<char>> {
    let b = clean_path(base);
    if is_dir {
        let joined = match sub_path {
            Some(s) => {
                let t = trim_start_char(s, '/');
                if t.len() == 0 {
                    b + seq!['/'] + filename
                } else {
                    b + seq!['/'] + t + seq!['/'] + filename
                }
            },
            None => b + seq!['/'] + filename,
        };
        let c = clean_path(joined);
        if c == b || is_prefix(add_sep(b), c) { Some(c) } else { None }
    } else if filename == share_name {
        Some(clean_path(b))
    } else {
        None
    }
}

/// The path of a file a visitor downloads from a share.
pub fn share_download_path(
    base: &str,
    is_dir: bool,
    share_name: &str,
    sub_path: Option<&str>,
    filename: &str,
) -> (r: Result<String, LinkDenial>)
    ensures
        match share_download_path_of(base@, is_dir, share_name@,
            match sub_path { Some(s) => Some(s@), None => None }, filename@) {
            Some(p) => r matches Ok(q) && q@ == p,
            None => r matches Err(x) && x.status == 403 && x.code@ == "FORBIDDEN"@ && x.message@ == "无权下载此文件"@,
        },
{
    let b = fix_and_clean_path(base);
    let bc = chars_of(b.as_str());
    if !is_dir {
        if !str_eq(filename, share_name) {
            return Err(denial(403, "FORBIDDEN", "无权下载此文件"));
        }
        return Ok(fix_and_clean_path(b.as_str()));
    }
    let slash = vec!['/'];
    assert(slash@ =~= seq!['/']);
    let f = chars_of(filename);
    let head = concat_chars(&bc, &slash);
    let joined = match sub_path {
        Some(s) => {
            let t = trim_start_chars(&chars_of(s), '/');
            if t.len() == 0 {
                concat_chars(&head, &f)
            } else {
                concat_chars(&concat_chars(&concat_chars(&head, &t), &slash), &f)
            }
        },
        None => concat_chars(&head, &f),
    };
    let joined_text = string_of(&joined);
    let c = fix_and_clean_path(joined_text.as_str());
    let cc = chars_of(c.as_str());
    if chars_eq(&cc, &bc) || chars_starts_with(&cc, &with_trailing_sep(&bc)) {
        Ok(c)
    } else {
        Err(denial(403, "FORBIDDEN", "无权下载此文件"))
    }
}

/// Law: a file a visitor may download from a share is the share's cleaned
/// path or lies below it.
pub proof fn lemma_share_download_within(
    base: Seq<char>,
    is_dir: bool,
    share_name: Seq<char>,
    sub_path: Option<Seq<char>>,
    filename: Seq<char>,
)
    requires
        share_download_path_of(base, is_dir, share_name, sub_path, filename) is Some,
    ensures
        ({
            let p = share_download_path_of(base, is_dir, share_name, sub_path, filename)->0;
            p == clean_path(base) || is_prefix(add_sep(clean_path(base)), p)
        }),
{
    if !is_dir {
        lemma_clean_idempotent(base);
    }
}

/// The key a shared entry is ordered by: directories first, then the
/// lowercase name, the modification text (entries without one first) or
/// the size.
pub open spec fn share_key(e: ListEntry, f: SortField) -> (bool, int, Seq<char>) {
    match f {
        SortField::Name => (e.is_dir, 0, lowercase(e.name@)),
        SortField::Modified => (e.is_dir, if e.modified is Some { 1 } else { 0 }, text_or_empty(e.modified)),
        SortField::Size => (e.is_dir, e.size as int, Seq::empty()),
    }
}

pub open spec fn sorted_share(entries: Seq<ListEntry>, f: SortField, desc: bool) -> Seq<ListEntry> {
    firsts(sort_keyed(keyed(entries, entries.map_values(|e: ListEntry| share_key(e, f))), desc))
}

/// Orders the entries of a shared directory as the visitor asked
/// (directories first, then the field, reversed for `desc`); entries that
/// compare equal keep their order.
pub fn sort_share_entries(entries: Vec<ListEntry>, sort_by: Option<&str>, sort_order: Option<&str>) -> (r: Vec<ListEntry>)
    ensures
        r@ == sorted_share(
            entries@,
            sort_field_of(match sort_by { Some(s) => Some(s@), None => None }),
            is_desc(match sort_order { Some(s) => Some(s@), None => None }),
        ),
{
    let f = match sort_by {
        Some(s) => if str_eq(s, "modified") {
            SortField::Modified
        } else if str_eq(s, "size") {
            SortField::Size
        } else {
            SortField::Name
        },
        None => SortField::Name,
    };
    let desc = match sort_order {
        Some(o) => str_eq(o, "desc"),
        None => false,
    };
    let mut keys: Vec<SortKey> = Vec::new();
    let mut i: usize = 0;
    while i < entries.len()
        invariant
            i <= entries.len(),
            keys@.len() == i,
            forall|k: int| 0 <= k < i ==> key_view(#[trigger] keys@[k]) == share_key(entries@[k], f),
        decreases entries.len() - i,
    {
        let e = &entries[i];
        let empty: Vec<char> = Vec::new();
        assert(empty@ =~= Seq::<char>::empty());
        let key = match f {
            SortField::Name => {
                let low = to_lowercase(e.name.as_str());
                SortKey { is_dir: e.is_dir, num: 0, text: chars_of(low.as_str()) }
            },
            SortField::Modified => match &e.modified {
                Some(m) => SortKey { is_dir: e.is_dir, num: 1, text: chars_of(m.as_str()) },
                None => SortKey { is_dir: e.is_dir, num: 0, text: empty },
            },
            SortField::Size => SortKey { is_dir: e.is_dir, num: e.size as i128, text: empty },
        };
        keys.push(key);
        i = i + 1;
    }
    assert(keys@.map_values(|k: SortKey| key_view(k)) =~= entries@.map_values(|e: ListEntry| share_key(e, f)));
    sort_by_keys(entries, keys, desc)
}

/// Law: whatever field and direction a shared directory is ordered by,
/// every directory comes before every file.
pub proof fn lemma_share_dirs_first(entries: Seq<ListEntry>, f: SortField, desc: bool)
    ensures
        forall|i: int, j: int| 0 <= i < j < sorted_share(entries, f, desc).len() ==>
            !(!(#[trigger] sorted_share(entries, f, desc)[i]).is_dir && (#[trigger] sorted_share(entries, f, desc)[j]).is_dir),
{
    let ks = keyed(entries, entries.map_values(|e: ListEntry| share_key(e, f)));
    let q = |p: (ListEntry, (bool, int, Seq<char>))| p.1.0 == p.0.is_dir;
    assert forall|i: int| 0 <= i < ks.len() implies q(#[trigger] ks[i]) by {
        assert(ks[i].1 == share_key(entries[i], f));
    }
    lemma_sort_keyed_keeps(ks, desc, q);
    lemma_sort_keyed_dirs_first(ks, desc);
    let srt = sort_keyed(ks, desc);
    let r = firsts(srt);
    assert forall|i: int, j: int| 0 <= i < j < r.len() implies !(!(#[trigger] r[i]).is_dir && (#[trigger] r[j]).is_dir) by {
        assert(q(srt[i]) && q(srt[j]));
        assert(r[i] == srt[i].0 && r[j] == srt[j].0);
    }
}

/// The page and page size of a shared directory: page 1 at least, size
/// between 1 and 100 (50 by default).
pub open spec fn share_page(page: Option<i64>, per_page: Option<i64>) -> (int, int) {
    let p = match page { Some(x) => if x < 1 { 1 } else { x as int }, None => 1 };
    let s = match per_page { Some(x) => if x < 1 { 1 } else if x > 100 { 100 } else { x as int }, None => 50 };
    (p, s)
}

/// The items of page `page` (from 1) of `per_page` items.
pub open spec fn window<T>(s: Seq<T>, page: int, per_page: int) -> Seq<T> {
    let start = (page - 1) * per_page;
    if start < s.len() {
        let end = if start + per_page < s.len() { start + per_page } else { s.len() as int };
        s.subrange(start, end)
    } else {
        Seq::empty()
    }
}

/// One page of the entries of a shared directory, with the page and page
/// size used.
pub fn share_page_of(entries: Vec<ListEntry>, page: Option<i64>, per_page: Option<i64>) -> (r: (Vec<ListEntry>, usize, usize))
    requires
        share_page(page, per_page).0 <= usize::MAX,
        (share_page(page, per_page).0 - 1) * share_page(page, per_page).1 <= usize::MAX,
    ensures
        r.1 == share_page(page, per_page).0,
        r.2 == share_page(page, per_page).1,
        r.0@ == window(entries@, r.1 as int, r.2 as int),
{
    let p: i64 = match page {
        Some(x) => if x < 1 { 1 } else { x },
        None => 1,
    };
    let s: i64 = match per_page {
        Some(x) => if x < 1 { 1 } else if x > 100 { 100 } else { x },
        None => 50,
    };
    let pu = p as usize;
    let su = s as usize;
    assert(0 <= (pu - 1) * su) by (nonlinear_arith)
        requires pu >= 1, su >= 1;
    let start = (pu - 1) * su;
    if start < entries.len() {
        let mut entries = entries;
        let mut tail = entries.split_off(start);
        tail.truncate(su);
        (tail, pu, su)
    } else {
        (Vec::new(), pu, su)
    }
}

} // verus!
