//! Directory listings: the entries of several storages mounted on one path
//! merged by name, the directories that exist only above mount points, the
//! order the user asked for, and the page.

use vstd::prelude::*;
use crate::api::{Refusal, refuse};
use crate::api::files::VirtualDir;
use crate::api::files::common::{text_or_empty, join_user_path, join_user_path_spec, illegal_path_message,
    password_allows, can_access_password, meta_applies, hide_applies, is_hide_apply, can_write};
use crate::api::file_resolver::MountInfo;
use crate::api::files::{get_virtual_files_by_path, virtual_map, vdirs_map};
use crate::models::{Meta, UserPermissions};
use crate::utils::{fix_and_clean_path, clean_path};
use crate::text::{chars_eq, concat_chars, string_of, sub_chars};
use crate::api::archive::{after_last, after_last_of, lemma_after_last_len};
use crate::text::{str_eq, copy_str, chars_of, to_lowercase, lowercase, lex_lt};
use crate::sorting::{SortKey, key_view, sort_keyed, keyed, firsts, sort_by_keys, all_keyed, lemma_sort_keyed_keeps,
    lemma_sort_keyed_dirs_first, lemma_sort_keyed_sorted, comes_before};

verus! {

/// An administrator's listing request.
#[derive(Debug)]
pub struct AdminListReq {
    pub path: Option<String>,
}

/// One entry of a listing; `driver_id` is set on a directory that is itself
/// a mount point.
#[derive(Debug)]
pub struct ListEntry {
    pub name: String,
    pub size: u64,
    pub is_dir: bool,
    pub modified: Option<String>,
    pub driver_id: Option<String>,
}

/// Some entry of `s` is named `name`.
pub open spec fn has_name(s: Seq<ListEntry>, name: Seq<char>) -> bool {
    exists|k: int| 0 <= k < s.len() && s[k].name@ == name
}

/// The entries that are shown (`hidden` flags the others, unless hidden
/// entries are shown too), each name kept at its first occurrence.
pub open spec fn merged(entries: Seq<ListEntry>, hidden: Seq<bool>, show_hidden: bool) -> Seq<ListEntry>
    decreases entries.len(),
{
    if entries.len() == 0 {
        Seq::empty()
    } else {
        let n = entries.len() - 1;
        let r = merged(entries.take(n), hidden.take(n), show_hidden);
        let e = entries[n];
        if (!show_hidden && hidden[n]) || has_name(r, e.name@) { r } else { r.push(e) }
    }
}

fn has_entry_named(v: &Vec<ListEntry>, name: &str) -> (r: bool)
    ensures
        r == has_name(v@, name@),
{
    let mut i: usize = 0;
    while i < v.len()
        invariant
            i <= v.len(),
            forall|k: int| 0 <= k < i ==> (#[trigger] v@[k]).name@ != name@,
        decreases v.len() - i,
    {
        if str_eq(v[i].name.as_str(), name) {
            return true;
        }
        i = i + 1;
    }
    false
}

/// Merges the listings of the storages mounted on one path, taken in the
/// storages' order: hidden entries are dropped unless `show_hidden`, and of
/// several entries with one name the first stays.
pub fn merge_listings(entries: Vec<ListEntry>, hidden: Vec<bool>, show_hidden: bool) -> (r: Vec<ListEntry>)
    requires
        entries@.len() == hidden@.len(),
    ensures
        r@ == merged(entries@, hidden@, show_hidden),
{
    let ghost all = entries@;
    let ghost hid = hidden@;
    let n = entries.len();
    let mut rest = entries;
    let mut out: Vec<ListEntry> = Vec::new();
    let mut i: usize = 0;
    while rest.len() > 0
        invariant
            i + rest@.len() == n,
            n == all.len(),
            hid.len() == n,
            hidden@ == hid,
            forall|k: int| 0 <= k < rest@.len() ==> #[trigger] rest@[k] == all[i + k],
            out@ == merged(all.take(i as int), hid.take(i as int), show_hidden),
        decreases rest.len(),
    {
        let e = rest.remove(0);
        assert(e == all[i as int]);
        assert(all.take(i + 1).take(i as int) =~= all.take(i as int));
        assert(hid.take(i + 1).take(i as int) =~= hid.take(i as int));
        assert(all.take(i + 1)[i as int] == all[i as int]);
        assert(hid.take(i + 1)[i as int] == hid[i as int]);
        let shown = show_hidden || !hidden[i];
        if shown && !has_entry_named(&out, e.name.as_str()) {
            out.push(e);
        }
        i = i + 1;
    }
    assert(all.take(n as int) =~= all);
    assert(hid.take(n as int) =~= hid);
    out
}

/// Law: a merged listing holds each name once, and holds every name that
/// some shown entry of the storages' listings has.
pub proof fn lemma_merged_names(entries: Seq<ListEntry>, hidden: Seq<bool>, show_hidden: bool)
    requires
        entries.len() == hidden.len(),
    ensures
        forall|i: int, j: int| 0 <= i < j < merged(entries, hidden, show_hidden).len() ==>
            (#[trigger] merged(entries, hidden, show_hidden)[i]).name@ != (#[trigger] merged(entries, hidden, show_hidden)[j]).name@,
        forall|k: int| 0 <= k < entries.len() && (show_hidden || !hidden[k]) ==>
            has_name(merged(entries, hidden, show_hidden), (#[trigger] entries[k]).name@),
    decreases entries.len(),
{
    if entries.len() > 0 {
        let n = entries.len() - 1;
        let pe = entries.take(n);
        let ph = hidden.take(n);
        lemma_merged_names(pe, ph, show_hidden);
        let r = merged(pe, ph, show_hidden);
        let e = entries[n];
        let m = merged(entries, hidden, show_hidden);
        if !((!show_hidden && hidden[n]) || has_name(r, e.name@)) {
            assert(m == r.push(e));
            assert forall|i: int, j: int| 0 <= i < j < m.len() implies (#[trigger] m[i]).name@ != (#[trigger] m[j]).name@ by {
                assert(m[i] == r[i]);
                if j < r.len() {
                    assert(m[j] == r[j]);
                } else {
                    assert(m[j] == e);
                }
            }
            assert forall|k: int| 0 <= k < entries.len() && (show_hidden || !hidden[k]) implies
                has_name(m, (#[trigger] entries[k]).name@) by {
                if k < n {
                    assert(pe[k] == entries[k] && ph[k] == hidden[k]);
                    let w = choose|w: int| 0 <= w < r.len() && r[w].name@ == entries[k].name@;
                    assert(m[w] == r[w]);
                } else {
                    assert(m[r.len() as int] == e);
                }
            }
        } else {
            assert(m == r);
            assert forall|k: int| 0 <= k < entries.len() && (show_hidden || !hidden[k]) implies
                has_name(m, (#[trigger] entries[k]).name@) by {
                if k < n {
                    assert(pe[k] == entries[k] && ph[k] == hidden[k]);
                }
            }
        }
    }
}

/// The directories above mount points that join a listing: those shown
/// whose name no entry of `content` has.
pub open spec fn joining_dirs(content: Seq<ListEntry>, dirs: Seq<VirtualDir>, hidden: Seq<bool>, show_hidden: bool) -> Seq<VirtualDir>
    decreases dirs.len(),
{
    if dirs.len() == 0 {
        Seq::empty()
    } else {
        let n = dirs.len() - 1;
        let r = joining_dirs(content, dirs.take(n), hidden.take(n), show_hidden);
        let d = dirs[n];
        if (show_hidden || !hidden[n]) && !has_name(content, d.name@) { r.push(d) } else { r }
    }
}

pub open spec fn opt_view(o: Option<String>) -> Option<Seq<char>> {
    match o {
        Some(s) => Some(s@),
        None => None,
    }
}

/// The listing entry of a directory above mount points: size 0, no date.
pub open spec fn dir_entry(d: VirtualDir) -> ListEntry {
    ListEntry { name: d.name, size: 0, is_dir: true, modified: None, driver_id: d.driver_id }
}

/// `content` followed by the directories above mount points that join it.
pub open spec fn with_dirs(content: Seq<ListEntry>, dirs: Seq<VirtualDir>, hidden: Seq<bool>, show_hidden: bool) -> Seq<ListEntry> {
    content + joining_dirs(content, dirs, hidden, show_hidden).map_values(|d: VirtualDir| dir_entry(d))
}

/// Appends to `content` the directories above mount points that are shown
/// and whose name it does not hold yet.
pub fn add_virtual_dirs(content: Vec<ListEntry>, dirs: Vec<VirtualDir>, hidden: Vec<bool>, show_hidden: bool) -> (r: Vec<ListEntry>)
    requires
        dirs@.len() == hidden@.len(),
    ensures
        r@ == with_dirs(content@, dirs@, hidden@, show_hidden),
{
    let ghost c0 = content@;
    let ghost all = dirs@;
    let ghost hid = hidden@;
    let n = dirs.len();
    let mut rest = dirs;
    let mut out = content;
    let c_len = out.len();
    let mut i: usize = 0;
    while rest.len() > 0
        invariant
            i + rest@.len() == n,
            n == all.len(),
            hid.len() == n,
            hidden@ == hid,
            c_len == c0.len(),
            forall|k: int| 0 <= k < rest@.len() ==> #[trigger] rest@[k] == all[i + k],
            out@ == with_dirs(c0, all.take(i as int), hid.take(i as int), show_hidden),
        decreases rest.len(),
    {
        let d = rest.remove(0);
        assert(d == all[i as int]);
        assert(all.take(i + 1).take(i as int) =~= all.take(i as int));
        assert(hid.take(i + 1).take(i as int) =~= hid.take(i as int));
        assert(all.take(i + 1)[i as int] == all[i as int]);
        assert(hid.take(i + 1)[i as int] == hid[i as int]);
        let ghost prev = joining_dirs(c0, all.take(i as int), hid.take(i as int), show_hidden);
        let ghost before = out@;
        let shown = show_hidden || !hidden[i];
        let mut taken = false;
        if shown {
            let mut j: usize = 0;
            while j < c_len
                invariant_except_break
                    !taken,
                invariant
                    j <= c_len,
                    c_len == c0.len(),
                    out@ == before,
                    before == with_dirs(c0, all.take(i as int), hid.take(i as int), show_hidden),
                    forall|k: int| 0 <= k < j ==> (#[trigger] c0[k]).name@ != d.name@,
                ensures
                    taken ==> j < c_len && c0[j as int].name@ == d.name@,
                    !taken ==> j == c_len,
                decreases c_len - j,
            {
                assert(out@[j as int] == c0[j as int]);
                if str_eq(out[j].name.as_str(), d.name.as_str()) {
                    taken = true;
                    break;
                }
                j = j + 1;
            }
            assert(taken == has_name(c0, d.name@));
        }
        if shown && !taken {
            let entry = ListEntry {
                name: d.name,
                size: 0,
                is_dir: true,
                modified: None,
                driver_id: d.driver_id,
            };
            out.push(entry);
            assert(prev.push(d).map_values(|x: VirtualDir| dir_entry(x)) =~= prev.map_values(|x: VirtualDir| dir_entry(x)).push(dir_entry(d)));
            assert(out@ =~= with_dirs(c0, all.take(i + 1), hid.take(i + 1), show_hidden));
        }
        i = i + 1;
    }
    assert(all.take(n as int) =~= all);
    assert(hid.take(n as int) =~= hid);
    out
}

/// What a listing is ordered by.
#[derive(Debug, Clone, Copy, PartialEq, Eq, Structural)]
pub enum SortField {
    Name,
    Modified,
    Size,
}

/// The field named by a request: `modified`, `size`, else the name.
pub open spec fn sort_field_of(sort_by: Option<Seq<char>>) -> SortField {
    match sort_by {
        Some(s) => if s == "modified"@ { SortField::Modified } else if s == "size"@ { SortField::Size } else { SortField::Name },
        None => SortField::Name,
    }
}

/// The order is descending only when the request says `desc`.
pub open spec fn is_desc(sort_order: Option<Seq<char>>) -> bool {
    sort_order == Some("desc"@)
}

/// The size an entry is ordered by: its size where it fits a signed
/// 64-bit integer, else 0.
pub open spec fn ordered_size(size: u64) -> int {
    if size <= i64::MAX { size as int } else { 0 }
}

/// The key an entry is ordered by: directories first, then the
/// lowercase name, the modification text or the size.
pub open spec fn listing_key(e: ListEntry, f: SortField) -> (bool, int, Seq<char>) {
    match f {
        SortField::Name => (e.is_dir, 0, lowercase(e.name@)),
        SortField::Modified => (e.is_dir, 0, text_or_empty(e.modified)),
        SortField::Size => (e.is_dir, ordered_size(e.size), Seq::empty()),
    }
}

pub open spec fn sorted_listing(content: Seq<ListEntry>, f: SortField, desc: bool) -> Seq<ListEntry> {
    firsts(sort_keyed(keyed(content, content.map_values(|e: ListEntry| listing_key(e, f))), desc))
}

fn field_of(sort_by: Option<&str>) -> (f: SortField)
    ensures
        f == sort_field_of(match sort_by { Some(s) => Some(s@), None => None }),
{
    match sort_by {
        Some(s) => {
            if str_eq(s, "modified") {
                SortField::Modified
            } else if str_eq(s, "size") {
                SortField::Size
            } else {
                SortField::Name
            }
        },
        None => SortField::Name,
    }
}

/// Orders a listing: directories first, then by the requested field
/// (the name by default, compared in lowercase), reversed when the order is
/// `desc`; entries that compare equal keep their order.
pub fn sort_listing(content: Vec<ListEntry>, sort_by: Option<&str>, sort_order: Option<&str>) -> (r: Vec<ListEntry>)
    ensures
        r@ == sorted_listing(
            content@,
            sort_field_of(match sort_by { Some(s) => Some(s@), None => None }),
            is_desc(match sort_order { Some(s) => Some(s@), None => None }),
        ),
{
    let f = field_of(sort_by);
    let desc = match sort_order {
        Some(o) => str_eq(o, "desc"),
        None => false,
    };
    let mut keys: Vec<SortKey> = Vec::new();
    let mut i: usize = 0;
    while i < content.len()
        invariant
            i <= content.len(),
            keys@.len() == i,
            forall|k: int| 0 <= k < i ==> key_view(#[trigger] keys@[k]) == listing_key(content@[k], f),
        decreases content.len() - i,
    {
        let e = &content[i];
        let key = match f {
            SortField::Name => {
                let low = to_lowercase(e.name.as_str());
                SortKey { is_dir: e.is_dir, num: 0, text: chars_of(low.as_str()) }
            },
            SortField::Modified => {
                let text = match &e.modified {
                    Some(m) => chars_of(m.as_str()),
                    None => {
                        let empty: Vec<char> = Vec::new();
                        assert(empty@ =~= Seq::<char>::empty());
                        empty
                    },
                };
                SortKey { is_dir: e.is_dir, num: 0, text }
            },
            SortField::Size => {
                let n: i128 = if e.size <= 0x7fff_ffff_ffff_ffffu64 { e.size as i128 } else { 0 };
                let empty: Vec<char> = Vec::new();
                assert(empty@ =~= Seq::<char>::empty());
                SortKey { is_dir: e.is_dir, num: n, text: empty }
            },
        };
        keys.push(key);
        i = i + 1;
    }
    assert(keys@.map_values(|k: SortKey| key_view(k)) =~= content@.map_values(|e: ListEntry| listing_key(e, f)));
    sort_by_keys(content, keys, desc)
}

/// Law: whatever field and direction a listing is ordered by, every
/// directory comes before every file.
pub proof fn lemma_listing_dirs_first(content: Seq<ListEntry>, f: SortField, desc: bool)
    ensures
        forall|i: int, j: int| 0 <= i < j < sorted_listing(content, f, desc).len() ==>
            !(!(#[trigger] sorted_listing(content, f, desc)[i]).is_dir && (#[trigger] sorted_listing(content, f, desc)[j]).is_dir),
{
    let ks = keyed(content, content.map_values(|e: ListEntry| listing_key(e, f)));
    let q = |p: (ListEntry, (bool, int, Seq<char>))| p.1.0 == p.0.is_dir;
    assert forall|i: int| 0 <= i < ks.len() implies q(#[trigger] ks[i]) by {
        assert(ks[i].1 == listing_key(content[i], f));
    }
    lemma_sort_keyed_keeps(ks, desc, q);
    lemma_sort_keyed_dirs_first(ks, desc);
    let srt = sort_keyed(ks, desc);
    let r = firsts(srt);
    assert forall|i: int, j: int| 0 <= i < j < r.len() implies !(!(#[trigger] r[i]).is_dir && (#[trigger] r[j]).is_dir) by {
        assert(q(srt[i]) && q(srt[j]));
        assert(r[i] == srt[i].0 && r[j] == srt[j].0);
    }
}

/// Law: among directories, and among files, a listing follows the field
/// asked for: by size, sizes never decrease along the listing in ascending
/// order and never increase in descending order; by name (lowercased) or
/// by modification text, no entry comes after one it precedes in the order
/// asked for.
pub proof fn lemma_listing_follows_order(content: Seq<ListEntry>, f: SortField, desc: bool)
    ensures
        forall|i: int, j: int| #![trigger sorted_listing(content, f, desc)[i], sorted_listing(content, f, desc)[j]]
            0 <= i < j < sorted_listing(content, f, desc).len()
            && sorted_listing(content, f, desc)[i].is_dir == sorted_listing(content, f, desc)[j].is_dir ==> {
                let a = sorted_listing(content, f, desc)[i];
                let b = sorted_listing(content, f, desc)[j];
                match f {
                    SortField::Size => if desc {
                        ordered_size(a.size) >= ordered_size(b.size)
                    } else {
                        ordered_size(a.size) <= ordered_size(b.size)
                    },
                    SortField::Name => if desc {
                        !lex_lt(lowercase(a.name@), lowercase(b.name@))
                    } else {
                        !lex_lt(lowercase(b.name@), lowercase(a.name@))
                    },
                    SortField::Modified => if desc {
                        !lex_lt(text_or_empty(a.modified), text_or_empty(b.modified))
                    } else {
                        !lex_lt(text_or_empty(b.modified), text_or_empty(a.modified))
                    },
                }
            },
{
    let ks = keyed(content, content.map_values(|e: ListEntry| listing_key(e, f)));
    let q = |p: (ListEntry, (bool, int, Seq<char>))| p.1 == listing_key(p.0, f);
    assert forall|i: int| 0 <= i < ks.len() implies q(#[trigger] ks[i]) by {
        assert(ks[i].1 == listing_key(content[i], f));
    }
    lemma_sort_keyed_keeps(ks, desc, q);
    lemma_sort_keyed_sorted(ks, desc);
    let srt = sort_keyed(ks, desc);
    let r = firsts(srt);
    assert forall|i: int, j: int| #![trigger r[i], r[j]] 0 <= i < j < r.len() && r[i].is_dir == r[j].is_dir implies {
        let a = r[i];
        let b = r[j];
        match f {
            SortField::Size => if desc {
                ordered_size(a.size) >= ordered_size(b.size)
            } else {
                ordered_size(a.size) <= ordered_size(b.size)
            },
            SortField::Name => if desc {
                !lex_lt(lowercase(a.name@), lowercase(b.name@))
            } else {
                !lex_lt(lowercase(b.name@), lowercase(a.name@))
            },
            SortField::Modified => if desc {
                !lex_lt(text_or_empty(a.modified), text_or_empty(b.modified))
            } else {
                !lex_lt(text_or_empty(b.modified), text_or_empty(a.modified))
            },
        }
    } by {
        assert(q(srt[i]) && q(srt[j]));
        assert(r[i] == srt[i].0 && r[j] == srt[j].0);
        assert(!comes_before((#[trigger] srt[j]).1, srt[i].1, desc));
    }
}

/// The number of directories among the entries.
pub open spec fn folder_count(s: Seq<ListEntry>) -> nat
    decreases s.len(),
{
    if s.len() == 0 {
        0
    } else {
        folder_count(s.drop_last()) + if s.last().is_dir { 1nat } else { 0nat }
    }
}

proof fn lemma_folder_count_bound(s: Seq<ListEntry>)
    ensures
        folder_count(s) <= s.len(),
    decreases s.len(),
{
    if s.len() > 0 {
        lemma_folder_count_bound(s.drop_last());
    }
}

/// Counts the directories of a listing.
pub fn count_folders(content: &Vec<ListEntry>) -> (n: usize)
    ensures
        n == folder_count(content@),
        n <= content@.len(),
{
    let mut n: usize = 0;
    let mut i: usize = 0;
    while i < content.len()
        invariant
            i <= content.len(),
            n == folder_count(content@.take(i as int)),
            n <= i,
        decreases content.len() - i,
    {
        assert(content@.take(i + 1).drop_last() =~= content@.take(i as int));
        if content[i].is_dir {
            n = n + 1;
        }
        i = i + 1;
    }
    assert(content@.take(content.len() as int) =~= content@);
    proof { lemma_folder_count_bound(content@); }
    n
}

/// The page asked for, 1 at least (1 when none is given).
pub open spec fn page_number(page: Option<i32>) -> i32 {
    match page {
        Some(p) => if p < 1 { 1 } else { p },
        None => 1,
    }
}

/// The page size asked for, between 1 and 100 (10 when none is given).
pub open spec fn page_size(per_page: Option<i32>) -> i32 {
    match per_page {
        Some(p) => if p < 1 { 1 } else if p > 100 { 100 } else { p },
        None => 10,
    }
}

/// The page number and page size of a listing request.
pub fn page_params(page: Option<i32>, per_page: Option<i32>) -> (r: (i32, i32))
    ensures
        r.0 == page_number(page),
        r.1 == page_size(per_page),
{
    let p = match page {
        Some(p) => if p < 1 { 1 } else { p },
        None => 1,
    };
    let pp = match per_page {
        Some(q) => if q < 1 { 1 } else if q > 100 { 100 } else { q },
        None => 10,
    };
    (p, pp)
}

/// The first index of a page fits an `i32`.
pub open spec fn page_fits(page: i32, per_page: i32) -> bool {
    (page - 1) * per_page <= i32::MAX
}

/// The items of page `page` (counted from 1) of `per_page` items each.
pub open spec fn page_of<T>(s: Seq<T>, page: i32, per_page: i32) -> Seq<T> {
    let start = (page - 1) * per_page;
    if start < s.len() {
        let end = if start + per_page < s.len() { start + per_page } else { s.len() as int };
        s.subrange(start, end)
    } else {
        Seq::empty()
    }
}

/// Law: a page holds at most the page size, and its items are those of
/// the listing from the page's first index on, in order.
pub proof fn lemma_page_window<T>(s: Seq<T>, page: i32, per_page: i32)
    requires
        page >= 1,
        per_page >= 1,
    ensures
        page_of(s, page, per_page).len() <= per_page,
        forall|k: int| 0 <= k < page_of(s, page, per_page).len() ==>
            #[trigger] page_of(s, page, per_page)[k] == s[(page - 1) * per_page + k],
{
    assert((page - 1) * per_page >= 0) by (nonlinear_arith)
        requires
            page >= 1,
            per_page >= 1,
    ;
}

/// The items of one page.
pub fn paginate<T>(items: Vec<T>, page: i32, per_page: i32) -> (r: Vec<T>)
    requires
        page >= 1,
        per_page >= 1,
        page_fits(page, per_page),
    ensures
        r@ == page_of(items@, page, per_page),
{
    assert((page - 1) * per_page >= 0) by (nonlinear_arith)
        requires
            page >= 1,
            per_page >= 1,
    ;
    let start = ((page - 1) * per_page) as usize;
    let total = items.len();
    if start < total {
        let mut items = items;
        let mut tail = items.split_off(start);
        let count = per_page as usize;
        tail.truncate(count);
        tail
    } else {
        Vec::new()
    }
}

/// The text of an optional argument, empty when absent.
pub open spec fn opt_text(s: Option<&str>) -> Seq<char> {
    match s {
        Some(t) => t@,
        None => Seq::empty(),
    }
}

fn text_of(s: Option<&str>) -> (r: String)
    ensures
        r@ == opt_text(s),
{
    match s {
        Some(t) => copy_str(t),
        None => String::new(),
    }
}

/// The refusal of a user who may not read files.
pub open spec fn guest_disabled_message() -> Seq<char> {
    "guest_disabled"@
}

/// The full path a listing request names within the user's root: refused
/// when the user may not read files, then when the path leaves the root.
pub fn fs_list_path(read_files: bool, root_path: &str, req_path: Option<&str>) -> (r: Result<String, Refusal>)
    ensures
        !read_files ==> (r matches Err(e) && e.code == 403 && e.message@ == guest_disabled_message()),
        read_files ==> match join_user_path_spec(root_path@, clean_path(opt_text(req_path))) {
            Some(p) => r matches Ok(q) && q@ == p,
            None => r matches Err(e) && e.code == 403 && e.message@ == illegal_path_message(),
        },
{
    if !read_files {
        return Err(refuse(403, "guest_disabled"));
    }
    let req = fix_and_clean_path(text_of(req_path).as_str());
    match join_user_path(root_path, req.as_str()) {
        Ok(p) => Ok(p),
        Err(e) => Err(Refusal { code: 403, message: e }),
    }
}

/// The full path a request for one entry names: refused when the path
/// leaves the root, then when the user may not read files.
pub fn fs_get_path(read_files: bool, root_path: &str, req_path: Option<&str>) -> (r: Result<String, Refusal>)
    ensures
        match join_user_path_spec(root_path@, clean_path(opt_text(req_path))) {
            None => r matches Err(e) && e.code == 403 && e.message@ == illegal_path_message(),
            Some(p) => if read_files {
                r matches Ok(q) && q@ == p
            } else {
                r matches Err(e) && e.code == 403 && e.message@ == guest_disabled_message()
            },
        },
{
    let req = fix_and_clean_path(text_of(req_path).as_str());
    let p = match join_user_path(root_path, req.as_str()) {
        Ok(p) => p,
        Err(e) => {
            return Err(Refusal { code: 403, message: e });
        },
    };
    if !read_files {
        return Err(refuse(403, "guest_disabled"));
    }
    Ok(p)
}

/// The answer to a request for an entry that the hiding rules hide.
pub open spec fn hidden_entry_message() -> Seq<char> {
    "文件不存在"@
}

/// Whether the entry asked for may be shown: one whose name the hiding
/// rules in force hide (`hidden`) is answered as missing (404), unless the
/// user may see hidden files.
pub fn check_visible(show_hidden_files: bool, hidden: bool) -> (r: Result<(), Refusal>)
    ensures
        r is Ok <==> (show_hidden_files || !hidden),
        r matches Err(e) ==> e.code == 404 && e.message@ == hidden_entry_message(),
{
    if !show_hidden_files && hidden {
        Err(refuse(404, "文件不存在"))
    } else {
        Ok(())
    }
}

/// The refusal of a wrong password.
pub open spec fn wrong_password_message() -> Seq<char> {
    "password is incorrect or you have no permission"@
}

/// Checks the password given for `path` against the nearest password
/// setting above it.
pub fn check_password(password_meta: Option<&Meta>, path: &str, password: Option<&str>) -> (r: Result<(), Refusal>)
    ensures
        password_allows(match password_meta { Some(m) => Some(*m), None => None }, path@, opt_text(password))
            <==> r is Ok,
        r matches Err(e) ==> e.code == 403 && e.message@ == wrong_password_message(),
{
    let pw = text_of(password);
    if can_access_password(password_meta, path, pw.as_str()) {
        Ok(())
    } else {
        Err(refuse(403, "password is incorrect or you have no permission"))
    }
}

/// The hiding rules in force at `path`: those of the nearest setting when
/// it applies there, else none.
pub fn hide_rules(meta: Option<&Meta>, path: &str) -> (r: String)
    ensures
        r@ == match meta {
            Some(m) => if hide_applies(m.path@, path@, m.h_sub) { text_or_empty(m.hide) } else { Seq::empty() },
            None => Seq::empty(),
        },
{
    match meta {
        Some(m) => {
            if is_hide_apply(m.path.as_str(), path, m.h_sub) {
                match &m.hide {
                    Some(h) => h.clone(),
                    None => String::new(),
                }
            } else {
                String::new()
            }
        },
        None => String::new(),
    }
}

/// Whether the user may write in a listed directory: an administrator, a
/// user who may upload, or a path whose settings grant writing.
pub fn listing_writable(perms: &UserPermissions, meta: Option<&Meta>, path: &str) -> (r: bool)
    ensures
        r == (perms.is_admin || perms.create_upload || match meta {
            Some(m) => meta_applies(m.path@, path@, m.w_sub) && m.write,
            None => false,
        }),
{
    perms.is_admin || perms.create_upload || can_write(meta, path)
}

/// One page of a listing with its counts.
#[derive(Debug)]
pub struct ListPage {
    pub content: Vec<ListEntry>,
    pub total: usize,
    pub folder_count: usize,
    pub file_count: usize,
    pub page: i32,
    pub per_page: i32,
    /// The names of all entries in order, for selecting them all; absent
    /// on a listing of directories above mount points only.
    pub all_names: Option<Vec<String>>,
}

/// The refusal of a listing when every storage failed.
pub open spec fn storage_failure_message() -> Seq<char> {
    "存储驱动故障，请联系管理员"@
}

pub open spec fn names_of(s: Seq<ListEntry>) -> Seq<Seq<char>> {
    s.map_values(|e: ListEntry| e.name@)
}

fn names_list(s: &Vec<ListEntry>) -> (r: Vec<String>)
    ensures
        r@.map_values(|n: String| n@) == names_of(s@),
{
    let mut out: Vec<String> = Vec::new();
    let mut i: usize = 0;
    while i < s.len()
        invariant
            i <= s.len(),
            out@.len() == i,
            forall|k: int| 0 <= k < i ==> (#[trigger] out@[k])@ == s@[k].name@,
        decreases s.len() - i,
    {
        out.push(copy_str(s[i].name.as_str()));
        i = i + 1;
    }
    assert(out@.map_values(|n: String| n@) =~= names_of(s@));
    out
}

/// The page of the listing of a path served by storages: `content` is
/// their merged listing; the directories above mount points that are shown
/// and not already listed join it; all is ordered as asked and cut to the
/// page. Refused when no storage answered and one failed.
pub fn build_listing(
    content: Vec<ListEntry>,
    has_success: bool,
    had_error: bool,
    dirs: Vec<VirtualDir>,
    dir_hidden: Vec<bool>,
    show_hidden: bool,
    sort_by: Option<&str>,
    sort_order: Option<&str>,
    page: i32,
    per_page: i32,
) -> (r: Result<ListPage, Refusal>)
    requires
        dirs@.len() == dir_hidden@.len(),
        page >= 1,
        per_page >= 1,
        page_fits(page, per_page),
    ensures
        (!has_success && had_error) <==> r is Err,
        r matches Err(e) ==> e.code == 500 && e.message@ == storage_failure_message(),
        r matches Ok(lp) ==> {
            let all = with_dirs(content@, dirs@, dir_hidden@, show_hidden);
            let sorted = sorted_listing(
                all,
                sort_field_of(match sort_by { Some(s) => Some(s@), None => None }),
                is_desc(match sort_order { Some(s) => Some(s@), None => None }),
            );
            &&& lp.total == all.len()
            &&& lp.folder_count == folder_count(all)
            &&& lp.file_count == all.len() - folder_count(all)
            &&& lp.page == page
            &&& lp.per_page == per_page
            &&& lp.content@ == page_of(sorted, page, per_page)
            &&& lp.all_names matches Some(n) && n@.map_values(|x: String| x@) == names_of(sorted)
        },
{
    if !has_success && had_error {
        return Err(refuse(500, "存储驱动故障，请联系管理员"));
    }
    let all = add_virtual_dirs(content, dirs, dir_hidden, show_hidden);
    let folders = count_folders(&all);
    let total = all.len();
    let sorted = sort_listing(all, sort_by, sort_order);
    let names = names_list(&sorted);
    let content = paginate(sorted, page, per_page);
    Ok(ListPage {
        content,
        total,
        folder_count: folders,
        file_count: total - folders,
        page,
        per_page,
        all_names: Some(names),
    })
}

/// The message of a path that nothing serves.
pub open spec fn missing_path_message(path: Seq<char>) -> Seq<char> {
    "路径不存在: "@ + path
}

/// The page of the listing of a path no storage serves: the directories
/// above mount points that are shown, in their given order. Refused when
/// there is none and the path is not the root.
pub fn virtual_listing(
    path: &str,
    dirs: Vec<VirtualDir>,
    dir_hidden: Vec<bool>,
    show_hidden: bool,
    page: i32,
    per_page: i32,
) -> (r: Result<ListPage, Refusal>)
    requires
        dirs@.len() == dir_hidden@.len(),
        page >= 1,
        per_page >= 1,
        page_fits(page, per_page),
    ensures
        ({
            let shown = with_dirs(Seq::empty(), dirs@, dir_hidden@, show_hidden);
            &&& (shown.len() == 0 && path@ != seq!['/']) <==> r is Err
            &&& r matches Err(e) ==> e.code == 404 && e.message@ == missing_path_message(path@)
            &&& r matches Ok(lp) ==> {
                &&& lp.total == shown.len()
                &&& lp.folder_count == folder_count(shown)
                &&& lp.file_count == shown.len() - folder_count(shown)
                &&& lp.page == page
                &&& lp.per_page == per_page
                &&& lp.content@ == page_of(shown, page, per_page)
                &&& lp.all_names is None
            }
        }),
{
    let empty: Vec<ListEntry> = Vec::new();
    let shown = add_virtual_dirs(empty, dirs, dir_hidden, show_hidden);
    let root = vec!['/'];
    assert(root@ =~= seq!['/']);
    if shown.len() == 0 && !chars_eq(&chars_of(path), &root) {
        let msg = concat_chars(&chars_of("路径不存在: "), &chars_of(path));
        return Err(Refusal { code: 404, message: string_of(&msg) });
    }
    let folders = count_folders(&shown);
    let total = shown.len();
    let content = paginate(shown, page, per_page);
    Ok(ListPage {
        content,
        total,
        folder_count: folders,
        file_count: total - folders,
        page,
        per_page,
        all_names: None,
    })
}

/// The refusal of a listing asked by a user who is not an administrator.
pub open spec fn admin_required_message() -> Seq<char> {
    "需要管理员权限"@
}

/// The path of an administrator's listing; refused to other users.
pub fn admin_list_path(is_admin: bool, req_path: Option<&str>) -> (r: Result<String, Refusal>)
    ensures
        is_admin ==> (r matches Ok(p) && p@ == clean_path(opt_text(req_path))),
        !is_admin ==> (r matches Err(e) && e.code == 403 && e.message@ == admin_required_message()),
{
    let p = fix_and_clean_path(text_of(req_path).as_str());
    if !is_admin {
        return Err(refuse(403, "需要管理员权限"));
    }
    Ok(p)
}

/// An administrator's listing: the storage's entries, none hidden, then the
/// directories above mount points whose name is not listed yet.
pub fn admin_listing(files: Vec<ListEntry>, dirs: Vec<VirtualDir>) -> (r: Vec<ListEntry>)
    ensures
        r@ == with_dirs(files@, dirs@, Seq::new(dirs@.len(), |k: int| false), true),
{
    let mut hidden: Vec<bool> = Vec::new();
    let mut i: usize = 0;
    while i < dirs.len()
        invariant
            i <= dirs.len(),
            hidden@ =~= Seq::new(i as nat, |k: int| false),
        decreases dirs.len() - i,
    {
        hidden.push(false);
        i = i + 1;
    }
    add_virtual_dirs(files, dirs, hidden, true)
}

/// What a request for one entry names.
#[derive(Debug, Clone, Copy, PartialEq, Eq, Structural)]
pub enum GetTarget {
    /// The root, always a directory.
    Root,
    /// A mount point, a directory of its storage.
    MountPoint,
    /// A directory that exists because storages are mounted below it.
    AboveMounts,
    /// An entry to look up in the listing of its parent.
    InParent,
}

/// What `path` (clean) names among the mounts.
pub open spec fn get_target(path: Seq<char>, mounts: Seq<MountInfo>) -> GetTarget {
    if path == seq!['/'] {
        GetTarget::Root
    } else if exists|k: int| 0 <= k < mounts.len() && clean_path((#[trigger] mounts[k]).mount_path@) == path {
        GetTarget::MountPoint
    } else if exists|n: Seq<char>| #[trigger] virtual_map(mounts, clean_path(path)).contains_key(n) {
        GetTarget::AboveMounts
    } else {
        GetTarget::InParent
    }
}

/// Tells what a request for one entry names: the root, a mount point, a
/// directory above mount points, or an entry of a storage.
pub fn classify_get(path: &str, mounts: &[MountInfo]) -> (r: GetTarget)
    ensures
        r == get_target(path@, mounts@),
{
    let pc = chars_of(path);
    let root = vec!['/'];
    assert(root@ =~= seq!['/']);
    if chars_eq(&pc, &root) {
        return GetTarget::Root;
    }
    let mut i: usize = 0;
    while i < mounts.len()
        invariant
            i <= mounts.len(),
            pc@ == path@,
            path@ != seq!['/'],
            forall|k: int| 0 <= k < i ==> clean_path((#[trigger] mounts@[k]).mount_path@) != path@,
        decreases mounts.len() - i,
    {
        let mp = chars_of(fix_and_clean_path(mounts[i].mount_path.as_str()).as_str());
        if chars_eq(&mp, &pc) {
            assert(clean_path(mounts@[i as int].mount_path@) == path@);
            assert(exists|k: int| 0 <= k < mounts@.len() && clean_path((#[trigger] mounts@[k]).mount_path@) == path@);
            return GetTarget::MountPoint;
        }
        i = i + 1;
    }
    let dirs = get_virtual_files_by_path(path, mounts);
    if dirs.len() > 0 {
        assert(vdirs_map(dirs@).contains_key(dirs@[0].name@));
        GetTarget::AboveMounts
    } else {
        assert forall|n: Seq<char>| !#[trigger] virtual_map(mounts@, clean_path(path@)).contains_key(n) by {
            assert(!vdirs_map(dirs@).contains_key(n));
        }
        GetTarget::InParent
    }
}

/// The directory holding `path`: what stands before its last `/`, or the
/// root when that is empty or there is no `/`.
pub open spec fn parent_of(path: Seq<char>) -> Seq<char> {
    let f = after_last(path, '/');
    if f.len() < path.len() && path.len() - f.len() - 1 > 0 {
        path.subrange(0, path.len() - f.len() - 1)
    } else {
        seq!['/']
    }
}

/// Splits a path into its parent directory and its last segment.
pub fn split_parent(path: &str) -> (r: (String, String))
    ensures
        r.0@ == parent_of(path@),
        r.1@ == after_last(path@, '/'),
{
    let pc = chars_of(path);
    let f = after_last_of(&pc, '/');
    proof { lemma_after_last_len(path@, '/'); }
    let parent = if f.len() < pc.len() && pc.len() - f.len() - 1 > 0 {
        string_of(&sub_chars(&pc, 0, pc.len() - f.len() - 1))
    } else {
        let root = vec!['/'];
        assert(root@ =~= seq!['/']);
        string_of(&root)
    };
    (parent, string_of(&f))
}

/// The first entry named `name`, if any.
pub fn find_entry(files: &Vec<ListEntry>, name: &str) -> (r: Option<usize>)
    ensures
        r matches Some(i) ==> i < files@.len() && files@[i as int].name@ == name@
            && forall|k: int| 0 <= k < i ==> (#[trigger] files@[k]).name@ != name@,
        r is None ==> !has_name(files@, name@),
{
    let mut i: usize = 0;
    while i < files.len()
        invariant
            i <= files.len(),
            forall|k: int| 0 <= k < i ==> (#[trigger] files@[k]).name@ != name@,
        decreases files.len() - i,
    {
        if str_eq(files[i].name.as_str(), name) {
            return Some(i);
        }
        i = i + 1;
    }
    None
}

} // verus!
