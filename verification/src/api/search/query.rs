//! Searching: whether a search may run, how many hits to gather, which
//! hits the user may see, how their paths are shown, and the page.

use vstd::prelude::*;
use crate::text::{chars_of, chars_eq, chars_starts_with, chars_contains, is_prefix, string_of, sub_chars,
    concat_chars, str_eq, trimmed, trim_text};

verus! {

/// A search: the words, the page and its size, the directory the user is
/// in, and whether only files or folders are wanted.
#[derive(Debug)]
pub struct SearchRequest {
    pub query: String,
    pub limit: usize,
    pub page: usize,
    pub current_path: Option<String>,
    pub filter_type: Option<String>,
}

/// One result of a search.
#[derive(Debug)]
pub struct SearchResultItem {
    pub path: String,
    pub name: String,
    pub is_dir: bool,
    pub size: i64,
    pub modified: i64,
}

/// A page of results and how many matched in all.
#[derive(Debug)]
pub struct SearchResponse {
    pub results: Vec<SearchResultItem>,
    pub total: usize,
    pub total_matched: usize,
}

/// Whether a search may run, and its words: search must be enabled, some
/// index must exist, and the words, trimmed, must not be empty.
pub fn search_start(enabled: bool, has_indexes: bool, query: &str) -> (r: Result<String, &'static str>)
    ensures
        !enabled ==> (r matches Err(m) && m@ == "搜索功能未启用"@),
        enabled && !has_indexes ==> (r matches Err(m) && m@ == "索引未构建"@),
        enabled && has_indexes && trimmed(query@).len() == 0 ==> (r matches Err(m) && m@ == "搜索关键词不能为空"@),
        enabled && has_indexes && trimmed(query@).len() > 0 ==> (r matches Ok(q) && q@ == trimmed(query@)),
{
    if !enabled {
        return Err("搜索功能未启用");
    }
    if !has_indexes {
        return Err("索引未构建");
    }
    let q = trim_text(query);
    if chars_of(q.as_str()).len() == 0 {
        return Err("搜索关键词不能为空");
    }
    Ok(q)
}

/// How many hits to gather from each index: three pages' worth up to the
/// page asked for, 10000 at most.
pub fn search_limit(limit: usize, page: usize) -> (r: usize)
    requires
        limit * page * 3 <= usize::MAX,
    ensures
        r == if limit * page * 3 < 10000 { limit * page * 3 } else { 10000 },
{
    assert(0 <= limit * page * 3) by (nonlinear_arith);
    let n = limit * page * 3;
    if n < 10000 { n } else { 10000 }
}

/// A hit lies within the user's root: any path when the root is `/`,
/// else the root itself or a path below it.
pub open spec fn within_root(user_root: Seq<char>, path: Seq<char>) -> bool {
    if user_root == seq!['/'] {
        true
    } else {
        let with_slash = if user_root.len() > 0 && user_root.last() == '/' { user_root } else { user_root + seq!['/'] };
        is_prefix(with_slash, path) || path == user_root
    }
}

/// Whether a hit lies within the user's root.
pub fn hit_within_root(user_root: &str, path: &str) -> (r: bool)
    ensures
        r == within_root(user_root@, path@),
{
    let root = chars_of(user_root);
    let p = chars_of(path);
    let slash = vec!['/'];
    assert(slash@ =~= seq!['/']);
    if chars_eq(&root, &slash) {
        return true;
    }
    let with_slash = if root.len() > 0 && root[root.len() - 1] == '/' {
        root.clone()
    } else {
        concat_chars(&root, &slash)
    };
    chars_starts_with(&p, &with_slash) || chars_eq(&p, &root)
}

/// Whether a per-path hiding rule applies to a hit: the hit's path starts
/// with the rule's path, the rule hides something, and the hit is directly
/// in it or the rule extends below.
pub open spec fn hide_rule_applies(path: Seq<char>, meta_path: Seq<char>, h_sub: bool, hide: Seq<char>) -> bool {
    &&& is_prefix(meta_path, path)
    &&& hide.len() > 0
    &&& {
        let is_sub = path.len() > meta_path.len() && path.subrange(meta_path.len() as int, path.len() as int).contains('/');
        !is_sub || h_sub
    }
}

/// Whether a per-path hiding rule applies to a hit.
pub fn hit_hide_rule_applies(path: &str, meta_path: &str, h_sub: bool, hide: &str) -> (r: bool)
    ensures
        r == hide_rule_applies(path@, meta_path@, h_sub, hide@),
{
    let p = chars_of(path);
    let m = chars_of(meta_path);
    if !chars_starts_with(&p, &m) {
        return false;
    }
    if chars_of(hide).len() == 0 {
        return false;
    }
    let is_sub = p.len() > m.len() && chars_contains(&sub_chars(&p, m.len(), p.len()), '/');
    !is_sub || h_sub
}

/// Whether a hit is of the kind asked for: files for `file`, folders for
/// `folder`, anything else.
pub open spec fn kind_matches(filter: Option<Seq<char>>, is_dir: bool) -> bool {
    match filter {
        Some(f) => if f == "file"@ { !is_dir } else if f == "folder"@ { is_dir } else { true },
        None => true,
    }
}

/// Whether a hit is of the kind asked for.
pub fn hit_kind_matches(filter: Option<&str>, is_dir: bool) -> (r: bool)
    ensures
        r == kind_matches(match filter { Some(f) => Some(f@), None => None }, is_dir),
{
    match filter {
        Some(f) => if str_eq(f, "file") {
            !is_dir
        } else if str_eq(f, "folder") {
            is_dir
        } else {
            true
        },
        None => true,
    }
}

/// How a hit's path is shown to a user confined below a root: relative to
/// the root, starting with `/`.
pub open spec fn shown_path(user_root: Seq<char>, path: Seq<char>) -> Seq<char> {
    if user_root != seq!['/'] && is_prefix(user_root, path) {
        let rel = path.subrange(user_root.len() as int, path.len() as int);
        if rel.len() == 0 {
            seq!['/']
        } else if rel[0] == '/' {
            rel
        } else {
            seq!['/'] + rel
        }
    } else {
        path
    }
}

/// Shows a hit's path relative to the user's root.
pub fn display_path(user_root: &str, path: &str) -> (r: String)
    ensures
        r@ == shown_path(user_root@, path@),
{
    let root = chars_of(user_root);
    let p = chars_of(path);
    let slash = vec!['/'];
    assert(slash@ =~= seq!['/']);
    if !chars_eq(&root, &slash) && chars_starts_with(&p, &root) {
        let rel = sub_chars(&p, root.len(), p.len());
        if rel.len() == 0 {
            string_of(&slash)
        } else if rel[0] == '/' {
            string_of(&rel)
        } else {
            string_of(&concat_chars(&slash, &rel))
        }
    } else {
        crate::text::copy_str(path)
    }
}

/// The hits of one page: those after `(page - 1) * limit` (nothing skipped
/// for page 0), `limit` of them at most.
pub open spec fn search_window<T>(s: Seq<T>, page: usize, limit: usize) -> Seq<T> {
    let skip = if page == 0 { 0 } else { (page - 1) * limit };
    if skip >= s.len() {
        Seq::empty()
    } else if skip + limit < s.len() {
        s.subrange(skip, skip + limit)
    } else {
        s.subrange(skip, s.len() as int)
    }
}

/// Cuts the ordered hits to the page asked for.
pub fn search_page<T>(hits: Vec<T>, page: usize, limit: usize) -> (r: Vec<T>)
    requires
        (if page == 0 { 0 } else { (page - 1) * limit }) <= usize::MAX,
    ensures
        r@ == search_window(hits@, page, limit),
{
    let p = if page == 0 { 0 } else { page - 1 };
    assert(0 <= p * limit) by (nonlinear_arith);
    let skip = p * limit;
    if skip >= hits.len() {
        return Vec::new();
    }
    let mut hits = hits;
    let mut tail = hits.split_off(skip);
    tail.truncate(limit);
    tail
}


/// A hit of the search index, with whether the hiding rules in force hide
/// its name.
#[derive(Debug)]
pub struct FoundHit {
    pub path: String,
    pub name: String,
    pub is_dir: bool,
    pub size: i64,
    pub modified: i64,
    pub hidden: bool,
}

/// The hits a user may be shown: within the root, not hidden (unless the
/// user sees hidden files), of the kind asked for; in the given order.
pub open spec fn shown_hits(hits: Seq<FoundHit>, user_root: Seq<char>, show_hidden: bool, filter: Option<Seq<char>>)
    -> Seq<FoundHit>
    decreases hits.len(),
{
    if hits.len() == 0 {
        Seq::empty()
    } else {
        let r = shown_hits(hits.drop_last(), user_root, show_hidden, filter);
        let h = hits.last();
        if within_root(user_root, h.path@) && (show_hidden || !h.hidden) && kind_matches(filter, h.is_dir) {
            r.push(h)
        } else {
            r
        }
    }
}

/// The result a hit is shown as.
pub open spec fn result_of(user_root: Seq<char>, h: FoundHit, r: SearchResultItem) -> bool {
    &&& r.path@ == shown_path(user_root, h.path@)
    &&& r.name@ == h.name@
    &&& r.is_dir == h.is_dir
    &&& r.size == h.size
    &&& r.modified == h.modified
}

/// The answer to a search from the hits in their order: the hits the user
/// may be shown, the page asked for of them, each shown relative to the
/// user's root; `total` counts the results on the page and `total_matched`
/// all hits shown.
pub fn search_answer(
    user_root: &str,
    show_hidden: bool,
    filter_type: Option<&str>,
    hits: &Vec<FoundHit>,
    page: usize,
    limit: usize,
) -> (r: SearchResponse)
    requires
        (if page == 0 { 0 } else { (page - 1) * limit }) <= usize::MAX,
    ensures
        ({
            let shown = shown_hits(hits@, user_root@, show_hidden, match filter_type { Some(f) => Some(f@), None => None });
            let w = search_window(shown, page, limit);
            &&& r.results@.len() == w.len()
            &&& forall|k: int| 0 <= k < w.len() ==> #[trigger] result_of(user_root@, w[k], r.results@[k])
            &&& r.total == r.results@.len()
            &&& r.total_matched == shown.len()
            &&& r.results@.len() <= limit
        }),
{
    let ghost fv = match filter_type { Some(f) => Some(f@), None => None };
    let mut kept: Vec<usize> = Vec::new();
    let mut i: usize = 0;
    assert(hits@.take(0) =~= Seq::<FoundHit>::empty());
    while i < hits.len()
        invariant
            i <= hits.len(),
            fv == match filter_type { Some(f) => Some(f@), None => None },
            kept@.len() == shown_hits(hits@.take(i as int), user_root@, show_hidden, fv).len(),
            forall|k: int| 0 <= k < kept@.len() ==> #[trigger] kept@[k] < i,
            forall|k: int| 0 <= k < kept@.len() ==>
                hits@[kept@[k] as int] == #[trigger] shown_hits(hits@.take(i as int), user_root@, show_hidden, fv)[k],
        decreases hits.len() - i,
    {
        let ghost pre = hits@.take(i as int);
        assert(hits@.take((i + 1) as int).drop_last() =~= pre);
        assert(hits@.take((i + 1) as int).last() == hits@[i as int]);
        let h = &hits[i];
        let ghost next = hits@.take((i + 1) as int);
        let ghost before = shown_hits(pre, user_root@, show_hidden, fv);
        assert(next.len() > 0);
        assert(next.drop_last() == pre);
        assert(next.last() == hits@[i as int]);
        assert(shown_hits(next, user_root@, show_hidden, fv) == (if within_root(user_root@, next.last().path@)
            && (show_hidden || !next.last().hidden) && kind_matches(fv, next.last().is_dir) {
            before.push(next.last())
        } else {
            before
        }));
        let in_root = hit_within_root(user_root, h.path.as_str());
        let kind_ok = hit_kind_matches(filter_type, h.is_dir);
        assert(in_root == within_root(user_root@, next.last().path@));
        assert(kind_ok == kind_matches(fv, next.last().is_dir));
        if in_root && (show_hidden || !h.hidden) && kind_ok {
            kept.push(i);
            assert(shown_hits(next, user_root@, show_hidden, fv) == before.push(hits@[i as int]));
            assert forall|k: int| 0 <= k < kept@.len() implies #[trigger] kept@[k] < i + 1 by {}
            assert forall|k: int| 0 <= k < kept@.len() implies
                hits@[kept@[k] as int] == #[trigger] shown_hits(next, user_root@, show_hidden, fv)[k] by {
                if k < kept@.len() - 1 {
                    assert(before[k] == shown_hits(pre, user_root@, show_hidden, fv)[k]);
                }
            }
        } else {
            assert(shown_hits(next, user_root@, show_hidden, fv) == before);
            assert forall|k: int| 0 <= k < kept@.len() implies #[trigger] kept@[k] < i + 1 by {}
            assert forall|k: int| 0 <= k < kept@.len() implies
                hits@[kept@[k] as int] == #[trigger] shown_hits(next, user_root@, show_hidden, fv)[k] by {
                assert(before[k] == shown_hits(pre, user_root@, show_hidden, fv)[k]);
            }
        }
        i = i + 1;
        assert(next == hits@.take(i as int));
        assert forall|k: int| 0 <= k < kept@.len() implies
            hits@[kept@[k] as int] == #[trigger] shown_hits(hits@.take(i as int), user_root@, show_hidden, fv)[k] by {
            assert(hits@[kept@[k] as int] == shown_hits(next, user_root@, show_hidden, fv)[k]);
        }
    }
    assert(hits@.take(hits.len() as int) =~= hits@);
    let ghost shown = shown_hits(hits@, user_root@, show_hidden, fv);
    let total_matched = kept.len();
    let ghost kv = kept@;
    let window = search_page(kept, page, limit);
    let ghost ws = search_window(shown, page, limit);
    proof {
        let skip: int = if page == 0 { 0 } else { (page - 1) * limit };
        assert(kv.len() == shown.len());
        assert forall|k: int| #![trigger window@[k]] 0 <= k < ws.len() implies window@[k] < hits.len() && hits@[window@[k] as int] == ws[k] by {
            assert(window@[k] == kv[skip + k]);
            assert(ws[k] == shown[skip + k]);
            assert(hits@[kv[skip + k] as int] == shown[skip + k]);
        }
    }
    let mut results: Vec<SearchResultItem> = Vec::new();
    let mut j: usize = 0;
    while j < window.len()
        invariant
            j <= window.len(),
            window@.len() == ws.len(),
            forall|k: int| #![trigger window@[k]] 0 <= k < ws.len() ==> window@[k] < hits.len() && hits@[window@[k] as int] == ws[k],
            results@.len() == j,
            forall|k: int| 0 <= k < j ==> #[trigger] result_of(user_root@, ws[k], results@[k]),
        decreases window.len() - j,
    {
        let h = &hits[window[j]];
        let item = SearchResultItem {
            path: display_path(user_root, h.path.as_str()),
            name: crate::text::copy_str(h.name.as_str()),
            is_dir: h.is_dir,
            size: h.size,
            modified: h.modified,
        };
        results.push(item);
        j = j + 1;
    }
    let total = results.len();
    SearchResponse { results, total, total_matched }
}

} // verus!
