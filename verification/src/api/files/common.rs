//! Rules shared by the file handlers: per-path settings (password, write,
//! hide, readme, header) and the confinement of request paths to a user's
//! root.

use vstd::prelude::*;
use crate::digest::{hex_lower, random_hex};
use crate::models::{Meta, UserPermissions};
use crate::api::file_resolver::{chosen_root, choose_root_path};
use crate::text::{chars_of, chars_eq, chars_has_double_dot, count_chars, count_char,
    has_double_dot, is_prefix, sub_chars, string_of, trim_start_chars, trim_start_char,
    trim_end_chars, trim_end_char, concat_chars, str_eq, copy_str, lex_lt, chars_lt};
use crate::utils::{fix_and_clean_path, is_sub_path, clean_path, is_sub_path_spec, clean_segments,
    join_rooted, rooted, lemma_clean_segments_valid, lemma_clean_segments_of_join, lemma_rooted_concat,
    lemma_root_is_ancestor, lemma_segment_prefix_is_sub_path, lemma_clean_idempotent, valid_segments,
    lemma_clean_path_rooted, path_ancestors, valid_segment};

verus! {

/// The first setting in `metas` stored exactly at `p`.
pub open spec fn first_at(metas: Seq<Meta>, p: Seq<char>) -> Option<int>
    decreases metas.len(),
{
    if metas.len() == 0 {
        None
    } else if metas[0].path@ == p {
        Some(0)
    } else {
        match first_at(metas.drop_first(), p) {
            Some(i) => Some(i + 1),
            None => None,
        }
    }
}

/// Walking up from the directory of the first `k` segments of `segs` to
/// the root, the first setting stored at a level, taken where passwords do
/// not matter or it sets one.
pub open spec fn nearest_from(metas: Seq<Meta>, segs: Seq<Seq<char>>, k: nat, need_password: bool) -> Option<int>
    decreases k,
{
    let here = first_at(metas, join_rooted(segs.take(k as int)));
    if here matches Some(i) && (!need_password || (metas[i].password matches Some(p) && p@.len() > 0)) {
        here
    } else if k == 0 {
        None
    } else {
        nearest_from(metas, segs, (k - 1) as nat, need_password)
    }
}

/// The nearest setting at the clean form of `path` or above it.
pub open spec fn nearest_meta(metas: Seq<Meta>, path: Seq<char>, need_password: bool) -> Option<int> {
    nearest_from(metas, clean_segments(path), clean_segments(path).len(), need_password)
}

/// The index seen as a mathematical integer.
pub open spec fn index_view(r: Option<usize>) -> Option<int> {
    match r {
        Some(i) => Some(i as int),
        None => None,
    }
}

proof fn lemma_first_at(metas: Seq<Meta>, p: Seq<char>)
    ensures
        first_at(metas, p) matches Some(i) ==> 0 <= i < metas.len() && metas[i].path@ == p
            && forall|j: int| 0 <= j < i ==> (#[trigger] metas[j]).path@ != p,
        first_at(metas, p) is None ==> forall|j: int| 0 <= j < metas.len() ==> (#[trigger] metas[j]).path@ != p,
    decreases metas.len(),
{
    if metas.len() > 0 {
        lemma_first_at(metas.drop_first(), p);
        assert forall|j: int| 1 <= j < metas.len() implies metas[j] == #[trigger] metas.drop_first()[j - 1] by {}
        if metas[0].path@ != p {
            if first_at(metas.drop_first(), p) is None {
                assert forall|j: int| 0 <= j < metas.len() implies (#[trigger] metas[j]).path@ != p by {
                    if j > 0 {
                        assert(metas[j] == metas.drop_first()[j - 1]);
                    }
                }
            } else {
                let i = first_at(metas.drop_first(), p)->0;
                assert forall|j: int| 0 <= j < i + 1 implies (#[trigger] metas[j]).path@ != p by {
                    if j > 0 {
                        assert(metas[j] == metas.drop_first()[j - 1]);
                    }
                }
            }
        }
    }
}

fn find_at(metas: &Vec<Meta>, p: &str) -> (r: Option<usize>)
    ensures
        index_view(r) == first_at(metas@, p@),
{
    proof { lemma_first_at(metas@, p@); }
    let mut i: usize = 0;
    while i < metas.len()
        invariant
            i <= metas.len(),
            forall|j: int| 0 <= j < i ==> (#[trigger] metas@[j]).path@ != p@,
            first_at(metas@, p@) matches Some(k) ==> 0 <= k < metas@.len() && metas@[k].path@ == p@
                && forall|j: int| 0 <= j < k ==> (#[trigger] metas@[j]).path@ != p@,
            first_at(metas@, p@) is None ==> forall|j: int| 0 <= j < metas@.len() ==> (#[trigger] metas@[j]).path@ != p@,
        decreases metas.len() - i,
    {
        if str_eq(metas[i].path.as_str(), p) {
            return Some(i);
        }
        i = i + 1;
    }
    None
}

proof fn lemma_nearest_from_is_ancestor(metas: Seq<Meta>, segs: Seq<Seq<char>>, k: nat, need_password: bool)
    requires
        k <= segs.len(),
    ensures
        nearest_from(metas, segs, k, need_password) matches Some(i) ==> 0 <= i < metas.len()
            && exists|j: int| 0 <= j <= k && metas[i].path@ == join_rooted(#[trigger] segs.take(j)),
    decreases k,
{
    let here = first_at(metas, join_rooted(segs.take(k as int)));
    lemma_first_at(metas, join_rooted(segs.take(k as int)));
    if k > 0 {
        lemma_nearest_from_is_ancestor(metas, segs, (k - 1) as nat, need_password);
    }
}

/// What `nearest_meta` finds lies at the path or above it.
proof fn lemma_nearest_is_ancestor(metas: Seq<Meta>, path: Seq<char>, need_password: bool)
    ensures
        nearest_meta(metas, path, need_password) matches Some(i) ==> 0 <= i < metas.len()
            && is_sub_path_spec(metas[i].path@, path),
{
    let segs = clean_segments(path);
    lemma_nearest_from_is_ancestor(metas, segs, segs.len(), need_password);
    if let Some(i) = nearest_meta(metas, path, need_password) {
        let j = choose|j: int| 0 <= j <= segs.len() && metas[i].path@ == join_rooted(#[trigger] segs.take(j));
        lemma_clean_segments_valid(path);
        assert(valid_segments(segs.take(j))) by {
            assert forall|t: int| 0 <= t < segs.take(j).len() implies valid_segment(#[trigger] segs.take(j)[t]) by {
                assert(segs.take(j)[t] == segs[t]);
            }
        }
        lemma_clean_segments_of_join(segs.take(j));
        assert(segs.subrange(0, j) =~= segs.take(j));
        lemma_segment_prefix_is_sub_path(metas[i].path@, path);
    }
}

/// Looks for the setting nearest to `path` among those read: at the clean
/// path itself, then at each directory above it up to the root.
fn nearest_index(metas: &Vec<Meta>, path: &str, need_password: bool) -> (r: Option<usize>)
    ensures
        index_view(r) == nearest_meta(metas@, path@, need_password),
{
    let anc = path_ancestors(path);
    let ghost segs = clean_segments(path@);
    let mut k: usize = anc.len();
    while k > 0
        invariant
            k <= anc@.len(),
            anc@.len() == segs.len() + 1,
            forall|j: int| 0 <= j < anc@.len() ==> (#[trigger] anc@[j])@ == join_rooted(segs.take(j)),
            k >= 1 ==> nearest_meta(metas@, path@, need_password) == nearest_from(metas@, segs, (k - 1) as nat, need_password),
            k == 0 ==> nearest_meta(metas@, path@, need_password) is None,
        decreases k,
    {
        k = k - 1;
        let here = find_at(metas, anc[k].as_str());
        proof { lemma_first_at(metas@, anc@[k as int]@); }
        match here {
            Some(i) => {
                if !need_password || is_set(&metas[i].password) {
                    return Some(i);
                }
            },
            None => {},
        }
    }
    None
}

fn is_set(t: &Option<String>) -> (r: bool)
    ensures
        r == (*t matches Some(p) && p@.len() > 0),
{
    match t {
        Some(p) => chars_of(p.as_str()).len() > 0,
        None => false,
    }
}

/// The setting nearest to `path` among the settings read: the first stored
/// at its clean form, else at the nearest directory above it.
pub fn get_nearest_meta(metas: &Vec<Meta>, path: &str) -> (r: Option<usize>)
    ensures
        index_view(r) == nearest_meta(metas@, path@, false),
        r matches Some(i) ==> i < metas@.len() && is_sub_path_spec(metas@[i as int].path@, path@),
{
    proof { lemma_nearest_is_ancestor(metas@, path@, false); }
    nearest_index(metas, path, false)
}

/// The password setting nearest to `path`: walking up from its clean form,
/// the first setting at a level, taken only when it sets a password (else
/// the walk goes on above it).
pub fn get_nearest_password_meta(metas: &Vec<Meta>, path: &str) -> (r: Option<usize>)
    ensures
        index_view(r) == nearest_meta(metas@, path@, true),
        r matches Some(i) ==> i < metas@.len() && is_sub_path_spec(metas@[i as int].path@, path@)
            && (metas@[i as int].password matches Some(p) && p@.len() > 0),
{
    proof { lemma_nearest_is_ancestor(metas@, path@, true); }
    let r = nearest_index(metas, path, true);
    proof {
        if r matches Some(i) {
            lemma_nearest_password_set(metas@, clean_segments(path@), clean_segments(path@).len());
        }
    }
    r
}

proof fn lemma_nearest_password_set(metas: Seq<Meta>, segs: Seq<Seq<char>>, k: nat)
    ensures
        nearest_from(metas, segs, k, true) matches Some(i) ==> (metas[i].password matches Some(p) && p@.len() > 0),
    decreases k,
{
    if k > 0 {
        lemma_nearest_password_set(metas, segs, (k - 1) as nat);
    }
}

/// A setting stored at `meta_path` applies to `req_path`: same path, or a
/// path below when the setting extends to sub-paths.
pub open spec fn meta_applies(meta_path: Seq<char>, req_path: Seq<char>, apply_sub: bool) -> bool {
    let m = clean_path(meta_path);
    let r = clean_path(req_path);
    m == r || (apply_sub && is_sub_path_spec(m, r))
}

/// Whether the setting stored at `meta_path` applies to `req_path`.
pub fn is_meta_apply(meta_path: &str, req_path: &str, apply_sub: bool) -> (r: bool)
    ensures
        r == meta_applies(meta_path@, req_path@, apply_sub),
{
    let m = fix_and_clean_path(meta_path);
    let q = fix_and_clean_path(req_path);
    if m == q {
        return true;
    }
    if apply_sub && is_sub_path(m.as_str(), q.as_str()) {
        return true;
    }
    false
}

/// Hiding rules stored at `meta_path` apply to `req_path`: the path itself
/// and its direct children always, deeper paths only with `h_sub`.
pub open spec fn hide_applies(meta_path: Seq<char>, req_path: Seq<char>, h_sub: bool) -> bool {
    let m = clean_path(meta_path);
    let r = clean_path(req_path);
    if m == r {
        true
    } else if !is_sub_path_spec(m, r) {
        false
    } else {
        let rel = if is_prefix(m, r) { r.subrange(m.len() as int, r.len() as int) } else { r };
        count_char(trim_start_char(rel, '/'), '/') == 0 || h_sub
    }
}

proof fn lemma_no_slash_count(s: Seq<char>)
    requires
        forall|i: int| 0 <= i < s.len() ==> s[i] != '/',
    ensures
        count_char(s, '/') == 0,
    decreases s.len(),
{
    if s.len() > 0 {
        lemma_no_slash_count(s.drop_last());
    }
}

/// Law: the hiding rules of a setting reach every direct child of the
/// setting's folder, whether or not they extend to sub-folders.
pub proof fn lemma_hide_reaches_children(meta_path: Seq<char>, name: Seq<char>, h_sub: bool)
    requires
        valid_segment(name),
    ensures
        hide_applies(meta_path, crate::api::files::child_path(clean_path(meta_path), name), h_sub),
{
    let segs = clean_segments(meta_path);
    lemma_clean_segments_valid(meta_path);
    lemma_clean_idempotent(meta_path);
    let m = clean_path(meta_path);
    let segs2 = segs.push(name);
    assert forall|i: int| 0 <= i < segs2.len() implies valid_segment(#[trigger] segs2[i]) by {
        if i < segs.len() { assert(segs2[i] == segs[i]); }
    }
    assert(segs2.drop_last() =~= segs);
    let child = crate::api::files::child_path(m, name);
    if segs.len() == 0 {
        assert(m == seq!['/']);
        assert(rooted(segs) =~= Seq::<char>::empty());
        assert(child =~= rooted(segs2));
    } else {
        let last = segs.last();
        assert(valid_segment(last));
        assert(m == rooted(segs));
        assert(m =~= rooted(segs.drop_last()) + seq!['/'] + last);
        assert(m.len() >= 2);
        assert(m != seq!['/']);
        assert(m.last() == last.last());
        assert(child =~= rooted(segs2));
    }
    lemma_clean_segments_of_join(segs2);
    assert(clean_path(child) == child);
    assert(child.len() > m.len());
    assert(name[0] != '/');
    lemma_no_slash_count(name);
    assert(trim_start_char(name, '/') == name);
    if segs.len() == 0 {
        assert(child.subrange(0, 1) =~= seq!['/']);
        assert(is_sub_path_spec(m, child));
        assert(is_prefix(m, child));
        assert(child.subrange(m.len() as int, child.len() as int) =~= name);
    } else {
        assert(m.last() != '/');
        assert(crate::utils::add_sep(m) == m.push('/'));
        assert(child.subrange(0, m.len() as int + 1) =~= m.push('/'));
        assert(is_sub_path_spec(m, child));
        assert(child.subrange(0, m.len() as int) =~= m);
        let rel = child.subrange(m.len() as int, child.len() as int);
        assert(rel =~= seq!['/'] + name);
        assert(rel.drop_first() =~= name);
        assert(trim_start_char(rel, '/') == name);
    }
}

/// Whether the hiding rules stored at `meta_path` apply to `req_path`.
pub fn is_hide_apply(meta_path: &str, req_path: &str, h_sub: bool) -> (r: bool)
    ensures
        r == hide_applies(meta_path@, req_path@, h_sub),
{
    let m = fix_and_clean_path(meta_path);
    let q = fix_and_clean_path(req_path);
    if m == q {
        return true;
    }
    if !is_sub_path(m.as_str(), q.as_str()) {
        return false;
    }
    let mv = chars_of(m.as_str());
    let qv = chars_of(q.as_str());
    let rel = if crate::text::chars_starts_with(&qv, &mv) { sub_chars(&qv, mv.len(), qv.len()) } else { qv };
    let rel = trim_start_chars(&rel, '/');
    let depth = count_chars(&rel, '/');
    depth == 0 || h_sub
}

/// Compares two secrets: folds the differences of every pair of
/// characters the two have in common, whatever the first difference and
/// whether or not their lengths agree, so that the work does not depend on
/// where they differ; true exactly when they are equal.
pub fn constant_time_compare(a: &str, b: &str) -> (r: bool)
    ensures
        r == (a@ == b@),
{
    let x = chars_of(a);
    let y = chars_of(b);
    let n: usize = if x.len() < y.len() { x.len() } else { y.len() };
    let mut acc: u32 = 0;
    let mut i: usize = 0;
    while i < n
        invariant
            i <= n,
            n <= x.len(),
            n <= y.len(),
            x@ == a@,
            y@ == b@,
            (acc == 0) == (forall|k: int| 0 <= k < i ==> x@[k] == y@[k]),
        decreases n - i,
    {
        let d: u32 = if x[i] == y[i] { 0 } else { 1 };
        let old_acc = acc;
        acc = acc | d;
        assert((old_acc | d) == 0u32 <==> (old_acc == 0u32 && d == 0u32)) by (bit_vector);
        i = i + 1;
    }
    if x.len() != y.len() {
        return false;
    }
    if acc == 0 {
        assert(x@ =~= y@);
    }
    acc == 0
}

/// Access is allowed when no password setting is given, when it does not
/// apply to the path, or when the password matches.
pub open spec fn password_allows(password_meta: Option<Meta>, req_path: Seq<char>, password: Seq<char>) -> bool {
    match password_meta {
        None => true,
        Some(m) => !meta_applies(m.path@, req_path, m.p_sub) || (m.password matches Some(p) && p@ == password),
    }
}

/// Checks the password for a path against the nearest password setting
/// above it (only that one: nested passwords do not stack).
pub fn can_access_password(password_meta: Option<&Meta>, req_path: &str, password: &str) -> (r: bool)
    ensures
        r == password_allows(match password_meta { Some(m) => Some(*m), None => None }, req_path@, password@),
{
    let meta = match password_meta {
        Some(m) => m,
        None => {
            return true;
        },
    };
    if !is_meta_apply(meta.path.as_str(), req_path, meta.p_sub) {
        return true;
    }
    match &meta.password {
        Some(p) => constant_time_compare(p.as_str(), password),
        None => false,
    }
}

/// The text of an optional string field, empty when absent.
pub open spec fn text_or_empty(s: Option<String>) -> Seq<char> {
    match s {
        Some(t) => t@,
        None => Seq::empty(),
    }
}

fn clone_or_empty(s: &Option<String>) -> (r: String)
    ensures
        r@ == text_or_empty(*s),
{
    match s {
        Some(t) => t.clone(),
        None => String::new(),
    }
}

/// The readme shown at `req_path`, empty when the setting does not apply.
pub fn get_readme(meta: Option<&Meta>, req_path: &str) -> (r: String)
    ensures
        r@ == match meta {
            Some(m) => if meta_applies(m.path@, req_path@, m.r_sub) { text_or_empty(m.readme) } else { Seq::empty() },
            None => Seq::empty(),
        },
{
    match meta {
        Some(m) => {
            if is_meta_apply(m.path.as_str(), req_path, m.r_sub) {
                clone_or_empty(&m.readme)
            } else {
                String::new()
            }
        },
        None => String::new(),
    }
}

/// The header shown at `req_path`, empty when the setting does not apply.
pub fn get_header(meta: Option<&Meta>, req_path: &str) -> (r: String)
    ensures
        r@ == match meta {
            Some(m) => if meta_applies(m.path@, req_path@, m.header_sub) { text_or_empty(m.header) } else { Seq::empty() },
            None => Seq::empty(),
        },
{
    match meta {
        Some(m) => {
            if is_meta_apply(m.path.as_str(), req_path, m.header_sub) {
                clone_or_empty(&m.header)
            } else {
                String::new()
            }
        },
        None => String::new(),
    }
}

/// Whether the settings grant writing at `req_path`.
pub fn can_write(meta: Option<&Meta>, req_path: &str) -> (r: bool)
    ensures
        r == match meta {
            Some(m) => m.write && meta_applies(m.path@, req_path@, m.w_sub),
            None => false,
        },
{
    match meta {
        Some(m) => m.write && is_meta_apply(m.path.as_str(), req_path, m.w_sub),
        None => false,
    }
}


/// The message of a refused request path.
pub open spec fn illegal_path_message() -> Seq<char> {
    "路径不合法"@
}

/// The full path of a request made by a user whose root is `base`, or
/// `None` when the request is refused (it holds `..` even once cleaned).
pub open spec fn join_user_path_spec(base: Seq<char>, req: Seq<char>) -> Option<Seq<char>> {
    let cr = clean_path(req);
    let cb = clean_path(base);
    if has_double_dot(req) && has_double_dot(cr) {
        None
    } else if cb == seq!['/'] {
        Some(cr)
    } else {
        let full = if cr == seq!['/'] { cb } else { trim_end_char(cb, '/') + cr };
        Some(clean_path(full))
    }
}

/// Joins a request path to the user's root, refusing path traversal.
pub fn join_user_path(base_path: &str, req_path: &str) -> (r: Result<String, String>)
    ensures
        match join_user_path_spec(base_path@, req_path@) {
            Some(p) => r matches Ok(q) && q@ == p,
            None => r matches Err(e) && e@ == illegal_path_message(),
        },
{
    let req_chars = chars_of(req_path);
    let has_relative = chars_has_double_dot(&req_chars);
    let clean_req = fix_and_clean_path(req_path);
    let clean_req_chars = chars_of(clean_req.as_str());
    if has_relative && chars_has_double_dot(&clean_req_chars) {
        return Err(String::from_str("路径不合法"));
    }
    let clean_base = fix_and_clean_path(base_path);
    let base_chars = chars_of(clean_base.as_str());
    let root = vec!['/'];
    assert(root@ =~= seq!['/']);
    if chars_eq(&base_chars, &root) {
        return Ok(clean_req);
    }
    let full = if chars_eq(&clean_req_chars, &root) {
        base_chars
    } else {
        let trimmed = trim_end_chars(&base_chars, '/');
        concat_chars(&trimmed, &clean_req_chars)
    };
    let full_str = string_of(&full);
    Ok(fix_and_clean_path(full_str.as_str()))
}

pub proof fn lemma_trim_end_of_clean(p: Seq<char>)
    requires
        clean_segments(p).len() > 0,
    ensures
        trim_end_char(clean_path(p), '/') == clean_path(p),
{
    let segs = clean_segments(p);
    lemma_clean_segments_valid(p);
    let c = clean_path(p);
    assert(c == rooted(segs.drop_last()) + seq!['/'] + segs.last());
    assert(crate::utils::valid_segment(segs[segs.len() - 1]));
    assert(c.last() == segs.last().last());
    assert(!crate::utils::is_sep(segs.last()[segs.last().len() - 1]));
}

/// A joined path is in clean form.
pub proof fn lemma_join_user_path_clean(base: Seq<char>, req: Seq<char>)
    ensures
        join_user_path_spec(base, req) matches Some(p) ==> clean_path(p) == p,
{
    lemma_clean_idempotent(req);
    let cb = clean_path(base);
    let cr = clean_path(req);
    let full = if cr == seq!['/'] { cb } else { trim_end_char(cb, '/') + cr };
    lemma_clean_idempotent(full);
}

/// Law: a joined path never leaves the user's root.
pub proof fn lemma_join_user_path_confined(base: Seq<char>, req: Seq<char>)
    requires
        join_user_path_spec(base, req) is Some,
    ensures
        is_sub_path_spec(base, join_user_path_spec(base, req)->0),
{
    let cr = clean_path(req);
    let cb = clean_path(base);
    let r = join_user_path_spec(base, req)->0;
    lemma_clean_segments_valid(base);
    lemma_clean_segments_valid(req);
    let sb = clean_segments(base);
    let sr = clean_segments(req);
    if cb == seq!['/'] {
        lemma_root_is_ancestor(base, r);
    } else {
        assert(sb.len() > 0);
        lemma_trim_end_of_clean(base);
        if cr == seq!['/'] {
            lemma_clean_idempotent(base);
            lemma_clean_segments_of_join(sb);
            assert(clean_segments(r) == sb);
            assert(sb.subrange(0, sb.len() as int) =~= sb);
            lemma_segment_prefix_is_sub_path(base, r);
        } else {
            assert(sr.len() > 0);
            lemma_rooted_concat(sb, sr);
            let both = sb + sr;
            assert(valid_segments(both)) by {
                assert forall|i: int| 0 <= i < both.len() implies crate::utils::valid_segment(#[trigger] both[i]) by {
                    if i < sb.len() { assert(both[i] == sb[i]); } else { assert(both[i] == sr[i - sb.len()]); }
                }
            }
            let full = trim_end_char(cb, '/') + cr;
            assert(full == rooted(both));
            assert(full == join_rooted(both));
            lemma_clean_segments_of_join(both);
            assert(r == join_rooted(both));
            lemma_clean_segments_of_join(both);
            assert(clean_segments(r) == both);
            assert(both.subrange(0, sb.len() as int) =~= sb);
            lemma_segment_prefix_is_sub_path(base, r);
        }
    }
}

/// A secure random token: 32 random bytes in lower-case hexadecimal.
pub fn generate_token() -> (r: String)
    ensures
        exists|b: Seq<u8>| b.len() == 32 && r@ == #[trigger] hex_lower(b),
        r@.len() == 64,
{
    random_hex(32)
}

/// The permissions of both `a` and `b`: each flag set by either.
pub open spec fn either_grants(a: UserPermissions, b: UserPermissions) -> UserPermissions {
    UserPermissions {
        read_files: a.read_files || b.read_files,
        create_upload: a.create_upload || b.create_upload,
        rename_files: a.rename_files || b.rename_files,
        move_files: a.move_files || b.move_files,
        copy_files: a.copy_files || b.copy_files,
        delete_files: a.delete_files || b.delete_files,
        allow_direct_link: a.allow_direct_link || b.allow_direct_link,
        allow_share: a.allow_share || b.allow_share,
        is_admin: a.is_admin || b.is_admin,
        show_hidden_files: a.show_hidden_files || b.show_hidden_files,
        extract_files: a.extract_files || b.extract_files,
    }
}

/// The permissions of a member of the groups `gs`: each flag set by some
/// group (`MAX` over the groups).
pub open spec fn combined_grants(gs: Seq<UserPermissions>) -> UserPermissions
    decreases gs.len(),
{
    if gs.len() == 0 {
        UserPermissions::none_spec()
    } else {
        either_grants(combined_grants(gs.drop_last()), gs.last())
    }
}

proof fn lemma_grant_of(gs: Seq<UserPermissions>, sel: spec_fn(UserPermissions) -> bool)
    requires
        forall|a: UserPermissions, b: UserPermissions| #[trigger] sel(either_grants(a, b)) == (sel(a) || sel(b)),
        !sel(UserPermissions::none_spec()),
    ensures
        sel(combined_grants(gs)) <==> exists|i: int| 0 <= i < gs.len() && sel(#[trigger] gs[i]),
    decreases gs.len(),
{
    if gs.len() > 0 {
        let d = gs.drop_last();
        lemma_grant_of(d, sel);
        assert(sel(combined_grants(gs)) == (sel(combined_grants(d)) || sel(gs.last())));
        if exists|i: int| 0 <= i < gs.len() && sel(#[trigger] gs[i]) {
            let i = choose|i: int| 0 <= i < gs.len() && sel(#[trigger] gs[i]);
            if i < gs.len() - 1 {
                assert(d[i] == gs[i]);
                assert(sel(d[i]));
            }
        }
        if sel(combined_grants(d)) {
            let i = choose|i: int| 0 <= i < d.len() && sel(#[trigger] d[i]);
            assert(d[i] == gs[i]);
        }
        if sel(gs.last()) {
            assert(sel(gs[gs.len() - 1]));
        }
    }
}

/// Law: a member of several groups holds a permission exactly when one
/// of his groups grants it.
pub proof fn lemma_member_grants(gs: Seq<UserPermissions>)
    ensures
        combined_grants(gs).read_files <==> exists|i: int| 0 <= i < gs.len() && (#[trigger] gs[i]).read_files,
        combined_grants(gs).create_upload <==> exists|i: int| 0 <= i < gs.len() && (#[trigger] gs[i]).create_upload,
        combined_grants(gs).rename_files <==> exists|i: int| 0 <= i < gs.len() && (#[trigger] gs[i]).rename_files,
        combined_grants(gs).move_files <==> exists|i: int| 0 <= i < gs.len() && (#[trigger] gs[i]).move_files,
        combined_grants(gs).copy_files <==> exists|i: int| 0 <= i < gs.len() && (#[trigger] gs[i]).copy_files,
        combined_grants(gs).delete_files <==> exists|i: int| 0 <= i < gs.len() && (#[trigger] gs[i]).delete_files,
        combined_grants(gs).allow_direct_link <==> exists|i: int| 0 <= i < gs.len() && (#[trigger] gs[i]).allow_direct_link,
        combined_grants(gs).allow_share <==> exists|i: int| 0 <= i < gs.len() && (#[trigger] gs[i]).allow_share,
        combined_grants(gs).is_admin <==> exists|i: int| 0 <= i < gs.len() && (#[trigger] gs[i]).is_admin,
        combined_grants(gs).show_hidden_files <==> exists|i: int| 0 <= i < gs.len() && (#[trigger] gs[i]).show_hidden_files,
        combined_grants(gs).extract_files <==> exists|i: int| 0 <= i < gs.len() && (#[trigger] gs[i]).extract_files,
{
    lemma_grant_of(gs, |p: UserPermissions| p.read_files);
    lemma_grant_of(gs, |p: UserPermissions| p.create_upload);
    lemma_grant_of(gs, |p: UserPermissions| p.rename_files);
    lemma_grant_of(gs, |p: UserPermissions| p.move_files);
    lemma_grant_of(gs, |p: UserPermissions| p.copy_files);
    lemma_grant_of(gs, |p: UserPermissions| p.delete_files);
    lemma_grant_of(gs, |p: UserPermissions| p.allow_direct_link);
    lemma_grant_of(gs, |p: UserPermissions| p.allow_share);
    lemma_grant_of(gs, |p: UserPermissions| p.is_admin);
    lemma_grant_of(gs, |p: UserPermissions| p.show_hidden_files);
    lemma_grant_of(gs, |p: UserPermissions| p.extract_files);
}

/// The highest of the group roots that are set, in code-point order
/// (`MAX` over the groups, unset ones left out).
pub open spec fn highest_root(roots: Seq<Option<Seq<char>>>) -> Option<Seq<char>>
    decreases roots.len(),
{
    if roots.len() == 0 {
        None
    } else {
        match (highest_root(roots.drop_last()), roots.last()) {
            (Some(a), Some(b)) => Some(if lex_lt(a, b) { b } else { a }),
            (Some(a), None) => Some(a),
            (None, b) => b,
        }
    }
}

/// What a signed-in user may do and the root he is confined to, from the
/// groups he belongs to (their permissions and roots) and his own root: a
/// permission any group grants; his own root unless it is empty or `/`,
/// else the highest group root, else `/`. A user in no group gets nothing
/// here (`None`): he is served as a guest.
pub fn member_context(groups: &Vec<UserPermissions>, group_roots: &Vec<Option<String>>, user_root: Option<String>)
    -> (r: Option<(UserPermissions, String)>)
    ensures
        groups@.len() == 0 ==> r is None,
        groups@.len() > 0 ==> (r matches Some((p, root)) && p == combined_grants(groups@)
            && root@ == chosen_root(match user_root { Some(u) => Some(u@), None => None },
                highest_root(group_roots@.map_values(|o: Option<String>| match o { Some(t) => Some(t@), None => None })))),
{
    if groups.len() == 0 {
        return None;
    }
    let mut p = UserPermissions::none();
    let mut i: usize = 0;
    assert(groups@.take(0) =~= Seq::<UserPermissions>::empty());
    while i < groups.len()
        invariant
            i <= groups.len(),
            p == combined_grants(groups@.take(i as int)),
        decreases groups.len() - i,
    {
        assert(groups@.take(i + 1).drop_last() =~= groups@.take(i as int));
        let g = groups[i];
        p = UserPermissions {
            read_files: p.read_files || g.read_files,
            create_upload: p.create_upload || g.create_upload,
            rename_files: p.rename_files || g.rename_files,
            move_files: p.move_files || g.move_files,
            copy_files: p.copy_files || g.copy_files,
            delete_files: p.delete_files || g.delete_files,
            allow_direct_link: p.allow_direct_link || g.allow_direct_link,
            allow_share: p.allow_share || g.allow_share,
            is_admin: p.is_admin || g.is_admin,
            show_hidden_files: p.show_hidden_files || g.show_hidden_files,
            extract_files: p.extract_files || g.extract_files,
        };
        i = i + 1;
    }
    assert(groups@.take(groups.len() as int) =~= groups@);
    let ghost rv = group_roots@.map_values(|o: Option<String>| match o { Some(t) => Some(t@), None => None });
    let mut best: Option<String> = None;
    let mut j: usize = 0;
    assert(rv.take(0) =~= Seq::<Option<Seq<char>>>::empty());
    while j < group_roots.len()
        invariant
            j <= group_roots.len(),
            rv == group_roots@.map_values(|o: Option<String>| match o { Some(t) => Some(t@), None => None }),
            (match best { Some(t) => Some(t@), None => None }) == highest_root(rv.take(j as int)),
        decreases group_roots.len() - j,
    {
        assert(rv.take(j + 1).drop_last() =~= rv.take(j as int));
        assert(rv.take(j + 1).last() == rv[j as int]);
        match &group_roots[j] {
            Some(t) => {
                let nb = match &best {
                    Some(a) => if chars_lt(&chars_of(a.as_str()), &chars_of(t.as_str())) {
                        copy_str(t.as_str())
                    } else {
                        copy_str(a.as_str())
                    },
                    None => copy_str(t.as_str()),
                };
                best = Some(nb);
            },
            None => {},
        }
        j = j + 1;
    }
    assert(rv.take(group_roots.len() as int) =~= rv);
    let root = choose_root_path(user_root, best);
    Some((p, root))
}

/// What a visitor who is not signed in may do: nothing while the guest
/// account is disabled; else what the guest group grants (nothing when
/// there is no guest group).
pub fn get_guest_permissions(guest_enabled: Option<bool>, guest_group: Option<UserPermissions>) -> (r: UserPermissions)
    ensures
        guest_enabled == Some(false) ==> r == UserPermissions::none_spec(),
        guest_enabled != Some(false) ==> r == (match guest_group {
            Some(g) => g,
            None => UserPermissions::none_spec(),
        }),
{
    if guest_enabled == Some(false) {
        return UserPermissions::none();
    }
    match guest_group {
        Some(g) => g,
        None => UserPermissions::none(),
    }
}

} // verus!
