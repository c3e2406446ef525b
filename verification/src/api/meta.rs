//! Per-path settings: the request for a page of them, what a visitor is
//! told of the settings over a path, and the check of a path password.

use vstd::prelude::*;
use crate::models::Meta;
use crate::api::files::list::opt_view;
use crate::text::{chars_of, chars_eq, chars_starts_with, is_prefix, trim_end_chars, trim_end_char,
    str_eq, copy_str, string_of, trimmed, trim_text, pieces};

verus! {

/// A request for a page of per-path settings.
#[derive(Debug)]
pub struct ListMetasQuery {
    pub page: Option<i64>,
    pub per_page: Option<i64>,
}

/// A setting stored at `meta_path` is over `path` (trailing slashes of
/// both dropped): the same path, a path below it, or the setting of the
/// root.
pub open spec fn meta_covers(meta_path: Seq<char>, path: Seq<char>) -> bool {
    let m = trim_end_char(meta_path, '/');
    let c = trim_end_char(path, '/');
    m == c || is_prefix(m.push('/'), c) || m.len() == 0
}

/// `path` lies strictly below the setting stored at `meta_path`.
pub open spec fn meta_below(meta_path: Seq<char>, path: Seq<char>) -> bool {
    let m = trim_end_char(meta_path, '/');
    let c = trim_end_char(path, '/');
    c != m && is_prefix(m.push('/'), c)
}

/// Where a setting stands to a path: whether it is over it, and whether
/// the path is strictly below it.
pub fn meta_scope(meta_path: &str, path: &str) -> (r: (bool, bool))
    ensures
        r.0 == meta_covers(meta_path@, path@),
        r.1 == meta_below(meta_path@, path@),
{
    let m = trim_end_chars(&chars_of(meta_path), '/');
    let c = trim_end_chars(&chars_of(path), '/');
    let mut ms = m.clone();
    ms.push('/');
    assert(ms@ == m@.push('/'));
    let same = chars_eq(&m, &c);
    let under = chars_starts_with(&c, &ms);
    (same || under || m.len() == 0, !same && under)
}

/// A setting's part applies at `path`: the setting is over it, and the
/// part extends to paths below (`sub`) where the path is below.
pub open spec fn part_applies(m: Meta, path: Seq<char>, sub: bool) -> bool {
    meta_covers(m.path@, path) && (!meta_below(m.path@, path) || sub)
}

/// A text that is present and not empty.
pub open spec fn filled(t: Option<String>) -> bool {
    t matches Some(s) && s@.len() > 0
}

/// A line that ended with a line feed, without a carriage return before it.
pub open spec fn strip_cr(l: Seq<char>) -> Seq<char> {
    if l.len() > 0 && l.last() == '\r' { l.drop_last() } else { l }
}

/// The lines of `s` (`str::lines`): split at `\n` or `\r\n`, a final line
/// ending optional.
pub open spec fn text_lines(s: Seq<char>) -> Seq<Seq<char>> {
    let p = pieces(s, '\n');
    let body = Seq::new((p.len() - 1) as nat, |i: int| strip_cr(p[i]));
    if p.last().len() == 0 { body } else { body.push(p.last()) }
}

/// The lines of `ls` trimmed, the blank ones left out.
pub open spec fn kept_lines(ls: Seq<Seq<char>>) -> Seq<Seq<char>>
    decreases ls.len(),
{
    if ls.len() == 0 {
        Seq::empty()
    } else {
        let r = kept_lines(ls.drop_last());
        let t = trimmed(ls.last());
        if t.len() > 0 { r.push(t) } else { r }
    }
}

proof fn lemma_kept_lines_push(ls: Seq<Seq<char>>, l: Seq<char>)
    ensures
        kept_lines(ls.push(l)) == (if trimmed(l).len() > 0 { kept_lines(ls).push(trimmed(l)) } else { kept_lines(ls) }),
{
    assert(ls.push(l).drop_last() =~= ls);
}

/// The hiding patterns written in `text`, one per line: each line
/// trimmed, blank lines left out.
pub fn hide_lines(text: &str) -> (r: Vec<String>)
    ensures
        r@.map_values(|p: String| p@) == kept_lines(text_lines(text@)),
{
    let s = chars_of(text);
    let mut out: Vec<String> = Vec::new();
    let mut cur: Vec<char> = Vec::new();
    let ghost mut done: Seq<Seq<char>> = Seq::empty();
    let mut i: usize = 0;
    assert(s@.take(0) =~= Seq::<char>::empty());
    while i < s.len()
        invariant
            i <= s.len(),
            s@ == text@,
            pieces(s@.take(i as int), '\n') == done.push(cur@),
            out@.map_values(|p: String| p@) == kept_lines(done.map_values(|l: Seq<char>| strip_cr(l))),
        decreases s.len() - i,
    {
        let ghost before = s@.take(i as int);
        assert(s@.take((i + 1) as int).drop_last() =~= before);
        let c = s[i];
        if c == '\n' {
            let line = if cur.len() > 0 && cur[cur.len() - 1] == '\r' {
                let mut l = cur.clone();
                l.pop();
                l
            } else {
                cur.clone()
            };
            assert(line@ == strip_cr(cur@)) by {
                if cur@.len() > 0 && cur@.last() == '\r' {
                    assert(line@ =~= cur@.drop_last());
                }
            }
            let t = trim_text(string_of(&line).as_str());
            let ghost old_out = out@;
            let tl = chars_of(t.as_str()).len();
            if tl > 0 {
                out.push(t);
                assert(out@.map_values(|p: String| p@) =~= old_out.map_values(|p: String| p@).push(trimmed(line@)));
            }
            proof {
                let old_done = done;
                done = done.push(cur@);
                assert(done.map_values(|l: Seq<char>| strip_cr(l)) =~=
                    old_done.map_values(|l: Seq<char>| strip_cr(l)).push(strip_cr(cur@)));
                lemma_kept_lines_push(old_done.map_values(|l: Seq<char>| strip_cr(l)), strip_cr(cur@));
            }
            cur = Vec::new();
            assert(pieces(s@.take((i + 1) as int), '\n') =~= done.push(cur@));
        } else {
            let ghost old_cur = cur@;
            cur.push(c);
            assert(pieces(s@.take((i + 1) as int), '\n') =~= done.push(cur@));
        }
        i = i + 1;
    }
    assert(s@.take(s.len() as int) =~= s@);
    let ghost body = done.map_values(|l: Seq<char>| strip_cr(l));
    assert(Seq::new((pieces(text@, '\n').len() - 1) as nat, |k: int| strip_cr(pieces(text@, '\n')[k])) =~= body);
    if cur.len() > 0 {
        let t = trim_text(string_of(&cur).as_str());
        let ghost old_out = out@;
        let tl = chars_of(t.as_str()).len();
        if tl > 0 {
            out.push(t);
            assert(out@.map_values(|p: String| p@) =~= old_out.map_values(|p: String| p@).push(trimmed(cur@)));
        }
        proof { lemma_kept_lines_push(body, cur@); }
    }
    out
}

/// What a visitor is told of the settings over a path.
#[derive(Debug)]
pub struct PathMetaView {
    pub has_password: bool,
    pub password_verified: bool,
    pub can_write: bool,
    pub hide_patterns: Vec<String>,
    pub readme: Option<String>,
    pub header: Option<String>,
}

/// Some setting over `path` sets a password that applies there.
pub open spec fn any_password(metas: Seq<Meta>, path: Seq<char>) -> bool {
    exists|i: int| 0 <= i < metas.len() && part_applies(#[trigger] metas[i], path, metas[i].p_sub)
        && filled(metas[i].password)
}

/// Some setting over `path` allows writing there.
pub open spec fn any_write(metas: Seq<Meta>, path: Seq<char>) -> bool {
    exists|i: int| 0 <= i < metas.len() && part_applies(#[trigger] metas[i], path, metas[i].w_sub)
        && metas[i].write
}

/// The text of a present text, empty otherwise.
pub open spec fn text_view(t: Option<String>) -> Seq<char> {
    match t {
        Some(s) => s@,
        None => Seq::empty(),
    }
}

/// The hiding patterns in force at `path`: those of each setting over it
/// whose hiding applies there, in the order of `metas`.
pub open spec fn shown_patterns(metas: Seq<Meta>, path: Seq<char>) -> Seq<Seq<char>>
    decreases metas.len(),
{
    if metas.len() == 0 {
        Seq::empty()
    } else {
        let m = metas.last();
        shown_patterns(metas.drop_last(), path) + (if part_applies(m, path, m.h_sub) && filled(m.hide) {
            kept_lines(text_lines(text_view(m.hide)))
        } else {
            Seq::empty()
        })
    }
}

/// The readme shown at `path`: that of the first setting in `metas` (read
/// longest path first, so the most specific) whose readme applies there.
pub open spec fn shown_readme(metas: Seq<Meta>, path: Seq<char>) -> Option<Seq<char>>
    decreases metas.len(),
{
    if metas.len() == 0 {
        None
    } else {
        let earlier = shown_readme(metas.drop_last(), path);
        let m = metas.last();
        if earlier is Some {
            earlier
        } else if part_applies(m, path, m.r_sub) && filled(m.readme) {
            Some(text_view(m.readme))
        } else {
            None
        }
    }
}

/// The header shown at `path`: that of the first setting in `metas` (read
/// longest path first, so the most specific) whose header applies there.
pub open spec fn shown_header(metas: Seq<Meta>, path: Seq<char>) -> Option<Seq<char>>
    decreases metas.len(),
{
    if metas.len() == 0 {
        None
    } else {
        let earlier = shown_header(metas.drop_last(), path);
        let m = metas.last();
        if earlier is Some {
            earlier
        } else if part_applies(m, path, m.header_sub) && filled(m.header) {
            Some(text_view(m.header))
        } else {
            None
        }
    }
}

fn is_filled(t: &Option<String>) -> (r: bool)
    ensures
        r == filled(*t),
{
    match t {
        Some(s) => chars_of(s.as_str()).len() > 0,
        None => false,
    }
}

fn opt_copy(t: &Option<String>) -> (r: Option<String>)
    ensures
        r matches Some(s) ==> *t matches Some(u) && s@ == u@,
        r is Some <==> t is Some,
{
    match t {
        Some(s) => Some(copy_str(s.as_str())),
        None => None,
    }
}

/// What a visitor is told of the settings over `path`, from the settings
/// read longest path first: whether a password guards it, whether it may
/// be written, the hiding patterns, the readme and the header.
pub fn get_meta_for_path(metas: &Vec<Meta>, path: &str) -> (r: PathMetaView)
    ensures
        r.has_password == any_password(metas@, path@),
        !r.password_verified,
        r.can_write == any_write(metas@, path@),
        r.hide_patterns@.map_values(|p: String| p@) == shown_patterns(metas@, path@),
        opt_view(r.readme) == shown_readme(metas@, path@),
        opt_view(r.header) == shown_header(metas@, path@),
{
    let mut has_password = false;
    let mut can_write = false;
    let mut patterns: Vec<String> = Vec::new();
    let mut readme: Option<String> = None;
    let mut header: Option<String> = None;
    let mut i: usize = 0;
    assert(metas@.take(0) =~= Seq::<Meta>::empty());
    while i < metas.len()
        invariant
            i <= metas.len(),
            has_password == any_password(metas@.take(i as int), path@),
            can_write == any_write(metas@.take(i as int), path@),
            patterns@.map_values(|p: String| p@) == shown_patterns(metas@.take(i as int), path@),
            opt_view(readme) == shown_readme(metas@.take(i as int), path@),
            opt_view(header) == shown_header(metas@.take(i as int), path@),
        decreases metas.len() - i,
    {
        let ghost pre = metas@.take(i as int);
        let ghost next = metas@.take((i + 1) as int);
        assert(next.drop_last() =~= pre);
        assert(next.last() == metas@[i as int]);
        let m = &metas[i];
        let (covered, below) = meta_scope(m.path.as_str(), path);
        if covered {
            if is_filled(&m.password) && (!below || m.p_sub) {
                has_password = true;
            }
            if m.write && (!below || m.w_sub) {
                can_write = true;
            }
            if is_filled(&m.hide) && (!below || m.h_sub) {
                let lines = match &m.hide {
                    Some(h) => hide_lines(h.as_str()),
                    None => Vec::new(),
                };
                let ghost old_p = patterns@;
                let mut lines = lines;
                patterns.append(&mut lines);
                assert(patterns@.map_values(|p: String| p@) =~=
                    old_p.map_values(|p: String| p@) + kept_lines(text_lines(text_view(m.hide))));
            } else {
                assert(shown_patterns(next, path@) =~= shown_patterns(pre, path@));
            }
            if readme.is_none() && is_filled(&m.readme) && (!below || m.r_sub) {
                readme = opt_copy(&m.readme);
            }
            if header.is_none() && is_filled(&m.header) && (!below || m.header_sub) {
                header = opt_copy(&m.header);
            }
        } else {
            assert(shown_patterns(next, path@) =~= shown_patterns(pre, path@));
        }
        proof {
            if any_password(next, path@) && !any_password(pre, path@) {
                let k = choose|k: int| 0 <= k < next.len() && part_applies(#[trigger] next[k], path@, next[k].p_sub)
                    && filled(next[k].password);
                if k < i {
                    assert(pre[k] == next[k]);
                }
            }
            if any_write(next, path@) && !any_write(pre, path@) {
                let k = choose|k: int| 0 <= k < next.len() && part_applies(#[trigger] next[k], path@, next[k].w_sub)
                    && next[k].write;
                if k < i {
                    assert(pre[k] == next[k]);
                }
            }
            if any_password(pre, path@) {
                let k = choose|k: int| 0 <= k < pre.len() && part_applies(#[trigger] pre[k], path@, pre[k].p_sub)
                    && filled(pre[k].password);
                assert(next[k] == pre[k]);
            }
            if any_write(pre, path@) {
                let k = choose|k: int| 0 <= k < pre.len() && part_applies(#[trigger] pre[k], path@, pre[k].w_sub)
                    && pre[k].write;
                assert(next[k] == pre[k]);
            }
        }
        i = i + 1;
    }
    assert(metas@.take(metas.len() as int) =~= metas@);
    PathMetaView {
        has_password,
        password_verified: false,
        can_write,
        hide_patterns: patterns,
        readme,
        header,
    }
}

/// A setting's password guards `path`: stored at the path itself, or
/// extending to sub-paths and stored above it or at the root.
pub open spec fn password_guards(m: Meta, path: Seq<char>) -> bool {
    let mp = trim_end_char(m.path@, '/');
    let c = trim_end_char(path, '/');
    mp == c || (is_prefix(mp.push('/'), c) && m.p_sub) || (mp.len() == 0 && m.p_sub)
}

/// Whether `password` opens `path`: the first setting in `metas` that
/// guards the path with a password decides; with none, it opens.
pub open spec fn password_verdict(metas: Seq<Meta>, path: Seq<char>, password: Seq<char>) -> bool
    decreases metas.len(),
{
    if metas.len() == 0 {
        true
    } else if password_guards(metas[0], path) && filled(metas[0].password) {
        text_view(metas[0].password) == password
    } else {
        password_verdict(metas.drop_first(), path, password)
    }
}

/// Law: the first setting (in the order given, longest path first) that
/// guards `path` with a password decides: a password opens the path
/// exactly when it is that setting's password; with no such setting every
/// password opens it.
pub proof fn lemma_first_guard_decides(metas: Seq<Meta>, path: Seq<char>, password: Seq<char>, k: int)
    requires
        0 <= k < metas.len(),
        password_guards(metas[k], path) && filled(metas[k].password),
        forall|j: int| 0 <= j < k ==> !(password_guards(#[trigger] metas[j], path) && filled(metas[j].password)),
    ensures
        password_verdict(metas, path, password) <==> text_view(metas[k].password) == password,
    decreases k,
{
    if k > 0 {
        let rest = metas.drop_first();
        assert(!(password_guards(metas[0], path) && filled(metas[0].password)));
        assert forall|j: int| 0 <= j < k - 1 implies !(password_guards(#[trigger] rest[j], path) && filled(rest[j].password)) by {
            assert(rest[j] == metas[j + 1]);
        }
        assert(rest[k - 1] == metas[k]);
        lemma_first_guard_decides(rest, path, password, k - 1);
    }
}

/// Law: a path that no setting guards with a password opens with any
/// password.
pub proof fn lemma_unguarded_opens(metas: Seq<Meta>, path: Seq<char>, password: Seq<char>)
    requires
        forall|j: int| 0 <= j < metas.len() ==> !(password_guards(#[trigger] metas[j], path) && filled(metas[j].password)),
    ensures
        password_verdict(metas, path, password),
    decreases metas.len(),
{
    if metas.len() > 0 {
        let rest = metas.drop_first();
        assert(!(password_guards(metas[0], path) && filled(metas[0].password)));
        assert forall|j: int| 0 <= j < rest.len() implies !(password_guards(#[trigger] rest[j], path) && filled(rest[j].password)) by {
            assert(rest[j] == metas[j + 1]);
        }
        lemma_unguarded_opens(rest, path, password);
    }
}

/// Checks a password given for `path` against the settings read longest
/// path first.
pub fn verify_meta_password(metas: &Vec<Meta>, path: &str, password: &str) -> (r: bool)
    ensures
        r == password_verdict(metas@, path@, password@),
{
    let c = trim_end_chars(&chars_of(path), '/');
    let mut i: usize = 0;
    assert(metas@.skip(0) =~= metas@);
    while i < metas.len()
        invariant
            i <= metas.len(),
            c@ == trim_end_char(path@, '/'),
            password_verdict(metas@, path@, password@) == password_verdict(metas@.skip(i as int), path@, password@),
        decreases metas.len() - i,
    {
        let ghost rest = metas@.skip(i as int);
        assert(rest[0] == metas@[i as int]);
        assert(rest.drop_first() =~= metas@.skip(i + 1));
        let m = &metas[i];
        let mp = trim_end_chars(&chars_of(m.path.as_str()), '/');
        let mut ms = mp.clone();
        ms.push('/');
        assert(ms@ == mp@.push('/'));
        let guards = chars_eq(&mp, &c) || (chars_starts_with(&c, &ms) && m.p_sub) || (mp.len() == 0 && m.p_sub);
        if guards && is_filled(&m.password) {
            match &m.password {
                Some(pw) => {
                    return str_eq(pw.as_str(), password);
                },
                None => {
                    return true;
                },
            }
        }
        i = i + 1;
    }
    true
}

/// A password is refused at a path only where a visitor is told that a
/// password guards it.
pub proof fn lemma_refusal_needs_password(metas: Seq<Meta>, path: Seq<char>, password: Seq<char>)
    requires
        !password_verdict(metas, path, password),
    ensures
        any_password(metas, path),
    decreases metas.len(),
{
    if metas.len() > 0 {
        let m = metas[0];
        if password_guards(m, path) && filled(m.password) {
            assert(part_applies(metas[0], path, metas[0].p_sub));
        } else {
            lemma_refusal_needs_password(metas.drop_first(), path, password);
            let k = choose|k: int| 0 <= k < metas.drop_first().len()
                && part_applies(#[trigger] metas.drop_first()[k], path, metas.drop_first()[k].p_sub)
                && filled(metas.drop_first()[k].password);
            assert(metas[k + 1] == metas.drop_first()[k]);
        }
    }
}

} // verus!
