//! Managing shares: what a new share is made of, who may change one, and
//! which shares a list shows.

use vstd::prelude::*;
use crate::api::{Refusal, refuse};
use crate::api::archive::{after_last, after_last_of};
use crate::api::direct_links::{link_page, link_page_params, sign_charset, search_pattern};
use crate::api::shares::types::{generate_short_id, ShareWithCreator};
use crate::text::{chars_of, string_of, concat_chars, copy_str, chars_contains, chars_ends_with, is_suffix,
    trimmed, trim_text, str_eq};

verus! {

/// What a new share is made of: the trimmed path, its last segment as the
/// name, and whether it is taken as a directory (a name without `.`, or a
/// path ending in `/`).
pub open spec fn share_target_of(path: Seq<char>) -> Option<(Seq<char>, Seq<char>, bool)> {
    let p = trimmed(path);
    if p.len() == 0 {
        None
    } else {
        let name = after_last(p, '/');
        Some((p, name, !name.contains('.') || is_suffix(seq!['/'], p)))
    }
}

/// A new share: its path, name, kind, short id and URL.
#[derive(Debug)]
pub struct NewShare {
    pub path: String,
    pub name: String,
    pub is_dir: bool,
    pub short_id: String,
    pub url: String,
}

/// Plans a new share of `path`: an empty path (after trimming) is refused
/// (400); else a fresh short id of eight link characters, and its URL
/// `/share/<id>`.
pub fn create_share_plan(path: &str) -> (r: Result<NewShare, Refusal>)
    ensures
        share_target_of(path@) is None ==> (r matches Err(e) && e.code == 400 && e.message@ == "路径不能为空"@),
        share_target_of(path@) matches Some((p, name, is_dir)) ==> (r matches Ok(s) && s.path@ == p && s.name@ == name
            && s.is_dir == is_dir && s.short_id@.len() == 8
            && (forall|k: int| 0 <= k < 8 ==> sign_charset().contains(#[trigger] s.short_id@[k]))
            && s.url@ == "/share/"@ + s.short_id@),
{
    let p = trim_text(path);
    let pc = chars_of(p.as_str());
    if pc.len() == 0 {
        return Err(refuse(400, "路径不能为空"));
    }
    let name = after_last_of(&pc, '/');
    let slash = vec!['/'];
    let is_dir = !chars_contains(&name, '.') || chars_ends_with(&pc, &slash);
    assert(slash@ =~= seq!['/']);
    let short_id = generate_short_id(8);
    let url = concat_chars(&chars_of("/share/"), &chars_of(short_id.as_str()));
    Ok(NewShare { path: p, name: string_of(&name), is_dir, short_id, url: string_of(&url) })
}

/// What is being done to a share.
#[derive(Debug, Clone, Copy, PartialEq, Eq, Structural)]
pub enum ShareAction {
    Edit,
    Delete,
    Toggle,
}

/// The refusal of a user who may not do `action` to another's share.
pub open spec fn share_forbidden_message(action: ShareAction) -> Seq<char> {
    match action {
        ShareAction::Edit => "无权编辑此分享"@,
        ShareAction::Delete => "无权删除此分享"@,
        ShareAction::Toggle => "无权操作此分享"@,
    }
}

/// Whether a user may change a share: it must exist (`owner` is the stored
/// creator, else 404), and an administrator may change any, another user
/// only his own (else 403).
pub fn share_access(is_admin: bool, user_id: &str, owner: Option<Option<&str>>, action: ShareAction) -> (r: Result<(), Refusal>)
    ensures
        owner is None ==> (r matches Err(e) && e.code == 404 && e.message@ == "分享不存在"@),
        owner matches Some(o) ==> (if is_admin || (o matches Some(u) && u@ == user_id@) {
            r is Ok
        } else {
            r matches Err(e) && e.code == 403 && e.message@ == share_forbidden_message(action)
        }),
{
    let o = match owner {
        None => {
            return Err(refuse(404, "分享不存在"));
        },
        Some(o) => o,
    };
    let own = match o {
        Some(u) => str_eq(u, user_id),
        None => false,
    };
    if is_admin || own {
        Ok(())
    } else {
        match action {
            ShareAction::Edit => Err(refuse(403, "无权编辑此分享")),
            ShareAction::Delete => Err(refuse(403, "无权删除此分享")),
            ShareAction::Toggle => Err(refuse(403, "无权操作此分享")),
        }
    }
}

/// Which shares a list shows: an administrator sees all, another user his
/// own (`owner`); a search matches `%words%` against path, name and short
/// id; and the page, its size and the rows skipped.
#[derive(Debug)]
pub struct ShareListQuery {
    pub owner: Option<String>,
    pub pattern: Option<String>,
    pub page: i64,
    pub per_page: i64,
    pub offset: i64,
}

/// Plans the list of shares a user asked for.
pub fn share_list_query(is_admin: bool, user_id: &str, search: Option<&str>, page: Option<i64>, per_page: Option<i64>)
    -> (r: ShareListQuery)
    requires
        (link_page(page, per_page).0 - 1) * link_page(page, per_page).1 <= i64::MAX,
    ensures
        is_admin ==> r.owner is None,
        !is_admin ==> (r.owner matches Some(o) && o@ == user_id@),
        search is None ==> r.pattern is None,
        search matches Some(s) ==> (r.pattern matches Some(p) && p@ == seq!['%'] + s@ + seq!['%']),
        r.page == link_page(page, per_page).0,
        r.per_page == link_page(page, per_page).1,
        r.offset == (r.page - 1) * r.per_page,
{
    let (p, s, off) = link_page_params(page, per_page);
    let pattern = match search {
        Some(w) => Some(search_pattern(w)),
        None => None,
    };
    let owner = if is_admin { None } else { Some(copy_str(user_id)) };
    ShareListQuery { owner, pattern, page: p, per_page: s, offset: off }
}

/// A share as a list shows it: whether it has an extraction code, never
/// the code itself.
pub fn share_has_password(s: &ShareWithCreator) -> (r: bool)
    ensures
        r == s.password is Some,
{
    s.password.is_some()
}

} // verus!
