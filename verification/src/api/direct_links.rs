//! Direct links: permanent public URLs of files, who may create and edit
//! them, whether one may still be used, and the pages of their list.

use vstd::prelude::*;
use crate::api::{Refusal, refuse};
use crate::api::files::first_segment;
use crate::clock::{expired_at, is_expired};
use crate::digest::random_text;
use crate::text::{chars_of, string_of, concat_chars, str_eq};

verus! {

/// A stored direct link.
#[derive(Debug)]
pub struct DirectLink {
    pub id: i64,
    pub user_id: Option<String>,
    pub sign: String,
    pub path: String,
    pub filename: String,
    pub expires_at: Option<String>,
    pub max_access_count: Option<i64>,
    pub access_count: i64,
    pub enabled: bool,
    pub created_at: String,
    pub updated_at: String,
}

/// A direct link with the name of the user who created it.
#[derive(Debug)]
pub struct DirectLinkWithCreator {
    pub id: i64,
    pub user_id: Option<String>,
    pub sign: String,
    pub path: String,
    pub filename: String,
    pub expires_at: Option<String>,
    pub max_access_count: Option<i64>,
    pub access_count: i64,
    pub enabled: bool,
    pub created_at: String,
    pub updated_at: String,
    pub creator_name: Option<String>,
}

/// A request to create a direct link.
#[derive(Debug)]
pub struct CreateDirectLinkRequest {
    pub path: String,
    pub filename: String,
    pub expires_at: Option<String>,
    pub max_access_count: Option<i64>,
    pub enabled: Option<bool>,
}

/// A request to change a direct link.
#[derive(Debug)]
pub struct UpdateDirectLinkRequest {
    pub expires_at: Option<String>,
    pub max_access_count: Option<i64>,
    pub enabled: Option<bool>,
}

/// A request for a page of direct links.
#[derive(Debug)]
pub struct ListDirectLinksQuery {
    pub page: Option<i64>,
    pub per_page: Option<i64>,
    pub search: Option<String>,
}

/// Why a direct link cannot be used: the HTTP status, a code and a message.
#[derive(Debug)]
pub struct LinkDenial {
    pub status: u16,
    pub code: String,
    pub message: String,
}

/// Whether and why the link cannot be used at `now`: unknown (404), then
/// disabled (403), then expired (410), then used up (410).
pub open spec fn link_denial(link: Option<DirectLink>, now: (i64, u32)) -> Option<(u16, Seq<char>, Seq<char>)> {
    match link {
        None => Some((404, "NOT_FOUND"@, "直链不存在或已被删除"@)),
        Some(l) => if !l.enabled {
            Some((403, "DISABLED"@, "直链已被禁用"@))
        } else if l.expires_at matches Some(e) && expired_at(e@, now) {
            Some((410, "EXPIRED"@, "直链已过期"@))
        } else if l.max_access_count matches Some(m) && l.access_count >= m {
            Some((410, "EXHAUSTED"@, "直链访问次数已达上限"@))
        } else {
            None
        },
    }
}

fn denial(status: u16, code: &str, message: &str) -> (r: LinkDenial)
    ensures
        r.status == status,
        r.code@ == code@,
        r.message@ == message@,
{
    LinkDenial { status, code: String::from_str(code), message: String::from_str(message) }
}

/// Decides whether a direct link (`None` when no link has the sign) may be
/// used at `now`.
pub fn check_direct_link(link: Option<&DirectLink>, now: (i64, u32)) -> (r: Result<(), LinkDenial>)
    ensures
        match link_denial(match link { Some(l) => Some(*l), None => None }, now) {
            None => r is Ok,
            Some((status, code, message)) => r matches Err(d) && d.status == status && d.code@ == code
                && d.message@ == message,
        },
{
    let l = match link {
        None => {
            return Err(denial(404, "NOT_FOUND", "直链不存在或已被删除"));
        },
        Some(l) => l,
    };
    if !l.enabled {
        return Err(denial(403, "DISABLED", "直链已被禁用"));
    }
    if let Some(e) = &l.expires_at {
        if is_expired(e.as_str(), now) {
            return Err(denial(410, "EXPIRED", "直链已过期"));
        }
    }
    if let Some(m) = l.max_access_count {
        if l.access_count >= m {
            return Err(denial(410, "EXHAUSTED", "直链访问次数已达上限"));
        }
    }
    Ok(())
}

/// Law: a link that was used as often as it may be is refused, whatever
/// else holds of it.
pub proof fn lemma_used_up_link_refused(l: DirectLink, now: (i64, u32))
    requires
        l.max_access_count matches Some(m) && l.access_count >= m,
    ensures
        link_denial(Some(l), now) is Some,
{
}

/// The sign in a direct link's URL path: what stands before any `/`.
pub fn sign_of(raw: &str) -> (r: String)
    ensures
        r@ == first_segment(raw@),
{
    string_of(&crate::api::files::first_segment_of(&chars_of(raw)))
}

/// The refusal of a user who may not create direct links.
pub open spec fn create_denied_message() -> Seq<char> {
    "没有创建直链的权限"@
}

/// A user may create direct links when a group grants it or the user is an
/// administrator.
pub fn check_create_permission(group_allows: bool, is_admin: bool) -> (r: Result<(), Refusal>)
    ensures
        (group_allows || is_admin) <==> r is Ok,
        r matches Err(e) ==> e.code == 403 && e.message@ == create_denied_message(),
{
    if !group_allows && !is_admin {
        return Err(refuse(403, "没有创建直链的权限"));
    }
    Ok(())
}

/// Who may change a link: an administrator, or the user who created it.
pub open spec fn may_edit(is_admin: bool, user_id: Seq<char>, owner: Option<Seq<char>>) -> bool {
    is_admin || owner == Some(user_id)
}

/// Checks that the user may change (or delete) a link whose creator is
/// `owner`; `message` is the refusal's text.
pub fn check_link_owner(is_admin: bool, user_id: &str, owner: Option<&str>, message: &str) -> (r: Result<(), Refusal>)
    ensures
        may_edit(is_admin, user_id@, match owner { Some(o) => Some(o@), None => None }) <==> r is Ok,
        r matches Err(e) ==> e.code == 403 && e.message@ == message@,
{
    let owns = match owner {
        Some(o) => str_eq(o, user_id),
        None => false,
    };
    if !is_admin && !owns {
        return Err(refuse(403, message));
    }
    Ok(())
}

/// The page, page size and offset of a list of links: page 1 at least,
/// size between 1 and 100 (10 by default).
pub open spec fn link_page(page: Option<i64>, per_page: Option<i64>) -> (int, int) {
    let p = match page { Some(x) => if x < 1 { 1 } else { x as int }, None => 1 };
    let s = match per_page { Some(x) => if x > 100 { 100 } else if x < 1 { 1 } else { x as int }, None => 10 };
    (p, s)
}

/// The page, page size and row offset of a list request.
pub fn link_page_params(page: Option<i64>, per_page: Option<i64>) -> (r: (i64, i64, i64))
    requires
        (link_page(page, per_page).0 - 1) * link_page(page, per_page).1 <= i64::MAX,
    ensures
        r.0 == link_page(page, per_page).0,
        r.1 == link_page(page, per_page).1,
        r.2 == (r.0 - 1) * r.1,
{
    let p: i64 = match page {
        Some(x) => if x < 1 { 1 } else { x },
        None => 1,
    };
    let s: i64 = match per_page {
        Some(x) => if x > 100 { 100 } else if x < 1 { 1 } else { x },
        None => 10,
    };
    assert(0 <= (p - 1) * s) by (nonlinear_arith)
        requires p >= 1, s >= 1;
    (p, s, (p - 1) * s)
}

/// The number of pages holding `total` items, `per_page` on each.
pub open spec fn page_count(total: int, per_page: int) -> int {
    (total + per_page - 1) / per_page
}

/// Counts the pages of a list.
pub fn total_pages(total: i64, per_page: i64) -> (r: i64)
    requires
        total >= 0,
        per_page >= 1,
    ensures
        r == page_count(total as int, per_page as int),
        (r - 1) * per_page < total || total == 0,
        r * per_page >= total,
{
    let q = total / per_page;
    let rem = total % per_page;
    assert(rem == 0 || q < i64::MAX) by (nonlinear_arith)
        requires
            total >= 0,
            per_page >= 1,
            q == total / per_page,
            rem == total % per_page,
            total <= i64::MAX;
    let r = q + if rem == 0 { 0 } else { 1 };
    assert(r == page_count(total as int, per_page as int)) by (nonlinear_arith)
        requires
            total >= 0,
            per_page >= 1,
            r == total / per_page + if total % per_page == 0 { 0int } else { 1int };
    assert((r - 1) * per_page < total || total == 0) by (nonlinear_arith)
        requires
            total >= 0,
            per_page >= 1,
            r == total / per_page + if total % per_page == 0 { 0int } else { 1int };
    assert(r * per_page >= total) by (nonlinear_arith)
        requires
            total >= 0,
            per_page >= 1,
            r == total / per_page + if total % per_page == 0 { 0int } else { 1int };
    r
}

/// The pattern a search text is matched with: anywhere in the field.
pub fn search_pattern(search: &str) -> (r: String)
    ensures
        r@ == seq!['%'] + search@ + seq!['%'],
{
    let pct = vec!['%'];
    assert(pct@ =~= seq!['%']);
    string_of(&concat_chars(&concat_chars(&pct, &chars_of(search)), &pct))
}

/// The characters of a link sign: letters and digits that are not easily
/// confused (no `I`, `O`, `i`, `l`, `o`, `0`, `1`).
pub open spec fn sign_charset() -> Seq<char> {
    "ABCDEFGHJKLMNPQRSTUVWXYZabcdefghjkmnpqrstuvwxyz23456789"@
}

/// A random sign of `length` characters of the sign alphabet.
pub fn generate_sign(length: usize) -> (r: String)
    ensures
        r@.len() == length,
        forall|k: int| 0 <= k < length ==> sign_charset().contains(#[trigger] r@[k]),
{
    let charset = chars_of("ABCDEFGHJKLMNPQRSTUVWXYZabcdefghjkmnpqrstuvwxyz23456789");
    proof {
        reveal_strlit("ABCDEFGHJKLMNPQRSTUVWXYZabcdefghjkmnpqrstuvwxyz23456789");
    }
    random_text(&charset, length)
}


/// Where a direct-link download stands: waiting for the link, for the
/// access to be counted, for a storage to be chosen, or answered.
#[derive(Debug, Clone, Copy, PartialEq, Eq, Structural)]
pub enum DlinkStage {
    AwaitLink,
    AwaitCount,
    AwaitStorage,
    Finished,
}

/// What the outside work of a direct-link download reports: the link read
/// for the sign (`None` when there is none) with the present time, whether
/// the access count was written, whether a storage holding the file was
/// found.
#[derive(Debug)]
pub enum DlinkEvent {
    LinkRead { link: Option<DirectLink>, now: (i64, u32) },
    Counted { written: bool },
    StorageChosen { found: bool },
}

/// What a direct-link download does next: answer with a refusal, raise the
/// link's access count by one, choose the storage to serve from, or serve
/// the file.
#[derive(Debug)]
pub enum DlinkAction {
    Refuse(LinkDenial),
    CountAccess { link_id: i64 },
    ChooseStorage,
    Serve,
}

/// The event the stage waits for.
pub open spec fn awaited(stage: DlinkStage, e: DlinkEvent) -> bool {
    match stage {
        DlinkStage::AwaitLink => e is LinkRead,
        DlinkStage::AwaitCount => e is Counted,
        DlinkStage::AwaitStorage => e is StorageChosen,
        DlinkStage::Finished => false,
    }
}

/// How far a download has come.
pub open spec fn stage_rank(stage: DlinkStage) -> int {
    match stage {
        DlinkStage::AwaitLink => 0,
        DlinkStage::AwaitCount => 1,
        DlinkStage::AwaitStorage => 2,
        DlinkStage::Finished => 3,
    }
}

/// One step of a direct-link download: a link that may be used (see
/// `link_denial`) has its access counted, else the download is refused;
/// once the count is written the storage is chosen (a failed write is
/// refused, 500); a storage found serves the file, none is refused (503).
/// The count thus comes first, and stands whatever the storage answers.
pub fn dlink_step(stage: DlinkStage, event: DlinkEvent) -> (r: (DlinkStage, DlinkAction))
    requires
        awaited(stage, event),
    ensures
        // the stages only move forward, so each action is taken at most once;
        stage_rank(r.0) > stage_rank(stage),
        // the access is counted only on reading the link, and the storage
        // is chosen only once the count is written
        r.1 is CountAccess ==> stage == DlinkStage::AwaitLink,
        r.1 is ChooseStorage ==> event == (DlinkEvent::Counted { written: true }),
        match event {
            DlinkEvent::LinkRead { link, now } => match link_denial(link, now) {
                Some((status, code, message)) => {
                    &&& r.0 == DlinkStage::Finished
                    &&& r.1 matches DlinkAction::Refuse(d) && d.status == status && d.code@ == code && d.message@ == message
                },
                None => {
                    &&& r.0 == DlinkStage::AwaitCount
                    &&& r.1 matches DlinkAction::CountAccess { link_id } && link_id == link->0.id
                },
            },
            DlinkEvent::Counted { written } => if written {
                r.0 == DlinkStage::AwaitStorage && r.1 is ChooseStorage
            } else {
                &&& r.0 == DlinkStage::Finished
                &&& r.1 matches DlinkAction::Refuse(d) && d.status == 500
                    && d.code@ == "SERVER_ERROR"@ && d.message@ == "服务器内部错误"@
            },
            DlinkEvent::StorageChosen { found } => if found {
                r.0 == DlinkStage::Finished && r.1 is Serve
            } else {
                &&& r.0 == DlinkStage::Finished
                &&& r.1 matches DlinkAction::Refuse(d) && d.status == 503
                    && d.code@ == "DRIVER_ERROR"@ && d.message@ == "存储驱动故障"@
            },
        },
{
    match event {
        DlinkEvent::LinkRead { link, now } => {
            match check_direct_link(link.as_ref(), now) {
                Err(d) => (DlinkStage::Finished, DlinkAction::Refuse(d)),
                Ok(()) => {
                    let id = match &link {
                        Some(l) => l.id,
                        None => 0,
                    };
                    (DlinkStage::AwaitCount, DlinkAction::CountAccess { link_id: id })
                },
            }
        },
        DlinkEvent::Counted { written } => {
            if written {
                (DlinkStage::AwaitStorage, DlinkAction::ChooseStorage)
            } else {
                (DlinkStage::Finished, DlinkAction::Refuse(denial(500, "SERVER_ERROR", "服务器内部错误")))
            }
        },
        DlinkEvent::StorageChosen { found } => {
            if found {
                (DlinkStage::Finished, DlinkAction::Serve)
            } else {
                (DlinkStage::Finished, DlinkAction::Refuse(denial(503, "DRIVER_ERROR", "存储驱动故障")))
            }
        },
    }
}

} // verus!
