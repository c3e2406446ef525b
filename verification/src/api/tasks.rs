//! Background tasks: the requests that list and control them, which
//! tasks a filter keeps, the page of a list, and when a stopped task may be
//! resumed or run again.

use vstd::prelude::*;
use crate::text::{chars_of, chars_has_infix, has_infix, lowercase, to_lowercase, str_eq};

verus! {

/// A request for a page of tasks, optionally of one kind, state or user.
#[derive(Debug)]
pub struct ListTasksQuery {
    pub page: Option<u32>,
    pub page_size: Option<u32>,
    pub task_type: Option<String>,
    pub status: Option<String>,
    pub user_id: Option<String>,
}

/// A request for one task.
#[derive(Debug)]
pub struct GetTaskReq {
    pub task_id: String,
}

/// A request to cancel a task.
#[derive(Debug)]
pub struct CancelTaskReq {
    pub task_id: String,
}

/// A request to remove a finished task.
#[derive(Debug)]
pub struct RemoveTaskReq {
    pub task_id: String,
}

/// A request to run a failed task again.
#[derive(Debug)]
pub struct RetryTaskReq {
    pub task_id: String,
}

/// A task's kind or state, by name (`Upload`, `Failed`, ...), is kept by
/// a filter when the filter, lowercased, occurs in the lowercased name.
pub open spec fn name_kept(name: Seq<char>, filter: Option<Seq<char>>) -> bool {
    match filter {
        Some(f) => has_infix(lowercase(name), lowercase(f)),
        None => true,
    }
}

/// The text of a filter that is given.
pub open spec fn filter_view(f: Option<&str>) -> Option<Seq<char>> {
    match f {
        Some(t) => Some(t@),
        None => None,
    }
}

fn name_matches(name: &str, filter: Option<&str>) -> (r: bool)
    ensures
        r == name_kept(name@, filter_view(filter)),
{
    match filter {
        Some(f) => {
            let n = to_lowercase(name);
            let w = to_lowercase(f);
            chars_has_infix(&chars_of(n.as_str()), &chars_of(w.as_str()))
        },
        None => true,
    }
}

/// Whether a list filter keeps a task, given the names of its kind and
/// state.
pub fn task_matches(kind_name: &str, status_name: &str, task_type: Option<&str>, status: Option<&str>) -> (r: bool)
    ensures
        r == (name_kept(kind_name@, filter_view(task_type)) && name_kept(status_name@, filter_view(status))),
{
    name_matches(kind_name, task_type) && name_matches(status_name, status)
}

/// The page of a task list: page 1 at least, at most 100 tasks on a page
/// (20 by default), and the position of its first task.
pub open spec fn task_page_of(page: Option<u32>, page_size: Option<u32>) -> (int, int) {
    let p = match page { Some(x) => if x < 1 { 1 } else { x as int }, None => 1 };
    let s = match page_size { Some(x) => if x > 100 { 100 } else { x as int }, None => 20 };
    (p, s)
}

/// The page, page size and first position of a task list.
pub fn task_page(page: Option<u32>, page_size: Option<u32>) -> (r: (u32, u32, u32))
    requires
        (task_page_of(page, page_size).0 - 1) * task_page_of(page, page_size).1 <= u32::MAX,
    ensures
        r.0 == task_page_of(page, page_size).0,
        r.1 == task_page_of(page, page_size).1,
        r.2 == (r.0 - 1) * r.1,
{
    let p: u32 = match page {
        Some(x) => if x < 1 { 1 } else { x },
        None => 1,
    };
    let s: u32 = match page_size {
        Some(x) => if x > 100 { 100 } else { x },
        None => 20,
    };
    assert(0 <= (p - 1) * s) by (nonlinear_arith)
        requires p >= 1, s >= 0;
    (p, s, (p - 1) * s)
}

/// The positions `from..to` of the tasks on a page of `total` tasks that
/// starts at `start` and holds up to `size`.
pub fn task_window(total: usize, start: u32, size: u32) -> (r: (usize, usize))
    ensures
        r.0 == (if start as int <= total { start as int } else { total as int }),
        r.1 == (if start as int + size as int <= total { start as int + size as int } else { total as int }),
        r.0 <= r.1 <= total,
{
    let from: usize = if (start as u64) <= (total as u64) { start as usize } else { total };
    let end: u64 = start as u64 + size as u64;
    let to: usize = if end <= (total as u64) { end as usize } else { total };
    (from, to)
}

/// The refusal of a task that did not stop in failure, cancellation or
/// interruption.
pub open spec fn resume_refused_message() -> Seq<char> {
    "只能恢复失败、已取消或已中断的任务"@
}

/// A task may be resumed or run again once it failed, was cancelled or was
/// interrupted.
pub open spec fn stopped(status_name: Seq<char>) -> bool {
    status_name == "Failed"@ || status_name == "Cancelled"@ || status_name == "Interrupted"@
}

fn is_stopped(status_name: &str) -> (r: bool)
    ensures
        r == stopped(status_name@),
{
    str_eq(status_name, "Failed") || str_eq(status_name, "Cancelled") || str_eq(status_name, "Interrupted")
}

/// Whether a task may be resumed, and then whether the user must pick its
/// files again (an upload).
pub fn retry_check(status_name: &str, kind_name: &str) -> (r: Result<bool, &'static str>)
    ensures
        stopped(status_name@) <==> r is Ok,
        r matches Ok(pick) ==> pick == (kind_name@ == "Upload"@),
        r matches Err(m) ==> m@ == resume_refused_message(),
{
    if !is_stopped(status_name) {
        return Err("只能恢复失败、已取消或已中断的任务");
    }
    Ok(str_eq(kind_name, "Upload"))
}

/// What a task run again does.
#[derive(Debug, Clone, Copy, PartialEq, Eq, Structural)]
pub enum RestartKind {
    Move,
    Copy,
    /// A kind that cannot be run again: the run fails at once.
    Unsupported,
}

/// Whether a task may be run again: it must have stopped, not be an
/// upload, and still hold its items; then what it does.
pub fn restart_check(status_name: &str, kind_name: &str, has_items: bool) -> (r: Result<RestartKind, &'static str>)
    ensures
        !stopped(status_name@) ==> (r matches Err(m) && m@ == "只能重启失败、已取消或已中断的任务"@),
        stopped(status_name@) && kind_name@ == "Upload"@ ==> (r matches Err(m) && m@ == "上传任务请使用'继续上传'功能"@),
        stopped(status_name@) && kind_name@ != "Upload"@ && !has_items ==> (r matches Err(m) && m@ == "任务上下文丢失，无法重启"@),
        stopped(status_name@) && kind_name@ != "Upload"@ && has_items ==> r == Ok::<RestartKind, &'static str>(
            if kind_name@ == "Move"@ { RestartKind::Move } else if kind_name@ == "Copy"@ { RestartKind::Copy } else { RestartKind::Unsupported }),
{
    if !is_stopped(status_name) {
        return Err("只能重启失败、已取消或已中断的任务");
    }
    if str_eq(kind_name, "Upload") {
        return Err("上传任务请使用'继续上传'功能");
    }
    if !has_items {
        return Err("任务上下文丢失，无法重启");
    }
    if str_eq(kind_name, "Move") {
        Ok(RestartKind::Move)
    } else if str_eq(kind_name, "Copy") {
        Ok(RestartKind::Copy)
    } else {
        Ok(RestartKind::Unsupported)
    }
}

/// A failed run counts as cancelled when its message speaks of
/// cancelling.
pub open spec fn ended_by_cancel(message: Seq<char>) -> bool {
    has_infix(message, "cancelled"@) || has_infix(message, "取消"@)
}

/// Whether a run that failed with `message` was cancelled (else it failed).
pub fn run_was_cancelled(message: &str) -> (r: bool)
    ensures
        r == ended_by_cancel(message@),
{
    let m = chars_of(message);
    chars_has_infix(&m, &chars_of("cancelled")) || chars_has_infix(&m, &chars_of("取消"))
}

} // verus!
