use yaolist::api::tasks::{restart_check, retry_check, run_was_cancelled, task_matches, task_page, task_window, RestartKind};

#[test]
fn task_filters_ignore_case_and_match_parts() {
    assert!(task_matches("Upload", "Running", Some("UPL"), None));
    assert!(task_matches("Copy", "Failed", None, Some("fail")));
    assert!(!task_matches("Copy", "Failed", Some("move"), None));
    assert!(!task_matches("Copy", "Failed", Some("copy"), Some("done")));
    assert!(task_matches("Extract", "Completed", None, None));
}

#[test]
fn task_pages() {
    assert_eq!(task_page(None, None), (1, 20, 0));
    assert_eq!(task_page(Some(0), Some(500)), (1, 100, 0));
    assert_eq!(task_page(Some(3), Some(10)), (3, 10, 20));
    assert_eq!(task_window(25, 20, 10), (20, 25));
    assert_eq!(task_window(5, 20, 10), (5, 5));
    assert_eq!(task_window(50, 0, 0), (0, 0));
}

#[test]
fn resuming_and_restarting() {
    assert_eq!(retry_check("Failed", "Upload"), Ok(true));
    assert_eq!(retry_check("Interrupted", "Copy"), Ok(false));
    assert_eq!(retry_check("Running", "Copy"), Err("只能恢复失败、已取消或已中断的任务"));
    assert_eq!(restart_check("Completed", "Copy", true), Err("只能重启失败、已取消或已中断的任务"));
    assert_eq!(restart_check("Cancelled", "Upload", true), Err("上传任务请使用'继续上传'功能"));
    assert_eq!(restart_check("Failed", "Move", false), Err("任务上下文丢失，无法重启"));
    assert_eq!(restart_check("Failed", "Move", true), Ok(RestartKind::Move));
    assert_eq!(restart_check("Interrupted", "Copy", true), Ok(RestartKind::Copy));
    assert_eq!(restart_check("Failed", "Extract", true), Ok(RestartKind::Unsupported));
}

#[test]
fn cancelled_runs() {
    assert!(run_was_cancelled("task cancelled by user"));
    assert!(run_was_cancelled("用户取消"));
    assert!(!run_was_cancelled("disk full"));
}
