use yaolist::api::shares::admin::{create_share_plan, share_access, share_list_query, ShareAction};

#[test]
fn new_shares() {
    let s = create_share_plan("  /docs/report.pdf ").unwrap();
    assert_eq!(s.path, "/docs/report.pdf");
    assert_eq!(s.name, "report.pdf");
    assert!(!s.is_dir);
    assert_eq!(s.short_id.chars().count(), 8);
    assert_eq!(s.url, format!("/share/{}", s.short_id));
    let d = create_share_plan("/photos").unwrap();
    assert!(d.is_dir);
    assert_eq!(d.name, "photos");
    let t = create_share_plan("/v1.2/").unwrap();
    assert_eq!(t.name, "");
    assert!(t.is_dir);
    let e = create_share_plan("   ").err().unwrap();
    assert_eq!((e.code, e.message.as_str()), (400, "路径不能为空"));
}

#[test]
fn who_may_change_a_share() {
    assert!(share_access(false, "7", Some(Some("7")), ShareAction::Edit).is_ok());
    assert!(share_access(true, "1", Some(Some("7")), ShareAction::Delete).is_ok());
    assert!(share_access(true, "1", Some(None), ShareAction::Toggle).is_ok());
    let e = share_access(false, "8", Some(Some("7")), ShareAction::Delete).err().unwrap();
    assert_eq!((e.code, e.message.as_str()), (403, "无权删除此分享"));
    let e = share_access(false, "8", Some(None), ShareAction::Toggle).err().unwrap();
    assert_eq!(e.message, "无权操作此分享");
    let e = share_access(true, "1", None, ShareAction::Edit).err().unwrap();
    assert_eq!((e.code, e.message.as_str()), (404, "分享不存在"));
}

#[test]
fn share_lists() {
    let q = share_list_query(false, "7", Some("rep"), Some(2), Some(500));
    assert_eq!(q.owner.as_deref(), Some("7"));
    assert_eq!(q.pattern.as_deref(), Some("%rep%"));
    assert_eq!((q.page, q.per_page, q.offset), (2, 100, 100));
    let a = share_list_query(true, "1", None, None, None);
    assert!(a.owner.is_none() && a.pattern.is_none());
    assert_eq!((a.page, a.per_page, a.offset), (1, 10, 0));
}
