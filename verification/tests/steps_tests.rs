use yaolist::api::auth::login::{check_credentials, login_end, CredentialsStep, LoginEnd};
use yaolist::api::auth::register::{code_to_mark_used, new_account};
use yaolist::api::auth::types::RegisterRequest;
use yaolist::api::direct_links::{dlink_step, DirectLink, DlinkAction, DlinkEvent, DlinkStage};
use yaolist::api::file_resolver::MountInfo;
use yaolist::api::files::copy_move::{move_step, MoveAction, MoveEvent};
use yaolist::api::files::upload::upload_target_checked;
use yaolist::api::search::query::{search_answer, FoundHit};
use yaolist::models::UserPermissions;

const NOW: (i64, u32) = (1_700_000_000, 0);

fn link(access_count: i64, max: Option<i64>) -> DirectLink {
    DirectLink {
        id: 7,
        user_id: None,
        sign: "s".to_string(),
        path: "/f".to_string(),
        filename: "f".to_string(),
        expires_at: None,
        max_access_count: max,
        access_count,
        enabled: true,
        created_at: String::new(),
        updated_at: String::new(),
    }
}

#[test]
fn direct_link_download_counts_before_choosing() {
    let (s, a) = dlink_step(DlinkStage::AwaitLink, DlinkEvent::LinkRead { link: Some(link(0, Some(3))), now: NOW });
    assert_eq!(s, DlinkStage::AwaitCount);
    assert!(matches!(a, DlinkAction::CountAccess { link_id: 7 }));
    let (s, a) = dlink_step(s, DlinkEvent::Counted { written: true });
    assert_eq!(s, DlinkStage::AwaitStorage);
    assert!(matches!(a, DlinkAction::ChooseStorage));
    let (s, a) = dlink_step(s, DlinkEvent::StorageChosen { found: false });
    assert_eq!(s, DlinkStage::Finished);
    match a {
        DlinkAction::Refuse(d) => assert_eq!((d.status, d.code.as_str()), (503, "DRIVER_ERROR")),
        _ => panic!("expected a refusal"),
    }
    let (s, a) = dlink_step(DlinkStage::AwaitLink, DlinkEvent::LinkRead { link: Some(link(3, Some(3))), now: NOW });
    assert_eq!(s, DlinkStage::Finished);
    assert!(matches!(a, DlinkAction::Refuse(ref d) if d.code == "EXHAUSTED"));
    let (_, a) = dlink_step(DlinkStage::AwaitCount, DlinkEvent::Counted { written: false });
    assert!(matches!(a, DlinkAction::Refuse(ref d) if d.status == 500));
}

#[test]
fn new_accounts_are_plain_members() {
    let req = RegisterRequest {
        username: "bob".to_string(),
        password: "pw".to_string(),
        email: Some("b@x.org".to_string()),
        phone: None,
        verification_code: "123456".to_string(),
        verification_type: "email".to_string(),
    };
    let a = new_account(&req, "12", "$2b$hash", "3", Some("/home"));
    assert_eq!((a.id.as_str(), a.username.as_str(), a.password_hash.as_str()), ("12", "bob", "$2b$hash"));
    assert!(!a.is_admin && a.enabled);
    assert_eq!(a.email.as_deref(), Some("b@x.org"));
    assert_eq!(a.root_path.as_deref(), Some("/home"));
    assert_eq!(a.memberships, vec![("12".to_string(), "3".to_string())]);
    assert_eq!(code_to_mark_used(Some(("c9", "123456", false)), "123456").unwrap(), "c9");
    assert_eq!(code_to_mark_used(Some(("c9", "123456", true)), "123456").unwrap_err().message, "验证码已使用");
    assert_eq!(code_to_mark_used(None, "1").unwrap_err().code, 400);
}

#[test]
fn cross_storage_move_stops_at_a_failed_copy() {
    assert_eq!(move_step(false, 2, MoveEvent::Next { index: 0 }), MoveAction::Copy { index: 0 });
    assert_eq!(move_step(false, 2, MoveEvent::Copied { index: 0, ok: true }), MoveAction::DeleteSource { index: 0 });
    assert_eq!(move_step(false, 2, MoveEvent::Deleted { index: 0, ok: true }), MoveAction::Copy { index: 1 });
    assert_eq!(move_step(false, 2, MoveEvent::Copied { index: 1, ok: false }), MoveAction::Fail);
    assert_eq!(move_step(false, 2, MoveEvent::Deleted { index: 1, ok: true }), MoveAction::Done);
    assert_eq!(move_step(true, 1, MoveEvent::Next { index: 0 }), MoveAction::MoveWithin { index: 0 });
    assert_eq!(move_step(true, 1, MoveEvent::Moved { index: 0, ok: false }), MoveAction::Fail);
}

fn hit(path: &str, is_dir: bool, hidden: bool) -> FoundHit {
    FoundHit {
        path: path.to_string(),
        name: path.rsplit('/').next().unwrap().to_string(),
        is_dir,
        size: 1,
        modified: 2,
        hidden,
    }
}

#[test]
fn search_answer_counts_its_results() {
    let hits = vec![
        hit("/home/a.txt", false, false),
        hit("/other/b.txt", false, false),
        hit("/home/d", true, false),
        hit("/home/h.txt", false, true),
        hit("/home", true, false),
        hit("/homework/c.txt", false, false),
    ];
    let r = search_answer("/home", false, None, &hits, 1, 2);
    assert_eq!(r.total_matched, 3);
    assert_eq!(r.total, 2);
    assert_eq!(r.results.len(), 2);
    assert_eq!(r.results[0].path, "/a.txt");
    assert_eq!(r.results[1].path, "/d");
    let r = search_answer("/home", false, None, &hits, 2, 2);
    assert_eq!((r.total, r.results[0].path.as_str()), (1, "/"));
    let r = search_answer("/home", true, Some("file"), &hits, 1, 10);
    assert_eq!(r.total, 2);
}

#[test]
fn wrong_passwords_record_a_failure() {
    let hash = bcrypt::hash("right", 4).unwrap();
    assert!(matches!(check_credentials(None, "x"), CredentialsStep::RecordFailure));
    assert!(matches!(check_credentials(Some(hash.as_str()), "wrong"), CredentialsStep::RecordFailure));
    assert!(matches!(check_credentials(Some(hash.as_str()), "right"), CredentialsStep::CheckSecondFactor));
    assert!(matches!(check_credentials(Some("not a hash"), "x"), CredentialsStep::ServerError(ref e) if e.code == 500));
    assert!(matches!(login_end(Ok(())), LoginEnd::ClearFailuresAndOpenSession));
}

#[test]
fn checked_upload_targets() {
    let mut p = UserPermissions::none();
    p.create_upload = true;
    let mounts = vec![MountInfo { id: "d1".to_string(), mount_path: "/data".to_string(), order: 0 }];
    let t = upload_target_checked(&p, "/", "/data/sub", "f.txt", &mounts).unwrap().unwrap();
    assert_eq!(t.actual_path, "/sub/f.txt");
    assert!(upload_target_checked(&UserPermissions::none(), "/", "/data", "f", &mounts).unwrap().is_err());
}
