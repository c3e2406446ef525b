use yaolist::api::file_resolver::MountInfo;
use yaolist::api::files::list::{
    add_virtual_dirs, admin_list_path, build_listing, check_password, classify_get, count_folders, find_entry,
    fs_get_path, fs_list_path, hide_rules, listing_writable, merge_listings, page_params, paginate, sort_listing,
    split_parent, virtual_listing, GetTarget, ListEntry,
};
use yaolist::api::files::VirtualDir;
use yaolist::models::{Meta, UserPermissions};

fn file(name: &str, size: u64) -> ListEntry {
    ListEntry { name: name.to_string(), size, is_dir: false, modified: None, driver_id: None }
}

fn dir(name: &str) -> ListEntry {
    ListEntry { name: name.to_string(), size: 0, is_dir: true, modified: None, driver_id: None }
}

fn names(v: &[ListEntry]) -> Vec<String> {
    v.iter().map(|e| e.name.clone()).collect()
}

fn meta(path: &str) -> Meta {
    Meta {
        id: 1,
        path: path.to_string(),
        password: None,
        p_sub: false,
        write: false,
        w_sub: false,
        hide: None,
        h_sub: false,
        readme: None,
        r_sub: false,
        header: None,
        header_sub: false,
        created_at: String::new(),
        updated_at: String::new(),
    }
}

#[test]
fn merge_keeps_first_of_each_name() {
    let entries = vec![file("b", 1), file("a", 2), file("b", 3), file("h", 4)];
    let r = merge_listings(entries, vec![false, false, false, true], false);
    assert_eq!(names(&r), vec!["b", "a"]);
    assert_eq!(r[0].size, 1);
    let entries = vec![file("b", 1), file("a", 2), file("b", 3), file("h", 4)];
    let r = merge_listings(entries, vec![false, false, false, true], true);
    assert_eq!(names(&r), vec!["b", "a", "h"]);
}

#[test]
fn virtual_dirs_join_when_new() {
    let dirs = vec![
        VirtualDir { name: "m".to_string(), driver_id: Some("x".to_string()) },
        VirtualDir { name: "a".to_string(), driver_id: None },
        VirtualDir { name: "secret".to_string(), driver_id: None },
    ];
    let r = add_virtual_dirs(vec![dir("a")], dirs, vec![false, false, true], false);
    assert_eq!(names(&r), vec!["a", "m"]);
    assert!(r[1].is_dir);
    assert_eq!(r[1].size, 0);
    assert_eq!(r[1].driver_id.as_deref(), Some("x"));
}

#[test]
fn sort_directories_first_then_name() {
    let v = vec![dir("Zeta"), file("beta", 1), file("Alpha", 2)];
    assert_eq!(names(&sort_listing(v, None, None)), vec!["Zeta", "Alpha", "beta"]);
    let v = vec![dir("Zeta"), file("beta", 1), file("Alpha", 2)];
    assert_eq!(names(&sort_listing(v, Some("name"), Some("desc"))), vec!["Zeta", "beta", "Alpha"]);
}

#[test]
fn sort_by_size_and_modified() {
    let v = vec![file("ten", 10), file("five", 5), file("huge", u64::MAX)];
    assert_eq!(names(&sort_listing(v, Some("size"), Some("asc"))), vec!["huge", "five", "ten"]);
    let mut a = file("a", 1);
    a.modified = Some("2024-02-01".to_string());
    let mut b = file("b", 1);
    b.modified = Some("2023-01-01".to_string());
    let c = file("c", 1);
    assert_eq!(names(&sort_listing(vec![a, b, c], Some("modified"), None)), vec!["c", "b", "a"]);
}

#[test]
fn sort_keeps_order_of_equal_keys() {
    let v = vec![file("x", 3), file("y", 3), file("z", 1)];
    assert_eq!(names(&sort_listing(v, Some("size"), None)), vec!["z", "x", "y"]);
}

#[test]
fn page_parameters_are_clamped() {
    assert_eq!(page_params(None, None), (1, 10));
    assert_eq!(page_params(Some(0), Some(500)), (1, 100));
    assert_eq!(page_params(Some(-3), Some(0)), (1, 1));
    assert_eq!(page_params(Some(4), Some(25)), (4, 25));
}

#[test]
fn pages_of_items() {
    let items: Vec<u32> = (0..25).collect();
    assert_eq!(paginate(items.clone(), 3, 10), vec![20, 21, 22, 23, 24]);
    assert_eq!(paginate(items.clone(), 1, 10), (0..10).collect::<Vec<u32>>());
    assert!(paginate(items, 4, 10).is_empty());
}

#[test]
fn folder_count() {
    assert_eq!(count_folders(&vec![dir("a"), file("b", 1), dir("c")]), 2);
}

#[test]
fn listing_page_with_counts_and_names() {
    let dirs = vec![
        VirtualDir { name: "m".to_string(), driver_id: Some("x".to_string()) },
        VirtualDir { name: "a".to_string(), driver_id: None },
    ];
    let page = build_listing(vec![file("b", 3), dir("a")], true, false, dirs, vec![false, false], false, None, None, 1, 10)
        .unwrap();
    assert_eq!(page.total, 3);
    assert_eq!(page.folder_count, 2);
    assert_eq!(page.file_count, 1);
    assert_eq!(names(&page.content), vec!["a", "m", "b"]);
    assert_eq!(page.all_names.unwrap(), vec!["a", "m", "b"]);
}

#[test]
fn listing_refused_when_every_storage_failed() {
    let e = build_listing(vec![], false, true, vec![], vec![], false, None, None, 1, 10).unwrap_err();
    assert_eq!(e.code, 500);
    assert_eq!(e.message, "存储驱动故障，请联系管理员");
    assert!(build_listing(vec![], false, false, vec![], vec![], false, None, None, 1, 10).is_ok());
}

#[test]
fn virtual_listing_of_unknown_path() {
    let e = virtual_listing("/x", vec![], vec![], false, 1, 10).unwrap_err();
    assert_eq!(e.code, 404);
    assert_eq!(e.message, "路径不存在: /x");
    let ok = virtual_listing("/", vec![], vec![], false, 1, 10).unwrap();
    assert_eq!(ok.total, 0);
    assert!(ok.all_names.is_none());
}

#[test]
fn list_path_checks() {
    let e = fs_list_path(false, "/", Some("/a")).unwrap_err();
    assert_eq!((e.code, e.message.as_str()), (403, "guest_disabled"));
    assert_eq!(fs_list_path(true, "/home", Some("a/b")).unwrap(), "/home/a/b");
    assert_eq!(fs_list_path(true, "/", None).unwrap(), "/");
    let e = fs_get_path(false, "/", Some("/x..y")).unwrap_err();
    assert_eq!(e.message, "路径不合法");
    let e = fs_get_path(false, "/", Some("/ok")).unwrap_err();
    assert_eq!(e.message, "guest_disabled");
    let e = admin_list_path(false, Some("/a")).unwrap_err();
    assert_eq!(e.message, "需要管理员权限");
    assert_eq!(admin_list_path(true, Some("a//b")).unwrap(), "/a/b");
}

#[test]
fn password_of_nearest_setting() {
    let mut m = meta("/a");
    m.password = Some("pw".to_string());
    m.p_sub = true;
    assert!(check_password(Some(&m), "/a/b", Some("pw")).is_ok());
    let e = check_password(Some(&m), "/a/b", Some("x")).unwrap_err();
    assert_eq!(e.code, 403);
    assert_eq!(e.message, "password is incorrect or you have no permission");
    assert!(check_password(Some(&m), "/b", None).is_ok());
    assert!(check_password(None, "/a", None).is_ok());
}

#[test]
fn hiding_rules_and_write_flag() {
    let mut m = meta("/a");
    m.hide = Some("*.tmp".to_string());
    assert_eq!(hide_rules(Some(&m), "/a"), "*.tmp");
    assert_eq!(hide_rules(Some(&m), "/a/b/c"), "");
    assert_eq!(hide_rules(None, "/a"), "");
    let mut p = UserPermissions::none();
    m.write = true;
    assert!(listing_writable(&p, Some(&m), "/a"));
    assert!(!listing_writable(&p, None, "/a"));
    p.create_upload = true;
    assert!(listing_writable(&p, None, "/a"));
}

#[test]
fn what_a_get_request_names() {
    let mounts = vec![MountInfo { id: "d1".to_string(), mount_path: "/data".to_string(), order: 0 }];
    assert_eq!(classify_get("/", &mounts), GetTarget::Root);
    assert_eq!(classify_get("/data", &mounts), GetTarget::MountPoint);
    assert_eq!(classify_get("/data/x", &mounts), GetTarget::InParent);
    let deep = vec![MountInfo { id: "d2".to_string(), mount_path: "/a/b".to_string(), order: 0 }];
    assert_eq!(classify_get("/a", &deep), GetTarget::AboveMounts);
}

#[test]
fn parent_and_name() {
    assert_eq!(split_parent("/a/b/c"), ("/a/b".to_string(), "c".to_string()));
    assert_eq!(split_parent("/a"), ("/".to_string(), "a".to_string()));
    assert_eq!(split_parent("/"), ("/".to_string(), "".to_string()));
    let files = vec![file("x", 1), file("y", 2), file("y", 3)];
    assert_eq!(find_entry(&files, "y"), Some(1));
    assert_eq!(find_entry(&files, "z"), None);
}
