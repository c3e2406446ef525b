use yaolist::models::UserPermissions;
use yaolist::api::file_resolver::{
    calculate_internal_path, driver_with_id, found_file_path, get_first_mount, get_matching_mounts, mounts_from_rows,
    mounts_from_rows_unordered, next_balance_group,
    select_driver_default_with_counter, selected_driver, BalanceGroupView, DriverMatch, MountInfo,
};
use yaolist::api::files::common::{get_guest_permissions, join_user_path, member_context};
use yaolist::api::files::{child_of, get_virtual_files_by_path};
use yaolist::utils::{fix_and_clean_path, is_sub_path};

fn mount(id: &str, path: &str, order: i32) -> MountInfo {
    MountInfo { id: id.to_string(), mount_path: path.to_string(), order }
}

#[test]
fn clean_path_examples() {
    assert_eq!(fix_and_clean_path("a/b/../c"), "/a/c");
    assert_eq!(fix_and_clean_path("\\x\\y"), "/x/y");
    assert_eq!(fix_and_clean_path(""), "/");
    assert_eq!(fix_and_clean_path("/a//b/./"), "/a/b");
    assert_eq!(fix_and_clean_path("/../.."), "/");
}

#[test]
fn clean_path_is_idempotent_on_examples() {
    for p in ["a/../../b", "//x//y/", "/./.", "c/d/e/../f"] {
        let once = fix_and_clean_path(p);
        assert_eq!(fix_and_clean_path(&once), once);
        assert!(once.starts_with('/'));
    }
}

#[test]
fn sub_path_examples() {
    assert!(is_sub_path("/a", "/a/b"));
    assert!(!is_sub_path("/a", "/ab"));
    assert!(is_sub_path("/", "/x"));
    assert!(!is_sub_path("/a/b", "/a"));
    assert!(is_sub_path("/a", "/a"));
}

#[test]
fn joined_path_stays_in_root() {
    assert_eq!(join_user_path("/home", "/docs").unwrap(), "/home/docs");
    assert_eq!(join_user_path("/home", "/../etc").unwrap(), "/home/etc");
    assert_eq!(join_user_path("/", "/x/y").unwrap(), "/x/y");
    assert_eq!(join_user_path("/home/", "/").unwrap(), "/home");
    assert_eq!(join_user_path("/", "/x..y").unwrap_err(), "路径不合法");
}

#[test]
fn internal_path_examples() {
    assert_eq!(calculate_internal_path("/mnt", "/mnt/a/b"), "/a/b");
    assert_eq!(calculate_internal_path("/", "/a"), "/a");
    assert_eq!(calculate_internal_path("/mnt", "/mnt"), "/");
}

#[test]
fn mounts_ordered_by_order_on_one_path() {
    let mounts = vec![mount("a", "/data", 2), mount("b", "/data", 1), mount("c", "/", 0)];
    let m = get_matching_mounts("/data/x", &mounts);
    let ids: Vec<&str> = m.iter().map(|m| m.id.as_str()).collect();
    assert_eq!(ids, vec!["b", "a"]);
    assert_eq!(get_first_mount("/data/x", &mounts).unwrap().id, "b");
    assert_eq!(get_first_mount("/other", &mounts).unwrap().id, "c");
    assert!(get_first_mount("/x", &[]).is_none());
}

#[test]
fn selection_prefers_direct_links_in_turn() {
    let d = |id: &str, direct: bool| DriverMatch {
        mount: mount(id, "/m", 0),
        can_direct_link: direct,
        actual_path: "/f".to_string(),
    };
    let drivers = vec![d("x", false), d("y", true), d("z", true)];
    assert_eq!(select_driver_default_with_counter(&drivers, 0).unwrap().mount.id, "y");
    assert_eq!(select_driver_default_with_counter(&drivers, 1).unwrap().mount.id, "z");
    assert_eq!(select_driver_default_with_counter(&drivers, 2).unwrap().mount.id, "y");
    let plain = vec![d("p", false), d("q", false)];
    assert_eq!(select_driver_default_with_counter(&plain, 3).unwrap().mount.id, "q");
    assert!(select_driver_default_with_counter(&[], 3).is_none());
}

#[test]
fn virtual_directories_above_mounts() {
    let mounts = vec![mount("d1", "/a/b", 0), mount("d2", "/a/c/d", 0), mount("d3", "/x", 0)];
    let mut v = get_virtual_files_by_path("/a", &mounts);
    v.sort_by(|p, q| p.name.cmp(&q.name));
    assert_eq!(v.len(), 2);
    assert_eq!(v[0].name, "b");
    assert_eq!(v[0].driver_id.as_deref(), Some("d1"));
    assert_eq!(v[1].name, "c");
    assert_eq!(v[1].driver_id, None);
}

#[test]
fn child_paths() {
    assert_eq!(child_of("/", "a"), "/a");
    assert_eq!(child_of("/d", "a"), "/d/a");
}

#[test]
fn balance_groups_consulted_in_order() {
    let d = |id: &str| DriverMatch {
        mount: mount(id, "/m", 0),
        can_direct_link: id == "b",
        actual_path: format!("/in/{}", id),
    };
    let drivers = vec![d("a"), d("b")];
    let g = |on: bool, ids: &[&str]| BalanceGroupView {
        enabled: on,
        driver_ids: ids.iter().map(|s| s.to_string()).collect(),
    };
    let groups = vec![g(true, &["z"]), g(false, &["a"]), g(true, &["q", "b"]), g(true, &["a"])];
    assert_eq!(next_balance_group(&groups, &drivers, 0), Some(2));
    assert_eq!(next_balance_group(&groups, &drivers, 3), Some(3));
    assert_eq!(next_balance_group(&groups, &drivers, 4), None);
    assert_eq!(next_balance_group(&groups, &[], 0), None);
    assert_eq!(driver_with_id(&drivers, "b"), Some(1));
    assert_eq!(driver_with_id(&drivers, "c"), None);
    let s = selected_driver(&drivers[1]);
    assert_eq!(s.driver_id, "b");
    assert_eq!(s.internal_path, "/in/b");
    assert!(s.can_direct_link);
}

#[test]
fn inner_paths_cut_by_bytes() {
    assert_eq!(calculate_internal_path("/数据", "/数据/子/x"), "/子/x");
    // the mount path is cut off by its length in bytes, as the server does
    assert_eq!(calculate_internal_path("/数", "/abcdef"), "/def");
    assert_eq!(calculate_internal_path("/数据", "/数据"), "/");
    assert_eq!(calculate_internal_path("/", "/a/b"), "/a/b");
}

#[test]
fn member_and_guest_permissions() {
    let mut a = UserPermissions::none();
    a.read_files = true;
    let mut b = UserPermissions::none();
    b.delete_files = true;
    b.read_files = false;
    let (p, root) = member_context(&vec![a, b], &vec![None, Some("/b".to_string()), Some("/a".to_string())], None).unwrap();
    assert!(p.read_files && p.delete_files && !p.is_admin);
    assert_eq!(root, "/b");
    let (_, own) = member_context(&vec![a], &vec![Some("/g".to_string())], Some("/mine".to_string())).unwrap();
    assert_eq!(own, "/mine");
    let (_, slash) = member_context(&vec![a], &vec![None], Some("/".to_string())).unwrap();
    assert_eq!(slash, "/");
    assert!(member_context(&vec![], &vec![], None).is_none());

    assert_eq!(get_guest_permissions(Some(false), Some(a)), UserPermissions::none());
    assert_eq!(get_guest_permissions(Some(true), Some(a)), a);
    assert_eq!(get_guest_permissions(None, None), UserPermissions::none());
}

#[test]
fn paths_of_found_files() {
    assert_eq!(found_file_path("/docs/", "a.txt"), "/docs/a.txt");
    assert_eq!(found_file_path("/", "a.txt"), "/a.txt");
    assert_eq!(found_file_path("", "a.txt"), "/a.txt");
}

#[test]
fn sub_paths_chain_and_meet() {
    assert!(is_sub_path("/a", "/a/b"));
    assert!(is_sub_path("/a/b", "/a/b/c"));
    assert!(is_sub_path("/a", "/a/b/c"));
    assert!(is_sub_path("/a/", "a"));
    assert!(is_sub_path("a", "/a/"));
    assert_eq!(fix_and_clean_path("/a/"), fix_and_clean_path("a"));
    assert!(!is_sub_path("/a/b/c", "/a/b"));
}

#[test]
fn consecutive_counters_take_each_candidate_once() {
    let d = |id: &str| DriverMatch { mount: mount(id, "/m", 0), can_direct_link: false, actual_path: "/f".to_string() };
    let drivers = vec![d("p"), d("q"), d("r")];
    let mut seen: Vec<String> = (7u64..10)
        .map(|c| select_driver_default_with_counter(&drivers, c).unwrap().mount.id.clone())
        .collect();
    seen.sort();
    assert_eq!(seen, vec!["p".to_string(), "q".to_string(), "r".to_string()]);
}

#[test]
fn mounts_read_from_driver_rows() {
    let rows: Vec<(String, String)> = vec![
        ("1", r#"{"mount_path":"/a","order":5}"#),
        ("2", "not json"),
        ("3", r#"{"order":2}"#),
        ("4", r#"{"mount_path":"/b"}"#),
        ("5", r#"{"mount_path":"/c","order":4294967297}"#),
        ("6", r#"{"mount_path":7}"#),
    ]
    .into_iter()
    .map(|(a, b)| (a.to_string(), b.to_string()))
    .collect();
    let m = mounts_from_rows(&rows);
    let got: Vec<(String, String, i32)> = m.iter().map(|x| (x.id.clone(), x.mount_path.clone(), x.order)).collect();
    assert_eq!(
        got,
        vec![
            ("1".to_string(), "/a".to_string(), 5),
            ("4".to_string(), "/b".to_string(), 0),
            ("5".to_string(), "/c".to_string(), 1),
        ]
    );
    let u = mounts_from_rows_unordered(&rows);
    assert_eq!(u.len(), 3);
    assert!(u.iter().all(|x| x.order == 0));
}

#[test]
fn virtual_directories_lie_below_by_whole_names() {
    let mounts = vec![mount("m", "/foobar", 0)];
    assert!(get_virtual_files_by_path("/foo", &mounts).is_empty());
    let mounts = vec![mount("m", "/foo/bar", 0)];
    let v = get_virtual_files_by_path("/foo", &mounts);
    assert_eq!(v.len(), 1);
    assert_eq!(v[0].name, "bar");
    assert_eq!(v[0].driver_id.as_deref(), Some("m"));
}
