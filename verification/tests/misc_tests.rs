use yaolist::api::stats::{download_traffic, traffic_increment};
use yaolist::api::oauth::{oauth_callback_page, token_exchange_failure, token_exchange_outcome};
use yaolist::api::search::admin::{get_index_status, index_row, index_totals, DriverIndexStats};
use yaolist::api::archive::{get_archive_format as archive_kind, parse_central_directory};
use yaolist::api::extract::handlers::{get_archive_format as handler_format, plan_extraction};
use yaolist::api::extract::types::{default_encoding, ArchiveFormat, MountInfo};
use yaolist::api::extract::utils::{decode_filename, get_archive_format};
use yaolist::api::load_balance::{check_group_name, default_weight, driver_capability, list_modes, DriverConfig};
use yaolist::api::search::query::{
    display_path, hit_hide_rule_applies, hit_kind_matches, hit_within_root, search_limit, search_page, search_start,
};
use yaolist::api::search::types::{default_limit, SearchUserContext};
use yaolist::api::webdav::basic_credentials;
use yaolist::api::{refuse, ApiResponse};
use yaolist::num::{i64_to_decimal, parse_i32, parse_i64, parse_u64};

fn chars(s: &str) -> Vec<char> {
    s.chars().collect()
}

#[test]
fn signed_numbers() {
    assert_eq!(parse_i64(&chars("-9223372036854775808")), Some(i64::MIN));
    assert_eq!(parse_i64(&chars("9223372036854775807")), Some(i64::MAX));
    assert_eq!(parse_i64(&chars("9223372036854775808")), None);
    assert_eq!(parse_i64(&chars("+5")), Some(5));
    assert_eq!(parse_i64(&chars("-+5")), None);
    assert_eq!(parse_i64(&chars("")), None);
    assert_eq!(parse_i64(&chars("-")), None);
    assert_eq!(parse_i32(&chars("-2147483648")), Some(i32::MIN));
    assert_eq!(parse_i32(&chars("2147483648")), None);
    assert_eq!(parse_u64(&chars("+18446744073709551615")), Some(u64::MAX));
    assert_eq!(parse_u64(&chars("18446744073709551616")), None);
    let t: String = i64_to_decimal(i64::MIN).into_iter().collect();
    assert_eq!(t, "-9223372036854775808");
    let t: String = i64_to_decimal(0).into_iter().collect();
    assert_eq!(t, "0");
}

#[test]
fn search_checks() {
    assert_eq!(search_start(false, true, "x").unwrap_err(), "搜索功能未启用");
    assert_eq!(search_start(true, false, "x").unwrap_err(), "索引未构建");
    assert_eq!(search_start(true, true, "   ").unwrap_err(), "搜索关键词不能为空");
    assert_eq!(search_start(true, true, "  foo ").unwrap(), "foo");
    assert_eq!(search_limit(50, 1), 150);
    assert_eq!(search_limit(5000, 2), 10000);
    assert_eq!(default_limit(), 50);
    let ctx = SearchUserContext::default();
    assert_eq!(ctx.root_path, "/");
    assert!(!ctx.permissions.show_hidden_files);
}

#[test]
fn search_visibility() {
    assert!(hit_within_root("/", "/anything"));
    assert!(hit_within_root("/home", "/home/a"));
    assert!(hit_within_root("/home", "/home"));
    assert!(!hit_within_root("/home", "/homework"));
    assert!(hit_hide_rule_applies("/a/b.txt", "/a/", false, "*.txt"));
    assert!(hit_hide_rule_applies("/a/b.txt", "/a", true, "*.txt"));
    assert!(!hit_hide_rule_applies("/a/b.txt", "/a", false, "*.txt"));
    assert!(!hit_hide_rule_applies("/a/b.txt", "/a/", false, ""));
    assert!(!hit_hide_rule_applies("/b/c", "/a", true, "x"));
    assert!(!hit_kind_matches(Some("file"), true));
    assert!(hit_kind_matches(Some("folder"), true));
    assert!(hit_kind_matches(Some("other"), false));
    assert!(hit_kind_matches(None, true));
}

#[test]
fn search_paths_and_pages() {
    assert_eq!(display_path("/home", "/home/a/b"), "/a/b");
    assert_eq!(display_path("/home", "/home"), "/");
    assert_eq!(display_path("/", "/x"), "/x");
    assert_eq!(display_path("/home", "/other/x"), "/other/x");
    let hits: Vec<u32> = (0..10).collect();
    assert_eq!(search_page(hits.clone(), 2, 3), vec![3, 4, 5]);
    assert_eq!(search_page(hits.clone(), 0, 3), vec![0, 1, 2]);
    assert_eq!(search_page(hits.clone(), 4, 3), vec![9]);
    assert!(search_page(hits, 5, 3).is_empty());
}

#[test]
fn archive_formats() {
    assert_eq!(get_archive_format("A.TAR.GZ"), Some(ArchiveFormat::TarGz));
    assert_eq!(get_archive_format("x.tbz2"), Some(ArchiveFormat::TarBz2));
    assert_eq!(get_archive_format("x.epub"), None);
    assert_eq!(handler_format("x.epub"), Some(ArchiveFormat::Zip));
    assert_eq!(handler_format("x.JAR"), Some(ArchiveFormat::Zip));
    assert_eq!(handler_format("x.gz"), None);
    assert_eq!(get_archive_format("x.7z"), Some(ArchiveFormat::SevenZip));
    assert_eq!(get_archive_format("x.tar"), Some(ArchiveFormat::Tar));
    assert_eq!(get_archive_format("x.rar"), None);
    assert_eq!(archive_kind("a.ZIP"), Some("zip"));
    assert_eq!(archive_kind("a.rar"), None);
    assert_eq!(default_encoding(), "utf-8");
}

#[test]
fn entry_names_decoded() {
    assert_eq!(decode_filename("名字.txt".as_bytes(), "utf-8"), "名字.txt");
    assert_eq!(decode_filename(&[0xC4, 0xE3, 0xBA, 0xC3], "gbk"), "你好");
}

fn mount(id: &str, path: &str) -> MountInfo {
    MountInfo { id: id.to_string(), mount_path: path.to_string() }
}

#[test]
fn extraction_plans() {
    let mounts = vec![mount("m0", "/"), mount("m1", "/d")];
    let e = plan_extraction(false, "/d/a.zip", "/d", &mounts).unwrap_err();
    assert_eq!((e.code, e.message.as_str()), (403, "没有解压缩权限"));
    let e = plan_extraction(true, "/d/a.rar", "/d", &mounts).unwrap_err();
    assert_eq!(e.code, 400);
    let p = plan_extraction(true, "/d/A.ZIP", "d/out", &mounts).unwrap();
    assert_eq!(p.format, ArchiveFormat::Zip);
    assert_eq!((p.src_mount, p.dst_mount), (1, 1));
    assert_eq!(p.src_actual, "/A.ZIP");
    assert_eq!(p.src_parent, "/");
    assert_eq!(p.dst_actual, "/out");
    assert_eq!(p.filename, "A.ZIP");
    assert_eq!(p.task_name, "解压 A.ZIP 到 /d/out");
    let e = plan_extraction(true, "/d/a.zip", "/x", &[mount("m1", "/d")]).unwrap_err();
    assert_eq!((e.code, e.message.as_str()), (404, "未找到目标目录的挂载点"));
}

fn cd_record(name: &str) -> Vec<u8> {
    let mut r = vec![0x50, 0x4b, 0x01, 0x02];
    r.extend_from_slice(&[0u8; 24]);
    r.extend_from_slice(&(name.len() as u16).to_le_bytes());
    r.extend_from_slice(&[0u8; 2]);
    r.extend_from_slice(&[0u8; 2]);
    r.extend_from_slice(&[0u8; 12]);
    assert_eq!(r.len(), 46);
    r.extend_from_slice(name.as_bytes());
    r
}

#[test]
fn central_directory_listing() {
    let mut cd = Vec::new();
    for n in ["dir/", "dir/a.txt", "b.txt", "Zed/c.txt"] {
        cd.extend(cd_record(n));
    }
    let top = parse_central_directory(&cd, "");
    let shown: Vec<(String, String, bool)> = top.iter().map(|e| (e.name.clone(), e.path.clone(), e.is_dir)).collect();
    assert_eq!(
        shown,
        vec![
            ("dir".to_string(), "dir".to_string(), true),
            ("Zed".to_string(), "Zed".to_string(), true),
            ("b.txt".to_string(), "b.txt".to_string(), false),
        ]
    );
    let inner = parse_central_directory(&cd, "/dir/");
    assert_eq!(inner.len(), 1);
    assert_eq!(inner[0].name, "a.txt");
    assert_eq!(inner[0].path, "dir/a.txt");
}

#[test]
fn answer_envelopes() {
    let ok: ApiResponse<u8> = ApiResponse::success(7);
    assert_eq!((ok.code, ok.message.as_str(), ok.data), (200, "success", Some(7)));
    let err: ApiResponse<u8> = ApiResponse::error("bad");
    assert_eq!((err.code, err.message.as_str(), err.data), (400, "bad", None));
    let s: yaolist::api::search::admin::ApiResponse<u8> = yaolist::api::search::admin::ApiResponse::error("x");
    assert_eq!(s.code, 500);
    let t: yaolist::api::search::types::ApiResponse<u8> = yaolist::api::search::types::ApiResponse::error("x");
    assert!(!t.success);
    assert_eq!(t.error.as_deref(), Some("x"));
    let r = refuse(418, "teapot");
    assert_eq!((r.code, r.message.as_str()), (418, "teapot"));
    assert_eq!(check_group_name("").unwrap_err().message, "组名不能为空");
    assert!(check_group_name("g").is_ok());
    assert_eq!(default_weight(), 1);
}

#[test]
fn basic_credentials_split_at_first_colon() {
    assert_eq!(
        basic_credentials("Basic dXNlcjpwYXNz"),
        Some(("user".to_string(), "pass".to_string()))
    );
    // "a:b:c" keeps the later colons in the password
    assert_eq!(
        basic_credentials("Basic YTpiOmM="),
        Some(("a".to_string(), "b:c".to_string()))
    );
}

#[test]
fn basic_credentials_refusals() {
    assert_eq!(basic_credentials("Bearer dXNlcjpwYXNz"), None);
    assert_eq!(basic_credentials("Basic !!!"), None);
    // "userpass" has no colon
    assert_eq!(basic_credentials("Basic dXNlcnBhc3M="), None);
    // 0xff is not UTF-8
    assert_eq!(basic_credentials("Basic /w=="), None);
}

#[test]
fn index_status_and_rows() {
    let stats = vec![
        DriverIndexStats { file_count: 3, dir_count: 1, last_updated: Some(100) },
        DriverIndexStats { file_count: 2, dir_count: 2, last_updated: None },
        DriverIndexStats { file_count: 0, dir_count: 0, last_updated: Some(1_700_000_000) },
    ];
    assert_eq!(index_totals(&stats), (5, 3, Some(1_700_000_000)));
    let s = get_index_status(false, 0, None, true, 4096, &stats);
    assert_eq!(s.status, "idle");
    assert_eq!(s.object_count, 8);
    assert_eq!(s.index_size, 4096);
    assert_eq!(s.last_updated.as_deref(), Some("2023-11-14T22:13:20+00:00"));
    let r = get_index_status(true, 42, None, true, 0, &stats);
    assert_eq!((r.status.as_str(), r.object_count, r.last_updated), ("indexing", 42, None));
    let e = get_index_status(false, 0, Some("boom".to_string()), false, 0, &vec![]);
    assert_eq!(e.status, "error");
    assert_eq!(get_index_status(false, 0, None, false, 0, &vec![]).status, "not_built");

    let row = index_row("/mnt/", "/", "a.txt", false, 12, Some("2024-01-01T00:00:00Z"));
    assert_eq!(row.path, "/mnt/a.txt");
    assert_eq!(row.modified, 1_704_067_200);
    let sub = index_row("/", "/docs", "b", true, 0, Some("bad"));
    assert_eq!(sub.path, "/docs/b");
    assert_eq!(sub.modified, 0);
    assert!(sub.is_dir);
}

#[test]
fn oauth_pages_and_token_outcomes() {
    let e = oauth_callback_page("", Some("access_denied"), Some("c"));
    assert!(e.starts_with("<!DOCTYPE html>"));
    assert!(e.contains("<title>授权失败</title>"));
    assert!(e.contains("<p>access_denied</p>"));
    assert!(e.contains("error: 'access_denied'"));
    let c = oauth_callback_page("阿里云盘", None, Some("xyz"));
    assert!(c.contains("<title>阿里云盘授权成功</title>"));
    assert!(c.contains("code: 'xyz'"));
    assert!(c.contains("setTimeout(() => window.close(), 1000);"));
    let n = oauth_callback_page("阿里云盘", None, None);
    assert!(n.contains("<h2 class=\"error\">阿里云盘授权错误</h2>"));
    assert!(n.ends_with("</html>"));

    let t = token_exchange_outcome(Some("a".into()), Some("r".into()), None, Some("ignored".into()));
    assert_eq!((t.access_token.as_deref(), t.refresh_token.as_deref(), t.error), (Some("a"), Some("r"), None));
    let f = token_exchange_outcome(Some("a".into()), None, Some("invalid_grant".into()), Some("Bad code".into()));
    assert_eq!((f.access_token, f.error.as_deref()), (None, Some("Bad code")));
    let g = token_exchange_outcome(None, None, Some("invalid_grant".into()), None);
    assert_eq!(g.error.as_deref(), Some("invalid_grant"));
    assert_eq!(token_exchange_failure(false, "timeout").error.as_deref(), Some("请求失败: timeout"));
    assert_eq!(token_exchange_failure(true, "eof").error.as_deref(), Some("解析响应失败: eof"));
}

#[test]
fn traffic_counts() {
    assert_eq!(traffic_increment(0), None);
    assert_eq!(traffic_increment(1024), Some(1024));
    assert_eq!(traffic_increment(u64::MAX), Some(-1));
    assert_eq!(download_traffic(None), 0);
    assert_eq!(download_traffic(Some(5)), 5);
}

#[test]
fn balancing_modes_and_capabilities() {
    let m = list_modes();
    assert_eq!(m.len(), 2);
    assert_eq!((m[0].id.as_str(), m[0].name.as_str()), ("weighted_round_robin", "加权轮询"));
    assert_eq!((m[1].id.as_str(), m[1].description.as_str()), ("geo_region", "中国大陆/海外用户分流到不同驱动"));
    let d = DriverConfig {
        driver_id: "1".into(),
        driver_name: "a".into(),
        mount_path: "/a".into(),
        weight: 1,
        order: 0,
        is_china_node: true,
        can_redirect: true,
    };
    let c = driver_capability(&d);
    assert!(c.can_redirect && c.can_range_read && c.can_direct_link);
}
