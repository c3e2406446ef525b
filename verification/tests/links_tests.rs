use yaolist::api::direct_links::{
    check_create_permission, check_direct_link, check_link_owner, generate_sign, link_page_params, search_pattern,
    sign_of, total_pages, DirectLink,
};
use yaolist::api::files::download::{
    content_disposition, content_range, content_type_of, dlink_path, download_path, link_url, parse_range_header,
    request_origin,
};
use yaolist::api::files::list::ListEntry;
use yaolist::api::shares::public::{
    check_share, check_share_password, share_dir_path, share_download_path, share_page_of, sort_share_entries,
};
use yaolist::api::shares::types::generate_short_id;
use yaolist::clock::is_expired;

const NOW: (i64, u32) = (1_700_000_000, 0);

fn link() -> DirectLink {
    DirectLink {
        id: 1,
        user_id: Some("u1".to_string()),
        sign: "abc".to_string(),
        path: "/f".to_string(),
        filename: "f".to_string(),
        expires_at: None,
        max_access_count: None,
        access_count: 0,
        enabled: true,
        created_at: String::new(),
        updated_at: String::new(),
    }
}

#[test]
fn expiry_texts() {
    assert!(is_expired("2023-11-14T22:13:19Z", NOW));
    assert!(!is_expired("2023-11-14T22:13:20Z", NOW));
    assert!(is_expired("2023-11-14T22:13:20Z", (1_700_000_000, 1)));
    assert!(is_expired("2023-11-15T06:13:19+08:00", NOW));
    assert!(is_expired("2000-01-01T00:00:00", NOW));
    assert!(is_expired("2000-01-01T00:00", NOW));
    assert!(!is_expired("2999-01-01T00:00", NOW));
    assert!(!is_expired("not a date", NOW));
}

#[test]
fn direct_link_use() {
    let e = check_direct_link(None, NOW).unwrap_err();
    assert_eq!((e.status, e.code.as_str(), e.message.as_str()), (404, "NOT_FOUND", "直链不存在或已被删除"));
    let mut l = link();
    l.enabled = false;
    assert_eq!(check_direct_link(Some(&l), NOW).unwrap_err().code, "DISABLED");
    let mut l = link();
    l.expires_at = Some("2000-01-01T00:00:00Z".to_string());
    let e = check_direct_link(Some(&l), NOW).unwrap_err();
    assert_eq!((e.status, e.code.as_str()), (410, "EXPIRED"));
    let mut l = link();
    l.expires_at = Some("2999-01-01T00:00:00+08:00".to_string());
    assert!(check_direct_link(Some(&l), NOW).is_ok());
    let mut l = link();
    l.max_access_count = Some(3);
    l.access_count = 3;
    let e = check_direct_link(Some(&l), NOW).unwrap_err();
    assert_eq!((e.status, e.code.as_str(), e.message.as_str()), (410, "EXHAUSTED", "直链访问次数已达上限"));
    l.access_count = 2;
    assert!(check_direct_link(Some(&l), NOW).is_ok());
}

#[test]
fn direct_link_management() {
    assert_eq!(check_create_permission(false, false).unwrap_err().message, "没有创建直链的权限");
    assert!(check_create_permission(true, false).is_ok());
    assert!(check_link_owner(false, "u1", Some("u2"), "无权编辑此直链").is_err());
    assert!(check_link_owner(false, "u1", Some("u1"), "无权编辑此直链").is_ok());
    assert!(check_link_owner(true, "u1", None, "无权编辑此直链").is_ok());
    assert!(check_link_owner(false, "u1", None, "无权删除此直链").is_err());
    assert_eq!(link_page_params(None, None), (1, 10, 0));
    assert_eq!(link_page_params(Some(3), Some(500)), (3, 100, 200));
    assert_eq!(link_page_params(Some(0), Some(0)), (1, 1, 0));
    assert_eq!(total_pages(0, 10), 0);
    assert_eq!(total_pages(10, 10), 1);
    assert_eq!(total_pages(11, 10), 2);
    assert_eq!(search_pattern("x"), "%x%");
    assert_eq!(sign_of("abc/file.txt"), "abc");
    assert_eq!(sign_of("abc"), "abc");
}

#[test]
fn signs_use_the_alphabet() {
    let alphabet = "ABCDEFGHJKLMNPQRSTUVWXYZabcdefghjkmnpqrstuvwxyz23456789";
    let s = generate_sign(16);
    assert_eq!(s.chars().count(), 16);
    assert!(s.chars().all(|c| alphabet.contains(c)));
    let t = generate_short_id(8);
    assert_eq!(t.chars().count(), 8);
    assert!(t.chars().all(|c| alphabet.contains(c)));
}

#[test]
fn byte_ranges() {
    assert_eq!(parse_range_header(Some("bytes=0-99"), 1000), Some((0, 99)));
    assert_eq!(parse_range_header(Some("bytes=-100"), 1000), Some((900, 999)));
    assert_eq!(parse_range_header(Some("bytes=-950"), 1000), Some((50, 999)));
    assert_eq!(parse_range_header(Some("bytes=-500"), 1000), Some((500, 999)));
    assert_eq!(parse_range_header(Some("bytes=-500"), 2000), Some((1500, 1999)));
    assert_eq!(parse_range_header(Some("bytes=-2000"), 1000), Some((0, 999)));
    assert_eq!(parse_range_header(Some("bytes=-0"), 1000), None);
    assert_eq!(parse_range_header(Some("bytes=-5"), 0), None);
    assert_eq!(parse_range_header(Some("bytes=0-"), 0), None);
    assert_eq!(parse_range_header(Some("bytes=0-10"), 0), None);
    assert_eq!(parse_range_header(Some("bytes=500-"), 1000), Some((500, 999)));
    assert_eq!(parse_range_header(Some("bytes=900-2000"), 1000), Some((900, 999)));
    assert_eq!(parse_range_header(Some("bytes=1000-"), 1000), None);
    assert_eq!(parse_range_header(Some("bytes=5-2"), 1000), None);
    assert_eq!(parse_range_header(Some("items=0-1"), 1000), None);
    assert_eq!(parse_range_header(Some("bytes=0-1-2"), 1000), None);
    assert_eq!(parse_range_header(None, 1000), None);
}

#[test]
fn link_texts() {
    assert_eq!(dlink_path("abc", "报告 1.pdf"), "/dlink/abc/%E6%8A%A5%E5%91%8A%201.pdf");
    assert_eq!(dlink_path("s", "a-b_c.~x"), "/dlink/s/a-b_c.~x");
    assert_eq!(content_disposition("a b.txt"), "inline; filename=\"a b.txt\"; filename*=UTF-8''a%20b.txt");
    assert_eq!(content_range(0, 99, 1000), "bytes 0-99/1000");
    assert_eq!(content_type_of("/a/b.png"), "image/png");
    assert_eq!(content_type_of("/a/b.unknownext"), "application/octet-stream");
}

#[test]
fn download_paths() {
    let e = download_path(false, false, "没有下载文件的权限", "/", "/a").unwrap_err();
    assert_eq!((e.code, e.message.as_str()), (403, "没有下载文件的权限"));
    assert_eq!(download_path(true, false, "x", "/home", "/a").unwrap(), "/home/a");
    assert_eq!(download_path(false, true, "x", "/", "a/../b").unwrap(), "/b");
}

#[test]
fn share_access() {
    let e = check_share(None, NOW, "分享不存在", true).unwrap_err();
    assert_eq!((e.status, e.message.as_str()), (404, "分享不存在"));
    let e = check_share(Some((false, None, None, 0)), NOW, "x", true).unwrap_err();
    assert_eq!((e.status, e.code.as_str()), (403, "DISABLED"));
    let e = check_share(Some((true, Some("2000-01-01T00:00:00Z"), None, 0)), NOW, "x", true).unwrap_err();
    assert_eq!((e.status, e.code.as_str()), (410, "EXPIRED"));
    assert!(check_share(Some((true, Some("2000-01-01T00:00:00Z"), None, 0)), NOW, "x", false).is_ok());
    let e = check_share(Some((true, None, Some(2), 2)), NOW, "x", true).unwrap_err();
    assert_eq!(e.code, "EXHAUSTED");
    assert!(check_share_password(Some("abcd"), Some("abcd")).is_ok());
    let e = check_share_password(Some("abcd"), None).unwrap_err();
    assert_eq!((e.status, e.code.as_str(), e.message.as_str()), (403, "WRONG_PASSWORD", "提取码错误"));
    assert!(check_share_password(None, Some("zz")).is_ok());
}

#[test]
fn shared_directory_paths() {
    assert_eq!(share_dir_path("/s", Some("/sub/x")).unwrap(), "/s/sub/x");
    assert_eq!(share_dir_path("/s", Some("")).unwrap(), "/s");
    assert_eq!(share_dir_path("/s", None).unwrap(), "/s");
    let e = share_dir_path("/s", Some("../../etc")).unwrap_err();
    assert_eq!((e.status, e.code.as_str(), e.message.as_str()), (403, "FORBIDDEN", "无权访问此路径"));
}

fn entry(name: &str, modified: Option<&str>, size: u64, is_dir: bool) -> ListEntry {
    ListEntry { name: name.to_string(), size, is_dir, modified: modified.map(|m| m.to_string()), driver_id: None }
}

#[test]
fn shared_entries_order_and_pages() {
    let v = vec![entry("b", Some("2024"), 1, false), entry("a", None, 2, false), entry("d", None, 0, true)];
    let sorted = sort_share_entries(v, Some("modified"), None);
    let names: Vec<&str> = sorted.iter().map(|e| e.name.as_str()).collect();
    assert_eq!(names, vec!["d", "a", "b"]);
    let v = vec![entry("b", None, 1, false), entry("a", None, 2, false)];
    let sorted = sort_share_entries(v, Some("size"), Some("desc"));
    assert_eq!(sorted[0].name, "a");
    let many: Vec<ListEntry> = (0..120).map(|i| entry(&i.to_string(), None, 0, false)).collect();
    let (page, p, s) = share_page_of(many, None, None);
    assert_eq!((page.len(), p, s), (50, 1, 50));
    let many: Vec<ListEntry> = (0..120).map(|i| entry(&i.to_string(), None, 0, false)).collect();
    let (page, p, _) = share_page_of(many, Some(3), Some(50));
    assert_eq!((page.len(), p), (20, 3));
    assert_eq!(page[0].name, "100");
}

#[test]
fn link_urls_from_the_request() {
    assert_eq!(request_origin(None, None, Some("example.org")), ("http".to_string(), "example.org".to_string()));
    assert_eq!(request_origin(Some("https"), Some("cdn.example.org"), Some("x")), ("https".to_string(), "cdn.example.org".to_string()));
    assert_eq!(request_origin(None, None, None), ("http".to_string(), String::new()));
    assert_eq!(link_url("https", "a.org", "/dlink/s/f"), "https://a.org/dlink/s/f");
    assert_eq!(link_url("http", "", "/dlink/s/f"), "/dlink/s/f");
}

#[test]
fn passed_expiry_stays_passed() {
    let e = "2023-11-14T22:13:19Z";
    assert!(is_expired(e, (1_700_000_000, 0)));
    assert!(is_expired(e, (1_700_000_000, 5)));
    assert!(is_expired(e, (1_800_000_000, 0)));
}

#[test]
fn files_downloaded_from_shares() {
    assert_eq!(share_download_path("/s/", true, "s", None, "f.txt").unwrap(), "/s/f.txt");
    assert_eq!(share_download_path("/s", true, "s", Some("/"), "f.txt").unwrap(), "/s/f.txt");
    assert_eq!(share_download_path("/s", true, "s", Some("/d/e"), "f.txt").unwrap(), "/s/d/e/f.txt");
    let e = share_download_path("/s", true, "s", Some("../.."), "f.txt").unwrap_err();
    assert_eq!(e.status, 403);
    assert_eq!(e.code, "FORBIDDEN");
    assert_eq!(e.message, "无权下载此文件");
    // A sibling whose name extends the shared directory's is outside it.
    assert!(share_download_path("/s", true, "s", None, "../sx").is_err());
    assert_eq!(share_download_path("/", true, "s", Some("d"), "f").unwrap(), "/d/f");
    assert_eq!(share_download_path("/a/f.txt", false, "f.txt", None, "f.txt").unwrap(), "/a/f.txt");
    assert!(share_download_path("/a/f.txt", false, "f.txt", None, "g.txt").is_err());
}

#[test]
fn shared_directory_keeps_visitors_inside() {
    let e = share_dir_path("/a/b", Some("../bc")).unwrap_err();
    assert_eq!(e.status, 403);
    assert_eq!(e.message, "无权访问此路径");
    assert_eq!(share_dir_path("/a/b", Some("c/../d")).unwrap(), "/a/b/d");
    assert_eq!(share_dir_path("/a/b", Some("c/..")).unwrap(), "/a/b");
    assert_eq!(share_dir_path("/", Some("x")).unwrap(), "/x");
}
