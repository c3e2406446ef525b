use yaolist::api::files::common::{get_nearest_meta, get_nearest_password_meta};
use yaolist::api::meta::{hide_lines, verify_meta_password, meta_scope, get_meta_for_path};
use yaolist::models::Meta;

fn meta(path: &str) -> Meta {
    Meta {
        id: 1,
        path: path.to_string(),
        password: None,
        p_sub: false,
        write: false,
        w_sub: false,
        hide: None,
        h_sub: false,
        readme: None,
        r_sub: false,
        header: None,
        header_sub: false,
        created_at: String::new(),
        updated_at: String::new(),
    }
}

#[test]
fn scope_of_a_setting() {
    assert_eq!(meta_scope("/docs", "/docs/"), (true, false));
    assert_eq!(meta_scope("/docs/", "/docs/a"), (true, true));
    assert_eq!(meta_scope("/docs", "/docsx"), (false, false));
    assert_eq!(meta_scope("/", "/anything"), (true, true));
    assert_eq!(meta_scope("/", "/"), (true, false));
}

#[test]
fn hide_lines_trim_and_skip_blanks() {
    assert_eq!(hide_lines(" a \r\n\n  \nb\n"), vec!["a".to_string(), "b".to_string()]);
    assert_eq!(hide_lines(""), Vec::<String>::new());
    assert_eq!(hide_lines("x"), vec!["x".to_string()]);
}

#[test]
fn view_of_nested_settings() {
    let mut deep = meta("/a/b");
    deep.password = Some("pw".to_string());
    deep.readme = Some("deep readme".to_string());
    deep.hide = Some("*.tmp\n".to_string());
    let mut top = meta("/a");
    top.write = true;
    top.w_sub = true;
    top.readme = Some("top readme".to_string());
    top.r_sub = true;
    top.hide = Some("secret".to_string());
    top.h_sub = false;
    let metas = vec![deep, top];

    let v = get_meta_for_path(&metas, "/a/b");
    assert!(v.has_password);
    assert!(!v.password_verified);
    assert!(v.can_write);
    // the hiding of /a does not reach below it without h_sub
    assert_eq!(v.hide_patterns, vec!["*.tmp".to_string()]);
    // the most specific applicable readme wins: settings come longest path first
    assert_eq!(v.readme, Some("deep readme".to_string()));
    assert_eq!(v.header, None);

    let w = get_meta_for_path(&metas, "/a/b/c");
    // the password of /a/b does not extend below it
    assert!(!w.has_password);
    assert!(w.hide_patterns.is_empty());
    // below /a/b only /a's readme reaches
    assert_eq!(w.readme, Some("top readme".to_string()));
}

#[test]
fn password_checks() {
    let mut guarded = meta("/private");
    guarded.password = Some("secret".to_string());
    let metas = vec![guarded];
    assert!(verify_meta_password(&metas, "/private", "secret"));
    assert!(!verify_meta_password(&metas, "/private/", "wrong"));
    // no p_sub: paths below are not guarded
    assert!(verify_meta_password(&metas, "/private/x", "wrong"));
    assert!(verify_meta_password(&[].to_vec(), "/x", "anything"));

    let mut root = meta("/");
    root.password = Some("r".to_string());
    root.p_sub = true;
    let metas = vec![root];
    assert!(!verify_meta_password(&metas, "/x/y", "no"));
    assert!(verify_meta_password(&metas, "/x/y", "r"));
    assert!(get_meta_for_path(&metas, "/x/y").has_password);
}

#[test]
fn nearest_settings_walk_up() {
    let mut top = meta("/a");
    top.password = Some("pw".to_string());
    let plain = meta("/a/b");
    let metas = vec![plain, top];
    assert_eq!(get_nearest_meta(&metas, "/a/b/c.txt"), Some(0));
    assert_eq!(get_nearest_meta(&metas, "a//b/"), Some(0));
    // the setting at /a/b sets no password: the walk goes on to /a
    assert_eq!(get_nearest_password_meta(&metas, "/a/b/c.txt"), Some(1));
    assert_eq!(get_nearest_meta(&metas, "/x"), None);
    assert_eq!(get_nearest_password_meta(&metas, "/x/../a"), Some(1));
    let root = meta("/");
    assert_eq!(get_nearest_meta(&vec![root], "/deep/down"), Some(0));
}
