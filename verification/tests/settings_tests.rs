use std::io::Write;
use yaolist::api::backup::{
    require_admin, restore_plan, restore_summary, restored_password_hash, BackupData, DriverBackup, MetaBackup,
    MountBackup, RestoreKind, ShareBackup, SiteSettingBackup, UserBackup, UserGroupBackup,
};
use yaolist::api::settings::geoip::{geoip_config_updates, geoip_config_view, geoip_filename, geoip_payload, GeoIpConfigRequest};
use yaolist::api::settings::site::{check_settings_admin, public_settings, settings_updates, StoredSettings};
use yaolist::api::settings::types::UpdateSettingsRequest;
use yaolist::config::AppConfig;

fn empty_request() -> UpdateSettingsRequest {
    UpdateSettingsRequest {
        site_title: None,
        site_description: None,
        site_icon: None,
        allow_registration: None,
        default_user_group: None,
        site_announcement: None,
        robots_txt: None,
        preview_encrypted_audio: None,
        background_image: None,
        glass_effect: None,
        glass_blur: None,
        glass_opacity: None,
        proxy_max_speed: None,
        proxy_max_concurrent: None,
        download_domain: None,
        link_expiry_minutes: None,
    }
}

fn nothing_stored() -> StoredSettings {
    StoredSettings {
        site_title: None,
        site_description: None,
        site_icon: None,
        allow_registration: None,
        default_user_group: None,
        site_announcement: None,
        robots_txt: None,
        preview_encrypted_audio: None,
        background_image: None,
        glass_effect: None,
        glass_blur: None,
        glass_opacity: None,
        proxy_max_speed: None,
        proxy_max_concurrent: None,
        download_domain: None,
        link_expiry_minutes: None,
    }
}

#[test]
fn settings_written_in_order() {
    let mut r = empty_request();
    r.site_title = Some("T".to_string());
    r.allow_registration = Some(false);
    r.glass_blur = Some(-5);
    r.proxy_max_speed = Some(1024);
    let w = settings_updates(&r);
    let expected: Vec<(String, String)> = vec![
        ("site_title".into(), "T".into()),
        ("allow_registration".into(), "false".into()),
        ("glass_blur".into(), "-5".into()),
        ("proxy_max_speed".into(), "1024".into()),
    ];
    assert_eq!(w, expected);
    assert!(settings_updates(&empty_request()).is_empty());
}

#[test]
fn public_settings_defaults() {
    let p = public_settings(&nothing_stored());
    assert_eq!(p.site_title, "YaoList");
    assert_eq!(p.site_icon, "/favicon.ico");
    assert_eq!(p.site_description, "");
    assert!(!p.allow_registration);
    assert_eq!(p.glass_blur, 12);
    assert_eq!(p.glass_opacity, 80);
    assert_eq!(p.proxy_max_speed, 0);
    assert_eq!(p.proxy_max_concurrent, 0);
    assert_eq!(p.link_expiry_minutes, 15);
}

#[test]
fn public_settings_read_stored_values() {
    let mut s = nothing_stored();
    s.glass_blur = Some("abc".to_string());
    s.glass_opacity = Some("-7".to_string());
    s.allow_registration = Some("TRUE".to_string());
    s.glass_effect = Some("true".to_string());
    s.proxy_max_speed = Some("99999999999".to_string());
    s.link_expiry_minutes = Some("99999999999".to_string());
    s.site_title = Some("Mine".to_string());
    let p = public_settings(&s);
    assert_eq!(p.glass_blur, 12);
    assert_eq!(p.glass_opacity, -7);
    assert!(!p.allow_registration);
    assert!(p.glass_effect);
    assert_eq!(p.proxy_max_speed, 99999999999);
    assert_eq!(p.link_expiry_minutes, 15);
    assert_eq!(p.site_title, "Mine");
}

#[test]
fn written_settings_read_back() {
    let mut r = empty_request();
    r.glass_blur = Some(i32::MIN);
    r.proxy_max_speed = Some(i64::MIN);
    r.preview_encrypted_audio = Some(true);
    let w = settings_updates(&r);
    let mut s = nothing_stored();
    for (k, v) in w {
        match k.as_str() {
            "glass_blur" => s.glass_blur = Some(v),
            "proxy_max_speed" => s.proxy_max_speed = Some(v),
            "preview_encrypted_audio" => s.preview_encrypted_audio = Some(v),
            _ => panic!("unexpected key"),
        }
    }
    let p = public_settings(&s);
    assert_eq!(p.glass_blur, i32::MIN);
    assert_eq!(p.proxy_max_speed, i64::MIN);
    assert!(p.preview_encrypted_audio);
}

#[test]
fn settings_admin_checks() {
    assert_eq!(check_settings_admin(None).unwrap_err().code, 401);
    assert_eq!(check_settings_admin(Some(Err(()))).unwrap_err().message, "服务器错误");
    assert_eq!(check_settings_admin(Some(Ok(None))).unwrap_err().code, 403);
    assert_eq!(check_settings_admin(Some(Ok(Some(false)))).unwrap_err().message, "需要管理员权限");
    assert!(check_settings_admin(Some(Ok(Some(true)))).is_ok());
}

#[test]
fn geoip_files_and_payloads() {
    assert_eq!(geoip_filename("city").unwrap(), "GeoLite2-City.mmdb");
    assert_eq!(geoip_filename("asn").unwrap(), "GeoLite2-ASN.mmdb");
    let e = geoip_filename("x").unwrap_err();
    assert_eq!((e.code, e.message.as_str()), (400, "无效的数据库类型"));
    assert_eq!(geoip_payload("http://h/db.mmdb", b"abc").unwrap(), b"abc".to_vec());
    let mut enc = flate2::write::GzEncoder::new(Vec::new(), flate2::Compression::default());
    enc.write_all(b"hello").unwrap();
    let gz = enc.finish().unwrap();
    assert_eq!(geoip_payload("http://h/db.mmdb.gz", &gz).unwrap(), b"hello".to_vec());
    let e = geoip_payload("http://h/db.gz", b"not gzip").unwrap_err();
    assert_eq!(e.code, 500);
    assert!(e.message.starts_with("解压失败: "));
}

#[test]
fn geoip_update_settings() {
    let req = GeoIpConfigRequest { enabled: true, url: "u".to_string(), update_interval: "daily".to_string() };
    let w = geoip_config_updates(&req);
    assert_eq!(w[0], ("geoip_auto_update".to_string(), "true".to_string()));
    assert_eq!(w[1], ("geoip_update_url".to_string(), "u".to_string()));
    assert_eq!(w[2], ("geoip_update_interval".to_string(), "daily".to_string()));
    let v = geoip_config_view(None, None, None, None);
    assert!(!v.enabled);
    assert_eq!(v.url, "https://git.io/GeoLite2-Country.mmdb");
    assert_eq!(v.update_interval, "weekly");
    assert!(v.last_update.is_none());
}

fn user(id: &str, hash: &str) -> UserBackup {
    UserBackup {
        id: id.to_string(),
        unique_id: String::new(),
        username: id.to_string(),
        password_hash: hash.to_string(),
        email: None,
        phone: None,
        root_path: None,
        is_admin: false,
        enabled: true,
        two_factor_enabled: false,
        two_factor_secret: None,
        created_at: String::new(),
        updated_at: String::new(),
    }
}

fn group(id: i64) -> UserGroupBackup {
    UserGroupBackup {
        id,
        name: "g".to_string(),
        description: None,
        is_admin: false,
        allow_direct_link: false,
        allow_share: false,
        show_hidden_files: false,
        no_password_access: false,
        add_offline_download: false,
        create_upload: false,
        rename_files: false,
        move_files: false,
        copy_files: false,
        delete_files: false,
        read_files: true,
        read_compressed: false,
        extract_files: false,
        webdav_enabled: false,
        ftp_enabled: false,
        root_path: None,
        created_at: String::new(),
        updated_at: String::new(),
    }
}

fn mount_backup() -> MountBackup {
    MountBackup {
        id: "m".to_string(),
        name: "m".to_string(),
        driver: "local".to_string(),
        mount_path: "/m".to_string(),
        config: "{}".to_string(),
        enabled: true,
        created_at: String::new(),
        updated_at: String::new(),
    }
}

#[test]
fn restore_order_skips_mounts() {
    let data = BackupData {
        version: "1.0".to_string(),
        created_at: String::new(),
        site_settings: vec![
            SiteSettingBackup { key: "a".into(), value: "1".into() },
            SiteSettingBackup { key: "b".into(), value: "2".into() },
        ],
        users: vec![user("1", "h")],
        user_groups: vec![group(1)],
        user_group_members: vec![],
        drivers: vec![DriverBackup {
            name: "d".into(),
            version: "1".into(),
            description: String::new(),
            enabled: true,
            config: None,
            created_at: String::new(),
            updated_at: String::new(),
        }],
        mounts: vec![mount_backup(), mount_backup()],
        metas: vec![MetaBackup {
            id: 1,
            path: "/".into(),
            password: None,
            hide: None,
            readme: None,
            header: None,
            created_at: String::new(),
            updated_at: String::new(),
        }],
        shares: vec![ShareBackup { id: 1, path: "/s".into(), password: None, expire_at: None, created_at: String::new() }],
    };
    let plan = restore_plan(&data);
    let kinds: Vec<(RestoreKind, usize)> = plan.iter().map(|i| (i.kind, i.index)).collect();
    assert_eq!(
        kinds,
        vec![
            (RestoreKind::Setting, 0),
            (RestoreKind::Setting, 1),
            (RestoreKind::UserGroup, 0),
            (RestoreKind::User, 0),
            (RestoreKind::Driver, 0),
            (RestoreKind::Meta, 0),
            (RestoreKind::Share, 0),
        ]
    );
}

#[test]
fn restore_keeps_admin_password() {
    assert_eq!(restored_password_hash(&user("1", "old"), "1", Some("cur")), "cur");
    assert_eq!(restored_password_hash(&user("1", "old"), "1", None), "old");
    assert_eq!(restored_password_hash(&user("2", "theirs"), "1", Some("cur")), "theirs");
}

#[test]
fn restore_summary_counts() {
    let s = restore_summary(&vec![true, false, true]);
    assert_eq!((s.success_count, s.error_count), (2, 1));
    assert_eq!(s.message, "恢复完成：成功 2 项，失败 1 项");
    let s = restore_summary(&vec![]);
    assert_eq!(s.message, "恢复完成：成功 0 项，失败 0 项");
}

#[test]
fn backup_admin_checks() {
    assert_eq!(require_admin(None).unwrap_err().message, "未登录");
    assert_eq!(require_admin(Some(Err(()))).unwrap_err().code, 500);
    assert_eq!(require_admin(Some(Ok(None))).unwrap_err().message, "会话无效");
    assert_eq!(require_admin(Some(Ok(Some(("1".to_string(), false))))).unwrap_err().code, 403);
    assert_eq!(require_admin(Some(Ok(Some(("1".to_string(), true))))).unwrap(), "1");
}

#[test]
fn configuration_paths() {
    let c = AppConfig::default();
    assert_eq!(c.get_database_url(), "sqlite:data/yaolist.db?mode=rwc");
    assert_eq!(c.get_data_dir(), "data");
    assert_eq!(c.get_search_db_dir(), "data/search");
    assert_eq!(c.get_search_db_path(), "data/search/search.db");
    assert_eq!(c.get_driver_search_db_path("d1"), "data/search/index_d1.db");
    assert_eq!(c.get_geoip_dir(), "data");
    assert_eq!(c.get_bind_address(), "0.0.0.0:8180");
    let mut c = AppConfig::default();
    c.database.data_dir = "/var/lib/y/".to_string();
    c.search.db_dir = String::new();
    c.geoip.db_dir = "geo".to_string();
    assert_eq!(c.get_database_url(), "sqlite:/var/lib/y/yaolist.db?mode=rwc");
    assert_eq!(c.get_search_db_path(), "/var/lib/y/search.db");
    assert_eq!(c.get_geoip_dir(), "/var/lib/y/geo");
    c.search.db_dir = "/abs".to_string();
    assert_eq!(c.get_search_db_dir(), "/abs");
}

fn write_all(s: &mut StoredSettings, writes: &[(String, String)]) {
    for (k, v) in writes {
        let slot = match k.as_str() {
            "site_title" => &mut s.site_title,
            "site_description" => &mut s.site_description,
            "site_icon" => &mut s.site_icon,
            "allow_registration" => &mut s.allow_registration,
            "default_user_group" => &mut s.default_user_group,
            "site_announcement" => &mut s.site_announcement,
            "robots_txt" => &mut s.robots_txt,
            "preview_encrypted_audio" => &mut s.preview_encrypted_audio,
            "background_image" => &mut s.background_image,
            "glass_effect" => &mut s.glass_effect,
            "glass_blur" => &mut s.glass_blur,
            "glass_opacity" => &mut s.glass_opacity,
            "proxy_max_speed" => &mut s.proxy_max_speed,
            "proxy_max_concurrent" => &mut s.proxy_max_concurrent,
            "download_domain" => &mut s.download_domain,
            "link_expiry_minutes" => &mut s.link_expiry_minutes,
            other => panic!("unknown setting {}", other),
        };
        *slot = Some(v.clone());
    }
}

#[test]
fn whole_update_reads_back() {
    let mut stored = nothing_stored();
    stored.site_icon = Some("/i.png".to_string());
    stored.glass_opacity = Some("55".to_string());
    let before = public_settings(&stored);
    let mut r = empty_request();
    r.site_title = Some("Mine".to_string());
    r.glass_blur = Some(3);
    r.allow_registration = Some(false);
    write_all(&mut stored, &settings_updates(&r));
    let after = public_settings(&stored);
    assert_eq!(after.site_title, "Mine");
    assert_eq!(after.glass_blur, 3);
    assert!(!after.allow_registration);
    assert_eq!(after.site_icon, before.site_icon);
    assert_eq!(after.glass_opacity, 55);
    assert_eq!(after.link_expiry_minutes, before.link_expiry_minutes);
    assert_eq!(after.download_domain, before.download_domain);
}
