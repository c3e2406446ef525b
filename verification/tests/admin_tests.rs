use yaolist::api::drivers::{config_schema, driver_display_name, next_driver_id, thunder_device_id,
    thunder_login_answer, DriverConfigItem};
use yaolist::api::groups::{merge_group, GroupFields, UpdateGroupRequest};
use yaolist::api::users::{update_user_plan, UpdateUserRequest, UserField};

fn group() -> GroupFields {
    GroupFields {
        name: "staff".to_string(),
        description: Some("old".to_string()),
        is_admin: false,
        allow_direct_link: false,
        allow_share: true,
        show_hidden_files: false,
        no_password_access: false,
        add_offline_download: false,
        create_upload: true,
        rename_files: true,
        move_files: false,
        copy_files: false,
        delete_files: false,
        read_files: true,
        read_compressed: false,
        extract_files: false,
        webdav_enabled: false,
        ftp_enabled: false,
        root_path: Some("/staff".to_string()),
    }
}

fn no_change() -> UpdateGroupRequest {
    UpdateGroupRequest {
        name: None,
        description: None,
        is_admin: None,
        allow_direct_link: None,
        allow_share: None,
        show_hidden_files: None,
        no_password_access: None,
        add_offline_download: None,
        create_upload: None,
        rename_files: None,
        move_files: None,
        copy_files: None,
        delete_files: None,
        read_files: None,
        read_compressed: None,
        extract_files: None,
        webdav_enabled: None,
        ftp_enabled: None,
        root_path: None,
    }
}

#[test]
fn group_change_takes_given_fields_only() {
    let mut req = no_change();
    req.name = Some("crew".to_string());
    req.delete_files = Some(true);
    req.allow_share = Some(false);
    let g = merge_group(group(), req);
    assert_eq!(g.name, "crew");
    assert_eq!(g.description.as_deref(), Some("old"));
    assert!(g.delete_files);
    assert!(!g.allow_share);
    assert!(g.create_upload);
    assert_eq!(g.root_path.as_deref(), Some("/staff"));

    let same = merge_group(group(), no_change());
    assert_eq!(same.name, "staff");
    assert!(same.read_files && same.rename_files && !same.is_admin);
}

fn user_change() -> UpdateUserRequest {
    UpdateUserRequest {
        username: None,
        email: Some("a@b.c".to_string()),
        phone: None,
        password: Some("new".to_string()),
        root_path: None,
        enabled: Some(false),
        two_factor_enabled: None,
        group_ids: Some(vec!["1".to_string()]),
    }
}

#[test]
fn user_change_plan() {
    let p = update_user_plan(&user_change(), Some("7"), "7");
    assert_eq!(p.fields, vec![UserField::Email, UserField::Password, UserField::Enabled, UserField::Groups]);
    assert!(p.logout);
    assert!(!update_user_plan(&user_change(), Some("1"), "7").logout);
    assert!(!update_user_plan(&user_change(), None, "7").logout);
    let mut no_pw = user_change();
    no_pw.password = None;
    let q = update_user_plan(&no_pw, Some("7"), "7");
    assert!(!q.logout);
    assert_eq!(q.fields, vec![UserField::Email, UserField::Enabled, UserField::Groups]);
}

#[test]
fn driver_names_and_thunder_logins() {
    assert_eq!(driver_display_name(Some("/pan"), "local"), "/pan");
    assert_eq!(driver_display_name(None, "local"), "local");
    assert_eq!(thunder_device_id("138", "pw").unwrap(), format!("{:x}", md5::compute("138pw".as_bytes())));
    assert_eq!(thunder_device_id("", "pw").err().unwrap().message, "请先填写手机号和密码");
    assert_eq!(thunder_login_answer(None), (200, "登录成功，无需验证码".to_string()));
    assert_eq!(thunder_login_answer(Some("短信验证码已发送")), (200, "短信验证码已发送".to_string()));
    assert_eq!(thunder_login_answer(Some("密码错误")), (400, "密码错误".to_string()));
}

fn item(name: &str, title: Option<&str>, options: Option<&str>, required: bool) -> DriverConfigItem {
    DriverConfigItem {
        name: name.to_string(),
        item_type: "string".to_string(),
        title: title.map(|t| t.to_string()),
        help: Some("help".to_string()),
        default: None,
        options: options.map(|o| o.to_string()),
        link: None,
        required,
    }
}

#[test]
fn driver_settings_form() {
    let items = vec![
        item("root", Some("Root folder"), None, true),
        item("mode", None, Some("a,b,,c"), false),
        item("token", None, None, true),
    ];
    let schema = config_schema(&items);
    assert_eq!(schema.properties.len(), 3);
    assert_eq!(schema.properties[0].title, "Root folder");
    assert_eq!(schema.properties[1].title, "mode");
    assert_eq!(schema.properties[1].order, 1);
    assert_eq!(schema.properties[1].description.as_deref(), Some("help"));
    assert_eq!(
        schema.properties[1].choices,
        Some(vec!["a".to_string(), "b".to_string(), "".to_string(), "c".to_string()])
    );
    assert!(schema.properties[0].choices.is_none());
    assert_eq!(schema.required, vec!["root".to_string(), "token".to_string()]);
}

#[test]
fn new_driver_ids_count_up() {
    assert_eq!(next_driver_id(None), "1");
    assert_eq!(next_driver_id(Some(41)), "42");
    assert_eq!(next_driver_id(Some(-5)), "-4");
}
