use yaolist::api::auth::login::{captcha_refusal, credentials_refusal, login_start, password_matches, second_factor, LoginStart};
use yaolist::api::auth::register::{
    check_account_free, check_code, check_unique_errors, get_registration_config, hash_new_password, next_user_id,
    registration_group,
    registration_target,
};
use yaolist::api::auth::types::{CheckUniqueRequest, RegisterRequest};
use yaolist::api::notification::{code_channel, new_verification_code, six_digit_code, CodeChannel, NotificationSettings};

fn register(kind: &str, email: Option<&str>, phone: Option<&str>) -> RegisterRequest {
    RegisterRequest {
        username: "user".to_string(),
        password: "pw".to_string(),
        email: email.map(|s| s.to_string()),
        phone: phone.map(|s| s.to_string()),
        verification_code: "123456".to_string(),
        verification_type: kind.to_string(),
    }
}

#[test]
fn registration_targets() {
    let e = registration_target(false, &register("email", Some("a@b"), None)).unwrap_err();
    assert_eq!((e.code, e.message.as_str()), (403, "注册功能已关闭"));
    assert_eq!(registration_target(true, &register("email", Some("a@b"), None)).unwrap(), "a@b");
    assert_eq!(registration_target(true, &register("sms", None, Some("138"))).unwrap(), "138");
    let e = registration_target(true, &register("sms", Some("a@b"), None)).unwrap_err();
    assert_eq!((e.code, e.message.as_str()), (400, "请提供手机号码"));
    let e = registration_target(true, &register("email", None, None)).unwrap_err();
    assert_eq!(e.message, "请提供邮箱地址");
    let e = registration_target(true, &register("fax", None, None)).unwrap_err();
    assert_eq!(e.message, "不支持的验证方式");
}

#[test]
fn confirmation_codes() {
    assert_eq!(check_code(None, "1").unwrap_err().message, "验证码不存在或已过期");
    assert_eq!(check_code(Some(("123", true)), "123").unwrap_err().message, "验证码已使用");
    assert_eq!(check_code(Some(("123", false)), "124").unwrap_err().message, "验证码错误");
    assert!(check_code(Some(("123", false)), "123").is_ok());
}

#[test]
fn taken_names() {
    assert_eq!(check_account_free(true, true, true).unwrap_err().message, "用户名已存在");
    let e = check_account_free(false, true, true).unwrap_err();
    assert_eq!((e.code, e.message.as_str()), (409, "邮箱已被注册"));
    assert_eq!(check_account_free(false, false, true).unwrap_err().message, "手机号已被注册");
    assert!(check_account_free(false, false, false).is_ok());
}

#[test]
fn new_user_group_and_id() {
    assert_eq!(registration_group(Some("5".to_string()), Some(9)), "5");
    assert_eq!(registration_group(None, Some(7)), "7");
    assert_eq!(registration_group(None, None), "1");
    assert_eq!(next_user_id(Some(41)), "42");
    assert_eq!(next_user_id(Some(-3)), "-2");
    assert_eq!(next_user_id(None), "1");
}

fn unique(u: Option<&str>, e: Option<&str>, p: Option<&str>) -> CheckUniqueRequest {
    CheckUniqueRequest {
        username: u.map(|s| s.to_string()),
        email: e.map(|s| s.to_string()),
        phone: p.map(|s| s.to_string()),
    }
}

#[test]
fn uniqueness_problems() {
    assert_eq!(check_unique_errors(&unique(Some("ab"), None, None), false, false, false), vec!["用户名至少3个字符"]);
    assert!(check_unique_errors(&unique(Some("张三"), None, None), false, false, false).is_empty());
    assert_eq!(
        check_unique_errors(&unique(Some("abcdefghijklmnopqrstu"), None, None), false, false, false),
        vec!["用户名最多20个字符"]
    );
    assert_eq!(
        check_unique_errors(&unique(Some("alice"), Some("x"), Some("123")), true, true, true),
        vec!["用户名已被使用", "邮箱格式不正确", "手机号格式不正确"]
    );
    assert_eq!(
        check_unique_errors(&unique(None, Some("a@b"), Some("13800000000")), true, true, true),
        vec!["邮箱已被使用", "手机号已被使用"]
    );
    assert!(check_unique_errors(&unique(None, None, None), true, true, true).is_empty());
}

#[test]
fn passwords_hash_and_verify() {
    let h = hash_new_password("secret").unwrap();
    assert_ne!(h, "secret");
    assert!(password_matches("secret", &h).unwrap());
    assert!(!password_matches("wrong", &h).unwrap());
    let e = password_matches("x", "not-a-hash").unwrap_err();
    assert_eq!((e.code, e.message.as_str()), (500, "服务器错误"));
}

#[test]
fn login_checks() {
    let e = login_start(true, true, Some("id"), Some("c")).unwrap_err();
    assert_eq!((e.status, e.blocked), (429, true));
    assert_eq!(e.message, "登录失败次数过多，请30分钟后再试");
    let e = login_start(false, true, None, None).unwrap_err();
    assert_eq!((e.status, e.message.as_str(), e.need_captcha), (400, "请输入验证码", Some(true)));
    assert!(login_start(false, true, Some("id"), Some("")).is_err());
    assert_eq!(login_start(false, true, Some("id"), Some("c")).unwrap(), LoginStart::VerifyCaptcha);
    assert_eq!(login_start(false, false, None, None).unwrap(), LoginStart::Proceed);
    assert_eq!(captcha_refusal().message, "验证码错误");
    let c = credentials_refusal(true);
    assert_eq!((c.status, c.message.as_str(), c.need_captcha), (401, "账号或密码错误", Some(true)));
    assert!(second_factor(false, None, false).is_ok());
    let e = second_factor(true, Some(""), true).unwrap_err();
    assert_eq!((e.message.as_str(), e.need_2fa), ("请输入两步验证码", true));
    assert_eq!(second_factor(true, Some("123456"), false).unwrap_err().message, "两步验证码错误");
    assert!(second_factor(true, Some("123456"), true).is_ok());
}

fn notification(email: bool, sms: bool) -> NotificationSettings {
    NotificationSettings {
        email_enabled: email,
        email_host: String::new(),
        email_port: 465,
        email_username: String::new(),
        email_password: String::new(),
        email_from_email: String::new(),
        email_from_name: String::new(),
        email_use_tls: true,
        sms_enabled: sms,
        sms_access_key_id: String::new(),
        sms_access_key_secret: String::new(),
        sms_sign_name: String::new(),
        sms_template_code: String::new(),
    }
}

#[test]
fn code_channels() {
    assert_eq!(code_channel("email", &notification(false, true)).unwrap_err().message, "邮箱通知未启用");
    assert_eq!(code_channel("sms", &notification(false, true)).unwrap(), CodeChannel::Sms);
    assert_eq!(code_channel("email", &notification(true, false)).unwrap(), CodeChannel::Email);
    assert_eq!(code_channel("sms", &notification(true, false)).unwrap_err().message, "短信通知未启用");
    assert_eq!(code_channel("pigeon", &notification(true, true)).unwrap_err().message, "不支持的验证码类型");
}

#[test]
fn six_digit_codes() {
    assert_eq!(six_digit_code(42), "000042");
    assert_eq!(six_digit_code(1234567), "234567");
    assert_eq!(six_digit_code(1000000), "000000");
    assert_eq!(six_digit_code(u32::MAX), "967295");
    let c = new_verification_code();
    assert_eq!(c.len(), 6);
    assert!(c.chars().all(|ch| ch.is_ascii_digit()));
}

#[test]
fn registration_config_flags() {
    let t = Some("true".to_string());
    let f = Some("false".to_string());
    assert_eq!(get_registration_config(&t, &f, &None), (true, false, false));
    assert_eq!(get_registration_config(&None, &t, &Some("TRUE".to_string())), (false, true, false));
}
