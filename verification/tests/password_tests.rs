use yaolist::api::auth::password::{
    change_password_check, contact_refusal, reset_channel, reset_code, reset_key, reset_password_check,
};
use yaolist::api::notification::{captcha_given, code_verdict, CodeChannel, NotificationSettings};

fn settings(email: bool, sms: bool) -> NotificationSettings {
    NotificationSettings {
        email_enabled: email,
        email_host: String::new(),
        email_port: 465,
        email_username: String::new(),
        email_password: String::new(),
        email_from_email: String::new(),
        email_from_name: String::new(),
        email_use_tls: true,
        sms_enabled: sms,
        sms_access_key_id: String::new(),
        sms_access_key_secret: String::new(),
        sms_sign_name: String::new(),
        sms_template_code: String::new(),
    }
}

#[test]
fn reset_keys_and_codes() {
    assert_eq!(reset_key("email", "a@b.c"), "email:a@b.c");
    let c = reset_code();
    assert_eq!(c.len(), 6);
    assert!(c.chars().all(|d| d.is_ascii_digit()));
}

#[test]
fn reset_channels() {
    assert!(matches!(reset_channel("email", &settings(true, false)), Ok(CodeChannel::Email)));
    assert_eq!(reset_channel("email", &settings(false, true)).err().unwrap().message, "邮箱通知未启用");
    assert!(matches!(reset_channel("phone", &settings(false, true)), Ok(CodeChannel::Sms)));
    assert_eq!(reset_channel("phone", &settings(true, false)).err().unwrap().message, "短信通知未启用");
}

#[test]
fn new_password_checks() {
    assert!(reset_password_check("123456").is_ok());
    let e = reset_password_check("12345").err().unwrap();
    assert_eq!((e.code, e.message.as_str()), (400, "密码长度至少6位"));
    // bytes, not characters: two Chinese characters are six bytes
    assert!(reset_password_check("密码").is_ok());

    let h = bcrypt::hash("oldpass", 4).unwrap();
    assert!(change_password_check("oldpass", &h, "newpass").is_ok());
    let e = change_password_check("nope", &h, "newpass").err().unwrap();
    assert_eq!((e.code, e.message.as_str()), (400, "当前密码错误"));
    let e = change_password_check("oldpass", &h, "short").err().unwrap();
    assert_eq!((e.code, e.message.as_str()), (400, "新密码长度至少6位"));
    let e = change_password_check("oldpass", "not a hash", "newpass").err().unwrap();
    assert_eq!((e.code, e.message.as_str()), (500, "服务器错误"));
}

#[test]
fn contact_checks() {
    assert_eq!(contact_refusal(true, true, true).unwrap().message, "该邮箱已被其他账号使用");
    assert_eq!(contact_refusal(true, false, true).unwrap().message, "该邮箱已被其他账号作为手机号使用");
    assert_eq!(contact_refusal(false, true, false).unwrap().message, "该手机号已被其他账号使用");
    assert_eq!(contact_refusal(false, false, true).unwrap().message, "该手机号已被其他账号作为邮箱使用");
    assert!(contact_refusal(false, false, false).is_none());
}

#[test]
fn verification_code_checks() {
    assert!(captcha_given(Some("id"), Some("ab12")).is_ok());
    assert_eq!(captcha_given(Some(""), Some("ab12")).err().unwrap().message, "请输入图形验证码");
    assert!(captcha_given(None, Some("x")).is_err());
    assert_eq!(code_verdict(None, "123456").err().unwrap().message, "验证码不存在或已过期");
    assert_eq!(code_verdict(Some(("123456", true)), "123456").err().unwrap().message, "验证码已使用");
    assert_eq!(code_verdict(Some(("123456", false)), "654321").err().unwrap().message, "验证码错误");
    assert!(code_verdict(Some(("123456", false)), "123456").is_ok());
}
