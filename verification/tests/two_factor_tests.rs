use totp_rs::{Algorithm, Secret, TOTP};
use yaolist::api::auth::login::check_second_factor;
use yaolist::api::auth::two_factor::{check_totp_code, check_totp_code_at, disable_2fa, enable_2fa, setup_2fa};

const SECRET: &str = "JBSWY3DPEHPK3PXPJBSWY3DPEHPK3PXP";

fn current_code(secret: &str) -> String {
    let t = TOTP::new(
        Algorithm::SHA1,
        6,
        1,
        30,
        Secret::Encoded(secret.to_string()).to_bytes().unwrap(),
        Some("YaoList".to_string()),
        "user".to_string(),
    )
    .unwrap();
    t.generate_current().unwrap()
}

fn wrong_code(secret: &str) -> String {
    let c = current_code(secret);
    let d = (c.as_bytes()[0] - b'0' + 5) % 10;
    format!("{}{}", d, &c[1..])
}

#[test]
fn setup_gives_a_secret_and_a_qr_code() {
    let s = setup_2fa("alice").unwrap();
    assert_eq!(Secret::Encoded(s.secret.clone()).to_bytes().unwrap().len(), 20);
    assert!(s.qr_code.starts_with("data:image/png;base64,"));
    assert!(s.qr_url.starts_with("otpauth://totp/"));
    let e = setup_2fa("a:b").err().unwrap();
    assert_eq!((e.code, e.message.as_str()), (500, "创建TOTP失败"));
}

#[test]
fn codes_are_checked_against_the_secret() {
    assert_eq!(check_totp_code(SECRET, "user", &current_code(SECRET)).unwrap(), true);
    assert_eq!(check_totp_code(SECRET, "user", "abcdef").unwrap(), false);
    let e = check_totp_code("!!!", "user", "123456").err().unwrap();
    assert_eq!((e.code, e.message.as_str()), (500, "密钥解析失败"));
    // ten bytes are too short a secret
    let e = check_totp_code("JBSWY3DPEHPK3PXP", "user", "123456").err().unwrap();
    assert_eq!((e.code, e.message.as_str()), (500, "创建TOTP失败"));
}

#[test]
fn turning_two_step_verification_on_and_off() {
    let e = enable_2fa(None, "123456").err().unwrap();
    assert_eq!((e.code, e.message.as_str()), (400, "请先设置2FA"));
    assert!(enable_2fa(Some(SECRET), &current_code(SECRET)).is_ok());
    let e = enable_2fa(Some(SECRET), &wrong_code(SECRET)).err().unwrap();
    assert_eq!((e.code, e.message.as_str()), (400, "验证码错误"));
    let e = disable_2fa(false, Some(SECRET), "1").err().unwrap();
    assert_eq!((e.code, e.message.as_str()), (400, "2FA未启用"));
    let e = disable_2fa(true, None, "1").err().unwrap();
    assert_eq!((e.code, e.message.as_str()), (400, "2FA配置错误"));
    assert!(disable_2fa(true, Some(SECRET), &current_code(SECRET)).is_ok());
}

#[test]
fn second_factor_of_a_login() {
    assert!(check_second_factor(false, None, "bob", None).is_ok());
    let e = check_second_factor(true, Some(SECRET), "bob", Some("")).err().unwrap();
    assert_eq!((e.status, e.message.as_str(), e.need_2fa), (400, "请输入两步验证码", true));
    let e = check_second_factor(true, None, "bob", Some("123456")).err().unwrap();
    assert_eq!((e.status, e.message.as_str()), (500, "2FA配置错误"));
    assert!(check_second_factor(true, Some(SECRET), "bob", Some(&current_code(SECRET))).is_ok());
    let e = check_second_factor(true, Some(SECRET), "bob", Some(&wrong_code(SECRET))).err().unwrap();
    assert_eq!((e.status, e.message.as_str(), e.need_2fa), (400, "两步验证码错误", true));
}

#[test]
fn setup_url_and_qr_belong_to_the_secret() {
    let s = setup_2fa("al ice").unwrap();
    assert_eq!(
        s.qr_url,
        format!("otpauth://totp/YaoList:al%20ice?secret={}&issuer=YaoList", s.secret)
    );
    let t = totp_rs::TOTP::new(
        totp_rs::Algorithm::SHA1,
        6,
        1,
        30,
        Secret::Encoded(s.secret.clone()).to_bytes().unwrap(),
        Some("YaoList".to_string()),
        "al ice".to_string(),
    )
    .unwrap();
    assert_eq!(s.qr_code, format!("data:image/png;base64,{}", t.get_qr_base64().unwrap()));
}

#[test]
fn codes_are_checked_at_a_given_time() {
    let t = TOTP::new(
        Algorithm::SHA1,
        6,
        1,
        30,
        Secret::Encoded(SECRET.to_string()).to_bytes().unwrap(),
        Some("YaoList".to_string()),
        "user".to_string(),
    )
    .unwrap();
    let at = 1_700_000_000u64;
    let code = t.generate(at);
    assert_eq!(check_totp_code_at(SECRET, "user", &code, at).unwrap(), true);
    assert_eq!(check_totp_code_at(SECRET, "user", &code, at + 30).unwrap(), true);
    assert_eq!(check_totp_code_at(SECRET, "user", &code, at + 300).unwrap(), false);
    assert_eq!(check_totp_code_at(SECRET, "user", "000000x", at).unwrap(), false);
    let e = check_totp_code_at("not base32!", "user", &code, at).unwrap_err();
    assert_eq!((e.code, e.message.as_str()), (500, "密钥解析失败"));
}
