use hmac::{Hmac, Mac};
use sha1::Sha1;
use std::collections::BTreeMap;
use yaolist::api::notification::{sms_reply, sms_request_now, sms_request_url, url_encode, NotificationSettings};

fn settings() -> NotificationSettings {
    NotificationSettings {
        email_enabled: false,
        email_host: String::new(),
        email_port: 465,
        email_username: String::new(),
        email_password: String::new(),
        email_from_email: String::new(),
        email_from_name: String::new(),
        email_use_tls: true,
        sms_enabled: true,
        sms_access_key_id: "testid".to_string(),
        sms_access_key_secret: "testsecret".to_string(),
        sms_sign_name: "阿里云".to_string(),
        sms_template_code: "SMS_1".to_string(),
    }
}

fn reference_escape(s: &str) -> String {
    urlencoding::encode(s).replace('+', "%20").replace('*', "%2A").replace("%7E", "~")
}

// The signing steps of a verification-code request, written out with the
// crates' own calls, to hold the library's result against.
fn reference_url(s: &NotificationSettings, phone: &str, nonce: &str, timestamp: &str) -> String {
    let template_param_json = r###"{"code":"##code##","min":"10"}"###;
    let mut params = BTreeMap::new();
    params.insert("AccessKeyId", s.sms_access_key_id.as_str());
    params.insert("Action", "SendSmsVerifyCode");
    params.insert("Format", "JSON");
    params.insert("PhoneNumber", phone);
    params.insert("SignName", s.sms_sign_name.as_str());
    params.insert("SignatureMethod", "HMAC-SHA1");
    params.insert("SignatureNonce", nonce);
    params.insert("SignatureVersion", "1.0");
    params.insert("TemplateCode", s.sms_template_code.as_str());
    params.insert("TemplateParam", template_param_json);
    params.insert("Timestamp", timestamp);
    params.insert("Version", "2017-05-25");
    params.insert("CodeLength", "6");
    params.insert("ValidTime", "600");
    params.insert("CodeType", "1");
    params.insert("ReturnVerifyCode", "true");
    let query: String = params
        .iter()
        .map(|(k, v)| format!("{}={}", reference_escape(k), reference_escape(v)))
        .collect::<Vec<_>>()
        .join("&");
    let to_sign = format!("GET&{}&{}", reference_escape("/"), reference_escape(&query));
    let key = format!("{}&", s.sms_access_key_secret);
    let mut mac = Hmac::<Sha1>::new_from_slice(key.as_bytes()).unwrap();
    mac.update(to_sign.as_bytes());
    let sig = base64::Engine::encode(&base64::engine::general_purpose::STANDARD, mac.finalize().into_bytes());
    format!("https://dypnsapi.aliyuncs.com/?{}&Signature={}", query, reference_escape(&sig))
}

#[test]
fn aliyun_escaping() {
    assert_eq!(url_encode("a b*c~d+e/"), "a%20b%2Ac~d%2Be%2F");
    assert_eq!(url_encode("中"), "%E4%B8%AD");
    assert_eq!(url_encode("A-Z_a.z~0"), "A-Z_a.z~0");
}

#[test]
fn sms_request_is_signed_as_the_service_expects() {
    let s = settings();
    let nonce = "3f2504e0-4f89-41d3-9a0c-0305e82c3301";
    let ts = "2024-01-02T03:04:05Z";
    let url = sms_request_url(&s, "13800138000", nonce, ts);
    assert_eq!(url, reference_url(&s, "13800138000", nonce, ts));
    assert!(url.starts_with("https://dypnsapi.aliyuncs.com/?AccessKeyId=testid&Action=SendSmsVerifyCode&CodeLength=6"));
    assert!(url.contains("&Signature="));
}

#[test]
fn sms_replies() {
    assert_eq!(sms_reply(Some("OK"), Some("123456"), None), Ok("123456".to_string()));
    assert_eq!(sms_reply(Some("OK"), None, Some("x")), Ok(String::new()));
    assert_eq!(sms_reply(Some("isv.BUSINESS_LIMIT_CONTROL"), None, Some("limit")), Err("短信发送失败: limit".to_string()));
    assert_eq!(sms_reply(None, None, None), Err("短信发送失败: 未知错误".to_string()));
}

#[test]
fn sms_request_signed_now_is_always_given() {
    let url = sms_request_now(&settings(), "13800000000").expect("the present is a writable instant");
    assert!(url.starts_with("https://dypnsapi.aliyuncs.com/?"));
    assert!(url.contains("PhoneNumber=13800000000"));
    assert!(url.contains("&Signature="));
}
