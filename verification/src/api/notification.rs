//! Notifications: the e-mail and SMS settings, the channel a verification
//! code goes through, and the code itself.

use vstd::prelude::*;
use crate::api::{Refusal, refuse};
use crate::num::{decimal, u64_to_decimal, all_digits, is_digit, lemma_decimal_reads_back};
use crate::text::{lex_lt, lemma_lex_lt_transitive, chars_of, string_of, str_eq, replaced, replace_text, concat_chars, copy_str};
use crate::api::files::download::{percent_encoded, percent_encode};
use crate::digest::{hmac_sha1, hmac_sha1_tag, base64_text, base64_encode};
use crate::clock::{current_time, format_utc, utc_formatted};

verus! {

/// The e-mail (SMTP) and SMS settings.
#[derive(Debug, Clone)]
pub struct NotificationSettings {
    pub email_enabled: bool,
    pub email_host: String,
    pub email_port: i32,
    pub email_username: String,
    pub email_password: String,
    pub email_from_email: String,
    pub email_from_name: String,
    pub email_use_tls: bool,
    pub sms_enabled: bool,
    pub sms_access_key_id: String,
    pub sms_access_key_secret: String,
    pub sms_sign_name: String,
    pub sms_template_code: String,
}

/// A request to send a test message.
#[derive(Debug)]
pub struct TestRequest {
    pub target: String,
}

/// A request to send a verification code, guarded by a captcha.
#[derive(Debug)]
pub struct SendCodeRequest {
    pub target: String,
    pub send_type: String,
    pub captcha_id: Option<String>,
    pub captcha_code: Option<String>,
}

/// A request to check a verification code.
#[derive(Debug)]
pub struct VerifyCodeRequest {
    pub target: String,
    pub code_type: String,
    pub code: String,
}

/// How a verification code is sent.
#[derive(Debug, Clone, Copy, PartialEq, Eq, Structural)]
pub enum CodeChannel {
    Email,
    Sms,
}

/// The channel of a code request, or why it is refused (400): the channel
/// must be `email` or `sms`, and enabled.
pub open spec fn code_channel_of(send_type: Seq<char>, email_enabled: bool, sms_enabled: bool) -> Result<CodeChannel, Seq<char>> {
    if send_type == "email"@ {
        if email_enabled { Ok(CodeChannel::Email) } else { Err("邮箱通知未启用"@) }
    } else if send_type == "sms"@ {
        if sms_enabled { Ok(CodeChannel::Sms) } else { Err("短信通知未启用"@) }
    } else {
        Err("不支持的验证码类型"@)
    }
}

/// Picks the channel of a verification code.
pub fn code_channel(send_type: &str, settings: &NotificationSettings) -> (r: Result<CodeChannel, Refusal>)
    ensures
        match code_channel_of(send_type@, settings.email_enabled, settings.sms_enabled) {
            Ok(c) => r == Ok::<CodeChannel, Refusal>(c),
            Err(m) => r matches Err(e) && e.code == 400 && e.message@ == m,
        },
{
    if str_eq(send_type, "email") {
        if settings.email_enabled {
            Ok(CodeChannel::Email)
        } else {
            Err(refuse(400, "邮箱通知未启用"))
        }
    } else if str_eq(send_type, "sms") {
        if settings.sms_enabled {
            Ok(CodeChannel::Sms)
        } else {
            Err(refuse(400, "短信通知未启用"))
        }
    } else {
        Err(refuse(400, "不支持的验证码类型"))
    }
}

/// `n` in decimal, padded with zeros on the left to `width` digits.
pub open spec fn zero_padded(n: nat, width: nat) -> Seq<char> {
    let d = decimal(n);
    if d.len() >= width { d } else { Seq::new((width - d.len()) as nat, |i: int| '0') + d }
}

/// The six-digit code of a number: its last six decimal digits, zeros
/// first where it is shorter.
pub fn six_digit_code(n: u32) -> (r: String)
    ensures
        r@ == zero_padded((n % 1000000) as nat, 6),
{
    let m = n % 1000000;
    let d = u64_to_decimal(m as u64);
    let mut out: Vec<char> = Vec::new();
    let mut k: usize = d.len();
    while k < 6
        invariant
            d.len() <= k <= 6 || (d.len() > 6 && k == d.len()),
            out@ == Seq::new((k - d.len()) as nat, |i: int| '0'),
        decreases 6 - k,
    {
        out.push('0');
        assert(out@ =~= Seq::new((k + 1 - d.len()) as nat, |i: int| '0'));
        k = k + 1;
    }
    let mut i: usize = 0;
    let ghost pad = out@;
    while i < d.len()
        invariant
            i <= d.len(),
            out@ == pad + d@.take(i as int),
        decreases d.len() - i,
    {
        out.push(d[i]);
        assert(pad + d@.take(i + 1) =~= (pad + d@.take(i as int)).push(d@[i as int]));
        i = i + 1;
    }
    assert(d@.take(d.len() as int) =~= d@);
    proof {
        if d@.len() >= 6 {
            assert(pad =~= Seq::<char>::empty());
            assert(pad + d@ =~= d@);
        }
    }
    string_of(&out)
}

/// `rand::random::<u32>()`. Nothing is claimed of the number: it is
/// chance.
#[verifier::external_body]
fn random_u32() -> (r: u32) {
    rand::random::<u32>()
}

/// A fresh verification code sent by e-mail: six random digits.
pub fn new_verification_code() -> (r: String)
    ensures
        exists|n: u32| r@ == #[trigger] zero_padded((n % 1000000) as nat, 6),
{
    let n = random_u32();
    six_digit_code(n)
}

pub open spec fn pow10(k: nat) -> nat
    decreases k,
{
    if k == 0 { 1 } else { 10 * pow10((k - 1) as nat) }
}

proof fn lemma_decimal_len_bound(n: nat, k: nat)
    requires
        k >= 1,
        n < pow10(k),
    ensures
        decimal(n).len() <= k,
    decreases k,
{
    if n >= 10 {
        assert(k >= 2) by {
            if k == 1 {
                assert(pow10(1) == 10 * pow10(0));
            }
        }
        assert(pow10(k) == 10 * pow10((k - 1) as nat));
        assert(n / 10 < pow10((k - 1) as nat));
        lemma_decimal_len_bound(n / 10, (k - 1) as nat);
    }
}

/// Law: a verification code is always six decimal digits.
pub proof fn lemma_code_is_six_digits(n: u32)
    ensures
        zero_padded((n % 1000000) as nat, 6).len() == 6,
        all_digits(zero_padded((n % 1000000) as nat, 6)),
{
    let m = (n % 1000000) as nat;
    assert(pow10(6) == 1000000) by {
        assert(pow10(0) == 1);
        assert(pow10(1) == 10);
        assert(pow10(2) == 100);
        assert(pow10(3) == 1000);
        assert(pow10(4) == 10000);
        assert(pow10(5) == 100000);
    }
    lemma_decimal_len_bound(m, 6);
    lemma_decimal_reads_back(m);
    let d = decimal(m);
    let z = zero_padded(m, 6);
    let pad = Seq::new((6 - d.len()) as nat, |i: int| '0');
    if d.len() < 6 {
        assert(z == pad + d);
        assert forall|i: int| 0 <= i < z.len() implies is_digit(#[trigger] z[i]) by {
            if i < pad.len() {
                assert(z[i] == '0');
            } else {
                assert(z[i] == d[i - pad.len()]);
            }
        }
    }
}

/// The escaping of Alibaba Cloud request signing: percent-encoding, then
/// `+` written `%20`, `*` written `%2A` and `%7E` written `~`.
pub open spec fn aliyun_escaped(s: Seq<char>) -> Seq<char> {
    replaced(replaced(replaced(percent_encoded(vstd::utf8::encode_utf8(s)), "+"@, "%20"@), "*"@, "%2A"@), "%7E"@, "~"@)
}

/// Escapes a text for Alibaba Cloud request signing.
pub fn url_encode(s: &str) -> (r: String)
    ensures
        r@ == aliyun_escaped(s@),
{
    proof {
        reveal_strlit("+");
        reveal_strlit("*");
        reveal_strlit("%7E");
    }
    let e = chars_of(percent_encode(s).as_str());
    let a = replace_text(&e, &chars_of("+"), &chars_of("%20"));
    let b = replace_text(&a, &chars_of("*"), &chars_of("%2A"));
    let c = replace_text(&b, &chars_of("%7E"), &chars_of("~"));
    string_of(&c)
}

/// The parameters of a verification-code SMS request, in ascending order
/// of their names.
pub open spec fn sms_params(key_id: Seq<char>, phone: Seq<char>, sign_name: Seq<char>, nonce: Seq<char>,
    template_code: Seq<char>, timestamp: Seq<char>) -> Seq<(Seq<char>, Seq<char>)> {
    seq![
        ("AccessKeyId"@, key_id),
        ("Action"@, "SendSmsVerifyCode"@),
        ("CodeLength"@, "6"@),
        ("CodeType"@, "1"@),
        ("Format"@, "JSON"@),
        ("PhoneNumber"@, phone),
        ("ReturnVerifyCode"@, "true"@),
        ("SignName"@, sign_name),
        ("SignatureMethod"@, "HMAC-SHA1"@),
        ("SignatureNonce"@, nonce),
        ("SignatureVersion"@, "1.0"@),
        ("TemplateCode"@, template_code),
        ("TemplateParam"@, "{\"code\":\"##code##\",\"min\":\"10\"}"@),
        ("Timestamp"@, timestamp),
        ("ValidTime"@, "600"@),
        ("Version"@, "2017-05-25"@),
    ]
}

/// The parameters of an SMS request come in strictly ascending order of
/// their names, the order in which a signed query must list them.
pub proof fn lemma_sms_params_ascending(key_id: Seq<char>, phone: Seq<char>, sign_name: Seq<char>, nonce: Seq<char>,
    template_code: Seq<char>, timestamp: Seq<char>)
    ensures
        forall|i: int, j: int| 0 <= i < j < 16 ==> lex_lt(
            #[trigger] sms_params(key_id, phone, sign_name, nonce, template_code, timestamp)[i].0,
            #[trigger] sms_params(key_id, phone, sign_name, nonce, template_code, timestamp)[j].0),
{
    let p = sms_params(key_id, phone, sign_name, nonce, template_code, timestamp);
    reveal_strlit("AccessKeyId");
    reveal_strlit("Action");
    reveal_strlit("CodeLength");
    reveal_strlit("CodeType");
    reveal_strlit("Format");
    reveal_strlit("PhoneNumber");
    reveal_strlit("ReturnVerifyCode");
    reveal_strlit("SignName");
    reveal_strlit("SignatureMethod");
    reveal_strlit("SignatureNonce");
    reveal_strlit("SignatureVersion");
    reveal_strlit("TemplateCode");
    reveal_strlit("TemplateParam");
    reveal_strlit("Timestamp");
    reveal_strlit("ValidTime");
    reveal_strlit("Version");
    reveal_with_fuel(lex_lt, 11);
    assert forall|k: int| 0 <= k < 15 implies lex_lt(#[trigger] p[k].0, p[k + 1].0) by {
        if k == 0 { assert(lex_lt(p[0].0, p[1].0)); }
        else if k == 1 { assert(lex_lt(p[1].0, p[2].0)); }
        else if k == 2 { assert(lex_lt(p[2].0, p[3].0)); }
        else if k == 3 { assert(lex_lt(p[3].0, p[4].0)); }
        else if k == 4 { assert(lex_lt(p[4].0, p[5].0)); }
        else if k == 5 { assert(lex_lt(p[5].0, p[6].0)); }
        else if k == 6 { assert(lex_lt(p[6].0, p[7].0)); }
        else if k == 7 { assert(lex_lt(p[7].0, p[8].0)); }
        else if k == 8 { assert(lex_lt(p[8].0, p[9].0)); }
        else if k == 9 { assert(lex_lt(p[9].0, p[10].0)); }
        else if k == 10 { assert(lex_lt(p[10].0, p[11].0)); }
        else if k == 11 { assert(lex_lt(p[11].0, p[12].0)); }
        else if k == 12 { assert(lex_lt(p[12].0, p[13].0)); }
        else if k == 13 { assert(lex_lt(p[13].0, p[14].0)); }
        else { assert(lex_lt(p[14].0, p[15].0)); }
    }
    assert forall|i: int, j: int| 0 <= i < j < 16 implies lex_lt(#[trigger] p[i].0, #[trigger] p[j].0) by {
        lemma_ascending_chain(p, i, j);
    }
}

proof fn lemma_ascending_chain(p: Seq<(Seq<char>, Seq<char>)>, i: int, j: int)
    requires
        0 <= i < j < p.len(),
        forall|k: int| 0 <= k < p.len() - 1 ==> lex_lt(#[trigger] p[k].0, p[k + 1].0),
    ensures
        lex_lt(p[i].0, p[j].0),
    decreases j - i,
{
    if j > i + 1 {
        lemma_ascending_chain(p, i, j - 1);
        assert(lex_lt(p[j - 1].0, p[j].0));
        lemma_lex_lt_transitive(p[i].0, p[j - 1].0, p[j].0);
    }
}

/// One parameter of a query: the escaped name, `=`, the escaped value.
pub open spec fn query_pair(p: (Seq<char>, Seq<char>)) -> Seq<char> {
    aliyun_escaped(p.0) + seq!['='] + aliyun_escaped(p.1)
}

/// The query of a request: its parameters, in order, joined by `&`.
pub open spec fn query_of(params: Seq<(Seq<char>, Seq<char>)>) -> Seq<char>
    decreases params.len(),
{
    if params.len() == 0 {
        Seq::empty()
    } else if params.len() == 1 {
        query_pair(params[0])
    } else {
        query_of(params.drop_last()) + seq!['&'] + query_pair(params.last())
    }
}

/// What is signed of a GET request: `GET&`, the escaped `/`, `&`, the
/// escaped query.
pub open spec fn string_to_sign(query: Seq<char>) -> Seq<char> {
    "GET&"@ + aliyun_escaped("/"@) + seq!['&'] + aliyun_escaped(query)
}

/// The signature of a request: the Base64 of the SHA-1 HMAC of the signed
/// text under the access secret followed by `&`.
pub open spec fn request_signature(secret: Seq<char>, query: Seq<char>) -> Seq<char> {
    base64_text(hmac_sha1(vstd::utf8::encode_utf8(secret + seq!['&']), vstd::utf8::encode_utf8(string_to_sign(query))))
}

/// The signed URL of a verification-code SMS request.
pub open spec fn sms_url_of(settings: NotificationSettings, phone: Seq<char>, nonce: Seq<char>, timestamp: Seq<char>) -> Seq<char> {
    let q = query_of(sms_params(settings.sms_access_key_id@, phone, settings.sms_sign_name@, nonce,
        settings.sms_template_code@, timestamp));
    "https://dypnsapi.aliyuncs.com/?"@ + q + "&Signature="@ + aliyun_escaped(request_signature(settings.sms_access_key_secret@, q))
}

fn literal(s: &str) -> (r: String)
    ensures
        r@ == s@,
{
    copy_str(s)
}

/// The parameters of a verification-code SMS request.
fn sms_param_list(settings: &NotificationSettings, phone: &str, nonce: &str, timestamp: &str) -> (r: Vec<(String, String)>)
    ensures
        r@.map_values(|p: (String, String)| (p.0@, p.1@)) == sms_params(settings.sms_access_key_id@, phone@,
            settings.sms_sign_name@, nonce@, settings.sms_template_code@, timestamp@),
{
    let mut v: Vec<(String, String)> = Vec::new();
    v.push((literal("AccessKeyId"), copy_str(settings.sms_access_key_id.as_str())));
    v.push((literal("Action"), literal("SendSmsVerifyCode")));
    v.push((literal("CodeLength"), literal("6")));
    v.push((literal("CodeType"), literal("1")));
    v.push((literal("Format"), literal("JSON")));
    v.push((literal("PhoneNumber"), copy_str(phone)));
    v.push((literal("ReturnVerifyCode"), literal("true")));
    v.push((literal("SignName"), copy_str(settings.sms_sign_name.as_str())));
    v.push((literal("SignatureMethod"), literal("HMAC-SHA1")));
    v.push((literal("SignatureNonce"), copy_str(nonce)));
    v.push((literal("SignatureVersion"), literal("1.0")));
    v.push((literal("TemplateCode"), copy_str(settings.sms_template_code.as_str())));
    v.push((literal("TemplateParam"), literal("{\"code\":\"##code##\",\"min\":\"10\"}")));
    v.push((literal("Timestamp"), copy_str(timestamp)));
    v.push((literal("ValidTime"), literal("600")));
    v.push((literal("Version"), literal("2017-05-25")));
    assert(v@.map_values(|p: (String, String)| (p.0@, p.1@)) =~= sms_params(settings.sms_access_key_id@, phone@,
        settings.sms_sign_name@, nonce@, settings.sms_template_code@, timestamp@));
    v
}

/// Joins escaped parameters into a query.
fn build_query(params: &Vec<(String, String)>) -> (r: Vec<char>)
    ensures
        r@ == query_of(params@.map_values(|p: (String, String)| (p.0@, p.1@))),
{
    let ghost view = params@.map_values(|p: (String, String)| (p.0@, p.1@));
    let mut out: Vec<char> = Vec::new();
    let mut i: usize = 0;
    assert(view.take(0) =~= Seq::<(Seq<char>, Seq<char>)>::empty());
    while i < params.len()
        invariant
            i <= params.len(),
            view == params@.map_values(|p: (String, String)| (p.0@, p.1@)),
            out@ == query_of(view.take(i as int)),
        decreases params.len() - i,
    {
        let k = url_encode(params[i].0.as_str());
        let v = url_encode(params[i].1.as_str());
        let mut pair = chars_of(k.as_str());
        pair.push('=');
        let pair = concat_chars(&pair, &chars_of(v.as_str()));
        assert(pair@ =~= query_pair(view[i as int]));
        assert(view.take(i + 1).drop_last() =~= view.take(i as int));
        if i == 0 {
            out = pair;
        } else {
            out.push('&');
            out = concat_chars(&out, &pair);
        }
        i = i + 1;
    }
    assert(view.take(params.len() as int) =~= view);
    out
}

/// Signs a verification-code SMS request to `phone` and gives its URL.
pub fn sms_request_url(settings: &NotificationSettings, phone: &str, nonce: &str, timestamp: &str) -> (r: String)
    ensures
        r@ == sms_url_of(*settings, phone@, nonce@, timestamp@),
{
    let params = sms_param_list(settings, phone, nonce, timestamp);
    let query = build_query(&params);
    let qs = string_of(&query);
    let mut sts = chars_of("GET&");
    sts = concat_chars(&sts, &chars_of(url_encode("/").as_str()));
    sts.push('&');
    sts = concat_chars(&sts, &chars_of(url_encode(qs.as_str()).as_str()));
    assert(sts@ =~= string_to_sign(query@));
    let mut key = chars_of(settings.sms_access_key_secret.as_str());
    key.push('&');
    let key_s = string_of(&key);
    let sts_s = string_of(&sts);
    let kb = key_s.as_str().as_bytes();
    let sb = sts_s.as_str().as_bytes();
    assert(key_s@ == settings.sms_access_key_secret@ + seq!['&']);
    assert(kb@ == vstd::utf8::encode_utf8(key_s@));
    assert(sb@ == vstd::utf8::encode_utf8(sts_s@));
    let tag = match hmac_sha1_tag(kb, sb) {
        Some(t) => t,
        None => Vec::new(),
    };
    let signature = base64_encode(tag.as_slice());
    assert(signature@ == request_signature(settings.sms_access_key_secret@, query@));
    let mut url = chars_of("https://dypnsapi.aliyuncs.com/?");
    url = concat_chars(&url, &query);
    url = concat_chars(&url, &chars_of("&Signature="));
    url = concat_chars(&url, &chars_of(url_encode(signature.as_str()).as_str()));
    string_of(&url)
}

/// `uuid::Uuid::new_v4().to_string()`. Of the random id only its length is
/// claimed: the hyphenated form `uuid` writes has 36 characters.
#[verifier::external_body]
fn new_uuid() -> (r: String)
    ensures
        r@.len() == 36,
{
    uuid::Uuid::new_v4().to_string()
}

/// The URL of a verification-code SMS to `phone`, signed now with a fresh
/// nonce. It is always given: the present is an instant `chrono` writes.
pub fn sms_request_now(settings: &NotificationSettings, phone: &str) -> (r: Option<String>)
    ensures
        r is Some,
        r matches Some(u) ==> exists|nonce: Seq<char>, secs: i64, nanos: u32, ts: Seq<char>|
            #![trigger utc_formatted(secs, nanos, "%Y-%m-%dT%H:%M:%SZ"@), sms_url_of(*settings, phone@, nonce, ts)]
            nonce.len() == 36 && utc_formatted(secs, nanos, "%Y-%m-%dT%H:%M:%SZ"@) == Some(ts)
            && sms_url_of(*settings, phone@, nonce, ts) == u@,
{
    let (secs, nanos) = current_time();
    let ts = match format_utc(secs, nanos, "%Y-%m-%dT%H:%M:%SZ") {
        Some(t) => t,
        None => {
            return None;
        },
    };
    let nonce = new_uuid();
    let url = sms_request_url(settings, phone, nonce.as_str(), ts.as_str());
    assert(sms_url_of(*settings, phone@, nonce@, ts@) == url@);
    assert(utc_formatted(secs, nanos, "%Y-%m-%dT%H:%M:%SZ"@) == Some(ts@));
    Some(url)
}

/// The outcome of an SMS request from the reply's `Code`, `Model.VerifyCode`
/// and `Message`: with code `OK`, the code sent (empty when absent); else
/// the failure and its message (`未知错误` when absent).
pub fn sms_reply(code: Option<&str>, verify_code: Option<&str>, message: Option<&str>) -> (r: Result<String, String>)
    ensures
        (code matches Some(c) && c@ == "OK"@) ==> (r matches Ok(v) && v@ == (match verify_code {
            Some(x) => x@,
            None => Seq::empty(),
        })),
        !(code matches Some(c) && c@ == "OK"@) ==> (r matches Err(e) && e@ == "短信发送失败: "@ + (match message {
            Some(m) => m@,
            None => "未知错误"@,
        })),
{
    let ok = match code {
        Some(c) => str_eq(c, "OK"),
        None => false,
    };
    if ok {
        match verify_code {
            Some(v) => Ok(copy_str(v)),
            None => Ok(String::new()),
        }
    } else {
        let m = match message {
            Some(m) => copy_str(m),
            None => copy_str("未知错误"),
        };
        Err(string_of(&concat_chars(&chars_of("短信发送失败: "), &chars_of(m.as_str()))))
    }
}

/// Whether a code request carries a captcha to check: an id and an answer,
/// neither empty (else it is refused, 400).
pub fn captcha_given(captcha_id: Option<&str>, captcha_code: Option<&str>) -> (r: Result<(), Refusal>)
    ensures
        r is Ok <==> ((captcha_id matches Some(i) && i@.len() > 0) && (captcha_code matches Some(c) && c@.len() > 0)),
        r matches Err(e) ==> e.code == 400 && e.message@ == "请输入图形验证码"@,
{
    let ok = match (captcha_id, captcha_code) {
        (Some(i), Some(c)) => chars_of(i).len() > 0 && chars_of(c).len() > 0,
        _ => false,
    };
    if ok { Ok(()) } else { Err(refuse(400, "请输入图形验证码")) }
}

/// The check of a verification code against the latest unexpired code
/// sent to the target (its text and whether it was used): none, used, or
/// different is refused (400); else it is accepted, to be marked used.
pub fn code_verdict(latest: Option<(&str, bool)>, given: &str) -> (r: Result<(), Refusal>)
    ensures
        latest is None ==> (r matches Err(e) && e.code == 400 && e.message@ == "验证码不存在或已过期"@),
        latest matches Some((c, used)) ==> if used {
            r matches Err(e) && e.code == 400 && e.message@ == "验证码已使用"@
        } else if c@ != given@ {
            r matches Err(e) && e.code == 400 && e.message@ == "验证码错误"@
        } else {
            r is Ok
        },
{
    match latest {
        None => Err(refuse(400, "验证码不存在或已过期")),
        Some((c, used)) => {
            if used {
                Err(refuse(400, "验证码已使用"))
            } else if !str_eq(c, given) {
                Err(refuse(400, "验证码错误"))
            } else {
                Ok(())
            }
        },
    }
}

} // verus!
