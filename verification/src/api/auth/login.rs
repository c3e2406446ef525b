//! Login: the checks of blocked addresses and captchas, the password check,
//! and the second factor.

use vstd::prelude::*;
use crate::api::auth::two_factor::{check_totp_code, totp_setup_refusal, verdict_at_some_time, base32_secret};
use crate::api::{Refusal, refuse};
use crate::text::chars_of;

verus! {

/// What `bcrypt::verify` answers for a password and a stored hash: whether
/// they match, or `None` when the hash cannot be read.
pub uninterp spec fn bcrypt_verdict(password: Seq<char>, hash: Seq<char>) -> Option<bool>;

/// `bcrypt::verify`. Claimed: the result is the named function of the
/// password and the hash.
#[verifier::external_body]
fn bcrypt_verify(password: &str, hash: &str) -> (r: Option<bool>)
    ensures
        r == bcrypt_verdict(password@, hash@),
{
    match bcrypt::verify(password, hash) {
        Ok(b) => Some(b),
        Err(_) => None,
    }
}

/// Whether the password matches the stored hash; an unreadable hash
/// answers 500.
pub fn password_matches(password: &str, hash: &str) -> (r: Result<bool, Refusal>)
    ensures
        match bcrypt_verdict(password@, hash@) {
            Some(b) => r matches Ok(x) && x == b,
            None => r matches Err(e) && e.code == 500 && e.message@ == "服务器错误"@,
        },
{
    match bcrypt_verify(password, hash) {
        Some(b) => Ok(b),
        None => Err(refuse(500, "服务器错误")),
    }
}

/// A refused login: the status, the message, and what the client is to
/// ask for next.
#[derive(Debug)]
pub struct LoginRefusal {
    pub status: u16,
    pub message: String,
    pub blocked: bool,
    pub need_captcha: Option<bool>,
    pub need_2fa: bool,
}

/// What happens before the account is looked up.
#[derive(Debug, Clone, Copy, PartialEq, Eq, Structural)]
pub enum LoginStart {
    /// Go on.
    Proceed,
    /// Check the captcha given, then go on.
    VerifyCaptcha,
}

fn login_refusal(status: u16, message: &str, blocked: bool, need_captcha: Option<bool>, need_2fa: bool) -> (r: LoginRefusal)
    ensures
        r.status == status,
        r.message@ == message@,
        r.blocked == blocked,
        r.need_captcha == need_captcha,
        r.need_2fa == need_2fa,
{
    LoginRefusal { status, message: String::from_str(message), blocked, need_captcha, need_2fa }
}

pub open spec fn filled(s: Option<&str>) -> bool {
    s matches Some(t) && t@.len() > 0
}

/// The first checks of a login: a blocked address is refused (429); where a
/// captcha is required, one must be given (else 400) and then checked.
pub fn login_start(blocked: bool, needs_captcha: bool, captcha_id: Option<&str>, captcha_code: Option<&str>) -> (r: Result<LoginStart, LoginRefusal>)
    ensures
        blocked ==> (r matches Err(e) && e.status == 429 && e.message@ == "登录失败次数过多，请30分钟后再试"@
            && e.blocked),
        !blocked && needs_captcha && !(filled(captcha_id) && filled(captcha_code)) ==> (r matches Err(e)
            && e.status == 400 && e.message@ == "请输入验证码"@ && e.need_captcha == Some(true)),
        !blocked && needs_captcha && filled(captcha_id) && filled(captcha_code) ==> r == Ok::<LoginStart, LoginRefusal>(LoginStart::VerifyCaptcha),
        !blocked && !needs_captcha ==> r == Ok::<LoginStart, LoginRefusal>(LoginStart::Proceed),
{
    if blocked {
        return Err(login_refusal(429, "登录失败次数过多，请30分钟后再试", true, None, false));
    }
    if !needs_captcha {
        return Ok(LoginStart::Proceed);
    }
    let id_ok = match captcha_id {
        Some(t) => chars_of(t).len() > 0,
        None => false,
    };
    let code_ok = match captcha_code {
        Some(t) => chars_of(t).len() > 0,
        None => false,
    };
    if id_ok && code_ok {
        Ok(LoginStart::VerifyCaptcha)
    } else {
        Err(login_refusal(400, "请输入验证码", false, Some(true), false))
    }
}

/// The answer to a wrong captcha.
pub fn captcha_refusal() -> (r: LoginRefusal)
    ensures
        r.status == 400 && r.message@ == "验证码错误"@ && r.need_captcha == Some(true) && !r.blocked,
{
    login_refusal(400, "验证码错误", false, Some(true), false)
}

/// The answer to an unknown account or a wrong password, telling whether
/// the address now has to solve a captcha.
pub fn credentials_refusal(need_captcha: bool) -> (r: LoginRefusal)
    ensures
        r.status == 401 && r.message@ == "账号或密码错误"@ && r.need_captcha == Some(need_captcha) && !r.blocked,
{
    login_refusal(401, "账号或密码错误", false, Some(need_captcha), false)
}

/// The second factor of a login: none when the account has none; else a
/// code must be given (else 400), and the code is checked: `code_valid`
/// is the check's outcome.
pub fn second_factor(two_factor_enabled: bool, totp_code: Option<&str>, code_valid: bool) -> (r: Result<(), LoginRefusal>)
    ensures
        !two_factor_enabled ==> r is Ok,
        two_factor_enabled && !filled(totp_code) ==> (r matches Err(e) && e.status == 400
            && e.message@ == "请输入两步验证码"@ && e.need_2fa),
        two_factor_enabled && filled(totp_code) ==> (code_valid <==> r is Ok),
        two_factor_enabled && filled(totp_code) && !code_valid ==> (r matches Err(e) && e.status == 400
            && e.message@ == "两步验证码错误"@ && e.need_2fa),
{
    if !two_factor_enabled {
        return Ok(());
    }
    let given = match totp_code {
        Some(t) => chars_of(t).len() > 0,
        None => false,
    };
    if !given {
        return Err(login_refusal(400, "请输入两步验证码", false, None, true));
    }
    if !code_valid {
        return Err(login_refusal(400, "两步验证码错误", false, None, true));
    }
    Ok(())
}

/// The second factor of a login, checked against the account's stored
/// secret: none when the account has none; else a code must be given (else
/// 400), the secret must be present (else 500), and the code is checked at
/// the present time (the refusals of the check as `check_totp_code` gives
/// them, 500; a wrong code, 400): it passes only when `totp_rs` accepts it
/// at a time the clock read.
pub fn check_second_factor(two_factor_enabled: bool, secret: Option<&str>, username: &str, totp_code: Option<&str>)
    -> (r: Result<(), LoginRefusal>)
    ensures
        !two_factor_enabled ==> r is Ok,
        two_factor_enabled && !filled(totp_code) ==> (r matches Err(e) && e.status == 400
            && e.message@ == "请输入两步验证码"@ && e.need_2fa),
        two_factor_enabled && filled(totp_code) && secret is None ==> (r matches Err(e) && e.status == 500
            && e.message@ == "2FA配置错误"@),
        two_factor_enabled && filled(totp_code) ==> (secret matches Some(s) ==> match totp_setup_refusal(s@, username@) {
            Some(m) => r matches Err(e) && e.status == 500 && e.message@ == m,
            None => match r {
                Ok(()) => verdict_at_some_time(base32_secret(s@)->0, totp_code->0@, true),
                Err(e) => (e.status == 400 && e.message@ == "两步验证码错误"@ && e.need_2fa
                    && verdict_at_some_time(base32_secret(s@)->0, totp_code->0@, false))
                    || (e.status == 500 && e.message@ == "验证失败"@),
            },
        }),
{
    if !two_factor_enabled {
        return Ok(());
    }
    let code = match totp_code {
        Some(c) => c,
        None => {
            return second_factor(true, None, false);
        },
    };
    if chars_of(code).len() == 0 {
        return second_factor(true, totp_code, false);
    }
    let s = match secret {
        Some(s) => s,
        None => {
            return Err(login_refusal(500, "2FA配置错误", false, None, false));
        },
    };
    match check_totp_code(s, username, code) {
        Ok(valid) => second_factor(true, totp_code, valid),
        Err(e) => Err(login_refusal(e.code, e.message.as_str(), false, None, false)),
    }
}


/// What a login does once the account has been looked up by name, e-mail
/// or phone: record one failure for the address and the name given (then
/// answer with `credentials_refusal`, opening no session), answer a server
/// error, or go on to the second factor.
#[derive(Debug)]
pub enum CredentialsStep {
    RecordFailure,
    ServerError(Refusal),
    CheckSecondFactor,
}

/// Checks the password against the stored hash of the account found
/// (`None` when no enabled account has the name): an unknown account or a
/// wrong password records a failure, and only a matching password goes on;
/// a hash that cannot be read is a server error (500).
pub fn check_credentials(account_hash: Option<&str>, password: &str) -> (r: CredentialsStep)
    ensures
        match account_hash {
            None => r is RecordFailure,
            Some(h) => match bcrypt_verdict(password@, h@) {
                Some(true) => r is CheckSecondFactor,
                Some(false) => r is RecordFailure,
                None => r matches CredentialsStep::ServerError(e) && e.code == 500 && e.message@ == "服务器错误"@,
            },
        },
{
    match account_hash {
        None => CredentialsStep::RecordFailure,
        Some(h) => match password_matches(password, h) {
            Ok(true) => CredentialsStep::CheckSecondFactor,
            Ok(false) => CredentialsStep::RecordFailure,
            Err(e) => CredentialsStep::ServerError(e),
        },
    }
}

/// What ends a login that got past its credentials: with the second factor
/// passed, clear the address's failures and open a session for the user;
/// else answer the refusal, opening none.
#[derive(Debug)]
pub enum LoginEnd {
    ClearFailuresAndOpenSession,
    Refuse(LoginRefusal),
}

/// Ends a login from the outcome of its second factor.
pub fn login_end(second: Result<(), LoginRefusal>) -> (r: LoginEnd)
    ensures
        second is Ok <==> r is ClearFailuresAndOpenSession,
        second matches Err(e) ==> r == LoginEnd::Refuse(e),
{
    match second {
        Ok(()) => LoginEnd::ClearFailuresAndOpenSession,
        Err(e) => LoginEnd::Refuse(e),
    }
}

} // verus!
