//! Registration: whether it is open, where the confirmation code went,
//! the checks of the code and of the names, the group and the id of the
//! new user, and the hashing of the password.

use vstd::prelude::*;
use crate::api::settings::site::{read_flag, flag_of};
use crate::api::{Refusal, refuse};
use crate::api::auth::types::{RegisterRequest, CheckUniqueRequest};
use crate::api::auth::login::bcrypt_verdict;
use crate::num::{int_text, i64_to_decimal};
use crate::text::{chars_of, chars_contains, string_of, str_eq, copy_str};

verus! {

/// Where the confirmation code of a registration was sent, or why the
/// registration is refused.
pub open spec fn registration_target_of(enabled: bool, req: RegisterRequest) -> Result<Seq<char>, (u16, Seq<char>)> {
    if !enabled {
        Err((403, "注册功能已关闭"@))
    } else if req.verification_type@ == "email"@ {
        match req.email {
            Some(e) => Ok(e@),
            None => Err((400, "请提供邮箱地址"@)),
        }
    } else if req.verification_type@ == "sms"@ {
        match req.phone {
            Some(p) => Ok(p@),
            None => Err((400, "请提供手机号码"@)),
        }
    } else {
        Err((400, "不支持的验证方式"@))
    }
}

/// The address (e-mail or phone) the confirmation code was sent to.
pub fn registration_target(enabled: bool, req: &RegisterRequest) -> (r: Result<String, Refusal>)
    ensures
        match registration_target_of(enabled, *req) {
            Ok(t) => r matches Ok(s) && s@ == t,
            Err((code, msg)) => r matches Err(e) && e.code == code && e.message@ == msg,
        },
{
    if !enabled {
        return Err(refuse(403, "注册功能已关闭"));
    }
    if str_eq(req.verification_type.as_str(), "email") {
        match &req.email {
            Some(e) => Ok(copy_str(e.as_str())),
            None => Err(refuse(400, "请提供邮箱地址")),
        }
    } else if str_eq(req.verification_type.as_str(), "sms") {
        match &req.phone {
            Some(p) => Ok(copy_str(p.as_str())),
            None => Err(refuse(400, "请提供手机号码")),
        }
    } else {
        Err(refuse(400, "不支持的验证方式"))
    }
}

/// Whether the latest unexpired code sent to the address (its text and
/// whether it was used) confirms the registration.
pub open spec fn code_outcome(found: Option<(Seq<char>, bool)>, given: Seq<char>) -> Option<Seq<char>> {
    match found {
        None => Some("验证码不存在或已过期"@),
        Some((code, used)) => if used {
            Some("验证码已使用"@)
        } else if code != given {
            Some("验证码错误"@)
        } else {
            None
        },
    }
}

/// Checks a confirmation code; a refusal is a bad request (400).
pub fn check_code(found: Option<(&str, bool)>, given: &str) -> (r: Result<(), Refusal>)
    ensures
        match code_outcome(match found { Some((c, u)) => Some((c@, u)), None => None }, given@) {
            None => r is Ok,
            Some(msg) => r matches Err(e) && e.code == 400 && e.message@ == msg,
        },
{
    match found {
        None => Err(refuse(400, "验证码不存在或已过期")),
        Some((code, used)) => {
            if used {
                Err(refuse(400, "验证码已使用"))
            } else if !str_eq(code, given) {
                Err(refuse(400, "验证码错误"))
            } else {
                Ok(())
            }
        },
    }
}

/// Refuses (409) a registration whose user name, e-mail or phone is taken,
/// checked in that order.
pub fn check_account_free(username_taken: bool, email_taken: bool, phone_taken: bool) -> (r: Result<(), Refusal>)
    ensures
        !(username_taken || email_taken || phone_taken) <==> r is Ok,
        username_taken ==> (r matches Err(e) && e.code == 409 && e.message@ == "用户名已存在"@),
        !username_taken && email_taken ==> (r matches Err(e) && e.code == 409 && e.message@ == "邮箱已被注册"@),
        !username_taken && !email_taken && phone_taken ==> (r matches Err(e) && e.code == 409
            && e.message@ == "手机号已被注册"@),
{
    if username_taken {
        return Err(refuse(409, "用户名已存在"));
    }
    if email_taken {
        return Err(refuse(409, "邮箱已被注册"));
    }
    if phone_taken {
        return Err(refuse(409, "手机号已被注册"));
    }
    Ok(())
}

/// The group a new user joins: the configured default group, else the
/// group named as the default one, else group `1`.
pub open spec fn registration_group_of(setting: Option<Seq<char>>, default_group: Option<i64>) -> Seq<char> {
    match setting {
        Some(g) => g,
        None => match default_group {
            Some(id) => int_text(id as int),
            None => "1"@,
        },
    }
}

/// Picks the group of a new user.
pub fn registration_group(setting: Option<String>, default_group: Option<i64>) -> (r: String)
    ensures
        r@ == registration_group_of(match setting { Some(s) => Some(s@), None => None }, default_group),
{
    match setting {
        Some(g) => g,
        None => match default_group {
            Some(id) => string_of(&i64_to_decimal(id)),
            None => String::from_str("1"),
        },
    }
}

/// The id of a new user: one more than the largest numeric id, or `1`.
pub fn next_user_id(max_id: Option<i64>) -> (r: String)
    requires
        max_id != Some(i64::MAX),
    ensures
        r@ == match max_id { Some(m) => int_text(m + 1), None => int_text(1) },
{
    let next: i64 = match max_id {
        Some(m) => m + 1,
        None => 1,
    };
    string_of(&i64_to_decimal(next))
}

/// The byte length of a text in UTF-8 (`str::len`).
pub open spec fn byte_len(s: Seq<char>) -> usize {
    vstd::utf8::encode_utf8(s).len() as usize
}

/// The problems with the names asked about: a user name of 3 to 20 bytes
/// that nobody uses, an e-mail with `@` that nobody uses, a phone number of
/// 10 bytes at least that nobody uses. A name counts as used when it is
/// anybody's user name, e-mail or phone (`*_taken`).
pub open spec fn unique_errors(
    username: Option<Seq<char>>,
    email: Option<Seq<char>>,
    phone: Option<Seq<char>>,
    username_taken: bool,
    email_taken: bool,
    phone_taken: bool,
) -> Seq<Seq<char>> {
    let u: Seq<Seq<char>> = match username {
        Some(n) => if byte_len(n) < 3 {
            seq!["用户名至少3个字符"@]
        } else if byte_len(n) > 20 {
            seq!["用户名最多20个字符"@]
        } else if username_taken {
            seq!["用户名已被使用"@]
        } else {
            Seq::empty()
        },
        None => Seq::empty(),
    };
    let e: Seq<Seq<char>> = match email {
        Some(m) => if !m.contains('@') {
            seq!["邮箱格式不正确"@]
        } else if email_taken {
            seq!["邮箱已被使用"@]
        } else {
            Seq::empty()
        },
        None => Seq::empty(),
    };
    let p: Seq<Seq<char>> = match phone {
        Some(n) => if byte_len(n) < 10 {
            seq!["手机号格式不正确"@]
        } else if phone_taken {
            seq!["手机号已被使用"@]
        } else {
            Seq::empty()
        },
        None => Seq::empty(),
    };
    u + e + p
}

pub open spec fn opt_str(s: Option<String>) -> Option<Seq<char>> {
    match s {
        Some(t) => Some(t@),
        None => None,
    }
}

/// Whether a user name has the allowed length (3 to 20 bytes).
pub fn username_length_ok(name: &str) -> (r: bool)
    ensures
        r == (3 <= byte_len(name@) <= 20),
{
    let n = name.len();
    3 <= n && n <= 20
}

/// Whether an e-mail address has the form to look up (holds `@`).
pub fn email_form_ok(email: &str) -> (r: bool)
    ensures
        r == email@.contains('@'),
{
    chars_contains(&chars_of(email), '@')
}

/// Whether a phone number has the length to look up (10 bytes at least).
pub fn phone_form_ok(phone: &str) -> (r: bool)
    ensures
        r == (byte_len(phone@) >= 10),
{
    phone.len() >= 10
}

fn push_msg(out: &mut Vec<String>, msg: &str)
    ensures
        final(out)@.map_values(|s: String| s@) == old(out)@.map_values(|s: String| s@).push(msg@),
{
    let ghost before = out@;
    out.push(String::from_str(msg));
    assert(out@.map_values(|s: String| s@) =~= before.map_values(|s: String| s@).push(msg@));
}

/// The problems with the names of a uniqueness question; whether a name is
/// used is only asked of a name of the right form.
pub fn check_unique_errors(
    req: &CheckUniqueRequest,
    username_taken: bool,
    email_taken: bool,
    phone_taken: bool,
) -> (r: Vec<String>)
    ensures
        r@.map_values(|s: String| s@) == unique_errors(
            opt_str(req.username), opt_str(req.email), opt_str(req.phone),
            username_taken, email_taken, phone_taken),
{
    let mut out: Vec<String> = Vec::new();
    if let Some(n) = &req.username {
        let len = n.as_str().len();
        if len < 3 {
            push_msg(&mut out, "用户名至少3个字符");
        } else if len > 20 {
            push_msg(&mut out, "用户名最多20个字符");
        } else if username_taken {
            push_msg(&mut out, "用户名已被使用");
        }
    }
    let ghost after_user = out@.map_values(|s: String| s@);
    if let Some(m) = &req.email {
        if !email_form_ok(m.as_str()) {
            push_msg(&mut out, "邮箱格式不正确");
        } else if email_taken {
            push_msg(&mut out, "邮箱已被使用");
        }
    }
    let ghost after_email = out@.map_values(|s: String| s@);
    if let Some(p) = &req.phone {
        if p.as_str().len() < 10 {
            push_msg(&mut out, "手机号格式不正确");
        } else if phone_taken {
            push_msg(&mut out, "手机号已被使用");
        }
    }
    assert(out@.map_values(|s: String| s@) =~= unique_errors(
        opt_str(req.username), opt_str(req.email), opt_str(req.phone),
        username_taken, email_taken, phone_taken));
    out
}

/// `bcrypt::hash` at the default cost. Claimed: a hash it gives is one that
/// `bcrypt::verify` accepts for the same password (both truncate the
/// password at 72 bytes alike). The hash itself rests on a random salt.
#[verifier::external_body]
fn bcrypt_hash(password: &str) -> (r: Result<String, ()>)
    ensures
        r matches Ok(h) ==> bcrypt_verdict(password@, h@) == Some(true),
{
    match bcrypt::hash(password, bcrypt::DEFAULT_COST) {
        Ok(h) => Ok(h),
        Err(_) => Err(()),
    }
}

/// Hashes the password of a new account; a failure answers 500.
pub fn hash_new_password(password: &str) -> (r: Result<String, Refusal>)
    ensures
        r matches Ok(h) ==> bcrypt_verdict(password@, h@) == Some(true),
        r matches Err(e) ==> e.code == 500 && e.message@ == "服务器错误"@,
{
    match bcrypt_hash(password) {
        Ok(h) => Ok(h),
        Err(()) => Err(refuse(500, "服务器错误")),
    }
}

/// Whether registration is open and which verification channels it
/// offers, from the stored `allow_registration`,
/// `notification_email_enabled` and `notification_sms_enabled` settings:
/// each is on exactly when stored as `true`.
pub fn get_registration_config(allow_registration: &Option<String>, email_enabled: &Option<String>,
    sms_enabled: &Option<String>) -> (r: (bool, bool, bool))
    ensures
        r == (read_flag(*allow_registration), read_flag(*email_enabled), read_flag(*sms_enabled)),
{
    (flag_of(allow_registration), flag_of(email_enabled), flag_of(sms_enabled))
}


/// The confirmation code to mark used: that of the stored code found for
/// the target (`(id, code, used)`), once `check_code` lets it pass; else
/// its refusal.
pub fn code_to_mark_used(found: Option<(&str, &str, bool)>, given: &str) -> (r: Result<String, Refusal>)
    ensures
        match code_outcome(match found { Some((_, c, u)) => Some((c@, u)), None => None }, given@) {
            None => r matches Ok(id) && id@ == (found->0).0@,
            Some(msg) => r matches Err(e) && e.code == 400 && e.message@ == msg,
        },
{
    match found {
        None => {
            match check_code(None, given) {
                Err(e) => Err(e),
                Ok(()) => Err(refuse(400, "验证码不存在或已过期")),
            }
        },
        Some((id, code, used)) => {
            match check_code(Some((code, used)), given) {
                Err(e) => Err(e),
                Ok(()) => Ok(copy_str(id)),
            }
        },
    }
}

/// The record of a new account and its group memberships.
#[derive(Debug)]
pub struct NewAccount {
    pub id: String,
    pub username: String,
    pub password_hash: String,
    pub email: Option<String>,
    pub phone: Option<String>,
    pub is_admin: bool,
    pub enabled: bool,
    pub root_path: Option<String>,
    /// `(user id, group id)` pairs.
    pub memberships: Vec<(String, String)>,
}

fn copy_opt(t: &Option<String>) -> (r: Option<String>)
    ensures
        match r { Some(x) => Some(x@), None => None::<Seq<char>> } == match *t { Some(x) => Some(x@), None => None::<Seq<char>> },
{
    match t {
        Some(x) => Some(copy_str(x.as_str())),
        None => None,
    }
}

/// The new account a registration creates: the requested name, e-mail and
/// phone, the password hash, no administration, enabled, the root path of
/// its group, and exactly one membership, in that group.
pub fn new_account(req: &RegisterRequest, user_id: &str, password_hash: &str, group_id: &str,
    group_root_path: Option<&str>) -> (r: NewAccount)
    ensures
        r.id@ == user_id@,
        r.username@ == req.username@,
        r.password_hash@ == password_hash@,
        match r.email { Some(x) => Some(x@), None => None::<Seq<char>> } == match req.email { Some(x) => Some(x@), None => None::<Seq<char>> },
        match r.phone { Some(x) => Some(x@), None => None::<Seq<char>> } == match req.phone { Some(x) => Some(x@), None => None::<Seq<char>> },
        !r.is_admin,
        r.enabled,
        match r.root_path { Some(x) => Some(x@), None => None::<Seq<char>> } == match group_root_path { Some(x) => Some(x@), None => None::<Seq<char>> },
        r.memberships@.len() == 1,
        r.memberships@[0].0@ == user_id@ && r.memberships@[0].1@ == group_id@,
{
    let mut memberships: Vec<(String, String)> = Vec::new();
    memberships.push((copy_str(user_id), copy_str(group_id)));
    NewAccount {
        id: copy_str(user_id),
        username: copy_str(req.username.as_str()),
        password_hash: copy_str(password_hash),
        email: copy_opt(&req.email),
        phone: copy_opt(&req.phone),
        is_admin: false,
        enabled: true,
        root_path: match group_root_path {
            Some(p) => Some(copy_str(p)),
            None => None,
        },
        memberships,
    }
}

} // verus!
