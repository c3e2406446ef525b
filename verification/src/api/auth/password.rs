//! Passwords: the code that resets a forgotten one and where it is kept,
//! the channel it goes through, and the checks of a new or changed
//! password; and the checks of a new e-mail address or phone number.

use vstd::prelude::*;
use crate::api::{Refusal, refuse};
use crate::api::auth::login::{bcrypt_verdict, password_matches};
use crate::api::auth::register::byte_len;
use crate::api::notification::{CodeChannel, NotificationSettings};
use crate::digest::random_bytes;
use crate::num::is_digit;
use crate::text::{chars_of, string_of, concat_chars, str_eq};

verus! {

/// Where the reset code of an account is kept: the kind of the target
/// (`email` or `phone`), `:`, the target.
pub fn reset_key(target_type: &str, target: &str) -> (r: String)
    ensures
        r@ == target_type@ + seq![':'] + target@,
{
    let mut k = chars_of(target_type);
    k.push(':');
    string_of(&concat_chars(&k, &chars_of(target)))
}

/// The digit of a value below 10.
pub open spec fn digit_char(d: u8) -> char {
    (48 + d) as char
}

/// The code written by bytes: each taken modulo 10, as a digit.
pub open spec fn code_of(b: Seq<u8>) -> Seq<char> {
    b.map_values(|x: u8| digit_char(x % 10))
}

/// A fresh reset code: six digits, each a random byte taken modulo 10.
pub fn reset_code() -> (r: String)
    ensures
        exists|b: Seq<u8>| b.len() == 6 && r@ == #[trigger] code_of(b),
        r@.len() == 6,
        forall|k: int| 0 <= k < 6 ==> is_digit(#[trigger] r@[k]),
{
    let b = random_bytes(6);
    let mut out: Vec<char> = Vec::new();
    let mut i: usize = 0;
    while i < 6
        invariant
            i <= 6,
            b@.len() == 6,
            out@ == b@.take(i as int).map_values(|x: u8| digit_char(x % 10)),
        decreases 6 - i,
    {
        let d = b[i] % 10;
        out.push((48 + d) as char);
        assert(b@.take(i + 1).map_values(|x: u8| digit_char(x % 10))
            =~= b@.take(i as int).map_values(|x: u8| digit_char(x % 10)).push(digit_char(b@[i as int] % 10)));
        i = i + 1;
    }
    assert(b@.take(6) =~= b@);
    assert(out@ == code_of(b@));
    string_of(&out)
}

/// How a reset code is sent: by e-mail for an `email` target, else by
/// SMS; the channel must be enabled (else 400).
pub fn reset_channel(target_type: &str, settings: &NotificationSettings) -> (r: Result<CodeChannel, Refusal>)
    ensures
        target_type@ == "email"@ ==> if settings.email_enabled {
            r == Ok::<CodeChannel, Refusal>(CodeChannel::Email)
        } else {
            r matches Err(e) && e.code == 400 && e.message@ == "邮箱通知未启用"@
        },
        target_type@ != "email"@ ==> if settings.sms_enabled {
            r == Ok::<CodeChannel, Refusal>(CodeChannel::Sms)
        } else {
            r matches Err(e) && e.code == 400 && e.message@ == "短信通知未启用"@
        },
{
    if str_eq(target_type, "email") {
        if settings.email_enabled { Ok(CodeChannel::Email) } else { Err(refuse(400, "邮箱通知未启用")) }
    } else {
        if settings.sms_enabled { Ok(CodeChannel::Sms) } else { Err(refuse(400, "短信通知未启用")) }
    }
}

/// A new password must hold six bytes at least (else 400).
pub fn reset_password_check(new_password: &str) -> (r: Result<(), Refusal>)
    ensures
        byte_len(new_password@) >= 6 <==> r is Ok,
        r matches Err(e) ==> e.code == 400 && e.message@ == "密码长度至少6位"@,
{
    if new_password.len() < 6 {
        return Err(refuse(400, "密码长度至少6位"));
    }
    Ok(())
}

/// The checks of a password change: the current password must match the
/// stored hash (an unreadable hash, 500; no match, 400), then the new one
/// must hold six bytes at least (else 400).
pub fn change_password_check(current_password: &str, stored_hash: &str, new_password: &str) -> (r: Result<(), Refusal>)
    ensures
        bcrypt_verdict(current_password@, stored_hash@) is None ==> (r matches Err(e) && e.code == 500
            && e.message@ == "服务器错误"@),
        bcrypt_verdict(current_password@, stored_hash@) == Some(false) ==> (r matches Err(e) && e.code == 400
            && e.message@ == "当前密码错误"@),
        bcrypt_verdict(current_password@, stored_hash@) == Some(true) && byte_len(new_password@) < 6 ==>
            (r matches Err(e) && e.code == 400 && e.message@ == "新密码长度至少6位"@),
        bcrypt_verdict(current_password@, stored_hash@) == Some(true) && byte_len(new_password@) >= 6 ==> r is Ok,
{
    let valid = match password_matches(current_password, stored_hash) {
        Ok(v) => v,
        Err(e) => {
            return Err(e);
        },
    };
    if !valid {
        return Err(refuse(400, "当前密码错误"));
    }
    if new_password.len() < 6 {
        return Err(refuse(400, "新密码长度至少6位"));
    }
    Ok(())
}

/// Why a new e-mail address (`is_email`) or phone number is refused (400):
/// another account uses it as the same kind of contact, or as the other
/// kind; `None` when neither.
pub fn contact_refusal(is_email: bool, taken_same_kind: bool, taken_other_kind: bool) -> (r: Option<Refusal>)
    ensures
        taken_same_kind ==> (r matches Some(e) && e.code == 400 && e.message@ == (if is_email {
            "该邮箱已被其他账号使用"@ } else { "该手机号已被其他账号使用"@ })),
        !taken_same_kind && taken_other_kind ==> (r matches Some(e) && e.code == 400 && e.message@ == (if is_email {
            "该邮箱已被其他账号作为手机号使用"@ } else { "该手机号已被其他账号作为邮箱使用"@ })),
        !taken_same_kind && !taken_other_kind ==> r is None,
{
    if taken_same_kind {
        if is_email {
            Some(refuse(400, "该邮箱已被其他账号使用"))
        } else {
            Some(refuse(400, "该手机号已被其他账号使用"))
        }
    } else if taken_other_kind {
        if is_email {
            Some(refuse(400, "该邮箱已被其他账号作为手机号使用"))
        } else {
            Some(refuse(400, "该手机号已被其他账号作为邮箱使用"))
        }
    } else {
        None
    }
}

} // verus!
