//! Two-step verification: setting up a time-based one-time password, and
//! checking a code against the stored secret to turn it on or off or to
//! log in.

use vstd::prelude::*;
use crate::api::{Refusal, refuse};
use crate::digest::random_bytes;
use crate::text::{chars_of, string_of, concat_chars, copy_str, chars_contains};
use crate::api::files::download::percent_encoded;

verus! {

/// The bytes of a secret written in Base32 (RFC 4648, no padding), as
/// `totp_rs` reads it; `None` when the text is not Base32.
pub uninterp spec fn base32_secret(s: Seq<char>) -> Option<Seq<u8>>;

/// `totp_rs::Secret::Encoded(..).to_bytes()`. Claimed: the bytes are the
/// named function of the text.
#[verifier::external_body]
fn decode_secret(s: &str) -> (r: Option<Vec<u8>>)
    ensures
        match r {
            Some(b) => base32_secret(s@) == Some(b@),
            None => base32_secret(s@) is None,
        },
{
    match totp_rs::Secret::Encoded(s.to_string()).to_bytes() {
        Ok(b) => Some(b),
        Err(_) => None,
    }
}

/// The character of a five-bit value in the Base32 alphabet of RFC 4648:
/// `A`-`Z`, then `2`-`7`.
pub open spec fn base32_char(v: int) -> char {
    if v < 26 { (65 + v) as char } else { (50 + v - 26) as char }
}

/// Up to five bytes as a 40-bit number, missing bytes counted as zero.
pub open spec fn base32_group_value(g: Seq<u8>) -> int {
    let b = |i: int| if i < g.len() { g[i] as int } else { 0int };
    b(0) * 0x1_0000_0000 + b(1) * 0x100_0000 + b(2) * 0x1_0000 + b(3) * 0x100 + b(4)
}

/// How many characters a group of `k` bytes (1 to 5) takes: one per five
/// bits, the last one filled with zero bits.
pub open spec fn base32_group_len(k: int) -> nat {
    if k == 1 { 2 } else if k == 2 { 4 } else if k == 3 { 5 } else if k == 4 { 7 } else { 8 }
}

/// A group of one to five bytes in Base32 without padding.
pub open spec fn base32_group(g: Seq<u8>) -> Seq<char> {
    Seq::new(base32_group_len(g.len() as int),
        |i: int| base32_char((base32_group_value(g) / vstd::arithmetic::power::pow(32, (7 - i) as nat)) % 32))
}

/// Bytes written in Base32 (RFC 4648, no padding), as `totp_rs` writes a
/// secret: each group of five bytes as eight characters of five bits each,
/// a last shorter group as the characters its bits need.
pub open spec fn base32_text(raw: Seq<u8>) -> Seq<char>
    decreases raw.len(),
{
    if raw.len() == 0 {
        Seq::empty()
    } else if raw.len() <= 5 {
        base32_group(raw)
    } else {
        base32_group(raw.take(5)) + base32_text(raw.skip(5))
    }
}

/// `totp_rs::Secret::Raw(..).to_encoded()`, written out. Claimed: the text
/// is the bytes in Base32 without padding (`base32::encode` with the RFC
/// 4648 alphabet, which `to_encoded` calls).
#[verifier::external_body]
fn encode_secret(raw: &[u8]) -> (r: String)
    ensures
        r@ == base32_text(raw@),
{
    totp_rs::Secret::Raw(raw.to_vec()).to_encoded().to_string()
}

/// A text percent-encoded as `urlencoding` writes it.
pub open spec fn url_text(s: Seq<char>) -> Seq<char> {
    percent_encoded(vstd::utf8::encode_utf8(s))
}

/// The `otpauth://` URL of a six-digit, thirty-second SHA-1 password with
/// the secret `secret`, issued by `issuer` to `account`: the label
/// `issuer:account` and the issuer percent-encoded, the secret in Base32.
pub open spec fn otpauth_url(secret: Seq<u8>, issuer: Seq<char>, account: Seq<char>) -> Seq<char> {
    "otpauth://totp/"@ + url_text(issuer) + ":"@ + url_text(account) + "?secret="@ + base32_text(secret)
        + "&issuer="@ + url_text(issuer)
}

/// A six-digit, thirty-second SHA-1 password can be made of these values
/// (`totp_rs::TOTP::new` accepts them): the secret holds 16 bytes at
/// least, and neither the issuer nor the account holds `:`.
pub open spec fn totp_makeable(secret: Seq<u8>, issuer: Seq<char>, account: Seq<char>) -> bool {
    secret.len() >= 16 && !issuer.contains(':') && !account.contains(':')
}

/// `totp_rs::TOTP::get_url` of the six-digit, thirty-second SHA-1 password
/// `TOTP::new` makes of the values; `None` where `new` refuses them.
/// Claimed, as the source of `get_url` shows: with six digits, SHA-1 and
/// thirty seconds no other parameter is written, the label is the issuer
/// and the account percent-encoded and joined by `:`, and the secret is
/// written in Base32 without padding, as `Secret::to_encoded` writes it.
#[verifier::external_body]
fn totp_url(secret: &[u8], issuer: &str, account: &str) -> (r: Option<String>)
    ensures
        r is Some <==> totp_makeable(secret@, issuer@, account@),
        r matches Some(u) ==> u@ == otpauth_url(secret@, issuer@, account@),
{
    totp_rs::TOTP::new(totp_rs::Algorithm::SHA1, 6, 1, 30, secret.to_vec(), Some(issuer.to_string()), account.to_string())
        .ok()
        .map(|t| t.get_url())
}

/// The QR code of a URL as `totp_rs` draws it: a PNG in Base64; `None`
/// when the URL cannot be drawn.
pub uninterp spec fn qr_png_base64(url: Seq<char>) -> Option<Seq<char>>;

/// `totp_rs::TOTP::get_qr_base64` of the six-digit, thirty-second SHA-1
/// password `TOTP::new` makes of the values; `None` where `new` refuses
/// them or the QR code cannot be drawn. Claimed: it draws the URL that
/// `get_url` gives (its source calls `get_url` and draws that), so the
/// result is the named function of that URL.
#[verifier::external_body]
fn totp_qr_base64(secret: &[u8], issuer: &str, account: &str) -> (r: Option<String>)
    ensures
        !totp_makeable(secret@, issuer@, account@) ==> r is None,
        totp_makeable(secret@, issuer@, account@) ==> match r {
            Some(q) => qr_png_base64(otpauth_url(secret@, issuer@, account@)) == Some(q@),
            None => qr_png_base64(otpauth_url(secret@, issuer@, account@)) is None,
        },
{
    match totp_rs::TOTP::new(totp_rs::Algorithm::SHA1, 6, 1, 30, secret.to_vec(), Some(issuer.to_string()), account.to_string()) {
        Ok(t) => t.get_qr_base64().ok(),
        Err(_) => None,
    }
}

/// Whether `totp_rs` accepts `code` for the six-digit, thirty-second SHA-1
/// password with the secret `secret` at the Unix time `time` (seconds), one
/// step of skew allowed on each side.
pub uninterp spec fn totp_accepts(secret: Seq<u8>, code: Seq<char>, time: u64) -> bool;

/// The times at which `totp_rs` can check a code: from thirty seconds
/// after the epoch (its first step less the skew must not fall below 0) to
/// thirty seconds before the end of `u64` (its last step must fit).
pub open spec fn checkable_time(time: u64) -> bool {
    30 <= time <= u64::MAX - 30
}

/// `totp_rs::TOTP::check` at `time` of the six-digit, thirty-second SHA-1
/// password `TOTP::new` makes of the values (one step of skew); `None`
/// where `new` refuses them. Claimed: the verdict is the named function of
/// the secret, the code and the time (the issuer and account name only
/// label the password).
#[verifier::external_body]
fn totp_check_at(secret: &[u8], issuer: &str, account: &str, code: &str, time: u64) -> (r: Option<bool>)
    requires
        checkable_time(time),
    ensures
        r is Some <==> totp_makeable(secret@, issuer@, account@),
        r matches Some(v) ==> v == totp_accepts(secret@, code@, time),
{
    match totp_rs::TOTP::new(totp_rs::Algorithm::SHA1, 6, 1, 30, secret.to_vec(), Some(issuer.to_string()), account.to_string()) {
        Ok(t) => Some(t.check(code, time)),
        Err(_) => None,
    }
}

/// `std::time::SystemTime::now()` as whole seconds since the Unix epoch;
/// `None` when the clock reads before the epoch. Nothing is claimed of the
/// value: it is the time of the call.
#[verifier::external_body]
fn unix_seconds() -> (r: Option<u64>) {
    std::time::SystemTime::now().duration_since(std::time::UNIX_EPOCH).ok().map(|d| d.as_secs())
}

/// What setting up two-step verification gives the user: the secret in
/// Base32, its QR code as a PNG data URL, and its `otpauth://` URL.
#[derive(Debug)]
pub struct TwoFactorSetup {
    pub secret: String,
    pub qr_code: String,
    pub qr_url: String,
}

/// Sets up two-step verification for `username`: a fresh secret of 20
/// random bytes for a six-digit, thirty-second password issued by
/// `YaoList`, with the `otpauth://` URL of that secret and its QR code as
/// a PNG data URL. A user name holding `:` cannot name the password (500);
/// a URL that cannot be drawn gives no QR code (500).
pub fn setup_2fa(username: &str) -> (r: Result<TwoFactorSetup, Refusal>)
    ensures
        username@.contains(':') ==> (r matches Err(e) && e.code == 500 && e.message@ == "创建TOTP失败"@),
        !username@.contains(':') ==> exists|b: Seq<u8>| b.len() == 20 && #[trigger] setup_of(b, username@, r),
{
    let raw = random_bytes(20);
    let secret = encode_secret(raw.as_slice());
    proof {
        reveal_strlit("YaoList");
        assert(!"YaoList"@.contains(':')) by {
            assert forall|k: int| 0 <= k < "YaoList"@.len() implies "YaoList"@[k] != ':' by {}
        }
    }
    let url = match totp_url(raw.as_slice(), "YaoList", username) {
        Some(u) => u,
        None => {
            return Err(refuse(500, "创建TOTP失败"));
        },
    };
    let qr = match totp_qr_base64(raw.as_slice(), "YaoList", username) {
        Some(q) => q,
        None => {
            let r = Err(refuse(500, "生成二维码失败"));
            assert(setup_of(raw@, username@, r));
            return r;
        },
    };
    let prefix = chars_of("data:image/png;base64,");
    let qr_code = concat_chars(&prefix, &chars_of(qr.as_str()));
    let r = Ok(TwoFactorSetup { secret, qr_code: string_of(&qr_code), qr_url: url });
    assert(setup_of(raw@, username@, r));
    r
}

/// What setting up two-step verification for `username` gives with the
/// secret bytes `b`: the secret in Base32, the `otpauth://` URL of it
/// issued by `YaoList`, and the QR code of that URL after the PNG data-URL
/// prefix; a refusal (500) exactly when the URL cannot be drawn.
pub open spec fn setup_of(b: Seq<u8>, username: Seq<char>, r: Result<TwoFactorSetup, Refusal>) -> bool {
    let url = otpauth_url(b, "YaoList"@, username);
    match qr_png_base64(url) {
        Some(q) => r matches Ok(s) && s.secret@ == base32_text(b) && s.qr_url@ == url
            && s.qr_code@ == "data:image/png;base64,"@ + q,
        None => r matches Err(e) && e.code == 500 && e.message@ == "生成二维码失败"@,
    }
}

/// The checks of a code against a stored secret that can fail before the
/// code is looked at: a secret that is not Base32 (500), or too short, or
/// an account name that holds `:` (500).
pub open spec fn totp_setup_refusal(secret: Seq<char>, account_name: Seq<char>) -> Option<Seq<char>> {
    match base32_secret(secret) {
        None => Some("密钥解析失败"@),
        Some(b) => if b.len() < 16 || account_name.contains(':') { Some("创建TOTP失败"@) } else { None },
    }
}

/// Checks a six-digit code against a secret stored in Base32 at the Unix
/// time `time`, with one step of skew. Where the secret cannot make a
/// password the refusal says why (500); else the verdict of `totp_rs` on
/// the secret's bytes and the code at that time.
pub fn check_totp_code_at(secret: &str, account_name: &str, code: &str, time: u64) -> (r: Result<bool, Refusal>)
    requires
        checkable_time(time),
    ensures
        totp_setup_refusal(secret@, account_name@) matches Some(m) ==> (r matches Err(e) && e.code == 500 && e.message@ == m),
        totp_setup_refusal(secret@, account_name@) is None ==> (base32_secret(secret@) matches Some(b)
            && r matches Ok(v) && v == totp_accepts(b, code@, time)),
{
    let bytes = match decode_secret(secret) {
        Some(b) => b,
        None => {
            return Err(refuse(500, "密钥解析失败"));
        },
    };
    proof { reveal_strlit("YaoList"); }
    assert(!"YaoList"@.contains(':')) by {
        assert forall|k: int| 0 <= k < "YaoList"@.len() implies "YaoList"@[k] != ':' by {}
    }
    match totp_check_at(bytes.as_slice(), "YaoList", account_name, code, time) {
        Some(v) => Ok(v),
        None => Err(refuse(500, "创建TOTP失败")),
    }
}

/// Some time `totp_rs` can check at gives the verdict `v` on `code` for
/// the secret `b`.
pub open spec fn verdict_at_some_time(b: Seq<u8>, code: Seq<char>, v: bool) -> bool {
    exists|t: u64| checkable_time(t) && #[trigger] totp_accepts(b, code, t) == v
}

/// Checks a six-digit code against a secret stored in Base32 at the
/// present time, with one step of skew. Where the secret cannot make a
/// password the refusal says why (500); a clock that cannot be read, or
/// reads outside the times a check can be made at, is refused (500); else
/// the verdict at the time read.
pub fn check_totp_code(secret: &str, account_name: &str, code: &str) -> (r: Result<bool, Refusal>)
    ensures
        totp_setup_refusal(secret@, account_name@) matches Some(m) ==> (r matches Err(e) && e.code == 500 && e.message@ == m),
        totp_setup_refusal(secret@, account_name@) is None ==> match r {
            Ok(v) => verdict_at_some_time(base32_secret(secret@)->0, code@, v),
            Err(e) => e.code == 500 && e.message@ == "验证失败"@,
        },
{
    if decode_secret(secret).is_none() {
        return Err(refuse(500, "密钥解析失败"));
    }
    let time = match unix_seconds() {
        Some(t) => t,
        None => {
            return match check_totp_setup(secret, account_name) {
                Some(e) => Err(e),
                None => Err(refuse(500, "验证失败")),
            };
        },
    };
    if !(30 <= time && time <= u64::MAX - 30) {
        return match check_totp_setup(secret, account_name) {
            Some(e) => Err(e),
            None => Err(refuse(500, "验证失败")),
        };
    }
    let r = check_totp_code_at(secret, account_name, code, time);
    proof {
        if totp_setup_refusal(secret@, account_name@) is None {
            let b = base32_secret(secret@)->0;
            if let Ok(v) = r {
                assert(checkable_time(time) && totp_accepts(b, code@, time) == v);
            }
        }
    }
    r
}

/// The refusal `totp_setup_refusal` gives, when there is one.
fn check_totp_setup(secret: &str, account_name: &str) -> (r: Option<Refusal>)
    ensures
        match totp_setup_refusal(secret@, account_name@) {
            Some(m) => r matches Some(e) && e.code == 500 && e.message@ == m,
            None => r is None,
        },
{
    let bytes = match decode_secret(secret) {
        Some(b) => b,
        None => {
            return Some(refuse(500, "密钥解析失败"));
        },
    };
    if bytes.len() < 16 || chars_contains(&chars_of(account_name), ':') {
        Some(refuse(500, "创建TOTP失败"))
    } else {
        None
    }
}

/// Turns two-step verification on once a code checks out against the
/// secret set up before: without one set up, 400; a wrong code, 400.
pub fn enable_2fa(secret: Option<&str>, code: &str) -> (r: Result<(), Refusal>)
    ensures
        secret is None ==> (r matches Err(e) && e.code == 400 && e.message@ == "请先设置2FA"@),
        secret matches Some(s) ==> match totp_setup_refusal(s@, "user"@) {
            Some(m) => r matches Err(e) && e.code == 500 && e.message@ == m,
            None => match r {
                Ok(()) => verdict_at_some_time(base32_secret(s@)->0, code@, true),
                Err(e) => (e.code == 400 && e.message@ == "验证码错误"@
                    && verdict_at_some_time(base32_secret(s@)->0, code@, false))
                    || (e.code == 500 && e.message@ == "验证失败"@),
            },
        },
{
    let s = match secret {
        Some(s) => s,
        None => {
            return Err(refuse(400, "请先设置2FA"));
        },
    };
    verify_code_against(s, code)
}

fn verify_code_against(secret: &str, code: &str) -> (r: Result<(), Refusal>)
    ensures
        match totp_setup_refusal(secret@, "user"@) {
            Some(m) => r matches Err(e) && e.code == 500 && e.message@ == m,
            None => match r {
                Ok(()) => verdict_at_some_time(base32_secret(secret@)->0, code@, true),
                Err(e) => (e.code == 400 && e.message@ == "验证码错误"@
                    && verdict_at_some_time(base32_secret(secret@)->0, code@, false))
                    || (e.code == 500 && e.message@ == "验证失败"@),
            },
        },
{
    match check_totp_code(secret, "user", code) {
        Ok(true) => Ok(()),
        Ok(false) => Err(refuse(400, "验证码错误")),
        Err(e) => Err(e),
    }
}

/// Turns two-step verification off once a code checks out: it must be on
/// (else 400) and its secret present (else 400); a wrong code, 400.
pub fn disable_2fa(enabled: bool, secret: Option<&str>, code: &str) -> (r: Result<(), Refusal>)
    ensures
        !enabled ==> (r matches Err(e) && e.code == 400 && e.message@ == "2FA未启用"@),
        enabled && secret is None ==> (r matches Err(e) && e.code == 400 && e.message@ == "2FA配置错误"@),
        enabled ==> (secret matches Some(s) ==> match totp_setup_refusal(s@, "user"@) {
            Some(m) => r matches Err(e) && e.code == 500 && e.message@ == m,
            None => match r {
                Ok(()) => verdict_at_some_time(base32_secret(s@)->0, code@, true),
                Err(e) => (e.code == 400 && e.message@ == "验证码错误"@
                    && verdict_at_some_time(base32_secret(s@)->0, code@, false))
                    || (e.code == 500 && e.message@ == "验证失败"@),
            },
        }),
{
    if !enabled {
        return Err(refuse(400, "2FA未启用"));
    }
    let s = match secret {
        Some(s) => s,
        None => {
            return Err(refuse(400, "2FA配置错误"));
        },
    };
    verify_code_against(s, code)
}

} // verus!
