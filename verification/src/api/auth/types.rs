//! The requests and answers of the account endpoints.

use vstd::prelude::*;

verus! {

/// A login: account (user name, e-mail or phone), password, and the captcha and
/// two-factor code when they are asked for.
#[derive(Debug)]
pub struct LoginRequest {
    pub username: String,
    pub password: String,
    pub captcha_id: Option<String>,
    pub captcha_code: Option<String>,
    pub totp_code: Option<String>,
}

/// A captcha to show.
#[derive(Debug)]
pub struct CaptchaResponse {
    pub captcha_id: String,
    pub captcha_image: String,
}

/// A registration, confirmed by a code sent by e-mail or SMS.
#[derive(Debug)]
pub struct RegisterRequest {
    pub username: String,
    pub password: String,
    pub email: Option<String>,
    pub phone: Option<String>,
    pub verification_code: String,
    pub verification_type: String,
}

/// A question whether names are still free.
#[derive(Debug)]
pub struct CheckUniqueRequest {
    pub username: Option<String>,
    pub email: Option<String>,
    pub phone: Option<String>,
}

/// A request for a password reset code.
#[derive(Debug)]
pub struct ForgotPasswordRequest {
    pub target: String,
    pub target_type: String,
    pub captcha_id: String,
    pub captcha_code: String,
}

/// A password reset with the code received.
#[derive(Debug)]
pub struct ResetPasswordRequest {
    pub target: String,
    pub target_type: String,
    pub verification_code: String,
    pub new_password: String,
}

/// A change of one's password.
#[derive(Debug)]
pub struct ChangePasswordRequest {
    pub current_password: String,
    pub new_password: String,
}

/// A change of one's e-mail address.
#[derive(Debug)]
pub struct UpdateEmailRequest {
    pub email: String,
    pub verification_code: String,
}

/// A change of one's phone number.
#[derive(Debug)]
pub struct UpdatePhoneRequest {
    pub phone: String,
    pub verification_code: String,
}

/// The code that confirms two-factor authentication.
#[derive(Debug)]
pub struct Enable2FARequest {
    pub totp_code: String,
}

/// A two-factor code.
#[derive(Debug)]
pub struct Verify2FARequest {
    pub totp_code: String,
}

} // verus!
