//! Storage authorisations: the page shown after the callback, and the
//! outcome of a token exchange.

use vstd::prelude::*;
use crate::text::{chars_of, string_of, concat_chars};

verus! {

/// What an authorisation server sends back.
#[derive(Debug)]
pub struct OAuthCallbackParams {
    pub code: Option<String>,
    pub error: Option<String>,
}

/// A request to exchange an authorisation code for tokens.
#[derive(Debug)]
pub struct TokenExchangeRequest {
    pub code: String,
    pub client_id: String,
    pub client_secret: String,
    pub redirect_uri: String,
}

/// The tokens obtained, or the error.
#[derive(Debug)]
pub struct TokenExchangeResponse {
    pub refresh_token: Option<String>,
    pub access_token: Option<String>,
    pub error: Option<String>,
}

/// The page shown after an authorisation server redirects back: a
/// failure page that shows and posts the error, else a success page that
/// posts the code, else a page saying neither came. `provider` names the
/// service in the titles (empty for Google Drive).
pub open spec fn callback_page(provider: Seq<char>, error: Option<Seq<char>>, code: Option<Seq<char>>) -> Seq<char> {
    match error {
        Some(e) => "<!DOCTYPE html>\n<html>\n<head>\n    <meta charset=\"utf-8\">\n    <title>"@ + provider + "授权失败"@ + "</title>\n    <style>\n        body { font-family: -apple-system, BlinkMacSystemFont, 'Segoe UI', Roboto, sans-serif; display: flex; justify-content: center; align-items: center; height: 100vh; margin: 0; background: #f5f5f5; }\n        .container { background: white; padding: 40px; border-radius: 12px; box-shadow: 0 2px 10px rgba(0,0,0,0.1); text-align: center; }\n        .error { color: #e53935; }\n    </style>\n</head>\n<body>\n    <div class=\"container\">\n        <h2 class=\"error\">"@ + provider + "授权失败"@
            + "</h2>\n        <p>"@ + e + "</p>\n        <p>请关闭此窗口并重试</p>\n    </div>\n    <script>\n        if (window.opener) {\n            window.opener.postMessage({ type: 'oauth_error', error: '"@ + e + "' }, '*');\n        }\n    </script>\n</body>\n</html>"@,
        None => match code {
            Some(c) => "<!DOCTYPE html>\n<html>\n<head>\n    <meta charset=\"utf-8\">\n    <title>"@ + provider + "授权成功"@ + "</title>\n    <style>\n        body { font-family: -apple-system, BlinkMacSystemFont, 'Segoe UI', Roboto, sans-serif; display: flex; justify-content: center; align-items: center; height: 100vh; margin: 0; background: #f5f5f5; }\n        .container { background: white; padding: 40px; border-radius: 12px; box-shadow: 0 2px 10px rgba(0,0,0,0.1); text-align: center; max-width: 500px; }\n        .success { color: #43a047; }\n    </style>\n</head>\n<body>\n    <div class=\"container\">\n        <h2 class=\"success\">"@ + provider + "授权成功"@
                + "</h2>\n        <p>正在获取令牌...</p>\n    </div>\n    <script>\n        if (window.opener) {\n            window.opener.postMessage({ type: 'oauth_code', code: '"@ + c + "' }, '*');\n            setTimeout(() => window.close(), 1000);\n        }\n    </script>\n</body>\n</html>"@,
            None => "<!DOCTYPE html>\n<html>\n<head>\n    <meta charset=\"utf-8\">\n    <title>"@ + provider + "授权错误"@ + "</title>\n    <style>\n        body { font-family: -apple-system, BlinkMacSystemFont, 'Segoe UI', Roboto, sans-serif; display: flex; justify-content: center; align-items: center; height: 100vh; margin: 0; background: #f5f5f5; }\n        .container { background: white; padding: 40px; border-radius: 12px; box-shadow: 0 2px 10px rgba(0,0,0,0.1); text-align: center; }\n        .error { color: #e53935; }\n    </style>\n</head>\n<body>\n    <div class=\"container\">\n        <h2 class=\"error\">"@ + provider + "授权错误"@ + "</h2>\n        <p>未收到授权码或错误信息</p>\n    </div>\n</body>\n</html>"@,
        },
    }
}

fn join_parts(parts: &Vec<&str>) -> (r: String)
    ensures
        r@ == joined(parts@),
{
    let mut out: Vec<char> = Vec::new();
    let mut i: usize = 0;
    assert(parts@.take(0) =~= Seq::<&str>::empty());
    while i < parts.len()
        invariant
            i <= parts.len(),
            out@ == joined(parts@.take(i as int)),
        decreases parts.len() - i,
    {
        assert(parts@.take(i + 1).drop_last() =~= parts@.take(i as int));
        out = concat_chars(&out, &chars_of(parts[i]));
        i = i + 1;
    }
    assert(parts@.take(parts.len() as int) =~= parts@);
    string_of(&out)
}

/// Texts written one after another.
pub open spec fn joined(parts: Seq<&str>) -> Seq<char>
    decreases parts.len(),
{
    if parts.len() == 0 { Seq::empty() } else { joined(parts.drop_last()) + parts.last()@ }
}

/// Writes the page shown after an authorisation server redirects back.
pub fn oauth_callback_page(provider: &str, error: Option<&str>, code: Option<&str>) -> (r: String)
    ensures
        r@ == callback_page(provider@, match error { Some(e) => Some(e@), None => None },
            match code { Some(c) => Some(c@), None => None }),
{
    let parts: Vec<&str> = match error {
        Some(e) => vec!["<!DOCTYPE html>\n<html>\n<head>\n    <meta charset=\"utf-8\">\n    <title>", provider, "授权失败", "</title>\n    <style>\n        body { font-family: -apple-system, BlinkMacSystemFont, 'Segoe UI', Roboto, sans-serif; display: flex; justify-content: center; align-items: center; height: 100vh; margin: 0; background: #f5f5f5; }\n        .container { background: white; padding: 40px; border-radius: 12px; box-shadow: 0 2px 10px rgba(0,0,0,0.1); text-align: center; }\n        .error { color: #e53935; }\n    </style>\n</head>\n<body>\n    <div class=\"container\">\n        <h2 class=\"error\">", provider, "授权失败", "</h2>\n        <p>", e, "</p>\n        <p>请关闭此窗口并重试</p>\n    </div>\n    <script>\n        if (window.opener) {\n            window.opener.postMessage({ type: 'oauth_error', error: '", e, "' }, '*');\n        }\n    </script>\n</body>\n</html>"],
        None => match code {
            Some(c) => vec!["<!DOCTYPE html>\n<html>\n<head>\n    <meta charset=\"utf-8\">\n    <title>", provider, "授权成功", "</title>\n    <style>\n        body { font-family: -apple-system, BlinkMacSystemFont, 'Segoe UI', Roboto, sans-serif; display: flex; justify-content: center; align-items: center; height: 100vh; margin: 0; background: #f5f5f5; }\n        .container { background: white; padding: 40px; border-radius: 12px; box-shadow: 0 2px 10px rgba(0,0,0,0.1); text-align: center; max-width: 500px; }\n        .success { color: #43a047; }\n    </style>\n</head>\n<body>\n    <div class=\"container\">\n        <h2 class=\"success\">", provider, "授权成功", "</h2>\n        <p>正在获取令牌...</p>\n    </div>\n    <script>\n        if (window.opener) {\n            window.opener.postMessage({ type: 'oauth_code', code: '", c, "' }, '*');\n            setTimeout(() => window.close(), 1000);\n        }\n    </script>\n</body>\n</html>"],
            None => vec!["<!DOCTYPE html>\n<html>\n<head>\n    <meta charset=\"utf-8\">\n    <title>", provider, "授权错误", "</title>\n    <style>\n        body { font-family: -apple-system, BlinkMacSystemFont, 'Segoe UI', Roboto, sans-serif; display: flex; justify-content: center; align-items: center; height: 100vh; margin: 0; background: #f5f5f5; }\n        .container { background: white; padding: 40px; border-radius: 12px; box-shadow: 0 2px 10px rgba(0,0,0,0.1); text-align: center; }\n        .error { color: #e53935; }\n    </style>\n</head>\n<body>\n    <div class=\"container\">\n        <h2 class=\"error\">", provider, "授权错误", "</h2>\n        <p>未收到授权码或错误信息</p>\n    </div>\n</body>\n</html>"],
        },
    };
    let r = join_parts(&parts);
    proof {
        reveal_with_fuel(joined, 12);
    }
    r
}

/// The tokens or the error a token exchange answers with: an error in the
/// reply is reported by its description, else its code, and no token; else
/// the tokens given.
pub fn token_exchange_outcome(access_token: Option<String>, refresh_token: Option<String>, error: Option<String>,
    error_description: Option<String>) -> (r: TokenExchangeResponse)
    ensures
        error is Some ==> r.access_token is None && r.refresh_token is None
            && r.error == (if error_description is Some { error_description } else { error }),
        error is None ==> r.access_token == access_token && r.refresh_token == refresh_token && r.error is None,
{
    match error {
        Some(e) => TokenExchangeResponse {
            refresh_token: None,
            access_token: None,
            error: Some(match error_description { Some(d) => d, None => e }),
        },
        None => TokenExchangeResponse { refresh_token, access_token, error: None },
    }
}

/// The answer to a token exchange whose request failed (`parse` false) or
/// whose reply could not be read (`parse` true): no token, and the failure.
pub fn token_exchange_failure(parse: bool, detail: &str) -> (r: TokenExchangeResponse)
    ensures
        r.access_token is None && r.refresh_token is None,
        r.error matches Some(e) && e@ == (if parse { "解析响应失败: "@ } else { "请求失败: "@ }) + detail@,
{
    let head = if parse { chars_of("解析响应失败: ") } else { chars_of("请求失败: ") };
    TokenExchangeResponse {
        refresh_token: None,
        access_token: None,
        error: Some(string_of(&concat_chars(&head, &chars_of(detail)))),
    }
}

} // verus!
