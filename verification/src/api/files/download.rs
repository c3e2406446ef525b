//! Downloads: temporary links, direct links and byte ranges.

use vstd::prelude::*;
use crate::digest::{hex_lower, random_hex};
use crate::text::{chars_of, chars_starts_with, count_chars, count_char, is_prefix, sub_chars};
use crate::num::{parse_u64, parse_u64_spec, decimal, u64_to_decimal};
use crate::api::{Refusal, refuse};
use crate::api::files::common::{join_user_path, join_user_path_spec, illegal_path_message};
use crate::models::UserPermissions;
use crate::utils::{fix_and_clean_path, clean_path};
use crate::text::{string_of, concat_chars, copy_str};

verus! {

/// A request for a temporary download link.
#[derive(Debug)]
pub struct FsDownloadReq {
    pub path: String,
    pub expire_minutes: Option<i64>,
}

/// The query of a download.
#[derive(Debug)]
pub struct DownloadQuery {
    pub sign: Option<String>,
}

/// A request for a permanent direct link.
#[derive(Debug)]
pub struct FsDirectLinkReq {
    pub path: String,
    pub expires_at: Option<String>,
    pub max_access_count: Option<i64>,
}

/// The query of a direct link access.
#[derive(Debug)]
pub struct DlinkQuery {
    pub url_only: Option<bool>,
}

pub open spec fn bytes_unit() -> Seq<char> {
    seq!['b', 'y', 't', 'e', 's', '=']
}

/// Up to the first `-`.
pub open spec fn before_dash(s: Seq<char>) -> Seq<char>
    decreases s.len(),
{
    if s.len() == 0 {
        s
    } else if s[0] == '-' {
        Seq::empty()
    } else {
        seq![s[0]] + before_dash(s.drop_first())
    }
}

/// The two sides of `bytes=A-B`, when the header has that form.
pub open spec fn range_parts(h: Seq<char>) -> Option<(Seq<char>, Seq<char>)> {
    if is_prefix(bytes_unit(), h) {
        let r = h.subrange(6, h.len() as int);
        if count_char(r, '-') == 1 {
            let a = before_dash(r);
            Some((a, r.subrange(a.len() as int + 1, r.len() as int)))
        } else {
            None
        }
    } else {
        None
    }
}

/// The inclusive byte range that a `Range` header asks for in a file of
/// `file_size` bytes; `None` when there is no usable range. `A-B` asks for
/// bytes `A` to `B` (cut at the end of the file), `A-` for `A` to the end,
/// and the suffix range `-N` for the last `N` bytes (the whole file when it
/// is shorter). An empty file has no range.
pub open spec fn range_spec(h: Option<Seq<char>>, file_size: u64) -> Option<(u64, u64)> {
    if file_size == 0 {
        None
    } else {
    match h {
        None => None,
        Some(h) => match range_parts(h) {
            None => None,
            Some(parts) => if parts.0.len() == 0 {
                match parse_u64_spec(parts.1) {
                    None => None,
                    Some(n) => if n == 0 || file_size == 0 {
                        None
                    } else {
                        Some(((file_size - (if n <= file_size { n } else { file_size })) as u64, (file_size - 1) as u64))
                    },
                }
            } else {
                match parse_u64_spec(parts.0) {
                    None => None,
                    Some(start) => {
                        let end_opt = if parts.1.len() == 0 { Some((file_size - 1) as u64) } else { parse_u64_spec(parts.1) };
                        match end_opt {
                            None => None,
                            Some(end) => if start > end || start >= file_size {
                                None
                            } else {
                                Some((start, if end <= file_size - 1 { end } else { (file_size - 1) as u64 }))
                            },
                        }
                    },
                }
            },
        },
    }
}
}


fn before_dash_len(s: &Vec<char>) -> (n: usize)
    ensures
        n <= s.len(),
        before_dash(s@) == s@.subrange(0, n as int),
        n < s.len() ==> s@[n as int] == '-',
        forall|k: int| 0 <= k < n ==> s@[k] != '-',
{
    let mut i: usize = 0;
    while i < s.len() && s[i] != '-'
        invariant
            i <= s.len(),
            forall|k: int| 0 <= k < i ==> s@[k] != '-',
        decreases s.len() - i,
    {
        i = i + 1;
    }
    proof { lemma_before_dash(s@, i as int); }
    i
}

proof fn lemma_before_dash(s: Seq<char>, i: int)
    requires
        0 <= i <= s.len(),
        forall|k: int| 0 <= k < i ==> s[k] != '-',
        i == s.len() || s[i] == '-',
    ensures
        before_dash(s) == s.subrange(0, i),
    decreases s.len(),
{
    if s.len() == 0 {
    } else if s[0] == '-' {
        assert(i == 0);
    } else {
        let t = s.drop_first();
        assert forall|k: int| 0 <= k < i - 1 implies t[k] != '-' by { assert(t[k] == s[k + 1]); }
        if i < s.len() { assert(t[i - 1] == s[i]); }
        lemma_before_dash(t, i - 1);
        assert(seq![s[0]] + t.subrange(0, i - 1) =~= s.subrange(0, i));
    }
}

/// Parses a `Range: bytes=...` header into an inclusive byte range.
pub fn parse_range_header(range_header: Option<&str>, file_size: u64) -> (r: Option<(u64, u64)>)
    ensures
        r == range_spec(match range_header { Some(h) => Some(h@), None => None }, file_size),
{
    if file_size == 0 {
        return None;
    }
    let h = match range_header {
        Some(h) => h,
        None => {
            return None;
        },
    };
    let hc = chars_of(h);
    let unit = vec!['b', 'y', 't', 'e', 's', '='];
    assert(unit@ =~= bytes_unit());
    if !chars_starts_with(&hc, &unit) {
        return None;
    }
    let spec_part = sub_chars(&hc, 6, hc.len());
    if count_chars(&spec_part, '-') != 1 {
        return None;
    }
    let k = before_dash_len(&spec_part);
    proof {
        if k == spec_part.len() {
            // one dash exists, so the scan stopped on it
            lemma_no_dash_count(spec_part@);
        }
    }
    let a = sub_chars(&spec_part, 0, k);
    let b = sub_chars(&spec_part, k + 1, spec_part.len());
    if a.len() == 0 {
        let n = match parse_u64(&b) {
            Some(n) => n,
            None => {
                return None;
            },
        };
        if n == 0 || file_size == 0 {
            return None;
        }
        let take: u64 = if n <= file_size { n } else { file_size };
        return Some((file_size - take, file_size - 1));
    }
    let start: u64 = match parse_u64(&a) {
        Some(n) => n,
        None => {
            return None;
        },
    };
    let end: u64 = if b.len() == 0 {
        file_size - 1
    } else {
        match parse_u64(&b) {
            Some(n) => n,
            None => {
                return None;
            },
        }
    };
    if start > end || start >= file_size {
        return None;
    }
    Some((start, if end < file_size - 1 { end } else { file_size - 1 }))
}

proof fn lemma_no_dash_count(s: Seq<char>)
    requires
        forall|k: int| 0 <= k < s.len() ==> s[k] != '-',
    ensures
        count_char(s, '-') == 0,
    decreases s.len(),
{
    if s.len() > 0 {
        lemma_no_dash_count(s.drop_last());
    }
}

/// Law: a range that is granted lies within the file.
pub proof fn lemma_range_within_file(h: Option<Seq<char>>, file_size: u64)
    ensures
        match range_spec(h, file_size) {
            Some((start, end)) => start <= end && end < file_size,
            None => true,
        },
{
}

/// A byte that a URL carries as it is: ASCII letters and digits, `-`,
/// `.`, `_` and `~`.
pub open spec fn is_unreserved(b: u8) -> bool {
    (48 <= b <= 57) || (65 <= b <= 90) || (97 <= b <= 122) || b == 45 || b == 46 || b == 95 || b == 126
}

/// The upper-case hexadecimal digit of a value below 16.
pub open spec fn hex_digit(d: u8) -> char {
    if d < 10 { (48 + d) as char } else { (55 + d) as char }
}

/// Bytes percent-encoded: an unreserved byte stays, any other becomes `%`
/// and its two upper-case hexadecimal digits.
pub open spec fn percent_encoded(bytes: Seq<u8>) -> Seq<char>
    decreases bytes.len(),
{
    if bytes.len() == 0 {
        Seq::empty()
    } else {
        let b = bytes.last();
        percent_encoded(bytes.drop_last()) + if is_unreserved(b) {
            seq![b as char]
        } else {
            seq!['%', hex_digit(b / 16), hex_digit(b % 16)]
        }
    }
}

/// `urlencoding::encode`. Claimed, as its source shows: every byte of the
/// text's UTF-8 form but ASCII letters, digits and `-._~` is written as
/// `%` and two upper-case hexadecimal digits.
#[verifier::external_body]
pub(crate) fn percent_encode(s: &str) -> (r: String)
    ensures
        r@ == percent_encoded(vstd::utf8::encode_utf8(s@)),
{
    urlencoding::encode(s).into_owned()
}

/// The URL path of a direct link: `/dlink/`, the sign, `/`, the file name
/// percent-encoded.
pub open spec fn dlink_path_of(sign: Seq<char>, filename: Seq<char>) -> Seq<char> {
    "/dlink/"@ + sign + seq!['/'] + percent_encoded(vstd::utf8::encode_utf8(filename))
}

/// Builds the URL path of a direct link.
pub fn dlink_path(sign: &str, filename: &str) -> (r: String)
    ensures
        r@ == dlink_path_of(sign@, filename@),
{
    let slash = vec!['/'];
    assert(slash@ =~= seq!['/']);
    let head = concat_chars(&concat_chars(&chars_of("/dlink/"), &chars_of(sign)), &slash);
    string_of(&concat_chars(&head, &chars_of(percent_encode(filename).as_str())))
}

/// The disposition of a file sent to be shown: its name as it is and
/// percent-encoded.
pub open spec fn disposition_of(filename: Seq<char>) -> Seq<char> {
    "inline; filename=\""@ + filename + "\"; filename*=UTF-8''"@ + percent_encoded(vstd::utf8::encode_utf8(filename))
}

/// Builds the `Content-Disposition` of a file sent to be shown.
pub fn content_disposition(filename: &str) -> (r: String)
    ensures
        r@ == disposition_of(filename@),
{
    let a = concat_chars(&chars_of("inline; filename=\""), &chars_of(filename));
    let b = concat_chars(&a, &chars_of("\"; filename*=UTF-8''"));
    string_of(&concat_chars(&b, &chars_of(percent_encode(filename).as_str())))
}

/// The content type `mime_guess` gives a path, from its extension
/// (`application/octet-stream` when it knows none).
pub uninterp spec fn guessed_type(path: Seq<char>) -> Seq<char>;

/// `mime_guess::from_path(..).first_or_octet_stream()`. Claimed: the result
/// is the named function of the path.
#[verifier::external_body]
fn guess_type(path: &str) -> (r: String)
    ensures
        r@ == guessed_type(path@),
{
    mime_guess::from_path(path).first_or_octet_stream().to_string()
}

/// The content type of a downloaded file.
pub fn content_type_of(path: &str) -> (r: String)
    ensures
        r@ == guessed_type(path@),
{
    guess_type(path)
}

/// The `Content-Range` of a part of a file: `bytes START-END/SIZE`.
pub open spec fn content_range_of(start: u64, end: u64, size: u64) -> Seq<char> {
    "bytes "@ + decimal(start as nat) + seq!['-'] + decimal(end as nat) + seq!['/'] + decimal(size as nat)
}

/// Builds the `Content-Range` of a part of a file.
pub fn content_range(start: u64, end: u64, size: u64) -> (r: String)
    ensures
        r@ == content_range_of(start, end, size),
{
    let dash = vec!['-'];
    assert(dash@ =~= seq!['-']);
    let slash = vec!['/'];
    assert(slash@ =~= seq!['/']);
    let a = concat_chars(&chars_of("bytes "), &u64_to_decimal(start));
    let b = concat_chars(&concat_chars(&a, &dash), &u64_to_decimal(end));
    string_of(&concat_chars(&concat_chars(&b, &slash), &u64_to_decimal(size)))
}

/// The full path of a download or direct-link request: refused (403) to a
/// user without the permission (`allowed`, or an administrator) with
/// `denied_message`, then when the path leaves the user's root.
pub fn download_path(allowed: bool, is_admin: bool, denied_message: &str, root_path: &str, req_path: &str) -> (r: Result<String, Refusal>)
    ensures
        !(allowed || is_admin) ==> (r matches Err(e) && e.code == 403 && e.message@ == denied_message@),
        (allowed || is_admin) ==> match join_user_path_spec(root_path@, clean_path(req_path@)) {
            Some(p) => r matches Ok(q) && q@ == p,
            None => r matches Err(e) && e.code == 403 && e.message@ == illegal_path_message(),
        },
{
    if !allowed && !is_admin {
        return Err(refuse(403, denied_message));
    }
    let req = fix_and_clean_path(req_path);
    match join_user_path(root_path, req.as_str()) {
        Ok(p) => Ok(p),
        Err(e) => Err(Refusal { code: 403, message: e }),
    }
}

/// A short random sign for a download link: 16 random bytes in
/// lower-case hexadecimal.
pub fn generate_sign() -> (r: String)
    ensures
        exists|b: Seq<u8>| b.len() == 16 && r@ == #[trigger] hex_lower(b),
        r@.len() == 32,
{
    random_hex(16)
}

/// The scheme and host a request came through: the forwarded scheme, else
/// `http`; the forwarded host, else the `Host` header, else empty.
pub fn request_origin(forwarded_proto: Option<&str>, forwarded_host: Option<&str>, host: Option<&str>) -> (r: (String, String))
    ensures
        r.0@ == (match forwarded_proto { Some(p) => p@, None => "http"@ }),
        r.1@ == (match forwarded_host {
            Some(h) => h@,
            None => match host { Some(h) => h@, None => Seq::empty() },
        }),
{
    let scheme = match forwarded_proto {
        Some(p) => copy_str(p),
        None => copy_str("http"),
    };
    let h = match forwarded_host {
        Some(h) => copy_str(h),
        None => match host {
            Some(h) => copy_str(h),
            None => String::new(),
        },
    };
    (scheme, h)
}

/// The URL of a link path served to a request: the path alone when the
/// request's host is unknown, else `<scheme>://<host><path>`.
pub fn link_url(scheme: &str, host: &str, path: &str) -> (r: String)
    ensures
        host@.len() == 0 ==> r@ == path@,
        host@.len() > 0 ==> r@ == scheme@ + "://"@ + host@ + path@,
{
    if chars_of(host).len() == 0 {
        return copy_str(path);
    }
    let a = concat_chars(&chars_of(scheme), &chars_of("://"));
    let b = concat_chars(&a, &chars_of(host));
    string_of(&concat_chars(&b, &chars_of(path)))
}

} // verus!
