//! WebDAV access: the credentials of a request's Basic authorization.

use vstd::prelude::*;
use crate::encoding::utf8_text;
use crate::digest::base64_text;
use crate::text::{chars_of, chars_starts_with, is_prefix, string_of, sub_chars};
use base64::Engine;

verus! {

/// What the standard Base64 engine of `base64` decodes from a text: the
/// bytes, or `None` when the text is not standard padded Base64.
pub uninterp spec fn base64_decoded(s: Seq<char>) -> Option<Seq<u8>>;

/// `base64::engine::general_purpose::STANDARD.decode`. Claimed: the result
/// is the named function of the text, and, as the engine accepts only
/// canonical padded text, the bytes decoded are those whose standard
/// Base64 the text is, and a text that is the Base64 of no bytes is refused.
#[verifier::external_body]
fn base64_decode(s: &str) -> (r: Option<Vec<u8>>)
    ensures
        match r {
            Some(v) => base64_decoded(s@) == Some(v@),
            None => base64_decoded(s@) is None,
        },
        r matches Some(v) ==> s@ == base64_text(v@),
        r is None ==> forall|b: Seq<u8>| #[trigger] base64_text(b) != s@,
{
    match base64::engine::general_purpose::STANDARD.decode(s) {
        Ok(v) => Some(v),
        Err(_) => None,
    }
}

/// `text` split at its first `:`, the colon itself dropped; `None` when
/// there is no colon.
pub open spec fn split_at_colon(text: Seq<char>) -> Option<(Seq<char>, Seq<char>)> {
    if exists|i: int| 0 <= i < text.len() && text[i] == ':' && forall|j: int| 0 <= j < i ==> text[j] != ':' {
        let i = choose|i: int| 0 <= i < text.len() && text[i] == ':' && forall|j: int| 0 <= j < i ==> text[j] != ':';
        Some((text.subrange(0, i), text.subrange(i + 1, text.len() as int)))
    } else {
        None
    }
}

/// The user name and password of a Basic authorization: `Basic `, then
/// Base64 of UTF-8 text `user:password` (split at the first `:`).
pub open spec fn basic_credentials_of(header: Seq<char>) -> Option<(Seq<char>, Seq<char>)> {
    if !is_prefix("Basic "@, header) {
        None
    } else {
        match base64_decoded(header.subrange(6, header.len() as int)) {
            None => None,
            Some(bytes) => if !vstd::utf8::valid_utf8(bytes) {
                None
            } else {
                split_at_colon(vstd::utf8::decode_utf8(bytes))
            },
        }
    }
}

/// Reads the credentials of a Basic authorization header.
pub fn basic_credentials(header: &str) -> (r: Option<(String, String)>)
    ensures
        match basic_credentials_of(header@) {
            Some((u, p)) => r matches Some((a, b)) && a@ == u && b@ == p,
            None => r is None,
        },
{
    let h = chars_of(header);
    let basic = chars_of("Basic ");
    proof { reveal_strlit("Basic "); }
    if !chars_starts_with(&h, &basic) {
        return None;
    }
    let encoded = string_of(&sub_chars(&h, 6, h.len()));
    let bytes = match base64_decode(encoded.as_str()) {
        Some(b) => b,
        None => {
            return None;
        },
    };
    let text = match utf8_text(bytes.as_slice()) {
        Some(t) => chars_of(t.as_str()),
        None => {
            return None;
        },
    };
    assert(basic_credentials_of(header@) == split_at_colon(text@));
    let mut i: usize = 0;
    while i < text.len()
        invariant
            i <= text.len(),
            forall|j: int| 0 <= j < i ==> text@[j] != ':',
            basic_credentials_of(header@) == split_at_colon(text@),
        decreases text.len() - i,
    {
        if text[i] == ':' {
            let ghost t = text@;
            assert(exists|k: int| 0 <= k < t.len() && t[k] == ':' && forall|j: int| 0 <= j < k ==> t[j] != ':');
            let ghost c = choose|k: int| 0 <= k < t.len() && t[k] == ':' && forall|j: int| 0 <= j < k ==> t[j] != ':';
            assert(c == i as int) by {
                if c < i as int {
                    assert(t[c] != ':');
                } else if c > i as int {
                    assert(t[i as int] != ':');
                }
            }
            return Some((string_of(&sub_chars(&text, 0, i)), string_of(&sub_chars(&text, i + 1, text.len()))));
        }
        i = i + 1;
    }
    None
}

} // verus!
